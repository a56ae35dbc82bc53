use move_binding::text::{decimal_text, order_of, replace_all, same_text, TextOrder};

#[test]
fn replaces_like_the_standard_library() {
    let cases = [
        ("", "a", "b"),
        ("abc", "abc", ""),
        ("aaaa", "aa", "b"),
        ("aaaaa", "aa", "b"),
        ("$first and $first, $firs", "$first", "50"),
        ("äöäü", "ä", "ae"),
        ("abab", "ab", "abab"),
        ("short", "longer than that", "x"),
    ];
    for (text, pattern, with) in cases {
        assert_eq!(replace_all(text, pattern, with), text.replace(pattern, with));
    }
}

#[test]
fn prints_decimals_like_the_standard_library() {
    for n in [0u32, 1, 9, 10, 50, 99, 100, 65535, 1234567890, u32::MAX] {
        assert_eq!(decimal_text(n), n.to_string());
    }
}

#[test]
fn orders_texts_like_the_standard_library() {
    let texts = ["", "a", "aa", "ab", "b", "A", "_", "é", "€", "😀", "a\u{0}"];
    for a in texts {
        for b in texts {
            let order = order_of(a, b);
            assert_eq!(order == TextOrder::Before, a < b);
            assert_eq!(order == TextOrder::Same, a == b);
            assert_eq!(order == TextOrder::After, a > b);
            assert_eq!(same_text(a, b), a == b);
        }
    }
}
