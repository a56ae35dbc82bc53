//! Text: comparison, order, decimal numbers, replacement and joining.

use itertools::Itertools;
use vstd::prelude::*;
use vstd::utf8::{encode_utf8, encode_utf8_decode_utf8};

use crate::model::models;

verus! {

/// How two texts stand to each other in the order of their UTF-8 bytes.
#[derive(Clone, Copy, Debug, PartialEq, Eq, Structural)]
pub enum TextOrder {
    Before,
    Same,
    After,
}

/// `a` and `b` agree before position `i`, and at `i` either `a` has ended or its
/// byte is the smaller one.
pub open spec fn falls_behind_at(a: Seq<u8>, b: Seq<u8>, i: int) -> bool {
    &&& 0 <= i <= a.len()
    &&& i < b.len()
    &&& forall|j: int| 0 <= j < i ==> a[j] == b[j]
    &&& i == a.len() || a[i] < b[i]
}

/// The lexicographic order of byte strings.
pub open spec fn bytes_before(a: Seq<u8>, b: Seq<u8>) -> bool {
    exists|i: int| falls_behind_at(a, b, i)
}

/// The order of texts: that of their UTF-8 bytes.
pub open spec fn text_before(a: Seq<char>, b: Seq<char>) -> bool {
    bytes_before(encode_utf8(a), encode_utf8(b))
}

/// Texts with the same UTF-8 bytes are the same.
proof fn lemma_same_bytes(a: Seq<char>, b: Seq<char>)
    ensures
        encode_utf8(a) == encode_utf8(b) <==> a == b,
{
    encode_utf8_decode_utf8(a);
    encode_utf8_decode_utf8(b);
}

/// No text comes before itself.
pub proof fn law_text_order_irreflexive(a: Seq<char>)
    ensures
        !text_before(a, a),
{
}

/// The order of texts is transitive.
pub proof fn law_text_order_transitive(a: Seq<char>, b: Seq<char>, c: Seq<char>)
    requires
        text_before(a, b),
        text_before(b, c),
    ensures
        text_before(a, c),
{
    let (x, y, z) = (encode_utf8(a), encode_utf8(b), encode_utf8(c));
    let i = choose|i: int| falls_behind_at(x, y, i);
    let j = choose|j: int| falls_behind_at(y, z, j);
    let k = if i < j { i } else { j };
    assert(falls_behind_at(x, z, k));
}

/// Of two different texts exactly one comes before the other.
pub proof fn law_text_order_total(a: Seq<char>, b: Seq<char>)
    ensures
        a != b ==> text_before(a, b) || text_before(b, a),
        !(text_before(a, b) && text_before(b, a)),
{
    let (x, y) = (encode_utf8(a), encode_utf8(b));
    lemma_same_bytes(a, b);
    if text_before(a, b) && text_before(b, a) {
        law_text_order_transitive(a, b, a);
        law_text_order_irreflexive(a);
    }
    if a != b {
        lemma_first_difference(x, y, 0);
    }
}

/// Byte strings that agree before `i` and differ somewhere are ordered.
proof fn lemma_first_difference(x: Seq<u8>, y: Seq<u8>, i: int)
    requires
        x != y,
        0 <= i <= x.len(),
        i <= y.len(),
        forall|j: int| 0 <= j < i ==> x[j] == y[j],
    ensures
        bytes_before(x, y) || bytes_before(y, x),
    decreases x.len() - i,
{
    if i == x.len() {
        if i == y.len() {
            assert(x =~= y);
        } else {
            assert(falls_behind_at(x, y, i));
        }
    } else if i == y.len() {
        assert(falls_behind_at(y, x, i));
    } else if x[i] < y[i] {
        assert(falls_behind_at(x, y, i));
    } else if y[i] < x[i] {
        assert(falls_behind_at(y, x, i));
    } else {
        lemma_first_difference(x, y, i + 1);
    }
}

/// How `a` stands to `b`.
pub fn order_of(a: &str, b: &str) -> (order: TextOrder)
    ensures
        order == TextOrder::Before <==> text_before(a@, b@),
        order == TextOrder::Same <==> a@ == b@,
        order == TextOrder::After <==> text_before(b@, a@),
{
    let x: &[u8] = a.as_bytes();
    let y: &[u8] = b.as_bytes();
    let mut i: usize = 0;
    proof {
        law_text_order_total(a@, b@);
        law_text_order_irreflexive(a@);
        lemma_same_bytes(a@, b@);
    }
    while i < x.len() && i < y.len()
        invariant
            x@ == encode_utf8(a@),
            y@ == encode_utf8(b@),
            0 <= i <= x.len(),
            i <= y.len(),
            forall|j: int| 0 <= j < i ==> x[j] == y[j],
            !(text_before(a@, b@) && text_before(b@, a@)),
            a@ == b@ ==> !text_before(a@, b@),
        decreases x.len() - i,
    {
        if x[i] < y[i] {
            assert(falls_behind_at(x@, y@, i as int));
            return TextOrder::Before;
        }
        if y[i] < x[i] {
            assert(falls_behind_at(y@, x@, i as int));
            return TextOrder::After;
        }
        i += 1;
    }
    if i < y.len() {
        assert(falls_behind_at(x@, y@, i as int));
        TextOrder::Before
    } else if i < x.len() {
        assert(falls_behind_at(y@, x@, i as int));
        TextOrder::After
    } else {
        assert(x@ =~= y@);
        TextOrder::Same
    }
}

/// Whether `a` and `b` hold the same text.
pub fn same_text(a: &str, b: &str) -> (same: bool)
    ensures
        same == (a@ == b@),
{
    order_of(a, b) == TextOrder::Same
}

/// The decimal digit `d`.
pub open spec fn digit(d: nat) -> char {
    (48 + d) as char
}

/// `n` in decimal, without leading zeros.
pub open spec fn decimal(n: nat) -> Seq<char>
    decreases n,
{
    if n < 10 {
        seq![digit(n)]
    } else {
        decimal(n / 10).push(digit(n % 10))
    }
}

/// Different numbers have different decimals.
pub proof fn law_decimal_injective(a: nat, b: nat)
    requires
        decimal(a) == decimal(b),
    ensures
        a == b,
    decreases a,
{
    lemma_decimal_len(a);
    lemma_decimal_len(b);
    if a >= 10 {
        let (x, y) = (decimal(a), decimal(b));
        assert(x.drop_last() =~= decimal(a / 10));
        assert(y.drop_last() =~= decimal(b / 10));
        assert(x.last() == digit(a % 10) && y.last() == digit(b % 10));
        assert(digit(a % 10) as int == 48 + a % 10 && digit(b % 10) as int == 48 + b % 10);
        law_decimal_injective(a / 10, b / 10);
    } else {
        assert(decimal(a)[0] == digit(a) && decimal(b)[0] == digit(b));
        assert(digit(a) as int == 48 + a && digit(b) as int == 48 + b);
    }
}

/// Exactly the numbers below ten have a single digit.
proof fn lemma_decimal_len(n: nat)
    ensures
        decimal(n).len() >= 1,
        decimal(n).len() == 1 <==> n < 10,
    decreases n,
{
    if n >= 10 {
        lemma_decimal_len(n / 10);
    }
}

/// The text of a single decimal digit.
fn digit_text(d: u32) -> (text: &'static str)
    requires
        d < 10,
    ensures
        text@ == seq![digit(d as nat)],
{
    proof {
        reveal_strlit("0");
        reveal_strlit("1");
        reveal_strlit("2");
        reveal_strlit("3");
        reveal_strlit("4");
        reveal_strlit("5");
        reveal_strlit("6");
        reveal_strlit("7");
        reveal_strlit("8");
        reveal_strlit("9");
    }
    match d {
        0 => "0",
        1 => "1",
        2 => "2",
        3 => "3",
        4 => "4",
        5 => "5",
        6 => "6",
        7 => "7",
        8 => "8",
        _ => "9",
    }
}

/// `n` in decimal.
pub fn decimal_text(n: u32) -> (text: String)
    ensures
        text@ == decimal(n as nat),
    decreases n,
{
    if n < 10 {
        String::from_str(digit_text(n))
    } else {
        let mut text: String = decimal_text(n / 10);
        text.append(digit_text(n % 10));
        text
    }
}

/// `text` with every occurrence of `pattern`, found from left to right and without
/// overlap, replaced by `with`.
pub open spec fn replaced(text: Seq<char>, pattern: Seq<char>, with: Seq<char>) -> Seq<char>
    decreases text.len(),
{
    if pattern.len() == 0 || text.len() < pattern.len() {
        text
    } else if text.take(pattern.len() as int) == pattern {
        with + replaced(text.skip(pattern.len() as int), pattern, with)
    } else {
        text.take(1) + replaced(text.skip(1), pattern, with)
    }
}

/// Replaces every occurrence of a non-empty `pattern` in `text`.
pub fn replace_all(text: &str, pattern: &str, with: &str) -> (result: String)
    requires
        pattern@.len() > 0,
    ensures
        result@ == replaced(text@, pattern@, with@),
{
    let len: usize = text.unicode_len();
    let width: usize = pattern.unicode_len();
    let mut result: String = String::new();
    let mut at: usize = 0;
    proof {
        assert(text@.skip(0) =~= text@);
    }
    while width <= len - at
        invariant
            len == text@.len(),
            width == pattern@.len(),
            width > 0,
            at <= len,
            replaced(text@, pattern@, with@) == result@ + replaced(
                text@.skip(at as int),
                pattern@,
                with@,
            ),
        decreases len - at,
    {
        let ghost rest = text@.skip(at as int);
        proof {
            assert(rest.take(width as int) =~= text@.subrange(at as int, at + width));
            assert(rest.skip(width as int) =~= text@.skip(at + width));
            assert(rest.take(1) =~= text@.subrange(at as int, at + 1));
            assert(rest.skip(1) =~= text@.skip(at + 1));
        }
        let ghost before = result@;
        if same_text(text.substring_char(at, at + width), pattern) {
            result.append(with);
            at += width;
            assert(before + (with@ + replaced(text@.skip(at as int), pattern@, with@)) =~= (before
                + with@) + replaced(text@.skip(at as int), pattern@, with@));
        } else {
            result.append(text.substring_char(at, at + 1));
            at += 1;
            assert(before + (rest.take(1) + replaced(text@.skip(at as int), pattern@, with@)) =~= (
            before + rest.take(1)) + replaced(text@.skip(at as int), pattern@, with@));
        }
    }
    proof {
        assert(text@.subrange(at as int, len as int) =~= text@.skip(at as int));
    }
    result.append(text.substring_char(at, len));
    result
}

/// The texts of `parts` in order, with `separator` between neighbours.
pub open spec fn joined(parts: Seq<Seq<char>>, separator: Seq<char>) -> Seq<char>
    decreases parts.len(),
{
    if parts.len() == 0 {
        seq![]
    } else if parts.len() == 1 {
        parts[0]
    } else {
        joined(parts.drop_last(), separator) + separator + parts.last()
    }
}

/// `itertools::Itertools::join` over the texts: it writes each of them once, in
/// order, with the separator between neighbours, and gives the empty text for no
/// parts. It reserves room for one separator per part beforehand; a separator of at
/// most eight bytes is shorter than the `String` it stands beside, so that this
/// estimate cannot overflow.
#[verifier::external_body]
pub(crate) fn join(parts: &Vec<String>, separator: &str) -> (text: String)
    requires
        encode_utf8(separator@).len() <= 8,
    ensures
        text@ == joined(models(parts@), separator@),
{
    parts.iter().join(separator)
}

} // verus!
