//! Addresses and their texts.

use vstd::prelude::*;

use crate::address::{
    address_text, hex_part, hex_value, nibble, short_address, spelled_address, spells_address,
};

verus! {

/// A text spells an address exactly if it is made of between one and 64 hexadecimal digits, in
/// either case, with or without a `0x` before them.
pub proof fn law_what_spells_an_address(text: Seq<char>)
    ensures
        spells_address(text) <==> exists|digits: Seq<char>|
            {
                &&& #[trigger] digits.len() >= 1
                &&& digits.len() <= 64
                &&& text == digits || text == seq!['0', 'x'] + digits
                &&& forall|i: int|
                    0 <= i < digits.len() ==> {
                        ||| '0' <= #[trigger] digits[i] <= '9'
                        ||| 'a' <= digits[i] <= 'f'
                        ||| 'A' <= digits[i] <= 'F'
                    }
            },
{
    if spells_address(text) {
        let digits = hex_part(text);
        assert forall|i: int| 0 <= i < digits.len() implies {
            ||| '0' <= #[trigger] digits[i] <= '9'
            ||| 'a' <= digits[i] <= 'f'
            ||| 'A' <= digits[i] <= 'F'
        } by {
            assert(hex_value(digits[i]) is Some);
        }
        if text.len() >= 2 && text[0] == '0' && text[1] == 'x' {
            assert(text =~= seq!['0', 'x'] + digits);
        }
        assert(digits.len() >= 1);
    }
    assert forall|digits: Seq<char>|
        {
            &&& #[trigger] digits.len() >= 1
            &&& digits.len() <= 64
            &&& text == digits || text == seq!['0', 'x'] + digits
            &&& forall|i: int|
                0 <= i < digits.len() ==> {
                    ||| '0' <= #[trigger] digits[i] <= '9'
                    ||| 'a' <= digits[i] <= 'f'
                    ||| 'A' <= digits[i] <= 'F'
                }
        } implies spells_address(text) by {
        lemma_digits_of(text, digits);
    }
}

/// The digits in a text are those behind its `0x`, or the text itself.
proof fn lemma_digits_of(text: Seq<char>, digits: Seq<char>)
    requires
        text == digits || text == seq!['0', 'x'] + digits,
        forall|i: int|
            0 <= i < digits.len() ==> {
                ||| '0' <= #[trigger] digits[i] <= '9'
                ||| 'a' <= digits[i] <= 'f'
                ||| 'A' <= digits[i] <= 'F'
            },
    ensures
        hex_part(text) == digits,
        forall|i: int| 0 <= i < digits.len() ==> #[trigger] hex_value(digits[i]) is Some,
{
    if text == seq!['0', 'x'] + digits {
        assert(text[0] == '0' && text[1] == 'x');
        assert(text.skip(2) =~= digits);
    } else if digits.len() >= 2 {
        assert(digits[1] != 'x');
    }
}

/// The digits of an address are its bytes, two to a byte and the higher one first, counted
/// from the end; digits that are missing at the front are zeros.
pub proof fn law_spelled_bytes(text: Seq<char>, digits: Seq<char>, i: int)
    requires
        1 <= digits.len() <= 64,
        text == digits || text == seq!['0', 'x'] + digits,
        forall|k: int|
            0 <= k < digits.len() ==> {
                ||| '0' <= #[trigger] digits[k] <= '9'
                ||| 'a' <= digits[k] <= 'f'
                ||| 'A' <= digits[k] <= 'F'
            },
        0 <= i < 32,
    ensures
        ({
            let value = |k: int|
                if k < 0 {
                    0int
                } else if '0' <= digits[k] <= '9' {
                    digits[k] as int - '0' as int
                } else if 'a' <= digits[k] <= 'f' {
                    digits[k] as int - 'a' as int + 10
                } else {
                    digits[k] as int - 'A' as int + 10
                };
            let last = digits.len() - 1;
            &&& spelled_address(text).len() == 32
            &&& spelled_address(text)[31 - i] == 16 * value(last - 2 * i - 1) + value(last - 2 * i)
        }),
{
    lemma_digits_of(text, digits);
    let (high, low) = (2 * (31 - i), 2 * (31 - i) + 1);
    let missing = 64 - digits.len();
    if high >= missing {
        assert(hex_value(digits[high - missing]) is Some);
    }
    if low >= missing {
        assert(hex_value(digits[low - missing]) is Some);
    }
    let (x, y) = (nibble(digits, high), nibble(digits, low));
    assert(0 <= x < 16 && 0 <= y < 16);
}

/// The text of an address is `0x` and two lower-case digits for each byte, the higher one
/// first.
pub proof fn law_printed_bytes(bytes: Seq<u8>, i: int)
    requires
        0 <= i < bytes.len(),
    ensures
        ({
            let digit = |n: int|
                if n < 10 {
                    ('0' as int + n) as char
                } else {
                    ('a' as int + n - 10) as char
                };
            let text = address_text(bytes);
            &&& text.len() == 2 + 2 * bytes.len()
            &&& text[0] == '0'
            &&& text[1] == 'x'
            &&& text[2 + 2 * i] == digit(bytes[i] as int / 16)
            &&& text[3 + 2 * i] == digit(bytes[i] as int % 16)
        }),
{
    assert((2 * i) / 2 == i && (2 * i) % 2 == 0);
    assert((2 * i + 1) / 2 == i && (2 * i + 1) % 2 == 1);
}

/// A short address is 31 zeros and a last byte.
pub proof fn law_short_address(last: u8)
    ensures
        short_address(last).len() == 32,
        short_address(last)[31] == last,
        forall|i: int| 0 <= i < 31 ==> #[trigger] short_address(last)[i] == 0,
{
}

} // verus!
