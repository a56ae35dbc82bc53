//! Addresses of packages on chain.

use std::str::FromStr;

use vstd::prelude::*;

use crate::error::{Error, ErrorModel};

verus! {

/// An address: 32 bytes.
#[derive(Clone, Copy, Debug, PartialEq, Eq, Hash)]
pub struct Address {
    pub bytes: [u8; 32],
}

impl View for Address {
    type V = Seq<u8>;

    open spec fn view(&self) -> Seq<u8> {
        self.bytes@
    }
}

/// The value of a hexadecimal digit in either case.
pub open spec fn hex_value(c: char) -> Option<int> {
    if '0' <= c <= '9' {
        Some(c as int - '0' as int)
    } else if 'A' <= c <= 'F' {
        Some(c as int - 'A' as int + 10)
    } else if 'a' <= c <= 'f' {
        Some(c as int - 'a' as int + 10)
    } else {
        None
    }
}

/// The lower-case hexadecimal digit of a value below 16.
pub open spec fn hex_digit(value: int) -> char {
    if value < 10 {
        ('0' as int + value) as char
    } else {
        ('a' as int + value - 10) as char
    }
}

/// `text` without a leading `0x`.
pub open spec fn hex_part(text: Seq<char>) -> Seq<char> {
    if text.len() >= 2 && text[0] == '0' && text[1] == 'x' {
        text.skip(2)
    } else {
        text
    }
}

/// Whether `text` spells an address: between one and 64 hexadecimal digits, with or
/// without a leading `0x`.
pub open spec fn spells_address(text: Seq<char>) -> bool {
    let digits = hex_part(text);
    &&& 1 <= digits.len() <= 64
    &&& forall|i: int| 0 <= i < digits.len() ==> #[trigger] hex_value(digits[i]) is Some
}

/// Digit `i` of the 64 digits of an address, which zeros fill up on the left.
pub open spec fn nibble(digits: Seq<char>, i: int) -> int {
    let missing = 64 - digits.len();
    if i < missing {
        0
    } else {
        hex_value(digits[i - missing])->0
    }
}

/// The address that `text` spells.
pub open spec fn spelled_address(text: Seq<char>) -> Seq<u8> {
    let digits = hex_part(text);
    Seq::new(32, |i: int| (16 * nibble(digits, 2 * i) + nibble(digits, 2 * i + 1)) as u8)
}

/// An address in full: `0x` and two lower-case digits for each byte.
pub open spec fn address_text(bytes: Seq<u8>) -> Seq<char> {
    seq!['0', 'x'] + Seq::new(
        2 * bytes.len(),
        |i: int|
            hex_digit(
                if i % 2 == 0 {
                    bytes[i / 2] as int / 16
                } else {
                    bytes[i / 2] as int % 16
                },
            ),
    )
}

/// The error of the outside parser of addresses.
#[verifier::external_type_specification]
#[verifier::external_body]
pub struct ExAddressParseError(sui_sdk_types::AddressParseError);

/// `sui_sdk_types::Address::from_str`: it strips one leading `0x`, takes between one and
/// 64 hexadecimal digits in either case, fills them up with zeros on the left and
/// refuses everything else.
#[verifier::external_body]
fn parse_hex(text: &str) -> (result: Result<[u8; 32], sui_sdk_types::AddressParseError>)
    ensures
        result is Ok <==> spells_address(text@),
        result matches Ok(bytes) ==> bytes@ == spelled_address(text@),
{
    match sui_sdk_types::Address::from_str(text) {
        Ok(address) => Ok(address.into_inner()),
        Err(error) => Err(error),
    }
}

/// The `Display` of `sui_sdk_types::Address`: `0x` and each byte as two lower-case
/// hexadecimal digits.
#[verifier::external_body]
fn print_hex(bytes: [u8; 32]) -> (text: String)
    ensures
        text@ == address_text(bytes@),
{
    sui_sdk_types::Address::new(bytes).to_string()
}

/// What the outside parser says of every text that spells no address.
pub open spec fn address_refusal() -> Seq<char> {
    "Unable to parse Address (must be hex string of length 32)"@
}

/// The `Display` of `sui_sdk_types::AddressParseError`: the same text for every error.
#[verifier::external_body]
fn print_refusal(error: &sui_sdk_types::AddressParseError) -> (text: String)
    ensures
        text@ == address_refusal(),
{
    error.to_string()
}

/// 31 zeros, then `last`.
pub open spec fn short_address(last: u8) -> Seq<u8> {
    Seq::new(32, |i: int| if i == 31 { last } else { 0 })
}

impl Address {
    /// The address whose last byte is `last` and whose other bytes are zero.
    pub fn from_u8(last: u8) -> (address: Self)
        ensures
            address@ == short_address(last),
    {
        let mut bytes: [u8; 32] = [0; 32];
        bytes[31] = last;
        assert(bytes@ =~= short_address(last));
        Address { bytes }
    }

    /// Reads an address from its hexadecimal text.
    pub fn from_str(text: &str) -> (result: Result<Self, Error>)
        ensures
            match result {
                Ok(address) => spells_address(text@) && address@ == spelled_address(text@),
                Err(error) => !spells_address(text@) && error@ == (ErrorModel::InvalidAddress {
                    text: text@,
                    reason: address_refusal(),
                }),
            },
    {
        match parse_hex(text) {
            Ok(bytes) => Ok(Address { bytes }),
            Err(error) => Err(
                Error::InvalidAddress { text: text.to_owned(), reason: print_refusal(&error) },
            ),
        }
    }

    /// The address in full.
    pub fn to_text(&self) -> (text: String)
        ensures
            text@ == address_text(self@),
    {
        print_hex(self.bytes)
    }

    /// Whether this is the same address as `other`.
    pub fn same(&self, other: &Address) -> (same: bool)
        ensures
            same == (self@ == other@),
    {
        let mut i: usize = 0;
        while i < 32
            invariant
                i <= 32,
                forall|j: int| 0 <= j < i ==> self.bytes@[j] == other.bytes@[j],
            decreases 32 - i,
        {
            if self.bytes[i] != other.bytes[i] {
                return false;
            }
            i += 1;
        }
        assert(self@ =~= other@);
        true
    }
}

/// The text of an address spells that address.
pub proof fn law_address_round_trip(bytes: Seq<u8>)
    requires
        bytes.len() == 32,
    ensures
        spells_address(address_text(bytes)),
        spelled_address(address_text(bytes)) == bytes,
{
    let text = address_text(bytes);
    let digits = hex_part(text);
    assert(text[0] == '0' && text[1] == 'x');
    assert(digits.len() == 64);
    assert forall|i: int| 0 <= i < 64 implies #[trigger] hex_value(digits[i]) == Some(
        if i % 2 == 0 {
            bytes[i / 2] as int / 16
        } else {
            bytes[i / 2] as int % 16
        },
    ) by {
        let value = if i % 2 == 0 {
            bytes[i / 2] as int / 16
        } else {
            bytes[i / 2] as int % 16
        };
        assert(digits[i] == text[i + 2]);
        assert(digits[i] == hex_digit(value));
        assert(0 <= value < 16);
    }
    assert forall|i: int| 0 <= i < 32 implies spelled_address(text)[i] == bytes[i] by {
        assert(hex_value(digits[2 * i]) is Some);
        assert(hex_value(digits[2 * i + 1]) is Some);
        assert((2 * i) / 2 == i && (2 * i) % 2 == 0);
        assert((2 * i + 1) / 2 == i && (2 * i + 1) % 2 == 1);
        assert(nibble(digits, 2 * i) == bytes[i] as int / 16);
        assert(nibble(digits, 2 * i + 1) == bytes[i] as int % 16);
    }
    assert(spelled_address(text) =~= bytes);
}

/// Different addresses have different texts.
pub proof fn law_address_text_injective(a: Seq<u8>, b: Seq<u8>)
    requires
        a.len() == 32,
        b.len() == 32,
        address_text(a) == address_text(b),
    ensures
        a == b,
{
    law_address_round_trip(a);
    law_address_round_trip(b);
}

} // verus!
