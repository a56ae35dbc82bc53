use std::str::FromStr;

use move_binding::address::Address;
use move_binding::error::Error;

fn full(last: &str) -> String {
    format!("0x{:0>64}", last)
}

#[test]
fn short_texts_are_filled_up_on_the_left() {
    let address = Address::from_str("0x2").unwrap();
    assert_eq!(address, Address::from_u8(2));
    assert_eq!(address.to_text(), full("2"));
    assert_eq!(Address::from_str("a1B").unwrap().to_text(), full("a1b"));
    assert_eq!(Address::from_str("a1B").unwrap().bytes[30], 0x0a);
    assert_eq!(Address::from_str("a1B").unwrap().bytes[31], 0x1b);
}

#[test]
fn full_texts_come_back() {
    let mut bytes = [0u8; 32];
    for (i, byte) in bytes.iter_mut().enumerate() {
        *byte = (i * 37 + 11) as u8;
    }
    let address = Address { bytes };
    let text = address.to_text();
    assert_eq!(text.len(), 66);
    assert_eq!(Address::from_str(&text).unwrap(), address);
    assert_eq!(Address::from_str(&text[2..]).unwrap(), address);
    assert!(address.same(&Address::from_str(&text).unwrap()));
    assert!(!address.same(&Address::from_u8(1)));
}

#[test]
fn texts_differ_where_addresses_do() {
    let mut texts: Vec<String> = (0..=255u8).map(|last| Address::from_u8(last).to_text()).collect();
    texts.sort();
    texts.dedup();
    assert_eq!(texts.len(), 256);
}

#[test]
fn what_is_no_address_is_refused() {
    let too_long = format!("0x1{}", "0".repeat(64));
    for text in ["", "0x", "0xg", "0x0x1", " 1", "0X1", "é", too_long.as_str()] {
        match Address::from_str(text) {
            Err(Error::InvalidAddress { text: refused, reason }) => {
                assert_eq!(refused, text);
                let theirs = sui_sdk_types::Address::from_str(text).unwrap_err();
                assert_eq!(reason, theirs.to_string());
                assert_eq!(reason, "Unable to parse Address (must be hex string of length 32)");
            }
            other => panic!("{text:?} gave {other:?}"),
        }
    }
}

#[test]
fn agrees_with_the_addresses_of_the_chain() {
    for text in ["0x1", "2", "0xdee9", "", "0x", "0xZ", "0X1", "0x00000000000000000000000000000000000000000000000000000000000000001"] {
        match (Address::from_str(text), sui_sdk_types::Address::from_str(text)) {
            (Ok(ours), Ok(theirs)) => {
                assert_eq!(ours.bytes, theirs.into_inner());
                assert_eq!(ours.to_text(), theirs.to_string());
            }
            (Err(_), Err(_)) => {}
            (ours, theirs) => panic!("{text:?}: {ours:?} and {theirs:?}"),
        }
    }
}
