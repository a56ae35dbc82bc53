use move_binding::address::Address;
use move_binding::normalized::{Datatype, Type};
use move_binding::types::{move_stdlib, BindingRegistry, ToRustType};

fn datatype(address: Address, module: &str, name: &str, type_arguments: Vec<Type>) -> Type {
    Type::Datatype(Box::new(Datatype {
        address,
        module: module.to_string(),
        name: name.to_string(),
        type_arguments,
    }))
}

fn rust(type_: &Type) -> String {
    type_.to_rust_type(&BindingRegistry::new())
}

#[test]
fn the_standard_library_is_at_address_one() {
    assert_eq!(move_stdlib(), Address::from_u8(1));
    assert_eq!(move_stdlib().bytes[31], 1);
}

#[test]
fn primitive_types_are_spelled() {
    let cases = [
        (Type::Bool, "bool"),
        (Type::U8, "u8"),
        (Type::U16, "u16"),
        (Type::U32, "u32"),
        (Type::U64, "u64"),
        (Type::U128, "u128"),
        (Type::U256, "move_types::U256"),
        (Type::Address, "Address"),
        (Type::Signer, "Address"),
        (Type::TypeParameter(0), "T0"),
        (Type::TypeParameter(65535), "T65535"),
        (Type::Vector(Box::new(Type::Vector(Box::new(Type::U8)))), "Vec<Vec<u8>>"),
        (Type::Reference(false, Box::new(Type::U8)), "&'static u8"),
        (Type::Reference(true, Box::new(Type::U8)), "&'static u8"),
    ];
    for (type_, expected) in cases {
        assert_eq!(rust(&type_), expected);
        assert_eq!(type_.is_ref(), matches!(type_, Type::Reference(_, _)));
    }
}

#[test]
fn arguments_are_spelled() {
    let registry = BindingRegistry::new();
    assert_eq!(Type::U8.to_arg_type(&registry), "Arg<u8>");
    assert_eq!(
        Type::Reference(true, Box::new(Type::TypeParameter(1))).to_arg_type(&registry),
        "MutRef<'a, T1>"
    );
    assert_eq!(
        Type::Reference(false, Box::new(Type::Vector(Box::new(Type::U8)))).to_arg_type(&registry),
        "Ref<'a, Vec<u8>>"
    );
}

#[test]
fn known_types_are_spelled_in_any_registry() {
    let one = Address::from_u8(1);
    let two = Address::from_u8(2);
    let mut registry = BindingRegistry::new();
    registry.insert(one, "stdlib".to_string());
    registry.insert(two, "framework".to_string());
    let cases = [
        (datatype(one, "type_name", "TypeName", vec![]), "String"),
        (datatype(one, "string", "String", vec![]), "String"),
        (datatype(one, "ascii", "String", vec![]), "String"),
        (datatype(two, "object", "UID", vec![]), "ObjectId"),
        (datatype(two, "object", "ID", vec![Type::U8]), "ObjectId"),
        (datatype(one, "option", "Option", vec![Type::U64]), "Option<u64>"),
        (
            datatype(one, "option", "Option", vec![datatype(two, "object", "ID", vec![]), Type::U8]),
            "Option<ObjectId>",
        ),
    ];
    for (type_, expected) in cases {
        assert_eq!(rust(&type_), expected);
        assert_eq!(type_.to_rust_type(&registry), expected);
    }
}

#[test]
fn names_of_known_types_count_at_their_addresses_only() {
    let three = Address::from_u8(3);
    assert_eq!(rust(&datatype(three, "string", "String", vec![])), "string::String");
    assert_eq!(rust(&datatype(three, "option", "Option", vec![])), "option::Option");
    assert_eq!(rust(&datatype(Address::from_u8(1), "object", "ID", vec![])), "object::ID");
    assert_eq!(rust(&datatype(Address::from_u8(2), "string", "String", vec![])), "string::String");
    assert_eq!(rust(&datatype(Address::from_u8(1), "string", "Str", vec![])), "string::Str");
}

#[test]
fn other_types_are_spelled_by_their_paths() {
    let here = Address::from_u8(7);
    let there = Address::from_u8(8);
    let mut registry = BindingRegistry::new();
    registry.insert(here, "old".to_string());
    registry.insert(here, "crate::pool".to_string());
    assert_eq!(registry.get(&here), Some(&"crate::pool".to_string()));
    assert_eq!(registry.get(&there), None);

    let plain = datatype(here, "pool", "Pool", vec![]);
    assert_eq!(plain.to_rust_type(&registry), "crate::pool::pool::Pool");
    assert_eq!(rust(&plain), "pool::Pool");

    let nested = datatype(
        here,
        "pool",
        "Pool",
        vec![
            Type::TypeParameter(0),
            datatype(there, "coin", "Coin", vec![Type::U64]),
            datatype(Address::from_u8(1), "option", "Option", vec![Type::Bool]),
        ],
    );
    assert_eq!(
        nested.to_rust_type(&registry),
        "crate::pool::pool::Pool<T0, coin::Coin<u64>, Option<bool>>"
    );
    assert_eq!(
        Type::Reference(true, Box::new(nested)).to_arg_type(&registry),
        "MutRef<'a, crate::pool::pool::Pool<T0, coin::Coin<u64>, Option<bool>>>"
    );
}

#[test]
fn type_parameters_are_told_apart() {
    let mut texts: Vec<String> = (0..2000u16).map(|i| rust(&Type::TypeParameter(i))).collect();
    texts.sort();
    texts.dedup();
    assert_eq!(texts.len(), 2000);
}

#[test]
fn an_optional_value_without_an_argument_has_no_spelling() {
    let one = Address::from_u8(1);
    let bare = || datatype(one, "option", "Option", vec![]);
    let full = || datatype(one, "option", "Option", vec![Type::U8]);
    let other = |arguments| datatype(Address::from_u8(7), "pool", "Pool", arguments);
    for type_ in [
        bare(),
        Type::Vector(Box::new(bare())),
        Type::Reference(true, Box::new(bare())),
        datatype(one, "option", "Option", vec![bare()]),
        other(vec![Type::U8, bare()]),
    ] {
        assert!(!type_.has_spelling());
    }
    for type_ in [
        Type::Signer,
        full(),
        Type::Vector(Box::new(full())),
        Type::Reference(false, Box::new(full())),
        datatype(one, "option", "Option", vec![Type::U8, bare()]),
        datatype(one, "string", "String", vec![bare()]),
        datatype(Address::from_u8(2), "object", "ID", vec![bare()]),
        other(vec![]),
        other(vec![Type::U8, full()]),
    ] {
        assert!(type_.has_spelling());
        assert!(!rust(&type_).is_empty());
    }
}
