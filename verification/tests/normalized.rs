use move_binding::error::Error;
use move_binding::json::{Json, JsonNumber};
use move_binding::normalized::{
    parse_fields, parse_type_parameter, parse_type_parameters, Enum, Function, Struct, Type,
    TypeParameter,
};
use serde_json::Value;

fn convert(value: &Value) -> Json {
    match value {
        Value::Null => Json::Null,
        Value::Bool(flag) => Json::Bool(*flag),
        Value::Number(n) => Json::Number(if let Some(n) = n.as_u64() {
            JsonNumber::Unsigned(n)
        } else if let Some(n) = n.as_i64() {
            JsonNumber::Negative(n)
        } else {
            JsonNumber::Float(n.to_string())
        }),
        Value::String(text) => Json::Text(text.clone()),
        Value::Array(items) => Json::Array(items.iter().map(convert).collect()),
        Value::Object(members) => {
            Json::Object(members.iter().map(|(k, v)| (k.clone(), convert(v))).collect())
        }
    }
}

fn json(text: &str) -> Json {
    convert(&serde_json::from_str::<Value>(text).unwrap())
}

fn body(text: &str) -> Result<Type, Error> {
    Type::from_body(&json(text))
}

fn signature(text: &str) -> Result<Type, Error> {
    Type::from_signature(&json(text))
}

#[test]
fn primitive_types_have_their_names() {
    assert!(matches!(body("\"bool\""), Ok(Type::Bool)));
    assert!(matches!(body("\"u8\""), Ok(Type::U8)));
    assert!(matches!(body("\"u16\""), Ok(Type::U16)));
    assert!(matches!(body("\"u32\""), Ok(Type::U32)));
    assert!(matches!(body("\"u64\""), Ok(Type::U64)));
    assert!(matches!(body("\"u128\""), Ok(Type::U128)));
    assert!(matches!(body("\"u256\""), Ok(Type::U256)));
    assert!(matches!(body("\"address\""), Ok(Type::Address)));
    assert!(matches!(body("\"signer\""), Ok(Type::Signer)));
    match body("\"U8\"") {
        Err(Error::UnknownPrimitiveType(name)) => assert_eq!(name, "U8"),
        other => panic!("{other:?}"),
    }
}

#[test]
fn nested_bodies_are_read() {
    let type_ = body(
        r#"{"vector": {"datatype": {
            "package": "0x2", "module": "coin", "type": "Coin",
            "typeParameters": [{"typeParameter": 3}, "u64"]
        }}}"#,
    )
    .unwrap();
    let datatype = match type_ {
        Type::Vector(element) => match *element {
            Type::Datatype(datatype) => datatype,
            other => panic!("{other:?}"),
        },
        other => panic!("{other:?}"),
    };
    assert_eq!(datatype.address.bytes[31], 2);
    assert_eq!(datatype.module, "coin");
    assert_eq!(datatype.name, "Coin");
    assert_eq!(datatype.type_arguments.len(), 2);
    assert!(matches!(datatype.type_arguments[0], Type::TypeParameter(3)));
    assert!(matches!(datatype.type_arguments[1], Type::U64));
    let copy = datatype.clone();
    assert_eq!(format!("{copy:?}"), format!("{datatype:?}"));
}

#[test]
fn type_arguments_may_be_missing() {
    for arguments in ["", ", \"typeParameters\": null", ", \"typeParameters\": []"] {
        let text = format!(
            r#"{{"datatype": {{"package": "0x2", "module": "m", "type": "T"{arguments}}}}}"#
        );
        match body(&text) {
            Ok(Type::Datatype(datatype)) => assert!(datatype.type_arguments.is_empty()),
            other => panic!("{other:?}"),
        }
    }
}

#[test]
fn the_vector_of_a_body_counts_before_its_datatype() {
    assert!(matches!(
        body(r#"{"typeParameter": 1, "datatype": {}, "vector": "u8"}"#),
        Ok(Type::Vector(_))
    ));
    assert!(matches!(
        body(r#"{"typeParameter": 1, "datatype": {}}"#),
        Err(Error::MissingDatatypePackage(_))
    ));
}

#[test]
fn datatypes_with_something_missing_are_refused() {
    assert!(matches!(
        body(r#"{"datatype": {"module": "m", "type": "T"}}"#),
        Err(Error::MissingDatatypePackage(_))
    ));
    match body(r#"{"datatype": {"package": "0xz"}}"#) {
        Err(Error::InvalidAddress { text, .. }) => assert_eq!(text, "0xz"),
        other => panic!("{other:?}"),
    }
    assert!(matches!(
        body(r#"{"datatype": {"package": "0x1", "type": "T"}}"#),
        Err(Error::MissingDatatypeModule(_))
    ));
    assert!(matches!(
        body(r#"{"datatype": {"package": "0x1", "module": "m", "typeParameters": ["x"]}}"#),
        Err(Error::MissingDatatypeName(_))
    ));
    match body(
        r#"{"datatype": {"package": "0x1", "module": "m", "type": "T", "typeParameters": ["u8", "x", "y"]}}"#,
    ) {
        Err(Error::UnknownPrimitiveType(name)) => assert_eq!(name, "x"),
        other => panic!("{other:?}"),
    }
}

#[test]
fn type_parameters_have_sixteen_bits() {
    assert!(matches!(body(r#"{"typeParameter": 0}"#), Ok(Type::TypeParameter(0))));
    assert!(matches!(body(r#"{"typeParameter": 65535}"#), Ok(Type::TypeParameter(65535))));
    assert!(matches!(
        body(r#"{"typeParameter": 65536}"#),
        Err(Error::TypeParameterOutOfRange(65536))
    ));
    for index in ["-1", "1.0", "\"1\"", "null"] {
        assert!(matches!(
            body(&format!(r#"{{"typeParameter": {index}}}"#)),
            Err(Error::InvalidTypeParameterIndex(_))
        ));
    }
}

#[test]
fn other_bodies_are_refused() {
    for text in ["null", "1", "true", "[]", "{}", r#"{"array": "u8"}"#] {
        assert!(matches!(body(text), Err(Error::UnknownTypeBody(_))));
    }
}

#[test]
fn references_stand_in_signatures_only() {
    assert!(matches!(signature(r#"{"ref": null, "body": "u8"}"#), Ok(Type::U8)));
    assert!(matches!(signature(r#"{"body": "u8"}"#), Ok(Type::U8)));
    assert!(matches!(signature(r#"{"ref": 1, "body": "u8"}"#), Ok(Type::U8)));
    match signature(r#"{"ref": "&", "body": "u8"}"#) {
        Ok(Type::Reference(false, referent)) => assert!(matches!(*referent, Type::U8)),
        other => panic!("{other:?}"),
    }
    match signature(r#"{"ref": "&mut", "body": {"vector": "bool"}}"#) {
        Ok(Type::Reference(true, referent)) => assert!(matches!(*referent, Type::Vector(_))),
        other => panic!("{other:?}"),
    }
    match signature(r#"{"ref": "&const", "body": "u8"}"#) {
        Err(Error::UnknownReferenceKind(kind)) => assert_eq!(kind, "&const"),
        other => panic!("{other:?}"),
    }
    assert!(matches!(
        signature(r#"{"ref": "&const", "body": "u7"}"#),
        Err(Error::UnknownPrimitiveType(_))
    ));
}

fn body_text(type_: &Type) -> String {
    match type_ {
        Type::Bool => "\"bool\"".to_string(),
        Type::U8 => "\"u8\"".to_string(),
        Type::U16 => "\"u16\"".to_string(),
        Type::U32 => "\"u32\"".to_string(),
        Type::U64 => "\"u64\"".to_string(),
        Type::U128 => "\"u128\"".to_string(),
        Type::U256 => "\"u256\"".to_string(),
        Type::Address => "\"address\"".to_string(),
        Type::Signer => "\"signer\"".to_string(),
        Type::Vector(element) => format!(r#"{{"vector": {}}}"#, body_text(element)),
        Type::TypeParameter(index) => format!(r#"{{"typeParameter": {index}}}"#),
        Type::Datatype(datatype) => {
            let arguments: Vec<String> = datatype.type_arguments.iter().map(body_text).collect();
            format!(
                r#"{{"datatype": {{"package": "{}", "module": "{}", "type": "{}", "typeParameters": [{}]}}}}"#,
                datatype.address.to_text(),
                datatype.module,
                datatype.name,
                arguments.join(", ")
            )
        }
        Type::Reference(_, _) => "null".to_string(),
    }
}

#[test]
fn bodies_come_back() {
    let text = r#"{"vector": {"datatype": {"package": "0xab", "module": "table", "type": "Table",
        "typeParameters": [{"vector": "u256"}, {"typeParameter": 7}, "signer"]}}}"#;
    let type_ = body(text).unwrap();
    let again = body(&body_text(&type_)).unwrap();
    assert_eq!(format!("{again:?}"), format!("{type_:?}"));
    assert_eq!(format!("{:?}", type_.clone()), format!("{type_:?}"));
}

#[test]
fn type_parameters_default_to_false() {
    assert_eq!(
        parse_type_parameter(&json(r#"{"isPhantom": true, "constraints": ["STORE", "KEY"]}"#)),
        TypeParameter { is_phantom: true, has_key: true }
    );
    assert_eq!(
        parse_type_parameter(&json(r#"{"isPhantom": "true", "constraints": ["key", null]}"#)),
        TypeParameter { is_phantom: false, has_key: false }
    );
    assert_eq!(
        parse_type_parameter(&json("{}")),
        TypeParameter { is_phantom: false, has_key: false }
    );
    assert_eq!(parse_type_parameters(&json("null")), vec![]);
    assert_eq!(
        parse_type_parameters(&json(r#"[{"constraints": ["KEY"]}, {"isPhantom": true}, 5]"#)),
        vec![
            TypeParameter { is_phantom: false, has_key: true },
            TypeParameter { is_phantom: true, has_key: false },
            TypeParameter { is_phantom: false, has_key: false },
        ]
    );
}

#[test]
fn fields_keep_their_order() {
    let fields = parse_fields(&json(
        r#"[{"name": "b", "type": {"signature": {"body": "u8"}}},
            {"name": "a", "type": {"signature": {"body": "bool"}}}]"#,
    ))
    .unwrap_or_else(|error| panic!("{error:?}"));
    assert_eq!(fields.len(), 2);
    assert_eq!(fields[0].name, "b");
    assert!(matches!(fields[0].type_, Type::U8));
    assert_eq!(fields[1].name, "a");
    assert!(matches!(fields[1].type_, Type::Bool));
}

#[test]
fn fields_are_refused_at_the_first_fault() {
    assert!(matches!(parse_fields(&json("null")), Err(Error::MissingFields(Json::Null))));
    assert!(matches!(parse_fields(&json("{}")), Err(Error::MissingFields(_))));
    assert!(matches!(
        parse_fields(&json(r#"[{"type": {}}, {"name": "x"}]"#)),
        Err(Error::MissingFieldName(_))
    ));
    assert!(matches!(
        parse_fields(&json(r#"[{"name": "x"}, {}]"#)),
        Err(Error::UnknownTypeBody(Json::Null))
    ));
}

#[test]
fn structs_are_read() {
    let read = Struct::from_node(&json(
        r#"{"name": "Coin", "abilities": ["KEY", "STORE"],
            "typeParameters": [{"isPhantom": true, "constraints": []}],
            "fields": [{"name": "value", "type": {"signature": {"body": "u64"}}}]}"#,
    ))
    .unwrap_or_else(|error| panic!("{error:?}"));
    assert_eq!(read.name, "Coin");
    assert!(read.has_key_ability);
    assert_eq!(read.type_parameters, vec![TypeParameter { is_phantom: true, has_key: false }]);
    assert_eq!(read.fields.len(), 1);

    let plain = Struct::from_node(&json(r#"{"name": "P", "fields": []}"#))
        .unwrap_or_else(|error| panic!("{error:?}"));
    assert!(!plain.has_key_ability);
    assert!(plain.type_parameters.is_empty());

    assert!(matches!(
        Struct::from_node(&json(r#"{"fields": null}"#)),
        Err(Error::MissingStructName(_))
    ));
    assert!(matches!(
        Struct::from_node(&json(r#"{"name": "S"}"#)),
        Err(Error::MissingFields(_))
    ));
}

#[test]
fn enums_are_read() {
    let read = Enum::from_node(&json(
        r#"{"name": "E", "typeParameters": [{"constraints": ["KEY"]}], "variants": [
            {"name": "A", "fields": []},
            {"name": "B", "fields": [{"name": "x", "type": {"signature": {"body": "u8"}}}]}]}"#,
    ))
    .unwrap_or_else(|error| panic!("{error:?}"));
    assert_eq!(read.name, "E");
    assert_eq!(read.type_parameters, vec![TypeParameter { is_phantom: false, has_key: true }]);
    assert_eq!(read.variants.len(), 2);
    assert_eq!(read.variants[0].name, "A");
    assert_eq!(read.variants[1].fields[0].name, "x");

    let empty = Enum::from_node(&json(r#"{"name": "E"}"#))
        .unwrap_or_else(|error| panic!("{error:?}"));
    assert!(empty.variants.is_empty());

    assert!(matches!(Enum::from_node(&json("{}")), Err(Error::MissingEnumName(_))));
    assert!(matches!(
        Enum::from_node(&json(r#"{"variants": [{"fields": []}]}"#)),
        Err(Error::MissingVariantName(_))
    ));
    assert!(matches!(
        Enum::from_node(&json(r#"{"variants": [{"name": "A"}]}"#)),
        Err(Error::MissingFields(_))
    ));
}

#[test]
fn functions_are_read() {
    let read = Function::from_node(&json(
        r#"{"name": "f", "typeParameters": [{"constraints": ["KEY"]}],
            "parameters": [{"signature": {"ref": "&mut", "body": {"typeParameter": 0}}},
                           {"signature": {"ref": null, "body": "u8"}}],
            "return": [{"signature": {"body": "bool"}}]}"#,
    ))
    .unwrap_or_else(|error| panic!("{error:?}"));
    assert_eq!(read.name, "f");
    assert_eq!(read.type_parameters.len(), 1);
    assert_eq!(read.parameters.len(), 2);
    assert!(matches!(read.parameters[0], Type::Reference(true, _)));
    assert!(matches!(read.parameters[1], Type::U8));
    assert_eq!(read.returns.len(), 1);
    assert!(matches!(read.returns[0], Type::Bool));

    let bare = Function::from_node(&json(r#"{"name": "g", "return": null}"#))
        .unwrap_or_else(|error| panic!("{error:?}"));
    assert!(bare.parameters.is_empty());
    assert!(bare.returns.is_empty());

    assert!(matches!(
        Function::from_node(&json(r#"{"parameters": [{}]}"#)),
        Err(Error::MissingFunctionName(_))
    ));
    assert!(matches!(
        Function::from_node(&json(
            r#"{"name": "f", "parameters": [{"signature": {"body": "p"}}], "return": [{}]}"#
        )),
        Err(Error::UnknownPrimitiveType(_))
    ));
    assert!(matches!(
        Function::from_node(&json(r#"{"name": "f", "return": [{}]}"#)),
        Err(Error::UnknownTypeBody(_))
    ));
}
