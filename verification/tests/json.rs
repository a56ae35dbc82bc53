use move_binding::json::{copy_items, Json, JsonNumber};

fn text(text: &str) -> Json {
    Json::Text(text.to_string())
}

#[test]
fn the_last_value_of_a_key_counts() {
    let object = Json::Object(vec![
        ("a".to_string(), text("first")),
        ("b".to_string(), Json::Null),
        ("a".to_string(), text("last")),
    ]);
    assert_eq!(object.get("a").unwrap().as_str(), Some("last"));
    assert!(object.get("b").unwrap().is_null());
    assert!(object.get("c").is_none());
    assert!(object.at("c").is_null());
}

#[test]
fn only_objects_have_members() {
    for value in [Json::Null, Json::Bool(true), text("a"), Json::Array(vec![text("a")])] {
        assert!(value.get("a").is_none());
        assert!(value.at("a").at("b").is_null());
    }
}

#[test]
fn values_are_read_as_what_they_are() {
    let unsigned = Json::Number(JsonNumber::Unsigned(u64::MAX));
    let negative = Json::Number(JsonNumber::Negative(-1));
    let float = Json::Number(JsonNumber::Float("1.0".to_string()));
    assert_eq!(unsigned.as_u64(), Some(u64::MAX));
    assert_eq!(negative.as_u64(), None);
    assert_eq!(float.as_u64(), None);
    assert_eq!(text("1").as_u64(), None);
    assert_eq!(Json::Bool(false).as_bool(), Some(false));
    assert_eq!(text("true").as_bool(), None);
    assert_eq!(text("x").as_str(), Some("x"));
    assert_eq!(Json::Null.as_str(), None);
    assert_eq!(Json::Array(vec![Json::Null]).as_array().unwrap().len(), 1);
    assert!(Json::Object(vec![]).as_array().is_none());
    assert!(Json::Null.is_null());
    assert!(!Json::Bool(false).is_null());
}

#[test]
fn copies_are_equal() {
    let value = Json::Array(vec![
        Json::Object(vec![("k".to_string(), Json::Number(JsonNumber::Float("0.5".to_string())))]),
        Json::Number(JsonNumber::Negative(-7)),
        Json::Number(JsonNumber::Unsigned(7)),
        text("t"),
        Json::Bool(true),
        Json::Null,
    ]);
    assert_eq!(format!("{:?}", value.clone()), format!("{value:?}"));
    let items = value.as_array().unwrap();
    assert_eq!(format!("{:?}", copy_items(items)), format!("{items:?}"));
}
