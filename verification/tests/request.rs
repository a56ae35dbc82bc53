use move_binding::address::Address;
use move_binding::json::Json;
use move_binding::request::{Connection, Request, MODULE_FIELDS};

fn variable<'a>(request: &'a Request, name: &str) -> &'a Json {
    request.variables.at(name)
}

fn full(last: u8) -> String {
    format!("0x{last:064x}")
}

#[test]
fn the_metadata_is_asked_for_by_address() {
    let request = Request::metadata(&Address::from_u8(2));
    assert_eq!(
        request.query,
        r#"query ($addr: SuiAddress!) {
                package(address: $addr) {
                    version
                    typeOrigins { module struct definingId }
                }
            }"#
    );
    assert_eq!(variable(&request, "addr").as_str(), Some(full(2).as_str()));
}

#[test]
fn modules_are_asked_for_page_by_page() {
    let module_fields = MODULE_FIELDS.replace("$first", "50").replace("$cursor", "null");
    let expected = format!(
        r#"query ($addr: SuiAddress!, $after: String) {{
                package(address: $addr) {{
                    modules(first: 10, after: $after) {{
                        pageInfo {{ hasNextPage endCursor }}
                        nodes {{ {module_fields} }}
                    }}
                }}
            }}"#
    );
    let first = Request::modules(&Address::from_u8(3), &Json::Null);
    assert_eq!(first.query, expected);
    assert!(first.query.contains("enums(first: 50, after: null)"));
    assert_eq!(variable(&first, "addr").as_str(), Some(full(3).as_str()));
    assert!(first.variables.get("after").unwrap().is_null());

    let second = Request::modules(&Address::from_u8(3), &Json::Text("c".to_string()));
    assert_eq!(second.query, expected);
    assert_eq!(variable(&second, "after").as_str(), Some("c"));
}

#[test]
fn members_are_asked_for_page_by_page() {
    let cases = [
        (
            Connection::Structs,
            "structs",
            "name abilities typeParameters { isPhantom constraints } fields { name type { signature } }",
        ),
        (
            Connection::Enums,
            "enums",
            "name abilities typeParameters { isPhantom constraints } variants { name fields { name type { signature } } }",
        ),
        (
            Connection::Functions,
            "functions",
            "name visibility isEntry typeParameters { constraints } parameters { signature } return { signature }",
        ),
    ];
    for (connection, name, selection) in cases {
        assert_eq!(connection.name(), name);
        assert_eq!(connection.selection(), selection);
        let request = Request::members(&Address::from_u8(4), "coin", connection, "cursor");
        assert_eq!(
            request.query,
            format!(
                r#"query ($addr: SuiAddress!, $module: String!, $after: String) {{
                    package(address: $addr) {{
                        module(name: $module) {{
                            {name}(first: 50, after: $after) {{
                                pageInfo {{ hasNextPage endCursor }}
                                nodes {{ {selection} }}
                            }}
                        }}
                    }}
                }}"#
            )
        );
        assert_eq!(variable(&request, "addr").as_str(), Some(full(4).as_str()));
        assert_eq!(variable(&request, "module").as_str(), Some("coin"));
        assert_eq!(variable(&request, "after").as_str(), Some("cursor"));
    }
}

#[test]
fn a_body_carries_query_and_variables() {
    let body = Request::metadata(&Address::from_u8(2)).into_body();
    assert!(body.at("query").as_str().unwrap().starts_with("query ($addr"));
    assert_eq!(body.at("variables").at("addr").as_str(), Some(full(2).as_str()));
}
