use move_binding::address::Address;
use move_binding::error::Error;
use move_binding::json::{Json, JsonNumber};
use move_binding::normalized::{Package, Type};
use move_binding::package_provider::{check_reply, MoveModuleProvider, Progress, SuiNetwork};
use move_binding::request::Request;
use serde_json::Value;

const ENDPOINT: &str = "https://graphql.example/graphql";

fn convert(value: &Value) -> Json {
    match value {
        Value::Null => Json::Null,
        Value::Bool(flag) => Json::Bool(*flag),
        Value::Number(n) => Json::Number(if let Some(n) = n.as_u64() {
            JsonNumber::Unsigned(n)
        } else if let Some(n) = n.as_i64() {
            JsonNumber::Negative(n)
        } else {
            JsonNumber::Float(n.to_string())
        }),
        Value::String(text) => Json::Text(text.clone()),
        Value::Array(items) => Json::Array(items.iter().map(convert).collect()),
        Value::Object(members) => {
            Json::Object(members.iter().map(|(k, v)| (k.clone(), convert(v))).collect())
        }
    }
}

fn json(text: &str) -> Json {
    convert(&serde_json::from_str::<Value>(text).unwrap())
}

/// What each request asks for, in short.
fn asked(request: &Request) -> String {
    let after = request.variables.at("after").as_str().unwrap_or("null").to_string();
    if request.query.contains("typeOrigins") {
        "metadata".to_string()
    } else if request.query.contains("modules(") {
        format!("modules after {after}")
    } else {
        let module = request.variables.at("module").as_str().unwrap();
        let connection = ["structs(", "enums(", "functions("]
            .into_iter()
            .find(|name| request.query.contains(name))
            .unwrap();
        format!("{module}.{} after {after}", connection.trim_end_matches('('))
    }
}

/// Fetches the package at address 9 from what answers each request in short.
fn fetch(answer: impl Fn(&str) -> String) -> (Result<Package, Error>, Vec<String>) {
    let network = SuiNetwork { gql: ENDPOINT.to_string() };
    let provider = MoveModuleProvider::new(network);
    assert_eq!(provider.endpoint(), ENDPOINT);
    let mut fetch = provider.fetch_package(Address::from_u8(9));
    let mut log = vec![];
    loop {
        let request = fetch.request();
        assert_eq!(
            request.variables.at("addr").as_str(),
            Some(Address::from_u8(9).to_text().as_str())
        );
        let short = asked(&request);
        let reply = json(&answer(&short));
        log.push(short);
        match fetch.resume(&reply) {
            Err(error) => return (Err(error), log),
            Ok(Progress::Done(package)) => return (Ok(package), log),
            Ok(Progress::Waiting(next)) => fetch = next,
        }
    }
}

fn package_of(answer: impl Fn(&str) -> String) -> (Package, Vec<String>) {
    let (result, log) = fetch(answer);
    match result {
        Ok(package) => (package, log),
        Err(error) => panic!("{error:?}"),
    }
}

fn error_of(answer: impl Fn(&str) -> String) -> (Error, Vec<String>) {
    let (result, log) = fetch(answer);
    match result {
        Ok(_) => panic!("a package"),
        Err(error) => (error, log),
    }
}

fn metadata(origins: &str) -> String {
    format!(r#"{{"data": {{"package": {{"version": 3, "typeOrigins": {origins}}}}}}}"#)
}

fn modules(nodes: &str, page_info: &str) -> String {
    format!(
        r#"{{"data": {{"package": {{"modules": {{"pageInfo": {page_info}, "nodes": [{nodes}]}}}}}}}}"#
    )
}

fn members(connection: &str, nodes: &str, page_info: &str) -> String {
    format!(
        r#"{{"data": {{"package": {{"module": {{"{connection}":
            {{"pageInfo": {page_info}, "nodes": [{nodes}]}}}}}}}}}}"#
    )
}

fn struct_node(name: &str) -> String {
    format!(r#"{{"name": "{name}", "fields": []}}"#)
}

const LAST: &str = r#"{"hasNextPage": false, "endCursor": "end"}"#;

fn more(cursor: &str) -> String {
    format!(r#"{{"hasNextPage": true, "endCursor": "{cursor}"}}"#)
}

#[test]
fn a_package_is_put_together_from_all_its_pages() {
    let (package, log) = package_of(|short| match short {
        "metadata" => metadata(
            r#"[{"module": "coin", "struct": "Coin", "definingId": "0x2"},
                {"module": "coin", "struct": "Coin", "definingId": "0x5"},
                {"module": "coin", "struct": "Coin", "definingId": "nonsense"},
                {"module": "coin", "struct": "Cap", "definingId": "0x2"},
                {"module": "coin", "struct": null, "definingId": "0x2"},
                {"module": null, "struct": "Coin", "definingId": "0x2"},
                {"module": "coin", "struct": "Lost", "definingId": null},
                {"module": "vault", "struct": "Vault", "definingId": "0x9"}]"#,
        ),
        "modules after null" => modules(
            &format!(
                r#"{{"name": "vault", "structs": {{"pageInfo": {}, "nodes": [{}]}},
                     "functions": {{"pageInfo": {}, "nodes": [{{"name": "f"}}]}}}},
                   {{"name": "coin"}}"#,
                more("s1"),
                struct_node("A"),
                more("f1"),
            ),
            &more("m1"),
        ),
        "vault.structs after s1" => members("structs", &struct_node("B"), &more("s2")),
        "vault.structs after s2" => {
            members("structs", &format!("{}, {}", struct_node("C"), struct_node("D")), LAST)
        }
        "vault.functions after f1" => members(
            "functions",
            r#"{"name": "g", "return": [{"signature": {"ref": "&", "body": "u8"}}]}"#,
            LAST,
        ),
        "modules after m1" => {
            modules(r#"{"name": "bank", "enums": {"nodes": [{"name": "E"}]}}"#, LAST)
        }
        other => panic!("unexpected request: {other}"),
    });
    assert_eq!(
        log,
        vec![
            "metadata",
            "modules after null",
            "vault.structs after s1",
            "vault.structs after s2",
            "vault.functions after f1",
            "modules after m1",
        ]
    );
    assert_eq!(package.address, Address::from_u8(9));
    assert_eq!(package.version, 3);

    let names: Vec<&str> = package.modules.entries().iter().map(|(name, _)| name.as_str()).collect();
    assert_eq!(names, vec!["bank", "coin", "vault"]);
    for (name, module) in package.modules.entries() {
        assert_eq!(name, &module.name);
    }
    let vault = package.modules.get("vault").unwrap();
    let structs: Vec<&str> = vault.structs.iter().map(|s| s.name.as_str()).collect();
    assert_eq!(structs, vec!["A", "B", "C", "D"]);
    assert!(vault.enums.is_empty());
    let functions: Vec<&str> = vault.functions.iter().map(|f| f.name.as_str()).collect();
    assert_eq!(functions, vec!["f", "g"]);
    assert!(matches!(vault.functions[1].returns[0], Type::Reference(false, _)));
    let coin = package.modules.get("coin").unwrap();
    assert!(coin.structs.is_empty() && coin.enums.is_empty() && coin.functions.is_empty());
    assert_eq!(package.modules.get("bank").unwrap().enums[0].name, "E");

    let origins = &package.type_origin_table;
    assert_eq!(origins.entries().len(), 2);
    assert_eq!(origins.get("coin").unwrap().get("Coin"), Some(&Address::from_u8(5)));
    assert_eq!(origins.get("coin").unwrap().get("Cap"), Some(&Address::from_u8(2)));
    assert_eq!(origins.get("coin").unwrap().get("Lost"), None);
    assert_eq!(origins.get("vault").unwrap().get("Vault"), Some(&Address::from_u8(9)));
}

#[test]
fn how_the_pages_are_cut_makes_no_difference() {
    let names = ["a", "b", "c", "b"];
    let node = |i: usize| {
        format!(
            r#"{{"name": "{}", "structs": {{"nodes": [{}]}}}}"#,
            names[i],
            struct_node(&format!("S{i}"))
        )
    };
    let (whole, _) = package_of(|short| match short {
        "metadata" => metadata("[]"),
        _ => modules(&(0..4).map(node).collect::<Vec<String>>().join(", "), LAST),
    });
    let (cut, log) = package_of(|short| match short {
        "metadata" => metadata("[]"),
        "modules after null" => modules(&node(0), &more("1")),
        "modules after 1" => modules("", &more("2")),
        "modules after 2" => modules(&format!("{}, {}", node(1), node(2)), &more("3")),
        _ => modules(&node(3), LAST),
    });
    assert_eq!(log.len(), 5);
    for package in [&whole, &cut] {
        let found: Vec<(&str, &str)> = package
            .modules
            .entries()
            .iter()
            .map(|(name, module)| (name.as_str(), module.structs[0].name.as_str()))
            .collect();
        assert_eq!(found, vec![("a", "S0"), ("b", "S3"), ("c", "S2")]);
    }
}

#[test]
fn a_package_without_modules_is_empty() {
    let (package, log) = package_of(|short| match short {
        "metadata" => metadata("[]"),
        _ => r#"{"data": null}"#.to_string(),
    });
    assert_eq!(log, vec!["metadata", "modules after null"]);
    assert!(package.modules.entries().is_empty());
    assert!(package.type_origin_table.entries().is_empty());
}

#[test]
fn a_missing_package_is_reported() {
    for reply in ["null", "{}", r#"{"data": {"package": null}}"#, r#"{"errors": null}"#] {
        match error_of(|_| reply.to_string()).0 {
            Error::PackageNotFound { address, endpoint } => {
                assert_eq!(address, Address::from_u8(9));
                assert_eq!(endpoint, ENDPOINT);
            }
            other => panic!("{other:?}"),
        }
    }
}

#[test]
fn metadata_has_to_be_whole() {
    for version in ["null", "\"3\"", "-3", "3.0"] {
        let reply = format!(
            r#"{{"data": {{"package": {{"version": {version}, "typeOrigins": null}}}}}}"#
        );
        assert!(matches!(error_of(|_| reply.clone()).0, Error::InvalidVersion(_)));
    }
    for origins in ["null", "{}", "\"\""] {
        assert!(matches!(error_of(|_| metadata(origins)).0, Error::InvalidTypeOrigins(_)));
    }
}

#[test]
fn errors_of_the_service_end_the_fetch_at_any_stage() {
    let refused = r#"{"errors": [{"message": "no"}], "data": {"package": {"version": 1}}}"#;
    let node = format!(r#"{{"name": "a", "enums": {{"pageInfo": {}}}}}"#, more("e"));
    for stage in ["metadata", "modules after null", "a.enums after e"] {
        let (error, log) = error_of(|short| {
            if short == stage {
                refused.to_string()
            } else if short == "metadata" {
                metadata("[]")
            } else {
                modules(&node, LAST)
            }
        });
        assert_eq!(log.last().unwrap(), stage);
        match error {
            Error::GraphQl(errors) => {
                assert_eq!(errors.as_array().unwrap()[0].at("message").as_str(), Some("no"))
            }
            other => panic!("{other:?}"),
        }
    }
}

#[test]
fn a_reply_with_null_errors_is_accepted() {
    assert!(check_reply(&json(r#"{"errors": null, "data": 1}"#)).is_ok());
    assert!(check_reply(&json("[]")).is_ok());
    assert!(matches!(check_reply(&json(r#"{"errors": []}"#)), Err(Error::GraphQl(_))));
    assert!(matches!(check_reply(&json(r#"{"errors": false}"#)), Err(Error::GraphQl(_))));
}

#[test]
fn modules_without_a_name_are_refused() {
    let (error, log) = error_of(|short| match short {
        "metadata" => metadata("[]"),
        _ => modules(r#"{"name": "a"}, {"name": 1}"#, LAST),
    });
    assert!(matches!(error, Error::MissingModuleName));
    assert_eq!(log.len(), 2);
}

#[test]
fn a_page_that_goes_on_needs_a_cursor() {
    let open = r#"{"hasNextPage": true}"#;
    let (error, _) = error_of(|short| match short {
        "metadata" => metadata("[]"),
        _ => modules(&format!(r#"{{"name": "a", "functions": {{"pageInfo": {open}}}}}"#), LAST),
    });
    match error {
        Error::MissingEndCursor { module, connection } => {
            assert_eq!((module.as_str(), connection.as_str()), ("a", "functions"));
        }
        other => panic!("{other:?}"),
    }
    let (error, log) = error_of(|short| match short {
        "metadata" => metadata("[]"),
        "modules after null" => modules(
            &format!(r#"{{"name": "a", "structs": {{"pageInfo": {}}}}}"#, more("s")),
            LAST,
        ),
        _ => members("structs", &struct_node("S"), open),
    });
    assert_eq!(log.last().unwrap(), "a.structs after s");
    match error {
        Error::MissingEndCursor { module, connection } => {
            assert_eq!((module.as_str(), connection.as_str()), ("a", "structs"));
        }
        other => panic!("{other:?}"),
    }
}

#[test]
fn pages_of_modules_may_go_on_without_a_cursor() {
    let (package, log) = package_of({
        let asked = std::cell::Cell::new(0);
        move |short| match short {
            "metadata" => metadata("[]"),
            _ => {
                asked.set(asked.get() + 1);
                if asked.get() == 1 {
                    modules(r#"{"name": "a"}"#, r#"{"hasNextPage": true}"#)
                } else {
                    modules(r#"{"name": "b"}"#, LAST)
                }
            }
        }
    });
    assert_eq!(log, vec!["metadata", "modules after null", "modules after null"]);
    assert_eq!(package.modules.entries().len(), 2);
}

#[test]
fn members_are_read_before_the_next_connection_is_asked_for() {
    let (error, log) = error_of(|short| match short {
        "metadata" => metadata("[]"),
        _ => modules(
            &format!(
                r#"{{"name": "a", "structs": {{"nodes": [{{"name": "S"}}]}},
                     "enums": {{"pageInfo": {}}}}}"#,
                more("e")
            ),
            LAST,
        ),
    });
    assert!(matches!(error, Error::MissingFields(_)));
    assert_eq!(log, vec!["metadata", "modules after null"]);
}

#[test]
fn a_package_that_was_not_resolved_is_not_asked_for() {
    let provider = MoveModuleProvider::new(SuiNetwork { gql: ENDPOINT.to_string() });
    match provider.start(Err("no such name".to_string())) {
        Err(Error::Outside(reason)) => assert_eq!(reason, "no such name"),
        _ => panic!("a fetch"),
    }
    match provider.start(Ok(Address::from_u8(9))) {
        Ok(Progress::Waiting(fetch)) => assert_eq!(asked(&fetch.request()), "metadata"),
        _ => panic!("no fetch"),
    }
}

#[test]
fn later_replies_do_not_change_the_metadata() {
    let (package, _) = package_of(|short| match short {
        "metadata" => metadata(r#"[{"module": "a", "struct": "S", "definingId": "0x4"}]"#),
        _ => r#"{"data": {"package": {"version": 8, "typeOrigins": [],
            "modules": {"nodes": [{"name": "a"}]}}}}"#
            .to_string(),
    });
    assert_eq!(package.version, 3);
    assert_eq!(package.type_origin_table.get("a").unwrap().get("S"), Some(&Address::from_u8(4)));
    assert_eq!(package.modules.entries().len(), 1);
}
