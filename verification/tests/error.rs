use move_binding::address::Address;
use move_binding::error::Error;
use move_binding::json::Json;

#[test]
fn messages_say_what_is_wrong() {
    let cases = [
        (Error::Transport("timed out".to_string()), "Error fetching package from Sui GQL: timed out"),
        (Error::Outside("expected value".to_string()), "expected value"),
        (Error::GraphQl(Json::Null), "Sui GQL returned errors: [d]"),
        (Error::InvalidVersion(Json::Null), "[d]"),
        (Error::InvalidTypeOrigins(Json::Null), "[d]"),
        (Error::MissingModuleName, "Missing module name"),
        (
            Error::MissingEndCursor { module: "coin".to_string(), connection: "structs".to_string() },
            "Missing endCursor for coin.structs",
        ),
        (Error::UnknownReferenceKind("*".to_string()), "Unknown reference kind: *"),
        (Error::UnknownPrimitiveType("u7".to_string()), "Unknown primitive type: u7"),
        (Error::MissingDatatypePackage(Json::Null), "Missing datatype package: [d]"),
        (
            Error::InvalidAddress { text: "0xz".to_string(), reason: "no address".to_string() },
            "no address",
        ),
        (Error::MissingDatatypeModule(Json::Null), "Missing datatype module: [d]"),
        (Error::MissingDatatypeName(Json::Null), "Missing datatype name: [d]"),
        (Error::InvalidTypeParameterIndex(Json::Null), "Invalid type parameter index: [d]"),
        (Error::TypeParameterOutOfRange(65536), "[d]"),
        (Error::UnknownTypeBody(Json::Null), "Unknown type body: [d]"),
        (Error::MissingFieldName(Json::Null), "Missing field name: [d]"),
        (Error::MissingFields(Json::Null), "Missing fields: [d]"),
        (Error::MissingStructName(Json::Null), "Missing struct name: [d]"),
        (Error::MissingVariantName(Json::Null), "Missing variant name: [d]"),
        (Error::MissingEnumName(Json::Null), "Missing enum name: [d]"),
        (Error::MissingFunctionName(Json::Null), "Missing function name: [d]"),
    ];
    for (error, expected) in cases {
        assert_eq!(error.message("[d]"), expected);
    }
}

#[test]
fn a_missing_package_is_named_in_full() {
    let error = Error::PackageNotFound {
        address: Address::from_u8(0x2a),
        endpoint: "https://graphql.testnet.sui.io/graphql".to_string(),
    };
    assert_eq!(
        error.message(""),
        "Package 0x000000000000000000000000000000000000000000000000000000000000002a not found on \
         https://graphql.testnet.sui.io/graphql. The package may not exist or has been removed."
    );
}
