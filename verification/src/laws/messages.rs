//! The messages of errors.

use vstd::prelude::*;

use crate::address::address_text;
use crate::error::{message_of, ErrorModel};
use crate::json::JsonModel;

verus! {

/// The message of an error about a value says what is wrong and then, in full, the print of
/// the value, whatever the value is.
pub proof fn law_messages_about_values(value: JsonModel, detail: Seq<char>)
    ensures
        message_of(ErrorModel::GraphQl(value), detail)
            == "Sui GQL returned errors: "@ + detail,
        message_of(ErrorModel::MissingDatatypePackage(value), detail)
            == "Missing datatype package: "@ + detail,
        message_of(ErrorModel::MissingDatatypeModule(value), detail)
            == "Missing datatype module: "@ + detail,
        message_of(ErrorModel::MissingDatatypeName(value), detail)
            == "Missing datatype name: "@ + detail,
        message_of(ErrorModel::InvalidTypeParameterIndex(value), detail)
            == "Invalid type parameter index: "@ + detail,
        message_of(ErrorModel::UnknownTypeBody(value), detail)
            == "Unknown type body: "@ + detail,
        message_of(ErrorModel::MissingFieldName(value), detail)
            == "Missing field name: "@ + detail,
        message_of(ErrorModel::MissingFields(value), detail)
            == "Missing fields: "@ + detail,
        message_of(ErrorModel::MissingStructName(value), detail)
            == "Missing struct name: "@ + detail,
        message_of(ErrorModel::MissingVariantName(value), detail)
            == "Missing variant name: "@ + detail,
        message_of(ErrorModel::MissingEnumName(value), detail)
            == "Missing enum name: "@ + detail,
        message_of(ErrorModel::MissingFunctionName(value), detail)
            == "Missing function name: "@ + detail,
{
}

/// Where the reason comes from outside, it is the message, or stands in full at its end.
pub proof fn law_messages_with_reasons(
    value: JsonModel,
    index: u64,
    text: Seq<char>,
    reason: Seq<char>,
    detail: Seq<char>,
)
    ensures
        message_of(ErrorModel::Transport(reason), detail)
            == "Error fetching package from Sui GQL: "@ + reason,
        message_of(ErrorModel::Outside(reason), detail) == reason,
        message_of(ErrorModel::InvalidAddress { text, reason }, detail) == reason,
        message_of(ErrorModel::InvalidVersion(value), detail) == detail,
        message_of(ErrorModel::InvalidTypeOrigins(value), detail) == detail,
        message_of(ErrorModel::TypeParameterOutOfRange(index), detail) == detail,
{
}

/// Where an error is about names, its message holds them in full.
pub proof fn law_messages_about_names(
    address: Seq<u8>,
    endpoint: Seq<char>,
    module: Seq<char>,
    connection: Seq<char>,
    name: Seq<char>,
    detail: Seq<char>,
)
    ensures
        message_of(ErrorModel::PackageNotFound { address, endpoint }, detail) == "Package "@
            + address_text(address) + " not found on "@ + endpoint
            + ". The package may not exist or has been removed."@,
        message_of(ErrorModel::MissingModuleName, detail) == "Missing module name"@,
        message_of(ErrorModel::MissingEndCursor { module, connection }, detail)
            == "Missing endCursor for "@ + module + "."@ + connection,
        message_of(ErrorModel::UnknownReferenceKind(name), detail) == "Unknown reference kind: "@
            + name,
        message_of(ErrorModel::UnknownPrimitiveType(name), detail) == "Unknown primitive type: "@
            + name,
{
}

} // verus!
