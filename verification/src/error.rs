//! What can go wrong while a package is read.

use vstd::prelude::*;

use crate::address::{address_text, Address};
use crate::json::{Json, JsonModel};

verus! {

/// An error, with what it is about.
#[derive(Debug)]
pub enum Error {
    /// The service could not be reached; the text says why.
    Transport(String),
    /// A failure outside of this library, in its own words.
    Outside(String),
    /// The service answered with errors.
    GraphQl(Json),
    PackageNotFound { address: Address, endpoint: String },
    InvalidVersion(Json),
    InvalidTypeOrigins(Json),
    MissingModuleName,
    MissingEndCursor { module: String, connection: String },
    UnknownReferenceKind(String),
    UnknownPrimitiveType(String),
    MissingDatatypePackage(Json),
    /// A text that spells no address, and why not.
    InvalidAddress { text: String, reason: String },
    MissingDatatypeModule(Json),
    MissingDatatypeName(Json),
    InvalidTypeParameterIndex(Json),
    TypeParameterOutOfRange(u64),
    UnknownTypeBody(Json),
    MissingFieldName(Json),
    MissingFields(Json),
    MissingStructName(Json),
    MissingVariantName(Json),
    MissingEnumName(Json),
    MissingFunctionName(Json),
}

/// What an [`Error`] stands for.
pub enum ErrorModel {
    Transport(Seq<char>),
    Outside(Seq<char>),
    GraphQl(JsonModel),
    PackageNotFound { address: Seq<u8>, endpoint: Seq<char> },
    InvalidVersion(JsonModel),
    InvalidTypeOrigins(JsonModel),
    MissingModuleName,
    MissingEndCursor { module: Seq<char>, connection: Seq<char> },
    UnknownReferenceKind(Seq<char>),
    UnknownPrimitiveType(Seq<char>),
    MissingDatatypePackage(JsonModel),
    InvalidAddress { text: Seq<char>, reason: Seq<char> },
    MissingDatatypeModule(JsonModel),
    MissingDatatypeName(JsonModel),
    InvalidTypeParameterIndex(JsonModel),
    TypeParameterOutOfRange(u64),
    UnknownTypeBody(JsonModel),
    MissingFieldName(JsonModel),
    MissingFields(JsonModel),
    MissingStructName(JsonModel),
    MissingVariantName(JsonModel),
    MissingEnumName(JsonModel),
    MissingFunctionName(JsonModel),
}

impl View for Error {
    type V = ErrorModel;

    open spec fn view(&self) -> ErrorModel {
        match self {
            Error::Transport(text) => ErrorModel::Transport(text@),
            Error::Outside(text) => ErrorModel::Outside(text@),
            Error::GraphQl(errors) => ErrorModel::GraphQl(errors@),
            Error::PackageNotFound { address, endpoint } => ErrorModel::PackageNotFound {
                address: address@,
                endpoint: endpoint@,
            },
            Error::InvalidVersion(value) => ErrorModel::InvalidVersion(value@),
            Error::InvalidTypeOrigins(value) => ErrorModel::InvalidTypeOrigins(value@),
            Error::MissingModuleName => ErrorModel::MissingModuleName,
            Error::MissingEndCursor { module, connection } => ErrorModel::MissingEndCursor {
                module: module@,
                connection: connection@,
            },
            Error::UnknownReferenceKind(kind) => ErrorModel::UnknownReferenceKind(kind@),
            Error::UnknownPrimitiveType(name) => ErrorModel::UnknownPrimitiveType(name@),
            Error::MissingDatatypePackage(value) => ErrorModel::MissingDatatypePackage(value@),
            Error::InvalidAddress { text, reason } => ErrorModel::InvalidAddress {
                text: text@,
                reason: reason@,
            },
            Error::MissingDatatypeModule(value) => ErrorModel::MissingDatatypeModule(value@),
            Error::MissingDatatypeName(value) => ErrorModel::MissingDatatypeName(value@),
            Error::InvalidTypeParameterIndex(value) => ErrorModel::InvalidTypeParameterIndex(
                value@,
            ),
            Error::TypeParameterOutOfRange(index) => ErrorModel::TypeParameterOutOfRange(*index),
            Error::UnknownTypeBody(value) => ErrorModel::UnknownTypeBody(value@),
            Error::MissingFieldName(value) => ErrorModel::MissingFieldName(value@),
            Error::MissingFields(value) => ErrorModel::MissingFields(value@),
            Error::MissingStructName(value) => ErrorModel::MissingStructName(value@),
            Error::MissingVariantName(value) => ErrorModel::MissingVariantName(value@),
            Error::MissingEnumName(value) => ErrorModel::MissingEnumName(value@),
            Error::MissingFunctionName(value) => ErrorModel::MissingFunctionName(value@),
        }
    }
}

/// The message of an error. `detail` is what it is about in print: the compact form of
/// the value that it holds, or, where a version, type origins or an index were not
/// accepted, the reason for that.
pub open spec fn message_of(error: ErrorModel, detail: Seq<char>) -> Seq<char> {
    match error {
        ErrorModel::Transport(reason) => "Error fetching package from Sui GQL: "@ + reason,
        ErrorModel::Outside(reason) => reason,
        ErrorModel::PackageNotFound { address, endpoint } => "Package "@ + address_text(address)
            + " not found on "@ + endpoint
            + ". The package may not exist or has been removed."@,
        ErrorModel::InvalidVersion(_) => detail,
        ErrorModel::InvalidTypeOrigins(_) => detail,
        ErrorModel::InvalidAddress { reason, .. } => reason,
        ErrorModel::TypeParameterOutOfRange(_) => detail,
        ErrorModel::MissingModuleName => "Missing module name"@,
        ErrorModel::MissingEndCursor { module, connection } => "Missing endCursor for "@ + module
            + "."@ + connection,
        ErrorModel::UnknownReferenceKind(kind) => "Unknown reference kind: "@ + kind,
        ErrorModel::UnknownPrimitiveType(name) => "Unknown primitive type: "@ + name,
        ErrorModel::GraphQl(_) => "Sui GQL returned errors: "@ + detail,
        ErrorModel::MissingDatatypePackage(_) => "Missing datatype package: "@ + detail,
        ErrorModel::MissingDatatypeModule(_) => "Missing datatype module: "@ + detail,
        ErrorModel::MissingDatatypeName(_) => "Missing datatype name: "@ + detail,
        ErrorModel::InvalidTypeParameterIndex(_) => "Invalid type parameter index: "@ + detail,
        ErrorModel::UnknownTypeBody(_) => "Unknown type body: "@ + detail,
        ErrorModel::MissingFieldName(_) => "Missing field name: "@ + detail,
        ErrorModel::MissingFields(_) => "Missing fields: "@ + detail,
        ErrorModel::MissingStructName(_) => "Missing struct name: "@ + detail,
        ErrorModel::MissingVariantName(_) => "Missing variant name: "@ + detail,
        ErrorModel::MissingEnumName(_) => "Missing enum name: "@ + detail,
        ErrorModel::MissingFunctionName(_) => "Missing function name: "@ + detail,
    }
}

/// One text behind another.
fn said(what: &str, about: &str) -> (text: String)
    ensures
        text@ == what@ + about@,
{
    let mut text: String = what.to_owned();
    text.append(about);
    text
}

impl Error {
    /// The message of the error. That `detail` is what the error is about in print is left
    /// to the caller: values are printed outside of this library.
    pub fn message(&self, detail: &str) -> (text: String)
        ensures
            text@ == message_of(self@, detail@),
    {
        match self {
            Error::Transport(reason) => said(
                "Error fetching package from Sui GQL: ",
                reason.as_str(),
            ),
            Error::Outside(reason) => reason.clone(),
            Error::PackageNotFound { address, endpoint } => {
                let mut text: String = said("Package ", address.to_text().as_str());
                text.append(" not found on ");
                text.append(endpoint.as_str());
                text.append(". The package may not exist or has been removed.");
                text
            },
            Error::InvalidVersion(_) => detail.to_owned(),
            Error::InvalidTypeOrigins(_) => detail.to_owned(),
            Error::InvalidAddress { text: _, reason } => reason.clone(),
            Error::TypeParameterOutOfRange(_) => detail.to_owned(),
            Error::MissingModuleName => "Missing module name".to_owned(),
            Error::MissingEndCursor { module, connection } => {
                let mut text: String = said("Missing endCursor for ", module.as_str());
                text.append(".");
                text.append(connection.as_str());
                text
            },
            Error::UnknownReferenceKind(kind) => said("Unknown reference kind: ", kind.as_str()),
            Error::UnknownPrimitiveType(name) => said("Unknown primitive type: ", name.as_str()),
            Error::GraphQl(_) => said("Sui GQL returned errors: ", detail),
            Error::MissingDatatypePackage(_) => said("Missing datatype package: ", detail),
            Error::MissingDatatypeModule(_) => said("Missing datatype module: ", detail),
            Error::MissingDatatypeName(_) => said("Missing datatype name: ", detail),
            Error::InvalidTypeParameterIndex(_) => said("Invalid type parameter index: ", detail),
            Error::UnknownTypeBody(_) => said("Unknown type body: ", detail),
            Error::MissingFieldName(_) => said("Missing field name: ", detail),
            Error::MissingFields(_) => said("Missing fields: ", detail),
            Error::MissingStructName(_) => said("Missing struct name: ", detail),
            Error::MissingVariantName(_) => said("Missing variant name: ", detail),
            Error::MissingEnumName(_) => said("Missing enum name: ", detail),
            Error::MissingFunctionName(_) => said("Missing function name: ", detail),
        }
    }
}

} // verus!
