//! What values stand for: nothing that they hold is left out.

use vstd::prelude::*;

use crate::error::{Error, ErrorModel};
use crate::json::{lemma_json_view, member_models, Json, JsonModel, JsonNumber, NumberModel};
use crate::model::lemma_mapped;
use crate::name_map::NameMap;
use crate::normalized::{
    Datatype, Enum, Field, Function, Module, Package, Struct, Type, TypeModel, TypeParameter,
    Variant,
};
use crate::package_provider::{PackageFetch, Progress, ProgressModel};
use crate::request::Request;

verus! {

/// A JSON value stands for the value that it is: an array for all its items in their order,
/// and an object for its members, of which the last with a key counts.
pub proof fn law_json_stands_for_itself(json: Json, key: Seq<char>)
    ensures
        json is Null <==> json@ == JsonModel::Null,
        json matches Json::Bool(flag) ==> json@ == JsonModel::Bool(flag),
        json matches Json::Number(JsonNumber::Unsigned(n)) ==> json@ == JsonModel::Number(
            NumberModel::Unsigned(n),
        ),
        json matches Json::Number(JsonNumber::Negative(n)) ==> json@ == JsonModel::Number(
            NumberModel::Negative(n),
        ),
        json matches Json::Number(JsonNumber::Float(text)) ==> json@ == JsonModel::Number(
            NumberModel::Float(text@),
        ),
        json matches Json::Text(text) ==> json@ == JsonModel::Text(text@),
        json matches Json::Array(values) ==> (json@ matches JsonModel::Array(items)
            && items.len() == values@.len() && forall|i: int|
            0 <= i < items.len() ==> #[trigger] items[i] == values@[i]@),
        json matches Json::Object(members) ==> (json@ matches JsonModel::Object(map) && (
        map.contains_key(key) <==> exists|i: int|
            0 <= i < members@.len() && (#[trigger] members@[i]).0@ == key)),
        json matches Json::Object(members) ==> (json@ matches JsonModel::Object(map) && forall|
            i: int,
        |
            0 <= i < members@.len() && (#[trigger] members@[i]).0@ == key && (forall|j: int|
                i < j < members@.len() ==> (#[trigger] members@[j]).0@ != key) ==> map[key]
                == members@[i].1@),
{
    lemma_json_view(json);
    if let Json::Object(members) = json {
        let listed = member_models(members@);
        lemma_mapped(listed, key);
        assert(forall|i: int|
            0 <= i < listed.len() ==> listed[i] == (members@[i].0@, members@[i].1@));
        if exists|i: int| 0 <= i < members@.len() && (#[trigger] members@[i]).0@ == key {
            let i = choose|i: int| 0 <= i < members@.len() && (#[trigger] members@[i]).0@ == key;
            assert(listed[i].0 == key);
        }
        if exists|i: int| 0 <= i < listed.len() && (#[trigger] listed[i]).0 == key {
            let i = choose|i: int| 0 <= i < listed.len() && (#[trigger] listed[i]).0 == key;
            assert(members@[i].0@ == key);
        }
        assert forall|i: int|
            0 <= i < members@.len() && (#[trigger] members@[i]).0@ == key && (forall|j: int|
                i < j < members@.len() ==> (#[trigger] members@[j]).0@
                    != key) implies json@->Object_0[key] == members@[i].1@ by {
            assert(listed[i].0 == key);
            assert forall|j: int| i < j < listed.len() implies #[trigger] listed[j].0 != key by {
                assert(members@[j].0@ != key);
            }
        }
    }
}

/// A type stands for the type that it is.
pub proof fn law_types_stand_for_themselves(type_: Type)
    ensures
        type_ is Bool <==> type_@ is Bool,
        type_ is U8 <==> type_@ is U8,
        type_ is U16 <==> type_@ is U16,
        type_ is U32 <==> type_@ is U32,
        type_ is U64 <==> type_@ is U64,
        type_ is U128 <==> type_@ is U128,
        type_ is U256 <==> type_@ is U256,
        type_ is Address <==> type_@ is Address,
        type_ is Signer <==> type_@ is Signer,
        type_ matches Type::Vector(element) ==> type_@ == TypeModel::Vector(Box::new(element@)),
        type_ matches Type::Datatype(datatype) ==> type_@ == TypeModel::Datatype(
            Box::new(datatype@),
        ),
        type_ matches Type::Reference(mutable, referent) ==> type_@ == TypeModel::Reference(
            mutable,
            Box::new(referent@),
        ),
        type_ matches Type::TypeParameter(index) ==> type_@ == TypeModel::TypeParameter(index),
{
}

/// A datatype stands for its address, its module, its name and all its type arguments.
pub proof fn law_datatypes_stand_for_their_parts(datatype: Datatype)
    ensures
        datatype@.address == datatype.address.bytes@,
        datatype@.module == datatype.module@,
        datatype@.name == datatype.name@,
        datatype@.type_arguments =~= datatype.type_arguments@.map_values(|part: Type| part@),
{
}

/// What a module is made of stands for all its parts.
pub proof fn law_members_stand_for_their_parts(
    type_parameter: TypeParameter,
    field: Field,
    variant: Variant,
    struct_: Struct,
    enum_: Enum,
    function: Function,
)
    ensures
        type_parameter@ == type_parameter,
        field@.name == field.name@,
        field@.type_ == field.type_@,
        variant@.name == variant.name@,
        variant@.fields =~= variant.fields@.map_values(|part: Field| part@),
        struct_@.name == struct_.name@,
        struct_@.has_key_ability == struct_.has_key_ability,
        struct_@.type_parameters =~= struct_.type_parameters@,
        struct_@.fields =~= struct_.fields@.map_values(|part: Field| part@),
        enum_@.name == enum_.name@,
        enum_@.type_parameters =~= enum_.type_parameters@,
        enum_@.variants =~= enum_.variants@.map_values(|part: Variant| part@),
        function@.name == function.name@,
        function@.type_parameters =~= function.type_parameters@,
        function@.parameters =~= function.parameters@.map_values(|part: Type| part@),
        function@.returns =~= function.returns@.map_values(|part: Type| part@),
{
}

/// A module and a package stand for all their parts.
pub proof fn law_packages_stand_for_their_parts(
    module: Module,
    package: Package,
    name: Seq<char>,
    datatype: Seq<char>,
)
    ensures
        module@.name == module.name@,
        module@.structs =~= module.structs@.map_values(|part: Struct| part@),
        module@.enums =~= module.enums@.map_values(|part: Enum| part@),
        module@.functions =~= module.functions@.map_values(|part: Function| part@),
        package@.address == package.address.bytes@,
        package@.version == package.version,
        package@.modules.contains_key(name) <==> package.modules@.contains_key(name),
        package.modules@.contains_key(name) ==> package@.modules[name]
            == package.modules@[name]@,
        package@.type_origin_table.contains_key(name)
            <==> package.type_origin_table@.contains_key(name),
        package.type_origin_table@.contains_key(name) ==> {
            let origins: NameMap<crate::address::Address> = package.type_origin_table@[name];
            &&& package@.type_origin_table[name].contains_key(datatype)
                <==> origins@.contains_key(datatype)
            &&& origins@.contains_key(datatype) ==> package@.type_origin_table[name][datatype]
                == origins@[datatype].bytes@
        },
{
}

/// A request stands for its query and its variables, and progress for what is waited for or
/// for the package.
pub proof fn law_requests_and_progress_stand_for_their_parts(
    request: Request,
    fetch: PackageFetch,
    package: Package,
)
    ensures
        request@.query == request.query@,
        request@.variables == request.variables@,
        Progress::Waiting(fetch)@ == ProgressModel::Waiting(fetch@),
        Progress::Done(package)@ == ProgressModel::Done(package@),
{
}

/// An error stands for the error that it is, with all that it holds.
pub proof fn law_errors_stand_for_themselves(error: Error)
    ensures
        error matches Error::Transport(x) ==> error@ == ErrorModel::Transport(x@),
        error matches Error::Outside(x) ==> error@ == ErrorModel::Outside(x@),
        error matches Error::GraphQl(x) ==> error@ == ErrorModel::GraphQl(x@),
        error matches Error::PackageNotFound { address, endpoint } ==> error@ == (
        ErrorModel::PackageNotFound { address: address.bytes@, endpoint: endpoint@ }),
        error matches Error::InvalidVersion(x) ==> error@ == ErrorModel::InvalidVersion(x@),
        error matches Error::InvalidTypeOrigins(x) ==> error@ == ErrorModel::InvalidTypeOrigins(
            x@,
        ),
        error is MissingModuleName <==> error@ == ErrorModel::MissingModuleName,
        error matches Error::MissingEndCursor { module, connection } ==> error@ == (
        ErrorModel::MissingEndCursor { module: module@, connection: connection@ }),
        error matches Error::UnknownReferenceKind(x) ==> error@
            == ErrorModel::UnknownReferenceKind(x@),
        error matches Error::UnknownPrimitiveType(x) ==> error@
            == ErrorModel::UnknownPrimitiveType(x@),
        error matches Error::MissingDatatypePackage(x) ==> error@
            == ErrorModel::MissingDatatypePackage(x@),
        error matches Error::InvalidAddress { text, reason } ==> error@ == (
        ErrorModel::InvalidAddress { text: text@, reason: reason@ }),
        error matches Error::MissingDatatypeModule(x) ==> error@
            == ErrorModel::MissingDatatypeModule(x@),
        error matches Error::MissingDatatypeName(x) ==> error@ == ErrorModel::MissingDatatypeName(
            x@,
        ),
        error matches Error::InvalidTypeParameterIndex(x) ==> error@
            == ErrorModel::InvalidTypeParameterIndex(x@),
        error matches Error::TypeParameterOutOfRange(n) ==> error@
            == ErrorModel::TypeParameterOutOfRange(n),
        error matches Error::UnknownTypeBody(x) ==> error@ == ErrorModel::UnknownTypeBody(x@),
        error matches Error::MissingFieldName(x) ==> error@ == ErrorModel::MissingFieldName(x@),
        error matches Error::MissingFields(x) ==> error@ == ErrorModel::MissingFields(x@),
        error matches Error::MissingStructName(x) ==> error@ == ErrorModel::MissingStructName(x@),
        error matches Error::MissingVariantName(x) ==> error@ == ErrorModel::MissingVariantName(
            x@,
        ),
        error matches Error::MissingEnumName(x) ==> error@ == ErrorModel::MissingEnumName(x@),
        error matches Error::MissingFunctionName(x) ==> error@ == ErrorModel::MissingFunctionName(
            x@,
        ),
{
}

} // verus!
