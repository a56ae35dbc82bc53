//! The reading of types and of what is made of them, said of the values that are read.

use vstd::prelude::*;

use crate::address::{address_refusal, spelled_address, spells_address};
use crate::error::ErrorModel;
use crate::json::{JsonModel, NumberModel};
use crate::model::{collected, law_collected};
use crate::normalized::{
    read_bodies, read_body, read_enum, read_field, read_fields, read_function, read_signature,
    read_signatures, read_struct, read_type_parameter, read_type_parameters, read_variant,
    FieldModel, TypeModel, VariantModel,
};

verus! {

/// Exactly the nine names of primitive types are read as types; any other text is refused
/// by its name.
pub proof fn law_texts_are_primitive_types(text: Seq<char>)
    ensures
        read_body(JsonModel::Text("bool"@)) == Ok::<TypeModel, ErrorModel>(TypeModel::Bool),
        read_body(JsonModel::Text("u8"@)) == Ok::<TypeModel, ErrorModel>(TypeModel::U8),
        read_body(JsonModel::Text("u16"@)) == Ok::<TypeModel, ErrorModel>(TypeModel::U16),
        read_body(JsonModel::Text("u32"@)) == Ok::<TypeModel, ErrorModel>(TypeModel::U32),
        read_body(JsonModel::Text("u64"@)) == Ok::<TypeModel, ErrorModel>(TypeModel::U64),
        read_body(JsonModel::Text("u128"@)) == Ok::<TypeModel, ErrorModel>(TypeModel::U128),
        read_body(JsonModel::Text("u256"@)) == Ok::<TypeModel, ErrorModel>(TypeModel::U256),
        read_body(JsonModel::Text("address"@)) == Ok::<TypeModel, ErrorModel>(TypeModel::Address),
        read_body(JsonModel::Text("signer"@)) == Ok::<TypeModel, ErrorModel>(TypeModel::Signer),
        text != "bool"@ && text != "u8"@ && text != "u16"@ && text != "u32"@ && text != "u64"@
            && text != "u128"@ && text != "u256"@ && text != "address"@ && text != "signer"@
            ==> read_body(JsonModel::Text(text)) == Err::<TypeModel, ErrorModel>(
            ErrorModel::UnknownPrimitiveType(text),
        ),
{
    crate::encoding::lemma_primitive_names();
}

/// An object with a vector is a vector of what its element is read as, or is refused as its
/// element is, whatever else it holds.
pub proof fn law_vectors_are_read(members: Map<Seq<char>, JsonModel>)
    requires
        members.contains_key("vector"@),
    ensures
        read_body(members["vector"@]) matches Ok(element) ==> read_body(JsonModel::Object(members))
            == Ok::<TypeModel, ErrorModel>(TypeModel::Vector(Box::new(element))),
        read_body(members["vector"@]) matches Err(error) ==> read_body(JsonModel::Object(members))
            == Err::<TypeModel, ErrorModel>(error),
{
    reveal_with_fuel(read_body, 2);
    assert(JsonModel::Object(members).get("vector"@) == Some(members["vector"@]));
}

/// An object without a vector and with a datatype is read as a datatype exactly if the
/// datatype has texts for its package, its module and its name, the package spells an
/// address, and all its type arguments are read. It has them all, in their order; where
/// they are no array it has none.
pub proof fn law_datatypes_are_read(members: Map<Seq<char>, JsonModel>)
    requires
        !members.contains_key("vector"@),
        members.contains_key("datatype"@),
    ensures
        ({
            let node = members["datatype"@];
            let arguments = node.at("typeParameters"@);
            match read_body(JsonModel::Object(members)) {
                Ok(type_) => {
                    &&& type_ matches TypeModel::Datatype(read)
                    &&& node.at("package"@) matches JsonModel::Text(package)
                    &&& spells_address(package)
                    &&& read.address == spelled_address(package)
                    &&& node.at("module"@) == JsonModel::Text(read.module)
                    &&& node.at("type"@) == JsonModel::Text(read.name)
                    &&& !(arguments is Array) ==> read.type_arguments.len() == 0
                    &&& arguments matches JsonModel::Array(items) ==> {
                        &&& read.type_arguments.len() == items.len()
                        &&& forall|i: int|
                            0 <= i < items.len() ==> read_body(#[trigger] items[i]) == Ok::<
                                TypeModel,
                                ErrorModel,
                            >(read.type_arguments[i])
                    }
                },
                Err(error) => match (
                    node.at("package"@),
                    node.at("module"@),
                    node.at("type"@),
                    arguments,
                ) {
                    (JsonModel::Text(package), module, name, _) => if !spells_address(package) {
                        error == (ErrorModel::InvalidAddress {
                            text: package,
                            reason: address_refusal(),
                        })
                    } else if !(module is Text) {
                        error == ErrorModel::MissingDatatypeModule(node)
                    } else if !(name is Text) {
                        error == ErrorModel::MissingDatatypeName(node)
                    } else {
                        arguments matches JsonModel::Array(items) && exists|i: int|
                            0 <= i < items.len() && read_body(#[trigger] items[i]) == Err::<
                                TypeModel,
                                ErrorModel,
                            >(error) && forall|j: int|
                                0 <= j < i ==> read_body(#[trigger] items[j]) is Ok
                    },
                    _ => error == ErrorModel::MissingDatatypePackage(node),
                },
            }
        }),
{
    let body = JsonModel::Object(members);
    let node = members["datatype"@];
    reveal_with_fuel(read_body, 2);
    reveal_with_fuel(read_bodies, 2);
    assert(body.get("vector"@) is None);
    assert(body.get("datatype"@) == Some(node));
    if let JsonModel::Array(items) = node.at("typeParameters"@) {
        let results = read_bodies(items);
        assert(results.len() == items.len());
        assert forall|i: int| 0 <= i < items.len() implies #[trigger] results[i] == read_body(
            items[i],
        ) by {}
        law_collected(results);
        match collected(results) {
            Ok(values) => {
                assert forall|i: int| 0 <= i < items.len() implies read_body(
                    #[trigger] items[i],
                ) == Ok::<TypeModel, ErrorModel>(values[i]) by {
                    assert(results[i] == Ok::<TypeModel, ErrorModel>(values[i]));
                }
            },
            Err(error) => {
                let i = choose|i: int|
                    0 <= i < results.len() && #[trigger] results[i] == Err::<TypeModel, ErrorModel>(
                        error,
                    ) && forall|j: int| 0 <= j < i ==> #[trigger] results[j] is Ok;
                assert(read_body(items[i]) == Err::<TypeModel, ErrorModel>(error));
                assert forall|j: int| 0 <= j < i implies read_body(#[trigger] items[j]) is Ok by {
                    assert(results[j] is Ok);
                }
            },
        }
    }
}

/// An object with neither a vector nor a datatype is read by its type parameter: an unsigned
/// integer of at most sixteen bits.
pub proof fn law_type_parameters_are_read(members: Map<Seq<char>, JsonModel>, n: u64)
    requires
        !members.contains_key("vector"@),
        !members.contains_key("datatype"@),
        members.contains_key("typeParameter"@),
    ensures
        ({
            let read = read_body(JsonModel::Object(members));
            let index = members["typeParameter"@];
            &&& index == JsonModel::Number(NumberModel::Unsigned(n)) && n < 0x10000 ==> read
                == Ok::<TypeModel, ErrorModel>(TypeModel::TypeParameter(n as u16))
            &&& index == JsonModel::Number(NumberModel::Unsigned(n)) && n >= 0x10000 ==> read
                == Err::<TypeModel, ErrorModel>(ErrorModel::TypeParameterOutOfRange(n))
            &&& !(index matches JsonModel::Number(NumberModel::Unsigned(_))) ==> read == Err::<
                TypeModel,
                ErrorModel,
            >(ErrorModel::InvalidTypeParameterIndex(index))
        }),
{
    let body = JsonModel::Object(members);
    assert(body.get("vector"@) is None && body.get("datatype"@) is None);
    assert(body.get("typeParameter"@) == Some(members["typeParameter"@]));
}

/// Whatever is neither a text nor an object with one of the three members is no body.
pub proof fn law_other_values_are_no_bodies(body: JsonModel)
    requires
        !(body is Text),
        body matches JsonModel::Object(members) ==> !members.contains_key("vector"@)
            && !members.contains_key("datatype"@) && !members.contains_key("typeParameter"@),
    ensures
        read_body(body) == Err::<TypeModel, ErrorModel>(ErrorModel::UnknownTypeBody(body)),
{
}

/// A signature is read as its body, behind a reference where its `ref` is `&` or `&mut`; any
/// other text there is refused, and what is no text there counts for nothing. An error of
/// the body is the error of the signature.
pub proof fn law_signatures_are_read(signature: JsonModel, kind: Seq<char>)
    ensures
        ({
            let read = read_signature(signature);
            match read_body(signature.at("body"@)) {
                Err(error) => read == Err::<TypeModel, ErrorModel>(error),
                Ok(type_) => {
                    &&& signature.at("ref"@) == JsonModel::Text("&"@) ==> read == Ok::<
                        TypeModel,
                        ErrorModel,
                    >(TypeModel::Reference(false, Box::new(type_)))
                    &&& signature.at("ref"@) == JsonModel::Text("&mut"@) ==> read == Ok::<
                        TypeModel,
                        ErrorModel,
                    >(TypeModel::Reference(true, Box::new(type_)))
                    &&& signature.at("ref"@) == JsonModel::Text(kind) && kind != "&"@ && kind
                        != "&mut"@ ==> read == Err::<TypeModel, ErrorModel>(
                        ErrorModel::UnknownReferenceKind(kind),
                    )
                    &&& !(signature.at("ref"@) is Text) ==> read == Ok::<TypeModel, ErrorModel>(
                        type_,
                    )
                },
            }
        }),
{
    reveal_strlit("&");
    reveal_strlit("&mut");
    assert("&"@.len() == 1 && "&mut"@.len() == 4);
}

/// A type parameter is phantom exactly if its node says so, and has the key ability exactly
/// if one of the constraints in its node is the text `KEY`.
pub proof fn law_type_parameter_is_read(node: JsonModel)
    ensures
        read_type_parameter(node).is_phantom <==> node.at("isPhantom"@) == JsonModel::Bool(true),
        read_type_parameter(node).has_key <==> (node.at("constraints"@) matches JsonModel::Array(
            items,
        ) && exists|i: int| 0 <= i < items.len() && #[trigger] items[i] == JsonModel::Text("KEY"@)),
{
}

/// There is one type parameter for each node of an array, in their order, and none for
/// anything else.
pub proof fn law_all_type_parameters_are_read(nodes: JsonModel)
    ensures
        !(nodes is Array) ==> read_type_parameters(nodes).len() == 0,
        nodes matches JsonModel::Array(items) ==> {
            &&& read_type_parameters(nodes).len() == items.len()
            &&& forall|i: int|
                0 <= i < items.len() ==> #[trigger] read_type_parameters(nodes)[i]
                    == read_type_parameter(items[i])
        },
{
}

/// A field has the name and the type in its node, which both have to be there.
pub proof fn law_field_is_read(node: JsonModel)
    ensures
        match read_field(node) {
            Ok(field) => {
                &&& node.at("name"@) == JsonModel::Text(field.name)
                &&& read_signature(node.at("type"@).at("signature"@)) == Ok::<
                    TypeModel,
                    ErrorModel,
                >(field.type_)
            },
            Err(error) => if !(node.at("name"@) is Text) {
                error == ErrorModel::MissingFieldName(node)
            } else {
                read_signature(node.at("type"@).at("signature"@)) == Err::<TypeModel, ErrorModel>(
                    error,
                )
            },
        },
{
}

/// There is one field for each node of an array, in their order, unless a node is refused:
/// then the first that is refused decides. Anything but an array is refused.
pub proof fn law_all_fields_are_read(nodes: JsonModel)
    ensures
        match read_fields(nodes) {
            Ok(fields) => {
                &&& nodes matches JsonModel::Array(items)
                &&& fields.len() == items.len()
                &&& forall|i: int|
                    0 <= i < items.len() ==> read_field(#[trigger] items[i]) == Ok::<
                        FieldModel,
                        ErrorModel,
                    >(fields[i])
            },
            Err(error) => match nodes {
                JsonModel::Array(items) => exists|i: int|
                    0 <= i < items.len() && read_field(#[trigger] items[i]) == Err::<
                        FieldModel,
                        ErrorModel,
                    >(error) && forall|j: int|
                        0 <= j < i ==> read_field(#[trigger] items[j]) is Ok,
                _ => error == ErrorModel::MissingFields(nodes),
            },
        },
{
    if let JsonModel::Array(items) = nodes {
        lemma_collected_one_for_one(items, |field: JsonModel| read_field(field));
    }
}

/// What is read from items by one rule is collected one for one, up to the first refusal.
pub proof fn lemma_collected_one_for_one<M>(
    items: Seq<JsonModel>,
    read: spec_fn(JsonModel) -> Result<M, ErrorModel>,
)
    ensures
        match collected(items.map_values(read)) {
            Ok(values) => values.len() == items.len() && forall|i: int|
                0 <= i < items.len() ==> read(#[trigger] items[i]) == Ok::<M, ErrorModel>(
                    values[i],
                ),
            Err(error) => exists|i: int|
                0 <= i < items.len() && read(#[trigger] items[i]) == Err::<M, ErrorModel>(error)
                    && forall|j: int| 0 <= j < i ==> read(#[trigger] items[j]) is Ok,
        },
{
    let results = items.map_values(read);
    law_collected(results);
    match collected(results) {
        Ok(values) => {
            assert forall|i: int| 0 <= i < items.len() implies read(#[trigger] items[i]) == Ok::<
                M,
                ErrorModel,
            >(values[i]) by {
                assert(results[i] == Ok::<M, ErrorModel>(values[i]));
            }
        },
        Err(error) => {
            let i = choose|i: int|
                0 <= i < results.len() && #[trigger] results[i] == Err::<M, ErrorModel>(error)
                    && forall|j: int| 0 <= j < i ==> #[trigger] results[j] is Ok;
            assert(read(items[i]) == Err::<M, ErrorModel>(error));
            assert forall|j: int| 0 <= j < i implies read(#[trigger] items[j]) is Ok by {
                assert(results[j] is Ok);
            }
        },
    }
}

/// A struct has the name, the type parameters and the fields in its node. It has the key
/// ability exactly if one of the abilities in its node is the text `KEY`. A missing name is
/// reported before anything wrong with the fields.
pub proof fn law_struct_is_read(node: JsonModel)
    ensures
        match read_struct(node) {
            Ok(read) => {
                &&& node.at("name"@) == JsonModel::Text(read.name)
                &&& read.has_key_ability <==> (node.at("abilities"@) matches JsonModel::Array(items)
                    && exists|i: int|
                    0 <= i < items.len() && #[trigger] items[i] == JsonModel::Text("KEY"@))
                &&& read.type_parameters == read_type_parameters(node.at("typeParameters"@))
                &&& read_fields(node.at("fields"@)) == Ok::<Seq<FieldModel>, ErrorModel>(
                    read.fields,
                )
            },
            Err(error) => if !(node.at("name"@) is Text) {
                error == ErrorModel::MissingStructName(node)
            } else {
                read_fields(node.at("fields"@)) == Err::<Seq<FieldModel>, ErrorModel>(error)
            },
        },
{
}

/// A variant has the name and the fields in its node.
pub proof fn law_variant_is_read(node: JsonModel)
    ensures
        match read_variant(node) {
            Ok(read) => {
                &&& node.at("name"@) == JsonModel::Text(read.name)
                &&& read_fields(node.at("fields"@)) == Ok::<Seq<FieldModel>, ErrorModel>(
                    read.fields,
                )
            },
            Err(error) => if !(node.at("name"@) is Text) {
                error == ErrorModel::MissingVariantName(node)
            } else {
                read_fields(node.at("fields"@)) == Err::<Seq<FieldModel>, ErrorModel>(error)
            },
        },
{
}

/// An enum has the name and the type parameters in its node, and one variant for each node
/// of a variant, in their order; where those are no array it has none. The first variant
/// that is refused is reported before a missing name.
pub proof fn law_enum_is_read(node: JsonModel)
    ensures
        match read_enum(node) {
            Ok(read) => {
                &&& node.at("name"@) == JsonModel::Text(read.name)
                &&& read.type_parameters == read_type_parameters(node.at("typeParameters"@))
                &&& !(node.at("variants"@) is Array) ==> read.variants.len() == 0
                &&& node.at("variants"@) matches JsonModel::Array(items) ==> {
                    &&& read.variants.len() == items.len()
                    &&& forall|i: int|
                        0 <= i < items.len() ==> read_variant(#[trigger] items[i]) == Ok::<
                            VariantModel,
                            ErrorModel,
                        >(read.variants[i])
                }
            },
            Err(error) => {
                ||| node.at("variants"@) matches JsonModel::Array(items) && exists|i: int|
                    0 <= i < items.len() && read_variant(#[trigger] items[i]) == Err::<
                        VariantModel,
                        ErrorModel,
                    >(error) && forall|j: int|
                        0 <= j < i ==> read_variant(#[trigger] items[j]) is Ok
                ||| {
                    &&& !(node.at("name"@) is Text)
                    &&& error == ErrorModel::MissingEnumName(node)
                    &&& node.at("variants"@) matches JsonModel::Array(items) ==> forall|i: int|
                        0 <= i < items.len() ==> read_variant(#[trigger] items[i]) is Ok
                }
            },
        },
{
    lemma_collected_one_for_one(
        node.at("variants"@).items_or_none(),
        |variant: JsonModel| read_variant(variant),
    );
}

/// There is one type for each node of an array, in their order, unless a signature is
/// refused: then the first that is refused decides. Anything but an array has none.
pub proof fn law_all_signatures_are_read(nodes: JsonModel)
    ensures
        match read_signatures(nodes) {
            Ok(types) => {
                &&& !(nodes is Array) ==> types.len() == 0
                &&& nodes matches JsonModel::Array(items) ==> {
                    &&& types.len() == items.len()
                    &&& forall|i: int|
                        0 <= i < items.len() ==> read_signature(
                            (#[trigger] items[i]).at("signature"@),
                        ) == Ok::<TypeModel, ErrorModel>(types[i])
                }
            },
            Err(error) => nodes matches JsonModel::Array(items) && exists|i: int|
                0 <= i < items.len() && read_signature((#[trigger] items[i]).at("signature"@))
                    == Err::<TypeModel, ErrorModel>(error) && forall|j: int|
                    0 <= j < i ==> read_signature((#[trigger] items[j]).at("signature"@)) is Ok,
        },
{
    lemma_collected_one_for_one(
        nodes.items_or_none(),
        |node: JsonModel| read_signature(node.at("signature"@)),
    );
}

/// A function has the name and the type parameters in its node, one parameter for each item
/// of its `parameters` and one returned type for each item of its `return`, each the type
/// that the signature of the item describes, whatever else the node holds. A missing name
/// is reported first, then the first refused parameter, then the first refused return.
pub proof fn law_function_is_read(node: JsonModel)
    ensures
        match read_function(node) {
            Ok(read) => {
                &&& node.at("name"@) == JsonModel::Text(read.name)
                &&& read.type_parameters == read_type_parameters(node.at("typeParameters"@))
                &&& !(node.at("parameters"@) is Array) ==> read.parameters.len() == 0
                &&& node.at("parameters"@) matches JsonModel::Array(items) ==> {
                    &&& read.parameters.len() == items.len()
                    &&& forall|i: int|
                        0 <= i < items.len() ==> read_signature(
                            (#[trigger] items[i]).at("signature"@),
                        ) == Ok::<TypeModel, ErrorModel>(read.parameters[i])
                }
                &&& !(node.at("return"@) is Array) ==> read.returns.len() == 0
                &&& node.at("return"@) matches JsonModel::Array(items) ==> {
                    &&& read.returns.len() == items.len()
                    &&& forall|i: int|
                        0 <= i < items.len() ==> read_signature(
                            (#[trigger] items[i]).at("signature"@),
                        ) == Ok::<TypeModel, ErrorModel>(read.returns[i])
                }
            },
            Err(error) => if !(node.at("name"@) is Text) {
                error == ErrorModel::MissingFunctionName(node)
            } else {
                match read_signatures(node.at("parameters"@)) {
                    Err(refused) => error == refused,
                    Ok(_) => read_signatures(node.at("return"@)) == Err::<
                        Seq<TypeModel>,
                        ErrorModel,
                    >(error),
                }
            },
        },
{
    law_all_signatures_are_read(node.at("parameters"@));
    law_all_signatures_are_read(node.at("return"@));
}

/// Nodes that agree in the members that count are read alike, whatever other members they
/// have.
pub proof fn law_other_members_do_not_count(a: JsonModel, b: JsonModel)
    ensures
        a.at("name"@) == b.at("name"@) && a.at("typeParameters"@) == b.at("typeParameters"@)
            && a.at("parameters"@) == b.at("parameters"@) && a.at("return"@) == b.at("return"@)
            && read_function(a) is Ok ==> read_function(a) == read_function(b),
        a.at("name"@) == b.at("name"@) && a.at("abilities"@) == b.at("abilities"@) && a.at(
            "typeParameters"@,
        ) == b.at("typeParameters"@) && a.at("fields"@) == b.at("fields"@) && read_struct(
            a,
        ) is Ok ==> read_struct(a) == read_struct(b),
        a.at("name"@) == b.at("name"@) && a.at("typeParameters"@) == b.at("typeParameters"@)
            && a.at("variants"@) == b.at("variants"@) && read_enum(a) is Ok ==> read_enum(a)
            == read_enum(b),
        a.at("name"@) == b.at("name"@) && a.at("fields"@) == b.at("fields"@) && read_variant(
            a,
        ) is Ok ==> read_variant(a) == read_variant(b),
        a.at("name"@) == b.at("name"@) && a.at("type"@) == b.at("type"@) && read_field(a) is Ok
            ==> read_field(a) == read_field(b),
        a.at("isPhantom"@) == b.at("isPhantom"@) && a.at("constraints"@) == b.at("constraints"@)
            ==> read_type_parameter(a) == read_type_parameter(b),
        a.at("body"@) == b.at("body"@) && a.at("ref"@) == b.at("ref"@) ==> read_signature(a)
            == read_signature(b),
{
}

} // verus!
