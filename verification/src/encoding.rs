//! The JSON form of Move types and of what is made of them, and how the reader stands to
//! it: it reads everything back from its form, and yields nothing but what has one.

use vstd::prelude::*;

use crate::address::{address_text, law_address_round_trip};
use crate::error::ErrorModel;
use crate::json::{JsonModel, NumberModel};
use crate::model::{collected, law_collected, lemma_mapped, mapped};
use crate::normalized::{
    lists_key, primitive_type, read_bodies, read_body, read_datatype, read_enum, read_field,
    read_fields, read_function, read_signature, read_signatures, read_struct,
    read_type_parameter, read_type_parameters, read_variant, DatatypeModel, EnumModel, FieldModel,
    FunctionModel, StructModel, TypeModel, TypeParameter, VariantModel,
};

verus! {

/// Whether a type can stand in a body: no part of it is a reference, and every
/// address in it has 32 bytes.
pub open spec fn is_body(type_: TypeModel) -> bool
    decreases type_,
{
    match type_ {
        TypeModel::Vector(element) => is_body(*element),
        TypeModel::Datatype(datatype) => {
            &&& datatype.address.len() == 32
            &&& forall|i: int|
                0 <= i < datatype.type_arguments.len() ==> is_body(
                    #[trigger] datatype.type_arguments[i],
                )
        },
        TypeModel::Reference(_, _) => false,
        _ => true,
    }
}

/// Whether a type can stand in a signature: it is a body, or a reference to one.
pub open spec fn is_signature(type_: TypeModel) -> bool {
    match type_ {
        TypeModel::Reference(_, referent) => is_body(*referent),
        _ => is_body(type_),
    }
}

/// The body of a type.
pub open spec fn body_of(type_: TypeModel) -> JsonModel
    decreases type_,
{
    match type_ {
        TypeModel::Bool => JsonModel::Text("bool"@),
        TypeModel::U8 => JsonModel::Text("u8"@),
        TypeModel::U16 => JsonModel::Text("u16"@),
        TypeModel::U32 => JsonModel::Text("u32"@),
        TypeModel::U64 => JsonModel::Text("u64"@),
        TypeModel::U128 => JsonModel::Text("u128"@),
        TypeModel::U256 => JsonModel::Text("u256"@),
        TypeModel::Address => JsonModel::Text("address"@),
        TypeModel::Signer => JsonModel::Text("signer"@),
        TypeModel::Vector(element) => JsonModel::Object(
            mapped(seq![("vector"@, body_of(*element))]),
        ),
        TypeModel::Datatype(datatype) => JsonModel::Object(
            mapped(
                seq![
                    (
                        "datatype"@,
                        JsonModel::Object(
                            mapped(
                                seq![
                                    ("package"@, JsonModel::Text(address_text(datatype.address))),
                                    ("module"@, JsonModel::Text(datatype.module)),
                                    ("type"@, JsonModel::Text(datatype.name)),
                                    (
                                        "typeParameters"@,
                                        JsonModel::Array(bodies_of(datatype.type_arguments)),
                                    ),
                                ],
                            ),
                        ),
                    ),
                ],
            ),
        ),
        TypeModel::TypeParameter(index) => JsonModel::Object(
            mapped(
                seq![
                    ("typeParameter"@, JsonModel::Number(NumberModel::Unsigned(index as u64))),
                ],
            ),
        ),
        TypeModel::Reference(_, _) => JsonModel::Null,
    }
}

/// The bodies of types.
pub open spec fn bodies_of(types: Seq<TypeModel>) -> Seq<JsonModel>
    decreases types,
{
    Seq::new(
        types.len(),
        |i: int|
            if 0 <= i < types.len() {
                body_of(types[i])
            } else {
                JsonModel::Null
            },
    )
}

/// The signature of a type.
pub open spec fn signature_of(type_: TypeModel) -> JsonModel {
    match type_ {
        TypeModel::Reference(mutable, referent) => JsonModel::Object(
            mapped(
                seq![
                    (
                        "ref"@,
                        JsonModel::Text(
                            if mutable {
                                "&mut"@
                            } else {
                                "&"@
                            },
                        ),
                    ),
                    ("body"@, body_of(*referent)),
                ],
            ),
        ),
        _ => JsonModel::Object(
            mapped(seq![("ref"@, JsonModel::Null), ("body"@, body_of(type_))]),
        ),
    }
}

/// A member of an object whose keys differ is found under its key.
proof fn lemma_member(entries: Seq<(Seq<char>, JsonModel)>, i: int)
    requires
        0 <= i < entries.len(),
        forall|j: int| i < j < entries.len() ==> #[trigger] entries[j].0 != entries[i].0,
    ensures
        JsonModel::Object(mapped(entries)).get(entries[i].0) == Some(entries[i].1),
        JsonModel::Object(mapped(entries)).at(entries[i].0) == entries[i].1,
{
    lemma_mapped(entries, entries[i].0);
}

/// What no member is called is not found.
proof fn lemma_no_member(entries: Seq<(Seq<char>, JsonModel)>, key: Seq<char>)
    requires
        forall|i: int| 0 <= i < entries.len() ==> #[trigger] entries[i].0 != key,
    ensures
        JsonModel::Object(mapped(entries)).get(key) is None,
{
    lemma_mapped(entries, key);
}

/// The keys that stand side by side in an object differ.
proof fn lemma_keys()
    ensures
        "vector"@.len() == 6,
        "datatype"@.len() == 8,
        "typeParameter"@.len() == 13,
        "package"@.len() == 7,
        "module"@.len() == 6,
        "type"@.len() == 4,
        "typeParameters"@.len() == 14,
        "ref"@.len() == 3,
        "body"@.len() == 4,
        "&"@.len() == 1,
        "&mut"@.len() == 4,
        "name"@.len() == 4,
        "name"@ != "type"@,
        "abilities"@.len() == 9,
        "fields"@.len() == 6,
        "variants"@.len() == 8,
        "parameters"@.len() == 10,
        "return"@.len() == 6,
        "isPhantom"@.len() == 9,
        "constraints"@.len() == 11,
{
    reveal_strlit("vector");
    reveal_strlit("datatype");
    reveal_strlit("typeParameter");
    reveal_strlit("package");
    reveal_strlit("module");
    reveal_strlit("type");
    reveal_strlit("typeParameters");
    reveal_strlit("ref");
    reveal_strlit("body");
    reveal_strlit("&");
    reveal_strlit("&mut");
    reveal_strlit("name");
    reveal_strlit("abilities");
    reveal_strlit("fields");
    reveal_strlit("variants");
    reveal_strlit("parameters");
    reveal_strlit("return");
    reveal_strlit("isPhantom");
    reveal_strlit("constraints");
    assert("name"@[0] == 'n' && "type"@[0] == 't');
}

/// Values of which none is refused are collected as they are.
proof fn lemma_collected_values<M>(results: Seq<Result<M, ErrorModel>>, values: Seq<M>)
    requires
        results.len() == values.len(),
        forall|i: int| 0 <= i < values.len() ==> #[trigger] results[i] == Ok::<M, ErrorModel>(
            values[i],
        ),
    ensures
        collected(results) == Ok::<Seq<M>, ErrorModel>(values),
{
    law_collected(results);
    if let Ok(found) = collected(results) {
        assert forall|i: int| 0 <= i < values.len() implies found[i] == values[i] by {
            assert(results[i] == Ok::<M, ErrorModel>(values[i]));
        }
        assert(found =~= values);
    }
}

/// Different primitive types have different names.
pub proof fn lemma_primitive_names()
    ensures
        primitive_type("bool"@) == Some(TypeModel::Bool),
        primitive_type("u8"@) == Some(TypeModel::U8),
        primitive_type("u16"@) == Some(TypeModel::U16),
        primitive_type("u32"@) == Some(TypeModel::U32),
        primitive_type("u64"@) == Some(TypeModel::U64),
        primitive_type("u128"@) == Some(TypeModel::U128),
        primitive_type("u256"@) == Some(TypeModel::U256),
        primitive_type("address"@) == Some(TypeModel::Address),
        primitive_type("signer"@) == Some(TypeModel::Signer),
{
    reveal_strlit("bool");
    reveal_strlit("u8");
    reveal_strlit("u16");
    reveal_strlit("u32");
    reveal_strlit("u64");
    reveal_strlit("u128");
    reveal_strlit("u256");
    reveal_strlit("address");
    reveal_strlit("signer");
    assert("bool"@.len() == 4 && "u8"@.len() == 2 && "u16"@.len() == 3 && "u32"@.len() == 3);
    assert("u64"@.len() == 3 && "u128"@.len() == 4 && "u256"@.len() == 4);
    assert("address"@.len() == 7 && "signer"@.len() == 6);
    assert("u16"@[1] == '1' && "u32"@[1] == '3' && "u64"@[1] == '6');
    assert("bool"@[0] == 'b' && "u128"@[0] == 'u' && "u256"@[0] == 'u');
    assert("u128"@[1] == '1' && "u256"@[1] == '2');
}

/// A type that can stand in a body is read back from its body.
pub proof fn law_body_round_trip(type_: TypeModel)
    requires
        is_body(type_),
    ensures
        read_body(body_of(type_)) == Ok::<TypeModel, ErrorModel>(type_),
    decreases type_,
{
    lemma_primitive_names();
    lemma_keys();
    match type_ {
        TypeModel::Vector(element) => {
            law_body_round_trip(*element);
            lemma_member(seq![("vector"@, body_of(*element))], 0);
        },
        TypeModel::TypeParameter(index) => {
            let members = seq![
                ("typeParameter"@, JsonModel::Number(NumberModel::Unsigned(index as u64))),
            ];
            lemma_no_member(members, "vector"@);
            lemma_no_member(members, "datatype"@);
            lemma_member(members, 0);
        },
        TypeModel::Datatype(datatype) => {
            lemma_datatype_round_trip(*datatype);
        },
        _ => {},
    }
}

/// A datatype is read back from its body.
proof fn lemma_datatype_round_trip(datatype: DatatypeModel)
    requires
        is_body(TypeModel::Datatype(Box::new(datatype))),
    ensures
        read_body(body_of(TypeModel::Datatype(Box::new(datatype)))) == Ok::<TypeModel, ErrorModel>(
            TypeModel::Datatype(Box::new(datatype)),
        ),
    decreases datatype,
{
    lemma_keys();
    let type_ = TypeModel::Datatype(Box::new(datatype));
    let arguments = datatype.type_arguments;
    let members = seq![
        ("package"@, JsonModel::Text(address_text(datatype.address))),
        ("module"@, JsonModel::Text(datatype.module)),
        ("type"@, JsonModel::Text(datatype.name)),
        ("typeParameters"@, JsonModel::Array(bodies_of(arguments))),
    ];
    let node = JsonModel::Object(mapped(members));
    lemma_member(members, 0);
    lemma_member(members, 1);
    lemma_member(members, 2);
    lemma_member(members, 3);
    lemma_member(seq![("datatype"@, node)], 0);
    lemma_no_member(seq![("datatype"@, node)], "vector"@);
    law_address_round_trip(datatype.address);
    let results = read_bodies(bodies_of(arguments));
    assert forall|i: int| 0 <= i < arguments.len() implies #[trigger] results[i] == Ok::<
        TypeModel,
        ErrorModel,
    >(arguments[i]) by {
        assert(is_body(arguments[i]));
        law_body_round_trip(arguments[i]);
        assert(bodies_of(arguments)[i] == body_of(arguments[i]));
    }
    lemma_collected_values(results, arguments);
    let body = body_of(type_);
    assert(body == JsonModel::Object(mapped(seq![("datatype"@, node)])));
    assert(read_body(body) == read_datatype(node, collected(results)));
}

/// A type that can stand in a signature is read back from its signature.
pub proof fn law_signature_round_trip(type_: TypeModel)
    requires
        is_signature(type_),
    ensures
        read_signature(signature_of(type_)) == Ok::<TypeModel, ErrorModel>(type_),
{
    lemma_keys();
    let (kind, inner) = match type_ {
        TypeModel::Reference(mutable, referent) => (
            JsonModel::Text(
                if mutable {
                    "&mut"@
                } else {
                    "&"@
                },
            ),
            *referent,
        ),
        _ => (JsonModel::Null, type_),
    };
    let members = seq![("ref"@, kind), ("body"@, body_of(inner))];
    law_body_round_trip(inner);
    lemma_member(members, 0);
    lemma_member(members, 1);
    assert(signature_of(type_) == JsonModel::Object(mapped(members)));
}

/// Whatever is read from a body can stand in a body: it holds no reference.
pub proof fn law_body_sound(body: JsonModel)
    ensures
        read_body(body) matches Ok(type_) ==> is_body(type_),
    decreases body,
{
    if body.text() is None {
        if let Some(element) = body.get("vector"@) {
            law_body_sound(element);
        } else if let Some(datatype) = body.get("datatype"@) {
            if let Some(arguments) = datatype.at("typeParameters"@).items() {
                let results = read_bodies(arguments);
                law_collected(results);
                if let Ok(values) = collected(results) {
                    assert forall|i: int| 0 <= i < values.len() implies is_body(
                        #[trigger] values[i],
                    ) by {
                        assert(results[i] == Ok::<TypeModel, ErrorModel>(values[i]));
                        law_body_sound(arguments[i]);
                    }
                }
            }
        }
    }
}

/// Whatever is read from a signature can stand in a signature: only its outermost part
/// may be a reference.
pub proof fn law_signature_sound(signature: JsonModel)
    ensures
        read_signature(signature) matches Ok(type_) ==> is_signature(type_),
{
    law_body_sound(signature.at("body"@));
}

/// Whether every field has a type that can stand in a signature.
pub open spec fn are_fields(fields: Seq<FieldModel>) -> bool {
    forall|i: int| 0 <= i < fields.len() ==> is_signature((#[trigger] fields[i]).type_)
}

/// Whether every variant has fields that a node can describe.
pub open spec fn are_variants(variants: Seq<VariantModel>) -> bool {
    forall|i: int| 0 <= i < variants.len() ==> are_fields((#[trigger] variants[i]).fields)
}

/// Whether every type can stand in a signature.
pub open spec fn are_signatures(types: Seq<TypeModel>) -> bool {
    forall|i: int| 0 <= i < types.len() ==> is_signature(#[trigger] types[i])
}

/// The abilities of what has the ability `key`, or of what has none.
pub open spec fn key_list(has_key: bool) -> JsonModel {
    JsonModel::Array(
        if has_key {
            seq![JsonModel::Text("KEY"@)]
        } else {
            seq![]
        },
    )
}

/// The node of a type parameter.
pub open spec fn type_parameter_node(type_parameter: TypeParameter) -> JsonModel {
    JsonModel::Object(
        mapped(
            seq![
                ("isPhantom"@, JsonModel::Bool(type_parameter.is_phantom)),
                ("constraints"@, key_list(type_parameter.has_key)),
            ],
        ),
    )
}

/// The nodes of type parameters.
pub open spec fn type_parameter_nodes(type_parameters: Seq<TypeParameter>) -> JsonModel {
    JsonModel::Array(
        type_parameters.map_values(
            |type_parameter: TypeParameter| type_parameter_node(type_parameter),
        ),
    )
}

/// The node of something with a signature.
pub open spec fn signed_node(type_: TypeModel) -> JsonModel {
    JsonModel::Object(mapped(seq![("signature"@, signature_of(type_))]))
}

/// The nodes of things with signatures.
pub open spec fn signed_nodes(types: Seq<TypeModel>) -> JsonModel {
    JsonModel::Array(types.map_values(|type_: TypeModel| signed_node(type_)))
}

/// The node of a field.
pub open spec fn field_node(field: FieldModel) -> JsonModel {
    JsonModel::Object(
        mapped(seq![("name"@, JsonModel::Text(field.name)), ("type"@, signed_node(field.type_))]),
    )
}

/// The nodes of fields.
pub open spec fn field_nodes(fields: Seq<FieldModel>) -> JsonModel {
    JsonModel::Array(fields.map_values(|field: FieldModel| field_node(field)))
}

/// The node of a struct.
pub open spec fn struct_node(struct_: StructModel) -> JsonModel {
    JsonModel::Object(
        mapped(
            seq![
                ("name"@, JsonModel::Text(struct_.name)),
                ("abilities"@, key_list(struct_.has_key_ability)),
                ("typeParameters"@, type_parameter_nodes(struct_.type_parameters)),
                ("fields"@, field_nodes(struct_.fields)),
            ],
        ),
    )
}

/// The node of a variant.
pub open spec fn variant_node(variant: VariantModel) -> JsonModel {
    JsonModel::Object(
        mapped(
            seq![
                ("name"@, JsonModel::Text(variant.name)),
                ("fields"@, field_nodes(variant.fields)),
            ],
        ),
    )
}

/// The node of an enum.
pub open spec fn enum_node(enum_: EnumModel) -> JsonModel {
    JsonModel::Object(
        mapped(
            seq![
                ("name"@, JsonModel::Text(enum_.name)),
                ("typeParameters"@, type_parameter_nodes(enum_.type_parameters)),
                (
                    "variants"@,
                    JsonModel::Array(
                        enum_.variants.map_values(|variant: VariantModel| variant_node(variant)),
                    ),
                ),
            ],
        ),
    )
}

/// The node of a function.
pub open spec fn function_node(function: FunctionModel) -> JsonModel {
    JsonModel::Object(
        mapped(
            seq![
                ("name"@, JsonModel::Text(function.name)),
                ("typeParameters"@, type_parameter_nodes(function.type_parameters)),
                ("parameters"@, signed_nodes(function.parameters)),
                ("return"@, signed_nodes(function.returns)),
            ],
        ),
    )
}

/// A list of abilities says whether `key` is among them.
proof fn lemma_key_list(has_key: bool)
    ensures
        lists_key(key_list(has_key)) == has_key,
{
    let items = key_list(has_key).items_or_none();
    if has_key {
        assert(items[0] == JsonModel::Text("KEY"@));
    }
}

/// Type parameters are read back from their nodes.
proof fn lemma_type_parameters_round_trip(type_parameters: Seq<TypeParameter>)
    ensures
        read_type_parameters(type_parameter_nodes(type_parameters)) == type_parameters,
{
    lemma_keys();
    let read = read_type_parameters(type_parameter_nodes(type_parameters));
    assert forall|i: int| 0 <= i < type_parameters.len() implies read[i] == type_parameters[i] by {
        let type_parameter = type_parameters[i];
        let members = seq![
            ("isPhantom"@, JsonModel::Bool(type_parameter.is_phantom)),
            ("constraints"@, key_list(type_parameter.has_key)),
        ];
        lemma_member(members, 0);
        lemma_member(members, 1);
        lemma_key_list(type_parameter.has_key);
        assert(read[i] == read_type_parameter(type_parameter_node(type_parameter)));
    }
    assert(read =~= type_parameters);
}

/// A type is read back from a node with its signature.
proof fn lemma_signed_round_trip(type_: TypeModel)
    requires
        is_signature(type_),
    ensures
        read_signature(signed_node(type_).at("signature"@)) == Ok::<TypeModel, ErrorModel>(type_),
{
    lemma_member(seq![("signature"@, signature_of(type_))], 0);
    law_signature_round_trip(type_);
}

/// Types are read back from the nodes with their signatures.
proof fn lemma_signatures_round_trip(types: Seq<TypeModel>)
    requires
        are_signatures(types),
    ensures
        read_signatures(signed_nodes(types)) == Ok::<Seq<TypeModel>, ErrorModel>(types),
{
    let results = signed_nodes(types).items_or_none().map_values(
        |node: JsonModel| read_signature(node.at("signature"@)),
    );
    assert forall|i: int| 0 <= i < types.len() implies #[trigger] results[i] == Ok::<
        TypeModel,
        ErrorModel,
    >(types[i]) by {
        lemma_signed_round_trip(types[i]);
    }
    lemma_collected_values(results, types);
}

/// Fields are read back from their nodes.
proof fn lemma_fields_round_trip(fields: Seq<FieldModel>)
    requires
        are_fields(fields),
    ensures
        read_fields(field_nodes(fields)) == Ok::<Seq<FieldModel>, ErrorModel>(fields),
{
    lemma_keys();
    let results = field_nodes(fields).items_or_none().map_values(
        |field: JsonModel| read_field(field),
    );
    assert forall|i: int| 0 <= i < fields.len() implies #[trigger] results[i] == Ok::<
        FieldModel,
        ErrorModel,
    >(fields[i]) by {
        let field = fields[i];
        let members = seq![
            ("name"@, JsonModel::Text(field.name)),
            ("type"@, signed_node(field.type_)),
        ];
        lemma_member(members, 0);
        lemma_member(members, 1);
        lemma_signed_round_trip(field.type_);
        assert(results[i] == read_field(field_node(field)));
    }
    lemma_collected_values(results, fields);
}

/// A struct is read back from its node.
pub proof fn law_struct_round_trip(struct_: StructModel)
    requires
        are_fields(struct_.fields),
    ensures
        read_struct(struct_node(struct_)) == Ok::<StructModel, ErrorModel>(struct_),
{
    lemma_keys();
    let members = seq![
        ("name"@, JsonModel::Text(struct_.name)),
        ("abilities"@, key_list(struct_.has_key_ability)),
        ("typeParameters"@, type_parameter_nodes(struct_.type_parameters)),
        ("fields"@, field_nodes(struct_.fields)),
    ];
    lemma_member(members, 0);
    lemma_member(members, 1);
    lemma_member(members, 2);
    lemma_member(members, 3);
    lemma_key_list(struct_.has_key_ability);
    lemma_type_parameters_round_trip(struct_.type_parameters);
    lemma_fields_round_trip(struct_.fields);
}

/// An enum is read back from its node.
pub proof fn law_enum_round_trip(enum_: EnumModel)
    requires
        are_variants(enum_.variants),
    ensures
        read_enum(enum_node(enum_)) == Ok::<EnumModel, ErrorModel>(enum_),
{
    lemma_keys();
    let nodes = enum_.variants.map_values(|variant: VariantModel| variant_node(variant));
    let members = seq![
        ("name"@, JsonModel::Text(enum_.name)),
        ("typeParameters"@, type_parameter_nodes(enum_.type_parameters)),
        ("variants"@, JsonModel::Array(nodes)),
    ];
    lemma_member(members, 0);
    lemma_member(members, 1);
    lemma_member(members, 2);
    lemma_type_parameters_round_trip(enum_.type_parameters);
    let results = nodes.map_values(|variant: JsonModel| read_variant(variant));
    assert forall|i: int| 0 <= i < enum_.variants.len() implies #[trigger] results[i] == Ok::<
        VariantModel,
        ErrorModel,
    >(enum_.variants[i]) by {
        let variant = enum_.variants[i];
        let parts = seq![
            ("name"@, JsonModel::Text(variant.name)),
            ("fields"@, field_nodes(variant.fields)),
        ];
        lemma_member(parts, 0);
        lemma_member(parts, 1);
        lemma_fields_round_trip(variant.fields);
        assert(results[i] == read_variant(variant_node(variant)));
    }
    lemma_collected_values(results, enum_.variants);
}

/// A function is read back from its node.
pub proof fn law_function_round_trip(function: FunctionModel)
    requires
        are_signatures(function.parameters),
        are_signatures(function.returns),
    ensures
        read_function(function_node(function)) == Ok::<FunctionModel, ErrorModel>(function),
{
    lemma_keys();
    let members = seq![
        ("name"@, JsonModel::Text(function.name)),
        ("typeParameters"@, type_parameter_nodes(function.type_parameters)),
        ("parameters"@, signed_nodes(function.parameters)),
        ("return"@, signed_nodes(function.returns)),
    ];
    lemma_member(members, 0);
    lemma_member(members, 1);
    lemma_member(members, 2);
    lemma_member(members, 3);
    lemma_type_parameters_round_trip(function.type_parameters);
    lemma_signatures_round_trip(function.parameters);
    lemma_signatures_round_trip(function.returns);
}

/// Whatever is read as fields has types that can stand in signatures.
proof fn lemma_fields_sound(nodes: JsonModel)
    ensures
        read_fields(nodes) matches Ok(fields) ==> are_fields(fields),
{
    if let Some(items) = nodes.items() {
        let results = items.map_values(|field: JsonModel| read_field(field));
        law_collected(results);
        if let Ok(fields) = collected(results) {
            assert forall|i: int| 0 <= i < fields.len() implies is_signature(
                (#[trigger] fields[i]).type_,
            ) by {
                assert(results[i] == Ok::<FieldModel, ErrorModel>(fields[i]));
                law_signature_sound(items[i].at("type"@).at("signature"@));
            }
        }
    }
}

/// Whatever is read as types can stand in signatures.
proof fn lemma_signatures_sound(nodes: JsonModel)
    ensures
        read_signatures(nodes) matches Ok(types) ==> are_signatures(types),
{
    let items = nodes.items_or_none();
    let results = items.map_values(|node: JsonModel| read_signature(node.at("signature"@)));
    law_collected(results);
    if let Ok(types) = collected(results) {
        assert forall|i: int| 0 <= i < types.len() implies is_signature(#[trigger] types[i]) by {
            assert(results[i] == Ok::<TypeModel, ErrorModel>(types[i]));
            law_signature_sound(items[i].at("signature"@));
        }
    }
}

/// Whatever is read as a struct, an enum or a function is one that its own node would
/// describe: its types can all stand in signatures.
pub proof fn law_members_sound(node: JsonModel)
    ensures
        read_struct(node) matches Ok(struct_) ==> are_fields(struct_.fields),
        read_enum(node) matches Ok(enum_) ==> are_variants(enum_.variants),
        read_function(node) matches Ok(function) ==> are_signatures(function.parameters)
            && are_signatures(function.returns),
{
    lemma_fields_sound(node.at("fields"@));
    lemma_signatures_sound(node.at("parameters"@));
    lemma_signatures_sound(node.at("return"@));
    let items = node.at("variants"@).items_or_none();
    let results = items.map_values(|variant: JsonModel| read_variant(variant));
    law_collected(results);
    if let Ok(variants) = collected(results) {
        assert forall|i: int| 0 <= i < variants.len() implies are_fields(
            (#[trigger] variants[i]).fields,
        ) by {
            assert(results[i] == Ok::<VariantModel, ErrorModel>(variants[i]));
            lemma_fields_sound(items[i].at("fields"@));
        }
    }
}

} // verus!
