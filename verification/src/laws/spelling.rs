//! The Rust spelling of types.

use vstd::prelude::*;

use crate::address::short_address;
use crate::normalized::{DatatypeModel, Type, TypeModel};
use crate::text::{decimal, joined};
use crate::types::{
    arg_type, has_rust_type, known_type, path_models, rust_datatype, rust_type, rust_types,
    BindingRegistry, KnownType, ToRustType,
};

verus! {

/// Types without parts have one spelling each, whatever the registry.
pub proof fn law_simple_types(index: u16, registry: Map<Seq<u8>, Seq<char>>)
    ensures
        rust_type(TypeModel::Bool, registry) == "bool"@,
        rust_type(TypeModel::U8, registry) == "u8"@,
        rust_type(TypeModel::U16, registry) == "u16"@,
        rust_type(TypeModel::U32, registry) == "u32"@,
        rust_type(TypeModel::U64, registry) == "u64"@,
        rust_type(TypeModel::U128, registry) == "u128"@,
        rust_type(TypeModel::U256, registry) == "move_types::U256"@,
        rust_type(TypeModel::Address, registry) == "Address"@,
        rust_type(TypeModel::Signer, registry) == "Address"@,
        rust_type(TypeModel::TypeParameter(index), registry) == "T"@ + decimal(index as nat),
{
}

/// A vector is spelled round its elements, and a reference before its referent, both
/// spelled in the same registry.
pub proof fn law_compound_types(
    part: TypeModel,
    mutable: bool,
    registry: Map<Seq<u8>, Seq<char>>,
)
    ensures
        rust_type(TypeModel::Vector(Box::new(part)), registry) == "Vec<"@ + rust_type(
            part,
            registry,
        ) + ">"@,
        rust_type(TypeModel::Reference(mutable, Box::new(part)), registry) == "&'static "@
            + rust_type(part, registry),
{
    reveal_with_fuel(rust_type, 2);
}

/// Whether a datatype is called what one of the known types is called, at its address.
proof fn lemma_known_names(datatype: DatatypeModel)
    ensures
        known_type(datatype.address, datatype.module, datatype.name) is None <==> {
            &&& !(datatype.address == short_address(1) && datatype.module == "type_name"@
                && datatype.name == "TypeName"@)
            &&& !(datatype.address == short_address(1) && datatype.module == "string"@
                && datatype.name == "String"@)
            &&& !(datatype.address == short_address(1) && datatype.module == "ascii"@
                && datatype.name == "String"@)
            &&& !(datatype.address == short_address(1) && datatype.module == "option"@
                && datatype.name == "Option"@)
            &&& !(datatype.address == short_address(2) && datatype.module == "object"@
                && datatype.name == "UID"@)
            &&& !(datatype.address == short_address(2) && datatype.module == "object"@
                && datatype.name == "ID"@)
        },
{
}

/// Texts of the standard library are spelled `String`, identifiers of objects `ObjectId`,
/// and an optional value round the spelling of its first type argument in the same
/// registry.
pub proof fn law_known_types(datatype: DatatypeModel, registry: Map<Seq<u8>, Seq<char>>)
    ensures
        datatype.address == short_address(1) && datatype.module == "type_name"@ && datatype.name
            == "TypeName"@ ==> rust_type(TypeModel::Datatype(Box::new(datatype)), registry)
            == "String"@,
        datatype.address == short_address(1) && datatype.module == "string"@ && datatype.name
            == "String"@ ==> rust_type(TypeModel::Datatype(Box::new(datatype)), registry)
            == "String"@,
        datatype.address == short_address(1) && datatype.module == "ascii"@ && datatype.name
            == "String"@ ==> rust_type(TypeModel::Datatype(Box::new(datatype)), registry)
            == "String"@,
        datatype.address == short_address(2) && datatype.module == "object"@ && (datatype.name
            == "UID"@ || datatype.name == "ID"@) ==> rust_type(
            TypeModel::Datatype(Box::new(datatype)),
            registry,
        ) == "ObjectId"@,
        datatype.address == short_address(1) && datatype.module == "option"@ && datatype.name
            == "Option"@ && datatype.type_arguments.len() > 0 ==> rust_type(
            TypeModel::Datatype(Box::new(datatype)),
            registry,
        ) == "Option<"@ + rust_type(datatype.type_arguments[0], registry) + ">"@,
{
    reveal_with_fuel(rust_type, 3);
    reveal_with_fuel(rust_datatype, 3);
    reveal_strlit("type_name");
    reveal_strlit("string");
    reveal_strlit("ascii");
    reveal_strlit("option");
    reveal_strlit("object");
    assert("type_name"@.len() == 9 && "string"@.len() == 6 && "ascii"@.len() == 5);
    assert("option"@.len() == 6 && "object"@.len() == 6);
    assert("string"@[0] == 's' && "option"@[0] == 'o' && "object"@[0] == 'o');
    assert("option"@[1] == 'p' && "object"@[1] == 'b');
    assert(short_address(1)[31] == 1 && short_address(2)[31] == 2);
}

/// Any other datatype is spelled by its module and its name, below the path of its package
/// where the registry has one. Behind that stand, in angle brackets and with `, ` between
/// them, the spellings of its type arguments in the same registry, all of them and in
/// their order, where it has any.
pub proof fn law_other_types(
    datatype: DatatypeModel,
    registry: Map<Seq<u8>, Seq<char>>,
    parts: Seq<Seq<char>>,
)
    requires
        !(datatype.address == short_address(1) && datatype.module == "type_name"@ && datatype.name
            == "TypeName"@),
        !(datatype.address == short_address(1) && datatype.module == "string"@ && datatype.name
            == "String"@),
        !(datatype.address == short_address(1) && datatype.module == "ascii"@ && datatype.name
            == "String"@),
        !(datatype.address == short_address(1) && datatype.module == "option"@ && datatype.name
            == "Option"@),
        !(datatype.address == short_address(2) && datatype.module == "object"@ && datatype.name
            == "UID"@),
        !(datatype.address == short_address(2) && datatype.module == "object"@ && datatype.name
            == "ID"@),
        parts.len() == datatype.type_arguments.len(),
        forall|i: int|
            0 <= i < parts.len() ==> #[trigger] parts[i] == rust_type(
                datatype.type_arguments[i],
                registry,
            ),
    ensures
        ({
            let spelling = rust_type(TypeModel::Datatype(Box::new(datatype)), registry);
            let path = if registry.contains_key(datatype.address) {
                registry[datatype.address] + "::"@ + datatype.module + "::"@ + datatype.name
            } else {
                datatype.module + "::"@ + datatype.name
            };
            &&& parts.len() == 0 ==> spelling == path
            &&& parts.len() > 0 ==> spelling == path + "<"@ + joined(parts, ", "@) + ">"@
        }),
{
    reveal_with_fuel(rust_type, 3);
    reveal_with_fuel(rust_datatype, 3);
    reveal_with_fuel(rust_types, 3);
    lemma_known_names(datatype);
    assert(rust_type(TypeModel::Datatype(Box::new(datatype)), registry) == rust_datatype(
        datatype,
        registry,
    ));
    let spelled = rust_types(datatype.type_arguments, registry);
    assert forall|i: int| 0 <= i < parts.len() implies spelled[i] == parts[i] by {
        assert(parts[i] == rust_type(datatype.type_arguments[i], registry));
    }
    assert(spelled =~= parts);
    if registry.contains_key(datatype.address) {
        let package = registry[datatype.address];
        assert(package + "::"@ + (datatype.module + "::"@ + datatype.name) =~= package + "::"@
            + datatype.module + "::"@ + datatype.name);
    }
}

/// The spelling of an argument is that of its type in the same registry inside `Arg<..>`, or,
/// for a reference, that of the referent in the same registry inside `MutRef<'a, ..>` where
/// it is mutable and inside `Ref<'a, ..>` where it is not.
pub proof fn law_arguments(type_: TypeModel, registry: Map<Seq<u8>, Seq<char>>)
    ensures
        !(type_ is Reference) ==> arg_type(type_, registry) == "Arg<"@ + rust_type(type_, registry)
            + ">"@,
        type_ matches TypeModel::Reference(mutable, referent) ==> {
            &&& mutable ==> arg_type(type_, registry) == "MutRef<'a, "@ + rust_type(
                *referent,
                registry,
            ) + ">"@
            &&& !mutable ==> arg_type(type_, registry) == "Ref<'a, "@ + rust_type(
                *referent,
                registry,
            ) + ">"@
        },
{
}

/// Registries that give the same path to every package that a type mentions give it the
/// same spelling.
pub proof fn law_only_mentioned_packages_matter(
    type_: TypeModel,
    first: Map<Seq<u8>, Seq<char>>,
    second: Map<Seq<u8>, Seq<char>>,
)
    requires
        agree_on(type_, first, second),
        has_rust_type(type_),
    ensures
        rust_type(type_, first) == rust_type(type_, second),
        arg_type(type_, first) == arg_type(type_, second),
    decreases type_,
{
    reveal_with_fuel(rust_type, 2);
    reveal_with_fuel(rust_datatype, 2);
    match type_ {
        TypeModel::Vector(part) => {
            law_only_mentioned_packages_matter(*part, first, second);
        },
        TypeModel::Reference(_, part) => {
            law_only_mentioned_packages_matter(*part, first, second);
        },
        TypeModel::Datatype(datatype) => {
            let arguments = datatype.type_arguments;
            match known_type(datatype.address, datatype.module, datatype.name) {
                Some(KnownType::Optional) => {
                    assert(agree_on(arguments[0], first, second));
                    law_only_mentioned_packages_matter(arguments[0], first, second);
                },
                Some(_) => {},
                None => {
                    assert forall|i: int| 0 <= i < arguments.len() implies rust_types(
                        arguments,
                        first,
                    )[i] == rust_types(arguments, second)[i] by {
                        assert(has_rust_type(arguments[i]));
                        assert(agree_on(arguments[i], first, second));
                        law_only_mentioned_packages_matter(arguments[i], first, second);
                    }
                    assert(rust_types(arguments, first) =~= rust_types(arguments, second));
                },
            }
        },
        _ => {},
    }
}

/// Whether two registries give the same path to every package that a type mentions.
pub open spec fn agree_on(
    type_: TypeModel,
    first: Map<Seq<u8>, Seq<char>>,
    second: Map<Seq<u8>, Seq<char>>,
) -> bool
    decreases type_,
{
    match type_ {
        TypeModel::Vector(part) => agree_on(*part, first, second),
        TypeModel::Reference(_, part) => agree_on(*part, first, second),
        TypeModel::Datatype(datatype) => {
            &&& first.contains_key(datatype.address) == second.contains_key(datatype.address)
            &&& first.contains_key(datatype.address) ==> first[datatype.address]
                == second[datatype.address]
            &&& forall|i: int|
                0 <= i < datatype.type_arguments.len() ==> agree_on(
                    #[trigger] datatype.type_arguments[i],
                    first,
                    second,
                )
        },
        _ => true,
    }
}

/// A type has a spelling unless it is, or is made of, an optional value without a type
/// argument.
pub proof fn law_what_has_a_spelling(
    part: TypeModel,
    mutable: bool,
    index: u16,
    datatype: DatatypeModel,
)
    ensures
        has_rust_type(TypeModel::Bool),
        has_rust_type(TypeModel::U8),
        has_rust_type(TypeModel::U16),
        has_rust_type(TypeModel::U32),
        has_rust_type(TypeModel::U64),
        has_rust_type(TypeModel::U128),
        has_rust_type(TypeModel::U256),
        has_rust_type(TypeModel::Address),
        has_rust_type(TypeModel::Signer),
        has_rust_type(TypeModel::TypeParameter(index)),
        has_rust_type(TypeModel::Vector(Box::new(part))) <==> has_rust_type(part),
        has_rust_type(TypeModel::Reference(mutable, Box::new(part))) <==> has_rust_type(part),
        datatype.address == short_address(1) && datatype.module == "option"@ && datatype.name
            == "Option"@ ==> (has_rust_type(TypeModel::Datatype(Box::new(datatype))) <==> {
            &&& datatype.type_arguments.len() > 0
            &&& has_rust_type(datatype.type_arguments[0])
        }),
        !(datatype.address == short_address(1) && datatype.module == "option"@ && datatype.name
            == "Option"@) && (forall|i: int|
            0 <= i < datatype.type_arguments.len() ==> has_rust_type(
                #[trigger] datatype.type_arguments[i],
            )) ==> has_rust_type(TypeModel::Datatype(Box::new(datatype))),
        datatype.address == short_address(1) && (datatype.module == "string"@ || datatype.module
            == "ascii"@) && datatype.name == "String"@ ==> has_rust_type(
            TypeModel::Datatype(Box::new(datatype)),
        ),
        datatype.address == short_address(1) && datatype.module == "type_name"@ && datatype.name
            == "TypeName"@ ==> has_rust_type(TypeModel::Datatype(Box::new(datatype))),
        datatype.address == short_address(2) && datatype.module == "object"@ && (datatype.name
            == "UID"@ || datatype.name == "ID"@) ==> has_rust_type(
            TypeModel::Datatype(Box::new(datatype)),
        ),
{
    reveal_with_fuel(has_rust_type, 3);
    reveal_strlit("type_name");
    reveal_strlit("string");
    reveal_strlit("ascii");
    reveal_strlit("option");
    reveal_strlit("object");
    assert("type_name"@.len() == 9 && "string"@.len() == 6 && "ascii"@.len() == 5);
    assert("option"@.len() == 6 && "object"@.len() == 6);
    assert("string"@[0] == 's' && "option"@[0] == 'o' && "object"@[0] == 'o');
    assert("option"@[1] == 'p' && "object"@[1] == 'b');
    assert(short_address(1)[31] == 1 && short_address(2)[31] == 2);
}

/// What a type is asked for its spelling with is its model.
pub proof fn law_types_are_spelled(type_: Type, registry: Map<Seq<u8>, Seq<char>>)
    ensures
        type_.spelling(registry) == rust_type(type_@, registry),
        type_.arg_spelling(registry) == arg_type(type_@, registry),
        type_.spellable() == has_rust_type(type_@),
        type_.refers() <==> type_ is Reference,
{
}

/// A registry has a path for exactly the addresses that are listed, and it is the one that
/// is listed last.
pub proof fn law_last_path_counts(registry: BindingRegistry, address: Seq<u8>)
    ensures
        registry@.contains_key(address) <==> exists|i: int|
            0 <= i < registry.paths@.len() && (#[trigger] registry.paths@[i]).0@ == address,
        forall|i: int|
            0 <= i < registry.paths@.len() && (#[trigger] registry.paths@[i]).0@ == address && (
            forall|j: int|
                i < j < registry.paths@.len() ==> (#[trigger] registry.paths@[j]).0@ != address)
                ==> registry@[address] == registry.paths@[i].1@,
{
    let paths = registry.paths@;
    let listed = path_models(paths);
    crate::model::lemma_mapped(listed, address);
    assert(forall|i: int| 0 <= i < paths.len() ==> listed[i] == (paths[i].0@, paths[i].1@));
    if registry@.contains_key(address) {
        let i = choose|i: int| 0 <= i < listed.len() && #[trigger] listed[i].0 == address;
        assert(paths[i].0@ == address);
    }
    if exists|i: int| 0 <= i < paths.len() && (#[trigger] paths[i]).0@ == address {
        let i = choose|i: int| 0 <= i < paths.len() && (#[trigger] paths[i]).0@ == address;
        assert(listed[i].0 == address);
    }
    assert forall|i: int|
        0 <= i < paths.len() && (#[trigger] paths[i]).0@ == address && (forall|j: int|
            i < j < paths.len() ==> (#[trigger] paths[j]).0@ != address) implies registry@[address]
        == paths[i].1@ by {
        assert(listed[i].0 == address);
        assert forall|j: int| i < j < listed.len() implies #[trigger] listed[j].0 != address by {
            assert(paths[j].0@ != address);
        }
    }
}

} // verus!
