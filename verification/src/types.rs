//! The Rust spelling of Move types.

use vstd::prelude::*;

use crate::address::{short_address, Address};
use crate::model::{lemma_mapped, lemma_models_push, mapped, models};
use crate::normalized::{lemma_datatype_view, Datatype, DatatypeModel, Type, TypeModel};
use crate::text::{decimal, decimal_text, join, joined, law_decimal_injective, same_text};

verus! {

/// The address of the Move standard library.
pub fn move_stdlib() -> (address: Address)
    ensures
        address@ == short_address(1),
{
    Address::from_u8(1)
}

/// Where the bindings of packages stand: for an address, the Rust path of the module
/// that holds the bindings of the package there. The last path of an address counts.
pub struct BindingRegistry {
    pub paths: Vec<(Address, String)>,
}

/// What the entries of a registry stand for.
pub open spec fn path_models(paths: Seq<(Address, String)>) -> Seq<(Seq<u8>, Seq<char>)> {
    paths.map_values(|path: (Address, String)| (path.0@, path.1@))
}

impl View for BindingRegistry {
    type V = Map<Seq<u8>, Seq<char>>;

    open spec fn view(&self) -> Map<Seq<u8>, Seq<char>> {
        mapped(path_models(self.paths@))
    }
}

impl BindingRegistry {
    /// A registry without entries.
    pub fn new() -> (registry: Self)
        ensures
            registry@ == Map::<Seq<u8>, Seq<char>>::empty(),
    {
        let registry: BindingRegistry = BindingRegistry { paths: Vec::new() };
        assert(path_models(registry.paths@) =~= seq![]);
        registry
    }

    /// Makes `path` the path of `address`.
    pub fn insert(&mut self, address: Address, path: String)
        ensures
            final(self)@ == old(self)@.insert(address@, path@),
    {
        let ghost before = self.paths@;
        self.paths.push((address, path));
        proof {
            assert(path_models(self.paths@).drop_last() =~= path_models(before));
        }
    }

    /// The path of `address`, where it has one.
    pub fn get(&self, address: &Address) -> (path: Option<&String>)
        ensures
            match path {
                Some(found) => self@.contains_key(address@) && found@ == self@[address@],
                None => !self@.contains_key(address@),
            },
    {
        let ghost listed = path_models(self.paths@);
        let mut left: usize = self.paths.len();
        proof {
            lemma_mapped(listed, address@);
        }
        while left > 0
            invariant
                left <= self.paths@.len(),
                listed == path_models(self.paths@),
                mapped(listed).contains_key(address@) <==> exists|i: int|
                    0 <= i < listed.len() && #[trigger] listed[i].0 == address@,
                forall|i: int|
                    #![trigger listed[i]]
                    0 <= i < listed.len() && listed[i].0 == address@ && (forall|j: int|
                        i < j < listed.len() ==> #[trigger] listed[j].0 != address@) ==> mapped(
                        listed,
                    )[address@] == listed[i].1,
                forall|j: int| left <= j < listed.len() ==> #[trigger] listed[j].0 != address@,
            decreases left,
        {
            left -= 1;
            let path: &(Address, String) = &self.paths[left];
            assert(listed[left as int] == (path.0@, path.1@));
            if path.0.same(address) {
                return Some(&path.1);
            }
        }
        None
    }
}

/// A datatype that Rust has a type of its own for.
pub enum KnownType {
    /// A text.
    Text,
    /// An optional value.
    Optional,
    /// The identifier of an object.
    ObjectId,
}

/// Which known type a datatype of this name is.
pub open spec fn known_type(
    address: Seq<u8>,
    module: Seq<char>,
    name: Seq<char>,
) -> Option<KnownType> {
    if address == short_address(1) && module == "type_name"@ && name == "TypeName"@ {
        Some(KnownType::Text)
    } else if address == short_address(1) && module == "string"@ && name == "String"@ {
        Some(KnownType::Text)
    } else if address == short_address(1) && module == "ascii"@ && name == "String"@ {
        Some(KnownType::Text)
    } else if address == short_address(1) && module == "option"@ && name == "Option"@ {
        Some(KnownType::Optional)
    } else if address == short_address(2) && module == "object"@ && name == "UID"@ {
        Some(KnownType::ObjectId)
    } else if address == short_address(2) && module == "object"@ && name == "ID"@ {
        Some(KnownType::ObjectId)
    } else {
        None
    }
}

/// The path of a datatype: that of its module, below the path of its package where
/// the registry has one.
pub open spec fn datatype_path(
    datatype: DatatypeModel,
    registry: Map<Seq<u8>, Seq<char>>,
) -> Seq<char> {
    let local = datatype.module + "::"@ + datatype.name;
    if registry.contains_key(datatype.address) {
        registry[datatype.address] + "::"@ + local
    } else {
        local
    }
}

/// The Rust spelling of a type.
pub open spec fn rust_type(type_: TypeModel, registry: Map<Seq<u8>, Seq<char>>) -> Seq<char>
    decreases type_,
{
    match type_ {
        TypeModel::Bool => "bool"@,
        TypeModel::U8 => "u8"@,
        TypeModel::U16 => "u16"@,
        TypeModel::U32 => "u32"@,
        TypeModel::U64 => "u64"@,
        TypeModel::U128 => "u128"@,
        TypeModel::U256 => "move_types::U256"@,
        TypeModel::Address => "Address"@,
        TypeModel::Signer => "Address"@,
        TypeModel::Datatype(datatype) => rust_datatype(*datatype, registry),
        TypeModel::Vector(element) => "Vec<"@ + rust_type(*element, registry) + ">"@,
        TypeModel::Reference(_, referent) => "&'static "@ + rust_type(*referent, registry),
        TypeModel::TypeParameter(index) => "T"@ + decimal(index as nat),
    }
}

/// The Rust spelling of a datatype. An optional value takes its spelling from its
/// first type argument; without one it has none.
pub open spec fn rust_datatype(
    datatype: DatatypeModel,
    registry: Map<Seq<u8>, Seq<char>>,
) -> Seq<char>
    decreases datatype,
{
    let arguments = datatype.type_arguments;
    match known_type(datatype.address, datatype.module, datatype.name) {
        Some(KnownType::Text) => "String"@,
        Some(KnownType::ObjectId) => "ObjectId"@,
        Some(KnownType::Optional) => if arguments.len() > 0 {
            "Option<"@ + rust_type(arguments[0], registry) + ">"@
        } else {
            arbitrary()
        },
        None => if arguments.len() == 0 {
            datatype_path(datatype, registry)
        } else {
            datatype_path(datatype, registry) + "<"@ + joined(
                rust_types(arguments, registry),
                ", "@,
            ) + ">"@
        },
    }
}

/// The Rust spellings of types.
pub open spec fn rust_types(
    types: Seq<TypeModel>,
    registry: Map<Seq<u8>, Seq<char>>,
) -> Seq<Seq<char>>
    decreases types,
{
    Seq::new(
        types.len(),
        |i: int|
            if 0 <= i < types.len() {
                rust_type(types[i], registry)
            } else {
                seq![]
            },
    )
}

/// The Rust spelling of the type of an argument.
pub open spec fn arg_type(type_: TypeModel, registry: Map<Seq<u8>, Seq<char>>) -> Seq<char> {
    match type_ {
        TypeModel::Reference(true, referent) => "MutRef<'a, "@ + rust_type(*referent, registry)
            + ">"@,
        TypeModel::Reference(false, referent) => "Ref<'a, "@ + rust_type(*referent, registry)
            + ">"@,
        _ => "Arg<"@ + rust_type(type_, registry) + ">"@,
    }
}

/// Whether a type has a Rust spelling: every optional value whose spelling is asked for
/// has a type argument.
pub open spec fn has_rust_type(type_: TypeModel) -> bool
    decreases type_,
{
    match type_ {
        TypeModel::Vector(element) => has_rust_type(*element),
        TypeModel::Reference(_, referent) => has_rust_type(*referent),
        TypeModel::Datatype(datatype) => {
            let arguments = datatype.type_arguments;
            match known_type(datatype.address, datatype.module, datatype.name) {
                Some(KnownType::Text) => true,
                Some(KnownType::ObjectId) => true,
                Some(KnownType::Optional) => arguments.len() > 0 && has_rust_type(arguments[0]),
                None => forall|i: int|
                    0 <= i < arguments.len() ==> has_rust_type(#[trigger] arguments[i]),
            }
        },
        _ => true,
    }
}

/// What is spelled as a Rust type.
pub trait ToRustType {
    /// Whether this has a Rust spelling.
    spec fn spellable(&self) -> bool;

    /// The Rust spelling.
    spec fn spelling(&self, registry: Map<Seq<u8>, Seq<char>>) -> Seq<char>;

    /// Whether this is a reference.
    spec fn refers(&self) -> bool;

    /// The Rust spelling as the type of an argument.
    spec fn arg_spelling(&self, registry: Map<Seq<u8>, Seq<char>>) -> Seq<char>;

    /// The Rust spelling, with the paths that `registry` gives.
    fn to_rust_type(&self, registry: &BindingRegistry) -> (text: String)
        requires
            self.spellable(),
        ensures
            text@ == self.spelling(registry@),
    ;

    /// Whether this is a reference.
    fn is_ref(&self) -> (reference: bool)
        ensures
            reference == self.refers(),
    ;

    /// The Rust spelling as the type of an argument.
    fn to_arg_type(&self, registry: &BindingRegistry) -> (text: String)
        requires
            self.spellable(),
        ensures
            text@ == self.arg_spelling(registry@),
    ;
}

/// `inner` between `before` and `after`.
fn enclosed(before: &str, inner: String, after: &str) -> (text: String)
    ensures
        text@ == before@ + inner@ + after@,
{
    let mut text: String = String::from_str(before);
    text.append(inner.as_str());
    text.append(after);
    text
}

impl ToRustType for Type {
    open spec fn spellable(&self) -> bool {
        has_rust_type(self@)
    }

    open spec fn spelling(&self, registry: Map<Seq<u8>, Seq<char>>) -> Seq<char> {
        rust_type(self@, registry)
    }

    open spec fn refers(&self) -> bool {
        self@ is Reference
    }

    open spec fn arg_spelling(&self, registry: Map<Seq<u8>, Seq<char>>) -> Seq<char> {
        arg_type(self@, registry)
    }

    fn to_rust_type(&self, registry: &BindingRegistry) -> (text: String)
        decreases self, 1int,
    {
        match self {
            Type::Bool => String::from_str("bool"),
            Type::U8 => String::from_str("u8"),
            Type::U16 => String::from_str("u16"),
            Type::U32 => String::from_str("u32"),
            Type::U64 => String::from_str("u64"),
            Type::U128 => String::from_str("u128"),
            Type::U256 => String::from_str("move_types::U256"),
            Type::Address => String::from_str("Address"),
            Type::Signer => String::from_str("Address"),
            Type::Datatype(_) => try_resolve_known_types(self, registry),
            Type::Vector(element) => enclosed("Vec<", element.to_rust_type(registry), ">"),
            Type::Reference(_, referent) => {
                let mut text: String = String::from_str("&'static ");
                text.append(referent.to_rust_type(registry).as_str());
                text
            },
            Type::TypeParameter(index) => {
                let mut text: String = String::from_str("T");
                text.append(decimal_text(*index as u32).as_str());
                text
            },
        }
    }

    fn is_ref(&self) -> (reference: bool) {
        match self {
            Type::Reference(_, _) => true,
            _ => false,
        }
    }

    fn to_arg_type(&self, registry: &BindingRegistry) -> (text: String) {
        match self {
            Type::Reference(mutable, referent) => if *mutable {
                enclosed("MutRef<'a, ", referent.to_rust_type(registry), ">")
            } else {
                enclosed("Ref<'a, ", referent.to_rust_type(registry), ">")
            },
            _ => enclosed("Arg<", self.to_rust_type(registry), ">"),
        }
    }
}

impl Type {
    /// Whether the type has a Rust spelling, so that it can be asked for.
    pub fn has_spelling(&self) -> (spelled: bool)
        ensures
            spelled == has_rust_type(self@),
        decreases self,
    {
        match self {
            Type::Vector(element) => element.has_spelling(),
            Type::Reference(_, referent) => referent.has_spelling(),
            Type::Datatype(datatype) => {
                let type_arguments: &Vec<Type> = &datatype.type_arguments;
                proof {
                    lemma_datatype_view(**datatype);
                    assert(self@ == TypeModel::Datatype(Box::new(datatype@)));
                }
                match find_known_type(datatype) {
                    Some(KnownType::Text) => true,
                    Some(KnownType::ObjectId) => true,
                    Some(KnownType::Optional) => {
                        if type_arguments.len() == 0 {
                            return false;
                        }
                        assert(models(type_arguments@)[0] == type_arguments@[0]@);
                        type_arguments[0].has_spelling()
                    },
                    None => {
                        let mut i: usize = 0;
                        while i < type_arguments.len()
                            invariant
                                i <= type_arguments@.len(),
                                *self == Type::Datatype(*datatype),
                                *type_arguments == datatype.type_arguments,
                                datatype@.type_arguments == models(type_arguments@),
                                self@ == TypeModel::Datatype(Box::new(datatype@)),
                                known_type(
                                    datatype@.address,
                                    datatype@.module,
                                    datatype@.name,
                                ) is None,
                                forall|j: int|
                                    0 <= j < i ==> has_rust_type(
                                        #[trigger] datatype@.type_arguments[j],
                                    ),
                            decreases type_arguments@.len() - i,
                        {
                            assert(models(type_arguments@)[i as int] == type_arguments@[i as int]@);
                            if !type_arguments[i].has_spelling() {
                                assert(!has_rust_type(datatype@.type_arguments[i as int]));
                                return false;
                            }
                            i += 1;
                        }
                        true
                    },
                }
            },
            _ => true,
        }
    }
}

/// Which known type `datatype` is.
fn find_known_type(datatype: &Datatype) -> (known: Option<KnownType>)
    ensures
        known == known_type(datatype@.address, datatype@.module, datatype@.name),
{
    let module: &str = datatype.module.as_str();
    let name: &str = datatype.name.as_str();
    if datatype.address.same(&move_stdlib()) {
        if same_text(module, "type_name") && same_text(name, "TypeName") {
            return Some(KnownType::Text);
        }
        if same_text(module, "string") && same_text(name, "String") {
            return Some(KnownType::Text);
        }
        if same_text(module, "ascii") && same_text(name, "String") {
            return Some(KnownType::Text);
        }
        if same_text(module, "option") && same_text(name, "Option") {
            return Some(KnownType::Optional);
        }
    }
    if datatype.address.same(&Address::from_u8(2)) && same_text(module, "object") && (same_text(
        name,
        "UID",
    ) || same_text(name, "ID")) {
        return Some(KnownType::ObjectId);
    }
    None
}

/// The Rust spelling of a datatype.
fn try_resolve_known_types(type_: &Type, registry: &BindingRegistry) -> (text: String)
    requires
        type_ is Datatype,
        has_rust_type(type_@),
    ensures
        text@ == rust_type(type_@, registry@),
    decreases type_, 0int,
{
    let datatype: &Datatype = match type_ {
        Type::Datatype(datatype) => datatype,
        _ => {
            return String::new();
        },
    };
    let type_arguments: &Vec<Type> = &datatype.type_arguments;
    proof {
        lemma_datatype_view(*datatype);
        assert(type_@ == TypeModel::Datatype(Box::new(datatype@)));
        assert(rust_type(type_@, registry@) == rust_datatype(datatype@, registry@));
    }
    match find_known_type(datatype) {
        Some(KnownType::Text) => String::from_str("String"),
        Some(KnownType::ObjectId) => String::from_str("ObjectId"),
        Some(KnownType::Optional) => {
            assert(models(type_arguments@)[0] == type_arguments@[0]@);
            enclosed("Option<", type_arguments[0].to_rust_type(registry), ">")
        },
        None => {
            let mut text: String = match registry.get(&datatype.address) {
                Some(package_path) => {
                    let mut path: String = package_path.clone();
                    path.append("::");
                    path
                },
                None => String::new(),
            };
            text.append(datatype.module.as_str());
            text.append("::");
            text.append(datatype.name.as_str());
            assert(text@ =~= datatype_path(datatype@, registry@));
            if type_arguments.len() == 0 {
                return text;
            }
            let mut parts: Vec<String> = Vec::new();
            let mut i: usize = 0;
            while i < type_arguments.len()
                invariant
                    i <= type_arguments@.len(),
                    *type_ == Type::Datatype(Box::new(*datatype)),
                    *type_arguments == datatype.type_arguments,
                    datatype@.type_arguments == models(type_arguments@),
                    type_@ == TypeModel::Datatype(Box::new(datatype@)),
                    has_rust_type(type_@),
                    known_type(datatype@.address, datatype@.module, datatype@.name) is None,
                    models(parts@) == rust_types(models(type_arguments@), registry@).take(
                        i as int,
                    ),
                decreases type_arguments@.len() - i,
            {
                assert(models(type_arguments@)[i as int] == type_arguments@[i as int]@);
                assert(has_rust_type(datatype@.type_arguments[i as int]));
                let part: String = type_arguments[i].to_rust_type(registry);
                proof {
                    lemma_models_push(parts@, part);
                }
                parts.push(part);
                i += 1;
                assert(models(parts@) =~= rust_types(models(type_arguments@), registry@).take(
                    i as int,
                ));
            }
            proof {
                assert(rust_types(models(type_arguments@), registry@).take(i as int)
                    =~= rust_types(models(type_arguments@), registry@));
                reveal_strlit(", ");
                assert(vstd::utf8::is_ascii_chars(", "@));
                vstd::utf8::is_ascii_chars_encode_utf8(", "@);
            }
            let arguments: String = join(&parts, ", ");
            text.append("<");
            text.append(arguments.as_str());
            text.append(">");
            text
        },
    }
}

/// Whether a reference is mutable does not show in its Rust spelling.
pub proof fn law_references_spell_alike(referent: TypeModel, registry: Map<Seq<u8>, Seq<char>>)
    ensures
        rust_type(TypeModel::Reference(true, Box::new(referent)), registry) == rust_type(
            TypeModel::Reference(false, Box::new(referent)),
            registry,
        ),
{
}

/// The spelling of a known type other than an optional value is the same in every
/// registry and for all type arguments.
pub proof fn law_known_types_are_fixed(
    a: DatatypeModel,
    b: DatatypeModel,
    first: Map<Seq<u8>, Seq<char>>,
    second: Map<Seq<u8>, Seq<char>>,
)
    requires
        a.address == b.address,
        a.module == b.module,
        a.name == b.name,
        known_type(a.address, a.module, a.name) is Some,
        known_type(a.address, a.module, a.name) != Some(KnownType::Optional),
    ensures
        rust_datatype(a, first) == rust_datatype(b, second),
{
}

/// The spelling of an argument says what it is: it starts with `Arg<` exactly if the type
/// is no reference, with `MutRef<'a, ` exactly if it is a mutable one, and with
/// `Ref<'a, ` exactly if it is one that is not mutable.
pub proof fn law_arg_type_tells_references(type_: TypeModel, registry: Map<Seq<u8>, Seq<char>>)
    ensures
        "Arg<"@.is_prefix_of(arg_type(type_, registry)) <==> !(type_ is Reference),
        "MutRef<'a, "@.is_prefix_of(arg_type(type_, registry)) <==> (type_ matches
            TypeModel::Reference(mutable, _) && mutable),
        "Ref<'a, "@.is_prefix_of(arg_type(type_, registry)) <==> (type_ matches
            TypeModel::Reference(mutable, _) && !mutable),
{
    reveal_strlit("Arg<");
    reveal_strlit("MutRef<'a, ");
    reveal_strlit("Ref<'a, ");
    let text = arg_type(type_, registry);
    assert("Arg<"@.len() == 4 && "MutRef<'a, "@.len() == 11 && "Ref<'a, "@.len() == 8);
    assert("Arg<"@[0] == 'A' && "MutRef<'a, "@[0] == 'M' && "Ref<'a, "@[0] == 'R');
    match type_ {
        TypeModel::Reference(mutable, _) => {
            if mutable {
                assert("MutRef<'a, "@ =~= text.take(11));
            } else {
                assert("Ref<'a, "@ =~= text.take(8));
            }
        },
        _ => {
            assert("Arg<"@ =~= text.take(4));
        },
    }
}

/// Different type parameters have different spellings.
pub proof fn law_type_parameters_differ(a: u16, b: u16, registry: Map<Seq<u8>, Seq<char>>)
    requires
        rust_type(TypeModel::TypeParameter(a), registry) == rust_type(
            TypeModel::TypeParameter(b),
            registry,
        ),
    ensures
        a == b,
{
    let (x, y) = (decimal(a as nat), decimal(b as nat));
    assert(x =~= ("T"@ + x).skip("T"@.len() as int));
    assert(y =~= ("T"@ + y).skip("T"@.len() as int));
    law_decimal_injective(a as nat, b as nat);
}

} // verus!
