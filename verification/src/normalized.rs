//! The normalized model of a Move package, and its reading from the JSON nodes of
//! the GraphQL service.

use vstd::prelude::*;

use crate::address::{address_refusal, spelled_address, spells_address, Address};
use crate::error::{Error, ErrorModel};
use crate::json::{Json, JsonModel};
use crate::model::{
    collected, lemma_collected_error, lemma_collected_take, lemma_models_push, models, outcome,
    outcomes, read_all,
};
use crate::name_map::NameMap;
use crate::text::same_text;

verus! {

/// Normalized representation of an on-chain Move package.
pub struct Package {
    /// The on-chain address the package was requested at.
    pub address: Address,
    pub version: u64,
    pub modules: NameMap<Module>,
    /// module name -> datatype name -> defining package id
    pub type_origin_table: NameMap<NameMap<Address>>,
}

/// A module of a package.
pub struct Module {
    pub name: String,
    pub structs: Vec<Struct>,
    pub enums: Vec<Enum>,
    pub functions: Vec<Function>,
}

/// A type parameter of a datatype or of a function.
#[derive(Clone, Copy, Debug, PartialEq, Eq, Structural)]
pub struct TypeParameter {
    pub is_phantom: bool,
    pub has_key: bool,
}

/// A struct of a module.
pub struct Struct {
    pub name: String,
    pub has_key_ability: bool,
    pub type_parameters: Vec<TypeParameter>,
    pub fields: Vec<Field>,
}

/// An enum of a module.
pub struct Enum {
    pub name: String,
    pub type_parameters: Vec<TypeParameter>,
    pub variants: Vec<Variant>,
}

/// A variant of an enum.
pub struct Variant {
    pub name: String,
    pub fields: Vec<Field>,
}

/// A field of a struct or of a variant.
pub struct Field {
    pub name: String,
    pub type_: Type,
}

/// A function of a module.
pub struct Function {
    pub name: String,
    pub type_parameters: Vec<TypeParameter>,
    pub parameters: Vec<Type>,
    pub returns: Vec<Type>,
}

/// A use of a struct or an enum.
#[derive(Debug)]
pub struct Datatype {
    pub address: Address,
    pub module: String,
    pub name: String,
    pub type_arguments: Vec<Type>,
}

/// A Move type. A reference says whether it is mutable.
#[derive(Debug)]
pub enum Type {
    Bool,
    U8,
    U16,
    U32,
    U64,
    U128,
    U256,
    Address,
    Signer,
    Vector(Box<Type>),
    Datatype(Box<Datatype>),
    Reference(bool, Box<Type>),
    TypeParameter(u16),
}

/// What a [`Datatype`] stands for.
pub struct DatatypeModel {
    pub address: Seq<u8>,
    pub module: Seq<char>,
    pub name: Seq<char>,
    pub type_arguments: Seq<TypeModel>,
}

/// What a [`Type`] stands for.
pub enum TypeModel {
    Bool,
    U8,
    U16,
    U32,
    U64,
    U128,
    U256,
    Address,
    Signer,
    Vector(Box<TypeModel>),
    Datatype(Box<DatatypeModel>),
    Reference(bool, Box<TypeModel>),
    TypeParameter(u16),
}

/// What a [`Field`] stands for.
pub struct FieldModel {
    pub name: Seq<char>,
    pub type_: TypeModel,
}

/// What a [`Variant`] stands for.
pub struct VariantModel {
    pub name: Seq<char>,
    pub fields: Seq<FieldModel>,
}

/// What a [`Struct`] stands for.
pub struct StructModel {
    pub name: Seq<char>,
    pub has_key_ability: bool,
    pub type_parameters: Seq<TypeParameter>,
    pub fields: Seq<FieldModel>,
}

/// What an [`Enum`] stands for.
pub struct EnumModel {
    pub name: Seq<char>,
    pub type_parameters: Seq<TypeParameter>,
    pub variants: Seq<VariantModel>,
}

/// What a [`Function`] stands for.
pub struct FunctionModel {
    pub name: Seq<char>,
    pub type_parameters: Seq<TypeParameter>,
    pub parameters: Seq<TypeModel>,
    pub returns: Seq<TypeModel>,
}

/// What a [`Module`] stands for.
pub struct ModuleModel {
    pub name: Seq<char>,
    pub structs: Seq<StructModel>,
    pub enums: Seq<EnumModel>,
    pub functions: Seq<FunctionModel>,
}

/// What a [`Package`] stands for.
pub struct PackageModel {
    pub address: Seq<u8>,
    pub version: u64,
    pub modules: Map<Seq<char>, ModuleModel>,
    pub type_origin_table: Map<Seq<char>, Map<Seq<char>, Seq<u8>>>,
}

/// What `type_` stands for.
pub open spec fn type_model(type_: Type) -> TypeModel
    decreases type_,
{
    match type_ {
        Type::Bool => TypeModel::Bool,
        Type::U8 => TypeModel::U8,
        Type::U16 => TypeModel::U16,
        Type::U32 => TypeModel::U32,
        Type::U64 => TypeModel::U64,
        Type::U128 => TypeModel::U128,
        Type::U256 => TypeModel::U256,
        Type::Address => TypeModel::Address,
        Type::Signer => TypeModel::Signer,
        Type::Vector(element) => TypeModel::Vector(Box::new(type_model(*element))),
        Type::Datatype(datatype) => TypeModel::Datatype(Box::new(datatype_model(*datatype))),
        Type::Reference(mutable, referent) => TypeModel::Reference(
            mutable,
            Box::new(type_model(*referent)),
        ),
        Type::TypeParameter(index) => TypeModel::TypeParameter(index),
    }
}

/// What `datatype` stands for.
pub open spec fn datatype_model(datatype: Datatype) -> DatatypeModel
    decreases datatype,
{
    DatatypeModel {
        address: datatype.address@,
        module: datatype.module@,
        name: datatype.name@,
        type_arguments: Seq::new(
            datatype.type_arguments@.len(),
            |i: int|
                if 0 <= i < datatype.type_arguments@.len() {
                    type_model(datatype.type_arguments@[i])
                } else {
                    TypeModel::Bool
                },
        ),
    }
}

impl View for Type {
    type V = TypeModel;

    open spec fn view(&self) -> TypeModel {
        type_model(*self)
    }
}

impl View for Datatype {
    type V = DatatypeModel;

    open spec fn view(&self) -> DatatypeModel {
        datatype_model(*self)
    }
}

impl View for TypeParameter {
    type V = TypeParameter;

    open spec fn view(&self) -> TypeParameter {
        *self
    }
}

impl View for Field {
    type V = FieldModel;

    open spec fn view(&self) -> FieldModel {
        FieldModel { name: self.name@, type_: self.type_@ }
    }
}

impl View for Variant {
    type V = VariantModel;

    open spec fn view(&self) -> VariantModel {
        VariantModel { name: self.name@, fields: models(self.fields@) }
    }
}

impl View for Struct {
    type V = StructModel;

    open spec fn view(&self) -> StructModel {
        StructModel {
            name: self.name@,
            has_key_ability: self.has_key_ability,
            type_parameters: models(self.type_parameters@),
            fields: models(self.fields@),
        }
    }
}

impl View for Enum {
    type V = EnumModel;

    open spec fn view(&self) -> EnumModel {
        EnumModel {
            name: self.name@,
            type_parameters: models(self.type_parameters@),
            variants: models(self.variants@),
        }
    }
}

impl View for Function {
    type V = FunctionModel;

    open spec fn view(&self) -> FunctionModel {
        FunctionModel {
            name: self.name@,
            type_parameters: models(self.type_parameters@),
            parameters: models(self.parameters@),
            returns: models(self.returns@),
        }
    }
}

impl View for Module {
    type V = ModuleModel;

    open spec fn view(&self) -> ModuleModel {
        ModuleModel {
            name: self.name@,
            structs: models(self.structs@),
            enums: models(self.enums@),
            functions: models(self.functions@),
        }
    }
}

/// What the modules of a package stand for.
pub open spec fn module_models(modules: Map<Seq<char>, Module>) -> Map<Seq<char>, ModuleModel> {
    modules.map_values(|module: Module| module@)
}

/// What the type origins of a module stand for.
pub open spec fn address_models(origins: Map<Seq<char>, Address>) -> Map<Seq<char>, Seq<u8>> {
    origins.map_values(|address: Address| address@)
}

/// What a table of type origins stands for.
pub open spec fn origin_models(table: Map<Seq<char>, NameMap<Address>>) -> Map<
    Seq<char>,
    Map<Seq<char>, Seq<u8>>,
> {
    table.map_values(|origins: NameMap<Address>| address_models(origins@))
}

impl View for Package {
    type V = PackageModel;

    open spec fn view(&self) -> PackageModel {
        PackageModel {
            address: self.address@,
            version: self.version,
            modules: module_models(self.modules@),
            type_origin_table: origin_models(self.type_origin_table@),
        }
    }
}

/// The type arguments of a datatype's view are the views of its type arguments.
pub proof fn lemma_datatype_view(datatype: Datatype)
    ensures
        datatype_model(datatype).type_arguments == models(datatype.type_arguments@),
{
    assert(datatype_model(datatype).type_arguments =~= models(datatype.type_arguments@));
}

impl Clone for Type {
    fn clone(&self) -> (copy: Self)
        ensures
            copy@ == self@,
        decreases self,
    {
        match self {
            Type::Bool => Type::Bool,
            Type::U8 => Type::U8,
            Type::U16 => Type::U16,
            Type::U32 => Type::U32,
            Type::U64 => Type::U64,
            Type::U128 => Type::U128,
            Type::U256 => Type::U256,
            Type::Address => Type::Address,
            Type::Signer => Type::Signer,
            Type::Vector(element) => Type::Vector(Box::new((**element).clone())),
            Type::Datatype(datatype) => Type::Datatype(Box::new((**datatype).clone())),
            Type::Reference(mutable, referent) => Type::Reference(
                *mutable,
                Box::new((**referent).clone()),
            ),
            Type::TypeParameter(index) => Type::TypeParameter(*index),
        }
    }
}

impl Clone for Datatype {
    fn clone(&self) -> (copy: Self)
        ensures
            copy@ == self@,
        decreases self,
    {
        let mut type_arguments: Vec<Type> = Vec::new();
        let mut i: usize = 0;
        while i < self.type_arguments.len()
            invariant
                i <= self.type_arguments@.len(),
                models(type_arguments@) == models(self.type_arguments@).take(i as int),
            decreases self.type_arguments@.len() - i,
        {
            let argument: Type = self.type_arguments[i].clone();
            proof {
                lemma_models_push(type_arguments@, argument);
            }
            type_arguments.push(argument);
            i += 1;
            assert(models(type_arguments@) =~= models(self.type_arguments@).take(i as int));
        }
        let copy: Datatype = Datatype {
            address: self.address,
            module: self.module.clone(),
            name: self.name.clone(),
            type_arguments,
        };
        proof {
            assert(models(self.type_arguments@).take(i as int) =~= models(self.type_arguments@));
            lemma_datatype_view(*self);
            lemma_datatype_view(copy);
        }
        copy
    }
}

/// The primitive type of a name.
pub open spec fn primitive_type(name: Seq<char>) -> Option<TypeModel> {
    if name == "bool"@ {
        Some(TypeModel::Bool)
    } else if name == "u8"@ {
        Some(TypeModel::U8)
    } else if name == "u16"@ {
        Some(TypeModel::U16)
    } else if name == "u32"@ {
        Some(TypeModel::U32)
    } else if name == "u64"@ {
        Some(TypeModel::U64)
    } else if name == "u128"@ {
        Some(TypeModel::U128)
    } else if name == "u256"@ {
        Some(TypeModel::U256)
    } else if name == "address"@ {
        Some(TypeModel::Address)
    } else if name == "signer"@ {
        Some(TypeModel::Signer)
    } else {
        None
    }
}

/// The datatype that `node` describes, given what its type arguments read as.
pub open spec fn read_datatype(
    node: JsonModel,
    type_arguments: Result<Seq<TypeModel>, ErrorModel>,
) -> Result<TypeModel, ErrorModel> {
    match node.at("package"@).text() {
        None => Err(ErrorModel::MissingDatatypePackage(node)),
        Some(package) => if !spells_address(package) {
            Err(ErrorModel::InvalidAddress { text: package, reason: address_refusal() })
        } else {
            match (node.at("module"@).text(), node.at("type"@).text(), type_arguments) {
                (None, _, _) => Err(ErrorModel::MissingDatatypeModule(node)),
                (_, None, _) => Err(ErrorModel::MissingDatatypeName(node)),
                (_, _, Err(error)) => Err(error),
                (Some(module), Some(name), Ok(type_arguments)) => Ok(
                    TypeModel::Datatype(
                        Box::new(
                            DatatypeModel {
                                address: spelled_address(package),
                                module,
                                name,
                                type_arguments,
                            },
                        ),
                    ),
                ),
            }
        },
    }
}

/// The type that a body describes: the name of a primitive type, or an object with a
/// `vector`, a `datatype` or a `typeParameter`, of which the first one counts.
pub open spec fn read_body(body: JsonModel) -> Result<TypeModel, ErrorModel>
    decreases body,
{
    match (body.text(), body.get("vector"@), body.get("datatype"@), body.get("typeParameter"@)) {
        (Some(name), _, _, _) => match primitive_type(name) {
            Some(type_) => Ok(type_),
            None => Err(ErrorModel::UnknownPrimitiveType(name)),
        },
        (_, Some(element), _, _) => match read_body(element) {
            Ok(type_) => Ok(TypeModel::Vector(Box::new(type_))),
            Err(error) => Err(error),
        },
        (_, _, Some(datatype), _) => read_datatype(
            datatype,
            match datatype.at("typeParameters"@).items() {
                Some(arguments) => collected(read_bodies(arguments)),
                None => Ok(seq![]),
            },
        ),
        (_, _, _, Some(index)) => match index.unsigned() {
            None => Err(ErrorModel::InvalidTypeParameterIndex(index)),
            Some(n) => if n <= u16::MAX {
                Ok(TypeModel::TypeParameter(n as u16))
            } else {
                Err(ErrorModel::TypeParameterOutOfRange(n))
            },
        },
        _ => Err(ErrorModel::UnknownTypeBody(body)),
    }
}

/// What each of a sequence of bodies reads as.
pub open spec fn read_bodies(bodies: Seq<JsonModel>) -> Seq<Result<TypeModel, ErrorModel>>
    decreases bodies,
{
    Seq::new(
        bodies.len(),
        |i: int|
            if 0 <= i < bodies.len() {
                read_body(bodies[i])
            } else {
                Err(ErrorModel::MissingModuleName)
            },
    )
}

/// The type that a signature describes: its `body`, behind a reference where its `ref`
/// is a text.
pub open spec fn read_signature(signature: JsonModel) -> Result<TypeModel, ErrorModel> {
    match read_body(signature.at("body"@)) {
        Err(error) => Err(error),
        Ok(type_) => match signature.at("ref"@).text() {
            None => Ok(type_),
            Some(kind) => if kind == "&"@ {
                Ok(TypeModel::Reference(false, Box::new(type_)))
            } else if kind == "&mut"@ {
                Ok(TypeModel::Reference(true, Box::new(type_)))
            } else {
                Err(ErrorModel::UnknownReferenceKind(kind))
            },
        },
    }
}

impl Type {
    /// Reads a GraphQL `MoveFunctionTypeSignature`/`OpenMoveType` signature:
    /// `{ "ref": "&" | "&mut" | null, "body": <body> }`.
    pub fn from_signature(signature: &Json) -> (result: Result<Self, Error>)
        ensures
            outcome(result) == read_signature(signature@),
    {
        let body: Type = match Type::from_body(signature.at("body")) {
            Ok(body) => body,
            Err(error) => {
                return Err(error);
            },
        };
        match signature.at("ref").as_str() {
            None => Ok(body),
            Some(kind) => if same_text(kind, "&") {
                Ok(Type::Reference(false, Box::new(body)))
            } else if same_text(kind, "&mut") {
                Ok(Type::Reference(true, Box::new(body)))
            } else {
                Err(Error::UnknownReferenceKind(kind.to_owned()))
            },
        }
    }

    /// Reads a GraphQL type body: a primitive as a string, or one of
    /// `{"vector": <body>}`, `{"datatype": {...}}`, `{"typeParameter": n}`.
    pub fn from_body(body: &Json) -> (result: Result<Self, Error>)
        ensures
            outcome(result) == read_body(body@),
        decreases body@,
    {
        if let Some(name) = body.as_str() {
            return match Type::from_primitive(name) {
                Some(type_) => Ok(type_),
                None => Err(Error::UnknownPrimitiveType(name.to_owned())),
            };
        }
        if let Some(element) = body.get("vector") {
            return match Type::from_body(element) {
                Ok(type_) => Ok(Type::Vector(Box::new(type_))),
                Err(error) => Err(error),
            };
        }
        if let Some(datatype) = body.get("datatype") {
            return Type::from_datatype(datatype);
        }
        if let Some(index) = body.get("typeParameter") {
            return match index.as_u64() {
                None => Err(Error::InvalidTypeParameterIndex(index.clone())),
                Some(n) => if n <= 0xffff {
                    Ok(Type::TypeParameter(n as u16))
                } else {
                    Err(Error::TypeParameterOutOfRange(n))
                },
            };
        }
        Err(Error::UnknownTypeBody(body.clone()))
    }

    /// The primitive type of a name.
    fn from_primitive(name: &str) -> (type_: Option<Self>)
        ensures
            match primitive_type(name@) {
                Some(model) => type_ matches Some(found) && found@ == model,
                None => type_ is None,
            },
    {
        if same_text(name, "bool") {
            Some(Type::Bool)
        } else if same_text(name, "u8") {
            Some(Type::U8)
        } else if same_text(name, "u16") {
            Some(Type::U16)
        } else if same_text(name, "u32") {
            Some(Type::U32)
        } else if same_text(name, "u64") {
            Some(Type::U64)
        } else if same_text(name, "u128") {
            Some(Type::U128)
        } else if same_text(name, "u256") {
            Some(Type::U256)
        } else if same_text(name, "address") {
            Some(Type::Address)
        } else if same_text(name, "signer") {
            Some(Type::Signer)
        } else {
            None
        }
    }

    /// Reads the `datatype` of a body.
    fn from_datatype(datatype: &Json) -> (result: Result<Self, Error>)
        ensures
            outcome(result) == read_datatype(
                datatype@,
                (match datatype@.at("typeParameters"@).items() {
                    Some(arguments) => collected(read_bodies(arguments)),
                    None => Ok(seq![]),
                }),
            ),
        decreases datatype@,
    {
        let address: Address = match datatype.at("package").as_str() {
            None => {
                return Err(Error::MissingDatatypePackage(datatype.clone()));
            },
            Some(package) => match Address::from_str(package) {
                Ok(address) => address,
                Err(error) => {
                    return Err(error);
                },
            },
        };
        let module: String = match datatype.at("module").as_str() {
            None => {
                return Err(Error::MissingDatatypeModule(datatype.clone()));
            },
            Some(module) => module.to_owned(),
        };
        let name: String = match datatype.at("type").as_str() {
            None => {
                return Err(Error::MissingDatatypeName(datatype.clone()));
            },
            Some(name) => name.to_owned(),
        };
        let type_arguments: Vec<Type> = match datatype.at("typeParameters").as_array() {
            None => {
                let none: Vec<Type> = Vec::new();
                assert(models(none@) =~= seq![]);
                none
            },
            Some(arguments) => match Type::from_bodies(arguments) {
                Ok(type_arguments) => type_arguments,
                Err(error) => {
                    return Err(error);
                },
            },
        };
        let datatype: Datatype = Datatype { address, module, name, type_arguments };
        proof {
            lemma_datatype_view(datatype);
        }
        Ok(Type::Datatype(Box::new(datatype)))
    }

    /// Reads bodies up to the first that is refused.
    fn from_bodies(bodies: &Vec<Json>) -> (result: Result<Vec<Self>, Error>)
        ensures
            outcomes(result) == collected(read_bodies(models(bodies@))),
        decreases models(bodies@),
    {
        let ghost results = read_bodies(models(bodies@));
        let mut types: Vec<Type> = Vec::new();
        let mut i: usize = 0;
        assert(models(types@) =~= seq![]);
        while i < bodies.len()
            invariant
                i <= bodies@.len(),
                results == read_bodies(models(bodies@)),
                collected(results.take(i as int)) == Ok::<Seq<TypeModel>, ErrorModel>(
                    models(types@),
                ),
            decreases bodies@.len() - i,
        {
            proof {
                lemma_collected_take(results, i as int);
                assert(models(bodies@)[i as int] == bodies@[i as int]@);
            }
            match Type::from_body(&bodies[i]) {
                Err(error) => {
                    proof {
                        lemma_collected_error(results, i + 1);
                    }
                    return Err(error);
                },
                Ok(type_) => {
                    proof {
                        lemma_models_push(types@, type_);
                    }
                    types.push(type_);
                },
            }
            i += 1;
        }
        assert(results.take(i as int) =~= results);
        Ok(types)
    }
}

/// Whether `list` is an array that holds the text `KEY`.
pub open spec fn lists_key(list: JsonModel) -> bool {
    list.items_or_none().contains(JsonModel::Text("KEY"@))
}

/// The type parameter that `node` describes.
pub open spec fn read_type_parameter(node: JsonModel) -> TypeParameter {
    TypeParameter {
        is_phantom: node.at("isPhantom"@).flag() == Some(true),
        has_key: lists_key(node.at("constraints"@)),
    }
}

/// The type parameters that `nodes` describes: none where it is no array.
pub open spec fn read_type_parameters(nodes: JsonModel) -> Seq<TypeParameter> {
    nodes.items_or_none().map_values(|node: JsonModel| read_type_parameter(node))
}

/// The field that `node` describes.
pub open spec fn read_field(node: JsonModel) -> Result<FieldModel, ErrorModel> {
    match (node.at("name"@).text(), read_signature(node.at("type"@).at("signature"@))) {
        (None, _) => Err(ErrorModel::MissingFieldName(node)),
        (_, Err(error)) => Err(error),
        (Some(name), Ok(type_)) => Ok(FieldModel { name, type_ }),
    }
}

/// The fields that `nodes` describes: it has to be an array.
pub open spec fn read_fields(nodes: JsonModel) -> Result<Seq<FieldModel>, ErrorModel> {
    match nodes.items() {
        None => Err(ErrorModel::MissingFields(nodes)),
        Some(fields) => collected(fields.map_values(|field: JsonModel| read_field(field))),
    }
}

/// The struct that `node` describes.
pub open spec fn read_struct(node: JsonModel) -> Result<StructModel, ErrorModel> {
    match (node.at("name"@).text(), read_fields(node.at("fields"@))) {
        (None, _) => Err(ErrorModel::MissingStructName(node)),
        (_, Err(error)) => Err(error),
        (Some(name), Ok(fields)) => Ok(
            StructModel {
                name,
                has_key_ability: lists_key(node.at("abilities"@)),
                type_parameters: read_type_parameters(node.at("typeParameters"@)),
                fields,
            },
        ),
    }
}

/// The variant that `node` describes.
pub open spec fn read_variant(node: JsonModel) -> Result<VariantModel, ErrorModel> {
    match (node.at("name"@).text(), read_fields(node.at("fields"@))) {
        (None, _) => Err(ErrorModel::MissingVariantName(node)),
        (_, Err(error)) => Err(error),
        (Some(name), Ok(fields)) => Ok(VariantModel { name, fields }),
    }
}

/// The enum that `node` describes. Its variants are read before its name; where they
/// are no array it has none.
pub open spec fn read_enum(node: JsonModel) -> Result<EnumModel, ErrorModel> {
    let variants = node.at("variants"@).items_or_none();
    match (
        collected(variants.map_values(|variant: JsonModel| read_variant(variant))),
        node.at("name"@).text(),
    ) {
        (Err(error), _) => Err(error),
        (_, None) => Err(ErrorModel::MissingEnumName(node)),
        (Ok(variants), Some(name)) => Ok(
            EnumModel {
                name,
                type_parameters: read_type_parameters(node.at("typeParameters"@)),
                variants,
            },
        ),
    }
}

/// The types whose `signature`s stand in `nodes`: none where it is no array.
pub open spec fn read_signatures(nodes: JsonModel) -> Result<Seq<TypeModel>, ErrorModel> {
    collected(
        nodes.items_or_none().map_values(
            |node: JsonModel| read_signature(node.at("signature"@)),
        ),
    )
}

/// The function that `node` describes.
pub open spec fn read_function(node: JsonModel) -> Result<FunctionModel, ErrorModel> {
    match (
        node.at("name"@).text(),
        read_signatures(node.at("parameters"@)),
        read_signatures(node.at("return"@)),
    ) {
        (None, _, _) => Err(ErrorModel::MissingFunctionName(node)),
        (_, Err(error), _) => Err(error),
        (_, _, Err(error)) => Err(error),
        (Some(name), Ok(parameters), Ok(returned)) => Ok(
            FunctionModel {
                name,
                type_parameters: read_type_parameters(node.at("typeParameters"@)),
                parameters,
                returns: returned,
            },
        ),
    }
}

/// Whether `list` is an array that holds the text `KEY`.
fn has_key_in(list: &Json) -> (found: bool)
    ensures
        found == lists_key(list@),
{
    let items: &Vec<Json> = match list.as_array() {
        None => {
            return false;
        },
        Some(items) => items,
    };
    let mut i: usize = 0;
    while i < items.len()
        invariant
            i <= items@.len(),
            list@.items_or_none() == models(items@),
            forall|j: int| 0 <= j < i ==> #[trigger] items@[j]@ != JsonModel::Text("KEY"@),
        decreases items@.len() - i,
    {
        assert(models(items@)[i as int] == items@[i as int]@);
        if let Some(ability) = items[i].as_str() {
            if same_text(ability, "KEY") {
                return true;
            }
        }
        i += 1;
    }
    assert forall|j: int| 0 <= j < models(items@).len() implies #[trigger] models(items@)[j]
        != JsonModel::Text("KEY"@) by {
        assert(models(items@)[j] == items@[j]@);
    }
    false
}

/// Reads a type parameter. What is missing counts as false.
pub fn parse_type_parameter(node: &Json) -> (type_parameter: TypeParameter)
    ensures
        type_parameter == read_type_parameter(node@),
{
    TypeParameter {
        is_phantom: match node.at("isPhantom").as_bool() {
            Some(flag) => flag,
            None => false,
        },
        has_key: has_key_in(node.at("constraints")),
    }
}

/// Reads type parameters: none from what is no array.
pub fn parse_type_parameters(nodes: &Json) -> (type_parameters: Vec<TypeParameter>)
    ensures
        models(type_parameters@) == read_type_parameters(nodes@),
{
    let mut type_parameters: Vec<TypeParameter> = Vec::new();
    assert(models(type_parameters@) =~= seq![]);
    match nodes.as_array() {
        None => {
            assert(read_type_parameters(nodes@) =~= seq![]);
        },
        Some(items) => {
            let mut i: usize = 0;
            while i < items.len()
                invariant
                    i <= items@.len(),
                    nodes@.items_or_none() == models(items@),
                    models(type_parameters@) == read_type_parameters(nodes@).take(i as int),
                decreases items@.len() - i,
            {
                let type_parameter: TypeParameter = parse_type_parameter(&items[i]);
                proof {
                    lemma_models_push(type_parameters@, type_parameter);
                    assert(models(items@)[i as int] == items@[i as int]@);
                }
                type_parameters.push(type_parameter);
                i += 1;
                assert(models(type_parameters@) =~= read_type_parameters(nodes@).take(i as int));
            }
            assert(read_type_parameters(nodes@).take(i as int) =~= read_type_parameters(nodes@));
        },
    }
    type_parameters
}

impl Field {
    /// Reads a field.
    fn from_node(node: &Json) -> (result: Result<Self, Error>)
        ensures
            outcome(result) == read_field(node@),
    {
        let name: String = match node.at("name").as_str() {
            None => {
                return Err(Error::MissingFieldName(node.clone()));
            },
            Some(name) => name.to_owned(),
        };
        match Type::from_signature(node.at("type").at("signature")) {
            Err(error) => Err(error),
            Ok(type_) => Ok(Field { name, type_ }),
        }
    }
}

/// Reads fields, up to the first that is refused.
pub fn parse_fields(nodes: &Json) -> (result: Result<Vec<Field>, Error>)
    ensures
        outcomes(result) == read_fields(nodes@),
{
    match nodes.as_array() {
        None => Err(Error::MissingFields(nodes.clone())),
        Some(fields) => read_all(
            fields,
            Field::from_node,
            Ghost(|field: JsonModel| read_field(field)),
        ),
    }
}

impl Struct {
    /// Reads a struct.
    pub fn from_node(node: &Json) -> (result: Result<Self, Error>)
        ensures
            outcome(result) == read_struct(node@),
    {
        let name: String = match node.at("name").as_str() {
            None => {
                return Err(Error::MissingStructName(node.clone()));
            },
            Some(name) => name.to_owned(),
        };
        let has_key_ability: bool = has_key_in(node.at("abilities"));
        let type_parameters: Vec<TypeParameter> = parse_type_parameters(node.at("typeParameters"));
        match parse_fields(node.at("fields")) {
            Err(error) => Err(error),
            Ok(fields) => Ok(Struct { name, has_key_ability, type_parameters, fields }),
        }
    }
}

impl Variant {
    /// Reads a variant.
    fn from_node(node: &Json) -> (result: Result<Self, Error>)
        ensures
            outcome(result) == read_variant(node@),
    {
        let name: String = match node.at("name").as_str() {
            None => {
                return Err(Error::MissingVariantName(node.clone()));
            },
            Some(name) => name.to_owned(),
        };
        match parse_fields(node.at("fields")) {
            Err(error) => Err(error),
            Ok(fields) => Ok(Variant { name, fields }),
        }
    }
}

impl Enum {
    /// Reads an enum.
    pub fn from_node(node: &Json) -> (result: Result<Self, Error>)
        ensures
            outcome(result) == read_enum(node@),
    {
        let ghost listed = node@.at("variants"@).items_or_none();
        let variants: Vec<Variant> = match node.at("variants").as_array() {
            None => {
                let none: Vec<Variant> = Vec::new();
                assert(models(none@) =~= seq![]);
                assert(listed.map_values(|variant: JsonModel| read_variant(variant)) =~= seq![]);
                none
            },
            Some(variants) => match read_all(
                variants,
                Variant::from_node,
                Ghost(|variant: JsonModel| read_variant(variant)),
            ) {
                Err(error) => {
                    return Err(error);
                },
                Ok(variants) => variants,
            },
        };
        let name: String = match node.at("name").as_str() {
            None => {
                return Err(Error::MissingEnumName(node.clone()));
            },
            Some(name) => name.to_owned(),
        };
        let type_parameters: Vec<TypeParameter> = parse_type_parameters(node.at("typeParameters"));
        Ok(Enum { name, type_parameters, variants })
    }
}

/// Reads the type whose signature stands in `node`.
fn parse_signed(node: &Json) -> (result: Result<Type, Error>)
    ensures
        outcome(result) == read_signature(node@.at("signature"@)),
{
    Type::from_signature(node.at("signature"))
}

/// Reads the types whose signatures stand in `nodes`, up to the first that is refused.
fn parse_signatures(nodes: &Json) -> (result: Result<Vec<Type>, Error>)
    ensures
        outcomes(result) == read_signatures(nodes@),
{
    match nodes.as_array() {
        None => {
            let none: Vec<Type> = Vec::new();
            assert(models(none@) =~= seq![]);
            assert(nodes@.items_or_none().map_values(
                |node: JsonModel| read_signature(node.at("signature"@)),
            ) =~= seq![]);
            Ok(none)
        },
        Some(items) => read_all(
            items,
            parse_signed,
            Ghost(|node: JsonModel| read_signature(node.at("signature"@))),
        ),
    }
}

impl Function {
    /// Reads a function.
    pub fn from_node(node: &Json) -> (result: Result<Self, Error>)
        ensures
            outcome(result) == read_function(node@),
    {
        let name: String = match node.at("name").as_str() {
            None => {
                return Err(Error::MissingFunctionName(node.clone()));
            },
            Some(name) => name.to_owned(),
        };
        let type_parameters: Vec<TypeParameter> = parse_type_parameters(node.at("typeParameters"));
        let parameters: Vec<Type> = match parse_signatures(node.at("parameters")) {
            Err(error) => {
                return Err(error);
            },
            Ok(parameters) => parameters,
        };
        match parse_signatures(node.at("return")) {
            Err(error) => Err(error),
            Ok(returned) => Ok(
                Function { name, type_parameters, parameters, returns: returned },
            ),
        }
    }
}

} // verus!
