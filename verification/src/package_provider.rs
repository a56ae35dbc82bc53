//! The fetching of a package: what to ask the service next, and what to make of its
//! replies.

use vstd::prelude::*;

use crate::address::{spelled_address, spells_address, Address};
use crate::error::{Error, ErrorModel};
use crate::json::{copy_items, Json, JsonModel};
use crate::model::{collected, models, outcome, read_all};
use crate::name_map::NameMap;
use crate::normalized::{
    address_models, module_models, origin_models, read_enum, read_function, read_struct, Enum,
    Function, Module, ModuleModel, Package, PackageModel, Struct,
};
use crate::request::{
    members_request, metadata_request, modules_request, Connection, Request, RequestModel,
};

verus! {

/// A Sui network, by the endpoint of its GraphQL service.
pub struct SuiNetwork {
    pub gql: String,
}

impl SuiNetwork {
    /// The endpoint of the GraphQL service.
    pub fn gql(&self) -> (endpoint: &str)
        ensures
            endpoint@ == self.gql@,
    {
        self.gql.as_str()
    }
}

/// What provides packages by their names or addresses.
pub trait ModuleProvider {
    fn get_package(&self, package_id: &str) -> Result<Package, Error>;
}

/// Provides the packages of a network.
pub struct MoveModuleProvider {
    network: SuiNetwork,
}

/// What the service says went wrong: a member `errors` that is not null.
pub open spec fn refusal(reply: JsonModel) -> Option<JsonModel> {
    match reply.get("errors"@) {
        Some(errors) => if errors == JsonModel::Null {
            None
        } else {
            Some(errors)
        },
        None => None,
    }
}

/// The nodes of a page.
pub open spec fn page_nodes(page: JsonModel) -> Seq<JsonModel> {
    page.at("nodes"@).items_or_none()
}

/// Whether a page is followed by another one.
pub open spec fn has_next_page(page: JsonModel) -> bool {
    page.at("pageInfo"@).at("hasNextPage"@).flag() == Some(true)
}

/// The cursor at the end of a page.
pub open spec fn end_cursor(page: JsonModel) -> JsonModel {
    page.at("pageInfo"@).at("endCursor"@)
}

/// The cursor after which a connection goes on, where it does.
pub open spec fn next_cursor(
    page: JsonModel,
    module: Seq<char>,
    connection: Connection,
) -> Result<Option<Seq<char>>, ErrorModel> {
    if !has_next_page(page) {
        Ok(None)
    } else {
        match end_cursor(page).text() {
            Some(cursor) => Ok(Some(cursor)),
            None => Err(ErrorModel::MissingEndCursor { module, connection: connection.key() }),
        }
    }
}

/// The table of type origins with one more entry. An entry counts if it names a module, a
/// datatype and an address.
pub open spec fn with_origin(
    table: Map<Seq<char>, Map<Seq<char>, Seq<u8>>>,
    entry: JsonModel,
) -> Map<Seq<char>, Map<Seq<char>, Seq<u8>>> {
    match (
        entry.at("module"@).text(),
        entry.at("struct"@).text(),
        entry.at("definingId"@).text(),
    ) {
        (Some(module), Some(datatype), Some(id)) => if spells_address(id) {
            let origins = if table.contains_key(module) {
                table[module]
            } else {
                Map::empty()
            };
            table.insert(module, origins.insert(datatype, spelled_address(id)))
        } else {
            table
        },
        _ => table,
    }
}

/// The table of type origins that entries make up, in this order.
pub open spec fn type_origins(entries: Seq<JsonModel>) -> Map<
    Seq<char>,
    Map<Seq<char>, Seq<u8>>,
>
    decreases entries.len(),
{
    if entries.len() == 0 {
        Map::empty()
    } else {
        with_origin(type_origins(entries.drop_last()), entries.last())
    }
}

/// A module of which only the name is known.
pub open spec fn named_module(name: Seq<char>) -> ModuleModel {
    ModuleModel { name, structs: seq![], enums: seq![], functions: seq![] }
}

/// A module with what all the nodes of a connection describe.
pub open spec fn with_members(
    module: ModuleModel,
    connection: Connection,
    nodes: Seq<JsonModel>,
) -> Result<ModuleModel, ErrorModel> {
    match connection {
        Connection::Structs => match collected(
            nodes.map_values(|node: JsonModel| read_struct(node)),
        ) {
            Ok(structs) => Ok(ModuleModel { structs, ..module }),
            Err(error) => Err(error),
        },
        Connection::Enums => match collected(nodes.map_values(|node: JsonModel| read_enum(node))) {
            Ok(enums) => Ok(ModuleModel { enums, ..module }),
            Err(error) => Err(error),
        },
        Connection::Functions => match collected(
            nodes.map_values(|node: JsonModel| read_function(node)),
        ) {
            Ok(functions) => Ok(ModuleModel { functions, ..module }),
            Err(error) => Err(error),
        },
    }
}

/// A package with one more module; a module of the same name gives way.
pub open spec fn with_module(package: PackageModel, module: ModuleModel) -> PackageModel {
    PackageModel { modules: package.modules.insert(module.name, module), ..package }
}

/// A module of which more pages of a connection have to be asked for: the node it is
/// read from, what is known of it, the connection, the nodes of the connection that
/// have arrived, and the cursor they end at.
pub struct PauseModel {
    pub node: JsonModel,
    pub module: ModuleModel,
    pub connection: Connection,
    pub nodes: Seq<JsonModel>,
    pub after: Seq<char>,
}

/// How far the reading of a module comes without another page.
pub enum ModuleStepModel {
    Complete(ModuleModel),
    Paused(PauseModel),
    Refused(ErrorModel),
}

/// Reads on from the first page of `connection`.
pub open spec fn open_connection(
    node: JsonModel,
    module: ModuleModel,
    connection: Connection,
) -> ModuleStepModel
    decreases connection.left(), 1int,
{
    let page = node.at(connection.key());
    match next_cursor(page, module.name, connection) {
        Err(error) => ModuleStepModel::Refused(error),
        Ok(Some(after)) => ModuleStepModel::Paused(
            PauseModel { node, module, connection, nodes: page_nodes(page), after },
        ),
        Ok(None) => close_connection(node, module, connection, page_nodes(page)),
    }
}

/// Reads on once all the nodes of `connection` have arrived.
pub open spec fn close_connection(
    node: JsonModel,
    module: ModuleModel,
    connection: Connection,
    nodes: Seq<JsonModel>,
) -> ModuleStepModel
    decreases connection.left(), 0int,
{
    match with_members(module, connection, nodes) {
        Err(error) => ModuleStepModel::Refused(error),
        Ok(module) => match connection.following() {
            None => ModuleStepModel::Complete(module),
            Some(following) => open_connection(node, module, following),
        },
    }
}

/// What a fetch waits for.
pub enum StageModel {
    /// The version and the type origins.
    Metadata,
    /// The page of modules after a cursor.
    Modules { package: PackageModel, after: JsonModel },
    /// More of a module; the modules of `page` from `index` on come after it.
    Members { package: PackageModel, page: JsonModel, index: nat, pause: PauseModel },
}

/// Where a package comes from: the endpoint that is asked, and its address.
pub struct SourceModel {
    pub endpoint: Seq<char>,
    pub package_id: Seq<u8>,
}

/// What a [`PackageFetch`] stands for.
pub struct FetchModel {
    pub source: SourceModel,
    pub stage: StageModel,
}

/// How far a fetch has come: it waits for a reply, or it has the package.
pub enum ProgressModel {
    Waiting(FetchModel),
    Done(PackageModel),
}

/// A fetch that has asked for nothing yet.
pub open spec fn new_fetch(source: SourceModel) -> FetchModel {
    FetchModel { source, stage: StageModel::Metadata }
}

/// How a fetch starts: from the address that the package was resolved to; where it was not
/// resolved, it ends with the reason, before anything is asked for.
pub open spec fn started(endpoint: Seq<char>, resolved: Result<Seq<u8>, Seq<char>>) -> Result<
    ProgressModel,
    ErrorModel,
> {
    match resolved {
        Ok(package_id) => Ok(
            ProgressModel::Waiting(new_fetch(SourceModel { endpoint, package_id })),
        ),
        Err(reason) => Err(ErrorModel::Outside(reason)),
    }
}

/// The request whose reply a fetch waits for.
pub open spec fn pending_request(fetch: FetchModel) -> RequestModel {
    match fetch.stage {
        StageModel::Metadata => metadata_request(fetch.source.package_id),
        StageModel::Modules { after, .. } => modules_request(fetch.source.package_id, after),
        StageModel::Members { pause, .. } => members_request(
            fetch.source.package_id,
            pause.module.name,
            pause.connection,
            pause.after,
        ),
    }
}

/// A fetch that goes on waiting.
pub open spec fn waiting(source: SourceModel, stage: StageModel) -> Result<
    ProgressModel,
    ErrorModel,
> {
    Ok(ProgressModel::Waiting(FetchModel { source, stage }))
}

/// What follows from how far the reading of a module has come: once it is complete, the
/// modules of `page` from `index` on are read.
pub open spec fn after_module(
    source: SourceModel,
    package: PackageModel,
    page: JsonModel,
    index: nat,
    step: ModuleStepModel,
) -> Result<ProgressModel, ErrorModel>
    decreases page_nodes(page).len() - index, 1int,
{
    match step {
        ModuleStepModel::Refused(error) => Err(error),
        ModuleStepModel::Paused(pause) => waiting(
            source,
            StageModel::Members { package, page, index, pause },
        ),
        ModuleStepModel::Complete(module) => read_page(
            source,
            with_module(package, module),
            page,
            index,
        ),
    }
}

/// Reads the modules of `page` from `index` on. At its end the package is complete, or
/// the next page is due.
pub open spec fn read_page(
    source: SourceModel,
    package: PackageModel,
    page: JsonModel,
    index: nat,
) -> Result<ProgressModel, ErrorModel>
    decreases page_nodes(page).len() - index, 0int,
{
    let nodes = page_nodes(page);
    if index < nodes.len() {
        match nodes[index as int].at("name"@).text() {
            None => Err(ErrorModel::MissingModuleName),
            Some(name) => after_module(
                source,
                package,
                page,
                index + 1,
                open_connection(nodes[index as int], named_module(name), Connection::Structs),
            ),
        }
    } else if has_next_page(page) {
        waiting(source, StageModel::Modules { package, after: end_cursor(page) })
    } else {
        Ok(ProgressModel::Done(package))
    }
}

/// What the reply to the first request leads to.
pub open spec fn read_metadata(source: SourceModel, reply: JsonModel) -> Result<
    ProgressModel,
    ErrorModel,
> {
    let package = reply.at("data"@).at("package"@);
    if package == JsonModel::Null {
        Err(
            ErrorModel::PackageNotFound { address: source.package_id, endpoint: source.endpoint },
        )
    } else {
        match (package.at("version"@).unsigned(), package.at("typeOrigins"@).items()) {
            (None, _) => Err(ErrorModel::InvalidVersion(package.at("version"@))),
            (_, None) => Err(ErrorModel::InvalidTypeOrigins(package.at("typeOrigins"@))),
            (Some(version), Some(entries)) => waiting(
                source,
                StageModel::Modules {
                    package: PackageModel {
                        address: source.package_id,
                        version,
                        modules: Map::empty(),
                        type_origin_table: type_origins(entries),
                    },
                    after: JsonModel::Null,
                },
            ),
        }
    }
}

/// What another page of a connection leads to.
pub open spec fn read_members(
    source: SourceModel,
    package: PackageModel,
    page: JsonModel,
    index: nat,
    pause: PauseModel,
    members: JsonModel,
) -> Result<ProgressModel, ErrorModel> {
    let nodes = pause.nodes + page_nodes(members);
    match next_cursor(members, pause.module.name, pause.connection) {
        Err(error) => Err(error),
        Ok(Some(after)) => waiting(
            source,
            StageModel::Members {
                package,
                page,
                index,
                pause: PauseModel { nodes, after, ..pause },
            },
        ),
        Ok(None) => after_module(
            source,
            package,
            page,
            index,
            close_connection(pause.node, pause.module, pause.connection, nodes),
        ),
    }
}

/// What a reply leads to.
pub open spec fn progress(fetch: FetchModel, reply: JsonModel) -> Result<
    ProgressModel,
    ErrorModel,
> {
    match refusal(reply) {
        Some(errors) => Err(ErrorModel::GraphQl(errors)),
        None => match fetch.stage {
            StageModel::Metadata => read_metadata(fetch.source, reply),
            StageModel::Modules { package, .. } => read_page(
                fetch.source,
                package,
                reply.at("data"@).at("package"@).at("modules"@),
                0,
            ),
            StageModel::Members { package, page, index, pause } => read_members(
                fetch.source,
                package,
                page,
                index,
                pause,
                reply.at("data"@).at("package"@).at("module"@).at(pause.connection.key()),
            ),
        },
    }
}

/// A module of which more pages of a connection have to be asked for.
struct Pause {
    node: Json,
    module: Module,
    connection: Connection,
    nodes: Vec<Json>,
    after: String,
}

/// How far the reading of a module comes without another page.
enum ModuleStep {
    Complete(Module),
    Paused(Pause),
    Refused(Error),
}

/// What a fetch waits for.
enum Stage {
    Metadata,
    Modules { package: Package, after: Json },
    Members { package: Package, page: Json, index: usize, pause: Pause },
}

/// Where a package comes from.
struct Source {
    endpoint: String,
    package_id: Address,
}

/// The fetching of a package, between a request and its reply.
pub struct PackageFetch {
    source: Source,
    stage: Stage,
}

/// How far a fetch has come: it waits for a reply, or it has the package.
pub enum Progress {
    Waiting(PackageFetch),
    Done(Package),
}

impl View for Pause {
    type V = PauseModel;

    closed spec fn view(&self) -> PauseModel {
        PauseModel {
            node: self.node@,
            module: self.module@,
            connection: self.connection,
            nodes: models(self.nodes@),
            after: self.after@,
        }
    }
}

impl View for ModuleStep {
    type V = ModuleStepModel;

    closed spec fn view(&self) -> ModuleStepModel {
        match self {
            ModuleStep::Complete(module) => ModuleStepModel::Complete(module@),
            ModuleStep::Paused(pause) => ModuleStepModel::Paused(pause@),
            ModuleStep::Refused(error) => ModuleStepModel::Refused(error@),
        }
    }
}

impl View for Stage {
    type V = StageModel;

    closed spec fn view(&self) -> StageModel {
        match self {
            Stage::Metadata => StageModel::Metadata,
            Stage::Modules { package, after } => StageModel::Modules {
                package: package@,
                after: after@,
            },
            Stage::Members { package, page, index, pause } => StageModel::Members {
                package: package@,
                page: page@,
                index: *index as nat,
                pause: pause@,
            },
        }
    }
}

impl View for Source {
    type V = SourceModel;

    closed spec fn view(&self) -> SourceModel {
        SourceModel { endpoint: self.endpoint@, package_id: self.package_id@ }
    }
}

impl View for PackageFetch {
    type V = FetchModel;

    closed spec fn view(&self) -> FetchModel {
        FetchModel { source: self.source@, stage: self.stage@ }
    }
}

impl View for Progress {
    type V = ProgressModel;

    open spec fn view(&self) -> ProgressModel {
        match self {
            Progress::Waiting(fetch) => ProgressModel::Waiting(fetch@),
            Progress::Done(package) => ProgressModel::Done(package@),
        }
    }
}

impl View for MoveModuleProvider {
    type V = Seq<char>;

    closed spec fn view(&self) -> Seq<char> {
        self.network.gql@
    }
}

/// Refuses a reply in which the service says that something went wrong.
pub fn check_reply(reply: &Json) -> (result: Result<(), Error>)
    ensures
        match refusal(reply@) {
            Some(errors) => result matches Err(error) && error@ == ErrorModel::GraphQl(errors),
            None => result is Ok,
        },
{
    match reply.get("errors") {
        None => Ok(()),
        Some(errors) => if errors.is_null() {
            Ok(())
        } else {
            Err(Error::GraphQl(errors.clone()))
        },
    }
}

/// The nodes of a page.
fn nodes_of(page: &Json) -> (nodes: Vec<Json>)
    ensures
        models(nodes@) == page_nodes(page@),
{
    match page.at("nodes").as_array() {
        None => {
            let none: Vec<Json> = Vec::new();
            assert(models(none@) =~= seq![]);
            none
        },
        Some(nodes) => copy_items(nodes),
    }
}

/// Whether a page is followed by another one.
fn is_followed(page: &Json) -> (followed: bool)
    ensures
        followed == has_next_page(page@),
{
    match page.at("pageInfo").at("hasNextPage").as_bool() {
        Some(flag) => flag,
        None => false,
    }
}

/// What a search for the next cursor stands for.
spec fn cursor_model(result: Result<Option<String>, Error>) -> Result<
    Option<Seq<char>>,
    ErrorModel,
> {
    match result {
        Ok(Some(cursor)) => Ok(Some(cursor@)),
        Ok(None) => Ok(None),
        Err(error) => Err(error@),
    }
}

/// The cursor after which a connection goes on, where it does.
fn find_next_cursor(page: &Json, module: &str, connection: Connection) -> (result: Result<
    Option<String>,
    Error,
>)
    ensures
        cursor_model(result) == next_cursor(page@, module@, connection),
{
    if !is_followed(page) {
        return Ok(None);
    }
    match page.at("pageInfo").at("endCursor").as_str() {
        Some(cursor) => Ok(Some(cursor.to_owned())),
        None => Err(
            Error::MissingEndCursor {
                module: module.to_owned(),
                connection: connection.name().to_owned(),
            },
        ),
    }
}

/// Puts what all the nodes of a connection describe into a module.
fn fill_connection(module: Module, connection: Connection, nodes: &Vec<Json>) -> (result: Result<
    Module,
    Error,
>)
    ensures
        outcome(result) == with_members(module@, connection, models(nodes@)),
{
    let mut module: Module = module;
    match connection {
        Connection::Structs => match read_all(
            nodes,
            Struct::from_node,
            Ghost(|node: JsonModel| read_struct(node)),
        ) {
            Err(error) => {
                return Err(error);
            },
            Ok(structs) => {
                module.structs = structs;
            },
        },
        Connection::Enums => match read_all(
            nodes,
            Enum::from_node,
            Ghost(|node: JsonModel| read_enum(node)),
        ) {
            Err(error) => {
                return Err(error);
            },
            Ok(enums) => {
                module.enums = enums;
            },
        },
        Connection::Functions => match read_all(
            nodes,
            Function::from_node,
            Ghost(|node: JsonModel| read_function(node)),
        ) {
            Err(error) => {
                return Err(error);
            },
            Ok(functions) => {
                module.functions = functions;
            },
        },
    }
    Ok(module)
}

/// Collects a connection from its first page on.
fn collect_connection(node: &Json, module: Module, connection: Connection) -> (step: ModuleStep)
    ensures
        step@ == open_connection(node@, module@, connection),
    decreases connection.left(), 1int,
{
    let page: &Json = node.at(connection.name());
    let nodes: Vec<Json> = nodes_of(page);
    match find_next_cursor(page, module.name.as_str(), connection) {
        Err(error) => ModuleStep::Refused(error),
        Ok(Some(after)) => ModuleStep::Paused(
            Pause { node: node.clone(), module, connection, nodes, after },
        ),
        Ok(None) => finish_connection(node, module, connection, nodes),
    }
}

/// Goes on once all the nodes of a connection have arrived.
fn finish_connection(
    node: &Json,
    module: Module,
    connection: Connection,
    nodes: Vec<Json>,
) -> (step: ModuleStep)
    ensures
        step@ == close_connection(node@, module@, connection, models(nodes@)),
    decreases connection.left(), 0int,
{
    match fill_connection(module, connection, &nodes) {
        Err(error) => ModuleStep::Refused(error),
        Ok(module) => match connection {
            Connection::Structs => collect_connection(node, module, Connection::Enums),
            Connection::Enums => collect_connection(node, module, Connection::Functions),
            Connection::Functions => ModuleStep::Complete(module),
        },
    }
}

/// Puts one more entry into the table of type origins. An entry that lacks a name or a
/// valid address is skipped.
fn add_origin(table: &mut NameMap<NameMap<Address>>, entry: &Json)
    ensures
        origin_models(final(table)@) == with_origin(origin_models(old(table)@), entry@),
{
    let ghost before = table@;
    if let Some(module) = entry.at("module").as_str() {
        if let Some(datatype) = entry.at("struct").as_str() {
            if let Some(id) = entry.at("definingId").as_str() {
                if let Ok(address) = Address::from_str(id) {
                    let mut origins: NameMap<Address> = match table.remove(module) {
                        Some(origins) => origins,
                        None => NameMap::new(),
                    };
                    let ghost known = origins@;
                    origins.insert(datatype.to_owned(), address);
                    proof {
                        assert(address_models(origins@) =~= address_models(known).insert(
                            datatype@,
                            address@,
                        ));
                        if !before.contains_key(module@) {
                            assert(address_models(known) =~= Map::empty());
                        }
                    }
                    let ghost added = origins;
                    table.insert(module.to_owned(), origins);
                    proof {
                        assert(table@ =~= before.insert(module@, added));
                        assert(origin_models(table@) =~= origin_models(before).insert(
                            module@,
                            address_models(added@),
                        ));
                    }
                }
            }
        }
    }
}

/// Makes up the table of type origins.
fn collect_origins(entries: &Vec<Json>) -> (table: NameMap<NameMap<Address>>)
    ensures
        origin_models(table@) == type_origins(models(entries@)),
{
    let mut table: NameMap<NameMap<Address>> = NameMap::new();
    let mut i: usize = 0;
    assert(origin_models(table@) =~= Map::empty());
    while i < entries.len()
        invariant
            i <= entries@.len(),
            origin_models(table@) == type_origins(models(entries@).take(i as int)),
        decreases entries@.len() - i,
    {
        proof {
            let listed = models(entries@).take(i + 1);
            assert(listed.drop_last() =~= models(entries@).take(i as int));
            assert(listed.last() == entries@[i as int]@);
        }
        add_origin(&mut table, &entries[i]);
        i += 1;
    }
    assert(models(entries@).take(i as int) =~= models(entries@));
    table
}

/// Puts a module into a package.
fn add_module(package: Package, module: Module) -> (result: Package)
    ensures
        result@ == with_module(package@, module@),
{
    let mut package: Package = package;
    let ghost before = package.modules@;
    package.modules.insert(module.name.clone(), module);
    proof {
        assert(module_models(package.modules@) =~= module_models(before).insert(
            module@.name,
            module@,
        ));
    }
    package
}

/// Reads the modules of a page from `index` on.
fn read_modules(source: Source, package: Package, page: Json, index: usize) -> (result: Result<
    Progress,
    Error,
>)
    ensures
        outcome(result) == read_page(source@, package@, page@, index as nat),
{
    let ghost due = read_page(source@, package@, page@, index as nat);
    let mut built: Package = package;
    let mut next: usize = index;
    if let Some(nodes) = page.at("nodes").as_array() {
        while next < nodes.len()
            invariant
                page_nodes(page@) == models(nodes@),
                due == read_page(source@, package@, page@, index as nat),
                due == read_page(source@, built@, page@, next as nat),
            decreases nodes@.len() - next,
        {
            let node: &Json = &nodes[next];
            assert(page_nodes(page@)[next as int] == node@);
            let name: String = match node.at("name").as_str() {
                None => {
                    return Err(Error::MissingModuleName);
                },
                Some(name) => name.to_owned(),
            };
            let module: Module = Module {
                name,
                structs: Vec::new(),
                enums: Vec::new(),
                functions: Vec::new(),
            };
            proof {
                assert(module@.structs =~= seq![]);
                assert(module@.enums =~= seq![]);
                assert(module@.functions =~= seq![]);
            }
            next += 1;
            match collect_connection(node, module, Connection::Structs) {
                ModuleStep::Refused(error) => {
                    return Err(error);
                },
                ModuleStep::Paused(pause) => {
                    return Ok(
                        Progress::Waiting(
                            PackageFetch {
                                source,
                                stage: Stage::Members { package: built, page, index: next, pause },
                            },
                        ),
                    );
                },
                ModuleStep::Complete(module) => {
                    built = add_module(built, module);
                },
            }
        }
    }
    if is_followed(&page) {
        let after: Json = page.at("pageInfo").at("endCursor").clone();
        Ok(
            Progress::Waiting(
                PackageFetch { source, stage: Stage::Modules { package: built, after } },
            ),
        )
    } else {
        Ok(Progress::Done(built))
    }
}

/// Reads the reply to the first request.
fn open_package(source: Source, reply: &Json) -> (result: Result<Progress, Error>)
    ensures
        outcome(result) == read_metadata(source@, reply@),
{
    let value: &Json = reply.at("data").at("package");
    if value.is_null() {
        return Err(
            Error::PackageNotFound { address: source.package_id, endpoint: source.endpoint },
        );
    }
    let version: u64 = match value.at("version").as_u64() {
        None => {
            return Err(Error::InvalidVersion(value.at("version").clone()));
        },
        Some(version) => version,
    };
    let type_origin_table: NameMap<NameMap<Address>> = match value.at("typeOrigins").as_array() {
        None => {
            return Err(Error::InvalidTypeOrigins(value.at("typeOrigins").clone()));
        },
        Some(entries) => collect_origins(entries),
    };
    let package: Package = Package {
        address: source.package_id,
        version,
        modules: NameMap::new(),
        type_origin_table,
    };
    assert(package@.modules =~= Map::empty());
    Ok(
        Progress::Waiting(
            PackageFetch { source, stage: Stage::Modules { package, after: Json::Null } },
        ),
    )
}

/// Reads another page of a connection.
fn fetch_remaining(
    source: Source,
    package: Package,
    page: Json,
    index: usize,
    pause: Pause,
    members: &Json,
) -> (result: Result<Progress, Error>)
    ensures
        outcome(result) == read_members(
            source@,
            package@,
            page@,
            index as nat,
            pause@,
            members@,
        ),
{
    let Pause { node, module, connection, nodes, after: _ } = pause;
    let mut nodes: Vec<Json> = nodes;
    let ghost arrived = models(nodes@);
    let mut more: Vec<Json> = nodes_of(members);
    let ghost fresh = more@;
    nodes.append(&mut more);
    assert(models(nodes@) =~= arrived + models(fresh));
    match find_next_cursor(members, module.name.as_str(), connection) {
        Err(error) => Err(error),
        Ok(Some(after)) => Ok(
            Progress::Waiting(
                PackageFetch {
                    source,
                    stage: Stage::Members {
                        package,
                        page,
                        index,
                        pause: Pause { node, module, connection, nodes, after },
                    },
                },
            ),
        ),
        Ok(None) => match finish_connection(&node, module, connection, nodes) {
            ModuleStep::Refused(error) => Err(error),
            ModuleStep::Paused(pause) => Ok(
                Progress::Waiting(
                    PackageFetch { source, stage: Stage::Members { package, page, index, pause } },
                ),
            ),
            ModuleStep::Complete(module) => read_modules(
                source,
                add_module(package, module),
                page,
                index,
            ),
        },
    }
}

impl MoveModuleProvider {
    /// A provider of the packages of `network`.
    pub fn new(network: SuiNetwork) -> (provider: Self)
        ensures
            provider@ == network.gql@,
    {
        MoveModuleProvider { network }
    }

    /// The endpoint that is asked.
    pub fn endpoint(&self) -> (endpoint: &str)
        ensures
            endpoint@ == self@,
    {
        self.network.gql()
    }

    /// Starts to fetch the package at `package_id`.
    pub fn fetch_package(&self, package_id: Address) -> (fetch: PackageFetch)
        ensures
            fetch@ == new_fetch(SourceModel { endpoint: self@, package_id: package_id@ }),
    {
        PackageFetch {
            source: Source { endpoint: self.network.gql().to_owned(), package_id },
            stage: Stage::Metadata,
        }
    }

    /// Starts to fetch a package from what it was resolved to: its address, or the reason
    /// why it has none.
    pub fn start(&self, resolved: Result<Address, String>) -> (result: Result<Progress, Error>)
        ensures
            outcome(result) == started(
                self@,
                (match resolved {
                    Ok(package_id) => Ok(package_id@),
                    Err(reason) => Err(reason@),
                }),
            ),
    {
        match resolved {
            Ok(package_id) => Ok(Progress::Waiting(self.fetch_package(package_id))),
            Err(reason) => Err(Error::Outside(reason)),
        }
    }
}

impl PackageFetch {
    /// The request whose reply is waited for.
    pub fn request(&self) -> (request: Request)
        ensures
            request@ == pending_request(self@),
    {
        match &self.stage {
            Stage::Metadata => Request::metadata(&self.source.package_id),
            Stage::Modules { package: _, after } => Request::modules(
                &self.source.package_id,
                after,
            ),
            Stage::Members { package: _, page: _, index: _, pause } => Request::members(
                &self.source.package_id,
                pause.module.name.as_str(),
                pause.connection,
                pause.after.as_str(),
            ),
        }
    }

    /// Goes on with the reply to the request.
    pub fn resume(self, reply: &Json) -> (result: Result<Progress, Error>)
        ensures
            outcome(result) == progress(self@, reply@),
    {
        if let Err(error) = check_reply(reply) {
            return Err(error);
        }
        let PackageFetch { source, stage } = self;
        match stage {
            Stage::Metadata => open_package(source, reply),
            Stage::Modules { package, after: _ } => read_modules(
                source,
                package,
                reply.at("data").at("package").at("modules").clone(),
                0,
            ),
            Stage::Members { package, page, index, pause } => {
                let members: &Json = reply.at("data").at("package").at("module").at(
                    pause.connection.name(),
                );
                fetch_remaining(source, package, page, index, pause, members)
            },
        }
    }
}

/// Whether every module of a package stands under its own name.
pub open spec fn well_named(package: PackageModel) -> bool {
    forall|name: Seq<char>| #[trigger]
        package.modules.contains_key(name) ==> package.modules[name].name == name
}

/// What holds of a package from its first reply on: it is the package that was asked
/// for, and its modules stand under their own names.
pub open spec fn sound_package(source: SourceModel, package: PackageModel) -> bool {
    &&& package.address == source.package_id
    &&& well_named(package)
}

/// What holds of a fetch in every stage.
pub open spec fn sound_fetch(fetch: FetchModel) -> bool {
    match fetch.stage {
        StageModel::Metadata => true,
        StageModel::Modules { package, .. } => sound_package(fetch.source, package),
        StageModel::Members { package, .. } => sound_package(fetch.source, package),
    }
}

/// What holds of whatever a reply leads to.
pub open spec fn sound_progress(
    source: SourceModel,
    progress: Result<ProgressModel, ErrorModel>,
) -> bool {
    match progress {
        Err(_) => true,
        Ok(ProgressModel::Waiting(fetch)) => fetch.source == source && sound_fetch(fetch),
        Ok(ProgressModel::Done(package)) => sound_package(source, package),
    }
}

/// Reading the modules of a page keeps a package sound.
proof fn lemma_page_sound(
    source: SourceModel,
    package: PackageModel,
    page: JsonModel,
    index: nat,
)
    requires
        sound_package(source, package),
    ensures
        sound_progress(source, read_page(source, package, page, index)),
    decreases page_nodes(page).len() - index,
{
    let nodes = page_nodes(page);
    if index < nodes.len() {
        if let Some(name) = nodes[index as int].at("name"@).text() {
            if let ModuleStepModel::Complete(module) = open_connection(
                nodes[index as int],
                named_module(name),
                Connection::Structs,
            ) {
                lemma_page_sound(source, with_module(package, module), page, index + 1);
            }
        }
    }
}

/// A fetch starts sound and stays sound, whatever the replies: it goes on asking the same
/// source, and the package it ends with is the one that was asked for, with every
/// module under its own name.
pub proof fn law_fetch_stays_sound(fetch: FetchModel, reply: JsonModel)
    ensures
        sound_fetch(new_fetch(fetch.source)),
        sound_fetch(fetch) ==> sound_progress(fetch.source, progress(fetch, reply)),
{
    if sound_fetch(fetch) {
        match fetch.stage {
            StageModel::Metadata => {},
            StageModel::Modules { package, .. } => {
                lemma_page_sound(
                    fetch.source,
                    package,
                    reply.at("data"@).at("package"@).at("modules"@),
                    0,
                );
            },
            StageModel::Members { package, page, index, pause } => {
                let members = reply.at("data"@).at("package"@).at("module"@).at(
                    pause.connection.key(),
                );
                let nodes = pause.nodes + page_nodes(members);
                if let ModuleStepModel::Complete(module) = close_connection(
                    pause.node,
                    pause.module,
                    pause.connection,
                    nodes,
                ) {
                    lemma_page_sound(fetch.source, with_module(package, module), page, index);
                }
            },
        }
    }
}

/// The package that a fetch has so far, once its first reply has arrived.
pub open spec fn package_so_far(fetch: FetchModel) -> Option<PackageModel> {
    match fetch.stage {
        StageModel::Metadata => None,
        StageModel::Modules { package, .. } => Some(package),
        StageModel::Members { package, .. } => Some(package),
    }
}

/// Whether a package has the metadata of another one and at least its modules' names.
pub open spec fn extends(before: PackageModel, after: PackageModel) -> bool {
    &&& after.address == before.address
    &&& after.version == before.version
    &&& after.type_origin_table == before.type_origin_table
    &&& before.modules.dom().subset_of(after.modules.dom())
}

/// Whether what a reply leads to extends a package.
pub open spec fn extends_to(
    before: PackageModel,
    progress: Result<ProgressModel, ErrorModel>,
) -> bool {
    match progress {
        Err(_) => true,
        Ok(ProgressModel::Waiting(fetch)) => package_so_far(fetch) matches Some(after) && extends(
            before,
            after,
        ),
        Ok(ProgressModel::Done(after)) => extends(before, after),
    }
}

/// Reading the modules of a page extends a package.
proof fn lemma_page_extends(
    before: PackageModel,
    source: SourceModel,
    package: PackageModel,
    page: JsonModel,
    index: nat,
)
    requires
        extends(before, package),
    ensures
        extends_to(before, read_page(source, package, page, index)),
    decreases page_nodes(page).len() - index,
{
    let nodes = page_nodes(page);
    if index < nodes.len() {
        if let Some(name) = nodes[index as int].at("name"@).text() {
            if let ModuleStepModel::Complete(module) = open_connection(
                nodes[index as int],
                named_module(name),
                Connection::Structs,
            ) {
                lemma_page_extends(before, source, with_module(package, module), page, index + 1);
            }
        }
    }
}

/// The first reply decides the version and the type origins of a package: no later reply
/// changes them, or takes a module away, whatever it holds.
pub proof fn law_metadata_is_kept(fetch: FetchModel, reply: JsonModel)
    ensures
        package_so_far(fetch) matches Some(before) ==> extends_to(before, progress(fetch, reply)),
{
    match fetch.stage {
        StageModel::Metadata => {},
        StageModel::Modules { package, .. } => {
            let page = reply.at("data"@).at("package"@).at("modules"@);
            lemma_page_extends(package, fetch.source, package, page, 0);
        },
        StageModel::Members { package, page, index, pause } => {
            let members = reply.at("data"@).at("package"@).at("module"@).at(
                pause.connection.key(),
            );
            let nodes = pause.nodes + page_nodes(members);
            if let ModuleStepModel::Complete(module) = close_connection(
                pause.node,
                pause.module,
                pause.connection,
                nodes,
            ) {
                let grown = with_module(package, module);
                lemma_page_extends(package, fetch.source, grown, page, index);
            }
        },
    }
}

/// The address that an entry gives as the origin of a datatype of a module.
pub open spec fn named_origin(
    entry: JsonModel,
    module: Seq<char>,
    datatype: Seq<char>,
) -> Option<Seq<u8>> {
    match entry.at("definingId"@).text() {
        Some(id) => if entry.at("module"@).text() == Some(module) && entry.at("struct"@).text()
            == Some(datatype) && spells_address(id) {
            Some(spelled_address(id))
        } else {
            None
        },
        None => None,
    }
}

/// The origin of a datatype of a module in a table.
pub open spec fn origin_in(
    table: Map<Seq<char>, Map<Seq<char>, Seq<u8>>>,
    module: Seq<char>,
    datatype: Seq<char>,
) -> Option<Seq<u8>> {
    if table.contains_key(module) && table[module].contains_key(datatype) {
        Some(table[module][datatype])
    } else {
        None
    }
}

/// The origin of a datatype is the one that the last entry for it gives; entries with
/// something missing or with an invalid address count for nothing.
pub proof fn law_last_origin_counts(
    entries: Seq<JsonModel>,
    module: Seq<char>,
    datatype: Seq<char>,
)
    ensures
        match origin_in(type_origins(entries), module, datatype) {
            None => forall|i: int|
                0 <= i < entries.len() ==> named_origin(
                    #[trigger] entries[i],
                    module,
                    datatype,
                ) is None,
            Some(address) => exists|i: int|
                0 <= i < entries.len() && named_origin(#[trigger] entries[i], module, datatype)
                    == Some(address) && forall|j: int|
                    i < j < entries.len() ==> named_origin(
                        #[trigger] entries[j],
                        module,
                        datatype,
                    ) is None,
        },
    decreases entries.len(),
{
    if entries.len() > 0 {
        let front = entries.drop_last();
        let last = entries.len() - 1;
        law_last_origin_counts(front, module, datatype);
        assert(entries[last] == entries.last());
        match named_origin(entries.last(), module, datatype) {
            Some(address) => {
                assert(origin_in(type_origins(entries), module, datatype) == Some(address));
            },
            None => {
                assert(origin_in(type_origins(entries), module, datatype) == origin_in(
                    type_origins(front),
                    module,
                    datatype,
                ));
                match origin_in(type_origins(front), module, datatype) {
                    None => {
                        assert forall|i: int| 0 <= i < entries.len() implies named_origin(
                            #[trigger] entries[i],
                            module,
                            datatype,
                        ) is None by {
                            if i < last {
                                assert(front[i] == entries[i]);
                            }
                        }
                    },
                    Some(address) => {
                        let i = choose|i: int|
                            0 <= i < front.len() && named_origin(
                                #[trigger] front[i],
                                module,
                                datatype,
                            ) == Some(address) && forall|j: int|
                                i < j < front.len() ==> named_origin(
                                    #[trigger] front[j],
                                    module,
                                    datatype,
                                ) is None;
                        assert(entries[i] == front[i]);
                        assert forall|j: int| i < j < entries.len() implies named_origin(
                            #[trigger] entries[j],
                            module,
                            datatype,
                        ) is None by {
                            if j < last {
                                assert(front[j] == entries[j]);
                            }
                        }
                    },
                }
            },
        }
    }
}

} // verus!
