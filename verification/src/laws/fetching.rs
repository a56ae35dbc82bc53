//! The fetching of a package, said of the replies and of the package that comes out.

use vstd::prelude::*;

use crate::address::{spelled_address, spells_address};
use crate::contents::{
    is_called, last_describes, lemma_turned_by_none, lemma_turned_by_one, lemma_turned_join, names,
    turned_into, Description,
};
use crate::error::ErrorModel;
use crate::json::{JsonModel, NumberModel};
use crate::laws::reading::lemma_collected_one_for_one;
use crate::normalized::{
    read_enum, read_function, read_struct, EnumModel, FunctionModel, ModuleModel, PackageModel,
    StructModel,
};
use crate::package_provider::{
    close_connection, end_cursor, has_next_page, named_module, new_fetch, next_cursor,
    open_connection, page_nodes, progress, read_page, refusal, started, type_origins,
    with_members, with_module, FetchModel, ModuleStepModel, PauseModel,
    ProgressModel, SourceModel, StageModel,
};
use crate::request::Connection;

verus! {

/// The nodes of a page are the items of its `nodes`, all of them and in their order; a page
/// whose `nodes` are no array has none.
pub proof fn law_page_nodes(page: JsonModel)
    ensures
        !(page.at("nodes"@) is Array) ==> page_nodes(page).len() == 0,
        page.at("nodes"@) matches JsonModel::Array(items) ==> {
            &&& page_nodes(page).len() == items.len()
            &&& forall|i: int| 0 <= i < items.len() ==> #[trigger] page_nodes(page)[i] == items[i]
        },
{
}

/// A page is followed by another exactly if it says so. A connection that goes on goes on
/// after the cursor at the end of its page, which has to be a text.
pub proof fn law_next_page(
    page: JsonModel,
    module: Seq<char>,
    connection: Connection,
    cursor: Seq<char>,
)
    ensures
        has_next_page(page) <==> page.at("pageInfo"@).at("hasNextPage"@) == JsonModel::Bool(true),
        end_cursor(page) == page.at("pageInfo"@).at("endCursor"@),
        page.at("pageInfo"@).at("hasNextPage"@) != JsonModel::Bool(true) ==> next_cursor(
            page,
            module,
            connection,
        ) == Ok::<Option<Seq<char>>, ErrorModel>(None),
        page.at("pageInfo"@).at("hasNextPage"@) == JsonModel::Bool(true) && page.at(
            "pageInfo"@,
        ).at("endCursor"@) == JsonModel::Text(cursor) ==> next_cursor(page, module, connection)
            == Ok::<Option<Seq<char>>, ErrorModel>(Some(cursor)),
        page.at("pageInfo"@).at("hasNextPage"@) == JsonModel::Bool(true) && !(page.at(
            "pageInfo"@,
        ).at("endCursor"@) is Text) ==> next_cursor(page, module, connection) == Err::<
            Option<Seq<char>>,
            ErrorModel,
        >(ErrorModel::MissingEndCursor { module, connection: connection.key() }),
{
}

/// A reply is refused exactly if it has errors that are not null, and then with them.
pub proof fn law_refusal(reply: JsonModel, errors: JsonModel)
    ensures
        refusal(reply) == Some(errors) <==> (reply matches JsonModel::Object(members)
            && members.contains_key("errors"@) && members["errors"@] == errors && errors
            != JsonModel::Null),
        refusal(reply) is None && reply is Object ==> (reply->Object_0.contains_key("errors"@)
            ==> reply->Object_0["errors"@] == JsonModel::Null),
{
}

/// A reply with errors ends a fetch with them, at whatever stage it is.
pub proof fn law_refused_reply_ends_the_fetch(
    fetch: FetchModel,
    members: Map<Seq<char>, JsonModel>,
)
    requires
        members.contains_key("errors"@),
        members["errors"@] != JsonModel::Null,
    ensures
        progress(fetch, JsonModel::Object(members)) == Err::<ProgressModel, ErrorModel>(
            ErrorModel::GraphQl(members["errors"@]),
        ),
{
}

/// A fetch starts at the address that the package was resolved to, and without one it ends
/// with the reason.
pub proof fn law_start(endpoint: Seq<char>, package_id: Seq<u8>, reason: Seq<char>)
    ensures
        started(endpoint, Ok(package_id)) matches Ok(ProgressModel::Waiting(fetch)) && {
            &&& fetch.source.endpoint == endpoint
            &&& fetch.source.package_id == package_id
            &&& fetch.stage is Metadata
        },
        started(endpoint, Err(reason)) == Err::<ProgressModel, ErrorModel>(
            ErrorModel::Outside(reason),
        ),
{
}

/// From the first reply a package has its address, its version and its type origins, and no
/// modules yet; the first page of modules is then waited for. A package that is null is not
/// found; a version that is no unsigned integer is refused, and then type origins that are
/// no array.
pub proof fn law_first_reply(source: SourceModel, reply: JsonModel)
    requires
        refusal(reply) is None,
    ensures
        ({
            let data = reply.at("data"@).at("package"@);
            match progress(new_fetch(source), reply) {
                Ok(ProgressModel::Done(_)) => false,
                Ok(ProgressModel::Waiting(fetch)) => {
                    &&& data != JsonModel::Null
                    &&& fetch.source == source
                    &&& fetch.stage matches StageModel::Modules { package, after }
                    &&& after == JsonModel::Null
                    &&& package.address == source.package_id
                    &&& data.at("version"@) == JsonModel::Number(
                        NumberModel::Unsigned(package.version),
                    )
                    &&& package.modules == Map::<Seq<char>, ModuleModel>::empty()
                    &&& data.at("typeOrigins"@) matches JsonModel::Array(entries)
                    &&& package.type_origin_table == type_origins(entries)
                },
                Err(error) => if data == JsonModel::Null {
                    error == (ErrorModel::PackageNotFound {
                        address: source.package_id,
                        endpoint: source.endpoint,
                    })
                } else if !(data.at("version"@) matches JsonModel::Number(
                    NumberModel::Unsigned(_),
                )) {
                    error == ErrorModel::InvalidVersion(data.at("version"@))
                } else {
                    &&& !(data.at("typeOrigins"@) is Array)
                    &&& error == ErrorModel::InvalidTypeOrigins(data.at("typeOrigins"@))
                },
            }
        }),
{
}

/// An entry with texts for a module, a datatype and an address sets the origin of that
/// datatype, and leaves every other origin alone.
pub proof fn law_origin_is_set(
    entries: Seq<JsonModel>,
    entry: JsonModel,
    module: Seq<char>,
    datatype: Seq<char>,
    id: Seq<char>,
    other: Seq<char>,
    another: Seq<char>,
)
    requires
        entry.at("module"@) == JsonModel::Text(module),
        entry.at("struct"@) == JsonModel::Text(datatype),
        entry.at("definingId"@) == JsonModel::Text(id),
        spells_address(id),
    ensures
        ({
            let before = type_origins(entries);
            let after = type_origins(entries.push(entry));
            &&& after.contains_key(module)
            &&& after[module].contains_key(datatype)
            &&& after[module][datatype] == spelled_address(id)
            &&& other != module ==> (after.contains_key(other) <==> before.contains_key(other))
            &&& other != module && before.contains_key(other) ==> after[other] == before[other]
            &&& another != datatype ==> (after[module].contains_key(another) <==> (
            before.contains_key(module) && before[module].contains_key(another)))
            &&& another != datatype && before.contains_key(module)
                && before[module].contains_key(another) ==> after[module][another]
                == before[module][another]
        }),
{
    assert(entries.push(entry).drop_last() =~= entries);
}

/// An entry in which one of the three texts is missing, or that has no valid address, changes
/// nothing; without entries there are no origins.
pub proof fn law_origin_is_skipped(entries: Seq<JsonModel>, entry: JsonModel, id: Seq<char>)
    requires
        !(entry.at("module"@) is Text) || !(entry.at("struct"@) is Text) || !(entry.at(
            "definingId"@,
        ) is Text) || (entry.at("definingId"@) == JsonModel::Text(id) && !spells_address(id)),
    ensures
        type_origins(entries.push(entry)) == type_origins(entries),
        type_origins(seq![]) == Map::<Seq<char>, Map<Seq<char>, Seq<u8>>>::empty(),
{
    assert(entries.push(entry).drop_last() =~= entries);
}

/// The members of a connection are one for each of its nodes, in their order, and the rest
/// of the module stays; the first node that is refused decides where one is.
pub proof fn law_members_are_read(module: ModuleModel, nodes: Seq<JsonModel>)
    ensures
        match with_members(module, Connection::Structs, nodes) {
            Ok(filled) => {
                &&& filled.name == module.name
                &&& filled.enums == module.enums
                &&& filled.functions == module.functions
                &&& filled.structs.len() == nodes.len()
                &&& forall|i: int|
                    0 <= i < nodes.len() ==> read_struct(#[trigger] nodes[i]) == Ok::<
                        StructModel,
                        ErrorModel,
                    >(filled.structs[i])
            },
            Err(error) => exists|i: int|
                0 <= i < nodes.len() && read_struct(#[trigger] nodes[i]) == Err::<
                    StructModel,
                    ErrorModel,
                >(error) && forall|j: int| 0 <= j < i ==> read_struct(#[trigger] nodes[j]) is Ok,
        },
        match with_members(module, Connection::Enums, nodes) {
            Ok(filled) => {
                &&& filled.name == module.name
                &&& filled.structs == module.structs
                &&& filled.functions == module.functions
                &&& filled.enums.len() == nodes.len()
                &&& forall|i: int|
                    0 <= i < nodes.len() ==> read_enum(#[trigger] nodes[i]) == Ok::<
                        EnumModel,
                        ErrorModel,
                    >(filled.enums[i])
            },
            Err(error) => exists|i: int|
                0 <= i < nodes.len() && read_enum(#[trigger] nodes[i]) == Err::<
                    EnumModel,
                    ErrorModel,
                >(error) && forall|j: int| 0 <= j < i ==> read_enum(#[trigger] nodes[j]) is Ok,
        },
        match with_members(module, Connection::Functions, nodes) {
            Ok(filled) => {
                &&& filled.name == module.name
                &&& filled.structs == module.structs
                &&& filled.enums == module.enums
                &&& filled.functions.len() == nodes.len()
                &&& forall|i: int|
                    0 <= i < nodes.len() ==> read_function(#[trigger] nodes[i]) == Ok::<
                        FunctionModel,
                        ErrorModel,
                    >(filled.functions[i])
            },
            Err(error) => exists|i: int|
                0 <= i < nodes.len() && read_function(#[trigger] nodes[i]) == Err::<
                    FunctionModel,
                    ErrorModel,
                >(error) && forall|j: int| 0 <= j < i ==> read_function(#[trigger] nodes[j]) is Ok,
        },
{
    lemma_collected_one_for_one(
        nodes,
        |node: JsonModel| read_struct(node),
    );
    lemma_collected_one_for_one(nodes, |node: JsonModel| read_enum(node));
    lemma_collected_one_for_one(
        nodes,
        |node: JsonModel| read_function(node),
    );
}

/// A module of a page without a name ends the fetch. At the end of a page the package is
/// complete, or the page after the cursor is waited for where the page says that there is
/// one.
pub proof fn law_ends_of_a_page(
    source: SourceModel,
    package: PackageModel,
    page: JsonModel,
    items: Seq<JsonModel>,
    index: nat,
)
    requires
        page.at("nodes"@) == JsonModel::Array(items) || (!(page.at("nodes"@) is Array)
            && items.len() == 0),
    ensures
        index < items.len() && !(items[index as int].at("name"@) is Text) ==> read_page(
            source,
            package,
            page,
            index,
        ) == Err::<ProgressModel, ErrorModel>(ErrorModel::MissingModuleName),
        index >= items.len() && page.at("pageInfo"@).at("hasNextPage"@) != JsonModel::Bool(true)
            ==> read_page(source, package, page, index) == Ok::<ProgressModel, ErrorModel>(
            ProgressModel::Done(package),
        ),
        index >= items.len() && page.at("pageInfo"@).at("hasNextPage"@) == JsonModel::Bool(true)
            ==> (read_page(source, package, page, index) matches Ok(ProgressModel::Waiting(fetch))
            && fetch.source == source && (fetch.stage matches StageModel::Modules {
            package: kept,
            after,
        } && kept == package && after == page.at("pageInfo"@).at("endCursor"@))),
{
    assert(page_nodes(page) =~= items);
}

/// A module of a page is read from its own node, starting with nothing but its name: where it
/// is refused, so is the package; where a page is missing, it is waited for, and the next
/// module is remembered; where it is complete, it stands under its name in the package, in
/// place of another of that name, the other modules and the metadata stay, and the page is
/// read on behind it.
pub proof fn law_next_module_of_a_page(
    source: SourceModel,
    package: PackageModel,
    grown: PackageModel,
    page: JsonModel,
    items: Seq<JsonModel>,
    index: nat,
    name: Seq<char>,
    named: ModuleModel,
)
    requires
        page.at("nodes"@) == JsonModel::Array(items),
        index < items.len(),
        items[index as int].at("name"@) == JsonModel::Text(name),
        named.name == name,
        named.structs.len() == 0,
        named.enums.len() == 0,
        named.functions.len() == 0,
    ensures
        match open_connection(items[index as int], named, Connection::Structs) {
            ModuleStepModel::Refused(error) => read_page(source, package, page, index) == Err::<
                ProgressModel,
                ErrorModel,
            >(error),
            ModuleStepModel::Paused(pause) => {
                &&& read_page(source, package, page, index) matches Ok(ProgressModel::Waiting(
                    fetch,
                ))
                &&& fetch.source == source
                &&& fetch.stage == (StageModel::Members {
                    package,
                    page,
                    index: index + 1,
                    pause,
                })
            },
            ModuleStepModel::Complete(module) => grown.address == package.address && grown.version
                == package.version && grown.type_origin_table == package.type_origin_table
                && grown.modules == package.modules.insert(module.name, module) ==> read_page(
                source,
                package,
                page,
                index,
            ) == read_page(source, grown, page, index + 1),
        },
{
    reveal_with_fuel(read_page, 2);
    assert(named.structs =~= seq![] && named.enums =~= seq![] && named.functions =~= seq![]);
    assert(named == named_module(name));
    if let ModuleStepModel::Complete(module) = open_connection(
        items[index as int],
        named,
        Connection::Structs,
    ) {
        if grown.modules == package.modules.insert(module.name, module) && grown.address
            == package.address && grown.version == package.version && grown.type_origin_table
            == package.type_origin_table {
            assert(grown == with_module(package, module));
        }
    }
}

/// A connection starts with all the nodes on the page in the node of its module. Where that
/// page says that another follows, the module is paused with these nodes and the cursor.
/// Where it does not, they are all the nodes, and the next connection is read, or the module
/// is complete.
pub proof fn law_connection_is_opened(
    node: JsonModel,
    module: ModuleModel,
    connection: Connection,
    key: Seq<char>,
    items: Seq<JsonModel>,
    cursor: Seq<char>,
)
    requires
        connection is Structs ==> key == "structs"@,
        connection is Enums ==> key == "enums"@,
        connection is Functions ==> key == "functions"@,
        node.at(key).at("nodes"@) == JsonModel::Array(items) || (!(node.at(key).at(
            "nodes"@,
        ) is Array) && items.len() == 0),
    ensures
        ({
            let step = open_connection(node, module, connection);
            let follows = node.at(key).at("pageInfo"@).at("hasNextPage"@) == JsonModel::Bool(true);
            let end = node.at(key).at("pageInfo"@).at("endCursor"@);
            &&& follows && end == JsonModel::Text(cursor) ==> step == ModuleStepModel::Paused(
                PauseModel { node, module, connection, nodes: items, after: cursor },
            )
            &&& follows && !(end is Text) ==> step == ModuleStepModel::Refused(
                ErrorModel::MissingEndCursor { module: module.name, connection: key },
            )
            &&& !follows ==> step == close_connection(node, module, connection, items)
        }),
{
    assert(page_nodes(node.at(key)) =~= items);
}

/// Once all its nodes are there a connection is read: the next one is opened behind the
/// structs and behind the enums, and behind the functions the module is complete. Nodes that
/// are refused refuse the module.
pub proof fn law_connection_is_closed(
    node: JsonModel,
    module: ModuleModel,
    connection: Connection,
    nodes: Seq<JsonModel>,
)
    ensures
        ({
            let step = close_connection(node, module, connection, nodes);
            match with_members(module, connection, nodes) {
                Err(error) => step == ModuleStepModel::Refused(error),
                Ok(filled) => {
                    &&& connection is Structs ==> step == open_connection(
                        node,
                        filled,
                        Connection::Enums,
                    )
                    &&& connection is Enums ==> step == open_connection(
                        node,
                        filled,
                        Connection::Functions,
                    )
                    &&& connection is Functions ==> step == ModuleStepModel::Complete(filled)
                },
            }
        }),
{
    reveal_with_fuel(open_connection, 2);
    reveal_with_fuel(close_connection, 2);
}

/// A reply with a page of modules is read from its first module on.
pub proof fn law_page_of_modules_arrives(
    source: SourceModel,
    package: PackageModel,
    after: JsonModel,
    reply: JsonModel,
)
    requires
        refusal(reply) is None,
    ensures
        progress(FetchModel { source, stage: StageModel::Modules { package, after } }, reply)
            == read_page(source, package, reply.at("data"@).at("package"@).at("modules"@), 0),
{
}

/// A reply with another page of a connection adds all the items of that page behind the nodes
/// that were there. Where another page follows, it is waited for, with nothing else changed.
/// Where none follows, the connection has all its nodes; where the module is then refused,
/// paused or complete, so it goes for the package, and the page of modules is read on where
/// it was left.
pub proof fn law_page_of_a_connection_arrives(
    source: SourceModel,
    package: PackageModel,
    grown: PackageModel,
    page: JsonModel,
    index: nat,
    pause: PauseModel,
    reply: JsonModel,
    key: Seq<char>,
    items: Seq<JsonModel>,
    cursor: Seq<char>,
)
    requires
        refusal(reply) is None,
        pause.connection is Structs ==> key == "structs"@,
        pause.connection is Enums ==> key == "enums"@,
        pause.connection is Functions ==> key == "functions"@,
        ({
            let members = reply.at("data"@).at("package"@).at("module"@).at(key);
            members.at("nodes"@) == JsonModel::Array(items) || (!(members.at("nodes"@) is Array)
                && items.len() == 0)
        }),
    ensures
        ({
            let members = reply.at("data"@).at("package"@).at("module"@).at(key);
            let follows = members.at("pageInfo"@).at("hasNextPage"@) == JsonModel::Bool(true);
            let end = members.at("pageInfo"@).at("endCursor"@);
            let next = progress(
                FetchModel { source, stage: StageModel::Members { package, page, index, pause } },
                reply,
            );
            &&& follows && end == JsonModel::Text(cursor) ==> next == Ok::<
                ProgressModel,
                ErrorModel,
            >(
                ProgressModel::Waiting(
                    FetchModel {
                        source,
                        stage: StageModel::Members {
                            package,
                            page,
                            index,
                            pause: PauseModel {
                                node: pause.node,
                                module: pause.module,
                                connection: pause.connection,
                                nodes: pause.nodes + items,
                                after: cursor,
                            },
                        },
                    },
                ),
            )
            &&& follows && !(end is Text) ==> next == Err::<ProgressModel, ErrorModel>(
                ErrorModel::MissingEndCursor { module: pause.module.name, connection: key },
            )
            &&& !follows ==> match close_connection(
                pause.node,
                pause.module,
                pause.connection,
                pause.nodes + items,
            ) {
                ModuleStepModel::Refused(error) => next == Err::<ProgressModel, ErrorModel>(error),
                ModuleStepModel::Paused(later) => next == Ok::<ProgressModel, ErrorModel>(
                    ProgressModel::Waiting(
                        FetchModel {
                            source,
                            stage: StageModel::Members { package, page, index, pause: later },
                        },
                    ),
                ),
                ModuleStepModel::Complete(module) => grown.address == package.address
                    && grown.version == package.version && grown.type_origin_table
                    == package.type_origin_table && grown.modules == package.modules.insert(
                    module.name,
                    module,
                ) ==> next == read_page(source, grown, page, index),
            }
        }),
{
    let members = reply.at("data"@).at("package"@).at("module"@).at(key);
    assert(page_nodes(members) =~= items);
    if let ModuleStepModel::Complete(module) = close_connection(
        pause.node,
        pause.module,
        pause.connection,
        pause.nodes + items,
    ) {
        if grown.modules == package.modules.insert(module.name, module) && grown.address
            == package.address && grown.version == package.version && grown.type_origin_table
            == package.type_origin_table {
            assert(grown == with_module(package, module));
        }
    }
}

/// A module that is complete without another page has one struct, one enum and one function
/// for each item in its node.
proof fn lemma_complete_module(node: JsonModel, name: Seq<char>, module: ModuleModel)
    requires
        open_connection(node, named_module(name), Connection::Structs)
            == ModuleStepModel::Complete(module),
    ensures
        module.name == name,
        module.structs.len() == page_nodes(node.at("structs"@)).len(),
        forall|i: int|
            0 <= i < module.structs.len() ==> read_struct(
                #[trigger] page_nodes(node.at("structs"@))[i],
            ) == Ok::<StructModel, ErrorModel>(module.structs[i]),
        module.enums.len() == page_nodes(node.at("enums"@)).len(),
        forall|i: int|
            0 <= i < module.enums.len() ==> read_enum(#[trigger] page_nodes(node.at("enums"@))[i])
                == Ok::<EnumModel, ErrorModel>(module.enums[i]),
        module.functions.len() == page_nodes(node.at("functions"@)).len(),
        forall|i: int|
            0 <= i < module.functions.len() ==> read_function(
                #[trigger] page_nodes(node.at("functions"@))[i],
            ) == Ok::<FunctionModel, ErrorModel>(module.functions[i]),
{
    let structs = page_nodes(node.at("structs"@));
    let enums = page_nodes(node.at("enums"@));
    let functions = page_nodes(node.at("functions"@));
    let first = named_module(name);
    law_members_are_read(first, structs);
    law_connection_is_closed(node, first, Connection::Structs, structs);
    assert(open_connection(node, first, Connection::Structs) == close_connection(
        node,
        first,
        Connection::Structs,
        structs,
    ));
    if let Ok(second) = with_members(first, Connection::Structs, structs) {
        law_members_are_read(second, enums);
        law_connection_is_closed(node, second, Connection::Enums, enums);
        assert(open_connection(node, second, Connection::Enums) == close_connection(
            node,
            second,
            Connection::Enums,
            enums,
        ));
        if let Ok(third) = with_members(second, Connection::Enums, enums) {
            law_members_are_read(third, functions);
            law_connection_is_closed(node, third, Connection::Functions, functions);
            assert(open_connection(node, third, Connection::Functions) == close_connection(
                node,
                third,
                Connection::Functions,
                functions,
            ));
        }
    }
}

/// A node describes the module that it makes up without another page.
spec fn described_by_itself() -> Description {
    |node: JsonModel, name: Seq<char>, module: ModuleModel|
        open_connection(node, named_module(name), Connection::Structs)
            == ModuleStepModel::Complete(module)
}

/// A page that completes a package adds its modules to it.
proof fn lemma_last_page_turns(
    source: SourceModel,
    before: PackageModel,
    page: JsonModel,
    index: nat,
    after: PackageModel,
)
    requires
        index <= page_nodes(page).len(),
        read_page(source, before, page, index) == Ok::<ProgressModel, ErrorModel>(
            ProgressModel::Done(after),
        ),
    ensures
        turned_into(described_by_itself(), before, after, page_nodes(page).skip(index as int)),
    decreases page_nodes(page).len() - index,
{
    let nodes = page_nodes(page);
    let describes = described_by_itself();
    if index == nodes.len() {
        lemma_turned_by_none(describes, before);
        assert(nodes.skip(index as int) =~= seq![]);
    } else {
        let node = nodes[index as int];
        let rest = nodes.skip((index + 1) as int);
        if let Some(name) = node.at("name"@).text() {
            if let ModuleStepModel::Complete(module) = open_connection(
                node,
                named_module(name),
                Connection::Structs,
            ) {
                let grown = with_module(before, module);
                lemma_complete_module(node, name, module);
                lemma_turned_by_one(describes, before, node, name, module);
                lemma_last_page_turns(source, grown, page, index + 1, after);
                lemma_turned_join(describes, before, grown, after, seq![node], rest);
                assert(seq![node] + rest =~= nodes.skip(index as int));
            }
        }
    }
}

/// A page of modules that completes a package leaves its metadata alone and gives it a module
/// for every name among its items, however many there are, beside the modules that it had. A
/// module has exactly one struct, one enum and one function for each item of these in the
/// last node of its name, the i-th being what the i-th item is read as.
pub proof fn law_last_page_gives_all_modules(
    source: SourceModel,
    before: PackageModel,
    cursor: JsonModel,
    reply: JsonModel,
    items: Seq<JsonModel>,
    after: PackageModel,
    name: Seq<char>,
    i: int,
)
    requires
        reply.at("data"@).at("package"@).at("modules"@).at("nodes"@) == JsonModel::Array(items),
        progress(
            FetchModel { source, stage: StageModel::Modules { package: before, after: cursor } },
            reply,
        ) == Ok::<ProgressModel, ErrorModel>(ProgressModel::Done(after)),
    ensures
        after.address == before.address,
        after.version == before.version,
        after.type_origin_table == before.type_origin_table,
        after.modules.contains_key(name) <==> before.modules.contains_key(name) || exists|k: int|
            0 <= k < items.len() && (#[trigger] items[k]).at("name"@) == JsonModel::Text(name),
        before.modules.contains_key(name) && (forall|k: int|
            0 <= k < items.len() ==> (#[trigger] items[k]).at("name"@) != JsonModel::Text(name))
            ==> after.modules[name] == before.modules[name],
        0 <= i < items.len() && items[i].at("name"@) == JsonModel::Text(name) && (forall|k: int|
            i < k < items.len() ==> (#[trigger] items[k]).at("name"@) != JsonModel::Text(name))
            ==> {
            let module = after.modules[name];
            let structs = items[i].at("structs"@).at("nodes"@);
            let enums = items[i].at("enums"@).at("nodes"@);
            let functions = items[i].at("functions"@).at("nodes"@);
            &&& module.name == name
            &&& !(structs is Array) ==> module.structs.len() == 0
            &&& structs matches JsonModel::Array(nodes) ==> module.structs.len() == nodes.len()
                && forall|k: int|
                0 <= k < nodes.len() ==> read_struct(#[trigger] nodes[k]) == Ok::<
                    StructModel,
                    ErrorModel,
                >(module.structs[k])
            &&& !(enums is Array) ==> module.enums.len() == 0
            &&& enums matches JsonModel::Array(nodes) ==> module.enums.len() == nodes.len()
                && forall|k: int|
                0 <= k < nodes.len() ==> read_enum(#[trigger] nodes[k]) == Ok::<
                    EnumModel,
                    ErrorModel,
                >(module.enums[k])
            &&& !(functions is Array) ==> module.functions.len() == 0
            &&& functions matches JsonModel::Array(nodes) ==> module.functions.len()
                == nodes.len() && forall|k: int|
                0 <= k < nodes.len() ==> read_function(#[trigger] nodes[k]) == Ok::<
                    FunctionModel,
                    ErrorModel,
                >(module.functions[k])
        },
{
    let page = reply.at("data"@).at("package"@).at("modules"@);
    let describes = described_by_itself();
    assert(page_nodes(page) == items);
    lemma_last_page_turns(source, before, page, 0, after);
    assert(items.skip(0) =~= items);
    assert forall|k: int| 0 <= k < items.len() implies (is_called(#[trigger] items[k], name)
        <==> items[k].at("name"@) == JsonModel::Text(name)) by {}
    if exists|k: int|
        0 <= k < items.len() && (#[trigger] items[k]).at("name"@) == JsonModel::Text(name) {
        let k = choose|k: int|
            0 <= k < items.len() && (#[trigger] items[k]).at("name"@) == JsonModel::Text(name);
        assert(is_called(items[k], name));
    }
    if names(items, name) {
        let k = choose|k: int| 0 <= k < items.len() && is_called(#[trigger] items[k], name);
        assert(items[k].at("name"@) == JsonModel::Text(name));
    }
    assert(after.modules.contains_key(name) <==> before.modules.contains_key(name) || names(
        items,
        name,
    ));
    if 0 <= i < items.len() && items[i].at("name"@) == JsonModel::Text(name) && (forall|k: int|
        i < k < items.len() ==> (#[trigger] items[k]).at("name"@) != JsonModel::Text(name)) {
        assert(is_called(items[i], name));
        assert(names(items, name));
        let module = after.modules[name];
        assert(last_describes(describes, items, name, module));
        let k = choose|k: int|
            0 <= k < items.len() && is_called(#[trigger] items[k], name) && describes(
                items[k],
                name,
                module,
            ) && forall|j: int| k < j < items.len() ==> !is_called(#[trigger] items[j], name);
        assert(items[k].at("name"@) == JsonModel::Text(name));
        assert(k == i);
        lemma_complete_module(items[i], name, module);
        law_page_nodes(items[i].at("structs"@));
        law_page_nodes(items[i].at("enums"@));
        law_page_nodes(items[i].at("functions"@));
        if let JsonModel::Array(nodes) = items[i].at("structs"@).at("nodes"@) {
            assert(page_nodes(items[i].at("structs"@)) =~= nodes);
        }
        if let JsonModel::Array(nodes) = items[i].at("enums"@).at("nodes"@) {
            assert(page_nodes(items[i].at("enums"@)) =~= nodes);
        }
        if let JsonModel::Array(nodes) = items[i].at("functions"@).at("nodes"@) {
            assert(page_nodes(items[i].at("functions"@)) =~= nodes);
        }
    }
}

/// A node whose connections all end on their first page, and whose members are all read, makes
/// up a complete module.
proof fn lemma_module_is_complete(node: JsonModel, name: Seq<char>)
    requires
        node.at("structs"@).at("pageInfo"@).at("hasNextPage"@) != JsonModel::Bool(true),
        node.at("enums"@).at("pageInfo"@).at("hasNextPage"@) != JsonModel::Bool(true),
        node.at("functions"@).at("pageInfo"@).at("hasNextPage"@) != JsonModel::Bool(true),
        forall|k: int|
            0 <= k < page_nodes(node.at("structs"@)).len() ==> read_struct(
                #[trigger] page_nodes(node.at("structs"@))[k],
            ) is Ok,
        forall|k: int|
            0 <= k < page_nodes(node.at("enums"@)).len() ==> read_enum(
                #[trigger] page_nodes(node.at("enums"@))[k],
            ) is Ok,
        forall|k: int|
            0 <= k < page_nodes(node.at("functions"@)).len() ==> read_function(
                #[trigger] page_nodes(node.at("functions"@))[k],
            ) is Ok,
    ensures
        open_connection(node, named_module(name), Connection::Structs) is Complete,
{
    let structs = page_nodes(node.at("structs"@));
    let enums = page_nodes(node.at("enums"@));
    let functions = page_nodes(node.at("functions"@));
    let first = named_module(name);
    law_members_are_read(first, structs);
    law_connection_is_closed(node, first, Connection::Structs, structs);
    assert(open_connection(node, first, Connection::Structs) == close_connection(
        node,
        first,
        Connection::Structs,
        structs,
    ));
    if let Ok(second) = with_members(first, Connection::Structs, structs) {
        law_members_are_read(second, enums);
        law_connection_is_closed(node, second, Connection::Enums, enums);
        assert(open_connection(node, second, Connection::Enums) == close_connection(
            node,
            second,
            Connection::Enums,
            enums,
        ));
        if let Ok(third) = with_members(second, Connection::Enums, enums) {
            law_members_are_read(third, functions);
            law_connection_is_closed(node, third, Connection::Functions, functions);
            assert(open_connection(node, third, Connection::Functions) == close_connection(
                node,
                third,
                Connection::Functions,
                functions,
            ));
        }
    }
}

/// A page of modules that needs nothing more is read to its end.
proof fn lemma_page_is_complete(
    source: SourceModel,
    package: PackageModel,
    page: JsonModel,
    index: nat,
)
    requires
        page.at("pageInfo"@).at("hasNextPage"@) != JsonModel::Bool(true),
        forall|i: int|
            0 <= i < page_nodes(page).len() ==> (#[trigger] page_nodes(page)[i]).at("name"@) is Text
                && open_connection(
                page_nodes(page)[i],
                named_module(page_nodes(page)[i].at("name"@)->Text_0),
                Connection::Structs,
            ) is Complete,
    ensures
        read_page(source, package, page, index) matches Ok(ProgressModel::Done(_)),
    decreases page_nodes(page).len() - index,
{
    let nodes = page_nodes(page);
    if index < nodes.len() {
        let node = nodes[index as int];
        assert(node.at("name"@) is Text);
        if let ModuleStepModel::Complete(module) = open_connection(
            node,
            named_module(node.at("name"@)->Text_0),
            Connection::Structs,
        ) {
            lemma_page_is_complete(source, with_module(package, module), page, index + 1);
        }
    }
}

/// A page of modules completes a package, and nothing more is asked for, if no page follows
/// it, every item on it has a name, every connection in the items ends on its first page, and
/// every node of these is read.
pub proof fn law_package_on_last_page_is_complete(
    source: SourceModel,
    package: PackageModel,
    cursor: JsonModel,
    reply: JsonModel,
    items: Seq<JsonModel>,
)
    requires
        reply.get("errors"@) is None,
        reply.at("data"@).at("package"@).at("modules"@).at("nodes"@) == JsonModel::Array(items),
        reply.at("data"@).at("package"@).at("modules"@).at("pageInfo"@).at("hasNextPage"@)
            != JsonModel::Bool(true),
        forall|i: int, key: Seq<char>|
            0 <= i < items.len() && (key == "structs"@ || key == "enums"@ || key == "functions"@)
                ==> (#[trigger] items[i].at(key)).at("pageInfo"@).at("hasNextPage"@)
                != JsonModel::Bool(true),
        forall|i: int| 0 <= i < items.len() ==> (#[trigger] items[i]).at("name"@) is Text,
        forall|i: int, k: int|
            #![trigger items[i].at("structs"@).at("nodes"@)->Array_0[k]]
            0 <= i < items.len() && items[i].at("structs"@).at("nodes"@) is Array && 0 <= k
                < items[i].at("structs"@).at("nodes"@)->Array_0.len() ==> read_struct(
                items[i].at("structs"@).at("nodes"@)->Array_0[k],
            ) is Ok,
        forall|i: int, k: int|
            #![trigger items[i].at("enums"@).at("nodes"@)->Array_0[k]]
            0 <= i < items.len() && items[i].at("enums"@).at("nodes"@) is Array && 0 <= k
                < items[i].at("enums"@).at("nodes"@)->Array_0.len() ==> read_enum(
                items[i].at("enums"@).at("nodes"@)->Array_0[k],
            ) is Ok,
        forall|i: int, k: int|
            #![trigger items[i].at("functions"@).at("nodes"@)->Array_0[k]]
            0 <= i < items.len() && items[i].at("functions"@).at("nodes"@) is Array && 0 <= k
                < items[i].at("functions"@).at("nodes"@)->Array_0.len() ==> read_function(
                items[i].at("functions"@).at("nodes"@)->Array_0[k],
            ) is Ok,
    ensures
        progress(
            FetchModel { source, stage: StageModel::Modules { package, after: cursor } },
            reply,
        ) matches Ok(ProgressModel::Done(_)),
{
    let page = reply.at("data"@).at("package"@).at("modules"@);
    assert(page_nodes(page) == items);
    assert forall|i: int| 0 <= i < page_nodes(page).len() implies (#[trigger] page_nodes(
        page,
    )[i]).at("name"@) is Text && open_connection(
        page_nodes(page)[i],
        named_module(page_nodes(page)[i].at("name"@)->Text_0),
        Connection::Structs,
    ) is Complete by {
        let node = items[i];
        assert(node.at("name"@) is Text);
        let structs = node.at("structs"@);
        let enums = node.at("enums"@);
        let functions = node.at("functions"@);
        law_page_nodes(structs);
        law_page_nodes(enums);
        law_page_nodes(functions);
        assert forall|k: int| 0 <= k < page_nodes(structs).len() implies read_struct(
            #[trigger] page_nodes(structs)[k],
        ) is Ok by {
            assert(page_nodes(structs)[k] == items[i].at("structs"@).at("nodes"@)->Array_0[k]);
        }
        assert forall|k: int| 0 <= k < page_nodes(enums).len() implies read_enum(
            #[trigger] page_nodes(enums)[k],
        ) is Ok by {
            assert(page_nodes(enums)[k] == items[i].at("enums"@).at("nodes"@)->Array_0[k]);
        }
        assert forall|k: int| 0 <= k < page_nodes(functions).len() implies read_function(
            #[trigger] page_nodes(functions)[k],
        ) is Ok by {
            assert(page_nodes(functions)[k] == items[i].at("functions"@).at(
                "nodes"@,
            )->Array_0[k]);
        }
        lemma_module_is_complete(node, node.at("name"@)->Text_0);
    }
    lemma_page_is_complete(source, package, page, 0);
}

} // verus!
