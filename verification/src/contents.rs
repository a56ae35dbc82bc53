//! What a fetched package holds: the metadata of the first reply, and a module for every
//! name among the nodes of all the pages of modules.

use vstd::prelude::*;

use crate::error::ErrorModel;
use crate::json::JsonModel;
use crate::normalized::{ModuleModel, PackageModel};
use crate::package_provider::{
    end_cursor, has_next_page, named_module, new_fetch, page_nodes, read_metadata, type_origins,
    waiting, with_members, with_module, FetchModel, ProgressModel, SourceModel, StageModel,
};
use crate::replies::{
    accepted, connection_nodes, law_fetch_ends_with_what_replies_make_up, lemma_modules_read,
    made_up_package, module_members, modules_page, modules_read, package_modules, page_modules,
    stepped,
};
use crate::request::{metadata_request, modules_request, Connection};
use crate::service::{
    all_modules, all_nodes, answer, driven, ended, law_fetch_ends_with_whole_package, whole_module,
    whole_modules, whole_package, Service,
};

verus! {

/// What a service says of a package as such: its version and its type origins.
pub open spec fn metadata_of(service: Service, package_id: Seq<u8>) -> JsonModel {
    service(metadata_request(package_id)).at("data"@).at("package"@)
}

/// The nodes of the modules of a package, on the page after the cursor `after` and on the
/// pages that follow it, at most `limit` pages in all.
pub open spec fn module_nodes(
    service: Service,
    package_id: Seq<u8>,
    after: JsonModel,
    limit: nat,
) -> Seq<JsonModel>
    decreases limit,
{
    if limit == 0 {
        seq![]
    } else {
        let page = service(modules_request(package_id, after)).at("data"@).at("package"@).at(
            "modules"@,
        );
        if has_next_page(page) {
            page_nodes(page) + module_nodes(
                service,
                package_id,
                end_cursor(page),
                (limit - 1) as nat,
            )
        } else {
            page_nodes(page)
        }
    }
}

/// Whether `node` is that of a module called `name`.
pub open spec fn is_called(node: JsonModel, name: Seq<char>) -> bool {
    node.at("name"@).text() == Some(name)
}

/// Whether some node is that of a module called `name`.
pub open spec fn names(nodes: Seq<JsonModel>, name: Seq<char>) -> bool {
    exists|i: int| 0 <= i < nodes.len() && is_called(#[trigger] nodes[i], name)
}

/// Whether a module, called by a name, is what a node describes.
pub type Description = spec_fn(JsonModel, Seq<char>, ModuleModel) -> bool;

/// A node describes a module with all the pages of its connections that a service has.
pub open spec fn described_by_service(service: Service, package_id: Seq<u8>) -> Description {
    |node: JsonModel, name: Seq<char>, module: ModuleModel|
        exists|limit: nat| #[trigger]
            whole_module(
                service,
                package_id,
                node,
                named_module(name),
                Connection::Structs,
                limit,
            ) == Some(Ok::<ModuleModel, ErrorModel>(module))
}

/// A node describes a module with all the pages of its connections in the replies from
/// some reply on.
pub open spec fn described_by_replies(replies: Seq<JsonModel>) -> Description {
    |node: JsonModel, name: Seq<char>, module: ModuleModel|
        exists|at: nat|
            (#[trigger] module_members(
                node,
                named_module(name),
                Connection::Structs,
                replies,
                at,
            )) matches Some(Ok((whole, _))) && whole == module
}

/// Whether `module` is what the last of the nodes of modules called `name` describes.
pub open spec fn last_describes(
    describes: Description,
    nodes: Seq<JsonModel>,
    name: Seq<char>,
    module: ModuleModel,
) -> bool {
    exists|i: int|
        0 <= i < nodes.len() && is_called(#[trigger] nodes[i], name) && describes(
            nodes[i],
            name,
            module,
        ) && forall|j: int| i < j < nodes.len() ==> !is_called(#[trigger] nodes[j], name)
}

/// Whether the modules of `nodes` turn one package into another: its metadata stays, every
/// name among the nodes has the module of its last node, and the other modules stay.
pub open spec fn turned_into(
    describes: Description,
    before: PackageModel,
    after: PackageModel,
    nodes: Seq<JsonModel>,
) -> bool {
    &&& after.address == before.address
    &&& after.version == before.version
    &&& after.type_origin_table == before.type_origin_table
    &&& forall|name: Seq<char>| #[trigger]
        after.modules.contains_key(name) <==> before.modules.contains_key(name) || names(
            nodes,
            name,
        )
    &&& forall|name: Seq<char>| #[trigger]
        after.modules.contains_key(name) ==> if names(nodes, name) {
            last_describes(describes, nodes, name, after.modules[name])
        } else {
            after.modules[name] == before.modules[name]
        }
}

/// Reading the members of a module leaves its name alone.
proof fn lemma_whole_module_name(
    service: Service,
    package_id: Seq<u8>,
    node: JsonModel,
    module: ModuleModel,
    connection: Connection,
    limit: nat,
)
    ensures
        whole_module(service, package_id, node, module, connection, limit) matches Some(Ok(whole))
            ==> whole.name == module.name,
    decreases connection.left(),
{
    if let Some(following) = connection.following() {
        if let Some(Ok(nodes)) = all_nodes(
            service,
            package_id,
            module.name,
            connection,
            node.at(connection.key()),
            limit,
        ) {
            if let Ok(filled) = with_members(module, connection, nodes) {
                lemma_whole_module_name(service, package_id, node, filled, following, limit);
            }
        }
    }
}

/// No nodes leave a package as it is.
pub(crate) proof fn lemma_turned_by_none(describes: Description, package: PackageModel)
    ensures
        turned_into(describes, package, package, seq![]),
{
}

/// A node puts its module into a package.
pub(crate) proof fn lemma_turned_by_one(
    describes: Description,
    package: PackageModel,
    node: JsonModel,
    name: Seq<char>,
    module: ModuleModel,
)
    requires
        is_called(node, name),
        module.name == name,
        describes(node, name, module),
    ensures
        turned_into(describes, package, with_module(package, module), seq![node]),
{
    let nodes = seq![node];
    let after = with_module(package, module);
    assert(is_called(nodes[0], name));
    assert forall|other: Seq<char>| #[trigger]
        after.modules.contains_key(other) implies if names(nodes, other) {
        last_describes(describes, nodes, other, after.modules[other])
    } else {
        after.modules[other] == package.modules[other]
    } by {
        if names(nodes, other) {
            assert(other == name);
            assert(is_called(nodes[0], other) && describes(
                nodes[0],
                other,
                after.modules[other],
            ));
        }
    }
}

/// Some nodes name what either part of them names.
proof fn lemma_names_join(first: Seq<JsonModel>, second: Seq<JsonModel>, name: Seq<char>)
    ensures
        names(first + second, name) <==> names(first, name) || names(second, name),
{
    let nodes = first + second;
    if names(first, name) {
        let i = choose|i: int| 0 <= i < first.len() && is_called(#[trigger] first[i], name);
        assert(is_called(nodes[i], name));
    }
    if names(second, name) {
        let i = choose|i: int| 0 <= i < second.len() && is_called(#[trigger] second[i], name);
        assert(nodes[first.len() + i] == second[i]);
        assert(is_called(nodes[first.len() + i], name));
    }
    if names(nodes, name) {
        let i = choose|i: int| 0 <= i < nodes.len() && is_called(#[trigger] nodes[i], name);
        if i < first.len() {
            assert(is_called(first[i], name));
        } else {
            assert(is_called(second[i - first.len()], name));
        }
    }
}

/// The last node of a name is that of the second part, where that part names it, and else
/// that of the first.
proof fn lemma_last_join(
    describes: Description,
    first: Seq<JsonModel>,
    second: Seq<JsonModel>,
    name: Seq<char>,
    module: ModuleModel,
)
    requires
        last_describes(describes, second, name, module) || (!names(second, name)
            && last_describes(describes, first, name, module)),
    ensures
        last_describes(describes, first + second, name, module),
{
    let nodes = first + second;
    if last_describes(describes, second, name, module) {
        let i = choose|i: int|
            0 <= i < second.len() && is_called(#[trigger] second[i], name) && describes(
                second[i],
                name,
                module,
            ) && forall|j: int| i < j < second.len() ==> !is_called(#[trigger] second[j], name);
        let at = first.len() + i;
        assert(nodes[at] == second[i]);
        assert forall|j: int| at < j < nodes.len() implies !is_called(#[trigger] nodes[j], name) by {
            assert(nodes[j] == second[j - first.len()]);
        }
        assert(is_called(nodes[at], name));
    } else {
        let i = choose|i: int|
            0 <= i < first.len() && is_called(#[trigger] first[i], name) && describes(
                first[i],
                name,
                module,
            ) && forall|j: int| i < j < first.len() ==> !is_called(#[trigger] first[j], name);
        assert(nodes[i] == first[i]);
        assert forall|j: int| i < j < nodes.len() implies !is_called(#[trigger] nodes[j], name) by {
            if j < first.len() {
                assert(nodes[j] == first[j]);
            } else {
                assert(nodes[j] == second[j - first.len()]);
            }
        }
        assert(is_called(nodes[i], name));
    }
}

/// What two parts of the nodes do one after the other, all of them do.
pub(crate) proof fn lemma_turned_join(
    describes: Description,
    a: PackageModel,
    b: PackageModel,
    c: PackageModel,
    first: Seq<JsonModel>,
    second: Seq<JsonModel>,
)
    requires
        turned_into(describes, a, b, first),
        turned_into(describes, b, c, second),
    ensures
        turned_into(describes, a, c, first + second),
{
    let nodes = first + second;
    assert forall|name: Seq<char>| #[trigger]
        c.modules.contains_key(name) <==> a.modules.contains_key(name) || names(nodes, name) by {
        lemma_names_join(first, second, name);
        assert(b.modules.contains_key(name) <==> a.modules.contains_key(name) || names(
            first,
            name,
        ));
    }
    assert forall|name: Seq<char>| #[trigger] c.modules.contains_key(name) implies if names(
        nodes,
        name,
    ) {
        last_describes(describes, nodes, name, c.modules[name])
    } else {
        c.modules[name] == a.modules[name]
    } by {
        lemma_names_join(first, second, name);
        assert(b.modules.contains_key(name) <==> a.modules.contains_key(name) || names(
            first,
            name,
        ));
        if names(nodes, name) {
            lemma_last_join(describes, first, second, name, c.modules[name]);
        }
    }
}

/// The modules of a page turn a package into one with all of them.
proof fn lemma_page_turns(
    service: Service,
    package: PackageModel,
    nodes: Seq<JsonModel>,
    index: nat,
    limit: nat,
)
    requires
        index <= nodes.len(),
    ensures
        whole_modules(service, package, nodes, index, limit) matches Some(Ok(whole))
            ==> turned_into(
            described_by_service(service, package.address),
            package,
            whole,
            nodes.skip(index as int),
        ),
    decreases nodes.len() - index,
{
    let describes = described_by_service(service, package.address);
    if index == nodes.len() {
        lemma_turned_by_none(describes, package);
        assert(nodes.skip(index as int) =~= seq![]);
    } else {
        let node = nodes[index as int];
        if let Some(name) = node.at("name"@).text() {
            if let Some(Ok(module)) = whole_module(
                service,
                package.address,
                node,
                named_module(name),
                Connection::Structs,
                limit,
            ) {
                let grown = with_module(package, module);
                let rest = nodes.skip((index + 1) as int);
                lemma_whole_module_name(
                    service,
                    package.address,
                    node,
                    named_module(name),
                    Connection::Structs,
                    limit,
                );
                lemma_turned_by_one(describes, package, node, name, module);
                lemma_page_turns(service, grown, nodes, index + 1, limit);
                if let Some(Ok(whole)) = whole_modules(service, grown, nodes, index + 1, limit) {
                    lemma_turned_join(describes, package, grown, whole, seq![node], rest);
                    assert(seq![node] + rest =~= nodes.skip(index as int));
                }
            }
        }
    }
}

/// The modules of all pages turn a package into one with all of them.
proof fn lemma_pages_turn(
    service: Service,
    package: PackageModel,
    after: JsonModel,
    limit: nat,
)
    ensures
        all_modules(service, package, after, limit) matches Some(Ok(whole)) ==> turned_into(
            described_by_service(service, package.address),
            package,
            whole,
            module_nodes(service, package.address, after, limit),
        ),
    decreases limit,
{
    if limit > 0 {
        if let Ok(reply) = answer(service, modules_request(package.address, after)) {
            let page = reply.at("data"@).at("package"@).at("modules"@);
            let nodes = page_nodes(page);
            let below = (limit - 1) as nat;
            lemma_page_turns(service, package, nodes, 0, below);
            assert(nodes.skip(0) =~= nodes);
            if let Some(Ok(read)) = whole_modules(service, package, nodes, 0, below) {
                if has_next_page(page) {
                    lemma_pages_turn(service, read, end_cursor(page), below);
                    if let Some(Ok(whole)) = all_modules(service, read, end_cursor(page), below) {
                        lemma_turned_join(
                            described_by_service(service, package.address),
                            package,
                            read,
                            whole,
                            nodes,
                            module_nodes(service, package.address, end_cursor(page), below),
                        );
                    }
                }
            }
        }
    }
}

/// The package that a fetch ends with is the one that was asked for. It has the version
/// and the type origins of the first reply. Its modules are called what the nodes on all
/// pages of modules are called, no more and no less, and each is what the last node of
/// its name describes, with all the pages of its structs, its enums and its functions.
pub proof fn law_fetched_package_holds_what_was_read(
    service: Service,
    source: SourceModel,
    replies: nat,
    package: PackageModel,
)
    requires
        driven(service, Ok(ProgressModel::Waiting(new_fetch(source))), replies) == Ok::<
            ProgressModel,
            ErrorModel,
        >(ProgressModel::Done(package)),
    ensures
        package.address == source.package_id,
        metadata_of(service, source.package_id).at("version"@).unsigned() == Some(package.version),
        metadata_of(service, source.package_id).at("typeOrigins"@).items() matches Some(entries)
            && package.type_origin_table == type_origins(entries),
        forall|name: Seq<char>| #[trigger]
            package.modules.contains_key(name) <==> names(
                module_nodes(service, source.package_id, JsonModel::Null, replies),
                name,
            ),
        forall|name: Seq<char>| #[trigger]
            package.modules.contains_key(name) ==> last_describes(
                described_by_service(service, source.package_id),
                module_nodes(service, source.package_id, JsonModel::Null, replies),
                name,
                package.modules[name],
            ),
{
    let outcome = Ok::<PackageModel, ErrorModel>(package);
    assert(ended(outcome) == Ok::<ProgressModel, ErrorModel>(ProgressModel::Done(package)));
    law_fetch_ends_with_whole_package(service, source, replies, outcome);
    if let Ok(reply) = answer(service, metadata_request(source.package_id)) {
        if let Ok(ProgressModel::Waiting(
            FetchModel { stage: StageModel::Modules { package: empty, after }, .. },
        )) = read_metadata(source, reply) {
            lemma_pages_turn(service, empty, after, replies);
            assert(whole_package(service, source, replies) == all_modules(
                service,
                empty,
                after,
                replies,
            ));
        }
    }
}

/// The modules of a page turn a package into one with all of them, whatever the replies.
proof fn lemma_page_turns_over(
    package: PackageModel,
    nodes: Seq<JsonModel>,
    index: nat,
    replies: Seq<JsonModel>,
    at: nat,
)
    requires
        index <= nodes.len(),
    ensures
        page_modules(package, nodes, index, replies, at) matches Some(Ok((whole, _)))
            ==> turned_into(
            described_by_replies(replies),
            package,
            whole,
            nodes.skip(index as int),
        ),
    decreases nodes.len() - index,
{
    let describes = described_by_replies(replies);
    if index == nodes.len() {
        lemma_turned_by_none(describes, package);
        assert(nodes.skip(index as int) =~= seq![]);
    } else {
        let node = nodes[index as int];
        if let Some(name) = node.at("name"@).text() {
            if let Some(Ok((module, left))) = module_members(
                node,
                named_module(name),
                Connection::Structs,
                replies,
                at,
            ) {
                let grown = with_module(package, module);
                let rest = nodes.skip((index + 1) as int);
                lemma_members_name(node, named_module(name), Connection::Structs, replies, at);
                lemma_turned_by_one(describes, package, node, name, module);
                lemma_page_turns_over(grown, nodes, index + 1, replies, left);
                if let Some(Ok((whole, _))) = page_modules(
                    grown,
                    nodes,
                    index + 1,
                    replies,
                    left,
                ) {
                    lemma_turned_join(describes, package, grown, whole, seq![node], rest);
                    assert(seq![node] + rest =~= nodes.skip(index as int));
                }
            }
        }
    }
}

/// Reading the members of a module from replies leaves its name alone.
proof fn lemma_members_name(
    node: JsonModel,
    module: ModuleModel,
    connection: Connection,
    replies: Seq<JsonModel>,
    at: nat,
)
    ensures
        module_members(node, module, connection, replies, at) matches Some(Ok((whole, _)))
            ==> whole.name == module.name,
    decreases connection.left(),
{
    if let Some(following) = connection.following() {
        if let Some(Ok((nodes, left))) = connection_nodes(
            node.at(connection.key()),
            module.name,
            connection,
            replies,
            at,
        ) {
            if let Ok(filled) = with_members(module, connection, nodes) {
                lemma_members_name(node, filled, following, replies, left);
            }
        }
    }
}

/// The modules of all pages turn a package into one with all of them, whatever the replies.
proof fn lemma_pages_turn_over(
    source: SourceModel,
    package: PackageModel,
    after: JsonModel,
    replies: Seq<JsonModel>,
    at: nat,
)
    ensures
        package_modules(package, replies, at) matches Some(Ok(whole)) ==> turned_into(
            described_by_replies(replies),
            package,
            whole,
            modules_read(
                waiting(source, StageModel::Modules { package, after }),
                replies,
                at,
            ),
        ),
    decreases replies.len() - at,
{
    if at < replies.len() {
        if let Ok(reply) = accepted(replies[at as int]) {
            let page = modules_page(reply);
            let nodes = page_nodes(page);
            lemma_modules_read(source, package, after, replies, at);
            lemma_page_turns_over(package, nodes, 0, replies, at + 1);
            assert(nodes.skip(0) =~= nodes);
            if let Some(Ok((read, left))) = page_modules(package, nodes, 0, replies, at + 1) {
                if has_next_page(page) {
                    let later = end_cursor(page);
                    lemma_pages_turn_over(source, read, later, replies, left);
                    if let Some(Ok(whole)) = package_modules(read, replies, left) {
                        lemma_turned_join(
                            described_by_replies(replies),
                            package,
                            read,
                            whole,
                            nodes,
                            modules_read(
                                waiting(
                                    source,
                                    StageModel::Modules { package: read, after: later },
                                ),
                                replies,
                                left,
                            ),
                        );
                    }
                }
            }
        }
    }
}

/// Whatever the replies are, the package that a fetch ends with is the one that was asked
/// for. It has the version and the type origins of the first reply. Its modules are called
/// what the nodes on the pages of modules among the replies are called, no more and no
/// less, and each is what the last node of its name describes, with the pages of its
/// structs, its enums and its functions among the replies.
pub proof fn law_replies_make_up_package(
    source: SourceModel,
    replies: Seq<JsonModel>,
    package: PackageModel,
)
    requires
        stepped(Ok(ProgressModel::Waiting(new_fetch(source))), replies, 0) == Ok::<
            ProgressModel,
            ErrorModel,
        >(ProgressModel::Done(package)),
    ensures
        package.address == source.package_id,
        replies[0].at("data"@).at("package"@).at("version"@).unsigned() == Some(package.version),
        replies[0].at("data"@).at("package"@).at("typeOrigins"@).items() matches Some(entries)
            && package.type_origin_table == type_origins(entries),
        forall|name: Seq<char>| #[trigger]
            package.modules.contains_key(name) <==> names(
                modules_read(Ok(ProgressModel::Waiting(new_fetch(source))), replies, 0),
                name,
            ),
        forall|name: Seq<char>| #[trigger]
            package.modules.contains_key(name) ==> last_describes(
                described_by_replies(replies),
                modules_read(Ok(ProgressModel::Waiting(new_fetch(source))), replies, 0),
                name,
                package.modules[name],
            ),
{
    let outcome = Ok::<PackageModel, ErrorModel>(package);
    law_fetch_ends_with_what_replies_make_up(source, replies);
    assert(made_up_package(source, replies) == Some(outcome));
    if let Ok(reply) = accepted(replies[0]) {
        if let Ok(ProgressModel::Waiting(
            FetchModel { stage: StageModel::Modules { package: empty, after }, .. },
        )) = read_metadata(source, reply) {
            lemma_pages_turn_over(source, empty, after, replies, 1);
            assert(package_modules(empty, replies, 1) == Some(outcome));
        }
    }
}

} // verus!
