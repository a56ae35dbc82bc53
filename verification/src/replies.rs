//! What a fetch makes of any replies at all, also of such as a service gives that answers
//! the same request differently at different times.

use vstd::prelude::*;

use crate::error::ErrorModel;
use crate::json::JsonModel;
use crate::normalized::{ModuleModel, PackageModel};
use crate::package_provider::{
    after_module, close_connection, end_cursor, has_next_page, named_module, new_fetch,
    next_cursor, open_connection, page_nodes, progress, read_members, read_metadata, read_page,
    refusal, waiting, with_members, with_module, FetchModel, PauseModel, ProgressModel,
    SourceModel, StageModel,
};
use crate::request::Connection;
use crate::service::{ended, is_waiting};

verus! {

/// Where a fetch stands once it has been given the replies from `at` on, as many of them
/// as it waits for.
pub open spec fn stepped(
    state: Result<ProgressModel, ErrorModel>,
    replies: Seq<JsonModel>,
    at: nat,
) -> Result<ProgressModel, ErrorModel>
    decreases replies.len() - at,
{
    match state {
        Ok(ProgressModel::Waiting(fetch)) => if at < replies.len() {
            stepped(progress(fetch, replies[at as int]), replies, at + 1)
        } else {
            state
        },
        _ => state,
    }
}

/// The page of modules in a reply.
pub open spec fn modules_page(reply: JsonModel) -> JsonModel {
    reply.at("data"@).at("package"@).at("modules"@)
}

/// The page of a connection in a reply.
pub open spec fn members_page(reply: JsonModel, connection: Connection) -> JsonModel {
    reply.at("data"@).at("package"@).at("module"@).at(connection.key())
}

/// The nodes on the pages of modules among the replies from `at` on.
pub open spec fn modules_read(
    state: Result<ProgressModel, ErrorModel>,
    replies: Seq<JsonModel>,
    at: nat,
) -> Seq<JsonModel>
    decreases replies.len() - at,
{
    match state {
        Ok(ProgressModel::Waiting(fetch)) => if at < replies.len() {
            let reply = replies[at as int];
            let rest = modules_read(progress(fetch, reply), replies, at + 1);
            if fetch.stage is Modules {
                page_nodes(modules_page(reply)) + rest
            } else {
                rest
            }
        } else {
            seq![]
        },
        _ => seq![],
    }
}

/// What is read from replies, and from which one on the replies are left, or the error in
/// place of it. There is no outcome if the replies do not suffice.
pub type Reading<T> = Option<Result<(T, nat), ErrorModel>>;

/// A reply, or the errors it comes with.
pub open spec fn accepted(reply: JsonModel) -> Result<JsonModel, ErrorModel> {
    match refusal(reply) {
        Some(errors) => Err(ErrorModel::GraphQl(errors)),
        None => Ok(reply),
    }
}

/// All the nodes of a connection: those of `page`, and behind them those of the further
/// pages in the replies from `at` on.
pub open spec fn connection_nodes(
    page: JsonModel,
    module: Seq<char>,
    connection: Connection,
    replies: Seq<JsonModel>,
    at: nat,
) -> Reading<Seq<JsonModel>>
    decreases replies.len() - at,
{
    match next_cursor(page, module, connection) {
        Err(error) => Some(Err(error)),
        Ok(None) => Some(Ok((page_nodes(page), at))),
        Ok(Some(_)) => if at >= replies.len() {
            None
        } else {
            match accepted(replies[at as int]) {
                Err(error) => Some(Err(error)),
                Ok(reply) => match connection_nodes(
                    members_page(reply, connection),
                    module,
                    connection,
                    replies,
                    at + 1,
                ) {
                    Some(Ok((rest, left))) => Some(Ok((page_nodes(page) + rest, left))),
                    other => other,
                },
            }
        },
    }
}

/// `module` with all the members of `connection` and of the connections after it.
pub open spec fn module_members(
    node: JsonModel,
    module: ModuleModel,
    connection: Connection,
    replies: Seq<JsonModel>,
    at: nat,
) -> Reading<ModuleModel>
    decreases connection.left(),
{
    match connection_nodes(node.at(connection.key()), module.name, connection, replies, at) {
        None => None,
        Some(Err(error)) => Some(Err(error)),
        Some(Ok((nodes, left))) => match with_members(module, connection, nodes) {
            Err(error) => Some(Err(error)),
            Ok(filled) => match connection.following() {
                None => Some(Ok((filled, left))),
                Some(following) => module_members(node, filled, following, replies, left),
            },
        },
    }
}

/// `package` with the modules that `nodes` describe from `index` on.
pub open spec fn page_modules(
    package: PackageModel,
    nodes: Seq<JsonModel>,
    index: nat,
    replies: Seq<JsonModel>,
    at: nat,
) -> Reading<PackageModel>
    decreases nodes.len() - index,
{
    if index >= nodes.len() {
        Some(Ok((package, at)))
    } else {
        match nodes[index as int].at("name"@).text() {
            None => Some(Err(ErrorModel::MissingModuleName)),
            Some(name) => match module_members(
                nodes[index as int],
                named_module(name),
                Connection::Structs,
                replies,
                at,
            ) {
                None => None,
                Some(Err(error)) => Some(Err(error)),
                Some(Ok((module, left))) => page_modules(
                    with_module(package, module),
                    nodes,
                    index + 1,
                    replies,
                    left,
                ),
            },
        }
    }
}

/// `package` with the modules of all pages, the first of which is in the reply `at`.
pub open spec fn package_modules(
    package: PackageModel,
    replies: Seq<JsonModel>,
    at: nat,
) -> Option<Result<PackageModel, ErrorModel>>
    decreases replies.len() - at,
{
    if at >= replies.len() {
        None
    } else {
        match accepted(replies[at as int]) {
            Err(error) => Some(Err(error)),
            Ok(reply) => {
                let page = modules_page(reply);
                proof {
                    lemma_page_left(package, page_nodes(page), 0, replies, at + 1);
                }
                match page_modules(package, page_nodes(page), 0, replies, at + 1) {
                    None => None,
                    Some(Err(error)) => Some(Err(error)),
                    Some(Ok((whole, left))) => if has_next_page(page) {
                        package_modules(whole, replies, left)
                    } else {
                        Some(Ok(whole))
                    },
                }
            },
        }
    }
}

/// The package that replies make up: its metadata is in the first of them.
pub open spec fn made_up_package(source: SourceModel, replies: Seq<JsonModel>) -> Option<
    Result<PackageModel, ErrorModel>,
> {
    if replies.len() == 0 {
        None
    } else {
        match accepted(replies[0]) {
            Err(error) => Some(Err(error)),
            Ok(reply) => match read_metadata(source, reply) {
                Err(error) => Some(Err(error)),
                Ok(ProgressModel::Waiting(
                    FetchModel { stage: StageModel::Modules { package, .. }, .. },
                )) => package_modules(package, replies, 1),
                Ok(_) => None,
            },
        }
    }
}

/// The reading of a connection goes forward in the replies.
proof fn lemma_nodes_left(
    page: JsonModel,
    module: Seq<char>,
    connection: Connection,
    replies: Seq<JsonModel>,
    at: nat,
)
    requires
        at <= replies.len(),
    ensures
        connection_nodes(page, module, connection, replies, at) matches Some(Ok((_, left)))
            ==> at <= left <= replies.len(),
    decreases replies.len() - at,
{
    if at < replies.len() {
        lemma_nodes_left(
            members_page(replies[at as int], connection),
            module,
            connection,
            replies,
            at + 1,
        );
    }
}

/// The reading of a module goes forward in the replies.
proof fn lemma_module_left(
    node: JsonModel,
    module: ModuleModel,
    connection: Connection,
    replies: Seq<JsonModel>,
    at: nat,
)
    requires
        at <= replies.len(),
    ensures
        module_members(node, module, connection, replies, at) matches Some(Ok((_, left))) ==> at
            <= left <= replies.len(),
    decreases connection.left(),
{
    let first = node.at(connection.key());
    lemma_nodes_left(first, module.name, connection, replies, at);
    if let Some(Ok((nodes, left))) = connection_nodes(
        first,
        module.name,
        connection,
        replies,
        at,
    ) {
        if let Ok(filled) = with_members(module, connection, nodes) {
            if let Some(following) = connection.following() {
                lemma_module_left(node, filled, following, replies, left);
            }
        }
    }
}

/// The reading of a page of modules goes forward in the replies.
pub proof fn lemma_page_left(
    package: PackageModel,
    nodes: Seq<JsonModel>,
    index: nat,
    replies: Seq<JsonModel>,
    at: nat,
)
    requires
        at <= replies.len(),
    ensures
        page_modules(package, nodes, index, replies, at) matches Some(Ok((_, left))) ==> at
            <= left <= replies.len(),
    decreases nodes.len() - index,
{
    if index < nodes.len() {
        let node = nodes[index as int];
        if let Some(name) = node.at("name"@).text() {
            lemma_module_left(node, named_module(name), Connection::Structs, replies, at);
            if let Some(Ok((module, left))) = module_members(
                node,
                named_module(name),
                Connection::Structs,
                replies,
                at,
            ) {
                lemma_page_left(with_module(package, module), nodes, index + 1, replies, left);
            }
        }
    }
}

/// What the replies from `at` on do to a fetch: it waits for more of them, it ends with an
/// error, or it is then as a fetch in another state that is given the replies that are
/// left, without having read a page of modules on the way.
pub open spec fn continues(
    state: Result<ProgressModel, ErrorModel>,
    replies: Seq<JsonModel>,
    at: nat,
    next: Reading<Result<ProgressModel, ErrorModel>>,
) -> bool {
    match next {
        None => is_waiting(stepped(state, replies, at)),
        Some(Err(error)) => stepped(state, replies, at) == Err::<ProgressModel, ErrorModel>(error),
        Some(Ok((later, left))) => {
            &&& stepped(state, replies, at) == stepped(later, replies, left)
            &&& modules_read(state, replies, at) == modules_read(later, replies, left)
        },
    }
}

/// What a fetch goes on with once all the nodes of a connection are there.
pub open spec fn with_nodes(
    source: SourceModel,
    package: PackageModel,
    page: JsonModel,
    index: nat,
    pause: PauseModel,
    nodes: Reading<Seq<JsonModel>>,
) -> Reading<Result<ProgressModel, ErrorModel>> {
    match nodes {
        None => None,
        Some(Err(error)) => Some(Err(error)),
        Some(Ok((rest, left))) => Some(
            Ok(
                (
                    after_module(
                        source,
                        package,
                        page,
                        index,
                        close_connection(
                            pause.node,
                            pause.module,
                            pause.connection,
                            pause.nodes + rest,
                        ),
                    ),
                    left,
                ),
            ),
        ),
    }
}

/// Replies with the further pages of a connection bring all its nodes.
proof fn lemma_members_over(
    source: SourceModel,
    package: PackageModel,
    page: JsonModel,
    index: nat,
    pause: PauseModel,
    members: JsonModel,
    replies: Seq<JsonModel>,
    at: nat,
)
    ensures
        continues(
            read_members(source, package, page, index, pause, members),
            replies,
            at,
            with_nodes(
                source,
                package,
                page,
                index,
                pause,
                connection_nodes(members, pause.module.name, pause.connection, replies, at),
            ),
        ),
    decreases replies.len() - at,
{
    reveal_with_fuel(stepped, 2);
    if let Ok(Some(after)) = next_cursor(members, pause.module.name, pause.connection) {
        let nodes = pause.nodes + page_nodes(members);
        let onward = PauseModel { nodes, after, ..pause };
        if at < replies.len() {
            if let Ok(reply) = accepted(replies[at as int]) {
                let more = members_page(reply, pause.connection);
                lemma_members_over(source, package, page, index, onward, more, replies, at + 1);
                if let Some(Ok((rest, _))) = connection_nodes(
                    more,
                    pause.module.name,
                    pause.connection,
                    replies,
                    at + 1,
                ) {
                    assert(nodes + rest =~= pause.nodes + (page_nodes(members) + rest));
                }
            }
        }
    }
}

/// A fetch that comes to a connection goes on with the nodes of its first page, which
/// stands in the node of the module, and behind them those of the further pages that the
/// replies bring, or ends with the first error on the way.
pub proof fn law_connection_over_replies(
    source: SourceModel,
    package: PackageModel,
    page: JsonModel,
    index: nat,
    node: JsonModel,
    module: ModuleModel,
    connection: Connection,
    replies: Seq<JsonModel>,
    at: nat,
)
    ensures
        continues(
            after_module(source, package, page, index, open_connection(node, module, connection)),
            replies,
            at,
            (match connection_nodes(
                node.at(connection.key()),
                module.name,
                connection,
                replies,
                at,
            ) {
                None => None,
                Some(Err(error)) => Some(Err(error)),
                Some(Ok((nodes, left))) => Some(
                    Ok(
                        (
                            after_module(
                                source,
                                package,
                                page,
                                index,
                                close_connection(node, module, connection, nodes),
                            ),
                            left,
                        ),
                    ),
                ),
            }),
        ),
{
    let first = node.at(connection.key());
    let pause = PauseModel { node, module, connection, nodes: seq![], after: seq![] };
    lemma_members_over(source, package, page, index, pause, first, replies, at);
    assert(pause.nodes + page_nodes(first) =~= page_nodes(first));
    assert(read_members(source, package, page, index, pause, first) == after_module(
        source,
        package,
        page,
        index,
        open_connection(node, module, connection),
    ));
    if let Some(Ok((nodes, _))) = connection_nodes(first, module.name, connection, replies, at) {
        assert(pause.nodes + nodes =~= nodes);
    }
}

/// Replies bring all the members of a module.
proof fn lemma_module_over(
    source: SourceModel,
    package: PackageModel,
    page: JsonModel,
    index: nat,
    node: JsonModel,
    module: ModuleModel,
    connection: Connection,
    replies: Seq<JsonModel>,
    at: nat,
)
    ensures
        continues(
            after_module(source, package, page, index, open_connection(node, module, connection)),
            replies,
            at,
            (match module_members(node, module, connection, replies, at) {
                None => None,
                Some(Err(error)) => Some(Err(error)),
                Some(Ok((whole, left))) => Some(
                    Ok((read_page(source, with_module(package, whole), page, index), left)),
                ),
            }),
        ),
    decreases connection.left(),
{
    law_connection_over_replies(
        source,
        package,
        page,
        index,
        node,
        module,
        connection,
        replies,
        at,
    );
    if let Some(Ok((nodes, left))) = connection_nodes(
        node.at(connection.key()),
        module.name,
        connection,
        replies,
        at,
    ) {
        if let Ok(filled) = with_members(module, connection, nodes) {
            if let Some(following) = connection.following() {
                lemma_module_over(
                    source,
                    package,
                    page,
                    index,
                    node,
                    filled,
                    following,
                    replies,
                    left,
                );
            }
        }
    }
}

/// Replies bring all the modules of a page.
proof fn lemma_page_over(
    source: SourceModel,
    package: PackageModel,
    page: JsonModel,
    index: nat,
    replies: Seq<JsonModel>,
    at: nat,
)
    ensures
        continues(
            read_page(source, package, page, index),
            replies,
            at,
            (match page_modules(package, page_nodes(page), index, replies, at) {
                None => None,
                Some(Err(error)) => Some(Err(error)),
                Some(Ok((whole, left))) => Some(
                    Ok((read_page(source, whole, page, page_nodes(page).len()), left)),
                ),
            }),
        ),
    decreases page_nodes(page).len() - index,
{
    let nodes = page_nodes(page);
    if index < nodes.len() {
        let node = nodes[index as int];
        if let Some(name) = node.at("name"@).text() {
            lemma_module_over(
                source,
                package,
                page,
                index + 1,
                node,
                named_module(name),
                Connection::Structs,
                replies,
                at,
            );
            if let Some(Ok((module, left))) = module_members(
                node,
                named_module(name),
                Connection::Structs,
                replies,
                at,
            ) {
                lemma_page_over(
                    source,
                    with_module(package, module),
                    page,
                    index + 1,
                    replies,
                    left,
                );
            }
        }
    }
}

/// Whether a fetch in this state comes out as `outcome` says: it waits for more replies
/// where there is none.
pub open spec fn comes_out(
    state: Result<ProgressModel, ErrorModel>,
    outcome: Option<Result<PackageModel, ErrorModel>>,
) -> bool {
    match outcome {
        None => is_waiting(state),
        Some(result) => state == ended(result),
    }
}

/// Replies bring all the pages of modules.
proof fn lemma_pages_over(
    source: SourceModel,
    package: PackageModel,
    after: JsonModel,
    replies: Seq<JsonModel>,
    at: nat,
)
    ensures
        comes_out(
            stepped(waiting(source, StageModel::Modules { package, after }), replies, at),
            package_modules(package, replies, at),
        ),
    decreases replies.len() - at,
{
    reveal_with_fuel(stepped, 2);
    if at < replies.len() {
        if let Ok(reply) = accepted(replies[at as int]) {
            let page = modules_page(reply);
            let nodes = page_nodes(page);
            lemma_page_over(source, package, page, 0, replies, at + 1);
            lemma_page_left(package, nodes, 0, replies, at + 1);
            if let Some(Ok((whole, left))) = page_modules(package, nodes, 0, replies, at + 1) {
                if has_next_page(page) {
                    lemma_pages_over(source, whole, end_cursor(page), replies, left);
                }
            }
        }
    }
}

/// Whatever the replies are, a fetch ends with the package that they make up: every page of
/// modules, and of each module every page of its structs, its enums and its functions, in
/// the order in which they arrive, or the first error on the way. It goes on waiting
/// exactly as long as the replies do not suffice.
pub proof fn law_fetch_ends_with_what_replies_make_up(
    source: SourceModel,
    replies: Seq<JsonModel>,
)
    ensures
        comes_out(
            stepped(Ok(ProgressModel::Waiting(new_fetch(source))), replies, 0),
            made_up_package(source, replies),
        ),
{
    reveal_with_fuel(stepped, 2);
    if replies.len() > 0 {
        if let Ok(reply) = accepted(replies[0]) {
            if let Ok(ProgressModel::Waiting(
                FetchModel { stage: StageModel::Modules { package, after }, .. },
            )) = read_metadata(source, reply) {
                lemma_pages_over(source, package, after, replies, 1);
            }
        }
    }
}

/// The nodes on the pages of modules are those of the page at hand and of the pages after
/// it.
pub(crate) proof fn lemma_modules_read(
    source: SourceModel,
    package: PackageModel,
    after: JsonModel,
    replies: Seq<JsonModel>,
    at: nat,
)
    requires
        at < replies.len(),
        refusal(replies[at as int]) is None,
    ensures
        ({
            let page = modules_page(replies[at as int]);
            let read = modules_read(
                waiting(source, StageModel::Modules { package, after }),
                replies,
                at,
            );
            page_modules(package, page_nodes(page), 0, replies, at + 1) matches Some(
                Ok((whole, left)),
            ) ==> at < left <= replies.len() && read == (if has_next_page(page) {
                page_nodes(page) + modules_read(
                    waiting(
                        source,
                        StageModel::Modules { package: whole, after: end_cursor(page) },
                    ),
                    replies,
                    left,
                )
            } else {
                page_nodes(page)
            })
        }),
{
    let page = modules_page(replies[at as int]);
    lemma_page_over(source, package, page, 0, replies, at + 1);
    lemma_page_left(package, page_nodes(page), 0, replies, at + 1);
    assert(page_nodes(page) + Seq::<JsonModel>::empty() =~= page_nodes(page));
}

} // verus!
