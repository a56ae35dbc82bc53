//! What a fetch yields from a service that answers every request alike: the package
//! that the pages of the service make up, whatever the number of pages it is cut into.

use vstd::prelude::*;

use crate::error::ErrorModel;
use crate::json::JsonModel;
use crate::normalized::{ModuleModel, PackageModel};
use crate::package_provider::{
    after_module, close_connection, end_cursor, has_next_page, law_fetch_stays_sound,
    named_module, new_fetch, next_cursor, open_connection, page_nodes, pending_request, progress,
    read_members, read_metadata, read_page, refusal, sound_package, sound_progress, started,
    waiting, with_members, with_module, FetchModel, PauseModel, ProgressModel, SourceModel,
    StageModel,
};
use crate::request::{members_request, metadata_request, modules_request, Connection, RequestModel};

verus! {

/// A service: its reply to each request.
pub type Service = spec_fn(RequestModel) -> JsonModel;

/// The reply to `request`, or the errors it comes with.
pub open spec fn answer(service: Service, request: RequestModel) -> Result<JsonModel, ErrorModel> {
    match refusal(service(request)) {
        Some(errors) => Err(ErrorModel::GraphQl(errors)),
        None => Ok(service(request)),
    }
}

/// All the nodes of a connection from `page` on, over at most `limit` further pages.
/// There is no outcome if those do not suffice.
pub open spec fn all_nodes(
    service: Service,
    package_id: Seq<u8>,
    module: Seq<char>,
    connection: Connection,
    page: JsonModel,
    limit: nat,
) -> Option<Result<Seq<JsonModel>, ErrorModel>>
    decreases limit,
{
    match next_cursor(page, module, connection) {
        Err(error) => Some(Err(error)),
        Ok(None) => Some(Ok(page_nodes(page))),
        Ok(Some(after)) => if limit == 0 {
            None
        } else {
            match answer(service, members_request(package_id, module, connection, after)) {
                Err(error) => Some(Err(error)),
                Ok(reply) => match all_nodes(
                    service,
                    package_id,
                    module,
                    connection,
                    reply.at("data"@).at("package"@).at("module"@).at(connection.key()),
                    (limit - 1) as nat,
                ) {
                    Some(Ok(rest)) => Some(Ok(page_nodes(page) + rest)),
                    other => other,
                },
            }
        },
    }
}

/// `module` with all the members of `connection` and of the connections after it.
pub open spec fn whole_module(
    service: Service,
    package_id: Seq<u8>,
    node: JsonModel,
    module: ModuleModel,
    connection: Connection,
    limit: nat,
) -> Option<Result<ModuleModel, ErrorModel>>
    decreases connection.left(),
{
    match all_nodes(
        service,
        package_id,
        module.name,
        connection,
        node.at(connection.key()),
        limit,
    ) {
        None => None,
        Some(Err(error)) => Some(Err(error)),
        Some(Ok(nodes)) => match with_members(module, connection, nodes) {
            Err(error) => Some(Err(error)),
            Ok(module) => match connection.following() {
                None => Some(Ok(module)),
                Some(following) => whole_module(
                    service,
                    package_id,
                    node,
                    module,
                    following,
                    limit,
                ),
            },
        },
    }
}

/// `package` with the modules that `nodes` describe from `index` on.
pub open spec fn whole_modules(
    service: Service,
    package: PackageModel,
    nodes: Seq<JsonModel>,
    index: nat,
    limit: nat,
) -> Option<Result<PackageModel, ErrorModel>>
    decreases nodes.len() - index,
{
    if index >= nodes.len() {
        Some(Ok(package))
    } else {
        match nodes[index as int].at("name"@).text() {
            None => Some(Err(ErrorModel::MissingModuleName)),
            Some(name) => match whole_module(
                service,
                package.address,
                nodes[index as int],
                named_module(name),
                Connection::Structs,
                limit,
            ) {
                None => None,
                Some(Err(error)) => Some(Err(error)),
                Some(Ok(module)) => whole_modules(
                    service,
                    with_module(package, module),
                    nodes,
                    index + 1,
                    limit,
                ),
            },
        }
    }
}

/// `package` with the modules of the page after the cursor `after` and of the pages
/// that follow it, at most `limit` pages in all.
pub open spec fn all_modules(
    service: Service,
    package: PackageModel,
    after: JsonModel,
    limit: nat,
) -> Option<Result<PackageModel, ErrorModel>>
    decreases limit,
{
    if limit == 0 {
        None
    } else {
        match answer(service, modules_request(package.address, after)) {
            Err(error) => Some(Err(error)),
            Ok(reply) => {
                let page = reply.at("data"@).at("package"@).at("modules"@);
                match whole_modules(service, package, page_nodes(page), 0, (limit - 1) as nat) {
                    None => None,
                    Some(Err(error)) => Some(Err(error)),
                    Some(Ok(package)) => if has_next_page(page) {
                        all_modules(service, package, end_cursor(page), (limit - 1) as nat)
                    } else {
                        Some(Ok(package))
                    },
                }
            },
        }
    }
}

/// The package that the service has at an address.
pub open spec fn whole_package(service: Service, source: SourceModel, limit: nat) -> Option<
    Result<PackageModel, ErrorModel>,
> {
    match answer(service, metadata_request(source.package_id)) {
        Err(error) => Some(Err(error)),
        Ok(reply) => match read_metadata(source, reply) {
            Err(error) => Some(Err(error)),
            Ok(ProgressModel::Waiting(
                FetchModel { stage: StageModel::Modules { package, after }, .. },
            )) => all_modules(service, package, after, limit),
            Ok(_) => None,
        },
    }
}

/// Where a fetch stands once the service has answered up to `replies` requests.
pub open spec fn driven(
    service: Service,
    state: Result<ProgressModel, ErrorModel>,
    replies: nat,
) -> Result<ProgressModel, ErrorModel>
    decreases replies,
{
    match state {
        Ok(ProgressModel::Waiting(fetch)) => if replies == 0 {
            state
        } else {
            driven(
                service,
                progress(fetch, service(pending_request(fetch))),
                (replies - 1) as nat,
            )
        },
        _ => state,
    }
}

/// Whether the service leads a fetch from one state to another.
pub open spec fn leads(
    service: Service,
    from: Result<ProgressModel, ErrorModel>,
    to: Result<ProgressModel, ErrorModel>,
) -> bool {
    exists|replies: nat| #[trigger] driven(service, from, replies) == to
}

/// The state in which a fetch ends with this outcome.
pub open spec fn ended(outcome: Result<PackageModel, ErrorModel>) -> Result<
    ProgressModel,
    ErrorModel,
> {
    match outcome {
        Ok(package) => Ok(ProgressModel::Done(package)),
        Err(error) => Err(error),
    }
}

/// Replies add up.
proof fn lemma_driven_add(
    service: Service,
    state: Result<ProgressModel, ErrorModel>,
    first: nat,
    second: nat,
)
    ensures
        driven(service, driven(service, state, first), second) == driven(
            service,
            state,
            first + second,
        ),
    decreases first,
{
    if let Ok(ProgressModel::Waiting(fetch)) = state {
        if first > 0 {
            lemma_driven_add(
                service,
                progress(fetch, service(pending_request(fetch))),
                (first - 1) as nat,
                second,
            );
        }
    }
}

/// A state leads to itself.
proof fn lemma_leads_self(service: Service, state: Result<ProgressModel, ErrorModel>)
    ensures
        leads(service, state, state),
{
    assert(driven(service, state, 0) == state);
}

/// Leading is transitive.
proof fn lemma_leads_on(
    service: Service,
    a: Result<ProgressModel, ErrorModel>,
    b: Result<ProgressModel, ErrorModel>,
    c: Result<ProgressModel, ErrorModel>,
)
    requires
        leads(service, a, b),
        leads(service, b, c),
    ensures
        leads(service, a, c),
{
    let first = choose|n: nat| #[trigger] driven(service, a, n) == b;
    let second = choose|n: nat| #[trigger] driven(service, b, n) == c;
    lemma_driven_add(service, a, first, second);
    assert(driven(service, a, first + second) == c);
}

/// A fetch leads to what it makes of the reply to its request.
proof fn lemma_leads_step(service: Service, fetch: FetchModel)
    ensures
        leads(
            service,
            Ok(ProgressModel::Waiting(fetch)),
            progress(fetch, service(pending_request(fetch))),
        ),
{
    let next = progress(fetch, service(pending_request(fetch)));
    assert(driven(service, next, 0) == next);
    assert(driven(service, Ok(ProgressModel::Waiting(fetch)), 1) == next);
}

/// What a fetch does once it has all the nodes of a connection, or an error in place of
/// them.
spec fn with_all_nodes(
    source: SourceModel,
    package: PackageModel,
    page: JsonModel,
    index: nat,
    pause: PauseModel,
    outcome: Result<Seq<JsonModel>, ErrorModel>,
) -> Result<ProgressModel, ErrorModel> {
    match outcome {
        Err(error) => Err(error),
        Ok(rest) => after_module(
            source,
            package,
            page,
            index,
            close_connection(pause.node, pause.module, pause.connection, pause.nodes + rest),
        ),
    }
}

/// What has arrived, the page at hand and the pages after it lead to all the nodes.
proof fn lemma_members(
    service: Service,
    source: SourceModel,
    package: PackageModel,
    page: JsonModel,
    index: nat,
    pause: PauseModel,
    members: JsonModel,
    limit: nat,
)
    requires
        all_nodes(
            service,
            source.package_id,
            pause.module.name,
            pause.connection,
            members,
            limit,
        ) is Some,
    ensures
        leads(
            service,
            read_members(source, package, page, index, pause, members),
            with_all_nodes(
                source,
                package,
                page,
                index,
                pause,
                all_nodes(
                    service,
                    source.package_id,
                    pause.module.name,
                    pause.connection,
                    members,
                    limit,
                )->0,
            ),
        ),
    decreases limit,
{
    let state = read_members(source, package, page, index, pause, members);
    let nodes = pause.nodes + page_nodes(members);
    match next_cursor(members, pause.module.name, pause.connection) {
        Err(error) => {
            lemma_leads_self(service, state);
        },
        Ok(None) => {
            lemma_leads_self(service, state);
        },
        Ok(Some(after)) => {
            let onward = PauseModel { nodes, after, ..pause };
            let fetch = FetchModel {
                source,
                stage: StageModel::Members { package, page, index, pause: onward },
            };
            let request = pending_request(fetch);
            lemma_leads_step(service, fetch);
            match answer(service, request) {
                Err(error) => {},
                Ok(reply) => {
                    let more = reply.at("data"@).at("package"@).at("module"@).at(
                        pause.connection.key(),
                    );
                    lemma_members(
                        service,
                        source,
                        package,
                        page,
                        index,
                        onward,
                        more,
                        (limit - 1) as nat,
                    );
                    let rest = all_nodes(
                        service,
                        source.package_id,
                        pause.module.name,
                        pause.connection,
                        more,
                        (limit - 1) as nat,
                    )->0;
                    if let Ok(rest) = rest {
                        assert(nodes + rest =~= pause.nodes + (page_nodes(members) + rest));
                    }
                    lemma_leads_on(
                        service,
                        state,
                        progress(fetch, service(request)),
                        with_all_nodes(source, package, page, index, onward, rest),
                    );
                },
            }
        },
    }
}

/// What a fetch does once it has a whole module, or an error in place of it.
spec fn with_whole_module(
    source: SourceModel,
    package: PackageModel,
    page: JsonModel,
    index: nat,
    outcome: Result<ModuleModel, ErrorModel>,
) -> Result<ProgressModel, ErrorModel> {
    match outcome {
        Err(error) => Err(error),
        Ok(module) => read_page(source, with_module(package, module), page, index),
    }
}

/// The connections of a module, from one on, lead to the whole module.
proof fn lemma_module(
    service: Service,
    source: SourceModel,
    package: PackageModel,
    page: JsonModel,
    index: nat,
    node: JsonModel,
    module: ModuleModel,
    connection: Connection,
    limit: nat,
)
    requires
        whole_module(service, source.package_id, node, module, connection, limit) is Some,
    ensures
        leads(
            service,
            after_module(
                source,
                package,
                page,
                index,
                open_connection(node, module, connection),
            ),
            with_whole_module(
                source,
                package,
                page,
                index,
                whole_module(service, source.package_id, node, module, connection, limit)->0,
            ),
        ),
    decreases connection.left(),
{
    let first = node.at(connection.key());
    let state = after_module(
        source,
        package,
        page,
        index,
        open_connection(node, module, connection),
    );
    // The first page counts like a page that arrives while no nodes have arrived yet.
    let pause = PauseModel { node, module, connection, nodes: seq![], after: seq![] };
    assert(pause.nodes + page_nodes(first) =~= page_nodes(first));
    assert(state == read_members(source, package, page, index, pause, first));
    lemma_members(service, source, package, page, index, pause, first, limit);
    let outcome = all_nodes(
        service,
        source.package_id,
        module.name,
        connection,
        first,
        limit,
    )->0;
    if let Ok(nodes) = outcome {
        assert(pause.nodes + nodes =~= nodes);
        if let Ok(filled) = with_members(module, connection, nodes) {
            if let Some(following) = connection.following() {
                assert(filled.name == module.name);
                lemma_module(
                    service,
                    source,
                    package,
                    page,
                    index,
                    node,
                    filled,
                    following,
                    limit,
                );
                lemma_leads_on(
                    service,
                    state,
                    after_module(
                        source,
                        package,
                        page,
                        index,
                        open_connection(node, filled, following),
                    ),
                    with_whole_module(
                        source,
                        package,
                        page,
                        index,
                        whole_module(
                            service,
                            source.package_id,
                            node,
                            filled,
                            following,
                            limit,
                        )->0,
                    ),
                );
            }
        }
    }
}

/// What a fetch does once it has all the modules of a page, or an error in place of
/// them.
spec fn with_whole_modules(
    source: SourceModel,
    page: JsonModel,
    outcome: Result<PackageModel, ErrorModel>,
) -> Result<ProgressModel, ErrorModel> {
    match outcome {
        Err(error) => Err(error),
        Ok(package) => read_page(source, package, page, page_nodes(page).len()),
    }
}

/// The modules of a page, from one on, lead to all of them.
proof fn lemma_modules(
    service: Service,
    source: SourceModel,
    package: PackageModel,
    page: JsonModel,
    index: nat,
    limit: nat,
)
    requires
        package.address == source.package_id,
        index <= page_nodes(page).len(),
        whole_modules(service, package, page_nodes(page), index, limit) is Some,
    ensures
        leads(
            service,
            read_page(source, package, page, index),
            with_whole_modules(
                source,
                page,
                whole_modules(service, package, page_nodes(page), index, limit)->0,
            ),
        ),
    decreases page_nodes(page).len() - index,
{
    let nodes = page_nodes(page);
    let state = read_page(source, package, page, index);
    if index >= nodes.len() {
        lemma_leads_self(service, state);
    } else {
        match nodes[index as int].at("name"@).text() {
            None => {
                lemma_leads_self(service, state);
            },
            Some(name) => {
                let node = nodes[index as int];
                lemma_module(
                    service,
                    source,
                    package,
                    page,
                    index + 1,
                    node,
                    named_module(name),
                    Connection::Structs,
                    limit,
                );
                if let Ok(module) = whole_module(
                    service,
                    source.package_id,
                    node,
                    named_module(name),
                    Connection::Structs,
                    limit,
                )->0 {
                    lemma_modules(
                        service,
                        source,
                        with_module(package, module),
                        page,
                        index + 1,
                        limit,
                    );
                    lemma_leads_on(
                        service,
                        state,
                        read_page(source, with_module(package, module), page, index + 1),
                        with_whole_modules(
                            source,
                            page,
                            whole_modules(
                                service,
                                with_module(package, module),
                                nodes,
                                index + 1,
                                limit,
                            )->0,
                        ),
                    );
                }
            },
        }
    }
}

/// Reading modules leaves the address of the package alone.
proof fn lemma_whole_modules_address(
    service: Service,
    package: PackageModel,
    nodes: Seq<JsonModel>,
    index: nat,
    limit: nat,
)
    ensures
        whole_modules(service, package, nodes, index, limit) matches Some(Ok(whole))
            ==> whole.address == package.address,
    decreases nodes.len() - index,
{
    if index < nodes.len() {
        if let Some(name) = nodes[index as int].at("name"@).text() {
            if let Some(Ok(module)) = whole_module(
                service,
                package.address,
                nodes[index as int],
                named_module(name),
                Connection::Structs,
                limit,
            ) {
                lemma_whole_modules_address(
                    service,
                    with_module(package, module),
                    nodes,
                    index + 1,
                    limit,
                );
            }
        }
    }
}

/// The pages of modules, from a cursor on, lead to the package with all of them.
proof fn lemma_pages(
    service: Service,
    source: SourceModel,
    package: PackageModel,
    after: JsonModel,
    limit: nat,
)
    requires
        package.address == source.package_id,
        all_modules(service, package, after, limit) is Some,
    ensures
        leads(
            service,
            waiting(source, StageModel::Modules { package, after }),
            ended(all_modules(service, package, after, limit)->0),
        ),
    decreases limit,
{
    let fetch = FetchModel { source, stage: StageModel::Modules { package, after } };
    let state = waiting(source, StageModel::Modules { package, after });
    lemma_leads_step(service, fetch);
    if let Ok(reply) = answer(service, modules_request(package.address, after)) {
        let page = reply.at("data"@).at("package"@).at("modules"@);
        let below = (limit - 1) as nat;
        let outcome = whole_modules(service, package, page_nodes(page), 0, below)->0;
        lemma_modules(service, source, package, page, 0, below);
        lemma_leads_on(
            service,
            state,
            read_page(source, package, page, 0),
            with_whole_modules(source, page, outcome),
        );
        if let Ok(whole) = outcome {
            lemma_whole_modules_address(service, package, page_nodes(page), 0, below);
            if has_next_page(page) {
                lemma_pages(service, source, whole, end_cursor(page), below);
                lemma_leads_on(
                    service,
                    state,
                    waiting(
                        source,
                        StageModel::Modules { package: whole, after: end_cursor(page) },
                    ),
                    ended(all_modules(service, whole, end_cursor(page), below)->0),
                );
            }
        }
    }
}

/// Driven by a service, a fetch ends with the package that the service has: every page
/// of its modules, and of each module every page of its structs, its enums and its
/// functions, in their order, or the first error on the way.
pub proof fn law_fetch_yields_whole_package(service: Service, source: SourceModel, limit: nat)
    requires
        whole_package(service, source, limit) is Some,
    ensures
        leads(
            service,
            Ok(ProgressModel::Waiting(new_fetch(source))),
            ended(whole_package(service, source, limit)->0),
        ),
{
    let fetch = new_fetch(source);
    lemma_leads_step(service, fetch);
    if let Ok(reply) = answer(service, metadata_request(source.package_id)) {
        if let Ok(ProgressModel::Waiting(
            FetchModel { stage: StageModel::Modules { package, after }, .. },
        )) = read_metadata(source, reply) {
            lemma_pages(service, source, package, after, limit);
            lemma_leads_on(
                service,
                Ok(ProgressModel::Waiting(fetch)),
                waiting(source, StageModel::Modules { package, after }),
                ended(all_modules(service, package, after, limit)->0),
            );
        }
    }
}

/// Whether a fetch still waits for a reply.
pub open spec fn is_waiting(state: Result<ProgressModel, ErrorModel>) -> bool {
    state matches Ok(ProgressModel::Waiting(_))
}

/// A fetch that still waits after some replies waited after fewer.
proof fn lemma_waiting_before(
    service: Service,
    state: Result<ProgressModel, ErrorModel>,
    fewer: nat,
    replies: nat,
)
    requires
        fewer <= replies,
        is_waiting(driven(service, state, replies)),
    ensures
        is_waiting(driven(service, state, fewer)),
{
    lemma_driven_add(service, state, fewer, (replies - fewer) as nat);
}

/// A fetch that leads to a state that still waits after some replies waits after as
/// many itself.
proof fn lemma_waiting_through(
    service: Service,
    state: Result<ProgressModel, ErrorModel>,
    later: Result<ProgressModel, ErrorModel>,
    replies: nat,
)
    requires
        leads(service, state, later),
        is_waiting(driven(service, later, replies)),
    ensures
        is_waiting(driven(service, state, replies)),
{
    let first = choose|n: nat| #[trigger] driven(service, state, n) == later;
    lemma_driven_add(service, state, first, replies);
    lemma_waiting_before(service, state, replies, first + replies);
}

/// Where the pages of a connection do not suffice, the fetch waits on.
proof fn lemma_members_short(
    service: Service,
    source: SourceModel,
    package: PackageModel,
    page: JsonModel,
    index: nat,
    pause: PauseModel,
    members: JsonModel,
    limit: nat,
)
    requires
        all_nodes(
            service,
            source.package_id,
            pause.module.name,
            pause.connection,
            members,
            limit,
        ) is None,
    ensures
        is_waiting(
            driven(
                service,
                read_members(source, package, page, index, pause, members),
                limit,
            ),
        ),
    decreases limit,
{
    if let Ok(Some(after)) = next_cursor(members, pause.module.name, pause.connection) {
        let nodes = pause.nodes + page_nodes(members);
        let onward = PauseModel { nodes, after, ..pause };
        let fetch = FetchModel {
            source,
            stage: StageModel::Members { package, page, index, pause: onward },
        };
        if limit > 0 {
            if let Ok(reply) = answer(service, pending_request(fetch)) {
                lemma_members_short(
                    service,
                    source,
                    package,
                    page,
                    index,
                    onward,
                    reply.at("data"@).at("package"@).at("module"@).at(pause.connection.key()),
                    (limit - 1) as nat,
                );
            }
        }
    }
}

/// Where the pages of a module do not suffice, the fetch waits on.
proof fn lemma_module_short(
    service: Service,
    source: SourceModel,
    package: PackageModel,
    page: JsonModel,
    index: nat,
    node: JsonModel,
    module: ModuleModel,
    connection: Connection,
    limit: nat,
)
    requires
        whole_module(service, source.package_id, node, module, connection, limit) is None,
    ensures
        is_waiting(
            driven(
                service,
                after_module(
                    source,
                    package,
                    page,
                    index,
                    open_connection(node, module, connection),
                ),
                limit,
            ),
        ),
    decreases connection.left(),
{
    let first = node.at(connection.key());
    let state = after_module(
        source,
        package,
        page,
        index,
        open_connection(node, module, connection),
    );
    let pause = PauseModel { node, module, connection, nodes: seq![], after: seq![] };
    assert(pause.nodes + page_nodes(first) =~= page_nodes(first));
    assert(state == read_members(source, package, page, index, pause, first));
    match all_nodes(service, source.package_id, module.name, connection, first, limit) {
        None => {
            lemma_members_short(service, source, package, page, index, pause, first, limit);
        },
        Some(Err(_)) => {},
        Some(Ok(nodes)) => {
            lemma_members(service, source, package, page, index, pause, first, limit);
            assert(pause.nodes + nodes =~= nodes);
            if let Ok(filled) = with_members(module, connection, nodes) {
                if let Some(following) = connection.following() {
                    lemma_module_short(
                        service,
                        source,
                        package,
                        page,
                        index,
                        node,
                        filled,
                        following,
                        limit,
                    );
                    lemma_waiting_through(
                        service,
                        state,
                        after_module(
                            source,
                            package,
                            page,
                            index,
                            open_connection(node, filled, following),
                        ),
                        limit,
                    );
                }
            }
        },
    }
}

/// Where the pages of the modules of a page do not suffice, the fetch waits on.
proof fn lemma_modules_short(
    service: Service,
    source: SourceModel,
    package: PackageModel,
    page: JsonModel,
    index: nat,
    limit: nat,
)
    requires
        package.address == source.package_id,
        whole_modules(service, package, page_nodes(page), index, limit) is None,
    ensures
        is_waiting(driven(service, read_page(source, package, page, index), limit)),
    decreases page_nodes(page).len() - index,
{
    let nodes = page_nodes(page);
    let state = read_page(source, package, page, index);
    let node = nodes[index as int];
    if let Some(name) = node.at("name"@).text() {
        match whole_module(
            service,
            source.package_id,
            node,
            named_module(name),
            Connection::Structs,
            limit,
        ) {
            None => {
                lemma_module_short(
                    service,
                    source,
                    package,
                    page,
                    index + 1,
                    node,
                    named_module(name),
                    Connection::Structs,
                    limit,
                );
            },
            Some(Err(_)) => {},
            Some(Ok(module)) => {
                lemma_module(
                    service,
                    source,
                    package,
                    page,
                    index + 1,
                    node,
                    named_module(name),
                    Connection::Structs,
                    limit,
                );
                lemma_modules_short(
                    service,
                    source,
                    with_module(package, module),
                    page,
                    index + 1,
                    limit,
                );
                lemma_waiting_through(
                    service,
                    state,
                    read_page(source, with_module(package, module), page, index + 1),
                    limit,
                );
            },
        }
    }
}

/// Where the pages of modules do not suffice, the fetch waits on.
proof fn lemma_pages_short(
    service: Service,
    source: SourceModel,
    package: PackageModel,
    after: JsonModel,
    limit: nat,
)
    requires
        package.address == source.package_id,
        all_modules(service, package, after, limit) is None,
    ensures
        is_waiting(
            driven(service, waiting(source, StageModel::Modules { package, after }), limit),
        ),
    decreases limit,
{
    if limit > 0 {
        if let Ok(reply) = answer(service, modules_request(package.address, after)) {
            let page = reply.at("data"@).at("package"@).at("modules"@);
            let below = (limit - 1) as nat;
            let state = read_page(source, package, page, 0);
            match whole_modules(service, package, page_nodes(page), 0, below) {
                None => {
                    lemma_modules_short(service, source, package, page, 0, below);
                },
                Some(Err(_)) => {},
                Some(Ok(whole)) => {
                    lemma_modules(service, source, package, page, 0, below);
                    lemma_whole_modules_address(service, package, page_nodes(page), 0, below);
                    let onward = waiting(
                        source,
                        StageModel::Modules { package: whole, after: end_cursor(page) },
                    );
                    lemma_pages_short(service, source, whole, end_cursor(page), below);
                    lemma_waiting_through(service, state, onward, below);
                },
            }
        }
    }
}

/// A fetch that a service has brought to an end has ended with the package that the
/// service has, or with the first error on the way to it: nothing else can come out.
pub proof fn law_fetch_ends_with_whole_package(
    service: Service,
    source: SourceModel,
    replies: nat,
    outcome: Result<PackageModel, ErrorModel>,
)
    requires
        driven(service, Ok(ProgressModel::Waiting(new_fetch(source))), replies) == ended(outcome),
    ensures
        whole_package(service, source, replies) == Some(outcome),
{
    let start = Ok(ProgressModel::Waiting(new_fetch(source)));
    if whole_package(service, source, replies) is None {
        if let Ok(reply) = answer(service, metadata_request(source.package_id)) {
            if let Ok(ProgressModel::Waiting(
                FetchModel { stage: StageModel::Modules { package, after }, .. },
            )) = read_metadata(source, reply) {
                lemma_leads_step(service, new_fetch(source));
                lemma_pages_short(service, source, package, after, replies);
                lemma_waiting_through(
                    service,
                    start,
                    waiting(source, StageModel::Modules { package, after }),
                    replies,
                );
            }
        }
    } else {
        law_fetch_yields_whole_package(service, source, replies);
        let whole = whole_package(service, source, replies)->0;
        let n = choose|n: nat| #[trigger] driven(service, start, n) == ended(whole);
        lemma_driven_add(service, start, n, replies);
        lemma_driven_add(service, start, replies, n);
    }
}

/// The package that a service has at an address does not depend on how many pages are
/// allowed for: where they suffice, the outcome is the same.
pub proof fn law_whole_package_unique(service: Service, source: SourceModel, a: nat, b: nat)
    requires
        whole_package(service, source, a) is Some,
        whole_package(service, source, b) is Some,
    ensures
        whole_package(service, source, a) == whole_package(service, source, b),
{
    let start = Ok(ProgressModel::Waiting(new_fetch(source)));
    let first = whole_package(service, source, a)->0;
    let second = whole_package(service, source, b)->0;
    law_fetch_yields_whole_package(service, source, a);
    law_fetch_yields_whole_package(service, source, b);
    let m = choose|n: nat| #[trigger] driven(service, start, n) == ended(first);
    let n = choose|n: nat| #[trigger] driven(service, start, n) == ended(second);
    lemma_driven_add(service, start, m, n);
    lemma_driven_add(service, start, n, m);
}

/// The modules behind the first nodes are read as those of the other nodes alone.
proof fn lemma_modules_skip(
    service: Service,
    package: PackageModel,
    first: Seq<JsonModel>,
    second: Seq<JsonModel>,
    index: nat,
    limit: nat,
)
    ensures
        whole_modules(service, package, first + second, first.len() + index, limit)
            == whole_modules(service, package, second, index, limit),
    decreases second.len() - index,
{
    if index < second.len() {
        let node = second[index as int];
        assert((first + second)[(first.len() + index) as int] == node);
        if let Some(name) = node.at("name"@).text() {
            if let Some(Ok(module)) = whole_module(
                service,
                package.address,
                node,
                named_module(name),
                Connection::Structs,
                limit,
            ) {
                lemma_modules_skip(
                    service,
                    with_module(package, module),
                    first,
                    second,
                    index + 1,
                    limit,
                );
            }
        }
    }
}

/// From any node of the first ones on, the modules are read as those of the first nodes
/// and then those of the others.
proof fn lemma_modules_split(
    service: Service,
    package: PackageModel,
    first: Seq<JsonModel>,
    second: Seq<JsonModel>,
    index: nat,
    limit: nat,
)
    requires
        index <= first.len(),
    ensures
        whole_modules(service, package, first + second, index, limit) == (match whole_modules(
            service,
            package,
            first,
            index,
            limit,
        ) {
            Some(Ok(whole)) => whole_modules(service, whole, second, 0, limit),
            other => other,
        }),
    decreases first.len() - index,
{
    if index == first.len() {
        lemma_modules_skip(service, package, first, second, 0, limit);
    } else {
        let node = first[index as int];
        assert((first + second)[index as int] == node);
        if let Some(name) = node.at("name"@).text() {
            if let Some(Ok(module)) = whole_module(
                service,
                package.address,
                node,
                named_module(name),
                Connection::Structs,
                limit,
            ) {
                lemma_modules_split(
                    service,
                    with_module(package, module),
                    first,
                    second,
                    index + 1,
                    limit,
                );
            }
        }
    }
}

/// How the nodes of modules are cut into pages makes no difference: reading two pages one
/// after the other gives what reading all their nodes on one page gives.
pub proof fn law_pages_of_modules_join(
    service: Service,
    package: PackageModel,
    first: Seq<JsonModel>,
    second: Seq<JsonModel>,
    limit: nat,
)
    ensures
        whole_modules(service, package, first + second, 0, limit) == (match whole_modules(
            service,
            package,
            first,
            0,
            limit,
        ) {
            Some(Ok(whole)) => whole_modules(service, whole, second, 0, limit),
            other => other,
        }),
{
    lemma_modules_split(service, package, first, second, 0, limit);
}

/// Whatever a service leads a sound fetch to is sound.
proof fn lemma_driven_sound(
    service: Service,
    source: SourceModel,
    state: Result<ProgressModel, ErrorModel>,
    replies: nat,
)
    requires
        sound_progress(source, state),
    ensures
        sound_progress(source, driven(service, state, replies)),
    decreases replies,
{
    if let Ok(ProgressModel::Waiting(fetch)) = state {
        if replies > 0 {
            let reply = service(pending_request(fetch));
            law_fetch_stays_sound(fetch, reply);
            lemma_driven_sound(service, source, progress(fetch, reply), (replies - 1) as nat);
        }
    }
}

/// The package that a fetch ends with is at the address that was asked for, and every
/// module of it stands under its own name.
pub proof fn law_fetched_package_is_sound(
    service: Service,
    source: SourceModel,
    replies: nat,
    package: PackageModel,
)
    requires
        driven(service, Ok(ProgressModel::Waiting(new_fetch(source))), replies) == Ok::<
            ProgressModel,
            ErrorModel,
        >(ProgressModel::Done(package)),
    ensures
        sound_package(source, package),
{
    law_fetch_stays_sound(new_fetch(source), JsonModel::Null);
    lemma_driven_sound(
        service,
        source,
        Ok(ProgressModel::Waiting(new_fetch(source))),
        replies,
    );
}

/// A package that was not resolved is not asked for: no reply of any service changes that
/// the fetch has ended with the reason.
pub proof fn law_unresolved_package_is_not_asked_for(
    service: Service,
    endpoint: Seq<char>,
    reason: Seq<char>,
    replies: nat,
)
    ensures
        !is_waiting(started(endpoint, Err(reason))),
        driven(service, started(endpoint, Err(reason)), replies) == Err::<
            ProgressModel,
            ErrorModel,
        >(ErrorModel::Outside(reason)),
{
}

/// The nodes of a connection on the page after the cursor `after` and on the pages that
/// follow it, at most `limit` pages in all. There is no outcome if those do not suffice.
pub open spec fn remaining_nodes(
    service: Service,
    package_id: Seq<u8>,
    module: Seq<char>,
    connection: Connection,
    after: Seq<char>,
    limit: nat,
) -> Option<Result<Seq<JsonModel>, ErrorModel>> {
    if limit == 0 {
        None
    } else {
        match answer(service, members_request(package_id, module, connection, after)) {
            Err(error) => Some(Err(error)),
            Ok(reply) => all_nodes(
                service,
                package_id,
                module,
                connection,
                reply.at("data"@).at("package"@).at("module"@).at(connection.key()),
                (limit - 1) as nat,
            ),
        }
    }
}

/// The nodes of a connection are those on its first page, which stands in the node of the
/// module, and behind them those of the remaining pages, where there are any. An error of
/// the remaining pages is the error of the connection: the first nodes are then not
/// returned on their own.
pub proof fn law_first_nodes_then_the_remaining(
    service: Service,
    package_id: Seq<u8>,
    module: Seq<char>,
    connection: Connection,
    page: JsonModel,
    limit: nat,
)
    ensures
        all_nodes(service, package_id, module, connection, page, limit) == (match next_cursor(
            page,
            module,
            connection,
        ) {
            Err(error) => Some(Err(error)),
            Ok(None) => Some(Ok(page_nodes(page))),
            Ok(Some(after)) => match remaining_nodes(
                service,
                package_id,
                module,
                connection,
                after,
                limit,
            ) {
                Some(Ok(rest)) => Some(Ok(page_nodes(page) + rest)),
                other => other,
            },
        }),
{
}

/// A fetch that comes to a connection goes on, once the service has answered, with all the
/// nodes of the connection, or ends with the error that stands in their place.
pub proof fn law_connection_is_collected(
    service: Service,
    source: SourceModel,
    package: PackageModel,
    page: JsonModel,
    index: nat,
    node: JsonModel,
    module: ModuleModel,
    connection: Connection,
    limit: nat,
    outcome: Result<Seq<JsonModel>, ErrorModel>,
)
    requires
        all_nodes(
            service,
            source.package_id,
            module.name,
            connection,
            node.at(connection.key()),
            limit,
        ) == Some(outcome),
    ensures
        leads(
            service,
            after_module(source, package, page, index, open_connection(node, module, connection)),
            match outcome {
                Err(error) => Err(error),
                Ok(nodes) => after_module(
                    source,
                    package,
                    page,
                    index,
                    close_connection(node, module, connection, nodes),
                ),
            },
        ),
{
    let first = node.at(connection.key());
    let pause = PauseModel { node, module, connection, nodes: seq![], after: seq![] };
    lemma_members(service, source, package, page, index, pause, first, limit);
    assert(pause.nodes + page_nodes(first) =~= page_nodes(first));
    assert(read_members(source, package, page, index, pause, first) == after_module(
        source,
        package,
        page,
        index,
        open_connection(node, module, connection),
    ));
    if let Ok(nodes) = outcome {
        assert(pause.nodes + nodes =~= nodes);
    }
}

} // verus!
