//! The requests: what they ask for, and with which variables.

use vstd::prelude::*;

use crate::address::address_text;
use crate::json::JsonModel;
use crate::model::lemma_mapped;
use crate::package_provider::{pending_request, FetchModel, StageModel};
use crate::request::{
    members_request, metadata_request, modules_request, request_body, Connection, RequestModel,
    INNER_PAGE_SIZE, MODULE_FIELDS,
};
use crate::text::{decimal, replaced};

verus! {

/// The connections are called after what they list, and are read one after the other.
pub proof fn law_connections()
    ensures
        Connection::Structs.key() == "structs"@,
        Connection::Enums.key() == "enums"@,
        Connection::Functions.key() == "functions"@,
        Connection::Structs.following() == Some(Connection::Enums),
        Connection::Enums.following() == Some(Connection::Functions),
        Connection::Functions.following() is None,
{
}

/// The query of a request depends on what kind of page is asked for, and on nothing else;
/// what differs from request to request stands in the variables.
pub proof fn law_queries_are_fixed(
    a: Seq<u8>,
    b: Seq<u8>,
    first: Seq<char>,
    second: Seq<char>,
    x: Seq<char>,
    y: Seq<char>,
    p: JsonModel,
    q: JsonModel,
    connection: Connection,
)
    ensures
        metadata_request(a).query == metadata_request(b).query,
        modules_request(a, p).query == modules_request(b, q).query,
        members_request(a, first, connection, x).query == members_request(
            b,
            second,
            connection,
            y,
        ).query,
{
}

/// The metadata that is asked for is the version and the type origins.
pub proof fn law_metadata_query(package_id: Seq<u8>)
    ensures
        metadata_request(package_id).query == "query ($addr: SuiAddress!) {
                package(address: $addr) {
                    version
                    typeOrigins { module struct definingId }
                }
            }"@,
{
}

/// Ten modules are asked for at a time, and of each its name and the first page of its structs,
/// its enums and its functions, with all that is read of them.
pub proof fn law_modules_query(package_id: Seq<u8>, after: JsonModel)
    ensures
        MODULE_FIELDS@ == "
    name
    structs(first: $first, after: $cursor) {
        pageInfo { hasNextPage endCursor }
        nodes {
            name
            abilities
            typeParameters { isPhantom constraints }
            fields { name type { signature } }
        }
    }
    enums(first: $first, after: $cursor) {
        pageInfo { hasNextPage endCursor }
        nodes {
            name
            abilities
            typeParameters { isPhantom constraints }
            variants { name fields { name type { signature } } }
        }
    }
    functions(first: $first, after: $cursor) {
        pageInfo { hasNextPage endCursor }
        nodes {
            name
            visibility
            isEntry
            typeParameters { constraints }
            parameters { signature }
            return { signature }
        }
    }
"@,
        INNER_PAGE_SIZE == 50,
        modules_request(package_id, after).query == "query ($addr: SuiAddress!, $after: String) {
                package(address: $addr) {
                    modules(first: "@ + decimal(10) + ", after: $after) {
                        pageInfo { hasNextPage endCursor }
                        nodes { "@ + replaced(
            replaced(MODULE_FIELDS@, "$first"@, decimal(50)),
            "$cursor"@,
            "null"@,
        ) + " }
                    }
                }
            }"@,
{
}

/// Fifty members of a connection are asked for at a time, each with all that is read of it.
pub proof fn law_members_query(
    package_id: Seq<u8>,
    module: Seq<char>,
    connection: Connection,
    after: Seq<char>,
    selection: Seq<char>,
    key: Seq<char>,
)
    requires
        connection is Structs ==> key == "structs"@ && selection
            == "name abilities typeParameters { isPhantom constraints } fields { name type { signature } }"@,
        connection is Enums ==> key == "enums"@ && selection
            == "name abilities typeParameters { isPhantom constraints } variants { name fields { name type { signature } } }"@,
        connection is Functions ==> key == "functions"@ && selection
            == "name visibility isEntry typeParameters { constraints } parameters { signature } return { signature }"@,
    ensures
        members_request(package_id, module, connection, after).query
            == "query ($addr: SuiAddress!, $module: String!, $after: String) {
                    package(address: $addr) {
                        module(name: $module) {
                            "@ + key + "(first: "@ + decimal(50) + ", after: $after) {
                                pageInfo { hasNextPage endCursor }
                                nodes { "@ + selection + " }
                            }
                        }
                    }
                }"@,
{
}

/// A request for metadata has the variable `addr` alone: the address in full.
pub proof fn law_metadata_variables(package_id: Seq<u8>, key: Seq<char>)
    ensures
        metadata_request(package_id).variables matches JsonModel::Object(variables) && {
            &&& variables.contains_key(key) <==> key == "addr"@
            &&& variables["addr"@] == JsonModel::Text(address_text(package_id))
        },
{
    let listed = seq![("addr"@, JsonModel::Text(address_text(package_id)))];
    lemma_mapped(listed, key);
    lemma_mapped(listed, "addr"@);
    assert(listed[0].0 == "addr"@);
}

/// A request for a page of modules has two variables: the address in full, and the cursor
/// that the page comes after, as it was given.
pub proof fn law_modules_variables(package_id: Seq<u8>, after: JsonModel, key: Seq<char>)
    ensures
        modules_request(package_id, after).variables matches JsonModel::Object(variables) && {
            &&& variables.contains_key(key) <==> key == "addr"@ || key == "after"@
            &&& variables["addr"@] == JsonModel::Text(address_text(package_id))
            &&& variables["after"@] == after
        },
{
    reveal_strlit("addr");
    reveal_strlit("after");
    assert("addr"@.len() == 4 && "after"@.len() == 5);
    let listed = seq![("addr"@, JsonModel::Text(address_text(package_id))), ("after"@, after)];
    lemma_mapped(listed, key);
    lemma_mapped(listed, "addr"@);
    lemma_mapped(listed, "after"@);
    assert(listed[0].0 == "addr"@ && listed[1].0 == "after"@);
}

/// A request for a page of a connection has three variables: the address in full, the name
/// of the module, and the cursor that the page comes after, both as they were given.
pub proof fn law_members_variables(
    package_id: Seq<u8>,
    module: Seq<char>,
    connection: Connection,
    after: Seq<char>,
    key: Seq<char>,
)
    ensures
        members_request(package_id, module, connection, after).variables matches JsonModel::Object(
            variables,
        ) && {
            &&& variables.contains_key(key) <==> key == "addr"@ || key == "module"@ || key
                == "after"@
            &&& variables["addr"@] == JsonModel::Text(address_text(package_id))
            &&& variables["module"@] == JsonModel::Text(module)
            &&& variables["after"@] == JsonModel::Text(after)
        },
{
    reveal_strlit("addr");
    reveal_strlit("module");
    reveal_strlit("after");
    assert("addr"@.len() == 4 && "module"@.len() == 6 && "after"@.len() == 5);
    let listed = seq![
        ("addr"@, JsonModel::Text(address_text(package_id))),
        ("module"@, JsonModel::Text(module)),
        ("after"@, JsonModel::Text(after)),
    ];
    lemma_mapped(listed, key);
    lemma_mapped(listed, "addr"@);
    lemma_mapped(listed, "module"@);
    lemma_mapped(listed, "after"@);
    assert(listed[0].0 == "addr"@ && listed[1].0 == "module"@ && listed[2].0 == "after"@);
}

/// The body of a request holds its query and its variables, and nothing else.
pub proof fn law_request_body(request: RequestModel, key: Seq<char>)
    ensures
        request_body(request) matches JsonModel::Object(members) && {
            &&& members.contains_key(key) <==> key == "query"@ || key == "variables"@
            &&& members["query"@] == JsonModel::Text(request.query)
            &&& members["variables"@] == request.variables
        },
{
    reveal_strlit("query");
    reveal_strlit("variables");
    assert("query"@.len() == 5 && "variables"@.len() == 9);
    let listed = seq![
        ("query"@, JsonModel::Text(request.query)),
        ("variables"@, request.variables),
    ];
    lemma_mapped(listed, key);
    lemma_mapped(listed, "query"@);
    lemma_mapped(listed, "variables"@);
    assert(listed[0].0 == "query"@ && listed[1].0 == "variables"@);
}

/// What a fetch asks for next is what it waits for: the metadata, the page of modules after
/// its cursor, or the page after its cursor of the connection and the module that it has
/// come to; always of the package that was asked for.
pub proof fn law_what_is_asked_for(fetch: FetchModel)
    ensures
        fetch.stage is Metadata ==> pending_request(fetch) == metadata_request(
            fetch.source.package_id,
        ),
        fetch.stage matches StageModel::Modules { after, .. } ==> pending_request(fetch)
            == modules_request(fetch.source.package_id, after),
        fetch.stage matches StageModel::Members { pause, .. } ==> pending_request(fetch)
            == members_request(
            fetch.source.package_id,
            pause.module.name,
            pause.connection,
            pause.after,
        ),
{
}

} // verus!
