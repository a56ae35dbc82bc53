//! The requests that ask the GraphQL service for a package.

use vstd::prelude::*;

use crate::address::{address_text, Address};
use crate::json::{lemma_json_view, member_models, Json, JsonModel};
use crate::model::mapped;
use crate::text::{decimal, decimal_text, replace_all, replaced};

verus! {

/// How many structs, enums or functions a page holds.
pub const INNER_PAGE_SIZE: u32 = 50;

/// How many modules a page holds.
pub const MODULE_PAGE_SIZE: u32 = 10;

/// What is asked of a module; `$first` and `$cursor` stand for the page that is asked
/// for.
pub const MODULE_FIELDS: &'static str = "
    name
    structs(first: $first, after: $cursor) {
        pageInfo { hasNextPage endCursor }
        nodes {
            name
            abilities
            typeParameters { isPhantom constraints }
            fields { name type { signature } }
        }
    }
    enums(first: $first, after: $cursor) {
        pageInfo { hasNextPage endCursor }
        nodes {
            name
            abilities
            typeParameters { isPhantom constraints }
            variants { name fields { name type { signature } } }
        }
    }
    functions(first: $first, after: $cursor) {
        pageInfo { hasNextPage endCursor }
        nodes {
            name
            visibility
            isEntry
            typeParameters { constraints }
            parameters { signature }
            return { signature }
        }
    }
";

/// The query for the version and the type origins of a package.
pub const METADATA_QUERY: &'static str = "query ($addr: SuiAddress!) {
                package(address: $addr) {
                    version
                    typeOrigins { module struct definingId }
                }
            }";

/// What is asked of each node of the structs.
pub const STRUCT_SELECTION: &'static str =
    "name abilities typeParameters { isPhantom constraints } fields { name type { signature } }";

/// What is asked of each node of the enums.
pub const ENUM_SELECTION: &'static str =
    "name abilities typeParameters { isPhantom constraints } variants { name fields { name type { signature } } }";

/// What is asked of each node of the functions.
pub const FUNCTION_SELECTION: &'static str =
    "name visibility isEntry typeParameters { constraints } parameters { signature } return { signature }";

/// A connection of a module: a list that comes in pages.
#[derive(Clone, Copy, Debug, PartialEq, Eq, Structural)]
pub enum Connection {
    Structs,
    Enums,
    Functions,
}

impl Connection {
    /// The name of the connection in a module.
    pub open spec fn key(self) -> Seq<char> {
        match self {
            Connection::Structs => "structs"@,
            Connection::Enums => "enums"@,
            Connection::Functions => "functions"@,
        }
    }

    /// What is asked of each node of the connection.
    pub open spec fn fields(self) -> Seq<char> {
        match self {
            Connection::Structs => STRUCT_SELECTION@,
            Connection::Enums => ENUM_SELECTION@,
            Connection::Functions => FUNCTION_SELECTION@,
        }
    }

    /// The connection that is read after this one.
    pub open spec fn following(self) -> Option<Connection> {
        match self {
            Connection::Structs => Some(Connection::Enums),
            Connection::Enums => Some(Connection::Functions),
            Connection::Functions => None,
        }
    }

    /// How many connections are read after this one.
    pub open spec fn left(self) -> nat {
        match self {
            Connection::Structs => 2,
            Connection::Enums => 1,
            Connection::Functions => 0,
        }
    }

    /// The name of the connection in a module.
    pub fn name(&self) -> (name: &'static str)
        ensures
            name@ == self.key(),
    {
        match self {
            Connection::Structs => "structs",
            Connection::Enums => "enums",
            Connection::Functions => "functions",
        }
    }

    /// What is asked of each node of the connection.
    pub fn selection(&self) -> (selection: &'static str)
        ensures
            selection@ == self.fields(),
    {
        match self {
            Connection::Structs => STRUCT_SELECTION,
            Connection::Enums => ENUM_SELECTION,
            Connection::Functions => FUNCTION_SELECTION,
        }
    }
}

/// A request: a query and the values of its variables.
pub struct Request {
    pub query: String,
    pub variables: Json,
}

/// What a [`Request`] stands for.
pub struct RequestModel {
    pub query: Seq<char>,
    pub variables: JsonModel,
}

impl View for Request {
    type V = RequestModel;

    open spec fn view(&self) -> RequestModel {
        RequestModel { query: self.query@, variables: self.variables@ }
    }
}

/// The request for the version and the type origins of a package.
pub open spec fn metadata_request(package_id: Seq<u8>) -> RequestModel {
    RequestModel {
        query: METADATA_QUERY@,
        variables: JsonModel::Object(
            mapped(seq![("addr"@, JsonModel::Text(address_text(package_id)))]),
        ),
    }
}

/// [`MODULE_FIELDS`] for the first page of each connection.
pub open spec fn first_page_fields() -> Seq<char> {
    replaced(
        replaced(MODULE_FIELDS@, "$first"@, decimal(INNER_PAGE_SIZE as nat)),
        "$cursor"@,
        "null"@,
    )
}

/// The request for the page of modules after the cursor `after`.
pub open spec fn modules_request(package_id: Seq<u8>, after: JsonModel) -> RequestModel {
    RequestModel {
        query: "query ($addr: SuiAddress!, $after: String) {
                package(address: $addr) {
                    modules(first: "@ + decimal(MODULE_PAGE_SIZE as nat) + ", after: $after) {
                        pageInfo { hasNextPage endCursor }
                        nodes { "@ + first_page_fields() + " }
                    }
                }
            }"@,
        variables: JsonModel::Object(
            mapped(
                seq![
                    ("addr"@, JsonModel::Text(address_text(package_id))),
                    ("after"@, after),
                ],
            ),
        ),
    }
}

/// The request for the page of a connection of `module` after the cursor `after`.
pub open spec fn members_request(
    package_id: Seq<u8>,
    module: Seq<char>,
    connection: Connection,
    after: Seq<char>,
) -> RequestModel {
    RequestModel {
        query: "query ($addr: SuiAddress!, $module: String!, $after: String) {
                    package(address: $addr) {
                        module(name: $module) {
                            "@ + connection.key() + "(first: "@ + decimal(INNER_PAGE_SIZE as nat)
            + ", after: $after) {
                                pageInfo { hasNextPage endCursor }
                                nodes { "@ + connection.fields() + " }
                            }
                        }
                    }
                }"@,
        variables: JsonModel::Object(
            mapped(
                seq![
                    ("addr"@, JsonModel::Text(address_text(package_id))),
                    ("module"@, JsonModel::Text(module)),
                    ("after"@, JsonModel::Text(after)),
                ],
            ),
        ),
    }
}

/// The body that carries a request: its query and its variables.
pub open spec fn request_body(request: RequestModel) -> JsonModel {
    JsonModel::Object(
        mapped(
            seq![
                ("query"@, JsonModel::Text(request.query)),
                ("variables"@, request.variables),
            ],
        ),
    )
}

impl Request {
    /// Asks for the version and the type origins of a package.
    pub fn metadata(package_id: &Address) -> (request: Self)
        ensures
            request@ == metadata_request(package_id@),
    {
        let members: Vec<(String, Json)> = vec![
            (String::from_str("addr"), Json::Text(package_id.to_text())),
        ];
        let variables: Json = Json::Object(members);
        proof {
            lemma_json_view(variables);
            assert(member_models(members@) =~= seq![
                ("addr"@, JsonModel::Text(address_text(package_id@))),
            ]);
        }
        Request { query: String::from_str(METADATA_QUERY), variables }
    }

    /// Asks for the page of modules after the cursor `after`.
    pub fn modules(package_id: &Address, after: &Json) -> (request: Self)
        ensures
            request@ == modules_request(package_id@, after@),
    {
        proof {
            reveal_strlit("$first");
            reveal_strlit("$cursor");
        }
        let sized: String = replace_all(
            MODULE_FIELDS,
            "$first",
            decimal_text(INNER_PAGE_SIZE).as_str(),
        );
        let fields: String = replace_all(sized.as_str(), "$cursor", "null");
        let mut query: String = String::from_str(
            "query ($addr: SuiAddress!, $after: String) {
                package(address: $addr) {
                    modules(first: ",
        );
        query.append(decimal_text(MODULE_PAGE_SIZE).as_str());
        query.append(
            ", after: $after) {
                        pageInfo { hasNextPage endCursor }
                        nodes { ",
        );
        query.append(fields.as_str());
        query.append(
            " }
                    }
                }
            }",
        );
        let members: Vec<(String, Json)> = vec![
            (String::from_str("addr"), Json::Text(package_id.to_text())),
            (String::from_str("after"), after.clone()),
        ];
        let variables: Json = Json::Object(members);
        proof {
            lemma_json_view(variables);
            assert(member_models(members@) =~= seq![
                ("addr"@, JsonModel::Text(address_text(package_id@))),
                ("after"@, after@),
            ]);
        }
        Request { query, variables }
    }

    /// Asks for the page of a connection of `module` after the cursor `after`.
    pub fn members(
        package_id: &Address,
        module: &str,
        connection: Connection,
        after: &str,
    ) -> (request: Self)
        ensures
            request@ == members_request(package_id@, module@, connection, after@),
    {
        let mut query: String = String::from_str(
            "query ($addr: SuiAddress!, $module: String!, $after: String) {
                    package(address: $addr) {
                        module(name: $module) {
                            ",
        );
        query.append(connection.name());
        query.append("(first: ");
        query.append(decimal_text(INNER_PAGE_SIZE).as_str());
        query.append(
            ", after: $after) {
                                pageInfo { hasNextPage endCursor }
                                nodes { ",
        );
        query.append(connection.selection());
        query.append(
            " }
                            }
                        }
                    }
                }",
        );
        let members: Vec<(String, Json)> = vec![
            (String::from_str("addr"), Json::Text(package_id.to_text())),
            (String::from_str("module"), Json::Text(module.to_owned())),
            (String::from_str("after"), Json::Text(after.to_owned())),
        ];
        let variables: Json = Json::Object(members);
        proof {
            lemma_json_view(variables);
            assert(member_models(members@) =~= seq![
                ("addr"@, JsonModel::Text(address_text(package_id@))),
                ("module"@, JsonModel::Text(module@)),
                ("after"@, JsonModel::Text(after@)),
            ]);
        }
        Request { query, variables }
    }

    /// The body that carries the request.
    pub fn into_body(self) -> (body: Json)
        ensures
            body@ == request_body(self@),
    {
        let members: Vec<(String, Json)> = vec![
            (String::from_str("query"), Json::Text(self.query)),
            (String::from_str("variables"), self.variables),
        ];
        let body: Json = Json::Object(members);
        proof {
            lemma_json_view(body);
            assert(member_models(members@) =~= seq![
                ("query"@, JsonModel::Text(self@.query)),
                ("variables"@, self@.variables),
            ]);
        }
        body
    }
}

/// The variables of a request are what the query needs: the address in full, and the
/// module and the cursor where a page of a module or of modules is asked for.
pub proof fn law_request_variables(
    package_id: Seq<u8>,
    module: Seq<char>,
    connection: Connection,
    after: Seq<char>,
    cursor: JsonModel,
)
    ensures
        metadata_request(package_id).variables.at("addr"@) == JsonModel::Text(
            address_text(package_id),
        ),
        modules_request(package_id, cursor).variables.at("addr"@) == JsonModel::Text(
            address_text(package_id),
        ),
        modules_request(package_id, cursor).variables.at("after"@) == cursor,
        members_request(package_id, module, connection, after).variables.at("addr"@)
            == JsonModel::Text(address_text(package_id)),
        members_request(package_id, module, connection, after).variables.at("module"@)
            == JsonModel::Text(module),
        members_request(package_id, module, connection, after).variables.at("after"@)
            == JsonModel::Text(after),
{
    reveal_strlit("addr");
    reveal_strlit("module");
    reveal_strlit("after");
    assert("addr"@.len() == 4 && "module"@.len() == 6 && "after"@.len() == 5);
    let addr = ("addr"@, JsonModel::Text(address_text(package_id)));
    let name = ("module"@, JsonModel::Text(module));
    let last = ("after"@, JsonModel::Text(after));
    reveal_with_fuel(mapped, 4);
    assert(seq![addr].drop_last() =~= seq![]);
    assert(seq![addr, ("after"@, cursor)].drop_last() =~= seq![addr]);
    assert(seq![addr, name].drop_last() =~= seq![addr]);
    assert(seq![addr, name, last].drop_last() =~= seq![addr, name]);
}

} // verus!
