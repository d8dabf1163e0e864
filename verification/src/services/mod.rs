//! What the management server decides for its API: authentication, and
//! the summaries that it builds from the nodes' answers.

pub mod api;
pub mod auth;
pub mod methods;

use crate::models::shared::last_colon;
use crate::router::{
    doc_route, join_slashes, lookup_route, route_check, split_slashes, ApiDoc, ApiV1, Method, MethodFilter, OpenApi,
    PathItemType, RouteError, Router,
};
use vstd::prelude::*;

verus! {

/// Errors that happened during API request processing
#[derive(Debug, Clone, Copy, PartialEq, Eq, Structural)]
pub enum APIError {
    /// The request to the specified resource failed
    RequestFailed,
    /// Server received invalid status code from client
    InvalidStatusCode(u16),
}

impl APIError {
    /// The answer to a request that met this error: not found with a
    /// message, or the node's status code with no body.
    pub fn response(&self) -> (r: (u16, Option<&'static str>))
        ensures
            match *self {
                APIError::RequestFailed => r.0 == 404 && (r.1 matches Some(m) && m@ == "The request to the specified resource failed"@),
                APIError::InvalidStatusCode(code) => r.0 == code && r.1 is None,
            },
    {
        match self {
            APIError::RequestFailed => (404, Some("The request to the specified resource failed")),
            APIError::InvalidStatusCode(code) => (*code, None),
        }
    }
}

/// The routes of the first version of the API, with the methods they answer.
pub open spec fn v1_routes() -> Seq<(Seq<char>, MethodFilter)> {
    seq![
        ("/disks/count"@, MethodFilter::Get),
        ("/nodes/count"@, MethodFilter::Get),
        ("/nodes/rps"@, MethodFilter::Get),
        ("/nodes/space"@, MethodFilter::Get),
        ("/logout"@, MethodFilter::Post),
        ("/login"@, MethodFilter::Post),
    ]
}

/// The route of `get_disks_count` is documented, with its handler.
proof fn lemma_v1_route_get_disks_count()
    ensures
        route_check("/api/v1"@, "/disks/count"@, Method::Get, <ApiDoc as OpenApi>::documented(), "bob_management::services::api::get_disks_count"@) == Ok::<MethodFilter, RouteError>(MethodFilter::Get),
{
    reveal_strlit("/api/v1");
    reveal_strlit("/disks/count");
    reveal_strlit("/api/v1/disks/count");
    reveal_strlit("bob_management::services::api::get_disks_count");
    reveal_strlit("get_disks_count");
    reveal_strlit("/api/v1/root");
    reveal_strlit("/api/v1/login");
    reveal_strlit("/api/v1/logout");
    reveal_with_fuel(split_slashes, 13);
    reveal_with_fuel(join_slashes, 4);
    reveal_with_fuel(lookup_route, 5);
    reveal_with_fuel(last_colon, 17);
    assert(doc_route("/api/v1"@, "/disks/count"@) =~= "/api/v1/disks/count"@);
    assert("/api/v1/root"@[8] != "/api/v1/disks/count"@[8]);
    assert("/api/v1/login"@[8] != "/api/v1/disks/count"@[8]);
    assert("/api/v1/logout"@[8] != "/api/v1/disks/count"@[8]);
    assert(lookup_route(<ApiDoc as OpenApi>::documented(), "/api/v1/disks/count"@, PathItemType::Get) == Ok::<Option<Seq<char>>, RouteError>(Some("get_disks_count"@)));
    assert(last_colon("bob_management::services::api::get_disks_count"@) == Some(30int));
    assert("bob_management::services::api::get_disks_count"@.subrange(31, 46) =~= "get_disks_count"@);
}

/// The route of `get_nodes_count` is documented, with its handler.
proof fn lemma_v1_route_get_nodes_count()
    ensures
        route_check("/api/v1"@, "/nodes/count"@, Method::Get, <ApiDoc as OpenApi>::documented(), "bob_management::services::api::get_nodes_count"@) == Ok::<MethodFilter, RouteError>(MethodFilter::Get),
{
    reveal_strlit("/api/v1");
    reveal_strlit("/nodes/count");
    reveal_strlit("/api/v1/nodes/count");
    reveal_strlit("bob_management::services::api::get_nodes_count");
    reveal_strlit("get_nodes_count");
    reveal_strlit("/api/v1/root");
    reveal_strlit("/api/v1/login");
    reveal_strlit("/api/v1/logout");
    reveal_strlit("/api/v1/disks/count");
    reveal_with_fuel(split_slashes, 13);
    reveal_with_fuel(join_slashes, 4);
    reveal_with_fuel(lookup_route, 6);
    reveal_with_fuel(last_colon, 17);
    assert(doc_route("/api/v1"@, "/nodes/count"@) =~= "/api/v1/nodes/count"@);
    assert("/api/v1/root"@[8] != "/api/v1/nodes/count"@[8]);
    assert("/api/v1/login"@[8] != "/api/v1/nodes/count"@[8]);
    assert("/api/v1/logout"@[8] != "/api/v1/nodes/count"@[8]);
    assert("/api/v1/disks/count"@[8] != "/api/v1/nodes/count"@[8]);
    assert(lookup_route(<ApiDoc as OpenApi>::documented(), "/api/v1/nodes/count"@, PathItemType::Get) == Ok::<Option<Seq<char>>, RouteError>(Some("get_nodes_count"@)));
    assert(last_colon("bob_management::services::api::get_nodes_count"@) == Some(30int));
    assert("bob_management::services::api::get_nodes_count"@.subrange(31, 46) =~= "get_nodes_count"@);
}

/// The route of `get_rps` is documented, with its handler.
proof fn lemma_v1_route_get_rps()
    ensures
        route_check("/api/v1"@, "/nodes/rps"@, Method::Get, <ApiDoc as OpenApi>::documented(), "bob_management::services::api::get_rps"@) == Ok::<MethodFilter, RouteError>(MethodFilter::Get),
{
    reveal_strlit("/api/v1");
    reveal_strlit("/nodes/rps");
    reveal_strlit("/api/v1/nodes/rps");
    reveal_strlit("bob_management::services::api::get_rps");
    reveal_strlit("get_rps");
    reveal_strlit("/api/v1/root");
    reveal_strlit("/api/v1/login");
    reveal_strlit("/api/v1/logout");
    reveal_strlit("/api/v1/disks/count");
    reveal_strlit("/api/v1/nodes/count");
    reveal_with_fuel(split_slashes, 11);
    reveal_with_fuel(join_slashes, 4);
    reveal_with_fuel(lookup_route, 7);
    reveal_with_fuel(last_colon, 9);
    assert(doc_route("/api/v1"@, "/nodes/rps"@) =~= "/api/v1/nodes/rps"@);
    assert("/api/v1/root"@[8] != "/api/v1/nodes/rps"@[8]);
    assert("/api/v1/login"@[8] != "/api/v1/nodes/rps"@[8]);
    assert("/api/v1/logout"@[8] != "/api/v1/nodes/rps"@[8]);
    assert("/api/v1/disks/count"@[8] != "/api/v1/nodes/rps"@[8]);
    assert("/api/v1/nodes/count"@[14] != "/api/v1/nodes/rps"@[14]);
    assert(lookup_route(<ApiDoc as OpenApi>::documented(), "/api/v1/nodes/rps"@, PathItemType::Get) == Ok::<Option<Seq<char>>, RouteError>(Some("get_rps"@)));
    assert(last_colon("bob_management::services::api::get_rps"@) == Some(30int));
    assert("bob_management::services::api::get_rps"@.subrange(31, 38) =~= "get_rps"@);
}

/// The route of `get_space` is documented, with its handler.
proof fn lemma_v1_route_get_space()
    ensures
        route_check("/api/v1"@, "/nodes/space"@, Method::Get, <ApiDoc as OpenApi>::documented(), "bob_management::services::api::get_space"@) == Ok::<MethodFilter, RouteError>(MethodFilter::Get),
{
    reveal_strlit("/api/v1");
    reveal_strlit("/nodes/space");
    reveal_strlit("/api/v1/nodes/space");
    reveal_strlit("bob_management::services::api::get_space");
    reveal_strlit("get_space");
    reveal_strlit("/api/v1/root");
    reveal_strlit("/api/v1/login");
    reveal_strlit("/api/v1/logout");
    reveal_strlit("/api/v1/disks/count");
    reveal_strlit("/api/v1/nodes/count");
    reveal_strlit("/api/v1/nodes/rps");
    reveal_with_fuel(split_slashes, 13);
    reveal_with_fuel(join_slashes, 4);
    reveal_with_fuel(lookup_route, 8);
    reveal_with_fuel(last_colon, 11);
    assert(doc_route("/api/v1"@, "/nodes/space"@) =~= "/api/v1/nodes/space"@);
    assert("/api/v1/root"@[8] != "/api/v1/nodes/space"@[8]);
    assert("/api/v1/login"@[8] != "/api/v1/nodes/space"@[8]);
    assert("/api/v1/logout"@[8] != "/api/v1/nodes/space"@[8]);
    assert("/api/v1/disks/count"@[8] != "/api/v1/nodes/space"@[8]);
    assert("/api/v1/nodes/count"@[14] != "/api/v1/nodes/space"@[14]);
    assert("/api/v1/nodes/rps"@[14] != "/api/v1/nodes/space"@[14]);
    assert(lookup_route(<ApiDoc as OpenApi>::documented(), "/api/v1/nodes/space"@, PathItemType::Get) == Ok::<Option<Seq<char>>, RouteError>(Some("get_space"@)));
    assert(last_colon("bob_management::services::api::get_space"@) == Some(30int));
    assert("bob_management::services::api::get_space"@.subrange(31, 40) =~= "get_space"@);
}

/// The route of `logout` is documented, with its handler.
proof fn lemma_v1_route_logout()
    ensures
        route_check("/api/v1"@, "/logout"@, Method::Post, <ApiDoc as OpenApi>::documented(), "bob_management::services::auth::logout"@) == Ok::<MethodFilter, RouteError>(MethodFilter::Post),
{
    reveal_strlit("/api/v1");
    reveal_strlit("/logout");
    reveal_strlit("/api/v1/logout");
    reveal_strlit("bob_management::services::auth::logout");
    reveal_strlit("logout");
    reveal_strlit("/api/v1/root");
    reveal_strlit("/api/v1/login");
    reveal_with_fuel(split_slashes, 8);
    reveal_with_fuel(join_slashes, 4);
    reveal_with_fuel(lookup_route, 4);
    reveal_with_fuel(last_colon, 8);
    assert(doc_route("/api/v1"@, "/logout"@) =~= "/api/v1/logout"@);
    assert("/api/v1/root"@[8] != "/api/v1/logout"@[8]);
    assert("/api/v1/login"@[11] != "/api/v1/logout"@[11]);
    assert(lookup_route(<ApiDoc as OpenApi>::documented(), "/api/v1/logout"@, PathItemType::Post) == Ok::<Option<Seq<char>>, RouteError>(Some("logout"@)));
    assert(last_colon("bob_management::services::auth::logout"@) == Some(31int));
    assert("bob_management::services::auth::logout"@.subrange(32, 38) =~= "logout"@);
}

/// The route of `login` is documented, with its handler.
proof fn lemma_v1_route_login()
    ensures
        route_check("/api/v1"@, "/login"@, Method::Post, <ApiDoc as OpenApi>::documented(), "bob_management::services::auth::login"@) == Ok::<MethodFilter, RouteError>(MethodFilter::Post),
{
    reveal_strlit("/api/v1");
    reveal_strlit("/login");
    reveal_strlit("/api/v1/login");
    reveal_strlit("bob_management::services::auth::login");
    reveal_strlit("login");
    reveal_strlit("/api/v1/root");
    reveal_with_fuel(split_slashes, 7);
    reveal_with_fuel(join_slashes, 4);
    reveal_with_fuel(lookup_route, 3);
    reveal_with_fuel(last_colon, 7);
    assert(doc_route("/api/v1"@, "/login"@) =~= "/api/v1/login"@);
    assert("/api/v1/root"@[8] != "/api/v1/login"@[8]);
    assert(lookup_route(<ApiDoc as OpenApi>::documented(), "/api/v1/login"@, PathItemType::Post) == Ok::<Option<Seq<char>>, RouteError>(Some("login"@)));
    assert(last_colon("bob_management::services::auth::login"@) == Some(31int));
    assert("bob_management::services::auth::login"@.subrange(32, 37) =~= "login"@);
}

/// The routes of the first version of the API, each checked against the
/// API's documentation: the summaries of the cluster, which need a user
/// logged in, then logout and login.
pub fn api_router_v1() -> (r: Result<Router, RouteError>)
    ensures
        r matches Ok(t) && t@ == v1_routes(),
{
    proof {
        lemma_v1_route_get_disks_count();
        lemma_v1_route_get_nodes_count();
        lemma_v1_route_get_rps();
        lemma_v1_route_get_space();
        lemma_v1_route_logout();
        lemma_v1_route_login();
    }
    let secured = Router::new().with_context::<ApiV1, ApiDoc>();
    let secured = match secured.api_route("/disks/count", &Method::Get, "bob_management::services::api::get_disks_count") {
        Ok(r) => r,
        Err(e) => return Err(e),
    };
    let secured = match secured.api_route("/nodes/count", &Method::Get, "bob_management::services::api::get_nodes_count") {
        Ok(r) => r,
        Err(e) => return Err(e),
    };
    let secured = match secured.api_route("/nodes/rps", &Method::Get, "bob_management::services::api::get_rps") {
        Ok(r) => r,
        Err(e) => return Err(e),
    };
    let secured = match secured.api_route("/nodes/space", &Method::Get, "bob_management::services::api::get_space") {
        Ok(r) => r,
        Err(e) => return Err(e),
    };
    let open = secured.no_context().with_context::<ApiV1, ApiDoc>();
    let open = match open.api_route("/logout", &Method::Post, "bob_management::services::auth::logout") {
        Ok(r) => r,
        Err(e) => return Err(e),
    };
    let open = match open.api_route("/login", &Method::Post, "bob_management::services::auth::login") {
        Ok(r) => r,
        Err(e) => return Err(e),
    };
    let r = open.no_context();
    assert(r@ =~= v1_routes());
    Ok(r)
}

} // verus!
