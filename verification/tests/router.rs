use bob_management::services::api_router_v1;
use bob_management::router::{
    check_route, ApiDoc, ApiV1, ApiVersion, Method, MethodFilter, NoApi, OpenApi, RouteError, Router, TestDoc,
};

// The names of the handlers' types, as a router is given them.
const TEST_ROUTE: &str = "backend::router::tests::test_route";
const TEST_POST_ROUTE: &str = "backend::router::tests::test_post_route";
const TEST_ROOT_ROUTE: &str = "backend::router::tests::test_root_route";
const CONNECT_ROUTE: &str = "backend::router::tests::connect_route";

struct ApiContext;

impl ApiVersion for ApiContext {
    fn to_path() -> &'static str {
        "/context"
    }
}

#[test]
fn correct_api_with_context_wrapper() {
    let router = Router::new().with_context::<NoApi, TestDoc>().api_route("/test", &Method::Get, TEST_ROUTE);
    assert!(router.is_ok(), "Err: {:?}", router.err().unwrap());
}

#[test]
fn incorrect_path_with_context_wrapper() {
    assert_eq!(
        Router::new().with_context::<NoApi, TestDoc>().api_route("/tester", &Method::Get, TEST_ROUTE).err().unwrap(),
        RouteError::NoRoute
    );
}

#[test]
fn incorrect_method_context_wrapper() {
    assert_eq!(
        Router::new().with_context::<NoApi, TestDoc>().api_route("/test", &Method::Post, TEST_ROUTE).err().unwrap(),
        RouteError::NoMethod
    );
}

#[test]
fn mismatched_path_context_wrapper() {
    assert_eq!(
        Router::new().with_context::<NoApi, TestDoc>().api_route("/context/", &Method::Get, TEST_ROUTE).err().unwrap(),
        RouteError::NoMatch
    );
}

#[test]
fn unexpected_method_connect_context_wrapper() {
    assert_eq!(
        Router::new()
            .with_context::<NoApi, TestDoc>()
            .api_route("/connect", &Method::Connect, CONNECT_ROUTE)
            .err()
            .unwrap(),
        RouteError::UnexpectedMethod
    );
}

#[test]
fn correct_context_raw_context_wrapper() {
    let router =
        Router::new().with_context::<NoApi, TestDoc>().api_route("/context/", &Method::Get, TEST_ROOT_ROUTE);
    assert!(router.is_ok(), "Err: {:?}", router.err().unwrap());
}

#[test]
fn correct_context_version_context_wrapper() {
    let router = Router::new().with_context::<ApiContext, TestDoc>().api_route("/", &Method::Get, TEST_ROOT_ROUTE);
    assert!(router.is_ok(), "Err: {:?}", router.err().unwrap());
}

#[test]
fn no_context_context_wrapper() {
    assert_eq!(
        Router::new().with_context::<NoApi, TestDoc>().api_route("/", &Method::Get, TEST_ROOT_ROUTE).err().unwrap(),
        RouteError::NoRoute
    );
}

#[test]
fn incorrect_context_context_wrapper() {
    assert_eq!(
        Router::new()
            .with_context::<ApiContext, TestDoc>()
            .api_route("/contexting/", &Method::Get, TEST_ROOT_ROUTE)
            .err()
            .unwrap(),
        RouteError::NoRoute
    );
}

#[test]
fn multiple_contexts_context_wrapper() {
    let router = Router::new()
        .with_context::<ApiContext, TestDoc>()
        .api_route("/", &Method::Get, TEST_ROOT_ROUTE)
        .unwrap()
        .new_context::<NoApi, TestDoc>()
        .api_route("/test", &Method::Get, TEST_ROUTE)
        .unwrap()
        .no_context()
        .route("/connect", MethodFilter::Post)
        .with_context::<NoApi, TestDoc>()
        .api_route("/test_post", &Method::Post, TEST_POST_ROUTE);
    assert!(router.is_ok(), "Err: {:?}", router.err().unwrap());
}

#[test]
fn correct_api() {
    let router = Router::new().api_route::<NoApi, TestDoc>("/test", &Method::Get, TEST_ROUTE);
    assert!(router.is_ok(), "Err: {:?}", router.err().unwrap());
}

#[test]
fn incorrect_path() {
    assert_eq!(
        Router::new().api_route::<NoApi, TestDoc>("/tester", &Method::Get, TEST_ROUTE).err().unwrap(),
        RouteError::NoRoute
    );
}

#[test]
fn incorrect_method() {
    assert_eq!(
        Router::new().api_route::<NoApi, TestDoc>("/test", &Method::Post, TEST_ROUTE).err().unwrap(),
        RouteError::NoMethod
    );
}

#[test]
fn mismatched_path() {
    assert_eq!(
        Router::new().api_route::<NoApi, TestDoc>("/context/", &Method::Get, TEST_ROUTE).err().unwrap(),
        RouteError::NoMatch
    );
}

#[test]
fn unexpected_method_connect() {
    assert_eq!(
        Router::new().api_route::<NoApi, TestDoc>("/connect", &Method::Connect, CONNECT_ROUTE).err().unwrap(),
        RouteError::UnexpectedMethod
    );
}

#[test]
fn correct_context_raw() {
    let router = Router::new().api_route::<NoApi, TestDoc>("/context/", &Method::Get, TEST_ROOT_ROUTE);
    assert!(router.is_ok(), "Err: {:?}", router.err().unwrap());
}

#[test]
fn correct_context_version() {
    let router = Router::new().api_route::<ApiContext, TestDoc>("/", &Method::Get, TEST_ROOT_ROUTE);
    assert!(router.is_ok(), "Err: {:?}", router.err().unwrap());
}

#[test]
fn no_context() {
    assert_eq!(
        Router::new().api_route::<NoApi, TestDoc>("/", &Method::Get, TEST_ROOT_ROUTE).err().unwrap(),
        RouteError::NoRoute
    );
}

#[test]
fn incorrect_context() {
    assert_eq!(
        Router::new().api_route::<ApiContext, TestDoc>("/contexting/", &Method::Get, TEST_ROOT_ROUTE).err().unwrap(),
        RouteError::NoRoute
    );
}

#[test]
fn routes_keep_their_order_and_methods() {
    let router = Router::new()
        .api_route::<NoApi, TestDoc>("/test", &Method::Get, TEST_ROUTE)
        .unwrap()
        .route("/connect", MethodFilter::Post)
        .with_context::<NoApi, TestDoc>()
        .api_route("/test_post", &Method::Post, TEST_POST_ROUTE)
        .unwrap()
        .no_context();
    let routes: Vec<(String, MethodFilter)> = router.routes().iter().map(|r| (r.path.clone(), r.filter)).collect();
    assert_eq!(
        routes,
        vec![
            ("/test".to_string(), MethodFilter::Get),
            ("/connect".to_string(), MethodFilter::Post),
            ("/test_post".to_string(), MethodFilter::Post),
        ]
    );
}

#[test]
fn api_documentation_names_the_handlers() {
    let doc = ApiDoc::openapi();
    assert_eq!(check_route(ApiV1::to_path(), "/disks/count", &Method::Get, &doc, "app::handlers::get_disks_count"), Ok(MethodFilter::Get));
    assert_eq!(check_route(ApiV1::to_path(), "/login", &Method::Post, &doc, "app::handlers::login"), Ok(MethodFilter::Post));
    assert_eq!(check_route(ApiV1::to_path(), "/login", &Method::Get, &doc, "app::handlers::login"), Err(RouteError::NoMethod));
    assert_eq!(check_route(ApiV1::to_path(), "/nodes/space", &Method::Get, &doc, "get_space"), Err(RouteError::InvalidHandler));
    assert_eq!(check_route("", "/nodes/space", &Method::Get, &doc, "h::get_space"), Err(RouteError::NoRoute));
    let extension = Method::Extension("PURGE".to_string());
    assert_eq!(check_route(ApiV1::to_path(), "/nodes/space", &extension, &doc, "h::get_space"), Err(RouteError::UnexpectedMethod));
}

#[test]
fn register_routes() {
    let _ = api_router_v1().expect("Router has invalid API methods");
}

#[test]
fn first_version_routes() {
    let router = api_router_v1().unwrap();
    let routes: Vec<(&str, MethodFilter)> = router.routes().iter().map(|r| (r.path.as_str(), r.filter)).collect();
    assert_eq!(
        routes,
        vec![
            ("/disks/count", MethodFilter::Get),
            ("/nodes/count", MethodFilter::Get),
            ("/nodes/rps", MethodFilter::Get),
            ("/nodes/space", MethodFilter::Get),
            ("/logout", MethodFilter::Post),
            ("/login", MethodFilter::Post),
        ]
    );
}
