use bob_management::cli::{Args, ConfigSource, LoggerConfig, TraceLevel};
use bob_management::error::AppError;
use bob_management::router::{
    try_convert_method_filter_from_method, try_convert_path_item_type_from_method, ApiV1, ApiVersion, Method,
    MethodFilter, NoApi, PathItemType, RouteError,
};
use bob_management::server::{cluster_index, get_addr};
use bob_management::router::openapi_route;
use bob_management::router::{check_api, handler_name, DocLookup};

#[test]
fn logger_defaults() {
    let c = LoggerConfig::default();
    assert_eq!(c.log_file, None);
    assert_eq!(c.log_amount, 5);
    assert_eq!(c.log_size, 1_000_000);
    assert_eq!(c.trace_level, TraceLevel::Info);
    assert_eq!(LoggerConfig::tracing_default(), TraceLevel::Info);
}

#[test]
fn configuration_source() {
    let a = Args { default: true, config_file: Some("x.yaml".to_string()) };
    assert_eq!(a.config_source(), Some(ConfigSource::Default));
    let a = Args { default: false, config_file: Some("x.yaml".to_string()) };
    assert_eq!(a.config_source(), Some(ConfigSource::File("x.yaml".to_string())));
    let a = Args { default: false, config_file: None };
    assert_eq!(a.config_source(), None);
}

#[test]
fn method_conversions() {
    assert_eq!(try_convert_path_item_type_from_method(&Method::Get), Ok(PathItemType::Get));
    assert_eq!(try_convert_path_item_type_from_method(&Method::Connect), Ok(PathItemType::Connect));
    assert_eq!(try_convert_method_filter_from_method(&Method::Connect), Err(RouteError::UnexpectedMethod));
    assert_eq!(try_convert_method_filter_from_method(&Method::Post), Ok(MethodFilter::Post));
    assert_eq!(
        try_convert_path_item_type_from_method(&Method::Extension("PURGE".to_string())),
        Err(RouteError::UnexpectedMethod)
    );
}

#[test]
fn api_versions() {
    assert_eq!(ApiV1::to_path(), "/api/v1");
    assert_eq!(NoApi::to_path(), "");
}

#[test]
fn app_errors() {
    assert_eq!(AppError::StartUpError.message(), "Server start up failed");
    assert_eq!(AppError::InitializationError.response(), (500, "Something went wrong"));
}

#[test]
fn server_pages() {
    assert_eq!(get_addr("127.0.0.1:8000", "/nodes"), "http://127.0.0.1:8000/nodes");
    let page = cluster_index(Some("1.2.3.4:5")).unwrap();
    assert_eq!(page.nodes.len(), 2);
    assert_eq!(page.nodes[0].name(), "Dummy1");
    assert!(page.nodes[0].active());
    assert!(!page.nodes[1].active());
    assert_eq!(page.nodes[1].addr(), "1.2.3.4:5");
    assert!(cluster_index(None).is_none());
}

#[test]
fn documented_routes() {
    assert_eq!(openapi_route("/api/v1", "/vdisks/:vdisk_id"), "/api/v1/vdisks/{vdisk_id}");
    assert_eq!(openapi_route("", "/nodes/:node_name/metrics"), "/nodes/{node_name}/metrics");
    assert_eq!(openapi_route("/context", "/"), "/context/");
    assert_eq!(openapi_route("", ":a/:/b"), "{a}/{}/b");
}

#[test]
fn handler_names_and_checks() {
    assert_eq!(handler_name("backend::services::api::get_space"), Ok("get_space".to_string()));
    assert_eq!(handler_name("plain"), Err(RouteError::InvalidHandler));
    assert_eq!(check_api(DocLookup::NoRoute, "a::b"), Err(RouteError::NoRoute));
    assert_eq!(check_api(DocLookup::NoMethod, "a::b"), Err(RouteError::NoMethod));
    assert_eq!(check_api(DocLookup::Operation(None), "a::b"), Err(RouteError::NoOperation));
    assert_eq!(check_api(DocLookup::Operation(Some("b".to_string())), "a::b"), Ok(()));
    assert_eq!(check_api(DocLookup::Operation(Some("c".to_string())), "a::b"), Err(RouteError::NoMatch));
    assert_eq!(check_api(DocLookup::Operation(Some("b".to_string())), "b"), Err(RouteError::InvalidHandler));
}
