use bob_management::connector::api::{APIError, GetAlienDirResponse, GetNodesResponse, GetVDisksResponse};
use bob_management::connector::client::{Client, ClientInitError};
use bob_management::connector::context::{ClientContext, ContextWrapper, ContextWrapperExt, Has};
use bob_management::connector::dto::{Dir, Node, StatusExt};
use bob_management::connector::error::AsApiError;
use bob_management::connector::{cluster_probe_code, from_node, probe, BobClient, ClientError, NodeMap};
use bob_management::models::shared::{BobConnectionData, Credentials, Hostname, HostnameError, RequestTimeout, XSpanIdString};
use bob_management::router::Method;
use bob_management::connector::client::{AnswerPlan, Endpoint};

#[test]
fn base_path_of_client() {
    let c = Client::try_new_http("http://example.com:8000/api/").unwrap();
    assert_eq!(c.base_path(), "http://example.com:8000/api");
    let c = Client::try_new_http("10.0.0.1:20000").unwrap();
    assert_eq!(c.base_path(), "http://10.0.0.1:20000");
    assert_eq!(Client::try_new_http("/only/path").unwrap_err(), ClientInitError::MissingHost);
    assert_eq!(Client::try_new_http("http://exa mple").unwrap_err(), ClientInitError::InvalidUri);
}

#[test]
fn client_scheme_must_be_http() {
    assert!(Client::try_new("HTTP://host:1").is_ok());
    assert_eq!(Client::try_new("https://host:1").unwrap_err(), ClientInitError::InvalidScheme);
    assert_eq!(Client::try_new_http("ftp://bob:21").unwrap_err(), ClientInitError::InvalidScheme);
    assert_eq!(Client::try_new_http("https://bob:21").unwrap_err(), ClientInitError::InvalidScheme);
    assert_eq!(Client::try_new_http("http://localhost:8000/api/").unwrap().base_path(), "http://localhost:8000/api");
}

fn context(span: &str) -> ClientContext {
    ClientContext {
        timeout: RequestTimeout::from_millis(1500),
        auth_data: Some(Credentials { login: "admin".to_string(), password: "pw".to_string() }),
        xspan: XSpanIdString(span.to_string()),
    }
}

#[test]
fn context_gives_and_changes_its_parts() {
    let mut c = context("s");
    let span: &XSpanIdString = c.get();
    assert_eq!(span.0, "s");
    let auth: &mut Option<Credentials> = c.get_mut();
    *auth = None;
    assert!(c.auth_data.is_none());
    assert_eq!(c.xspan.0, "s");
    let timeout: &mut RequestTimeout = c.get_mut();
    *timeout = RequestTimeout::from_millis(20);
    assert_eq!(c.timeout.into_inner(), (0, 20_000_000));
}

#[test]
fn requests_carry_the_context() {
    let c = Client::try_new_http("http://host:8000").unwrap();
    let parts = c.form_request("/nodes", Method::Get, &context("span-1")).unwrap();
    assert_eq!(parts.uri, "http://host:8000/nodes");
    assert_eq!(parts.x_span_id, "span-1");
    assert_eq!(parts.method, Method::Get);
    assert_eq!(parts.authorization.unwrap().login, "admin");
    assert_eq!(c.form_request("/nodes", Method::Get, &context("bad\nspan")).err(), Some(ClientError::CantFormRequest));
    assert_eq!(c.form_request("/a b", Method::Get, &context("s")).err(), Some(ClientError::BadUri));
}

#[test]
fn timeouts() {
    assert_eq!(RequestTimeout::from_millis(1500).into_inner(), (1, 500_000_000));
    assert_eq!(RequestTimeout::from_millis(999).into_inner(), (0, 999_000_000));
    assert!(RequestTimeout::from_millis(1000) < RequestTimeout::from_millis(1001));
}

#[test]
fn span_ids() {
    assert_eq!(XSpanIdString::get_or_generate(Some(b"abc-1")).0, "abc-1");
    let generated = XSpanIdString::get_or_generate(Some(&[0x7f, 0x41]));
    assert_eq!(generated.0.len(), 36);
    assert_eq!(XSpanIdString::get_or_generate(None).0.len(), 36);
}

#[test]
fn hostname_with_port() {
    let h = Hostname::with_port("10.0.0.1:20000", 8000).unwrap();
    assert_eq!(h.port(), Some(8000));
    assert_eq!(h.to_string(), "10.0.0.1:8000");
    assert_eq!(Hostname::with_port("nocolon", 1).unwrap_err(), HostnameError::NoPort);
    assert_eq!(Hostname::with_port("bad host:1", 1).unwrap_err(), HostnameError::BadAddress);
    assert_eq!(Hostname::with_port("http://localhost", 9000).unwrap_err(), HostnameError::NoPort);
    let h = Hostname::with_port("http://localhost:8000", 9000).unwrap();
    assert_eq!(h.port(), Some(9000));
    assert_eq!(Hostname::try_from_text("0.0.0.0:7000").unwrap().port(), Some(7000));
}

#[test]
fn node_map_is_sorted_and_overwrites() {
    let mut m: NodeMap<u32> = NodeMap::new();
    m.insert("b".to_string(), 2);
    m.insert("a".to_string(), 1);
    m.insert("c".to_string(), 3);
    m.insert("b".to_string(), 20);
    assert_eq!(m.get("b"), Some(&20));
    assert_eq!(m.get("a"), Some(&1));
    assert_eq!(m.get("z"), None);
    assert_eq!(m.values(), vec![&1, &20, &3]);
    let pairs: Vec<(String, u32)> = m.pairs().into_iter().map(|(k, v)| (k.clone(), *v)).collect();
    assert_eq!(pairs, vec![("a".to_string(), 1), ("b".to_string(), 20), ("c".to_string(), 3)]);
}

#[test]
fn clients_of_nodes() {
    let host = Hostname::try_from_text("10.0.0.1:8000").unwrap();
    let node = Node::new("n1".to_string(), "10.0.0.2:20000".to_string());
    let (name, client) = from_node(&node, &host, context("s")).unwrap();
    assert_eq!(name, "n1");
    assert_eq!(client.api().base_path(), "http://10.0.0.2:8000");
    let no_port = Hostname::try_from_text("http://host/").unwrap();
    assert!(from_node(&node, &no_port, context("s")).is_none());
}

#[test]
fn bob_client_from_answer() {
    let data = BobConnectionData { hostname: Hostname::try_from_text("10.0.0.1:8000").unwrap(), credentials: None };
    let main = BobClient::prepare(&data, RequestTimeout::from_millis(10)).unwrap();
    assert_eq!(main.api().base_path(), "http://10.0.0.1:8000");
    let nodes = vec![
        Node::new("n2".to_string(), "10.0.0.3:1".to_string()),
        Node::new("n1".to_string(), "10.0.0.2:1".to_string()),
    ];
    let bob = BobClient::assemble(data.clone(), main, Ok(GetNodesResponse::AJSONArrayOfNodesInfoAndVdisksOnThem(nodes))).unwrap();
    assert_eq!(bob.cluster().len(), 2);
    assert_eq!(bob.api_secondary("n1").unwrap().api().base_path(), "http://10.0.0.2:8000");
    assert!(bob.api_secondary("n3").is_none());
    assert_eq!(bob.user(), "Unknown");
    let main = BobClient::prepare(&data, RequestTimeout::from_millis(10)).unwrap();
    assert_eq!(BobClient::assemble(data.clone(), main, Ok(GetNodesResponse::PermissionDenied)).err(), Some(ClientError::PermissionDenied));
    let main = BobClient::prepare(&data, RequestTimeout::from_millis(10)).unwrap();
    assert_eq!(BobClient::assemble(data.clone(), main, Err(APIError::InvalidStatusCode(401))).err(), Some(ClientError::PermissionDenied));
    let main = BobClient::prepare(&data, RequestTimeout::from_millis(10)).unwrap();
    assert_eq!(BobClient::assemble(data, main, Err(APIError::RequestFailed)).err(), Some(ClientError::Inaccessible));
}

#[test]
fn bob_client_names_its_user() {
    let credentials = Credentials { login: "admin".to_string(), password: "pw".to_string() };
    let data = BobConnectionData { hostname: Hostname::try_from_text("10.0.0.1:8000").unwrap(), credentials: Some(credentials) };
    let main = BobClient::prepare(&data, RequestTimeout::from_millis(10)).unwrap();
    let bob = BobClient::assemble(data, main, Ok(GetNodesResponse::AJSONArrayOfNodesInfoAndVdisksOnThem(vec![]))).unwrap();
    assert_eq!(bob.user(), "admin");
}

#[test]
fn probes() {
    assert_eq!(probe(Ok(GetNodesResponse::AJSONArrayOfNodesInfoAndVdisksOnThem(vec![]))), Ok(200));
    assert_eq!(probe(Ok(GetNodesResponse::PermissionDenied)), Err(ClientError::PermissionDenied));
    assert_eq!(probe(Err(APIError::RequestFailed)), Err(ClientError::Inaccessible));
    assert_eq!(cluster_probe_code(Ok(GetNodesResponse::PermissionDenied)), 401);
    assert_eq!(cluster_probe_code(Err(APIError::ResponseError)), 404);
}

#[test]
fn status_codes_of_answers() {
    assert_eq!(GetAlienDirResponse::Directory(Dir::new()).status_code(), 200);
    assert_eq!(GetAlienDirResponse::NotAcceptableBackend(StatusExt::new()).status_code(), 406);
    assert_eq!(GetVDisksResponse::PermissionDenied.as_invalid_status(), APIError::InvalidStatusCode(403));
    assert_eq!(APIError::RequestFailed.status_code(), 404);
    assert_eq!(APIError::InvalidStatusCode(418).status_code(), 418);
    assert_eq!(APIError::ResponseError.status_code(), 500);
}

#[test]
fn context_wrapper_binds() {
    let w: ContextWrapper<u8, u16> = 3u8.with_context(4u16);
    assert_eq!(*w.api(), 3);
    assert_eq!(*w.context(), 4);
}

#[test]
fn endpoints_and_answers() {
    assert_eq!(Endpoint::Partition(-3, "p1".to_string()).path(), "/vdisks/-3/partitions/p1");
    assert_eq!(Endpoint::Records(12).path(), "/vdisks/12/records/count");
    assert_eq!(Endpoint::VDisk(7).path(), "/vdisks/7");
    assert_eq!(Endpoint::SpaceInfo.path(), "/status/space");
    assert_eq!(Endpoint::Nodes.answer_plan(200), Ok(AnswerPlan::Success));
    assert_eq!(Endpoint::Nodes.answer_plan(403), Ok(AnswerPlan::Denied));
    assert_eq!(Endpoint::Disks.answer_plan(403), Ok(AnswerPlan::DeniedWithStatus));
    assert_eq!(Endpoint::VDisk(1).answer_plan(404), Ok(AnswerPlan::NotFoundWithStatus));
    assert_eq!(Endpoint::AlienDir.answer_plan(406), Ok(AnswerPlan::NotAcceptableWithStatus));
    assert_eq!(Endpoint::Metrics.answer_plan(403), Err(APIError::InvalidStatusCode(403)));
    assert_eq!(Endpoint::Disks.answer_plan(500), Err(APIError::InvalidStatusCode(500)));
}
