//! The client side of BOB's REST API: a client for each node of a cluster.

pub mod api;
pub mod client;
pub mod context;
pub mod dto;
pub mod error;

use vstd::prelude::*;
use crate::connector::api::{APIError, GetNodesResponse};
use crate::connector::client::Client;
use crate::connector::context::{ClientContext, ContextWrapper};
use crate::connector::dto::Node;
use crate::form::text_eq;
use crate::connector::client::http_base_path;
use crate::models::shared::{BobConnectionData, Hostname, RequestTimeout, XSpanIdString, new_uuid, parsed_uri, with_port_text, port_colon};
use crate::text::{text_less, text_lt, lemma_text_lt_strict, lemma_text_lt_total, lemma_text_lt_trans};

verus! {

/// Why a client of a cluster could not be made or used.
#[derive(Debug, Clone, Copy, PartialEq, Eq, Structural)]
pub enum ClientError {
    /// couldn't init http client
    InitClient,
    /// couldn't probe connection to the node
    Inaccessible,
    /// permission denied
    PermissionDenied,
    /// no client found for requested resource
    NoClient,
    /// can't form request
    CantFormRequest,
    /// bad URI
    BadUri,
}

/// HTTP Connector constructor
#[derive(Debug)]
pub struct Connector;

impl Connector {
    /// A builder of HTTP(S) connectors.
    pub fn builder() -> (r: Builder) {
        Builder {}
    }
}

/// Builder for HTTP(S) connectors
#[derive(Debug)]
pub struct Builder {}

impl Builder {
    /// Use HTTPS instead of HTTP
    pub fn https(self) -> (r: HttpsBuilder) {
        HttpsBuilder {}
    }
}

/// Builder for HTTPS connectors; HTTPS is not supported, so nothing builds one.
#[derive(Debug)]
pub struct HttpsBuilder {}

/// The value of the first entry from index `j` on with this name.
pub open spec fn node_from<V>(es: Seq<(String, V)>, name: Seq<char>, j: int) -> Option<V>
    decreases es.len() - j,
{
    if j < 0 || j >= es.len() {
        None
    } else if es[j].0@ == name {
        Some(es[j].1)
    } else {
        node_from(es, name, j + 1)
    }
}

proof fn lemma_node_found<V>(es: Seq<(String, V)>, name: Seq<char>, p: int, j: int)
    requires
        0 <= j <= p < es.len(),
        es[p].0@ == name,
        forall|k: int| 0 <= k < p ==> es[k].0@ != name,
    ensures
        node_from(es, name, j) == Some(es[p].1),
    decreases p - j,
{
    if j < p {
        lemma_node_found(es, name, p, j + 1);
    }
}

proof fn lemma_node_update<V>(es: Seq<(String, V)>, p: int, x: (String, V), name: Seq<char>, j: int)
    requires
        0 <= p < es.len(),
        0 <= j,
        x.0@ == es[p].0@,
        name != es[p].0@,
    ensures
        node_from(es.update(p, x), name, j) == node_from(es, name, j),
    decreases es.len() - j,
{
    if j < es.len() {
        lemma_node_update(es, p, x, name, j + 1);
    }
}

proof fn lemma_node_insert_after<V>(es: Seq<(String, V)>, p: int, x: (String, V), name: Seq<char>, k: int)
    requires
        0 <= p <= k <= es.len(),
        x.0@ != name,
    ensures
        node_from(es.insert(p, x), name, k + 1) == node_from(es, name, k),
    decreases es.len() - k,
{
    if k < es.len() {
        assert(es.insert(p, x)[k + 1] == es[k]);
        lemma_node_insert_after(es, p, x, name, k + 1);
    }
}

proof fn lemma_node_insert<V>(es: Seq<(String, V)>, p: int, x: (String, V), name: Seq<char>, j: int)
    requires
        0 <= j <= p <= es.len(),
        x.0@ != name,
    ensures
        node_from(es.insert(p, x), name, j) == node_from(es, name, j),
    decreases p - j,
{
    if j < p {
        assert(es.insert(p, x)[j] == es[j]);
        lemma_node_insert(es, p, x, name, j + 1);
    } else {
        assert(es.insert(p, x)[p] == x);
        lemma_node_insert_after(es, p, x, name, p);
    }
}

/// Values by node name, in the order of the names, as a `BTreeMap` keeps them.
#[derive(Debug, Clone)]
pub struct NodeMap<V> {
    entries: Vec<(String, V)>,
}

impl<V> NodeMap<V> {
    /// The names come in strictly increasing order.
    pub closed spec fn wf(&self) -> bool {
        forall|i: int, j: int| 0 <= i < j < self.entries@.len() ==> text_lt(self.entries@[i].0@, self.entries@[j].0@)
    }

    /// The value under a name, if any.
    pub closed spec fn value(&self, name: Seq<char>) -> Option<V> {
        node_from(self.entries@, name, 0)
    }

    /// The names, in order.
    pub closed spec fn names(&self) -> Seq<Seq<char>> {
        self.entries@.map_values(|e: (String, V)| e.0@)
    }

    /// The values, in the order of their names.
    pub closed spec fn values_spec(&self) -> Seq<V> {
        self.entries@.map_values(|e: (String, V)| e.1)
    }

    /// An empty map.
    pub fn new() -> (r: Self)
        ensures
            r.wf(),
            forall|n: Seq<char>| #[trigger] r.value(n) is None,
    {
        NodeMap { entries: Vec::new() }
    }

    /// Puts a value under a name, replacing the one there; other names keep
    /// their values.
    pub fn insert(&mut self, name: String, v: V)
        requires
            old(self).wf(),
        ensures
            final(self).wf(),
            final(self).value(name@) == Some(v),
            forall|n: Seq<char>| n != name@ ==> #[trigger] final(self).value(n) == old(self).value(n),
    {
        let ghost es = self.entries@;
        let ghost key = name@;
        let ghost vv = v;
        let mut i: usize = 0;
        while i < self.entries.len() && text_less(self.entries[i].0.as_str(), name.as_str())
            invariant
                0 <= i <= self.entries.len(),
                self.entries@ == es,
                es == old(self).entries@,
                name@ == key,
                forall|a: int, b: int| 0 <= a < b < es.len() ==> text_lt(es[a].0@, es[b].0@),
                forall|k: int| 0 <= k < i ==> text_lt(es[k].0@, key),
            decreases self.entries.len() - i,
        {
            i = i + 1;
        }
        proof {
            assert forall|k: int| 0 <= k < i implies es[k].0@ != key by {
                lemma_text_lt_strict(key, key);
            }
        }
        if i < self.entries.len() && text_eq(self.entries[i].0.as_str(), name.as_str()) {
            self.entries.remove(i);
            self.entries.insert(i, (name, v));
            proof {
                let x = self.entries@[i as int];
                assert(self.entries@ =~= es.update(i as int, x));
                lemma_node_found(self.entries@, key, i as int, 0);
                assert forall|n: Seq<char>| n != key implies #[trigger] self.value(n) == node_from(es, n, 0) by {
                    lemma_node_update(es, i as int, x, n, 0);
                }
                assert forall|a: int, b: int| 0 <= a < b < self.entries@.len() implies text_lt(self.entries@[a].0@, self.entries@[b].0@) by {
                    assert(self.entries@[a].0@ == es[a].0@ && self.entries@[b].0@ == es[b].0@);
                }
            }
        } else {
            self.entries.insert(i, (name, v));
            proof {
                let x = self.entries@[i as int];
                assert(self.entries@ =~= es.insert(i as int, x));
                if i < es.len() {
                    lemma_text_lt_total(es[i as int].0@, key);
                }
                assert forall|k: int| i < k < es.len() implies text_lt(key, es[k].0@) by {
                    lemma_text_lt_trans(key, es[i as int].0@, es[k].0@);
                }
                assert forall|a: int, b: int| 0 <= a < b < self.entries@.len() implies text_lt(self.entries@[a].0@, self.entries@[b].0@) by {
                    if b < i {
                    } else if b == i {
                    } else if a < i {
                        assert(self.entries@[b] == es[b - 1]);
                        if b - 1 > i {
                            lemma_text_lt_trans(es[a].0@, key, es[b - 1].0@);
                        } else {
                            lemma_text_lt_trans(es[a].0@, key, es[b - 1].0@);
                        }
                    } else if a == i {
                        assert(self.entries@[b] == es[b - 1]);
                    } else {
                        assert(self.entries@[a] == es[a - 1] && self.entries@[b] == es[b - 1]);
                    }
                }
                lemma_node_found(self.entries@, key, i as int, 0);
                assert forall|n: Seq<char>| n != key implies #[trigger] self.value(n) == node_from(es, n, 0) by {
                    lemma_node_insert(es, i as int, x, n, 0);
                }
            }
        }
    }

    /// The value under a name, if any.
    pub fn get(&self, name: &str) -> (r: Option<&V>)
        ensures
            match self.value(name@) {
                Some(v) => r == Some(&v),
                None => r is None,
            },
    {
        let mut j: usize = 0;
        while j < self.entries.len()
            invariant
                0 <= j <= self.entries.len(),
                node_from(self.entries@, name@, 0) == node_from(self.entries@, name@, j as int),
            decreases self.entries.len() - j,
        {
            if text_eq(self.entries[j].0.as_str(), name) {
                return Some(&self.entries[j].1);
            }
            j = j + 1;
        }
        None
    }

    /// The values, in the order of their names.
    pub fn values(&self) -> (r: Vec<&V>)
        ensures
            r@.len() == self.values_spec().len(),
            forall|i: int| 0 <= i < r@.len() ==> *r@[i] == self.values_spec()[i],
    {
        let mut r: Vec<&V> = Vec::new();
        let mut i: usize = 0;
        while i < self.entries.len()
            invariant
                0 <= i <= self.entries.len(),
                r@.len() == i,
                forall|k: int| 0 <= k < i ==> *r@[k] == self.entries@[k].1,
            decreases self.entries.len() - i,
        {
            r.push(&self.entries[i].1);
            i = i + 1;
        }
        r
    }

    /// The names with their values, in the order of the names.
    pub fn pairs(&self) -> (r: Vec<(&String, &V)>)
        ensures
            r@.len() == self.names().len(),
            forall|i: int| 0 <= i < r@.len() ==> (#[trigger] r@[i]).0@ == self.names()[i] && *r@[i].1 == self.values_spec()[i],
    {
        let mut r: Vec<(&String, &V)> = Vec::new();
        let mut i: usize = 0;
        while i < self.entries.len()
            invariant
                0 <= i <= self.entries.len(),
                r@.len() == i,
                forall|k: int| 0 <= k < i ==> (#[trigger] r@[k]).0@ == self.entries@[k].0@ && *r@[k].1 == self.entries@[k].1,
            decreases self.entries.len() - i,
        {
            r.push((&self.entries[i].0, &self.entries[i].1));
            i = i + 1;
        }
        r
    }
}

/// What a probe of a node finds from its answer to the request for its
/// nodes: the code 200, refused permission, or an unreachable node.
pub open spec fn probe_result(answer: Result<GetNodesResponse, APIError>) -> Result<u16, ClientError> {
    match answer {
        Ok(GetNodesResponse::AJSONArrayOfNodesInfoAndVdisksOnThem(_)) => Ok(200u16),
        Ok(GetNodesResponse::PermissionDenied) => Err(ClientError::PermissionDenied),
        Err(_) => Err(ClientError::Inaccessible),
    }
}

/// What a probe of a node finds from its answer to the request for its nodes.
pub fn probe(answer: Result<GetNodesResponse, APIError>) -> (r: Result<u16, ClientError>)
    ensures
        r == probe_result(answer),
{
    match answer {
        Ok(GetNodesResponse::AJSONArrayOfNodesInfoAndVdisksOnThem(_)) => Ok(200),
        Ok(GetNodesResponse::PermissionDenied) => Err(ClientError::PermissionDenied),
        Err(_) => Err(ClientError::Inaccessible),
    }
}

/// The status code that a probe of the cluster reports for a node: 200, 401
/// where it refused permission, 404 where it could not be reached.
pub fn cluster_probe_code(answer: Result<GetNodesResponse, APIError>) -> (r: u16)
    ensures
        r == (match answer {
            Ok(GetNodesResponse::AJSONArrayOfNodesInfoAndVdisksOnThem(_)) => 200u16,
            Ok(GetNodesResponse::PermissionDenied) => 401u16,
            Err(_) => 404u16,
        }),
{
    match answer {
        Ok(GetNodesResponse::AJSONArrayOfNodesInfoAndVdisksOnThem(_)) => 200,
        Ok(GetNodesResponse::PermissionDenied) => 401,
        Err(_) => 404,
    }
}

/// A client of a node of a cluster, bound to the context of its requests.
pub type HttpClient = ContextWrapper<Client, ClientContext>;

/// Clients of a BOB cluster: one for the node that was given, and one for
/// every node that it knows.
pub struct BobClient {
    id: u128,
    hostname: Hostname,
    main: HttpClient,
    cluster: NodeMap<HttpClient>,
}

/// The base path of the client of a node of the cluster: at the node's
/// address with the port of the given hostname. There is none where the
/// hostname has no port, the address does not take the port, or no client
/// can be made there.
pub open spec fn node_base_path(node: Node, hostname: Hostname) -> Option<Seq<char>> {
    match hostname.view().2 {
        None => None,
        Some(port) => match port_colon(node.address@) {
            None => None,
            Some(i) => match parsed_uri(with_port_text(node.address@, i, port)) {
                None => None,
                Some(p) => match http_base_path(p.4) {
                    Err(_) => None,
                    Ok(b) => Some(b),
                },
            },
        },
    }
}

/// The base paths of the clients of a cluster by node name: one for each
/// node that can have a client, a later node replacing an earlier one of
/// the same name.
pub open spec fn cluster_paths(nodes: Seq<Node>, hostname: Hostname) -> Map<Seq<char>, Seq<char>>
    decreases nodes.len(),
{
    if nodes.len() == 0 {
        Map::empty()
    } else {
        let m = cluster_paths(nodes.drop_last(), hostname);
        match node_base_path(nodes.last(), hostname) {
            Some(b) => m.insert(nodes.last().name@, b),
            None => m,
        }
    }
}

/// The client of a node of the cluster, under the node's name, with this
/// context; none where the node can have no client.
pub fn from_node(node: &Node, hostname: &Hostname, context: ClientContext) -> (r: Option<(String, HttpClient)>)
    ensures
        match node_base_path(*node, *hostname) {
            None => r is None,
            Some(b) => r matches Some(x) && x.0@ == node.name@ && x.1.api_spec().base_path_spec() == b
                && x.1.context_spec() == context,
        },
{
    let port = match hostname.port() {
        Some(p) => p,
        None => return None,
    };
    let h = match Hostname::with_port(node.address.as_str(), port) {
        Ok(h) => h,
        Err(_) => return None,
    };
    let text = h.to_string();
    match Client::try_new_http(text.as_str()) {
        Ok(client) => Some((node.name.clone(), ContextWrapper::new(client, context))),
        Err(_) => None,
    }
}

impl BobClient {
    /// The client of the given node, before the cluster answers: its
    /// requests carry the timeout, the credentials and a new span id.
    pub fn prepare(bob_data: &BobConnectionData, timeout: RequestTimeout) -> (r: Result<HttpClient, ClientError>)
        ensures
            match crate::connector::client::http_base_path(bob_data.hostname.view().4) {
                Err(_) => r == Err::<HttpClient, ClientError>(ClientError::InitClient),
                Ok(b) => r matches Ok(c) && c.api_spec().base_path_spec() == b && c.context_spec().timeout == timeout
                    && c.context_spec().auth_data == bob_data.credentials,
            },
    {
        let context = ClientContext {
            timeout,
            auth_data: match &bob_data.credentials {
                Some(c) => Some(c.clone()),
                None => None,
            },
            xspan: XSpanIdString::gen(),
        };
        let text = bob_data.hostname.to_string();
        match Client::try_new_http(text.as_str()) {
            Ok(client) => Ok(ContextWrapper::new(client, context)),
            Err(_) => Err(ClientError::InitClient),
        }
    }

    /// The clients of a cluster, from the client of the given node and its
    /// answer to the request for the nodes it knows: a client for each node
    /// that can have one, under the node's name, a later node replacing an
    /// earlier one of the same name. A node that refuses the credentials
    /// (permission denied, or the status code 401) gives `PermissionDenied`;
    /// any other failed request gives `Inaccessible`.
    pub fn assemble(bob_data: BobConnectionData, main: HttpClient, answer: Result<GetNodesResponse, APIError>) -> (r: Result<BobClient, ClientError>)
        ensures
            match answer {
                Ok(GetNodesResponse::AJSONArrayOfNodesInfoAndVdisksOnThem(nodes)) => r matches Ok(b) && b.main_spec() == main
                    && b.hostname_spec() == bob_data.hostname && b.cluster_spec().wf() && forall|n: Seq<char>| (match #[trigger] b.cluster_spec().value(n) {
                        Some(c) => cluster_paths(nodes@, bob_data.hostname).dom().contains(n)
                            && c.api_spec().base_path_spec() == cluster_paths(nodes@, bob_data.hostname)[n]
                            && c.context_spec() == main.context_spec(),
                        None => !cluster_paths(nodes@, bob_data.hostname).dom().contains(n),
                    }),
                Ok(GetNodesResponse::PermissionDenied) => r == Err::<BobClient, ClientError>(ClientError::PermissionDenied),
                Err(APIError::InvalidStatusCode(401)) => r == Err::<BobClient, ClientError>(ClientError::PermissionDenied),
                Err(_) => r == Err::<BobClient, ClientError>(ClientError::Inaccessible),
            },
    {
        let nodes = match answer {
            Ok(GetNodesResponse::AJSONArrayOfNodesInfoAndVdisksOnThem(nodes)) => nodes,
            Ok(GetNodesResponse::PermissionDenied) => return Err(ClientError::PermissionDenied),
            Err(APIError::InvalidStatusCode(code)) => {
                if code == 401 {
                    return Err(ClientError::PermissionDenied);
                }
                return Err(ClientError::Inaccessible);
            },
            Err(_) => return Err(ClientError::Inaccessible),
        };
        let mut cluster: NodeMap<HttpClient> = NodeMap::new();
        let mut i: usize = 0;
        assert(nodes@.take(0) =~= Seq::<Node>::empty());
        while i < nodes.len()
            invariant
                0 <= i <= nodes.len(),
                cluster.wf(),
                forall|n: Seq<char>| (match #[trigger] cluster.value(n) {
                    Some(c) => cluster_paths(nodes@.take(i as int), bob_data.hostname).dom().contains(n)
                        && c.api_spec().base_path_spec() == cluster_paths(nodes@.take(i as int), bob_data.hostname)[n]
                        && c.context_spec() == main.context_spec(),
                    None => !cluster_paths(nodes@.take(i as int), bob_data.hostname).dom().contains(n),
                }),
            decreases nodes.len() - i,
        {
            let ghost before = cluster_paths(nodes@.take(i as int), bob_data.hostname);
            assert(nodes@.take(i + 1).drop_last() =~= nodes@.take(i as int));
            assert(nodes@.take(i + 1).last() == nodes@[i as int]);
            let context = main.context().clone();
            match from_node(&nodes[i], &bob_data.hostname, context) {
                Some((name, client)) => {
                    cluster.insert(name, client);
                },
                None => {},
            }
            proof {
                let after = cluster_paths(nodes@.take(i + 1), bob_data.hostname);
                assert forall|n: Seq<char>| (match #[trigger] cluster.value(n) {
                    Some(c) => after.dom().contains(n) && c.api_spec().base_path_spec() == after[n]
                        && c.context_spec() == main.context_spec(),
                    None => !after.dom().contains(n),
                }) by {
                    let _ = before.dom().contains(n);
                }
            }
            i = i + 1;
        }
        assert(nodes@.take(nodes.len() as int) =~= nodes@);
        let (id, _) = new_uuid();
        Ok(BobClient { id, hostname: bob_data.hostname, main, cluster })
    }

    /// The client of the given node.
    pub closed spec fn main_spec(&self) -> HttpClient {
        self.main
    }

    /// The hostname of the given node.
    pub closed spec fn hostname_spec(&self) -> Hostname {
        self.hostname
    }

    /// The clients of the nodes, by name.
    pub closed spec fn cluster_spec(&self) -> NodeMap<HttpClient> {
        self.cluster
    }

    /// The id of this client.
    pub closed spec fn id_spec(&self) -> u128 {
        self.id
    }

    /// The context of the requests of the given node's client.
    pub fn context(&self) -> (r: &ClientContext)
        ensures
            *r == self.main_spec().context_spec(),
    {
        self.main.context()
    }

    /// The client of the given node.
    pub fn api_main(&self) -> (r: &HttpClient)
        ensures
            *r == self.main_spec(),
    {
        &self.main
    }

    /// The clients of the nodes, in the order of their names.
    pub fn cluster(&self) -> (r: Vec<&HttpClient>)
        ensures
            r@.len() == self.cluster_spec().values_spec().len(),
            forall|i: int| 0 <= i < r@.len() ==> *r@[i] == self.cluster_spec().values_spec()[i],
    {
        self.cluster.values()
    }

    /// The client of the node with this name, if any.
    pub fn api_secondary(&self, node_name: &str) -> (r: Option<&HttpClient>)
        ensures
            match self.cluster_spec().value(node_name@) {
                Some(c) => r == Some(&c),
                None => r is None,
            },
    {
        self.cluster.get(node_name)
    }

    /// The clients of the nodes, by name.
    pub fn cluster_with_addr(&self) -> (r: &NodeMap<HttpClient>)
        ensures
            *r == self.cluster_spec(),
    {
        &self.cluster
    }

    /// The hostname of the given node.
    pub fn hostname(&self) -> (r: &Hostname)
        ensures
            *r == self.hostname_spec(),
    {
        &self.hostname
    }

    /// The name of the user that the requests are made for, as the client
    /// describes itself: the login of its credentials, or "Unknown".
    pub fn user(&self) -> (r: &str)
        ensures
            r@ == match self.main_spec().context_spec().auth_data {
                Some(c) => c.login@,
                None => "Unknown"@,
            },
    {
        match &self.main.context().auth_data {
            Some(c) => c.login.as_str(),
            None => "Unknown",
        }
    }

    /// The id of this client.
    pub fn id(&self) -> (r: u128)
        ensures
            r == self.id_spec(),
    {
        self.id
    }
}

} // verus!
