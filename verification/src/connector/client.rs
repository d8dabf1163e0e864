//! A client of one BOB node: the base path of its API, and the parts of the
//! requests that it sends there.

use vstd::prelude::*;
use crate::connector::context::ClientContext;
use crate::connector::ClientError;
use crate::connector::api::APIError;
use crate::decimal::{int_text, nat_text, push_i32_text, push_u64_text};
use crate::models::shared::{Credentials, UriParts, parse_uri, parsed_uri, uri_view};
use crate::router::Method;
use crate::text::{chars_of, push_char};

verus! {

/// Error type for failing to create a Client
#[derive(Debug, Clone, Copy, PartialEq, Eq, Structural)]
pub enum ClientInitError {
    /// invalid URL scheme
    InvalidScheme,
    /// invalid URI
    InvalidUri,
    /// no hostname specified
    MissingHost,
}

/// The text with every trailing `/` removed.
pub open spec fn trim_slashes(s: Seq<char>) -> Seq<char>
    decreases s.len(),
{
    if s.len() > 0 && s.last() == '/' {
        trim_slashes(s.drop_last())
    } else {
        s
    }
}

/// The scheme of a URI, `http` where it has none.
pub open spec fn scheme_or_http(scheme: Option<Seq<char>>) -> Seq<char> {
    match scheme {
        Some(s) => s,
        None => "http"@,
    }
}

/// The base path of the API at a URI: the scheme, `://`, the host, `:` and
/// the port where it has one, and the path without trailing slashes; none
/// where the URI has no host.
pub open spec fn base_path_of(p: (Option<Seq<char>>, Option<Seq<char>>, Option<u16>, Seq<char>, Seq<char>)) -> Option<Seq<char>> {
    match p.1 {
        None => None,
        Some(host) => Some(
            scheme_or_http(p.0) + "://"@ + host + (match p.2 {
                Some(n) => seq![':'] + nat_text(n as nat),
                None => Seq::<char>::empty(),
            }) + trim_slashes(p.3),
        ),
    }
}

/// The base path of the API at a URI text, or why there is none; where a
/// scheme is expected, the URI's scheme (`http` where it has none) must be
/// that one.
pub open spec fn base_path_checked(text: Seq<char>, expected: Option<Seq<char>>) -> Result<Seq<char>, ClientInitError> {
    match parsed_uri(text) {
        None => Err(ClientInitError::InvalidUri),
        Some(p) => if expected matches Some(s) && scheme_or_http(p.0) != s {
            Err(ClientInitError::InvalidScheme)
        } else {
            match base_path_of(p) {
                None => Err(ClientInitError::MissingHost),
                Some(b) => Ok(b),
            }
        },
    }
}

/// The base path of the API at a URI text, whatever its scheme, or why
/// there is none.
pub open spec fn base_path_result(text: Seq<char>) -> Result<Seq<char>, ClientInitError> {
    base_path_checked(text, None)
}

/// The base path of the API at a URI text whose scheme is `http`, or why
/// there is none.
pub open spec fn http_base_path(text: Seq<char>) -> Result<Seq<char>, ClientInitError> {
    base_path_checked(text, Some("http"@))
}

/// The ASCII letters of a text in lower case.
pub open spec fn ascii_lower(s: Seq<char>) -> Seq<char> {
    s.map_values(|c: char| if 'A' <= c && c <= 'Z' {
        ((c as u32) + 32) as char
    } else {
        c
    })
}

/// Appends a text.
fn push_str(out: &mut String, s: &str)
    ensures
        final(out)@ == old(out)@ + s@,
{
    let cs = chars_of(s);
    let ghost start = out@;
    let mut i: usize = 0;
    while i < cs.len()
        invariant
            0 <= i <= cs.len(),
            cs@ == s@,
            out@ == start + cs@.take(i as int),
        decreases cs.len() - i,
    {
        push_char(out, cs[i]);
        assert(cs@.take(i + 1) =~= cs@.take(i as int).push(cs@[i as int]));
        i = i + 1;
    }
    assert(cs@.take(cs.len() as int) =~= s@);
}

/// The base path of the API at the URI with these parts, or why there is none.
pub fn base_path_from_parts(parts: &UriParts) -> (r: Result<String, ClientInitError>)
    ensures
        match base_path_of(uri_view(*parts)) {
            None => r == Err::<String, ClientInitError>(ClientInitError::MissingHost),
            Some(b) => r matches Ok(s) && s@ == b,
        },
{
    let host = match &parts.host {
        Some(h) => h,
        None => return Err(ClientInitError::MissingHost),
    };
    let mut out = String::new();
    match &parts.scheme {
        Some(s) => push_str(&mut out, s.as_str()),
        None => push_str(&mut out, "http"),
    }
    push_str(&mut out, "://");
    push_str(&mut out, host.as_str());
    match parts.port {
        Some(n) => {
            push_char(&mut out, ':');
            push_u64_text(&mut out, n as u64);
        },
        None => {},
    }
    let path = chars_of(parts.path.as_str());
    let mut end: usize = path.len();
    assert(path@.take(end as int) =~= path@);
    while end > 0 && path[end - 1] == '/'
        invariant
            end <= path.len(),
            path@ == parts.path@,
            trim_slashes(parts.path@) == trim_slashes(path@.take(end as int)),
        decreases end,
    {
        assert(path@.take(end as int).drop_last() =~= path@.take(end - 1));
        end = end - 1;
    }
    let ghost before = out@;
    let mut i: usize = 0;
    while i < end
        invariant
            0 <= i <= end <= path.len(),
            out@ == before + path@.take(i as int),
        decreases end - i,
    {
        push_char(&mut out, path[i]);
        assert(path@.take(i + 1) =~= path@.take(i as int).push(path@[i as int]));
        i = i + 1;
    }
    proof {
        let t = path@.take(end as int);
        if end > 0 {
            assert(t.last() == path@[end - 1]);
        }
        assert(trim_slashes(t) == t);
        assert(out@ =~= base_path_of(uri_view(*parts))->0);
    }
    Ok(out)
}

/// Convert input into a base path, e.g. <http://example:123>. Also checks
/// the scheme, where one is expected.
fn into_base_path(input: &str, correct_scheme: Option<&str>) -> (r: Result<String, ClientInitError>)
    ensures
        match base_path_checked(input@, match correct_scheme {
            Some(s) => Some(s@),
            None => None,
        }) {
            Ok(b) => r matches Ok(s) && s@ == b,
            Err(e) => r == Err::<String, ClientInitError>(e),
        },
{
    let parts = match parse_uri(input) {
        Some(parts) => parts,
        None => return Err(ClientInitError::InvalidUri),
    };
    if let Some(expected) = correct_scheme {
        let ok = match &parts.scheme {
            Some(scheme) => crate::form::text_eq(scheme.as_str(), expected),
            None => crate::form::text_eq("http", expected),
        };
        if !ok {
            return Err(ClientInitError::InvalidScheme);
        }
    }
    base_path_from_parts(&parts)
}

/// The text in lower case, as `str::to_ascii_lowercase` writes it.
fn to_ascii_lower(s: &str) -> (r: String)
    ensures
        r@ == ascii_lower(s@),
{
    let cs = chars_of(s);
    let mut out = String::new();
    let mut i: usize = 0;
    while i < cs.len()
        invariant
            0 <= i <= cs.len(),
            cs@ == s@,
            out@ == ascii_lower(cs@.take(i as int)),
        decreases cs.len() - i,
    {
        let c = cs[i];
        let d = if 'A' <= c && c <= 'Z' {
            ((c as u8) + 32) as char
        } else {
            c
        };
        proof {
            if 'A' <= c && c <= 'Z' {
                assert(((c as u8) + 32) as char == ((c as u32) + 32) as char);
            }
        }
        push_char(&mut out, d);
        assert(ascii_lower(cs@.take(i + 1)) =~= ascii_lower(cs@.take(i as int)).push(d));
        i = i + 1;
    }
    assert(cs@.take(cs.len() as int) =~= s@);
    out
}

/// Whether `hyper` accepts a text as a header value: every byte is visible
/// ASCII, a tab, or beyond ASCII.
pub open spec fn header_value_ok(s: Seq<char>) -> bool {
    forall|i: int| 0 <= i < s.len() ==> ((#[trigger] s[i]) == '\t' || (' ' <= s[i] && s[i] != '\x7f'))
}

/// Whether `hyper::header::HeaderValue::from_str` accepts the text. The
/// contract claims what its source shows: it accepts a text exactly when
/// every byte is at least 32 and not 127, or a tab; bytes beyond ASCII
/// are accepted, so a character beyond ASCII is.
#[verifier::external_body]
fn is_header_value(s: &str) -> (r: bool)
    ensures
        r == header_value_ok(s@),
{
    hyper::header::HeaderValue::from_str(s).is_ok()
}

/// The parts of a request to a node: its method, its URI, its `x-span-id`
/// header and the credentials of its `Authorization` header, if any.
#[derive(Clone)]
pub struct RequestParts {
    pub method: Method,
    pub uri: String,
    pub x_span_id: String,
    pub authorization: Option<Credentials>,
}

/// A client that sends requests to the API of one node.
#[derive(Debug, Clone, PartialEq, Eq)]
pub struct Client {
    base_path: String,
}

impl Client {
    /// The base path of the API, to which endpoints are appended.
    pub closed spec fn base_path_spec(&self) -> Seq<char> {
        self.base_path@
    }

    /// The base path of the API.
    pub fn base_path(&self) -> (r: &str)
        ensures
            r@ == self.base_path_spec(),
    {
        self.base_path.as_str()
    }

    /// Create an HTTP client for the API at this base path; the scheme of the
    /// path, `http` where it has none, must be `http` in any case.
    pub fn try_new(base_path: &str) -> (r: Result<Self, ClientInitError>)
        ensures
            match parsed_uri(base_path@) {
                None => r == Err::<Self, ClientInitError>(ClientInitError::InvalidUri),
                Some(p) => if ascii_lower(scheme_or_http(p.0)) != "http"@ {
                    r == Err::<Self, ClientInitError>(ClientInitError::InvalidScheme)
                } else {
                    match base_path_result(base_path@) {
                        Ok(b) => r matches Ok(c) && c.base_path_spec() == b,
                        Err(e) => r == Err::<Self, ClientInitError>(e),
                    }
                },
            },
    {
        let parts = match parse_uri(base_path) {
            Some(p) => p,
            None => return Err(ClientInitError::InvalidUri),
        };
        let scheme = match &parts.scheme {
            Some(s) => to_ascii_lower(s.as_str()),
            None => to_ascii_lower("http"),
        };
        proof {
            reveal_strlit("http");
            assert(ascii_lower("http"@) =~= "http"@);
        }
        if !crate::form::text_eq(scheme.as_str(), "http") {
            return Err(ClientInitError::InvalidScheme);
        }
        match into_base_path(base_path, None) {
            Ok(b) => Ok(Client { base_path: b }),
            Err(e) => Err(e),
        }
    }

    /// Create an HTTP client for the API at this base path, whose scheme must
    /// be `http` (assumed where it has none).
    pub fn try_new_http(base_path: &str) -> (r: Result<Self, ClientInitError>)
        ensures
            match http_base_path(base_path@) {
                Ok(b) => r matches Ok(c) && c.base_path_spec() == b,
                Err(e) => r == Err::<Self, ClientInitError>(e),
            },
    {
        match into_base_path(base_path, Some("http")) {
            Ok(b) => Ok(Client { base_path: b }),
            Err(e) => Err(e),
        }
    }

    /// The parts of a request to an endpoint of the API: the URI is the base
    /// path followed by the endpoint, the span id and credentials are the
    /// context's. It fails where the URI does not read, or the span id is
    /// no header value.
    pub fn form_request(&self, endpoint: &str, method: Method, context: &ClientContext) -> (r: Result<RequestParts, ClientError>)
        ensures
            match parsed_uri(self.base_path_spec() + endpoint@) {
                None => r == Err::<RequestParts, ClientError>(ClientError::BadUri),
                Some(_) => if !header_value_ok(context.xspan.0@) {
                    r == Err::<RequestParts, ClientError>(ClientError::CantFormRequest)
                } else {
                    r matches Ok(parts) && parts.method == method && parts.uri@ == self.base_path_spec() + endpoint@
                        && parts.x_span_id@ == context.xspan.0@ && parts.authorization == context.auth_data
                },
            },
    {
        let mut uri = self.base_path.clone();
        push_str(&mut uri, endpoint);
        if parse_uri(uri.as_str()).is_none() {
            return Err(ClientError::BadUri);
        }
        if !is_header_value(context.xspan.0.as_str()) {
            return Err(ClientError::CantFormRequest);
        }
        Ok(RequestParts {
            method,
            uri,
            x_span_id: context.xspan.0.clone(),
            authorization: match &context.auth_data {
                Some(c) => Some(c.clone()),
                None => None,
            },
        })
    }
}

/// A request of BOB's API.
#[derive(Debug, Clone, PartialEq, Eq)]
pub enum Endpoint {
    /// Return directory of alien
    AlienDir,
    /// Returns the list of disks with their states
    Disks,
    /// Get metrics
    Metrics,
    /// Returns a list of known nodes
    Nodes,
    /// Returns a partition info by ID
    Partition(i32, String),
    /// Returns a list of partitions
    Partitions(i32),
    /// Returns count of records of this on node
    Records(i32),
    /// Returns directories of local replicas of vdisk
    ReplicasLocalDirs(i32),
    /// Get space info
    SpaceInfo,
    /// Returns information about self
    Status,
    /// Returns a vdisk info by ID
    VDisk(i32),
    /// Returns a list of vdisks
    VDisks,
    /// Returns server version
    Version,
    /// Returns configuration of the node
    Configuration,
}

/// How an answer with an expected status code is read.
#[derive(Debug, Clone, Copy, PartialEq, Eq, Structural)]
pub enum AnswerPlan {
    /// The answer holds what was asked for.
    Success,
    /// Permission denied, with no body.
    Denied,
    /// Permission denied, with a status body.
    DeniedWithStatus,
    /// Not found, with a status body.
    NotFoundWithStatus,
    /// Not acceptable backend, with a status body.
    NotAcceptableWithStatus,
}

/// The path of a request, below the base path of the API.
pub open spec fn endpoint_path(e: Endpoint) -> Seq<char> {
    match e {
        Endpoint::AlienDir => "/alien/dir"@,
        Endpoint::Disks => "/disks/list"@,
        Endpoint::Metrics => "/metrics"@,
        Endpoint::Nodes => "/nodes"@,
        Endpoint::Partition(id, p) => "/vdisks/"@ + int_text(id as int) + "/partitions/"@ + p@,
        Endpoint::Partitions(id) => "/vdisks/"@ + int_text(id as int) + "/partitions"@,
        Endpoint::Records(id) => "/vdisks/"@ + int_text(id as int) + "/records/count"@,
        Endpoint::ReplicasLocalDirs(id) => "/vdisks/"@ + int_text(id as int) + "/replicas/local/dirs"@,
        Endpoint::SpaceInfo => "/status/space"@,
        Endpoint::Status => "/status"@,
        Endpoint::VDisk(id) => "/vdisks/"@ + int_text(id as int),
        Endpoint::VDisks => "/vdisks"@,
        Endpoint::Version => "/version"@,
        Endpoint::Configuration => "/configuration"@,
    }
}

/// Each request goes to the path that BOB's REST API serves for it: the
/// list of disks under `/disks/list`, the space under `/status/space`, a
/// virtual disk and what belongs to it under `/vdisks/` and its id in
/// decimal, and so on.
pub proof fn lemma_endpoint_paths()
    ensures
        endpoint_path(Endpoint::AlienDir) == "/alien/dir"@,
        endpoint_path(Endpoint::Disks) == "/disks/list"@,
        endpoint_path(Endpoint::Metrics) == "/metrics"@,
        endpoint_path(Endpoint::Nodes) == "/nodes"@,
        endpoint_path(Endpoint::SpaceInfo) == "/status/space"@,
        endpoint_path(Endpoint::Status) == "/status"@,
        endpoint_path(Endpoint::VDisks) == "/vdisks"@,
        endpoint_path(Endpoint::Version) == "/version"@,
        endpoint_path(Endpoint::Configuration) == "/configuration"@,
        forall|id: i32, p: String| #[trigger] endpoint_path(Endpoint::Partition(id, p))
            == "/vdisks/"@ + int_text(id as int) + "/partitions/"@ + p@,
        forall|id: i32| #[trigger] endpoint_path(Endpoint::Partitions(id)) == "/vdisks/"@ + int_text(id as int) + "/partitions"@,
        forall|id: i32| #[trigger] endpoint_path(Endpoint::Records(id)) == "/vdisks/"@ + int_text(id as int) + "/records/count"@,
        forall|id: i32| #[trigger] endpoint_path(Endpoint::ReplicasLocalDirs(id))
            == "/vdisks/"@ + int_text(id as int) + "/replicas/local/dirs"@,
        forall|id: i32| #[trigger] endpoint_path(Endpoint::VDisk(id)) == "/vdisks/"@ + int_text(id as int),
{
}

/// How an answer to a request is read by its status code; a code that the
/// request does not expect is an error of that code.
pub open spec fn answer_plan_of(e: Endpoint, status: u16) -> Result<AnswerPlan, APIError> {
    if status == 200 {
        Ok(AnswerPlan::Success)
    } else if status == 403 && (e is Nodes || e is VDisks || e is Configuration) {
        Ok(AnswerPlan::Denied)
    } else if status == 403 && (e is AlienDir || e is Disks || e is Partition || e is Partitions || e is Records
        || e is ReplicasLocalDirs || e is VDisk) {
        Ok(AnswerPlan::DeniedWithStatus)
    } else if status == 404 && (e is Partition || e is Partitions || e is Records || e is ReplicasLocalDirs || e is VDisk) {
        Ok(AnswerPlan::NotFoundWithStatus)
    } else if status == 406 && e is AlienDir {
        Ok(AnswerPlan::NotAcceptableWithStatus)
    } else {
        Err(APIError::InvalidStatusCode(status))
    }
}

impl Endpoint {
    /// The path of the request, below the base path of the API.
    pub fn path(&self) -> (r: String)
        ensures
            r@ == endpoint_path(*self),
    {
        let mut out = String::new();
        match self {
            Endpoint::AlienDir => push_str(&mut out, "/alien/dir"),
            Endpoint::Disks => push_str(&mut out, "/disks/list"),
            Endpoint::Metrics => push_str(&mut out, "/metrics"),
            Endpoint::Nodes => push_str(&mut out, "/nodes"),
            Endpoint::Partition(id, p) => {
                push_str(&mut out, "/vdisks/");
                push_i32_text(&mut out, *id);
                push_str(&mut out, "/partitions/");
                push_str(&mut out, p.as_str());
            },
            Endpoint::Partitions(id) => {
                push_str(&mut out, "/vdisks/");
                push_i32_text(&mut out, *id);
                push_str(&mut out, "/partitions");
            },
            Endpoint::Records(id) => {
                push_str(&mut out, "/vdisks/");
                push_i32_text(&mut out, *id);
                push_str(&mut out, "/records/count");
            },
            Endpoint::ReplicasLocalDirs(id) => {
                push_str(&mut out, "/vdisks/");
                push_i32_text(&mut out, *id);
                push_str(&mut out, "/replicas/local/dirs");
            },
            Endpoint::SpaceInfo => push_str(&mut out, "/status/space"),
            Endpoint::Status => push_str(&mut out, "/status"),
            Endpoint::VDisk(id) => {
                push_str(&mut out, "/vdisks/");
                push_i32_text(&mut out, *id);
            },
            Endpoint::VDisks => push_str(&mut out, "/vdisks"),
            Endpoint::Version => push_str(&mut out, "/version"),
            Endpoint::Configuration => push_str(&mut out, "/configuration"),
        }
        proof {
            reveal_strlit("");
        }
        assert(out@ =~= endpoint_path(*self));
        out
    }

    /// How an answer to this request is read by its status code.
    pub fn answer_plan(&self, status: u16) -> (r: Result<AnswerPlan, APIError>)
        ensures
            r == answer_plan_of(*self, status),
    {
        if status == 200 {
            return Ok(AnswerPlan::Success);
        }
        match self {
            Endpoint::Nodes | Endpoint::VDisks | Endpoint::Configuration => if status == 403 {
                Ok(AnswerPlan::Denied)
            } else {
                Err(APIError::InvalidStatusCode(status))
            },
            Endpoint::AlienDir => if status == 403 {
                Ok(AnswerPlan::DeniedWithStatus)
            } else if status == 406 {
                Ok(AnswerPlan::NotAcceptableWithStatus)
            } else {
                Err(APIError::InvalidStatusCode(status))
            },
            Endpoint::Disks => if status == 403 {
                Ok(AnswerPlan::DeniedWithStatus)
            } else {
                Err(APIError::InvalidStatusCode(status))
            },
            Endpoint::Partition(_, _) | Endpoint::Partitions(_) | Endpoint::Records(_) | Endpoint::ReplicasLocalDirs(_)
            | Endpoint::VDisk(_) => if status == 403 {
                Ok(AnswerPlan::DeniedWithStatus)
            } else if status == 404 {
                Ok(AnswerPlan::NotFoundWithStatus)
            } else {
                Err(APIError::InvalidStatusCode(status))
            },
            _ => Err(APIError::InvalidStatusCode(status)),
        }
    }
}

} // verus!
