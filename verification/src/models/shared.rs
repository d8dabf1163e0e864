//! What a client of the management server gives to reach a BOB cluster,
//! and the small values that travel with each request.

use vstd::prelude::*;
use crate::decimal::{nat_text, push_u64_text};
use crate::text::{chars_of, push_char};

verus! {

/// What `hyper::Uri` reads from a text, or `None` where it refuses the
/// text: the scheme, the host, the port, the path, and the text that the
/// URI displays as.
pub uninterp spec fn parsed_uri(text: Seq<char>) -> Option<(Option<Seq<char>>, Option<Seq<char>>, Option<u16>, Seq<char>, Seq<char>)>;

/// The parts of a URI as `hyper::Uri` reads them.
#[derive(Debug, Clone, PartialEq, Eq, Hash)]
pub struct UriParts {
    pub scheme: Option<String>,
    pub host: Option<String>,
    pub port: Option<u16>,
    pub path: String,
    pub text: String,
}

/// The parts of a URI as plain values.
pub open spec fn uri_view(p: UriParts) -> (Option<Seq<char>>, Option<Seq<char>>, Option<u16>, Seq<char>, Seq<char>) {
    (
        match p.scheme {
            Some(s) => Some(s@),
            None => None,
        },
        match p.host {
            Some(h) => Some(h@),
            None => None,
        },
        p.port,
        p.path@,
        p.text@,
    )
}

/// Reads a URI with `hyper::Uri::from_str`: its scheme (`scheme_str`), host
/// (`host`), port (`port_u16`), path (`path`) and displayed text
/// (`to_string`). The contract claims only that the parts are the ones
/// that `hyper` reads from this text, the same on every call.
#[verifier::external_body]
pub(crate) fn parse_uri(text: &str) -> (r: Option<UriParts>)
    ensures
        match r {
            Some(p) => parsed_uri(text@) == Some(uri_view(p)),
            None => parsed_uri(text@) is None,
        },
{
    match <hyper::Uri as std::str::FromStr>::from_str(text) {
        Ok(u) => Some(UriParts {
            scheme: u.scheme_str().map(String::from),
            host: u.host().map(String::from),
            port: u.port_u16(),
            path: String::from(u.path()),
            text: u.to_string(),
        }),
        Err(_) => None,
    }
}

/// The text of a UUID, as `uuid` displays it: lowercase hexadecimal in
/// groups of 8, 4, 4, 4 and 12 digits joined by hyphens.
pub uninterp spec fn uuid_text(id: u128) -> Seq<char>;

/// A new random UUID from `uuid::Uuid::new_v4`, as its 128-bit value
/// (`as_u128`) and its text (`to_string`). The contract claims only that the
/// text is the one of the value, 36 characters long; the value is random.
#[verifier::external_body]
pub(crate) fn new_uuid() -> (r: (u128, String))
    ensures
        r.1@ == uuid_text(r.0),
        r.1@.len() == 36,
{
    let id = uuid::Uuid::new_v4();
    (id.as_u128(), id.to_string())
}

/// The address of a BOB node, as a URI.
#[derive(Debug, Clone, PartialEq, Eq, Hash)]
pub struct Hostname {
    uri: UriParts,
}

/// Why an address could not be given a port.
#[derive(Debug, Clone, Copy, PartialEq, Eq, Structural)]
pub enum HostnameError {
    /// bad address: no port
    NoPort,
    /// bad address: couldn't parse hostname
    BadAddress,
}

/// The place of the last `:` in a text.
pub open spec fn last_colon(s: Seq<char>) -> Option<int>
    decreases s.len(),
{
    if s.len() == 0 {
        None
    } else if s.last() == ':' {
        Some(s.len() - 1)
    } else {
        last_colon(s.drop_last())
    }
}

/// Whether `://`, the end of a scheme, starts at `j` in a text.
pub open spec fn scheme_end_at(s: Seq<char>, j: int) -> bool {
    0 <= j && j + 3 <= s.len() && s[j] == ':' && s[j + 1] == '/' && s[j + 2] == '/'
}

/// The first place from `j` on where `://` starts, if any.
pub open spec fn first_scheme_end(s: Seq<char>, j: int) -> Option<int>
    decreases s.len() - j,
{
    if j < 0 || j + 3 > s.len() {
        None
    } else if scheme_end_at(s, j) {
        Some(j)
    } else {
        first_scheme_end(s, j + 1)
    }
}

/// Where the address proper starts in a text: after its scheme and `://`,
/// or at the start where it has none.
pub open spec fn address_start(s: Seq<char>) -> int {
    match first_scheme_end(s, 0) {
        Some(j) => j + 3,
        None => 0,
    }
}

/// The place of the `:` that comes before the port of an address: the last
/// `:` of the text, where it stands after the scheme; none where the address
/// has no port.
pub open spec fn port_colon(s: Seq<char>) -> Option<int> {
    match last_colon(s) {
        Some(i) => if i >= address_start(s) {
            Some(i)
        } else {
            None
        },
        None => None,
    }
}

/// The text of an address with its port replaced: all before its last `:`,
/// then `:` and the port.
pub open spec fn with_port_text(address: Seq<char>, i: int, port: u16) -> Seq<char> {
    address.take(i) + seq![':'] + nat_text(port as nat)
}

/// Where the address proper starts in a text, given as its characters.
fn address_start_of(cs: &Vec<char>) -> (r: usize)
    ensures
        r == address_start(cs@),
{
    let mut j: usize = 0;
    while 3 <= cs.len() - j
        invariant
            j <= cs.len(),
            first_scheme_end(cs@, 0) == first_scheme_end(cs@, j as int),
        decreases cs.len() - j,
    {
        if cs[j] == ':' && cs[j + 1] == '/' && cs[j + 2] == '/' {
            return j + 3;
        }
        j = j + 1;
    }
    0
}

impl Hostname {
    /// The parts of the URI.
    pub closed spec fn view(&self) -> (Option<Seq<char>>, Option<Seq<char>>, Option<u16>, Seq<char>, Seq<char>) {
        uri_view(self.uri)
    }

    /// The address that a text names, where it reads as a URI.
    pub fn try_from_text(text: &str) -> (r: Option<Hostname>)
        ensures
            match r {
                Some(h) => parsed_uri(text@) == Some(h.view()),
                None => parsed_uri(text@) is None,
            },
    {
        match parse_uri(text) {
            Some(uri) => Some(Hostname { uri }),
            None => None,
        }
    }

    /// The port of the address, if it has one.
    pub fn port(&self) -> (r: Option<u16>)
        ensures
            r == self.view().2,
    {
        self.uri.port
    }

    /// The address as its URI displays it.
    pub fn to_string(&self) -> (r: String)
        ensures
            r@ == self.view().4,
    {
        self.uri.text.clone()
    }

    /// The address with its port replaced by `port`: the text before the
    /// colon of its port followed by `:port`, read as a URI; `NoPort` where
    /// the address, after its scheme, has no `:`.
    pub fn with_port(address: &str, port: u16) -> (r: Result<Hostname, HostnameError>)
        ensures
            match port_colon(address@) {
                None => r == Err::<Hostname, HostnameError>(HostnameError::NoPort),
                Some(i) => match parsed_uri(with_port_text(address@, i, port)) {
                    None => r == Err::<Hostname, HostnameError>(HostnameError::BadAddress),
                    Some(p) => r matches Ok(h) && h.view() == p,
                },
            },
    {
        let cs = chars_of(address);
        let start = address_start_of(&cs);
        let mut i: usize = cs.len();
        let mut found = false;
        assert(cs@.take(cs.len() as int) =~= cs@);
        while i > 0 && !found
            invariant
                i <= cs.len(),
                cs@ == address@,
                !found ==> last_colon(address@) == last_colon(cs@.take(i as int)),
                found ==> i > 0 && last_colon(address@) == Some((i - 1) as int),
            decreases i, (if found { 0int } else { 1int }),
        {
            assert(cs@.take(i as int).drop_last() =~= cs@.take(i - 1));
            assert(cs@.take(i as int).last() == cs@[i - 1]);
            if cs[i - 1] == ':' {
                found = true;
            } else {
                i = i - 1;
            }
        }
        if !found {
            assert(i == 0);
            assert(cs@.take(0) =~= Seq::<char>::empty());
            return Err(HostnameError::NoPort);
        }
        if i - 1 < start {
            return Err(HostnameError::NoPort);
        }
        let ghost at = (i - 1) as int;
        assert(last_colon(address@) == Some(at));
        let mut body = String::new();
        let mut k: usize = 0;
        while k < i - 1
            invariant
                0 <= k <= i - 1,
                i <= cs.len(),
                cs@ == address@,
                body@ == cs@.take(k as int),
            decreases i - 1 - k,
        {
            push_char(&mut body, cs[k]);
            assert(cs@.take(k + 1) =~= cs@.take(k as int).push(cs@[k as int]));
            k = k + 1;
        }
        push_char(&mut body, ':');
        push_u64_text(&mut body, port as u64);
        assert(body@ =~= with_port_text(address@, at, port));
        match parse_uri(body.as_str()) {
            Some(uri) => Ok(Hostname { uri }),
            None => Err(HostnameError::BadAddress),
        }
    }
}

/// Optional auth credentials for a BOB cluster
#[derive(PartialEq, Eq, PartialOrd, Ord, Hash, Default)]
pub struct Credentials {
    /// Login used during auth
    pub login: String,
    /// Password used during auth
    pub password: String,
}

impl Clone for Credentials {
    /// The same login and password.
    fn clone(&self) -> (r: Self)
        ensures
            r == *self,
    {
        Credentials { login: self.login.clone(), password: self.password.clone() }
    }
}

/// Data needed to connect to a BOB cluster
#[derive(Clone, PartialEq, Eq, Hash)]
pub struct BobConnectionData {
    /// Address to connect to
    pub hostname: Hostname,
    /// Credentials used for BOB authentication, if any
    pub credentials: Option<Credentials>,
}

/// How long a request to a node may take: whole seconds and nanoseconds,
/// the nanoseconds below one second.
#[derive(Debug, Clone, Copy, PartialEq, Eq, Structural, PartialOrd, Ord, Hash)]
pub struct RequestTimeout {
    secs: u64,
    nanos: u32,
}

impl RequestTimeout {
    /// The nanoseconds are below one second.
    #[verifier::type_invariant]
    spec fn valid(self) -> bool {
        self.nanos < 1_000_000_000
    }

    /// The whole seconds.
    pub closed spec fn secs(&self) -> u64 {
        self.secs
    }

    /// The nanoseconds beyond the whole seconds.
    pub closed spec fn nanos(&self) -> u32 {
        self.nanos
    }

    /// A timeout of this many milliseconds.
    pub fn from_millis(millis: u64) -> (r: Self)
        ensures
            r.secs() == millis / 1000,
            r.nanos() == (millis % 1000) * 1_000_000,
            r.secs() * 1_000_000_000 + r.nanos() == millis * 1_000_000,
    {
        let r = RequestTimeout { secs: millis / 1000, nanos: ((millis % 1000) as u32) * 1_000_000 };
        assert((millis / 1000) * 1_000_000_000 + (millis % 1000) * 1_000_000 == millis * 1_000_000) by (nonlinear_arith);
        r
    }

    /// A timeout of these seconds and nanoseconds.
    pub fn from_parts(secs: u64, nanos: u32) -> (r: Self)
        requires
            nanos < 1_000_000_000,
        ensures
            r.secs() == secs,
            r.nanos() == nanos,
    {
        RequestTimeout { secs, nanos }
    }

    /// The seconds and nanoseconds of the timeout.
    pub fn into_inner(self) -> (r: (u64, u32))
        ensures
            r == (self.secs(), self.nanos()),
            r.1 < 1_000_000_000,
    {
        proof {
            use_type_invariant(&self);
        }
        (self.secs, self.nanos)
    }
}

/// Header - `X-Span-ID` - used to track a request through a chain of microservices.
pub const X_SPAN_ID: &'static str = "X-Span-ID";

/// Wrapper for a string being used as an X-Span-ID.
#[derive(Debug)]
pub struct XSpanIdString(pub String);

impl Clone for XSpanIdString {
    /// The same span id.
    fn clone(&self) -> (r: Self)
        ensures
            r == *self,
    {
        XSpanIdString(self.0.clone())
    }
}

/// Every byte is visible ASCII or a tab, as a header value must be to read as text.
pub open spec fn visible_ascii(b: Seq<u8>) -> bool {
    forall|i: int| 0 <= i < b.len() ==> (32 <= #[trigger] b[i] < 127 || b[i] == 9)
}

/// The text of ASCII bytes.
pub open spec fn ascii_text(b: Seq<u8>) -> Seq<char> {
    b.map_values(|x: u8| x as char)
}

impl XSpanIdString {
    /// A new random span id: the text of a new UUID.
    pub fn gen() -> (r: Self)
        ensures
            exists|id: u128| r.0@ == uuid_text(id),
    {
        let (id, text) = new_uuid();
        XSpanIdString(text)
    }

    /// The span id of a request: the value of its `X-Span-ID` header where it
    /// has one that reads as text, else a new one.
    pub fn get_or_generate(header: Option<&[u8]>) -> (r: Self)
        ensures
            match header {
                Some(b) => if visible_ascii(b@) {
                    r.0@ == ascii_text(b@)
                } else {
                    exists|id: u128| r.0@ == uuid_text(id)
                },
                None => exists|id: u128| r.0@ == uuid_text(id),
            },
    {
        match header {
            Some(b) => {
                let mut text = String::new();
                let mut i: usize = 0;
                while i < b.len()
                    invariant
                        header == Some(b),
                        0 <= i <= b@.len(),
                        text@ == ascii_text(b@.take(i as int)),
                        forall|j: int| 0 <= j < i ==> (32 <= #[trigger] b@[j] < 127 || b@[j] == 9),
                    decreases b.len() - i,
                {
                    let c = b[i];
                    if !(32 <= c && c < 127 || c == 9) {
                        assert(!visible_ascii(b@)) by {
                            assert(b@[i as int] == c);
                        }
                        return Self::gen();
                    }
                    push_char(&mut text, c as char);
                    assert(ascii_text(b@.take(i + 1)) =~= ascii_text(b@.take(i as int)).push(c as char));
                    i = i + 1;
                }
                assert(b@.take(b.len() as int) =~= b@);
                XSpanIdString(text)
            },
            None => Self::gen(),
        }
    }
}

} // verus!
