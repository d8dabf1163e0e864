//! The routes of the API: its versions, the methods that a route may have,
//! and how a route is named in the API's documentation.

use core::marker::PhantomData;
use vstd::prelude::*;

verus! {

/// Why a route could not be added.
#[derive(Debug, Clone, Copy, PartialEq, Eq, Structural, PartialOrd, Ord)]
pub enum RouteError {
    /// No route found in OpenAPI scheme
    NoRoute,
    /// No method found for specified route in OpenAPI scheme
    NoMethod,
    /// No `operation_id` found
    NoOperation,
    /// OpenAPI's `operation_id` doesn't match handler's name
    NoMatch,
    /// Unexpected method - was it `CONNECT`?
    UnexpectedMethod,
    /// Error occurred during handler processing
    InvalidHandler,
}

/// The method of an HTTP request; an extension method by its name.
#[derive(Debug, Clone, PartialEq, Eq)]
pub enum Method {
    Get,
    Put,
    Post,
    Delete,
    Head,
    Options,
    Connect,
    Patch,
    Trace,
    Extension(String),
}

/// How the API's documentation names the method of an operation.
#[derive(Debug, Clone, Copy, PartialEq, Eq, Structural)]
pub enum PathItemType {
    Get,
    Post,
    Put,
    Delete,
    Options,
    Head,
    Patch,
    Trace,
    Connect,
}

/// The methods that a route answers.
#[derive(Debug, Clone, Copy, PartialEq, Eq, Structural)]
pub enum MethodFilter {
    Get,
    Post,
    Put,
    Delete,
    Options,
    Head,
    Patch,
    Trace,
}

/// An API without a version: its routes stand at the root.
pub struct NoApi;

/// The first version of the API.
pub struct ApiV1;

/// A version of the API, and the path under which its routes stand.
pub trait ApiVersion {
    /// The path under which the routes of this version stand: the root,
    /// unless the version says otherwise.
    open spec fn version_path() -> Seq<char> {
        Seq::empty()
    }

    /// The path under which the routes of this version stand.
    fn to_path() -> (r: &'static str)
        ensures
            r@ == Self::version_path(),
    ;
}

impl ApiVersion for NoApi {
    /// The root: no path.
    fn to_path() -> (r: &'static str) {
        proof {
            reveal_strlit("");
        }
        ""
    }
}

impl ApiVersion for ApiV1 {
    /// `/api/v1`.
    open spec fn version_path() -> Seq<char> {
        "/api/v1"@
    }

    fn to_path() -> (r: &'static str) {
        "/api/v1"
    }
}

/// A value that a method converts to.
pub struct MethodWrapper<T>(pub T);

impl<T> MethodWrapper<T> {
    /// The wrapped value.
    pub fn get(&self) -> (r: &T)
        ensures
            *r == self.0,
    {
        &self.0
    }
}

/// How the documentation names a method; an extension method has no name there.
pub open spec fn path_item_of(m: Method) -> Result<PathItemType, RouteError> {
    match m {
        Method::Get => Ok(PathItemType::Get),
        Method::Put => Ok(PathItemType::Put),
        Method::Post => Ok(PathItemType::Post),
        Method::Head => Ok(PathItemType::Head),
        Method::Patch => Ok(PathItemType::Patch),
        Method::Trace => Ok(PathItemType::Trace),
        Method::Delete => Ok(PathItemType::Delete),
        Method::Options => Ok(PathItemType::Options),
        Method::Connect => Ok(PathItemType::Connect),
        Method::Extension(_) => Err(RouteError::UnexpectedMethod),
    }
}

/// The methods that a route for a method answers; none for `CONNECT` or an
/// extension method.
pub open spec fn method_filter_of(m: Method) -> Result<MethodFilter, RouteError> {
    match m {
        Method::Get => Ok(MethodFilter::Get),
        Method::Put => Ok(MethodFilter::Put),
        Method::Post => Ok(MethodFilter::Post),
        Method::Head => Ok(MethodFilter::Head),
        Method::Patch => Ok(MethodFilter::Patch),
        Method::Trace => Ok(MethodFilter::Trace),
        Method::Delete => Ok(MethodFilter::Delete),
        Method::Options => Ok(MethodFilter::Options),
        Method::Connect => Err(RouteError::UnexpectedMethod),
        Method::Extension(_) => Err(RouteError::UnexpectedMethod),
    }
}

/// How the documentation names a method; an extension method has no name there.
pub fn try_convert_path_item_type_from_method(value: &Method) -> (r: Result<PathItemType, RouteError>)
    ensures
        r == path_item_of(*value),
{
    match value {
        Method::Get => Ok(PathItemType::Get),
        Method::Put => Ok(PathItemType::Put),
        Method::Post => Ok(PathItemType::Post),
        Method::Head => Ok(PathItemType::Head),
        Method::Patch => Ok(PathItemType::Patch),
        Method::Trace => Ok(PathItemType::Trace),
        Method::Delete => Ok(PathItemType::Delete),
        Method::Options => Ok(PathItemType::Options),
        Method::Connect => Ok(PathItemType::Connect),
        Method::Extension(_) => Err(RouteError::UnexpectedMethod),
    }
}

/// The methods that a route for this method answers; a route cannot be
/// added for `CONNECT` or an extension method.
pub fn try_convert_method_filter_from_method(value: &Method) -> (r: Result<MethodFilter, RouteError>)
    ensures
        r == method_filter_of(*value),
{
    match value {
        Method::Get => Ok(MethodFilter::Get),
        Method::Put => Ok(MethodFilter::Put),
        Method::Post => Ok(MethodFilter::Post),
        Method::Head => Ok(MethodFilter::Head),
        Method::Patch => Ok(MethodFilter::Patch),
        Method::Trace => Ok(MethodFilter::Trace),
        Method::Delete => Ok(MethodFilter::Delete),
        Method::Options => Ok(MethodFilter::Options),
        Method::Connect => Err(RouteError::UnexpectedMethod),
        Method::Extension(_) => Err(RouteError::UnexpectedMethod),
    }
}

/// The documentation of the API's routes in tests.
pub struct TestDoc;

/// The documentation of the API.
pub struct ApiDoc;

/// The pieces of a text between consecutive `/`, as `str::split('/')`
/// cuts it: always at least one piece.
pub open spec fn split_slashes(s: Seq<char>) -> Seq<Seq<char>>
    decreases s.len(),
{
    if s.len() == 0 {
        seq![Seq::<char>::empty()]
    } else {
        let rest = split_slashes(s.drop_last());
        if s.last() == '/' {
            rest.push(Seq::<char>::empty())
        } else {
            rest.update(rest.len() - 1, rest.last().push(s.last()))
        }
    }
}

/// The pieces joined with `/` between them.
pub open spec fn join_slashes(ps: Seq<Seq<char>>) -> Seq<char>
    decreases ps.len(),
{
    if ps.len() == 0 {
        Seq::<char>::empty()
    } else if ps.len() == 1 {
        ps[0]
    } else {
        join_slashes(ps.drop_last()) + seq!['/'] + ps.last()
    }
}

/// How the documentation writes a piece of a route: a parameter `:name`
/// as `{name}`, any other piece as it is.
pub open spec fn doc_piece(p: Seq<char>) -> Seq<char> {
    if p.len() > 0 && p[0] == ':' {
        seq!['{'] + p.drop_first() + seq!['}']
    } else {
        p
    }
}

/// The route as the documentation names it: the version's path, then the
/// route's pieces with their parameters in braces.
pub open spec fn doc_route(prefix: Seq<char>, path: Seq<char>) -> Seq<char> {
    prefix + join_slashes(split_slashes(path).map_values(|p: Seq<char>| doc_piece(p)))
}

/// Appends the characters of a sequence.
fn push_chars(out: &mut String, cs: &Vec<char>, from: usize, to: usize)
    requires
        from <= to <= cs@.len(),
    ensures
        final(out)@ == old(out)@ + cs@.subrange(from as int, to as int),
{
    let ghost start = out@;
    let mut i: usize = from;
    while i < to
        invariant
            from <= i <= to <= cs@.len(),
            out@ == start + cs@.subrange(from as int, i as int),
        decreases to - i,
    {
        crate::text::push_char(out, cs[i]);
        assert(cs@.subrange(from as int, i + 1) =~= cs@.subrange(from as int, i as int).push(cs@[i as int]));
        i = i + 1;
    }
}

proof fn lemma_join_map_last(ps: Seq<Seq<char>>)
    requires
        ps.len() >= 1,
    ensures
        join_slashes(ps.map_values(|p: Seq<char>| doc_piece(p))) == join_slashes(ps.drop_last().map_values(|p: Seq<char>| doc_piece(p)))
            + (if ps.len() > 1 {
            seq!['/']
        } else {
            Seq::<char>::empty()
        }) + doc_piece(ps.last()),
{
    let m = ps.map_values(|p: Seq<char>| doc_piece(p));
    assert(m.drop_last() =~= ps.drop_last().map_values(|p: Seq<char>| doc_piece(p)));
    assert(m.last() == doc_piece(ps.last()));
    if ps.len() == 1 {
        assert(ps.drop_last().map_values(|p: Seq<char>| doc_piece(p)) =~= Seq::<Seq<char>>::empty());
        assert(join_slashes(m) == m[0]);
        assert(m[0] == m.last());
        assert(Seq::<char>::empty() + Seq::<char>::empty() + m.last() =~= m.last());
    }
}

/// Appends the route piece `cs[from..to]` as the documentation writes it.
fn push_doc_piece(out: &mut String, cs: &Vec<char>, from: usize, to: usize)
    requires
        from <= to <= cs@.len(),
    ensures
        final(out)@ == old(out)@ + doc_piece(cs@.subrange(from as int, to as int)),
{
    let ghost piece = cs@.subrange(from as int, to as int);
    if from < to && cs[from] == ':' {
        crate::text::push_char(out, '{');
        push_chars(out, cs, from + 1, to);
        crate::text::push_char(out, '}');
        assert(piece.drop_first() =~= cs@.subrange(from + 1, to as int));
        assert(final(out)@ =~= old(out)@ + doc_piece(piece)) by {
            assert(doc_piece(piece) == seq!['{'] + piece.drop_first() + seq!['}']);
        }
    } else {
        push_chars(out, cs, from, to);
    }
}

/// The route as the documentation names it: the version's path, then the
/// route's pieces between `/` with a parameter `:name` written `{name}`.
#[verifier::rlimit(40)]
pub fn openapi_route(prefix: &str, path: &str) -> (r: String)
    ensures
        r@ == doc_route(prefix@, path@),
{
    let pre = crate::text::chars_of(prefix);
    let cs = crate::text::chars_of(path);
    let mut out = String::new();
    push_chars(&mut out, &pre, 0, pre.len());
    assert(pre@.subrange(0, pre@.len() as int) =~= prefix@);
    let mut start: usize = 0;
    let mut k: usize = 0;
    let mut done: usize = 0;
    assert(cs@.take(0) =~= Seq::<char>::empty());
    assert(cs@.subrange(0, 0) =~= Seq::<char>::empty());
    assert(Seq::<Seq<char>>::empty().map_values(|p: Seq<char>| doc_piece(p)) =~= Seq::<Seq<char>>::empty());
    assert(out@ =~= prefix@ + Seq::<char>::empty() + Seq::<char>::empty());
    while k < cs.len()
        invariant
            0 <= start <= k <= cs.len(),
            done <= k,
            cs@ == path@,
            done as int + 1 == split_slashes(cs@.take(k as int)).len(),
            split_slashes(cs@.take(k as int)).last() == cs@.subrange(start as int, k as int),
            out@ == prefix@ + join_slashes(split_slashes(cs@.take(k as int)).drop_last().map_values(|p: Seq<char>| doc_piece(p)))
                + (if done > 0 {
                seq!['/']
            } else {
                Seq::<char>::empty()
            }),
        decreases cs.len() - k,
    {
        let ghost before = split_slashes(cs@.take(k as int));
        let ghost t = cs@.take(k + 1);
        assert(t.drop_last() =~= cs@.take(k as int));
        assert(t.last() == cs@[k as int]);
        if cs[k] == '/' {
            push_doc_piece(&mut out, &cs, start, k);
            crate::text::push_char(&mut out, '/');
            proof {
                let after = split_slashes(t);
                assert(after == before.push(Seq::<char>::empty()));
                assert(after.drop_last() =~= before);
                lemma_join_map_last(before);
                assert(cs@.subrange(k + 1, k + 1) =~= Seq::<char>::empty());
            }
            done = done + 1;
            start = k + 1;
        } else {
            proof {
                let after = split_slashes(t);
                assert(after == before.update(before.len() - 1, before.last().push(cs@[k as int])));
                assert(after.drop_last() =~= before.drop_last());
                assert(cs@.subrange(start as int, k + 1) =~= cs@.subrange(start as int, k as int).push(cs@[k as int]));
            }
        }
        k = k + 1;
    }
    push_doc_piece(&mut out, &cs, start, cs.len());
    proof {
        assert(cs@.take(cs.len() as int) =~= path@);
        lemma_join_map_last(split_slashes(path@));
    }
    out
}

/// The name of a handler from the name of its type: the text after the
/// last `:`; none where the name has no `:`.
pub fn handler_name(handler_type: &str) -> (r: Result<String, RouteError>)
    ensures
        match crate::models::shared::last_colon(handler_type@) {
            None => r == Err::<String, RouteError>(RouteError::InvalidHandler),
            Some(i) => r matches Ok(n) && n@ == handler_type@.subrange(i + 1, handler_type@.len() as int),
        },
{
    let cs = crate::text::chars_of(handler_type);
    let mut i: usize = cs.len();
    let mut found = false;
    assert(cs@.take(cs.len() as int) =~= cs@);
    while i > 0 && !found
        invariant
            i <= cs.len(),
            cs@ == handler_type@,
            !found ==> crate::models::shared::last_colon(handler_type@) == crate::models::shared::last_colon(cs@.take(i as int)),
            found ==> i > 0 && crate::models::shared::last_colon(handler_type@) == Some((i - 1) as int),
        decreases i, (if found { 0int } else { 1int }),
    {
        assert(cs@.take(i as int).drop_last() =~= cs@.take(i - 1));
        assert(cs@.take(i as int).last() == cs@[i - 1]);
        if cs[i - 1] == ':' {
            found = true;
        } else {
            i = i - 1;
        }
    }
    if !found {
        assert(cs@.take(0) =~= Seq::<char>::empty());
        return Err(RouteError::InvalidHandler);
    }
    let mut name = String::new();
    push_chars(&mut name, &cs, i, cs.len());
    assert(Seq::<char>::empty() + cs@.subrange(i as int, cs.len() as int) =~= handler_type@.subrange(i as int, handler_type@.len() as int));
    Ok(name)
}

/// What the documentation holds for a route and a method.
#[derive(Debug, Clone, PartialEq, Eq)]
pub enum DocLookup {
    /// The documentation has no such route.
    NoRoute,
    /// The route has no operation for the method.
    NoMethod,
    /// The operation, with its id if it has one.
    Operation(Option<String>),
}

/// Whether a route matches the documentation: the route and its method must
/// be documented, the operation must have an id, and the id must be the
/// handler's name.
pub fn check_api(doc: DocLookup, handler_type: &str) -> (r: Result<(), RouteError>)
    ensures
        match doc {
            DocLookup::NoRoute => r == Err::<(), RouteError>(RouteError::NoRoute),
            DocLookup::NoMethod => r == Err::<(), RouteError>(RouteError::NoMethod),
            DocLookup::Operation(None) => r == Err::<(), RouteError>(RouteError::NoOperation),
            DocLookup::Operation(Some(id)) => match crate::models::shared::last_colon(handler_type@) {
                None => r == Err::<(), RouteError>(RouteError::InvalidHandler),
                Some(i) => if id@ == handler_type@.subrange(i + 1, handler_type@.len() as int) {
                    r is Ok
                } else {
                    r == Err::<(), RouteError>(RouteError::NoMatch)
                },
            },
        },
{
    let operation_id = match doc {
        DocLookup::NoRoute => return Err(RouteError::NoRoute),
        DocLookup::NoMethod => return Err(RouteError::NoMethod),
        DocLookup::Operation(None) => return Err(RouteError::NoOperation),
        DocLookup::Operation(Some(id)) => id,
    };
    let name = match handler_name(handler_type) {
        Ok(n) => n,
        Err(e) => return Err(e),
    };
    if crate::form::text_eq(operation_id.as_str(), name.as_str()) {
        Ok(())
    } else {
        Err(RouteError::NoMatch)
    }
}

/// An operation of the documentation: its method, with its id if it has one.
pub struct DocOperation {
    pub method: PathItemType,
    pub operation_id: Option<String>,
}

/// A documented route, with its operations.
pub struct DocPath {
    pub route: String,
    pub operations: Vec<DocOperation>,
}

/// The documentation of an API: its routes, with their operations.
pub struct OpenApiDoc {
    pub paths: Vec<DocPath>,
}

/// The operations of a route as values: each method with its id, if any.
pub type DocOperations = Seq<(PathItemType, Option<Seq<char>>)>;

/// The routes of a documentation as values, each with its operations.
pub type DocRoutes = Seq<(Seq<char>, DocOperations)>;

/// An operation as a value.
pub open spec fn operation_view(o: DocOperation) -> (PathItemType, Option<Seq<char>>) {
    (o.method, match o.operation_id {
        Some(id) => Some(id@),
        None => None,
    })
}

/// A documented route as a value.
pub open spec fn doc_path_view(p: DocPath) -> (Seq<char>, DocOperations) {
    (p.route@, p.operations@.map_values(|o: DocOperation| operation_view(o)))
}

impl View for OpenApiDoc {
    type V = DocRoutes;

    open spec fn view(&self) -> DocRoutes {
        self.paths@.map_values(|p: DocPath| doc_path_view(p))
    }
}

/// The id of the first operation with the method, if it has one; `NoMethod`
/// where no operation has the method.
pub open spec fn lookup_operation(ops: DocOperations, method: PathItemType) -> Result<Option<Seq<char>>, RouteError>
    decreases ops.len(),
{
    if ops.len() == 0 {
        Err(RouteError::NoMethod)
    } else if ops[0].0 == method {
        Ok(ops[0].1)
    } else {
        lookup_operation(ops.drop_first(), method)
    }
}

/// The id of the operation that the documentation gives for a route and a
/// method, if it has one: from the first documented route of that text;
/// `NoRoute` where the route is not documented, `NoMethod` where the route has
/// no operation with the method.
pub open spec fn lookup_route(doc: DocRoutes, route: Seq<char>, method: PathItemType) -> Result<Option<Seq<char>>, RouteError>
    decreases doc.len(),
{
    if doc.len() == 0 {
        Err(RouteError::NoRoute)
    } else if doc[0].0 == route {
        lookup_operation(doc[0].1, method)
    } else {
        lookup_route(doc.drop_first(), route, method)
    }
}

/// A lookup of an operation fails only for want of the method.
proof fn lemma_lookup_operation_errors(ops: DocOperations, method: PathItemType)
    ensures
        lookup_operation(ops, method) is Err ==> lookup_operation(ops, method) == Err::<Option<Seq<char>>, RouteError>(RouteError::NoMethod),
    decreases ops.len(),
{
    if ops.len() > 0 && ops[0].0 != method {
        lemma_lookup_operation_errors(ops.drop_first(), method);
    }
}

/// A lookup of a route fails only for want of the route or of the method.
proof fn lemma_lookup_route_errors(doc: DocRoutes, route: Seq<char>, method: PathItemType)
    ensures
        lookup_route(doc, route, method) is Err ==> (lookup_route(doc, route, method) == Err::<Option<Seq<char>>, RouteError>(RouteError::NoRoute)
            || lookup_route(doc, route, method) == Err::<Option<Seq<char>>, RouteError>(RouteError::NoMethod)),
    decreases doc.len(),
{
    if doc.len() > 0 {
        if doc[0].0 == route {
            lemma_lookup_operation_errors(doc[0].1, method);
        } else {
            lemma_lookup_route_errors(doc.drop_first(), route, method);
        }
    }
}

/// What the documentation holds for a route and a method, as a lookup.
pub open spec fn lookup_matches(found: Result<Option<Seq<char>>, RouteError>, r: DocLookup) -> bool {
    match found {
        Ok(None) => r == DocLookup::Operation(None),
        Ok(Some(id)) => r matches DocLookup::Operation(Some(s)) && s@ == id,
        Err(RouteError::NoRoute) => r == DocLookup::NoRoute,
        Err(_) => r == DocLookup::NoMethod,
    }
}

/// The operation of a list for a method.
fn lookup_in(ops: &Vec<DocOperation>, method: PathItemType) -> (r: DocLookup)
    ensures
        lookup_matches(lookup_operation(ops@.map_values(|o: DocOperation| operation_view(o)), method), r),
{
    let ghost all = ops@.map_values(|o: DocOperation| operation_view(o));
    assert(all.skip(0) =~= all);
    let mut i: usize = 0;
    while i < ops.len()
        invariant
            0 <= i <= ops.len(),
            all == ops@.map_values(|o: DocOperation| operation_view(o)),
            lookup_operation(all, method) == lookup_operation(all.skip(i as int), method),
        decreases ops.len() - i,
    {
        proof {
            assert(all.skip(i as int).drop_first() =~= all.skip(i + 1));
            assert(all.skip(i as int)[0] == operation_view(ops@[i as int]));
        }
        if ops[i].method == method {
            return match &ops[i].operation_id {
                Some(id) => DocLookup::Operation(Some(id.clone())),
                None => DocLookup::Operation(None),
            };
        }
        i = i + 1;
    }
    proof {
        assert(all.skip(i as int).len() == 0);
    }
    DocLookup::NoMethod
}

impl OpenApiDoc {
    /// What the documentation holds for a route and a method.
    pub fn lookup(&self, route: &str, method: PathItemType) -> (r: DocLookup)
        ensures
            lookup_matches(lookup_route(self@, route@, method), r),
    {
        let ghost all = self@;
        assert(all.skip(0) =~= all);
        let mut i: usize = 0;
        while i < self.paths.len()
            invariant
                0 <= i <= self.paths.len(),
                all == self@,
                lookup_route(all, route@, method) == lookup_route(all.skip(i as int), route@, method),
            decreases self.paths.len() - i,
        {
            proof {
                assert(all.skip(i as int).drop_first() =~= all.skip(i + 1));
                assert(all.skip(i as int)[0] == doc_path_view(self.paths@[i as int]));
            }
            if crate::form::text_eq(self.paths[i].route.as_str(), route) {
                return lookup_in(&self.paths[i].operations, method);
            }
            i = i + 1;
        }
        proof {
            assert(all.skip(i as int).len() == 0);
        }
        DocLookup::NoRoute
    }
}

/// Whether a route may be added, and what methods it then answers: the method
/// must have a name in the documentation, the route (under the version's path,
/// with `:name` pieces written `{name}`) must be documented with an operation
/// for the method, the operation's id must be the handler's name, and a route
/// must be possible for the method.
pub open spec fn route_check(prefix: Seq<char>, path: Seq<char>, method: Method, doc: DocRoutes, handler_type: Seq<char>) -> Result<MethodFilter, RouteError> {
    match path_item_of(method) {
        Err(e) => Err(e),
        Ok(item) => match lookup_route(doc, doc_route(prefix, path), item) {
            Err(e) => Err(e),
            Ok(None) => Err(RouteError::NoOperation),
            Ok(Some(id)) => match crate::models::shared::last_colon(handler_type) {
                None => Err(RouteError::InvalidHandler),
                Some(i) => if id == handler_type.subrange(i + 1, handler_type.len() as int) {
                    method_filter_of(method)
                } else {
                    Err(RouteError::NoMatch)
                },
            },
        },
    }
}

/// Checks a route against the documentation, and gives the methods that it
/// answers.
pub fn check_route(prefix: &str, path: &str, method: &Method, doc: &OpenApiDoc, handler_type: &str) -> (r: Result<MethodFilter, RouteError>)
    ensures
        r == route_check(prefix@, path@, *method, doc@, handler_type@),
{
    let item = match try_convert_path_item_type_from_method(method) {
        Ok(item) => item,
        Err(e) => return Err(e),
    };
    let route = openapi_route(prefix, path);
    let found = doc.lookup(route.as_str(), item);
    proof {
        lemma_lookup_route_errors(doc@, doc_route(prefix@, path@), item);
    }
    match check_api(found, handler_type) {
        Ok(()) => try_convert_method_filter_from_method(method),
        Err(e) => Err(e),
    }
}

/// A documentation of the API's routes.
pub trait OpenApi {
    /// The documented routes, as values.
    spec fn documented() -> DocRoutes;

    /// The documentation.
    fn openapi() -> (r: OpenApiDoc)
        ensures
            r@ == Self::documented(),
    ;
}

/// A route documented with one operation.
fn documented_route(route: &str, method: PathItemType, operation_id: &str) -> (r: DocPath)
    ensures
        doc_path_view(r) == (route@, seq![(method, Some(operation_id@))]),
{
    let operations = vec![DocOperation { method, operation_id: Some(String::from_str(operation_id)) }];
    let r = DocPath { route: String::from_str(route), operations };
    assert(r.operations@.map_values(|o: DocOperation| operation_view(o)) =~= seq![(method, Some(operation_id@))]);
    r
}

impl OpenApi for TestDoc {
    open spec fn documented() -> DocRoutes {
        seq![
            ("/test"@, seq![(PathItemType::Get, Some("test_route"@))]),
            ("/context/"@, seq![(PathItemType::Get, Some("test_root_route"@))]),
            ("/connect"@, seq![(PathItemType::Connect, Some("connect_route"@))]),
            ("/test_post"@, seq![(PathItemType::Post, Some("test_post_route"@))]),
        ]
    }

    fn openapi() -> (r: OpenApiDoc) {
        let r = OpenApiDoc {
            paths: vec![
                documented_route("/test", PathItemType::Get, "test_route"),
                documented_route("/context/", PathItemType::Get, "test_root_route"),
                documented_route("/connect", PathItemType::Connect, "connect_route"),
                documented_route("/test_post", PathItemType::Post, "test_post_route"),
            ],
        };
        assert(r@ =~= Self::documented());
        r
    }
}

impl OpenApi for ApiDoc {
    open spec fn documented() -> DocRoutes {
        seq![
            ("/api/v1/root"@, seq![(PathItemType::Get, Some("root"@))]),
            ("/api/v1/login"@, seq![(PathItemType::Post, Some("login"@))]),
            ("/api/v1/logout"@, seq![(PathItemType::Post, Some("logout"@))]),
            ("/api/v1/disks/count"@, seq![(PathItemType::Get, Some("get_disks_count"@))]),
            ("/api/v1/nodes/count"@, seq![(PathItemType::Get, Some("get_nodes_count"@))]),
            ("/api/v1/nodes/rps"@, seq![(PathItemType::Get, Some("get_rps"@))]),
            ("/api/v1/nodes/space"@, seq![(PathItemType::Get, Some("get_space"@))]),
        ]
    }

    fn openapi() -> (r: OpenApiDoc) {
        let r = OpenApiDoc {
            paths: vec![
                documented_route("/api/v1/root", PathItemType::Get, "root"),
                documented_route("/api/v1/login", PathItemType::Post, "login"),
                documented_route("/api/v1/logout", PathItemType::Post, "logout"),
                documented_route("/api/v1/disks/count", PathItemType::Get, "get_disks_count"),
                documented_route("/api/v1/nodes/count", PathItemType::Get, "get_nodes_count"),
                documented_route("/api/v1/nodes/rps", PathItemType::Get, "get_rps"),
                documented_route("/api/v1/nodes/space", PathItemType::Get, "get_space"),
            ],
        };
        assert(r@ =~= Self::documented());
        r
    }
}

/// A route that a router answers: its path, and the methods it answers there.
pub struct Route {
    pub path: String,
    pub filter: MethodFilter,
}

/// A route as a value.
pub open spec fn route_view(r: Route) -> (Seq<char>, MethodFilter) {
    (r.path@, r.filter)
}

/// The routes of a server, in the order in which they were added.
pub struct Router {
    routes: Vec<Route>,
}

impl View for Router {
    type V = Seq<(Seq<char>, MethodFilter)>;

    closed spec fn view(&self) -> Seq<(Seq<char>, MethodFilter)> {
        self.routes@.map_values(|r: Route| route_view(r))
    }
}

impl Router {
    /// A router without routes.
    pub fn new() -> (r: Self)
        ensures
            r@ == Seq::<(Seq<char>, MethodFilter)>::empty(),
    {
        let r = Router { routes: Vec::new() };
        assert(r@ =~= Seq::<(Seq<char>, MethodFilter)>::empty());
        r
    }

    /// Adds a route, unchecked.
    pub fn route(self, path: &str, filter: MethodFilter) -> (r: Self)
        ensures
            r@ == self@.push((path@, filter)),
    {
        let mut routes = self.routes;
        routes.push(Route { path: String::from_str(path), filter });
        let r = Router { routes };
        assert(r@ =~= self@.push((path@, filter)));
        r
    }

    /// The routes, in the order in which they were added.
    pub fn routes(&self) -> (r: &Vec<Route>)
        ensures
            r@.map_values(|x: Route| route_view(x)) == self@,
    {
        &self.routes
    }

    /// Adds routes under a version of the API and a documentation from here on.
    pub fn with_context<V: ApiVersion, D: OpenApi>(self) -> (r: ContextRouter<V, D>)
        ensures
            r@ == self@,
    {
        ContextRouter { inner: self, version: PhantomData, doc: PhantomData }
    }

    /// Adds a route for a method and a handler, by the name of the handler's
    /// type, where the documentation of the version has it.
    pub fn api_route<V: ApiVersion, D: OpenApi>(self, path: &str, method: &Method, handler_type: &str) -> (r: Result<Router, RouteError>)
        ensures
            match route_check(V::version_path(), path@, *method, D::documented(), handler_type@) {
                Ok(f) => r matches Ok(t) && t@ == self@.push((path@, f)),
                Err(e) => r matches Err(x) && x == e,
            },
    {
        let doc = D::openapi();
        match check_route(V::to_path(), path, method, &doc, handler_type) {
            Ok(filter) => Ok(self.route(path, filter)),
            Err(e) => Err(e),
        }
    }
}

/// A router that adds routes under one version of the API and one
/// documentation.
pub struct ContextRouter<V, D> {
    inner: Router,
    version: PhantomData<V>,
    doc: PhantomData<D>,
}

impl<V, D> View for ContextRouter<V, D> {
    type V = Seq<(Seq<char>, MethodFilter)>;

    closed spec fn view(&self) -> Seq<(Seq<char>, MethodFilter)> {
        self.inner@
    }
}

impl<V: ApiVersion, D: OpenApi> ContextRouter<V, D> {
    /// The router, with no version or documentation.
    pub fn no_context(self) -> (r: Router)
        ensures
            r@ == self@,
    {
        self.inner
    }

    /// Adds routes under another version and documentation from here on.
    pub fn new_context<V2: ApiVersion, D2: OpenApi>(self) -> (r: ContextRouter<V2, D2>)
        ensures
            r@ == self@,
    {
        ContextRouter { inner: self.inner, version: PhantomData, doc: PhantomData }
    }

    /// Adds a route for a method and a handler, by the name of the handler's
    /// type, where the documentation has it under the version.
    pub fn api_route(self, path: &str, method: &Method, handler_type: &str) -> (r: Result<Self, RouteError>)
        ensures
            match route_check(V::version_path(), path@, *method, D::documented(), handler_type@) {
                Ok(f) => r matches Ok(t) && t@ == self@.push((path@, f)),
                Err(e) => r matches Err(x) && x == e,
            },
    {
        match self.inner.api_route::<V, D>(path, method, handler_type) {
            Ok(inner) => Ok(ContextRouter { inner, version: PhantomData, doc: PhantomData }),
            Err(e) => Err(e),
        }
    }
}

} // verus!
