//! Route table, path matching and the continuation-passing middleware
//! dispatcher.
//!
//! A route's handler list is middleware followed by exactly one terminal
//! controller. Dispatch reverses the list once into a stack and pops from
//! the tail, restoring registration order; a middleware may re-enter the
//! dispatcher with the remaining stack (its continuation) or answer on its
//! own, short-circuiting everything after it. An exhausted stack yields a
//! fixed 500 response, the sign of a malformed route definition.

use vstd::prelude::*;
use vstd::string::*;

use crate::http::{map_set, spec_map_get, spec_map_set, Request, Response};
use crate::parser::{spec_segments, split_path_segments};

verus! {

/// A middleware handler: runs before the rest of its chain.
pub enum MiddlewareKind {
    /// Invokes its continuation, then binds the given response header.
    AddResponseHeader(String, String),
    /// Never invokes its continuation: answers with its own plain-text
    /// response of the given status and body.
    ShortCircuit(u16, String),
}

/// A terminal (controller) handler.
pub enum ControllerKind {
    /// A fixed response: status, content type, body.
    Fixed(u16, String, String),
    /// A 200 plain-text response whose body is the bound route parameter
    /// of the given name (empty when unbound).
    EchoParam(String),
    /// A collaborator-supplied controller, called back through
    /// [`ControllerHook`] under this tag.
    Extern(u32),
}

/// One entry of a route's handler list.
pub enum HandlerKind {
    Middleware(MiddlewareKind),
    Controller(ControllerKind),
}

impl Clone for MiddlewareKind {
    fn clone(&self) -> (r: Self)
        ensures
            r == *self,
    {
        match self {
            MiddlewareKind::AddResponseHeader(k, v) => MiddlewareKind::AddResponseHeader(
                k.clone(),
                v.clone(),
            ),
            MiddlewareKind::ShortCircuit(c, b) => MiddlewareKind::ShortCircuit(*c, b.clone()),
        }
    }
}

impl Clone for ControllerKind {
    fn clone(&self) -> (r: Self)
        ensures
            r == *self,
    {
        match self {
            ControllerKind::Fixed(c, ct, b) => ControllerKind::Fixed(*c, ct.clone(), b.clone()),
            ControllerKind::EchoParam(n) => ControllerKind::EchoParam(n.clone()),
            ControllerKind::Extern(t) => ControllerKind::Extern(*t),
        }
    }
}

impl Clone for HandlerKind {
    fn clone(&self) -> (r: Self)
        ensures
            r == *self,
    {
        match self {
            HandlerKind::Middleware(m) => HandlerKind::Middleware(m.clone()),
            HandlerKind::Controller(c) => HandlerKind::Controller(c.clone()),
        }
    }
}

/// The parameters bound by a matched route pattern: a mapping from
/// parameter name to the raw request segment, immutable after matching.
pub struct RouteParams {
    params: Vec<(String, String)>,
}

impl View for RouteParams {
    type V = Seq<(Seq<char>, Seq<char>)>;

    closed spec fn view(&self) -> Seq<(Seq<char>, Seq<char>)> {
        self.params.deep_view()
    }
}

impl RouteParams {
    /// The value bound under `key`, if any.
    pub fn get<'a>(&'a self, key: &str) -> (r: Option<&'a str>)
        ensures
            match r {
                Some(v) => spec_map_get(self@, key@) == Some(v@),
                None => spec_map_get(self@, key@) is None,
            },
    {
        match crate::http::map_get(&self.params, key) {
            Some(v) => Some(v.as_str()),
            None => None,
        }
    }
}

/// One registered route: a method literal, a path pattern (literal
/// segments and `:name` parameter segments) and its handler list.
pub struct Route {
    pub method: String,
    pub path: Vec<String>,
    pub handlers: Vec<HandlerKind>,
}

impl Route {
    pub fn new(method: String, path: Vec<String>, handlers: Vec<HandlerKind>) -> (r: Self)
        ensures
            r.method == method,
            r.path == path,
            r.handlers == handlers,
    {
        Route { method, path, handlers }
    }
}

/// The capability contract for collaborator-supplied controllers: a route
/// table names them by tag, the dispatcher calls back through this trait.
/// Nothing is assumed about what an implementation returns or changes.
pub trait ControllerHook {
    fn call(&mut self, tag: u32, request: &mut Request, params: &RouteParams) -> Response;
}

/// The hook of a route table that uses no collaborator controllers: every
/// tag answers with the fixed 500 chain-exhaustion response.
pub struct NoControllers;

impl ControllerHook for NoControllers {
    fn call(&mut self, _tag: u32, _request: &mut Request, _params: &RouteParams) -> (r: Response) {
        chain_exhausted()
    }
}

/// A pattern segment that binds a parameter: it starts with `:`.
pub open spec fn seg_is_param(p: Seq<char>) -> bool {
    p.len() > 0 && p[0] == ':'
}

/// One pattern segment against one request segment: a parameter segment
/// matches anything, a literal only itself.
pub open spec fn seg_matches(p: Seq<char>, s: Seq<char>) -> bool {
    seg_is_param(p) || p == s
}

/// A pattern matches a path exactly when the segment counts are equal and
/// every position matches.
pub open spec fn pattern_matches(pat: Seq<Seq<char>>, segs: Seq<Seq<char>>) -> bool {
    pat.len() == segs.len() && (forall|i: int| 0 <= i < pat.len() ==> seg_matches(pat[i], segs[i]))
}

/// The parameter bindings after the first `i` positions: each parameter
/// segment binds the request segment under its name (marker stripped),
/// later bindings of the same name overwriting earlier ones.
pub open spec fn bound_pairs_upto(pat: Seq<Seq<char>>, segs: Seq<Seq<char>>, i: int) -> Seq<
    (Seq<char>, Seq<char>),
>
    decreases i,
{
    if i <= 0 {
        Seq::empty()
    } else {
        let prev = bound_pairs_upto(pat, segs, i - 1);
        if seg_is_param(pat[i - 1]) {
            spec_map_set(prev, pat[i - 1].skip(1), segs[i - 1])
        } else {
            prev
        }
    }
}

pub open spec fn bound_pairs(pat: Seq<Seq<char>>, segs: Seq<Seq<char>>) -> Seq<
    (Seq<char>, Seq<char>),
> {
    bound_pairs_upto(pat, segs, pat.len() as int)
}

/// A request path whose segment count differs from a route pattern's
/// segment count never matches that route.
pub proof fn lemma_segment_count_mismatch(pat: Seq<Seq<char>>, segs: Seq<Seq<char>>)
    requires
        pat.len() != segs.len(),
    ensures
        !pattern_matches(pat, segs),
{
}

/// Matches a route pattern against the request's path segments, binding
/// the pattern's parameters on success.
pub fn path_match_params(pattern: &Vec<String>, segments: &Vec<String>) -> (r: Option<RouteParams>)
    ensures
        r is Some <==> pattern_matches(pattern.deep_view(), segments.deep_view()),
        r is Some ==> r.unwrap()@ == bound_pairs(pattern.deep_view(), segments.deep_view()),
{
    if pattern.len() != segments.len() {
        return None;
    }
    let ghost pat = pattern.deep_view();
    let ghost segs = segments.deep_view();
    let mut params: Vec<(String, String)> = Vec::new();
    assert(params.deep_view() =~= bound_pairs_upto(pat, segs, 0));
    let mut i: usize = 0;
    while i < pattern.len()
        invariant
            i <= pattern.len(),
            pattern.len() == segments.len(),
            pat == pattern.deep_view(),
            segs == segments.deep_view(),
            pat.len() == pattern.len(),
            segs.len() == segments.len(),
            forall|j: int| 0 <= j < i ==> seg_matches(pat[j], segs[j]),
            params.deep_view() == bound_pairs_upto(pat, segs, i as int),
        decreases pattern.len() - i,
    {
        let p = &pattern[i];
        let l = p.as_str().unicode_len();
        if l > 0 && p.as_str().get_char(0) == ':' {
            let name = p.as_str().substring_char(1, l);
            map_set(&mut params, String::from_str(name), segments[i].clone());
            assert(name@ =~= pat[i as int].skip(1));
        } else {
            if !(pattern[i] == segments[i]) {
                assert(!seg_matches(pat[i as int], segs[i as int]));
                return None;
            }
        }
        i = i + 1;
    }
    Some(RouteParams { params })
}

/// `r` is a plain-text response with the given status and body and no
/// other headers.
pub open spec fn is_plain_response(r: Response, status: u16, body: Seq<char>) -> bool {
    &&& r.status_code == status
    &&& r.headers.deep_view() == seq![("Content-Type"@, "text/plain"@)]
    &&& r.body@ == body
}

pub fn plain_response(status: u16, body: String) -> (r: Response)
    ensures
        is_plain_response(r, status, body@),
{
    let mut headers: Vec<(String, String)> = Vec::new();
    headers.push((String::from_str("Content-Type"), String::from_str("text/plain")));
    proof {
        assert(headers.deep_view() =~= seq![("Content-Type"@, "text/plain"@)]);
    }
    Response { status_code: status, headers, body }
}

/// The response for a path match without a method match.
pub fn method_not_allowed() -> (r: Response)
    ensures
        is_plain_response(r, 405, "Method Not Allowed"@),
{
    plain_response(405, String::from_str("Method Not Allowed"))
}

fn not_found() -> (r: Response)
    ensures
        is_plain_response(r, 404, "Not Found"@),
{
    plain_response(404, String::from_str("Not Found"))
}

fn chain_exhausted() -> (r: Response)
    ensures
        is_plain_response(r, 500, "Middleware chain ended without controller"@),
{
    plain_response(500, String::from_str("Middleware chain ended without controller"))
}

/// The bound value of `name`, or empty text when unbound.
pub open spec fn spec_param_or_empty(params: Seq<(Seq<char>, Seq<char>)>, name: Seq<char>) -> Seq<
    char,
> {
    match spec_map_get(params, name) {
        Some(v) => v,
        None => Seq::empty(),
    }
}

/// A handler that dispatches outside the closed handler set.
pub open spec fn handler_is_extern(h: HandlerKind) -> bool {
    h matches HandlerKind::Controller(ControllerKind::Extern(_))
}

pub open spec fn no_extern(stack: Seq<HandlerKind>) -> bool {
    forall|i: int| 0 <= i < stack.len() ==> !handler_is_extern(#[trigger] stack[i])
}

/// The continuation step of a header-adding middleware: some response of
/// the remaining stack, unchanged but for the added header binding.
pub open spec fn add_header_step(
    rest: Seq<HandlerKind>,
    params: Seq<(Seq<char>, Seq<char>)>,
    r: Response,
    k: Seq<char>,
    v: Seq<char>,
) -> bool
    decreases rest.len(), 1int,
{
    exists|r0: Response|
        #![trigger r0.headers.deep_view()]
        {
            &&& dispatch_rel(rest, params, r0)
            &&& r.status_code == r0.status_code
            &&& r.body@ == r0.body@
            &&& r.headers.deep_view() == spec_map_set(r0.headers.deep_view(), k, v)
        }
}

/// What dispatching the handler stack can return. The stack is in
/// execution-stack order: the handler at the tail runs first. A
/// collaborator controller constrains nothing; every other handler pins
/// the response down exactly.
pub open spec fn dispatch_rel(
    stack: Seq<HandlerKind>,
    params: Seq<(Seq<char>, Seq<char>)>,
    r: Response,
) -> bool
    decreases stack.len(), 0int,
{
    if stack.len() == 0 {
        is_plain_response(r, 500, "Middleware chain ended without controller"@)
    } else {
        match stack.last() {
            HandlerKind::Middleware(MiddlewareKind::ShortCircuit(c, b)) => is_plain_response(
                r,
                c,
                b@,
            ),
            HandlerKind::Middleware(MiddlewareKind::AddResponseHeader(k, v)) => add_header_step(
                stack.drop_last(),
                params,
                r,
                k@,
                v@,
            ),
            HandlerKind::Controller(ControllerKind::Fixed(c, ct, b)) => {
                &&& r.status_code == c
                &&& r.headers.deep_view() == seq![("Content-Type"@, ct@)]
                &&& r.body@ == b@
            },
            HandlerKind::Controller(ControllerKind::EchoParam(name)) => is_plain_response(
                r,
                200,
                spec_param_or_empty(params, name@),
            ),
            HandlerKind::Controller(ControllerKind::Extern(_)) => true,
        }
    }
}

/// A middleware that never invokes its continuation prevents everything
/// after it from running: whatever handlers remain on the stack, the
/// dispatched response is exactly that middleware's own.
pub proof fn lemma_short_circuit(
    stack: Seq<HandlerKind>,
    params: Seq<(Seq<char>, Seq<char>)>,
    r: Response,
    status: u16,
    body: String,
)
    requires
        stack.len() > 0,
        stack.last() == HandlerKind::Middleware(MiddlewareKind::ShortCircuit(status, body)),
        dispatch_rel(stack, params, r),
    ensures
        is_plain_response(r, status, body@),
{
}

proof fn lemma_dispatch_add_header(
    stack: Seq<HandlerKind>,
    params: Seq<(Seq<char>, Seq<char>)>,
    r0: Response,
    r: Response,
    k: String,
    v: String,
)
    requires
        stack.len() > 0,
        stack.last() == HandlerKind::Middleware(MiddlewareKind::AddResponseHeader(k, v)),
        dispatch_rel(stack.drop_last(), params, r0),
        r.status_code == r0.status_code,
        r.body@ == r0.body@,
        r.headers.deep_view() == spec_map_set(r0.headers.deep_view(), k@, v@),
    ensures
        dispatch_rel(stack, params, r),
{
    assert(add_header_step(stack.drop_last(), params, r, k@, v@));
}

/// Pops and runs the next handler of the stack. A middleware receives the
/// remaining stack as its continuation; the exhausted stack yields the
/// fixed 500 response.
pub fn next_handler<H: ControllerHook>(
    hook: &mut H,
    request: &mut Request,
    params: &RouteParams,
    handlers: &mut Vec<HandlerKind>,
) -> (r: Response)
    ensures
        dispatch_rel(old(handlers)@, params@, r),
        no_extern(old(handlers)@) ==> *final(request) == *old(request),
    decreases handlers.len(),
{
    let popped = handlers.pop();
    match popped {
        Some(h) => {
            assert(h == old(handlers)@.last());
            assert(handlers@ == old(handlers)@.drop_last());
            match h {
                HandlerKind::Middleware(MiddlewareKind::AddResponseHeader(k, v)) => {
                    let ghost k0 = k@;
                    let ghost v0 = v@;
                    let ghost k0_str = k;
                    let ghost v0_str = v;
                    let mut r = next_handler(hook, request, params, handlers);
                    let ghost r0 = r;
                    map_set(&mut r.headers, k, v);
                    proof {
                        assert(r.status_code == r0.status_code && r.body@ == r0.body@);
                        assert(dispatch_rel(old(handlers)@.drop_last(), params@, r0));
                        assert(r.headers.deep_view() == spec_map_set(
                            r0.headers.deep_view(),
                            k0,
                            v0,
                        ));
                        lemma_dispatch_add_header(
                            old(handlers)@,
                            params@,
                            r0,
                            r,
                            k0_str,
                            v0_str,
                        );
                    }
                    r
                },
                HandlerKind::Middleware(MiddlewareKind::ShortCircuit(c, b)) => {
                    let r = plain_response(c, b);
                    assert(dispatch_rel(old(handlers)@, params@, r));
                    r
                },
                HandlerKind::Controller(ControllerKind::Fixed(c, ct, b)) => {
                    let mut headers: Vec<(String, String)> = Vec::new();
                    headers.push((String::from_str("Content-Type"), ct));
                    proof {
                        assert(headers.deep_view() =~= seq![("Content-Type"@, ct@)]);
                    }
                    let r = Response { status_code: c, headers, body: b };
                    assert(dispatch_rel(old(handlers)@, params@, r));
                    r
                },
                HandlerKind::Controller(ControllerKind::EchoParam(name)) => {
                    let body = match params.get(name.as_str()) {
                        Some(v) => String::from_str(v),
                        None => String::new(),
                    };
                    let r = plain_response(200, body);
                    assert(dispatch_rel(old(handlers)@, params@, r));
                    r
                },
                HandlerKind::Controller(ControllerKind::Extern(tag)) => {
                    assert(!no_extern(old(handlers)@)) by {
                        assert(handler_is_extern(old(handlers)@.last()));
                    }
                    let r = hook.call(tag, request, params);
                    assert(dispatch_rel(old(handlers)@, params@, r));
                    r
                },
            }
        },
        None => chain_exhausted(),
    }
}

/// The reversed copy of a handler list: the execution stack the
/// dispatcher consumes from the tail.
fn reversed_handlers(hs: &Vec<HandlerKind>) -> (r: Vec<HandlerKind>)
    ensures
        r@ == hs@.reverse(),
{
    let mut r: Vec<HandlerKind> = Vec::new();
    let mut j: usize = hs.len();
    while j > 0
        invariant
            j <= hs.len(),
            r@.len() == hs@.len() - j,
            forall|k: int| 0 <= k < r@.len() ==> r@[k] == hs@[hs@.len() - 1 - k],
        decreases j,
    {
        r.push(hs[j - 1].clone());
        j = j - 1;
    }
    proof {
        assert(r@ =~= hs@.reverse());
    }
    r
}

pub open spec fn route_path_matches(rt: Route, segs: Seq<Seq<char>>) -> bool {
    pattern_matches(rt.path.deep_view(), segs)
}

pub open spec fn route_full_matches(rt: Route, m: Seq<char>, segs: Seq<Seq<char>>) -> bool {
    route_path_matches(rt, segs) && rt.method@ == m
}

pub open spec fn has_path_match(rs: Seq<Route>, segs: Seq<Seq<char>>) -> bool {
    exists|i: int| 0 <= i < rs.len() && route_path_matches(#[trigger] rs[i], segs)
}

pub open spec fn has_full_match(rs: Seq<Route>, m: Seq<char>, segs: Seq<Seq<char>>) -> bool {
    exists|i: int| 0 <= i < rs.len() && route_full_matches(#[trigger] rs[i], m, segs)
}

pub open spec fn table_no_extern(rs: Seq<Route>) -> bool {
    forall|i: int| 0 <= i < rs.len() ==> no_extern(#[trigger] rs[i].handlers@)
}

/// Routes a request through the table: the first route whose pattern and
/// method both match is dispatched with its bound parameters; a pattern
/// match without a method match anywhere yields 405; no pattern match at
/// all yields 404. The two failure outcomes are never conflated.
pub fn route<H: ControllerHook>(hook: &mut H, routes: &Vec<Route>, request: &mut Request) -> (r:
    Response)
    ensures
        has_full_match(routes@, old(request).method@, spec_segments(old(request).url@)) ==> exists|
            i: int,
        |
            {
                &&& 0 <= i < routes@.len()
                &&& #[trigger] route_full_matches(
                    routes@[i],
                    old(request).method@,
                    spec_segments(old(request).url@),
                )
                &&& forall|j: int|
                    0 <= j < i ==> !route_full_matches(
                        #[trigger] routes@[j],
                        old(request).method@,
                        spec_segments(old(request).url@),
                    )
                &&& dispatch_rel(
                    routes@[i].handlers@.reverse(),
                    bound_pairs(
                        routes@[i].path.deep_view(),
                        spec_segments(old(request).url@),
                    ),
                    r,
                )
            },
        !has_full_match(routes@, old(request).method@, spec_segments(old(request).url@))
            && has_path_match(routes@, spec_segments(old(request).url@)) ==> is_plain_response(
            r,
            405,
            "Method Not Allowed"@,
        ),
        !has_path_match(routes@, spec_segments(old(request).url@)) ==> is_plain_response(
            r,
            404,
            "Not Found"@,
        ),
        table_no_extern(routes@) ==> *final(request) == *old(request),
{
    let ghost m = old(request).method@;
    let ghost segs_spec = spec_segments(old(request).url@);
    let segments = split_path_segments(request.url.as_str());
    let mut path_matched = false;
    let mut i: usize = 0;
    while i < routes.len()
        invariant
            i <= routes.len(),
            *request == *old(request),
            m == old(request).method@,
            segs_spec == spec_segments(old(request).url@),
            segments.deep_view() == segs_spec,
            forall|j: int| 0 <= j < i ==> !route_full_matches(#[trigger] routes@[j], m, segs_spec),
            path_matched <==> exists|j: int|
                0 <= j < i && route_path_matches(#[trigger] routes@[j], segs_spec),
        decreases routes.len() - i,
    {
        let matched = path_match_params(&routes[i].path, &segments);
        match matched {
            Some(params) => {
                path_matched = true;
                if routes[i].method == request.method {
                    let mut handlers = reversed_handlers(&routes[i].handlers);
                    let ghost wit = i as int;
                    let resp = next_handler(hook, request, &params, &mut handlers);
                    proof {
                        assert(route_full_matches(routes@[wit], m, segs_spec));
                        if table_no_extern(routes@) {
                            assert forall|k: int|
                                0 <= k < routes@[wit].handlers@.reverse().len() implies !handler_is_extern(
                                #[trigger] routes@[wit].handlers@.reverse()[k],
                            ) by {
                                assert(routes@[wit].handlers@.reverse()[k]
                                    == routes@[wit].handlers@[routes@[wit].handlers@.len() - 1
                                    - k]);
                            }
                            assert(no_extern(routes@[wit].handlers@.reverse()));
                        }
                    }
                    return resp;
                }
            },
            None => {},
        }
        i = i + 1;
    }
    if path_matched {
        method_not_allowed()
    } else {
        not_found()
    }
}

/// A request whose path matches some route but whose method is registered
/// on none of them is a method mismatch, never a missing path: together
/// with [`route`]'s contract it gets 405, not 404. Two routes sharing one
/// pattern under different methods and a request in a third method are
/// the typical instance.
pub proof fn lemma_unregistered_method(rs: Seq<Route>, m: Seq<char>, segs: Seq<Seq<char>>)
    requires
        exists|i: int| 0 <= i < rs.len() && route_path_matches(#[trigger] rs[i], segs),
        forall|i: int| 0 <= i < rs.len() ==> (#[trigger] rs[i].method@) != m,
    ensures
        has_path_match(rs, segs),
        !has_full_match(rs, m, segs),
{
}

/// The application's full route table in registration order, ready to be
/// installed once at startup.
pub fn init_routes() -> (r: Vec<Route>)
    ensures
        crate::user::user_routes_wf(r@),
{
    crate::user::UserController::routes()
}

/// The route table: built once at startup, immutable afterwards. A second
/// initialization attempt is a no-op, never an overwrite.
pub struct RouteTable {
    routes: Vec<Route>,
    initialized: bool,
}

impl RouteTable {
    pub closed spec fn is_initialized(&self) -> bool {
        self.initialized
    }

    pub closed spec fn spec_routes(&self) -> Seq<Route> {
        self.routes@
    }

    pub fn new() -> (r: Self)
        ensures
            !r.is_initialized(),
            r.spec_routes().len() == 0,
    {
        RouteTable { routes: Vec::new(), initialized: false }
    }

    /// Installs the table once; a repeated call changes nothing.
    pub fn init(&mut self, routes: Vec<Route>)
        ensures
            old(self).is_initialized() ==> *final(self) == *old(self),
            !old(self).is_initialized() ==> final(self).spec_routes() == routes@
                && final(self).is_initialized(),
    {
        if !self.initialized {
            self.routes = routes;
            self.initialized = true;
        }
    }

    /// The installed routes; empty before initialization.
    pub fn routes(&self) -> (r: &Vec<Route>)
        ensures
            r@ == self.spec_routes(),
    {
        &self.routes
    }
}

} // verus!
