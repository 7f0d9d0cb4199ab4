use httpcore::admission::{service_unavailable_bytes, AdmissionPool};
use httpcore::distributor::RoundRobin;
use httpcore::http::{map_get, Request, Response};
use httpcore::parser::parse_request;
use httpcore::routing::{
    init_routes, method_not_allowed, next_handler, path_match_params, route, ControllerHook,
    ControllerKind, HandlerKind, MiddlewareKind, NoControllers, Route, RouteParams, RouteTable,
};
use httpcore::user::{UserController, USER_CREATE_TAG, USER_GET_ALL_TAG};

struct RecordingHook {
    calls: Vec<u32>,
}

impl ControllerHook for RecordingHook {
    fn call(&mut self, tag: u32, _request: &mut Request, _params: &RouteParams) -> Response {
        self.calls.push(tag);
        Response { status_code: 299, headers: Vec::new(), body: format!("tag:{}", tag) }
    }
}

fn req(raw: &str) -> Request {
    parse_request(raw, None, 0)
}

fn s(v: &str) -> String {
    v.to_string()
}

fn controller_echo(name: &str) -> HandlerKind {
    HandlerKind::Controller(ControllerKind::EchoParam(s(name)))
}

fn controller_fixed(status: u16, ct: &str, body: &str) -> HandlerKind {
    HandlerKind::Controller(ControllerKind::Fixed(status, s(ct), s(body)))
}

#[test]
fn segment_count_mismatch_never_matches() {
    let pattern = vec![s("items"), s(":id")];
    assert!(path_match_params(&pattern, &vec![s("items")]).is_none());
    assert!(path_match_params(&pattern, &vec![s("items"), s("1"), s("2")]).is_none());
    assert!(path_match_params(&pattern, &Vec::new()).is_none());
    assert!(path_match_params(&pattern, &vec![s("items"), s("1")]).is_some());
}

#[test]
fn param_segment_binds_raw_value() {
    let pattern = vec![s("items"), s(":id")];
    let params = path_match_params(&pattern, &vec![s("items"), s("weird%20value")]).unwrap();
    assert_eq!(params.get("id"), Some("weird%20value"));
    assert_eq!(params.get("other"), None);
}

#[test]
fn duplicate_param_names_last_binding_wins() {
    let pattern = vec![s(":a"), s(":a")];
    let params = path_match_params(&pattern, &vec![s("x"), s("y")]).unwrap();
    assert_eq!(params.get("a"), Some("y"));
}

#[test]
fn unregistered_method_on_known_path_yields_405_never_404() {
    let routes = vec![
        Route::new(s("GET"), vec![s("thing")], vec![controller_fixed(200, "text/plain", "g")]),
        Route::new(s("POST"), vec![s("thing")], vec![controller_fixed(200, "text/plain", "p")]),
    ];
    let mut hook = NoControllers;
    let mut request = req("PATCH /thing HTTP/1.1\r\n\r\n");
    let resp = route(&mut hook, &routes, &mut request);
    assert_eq!(resp.status_code, 405);
    assert_eq!(resp.body, "Method Not Allowed");
}

#[test]
fn unmatched_path_yields_404() {
    let routes = vec![
        Route::new(s("GET"), vec![s("thing")], vec![controller_fixed(200, "text/plain", "g")]),
    ];
    let mut hook = NoControllers;
    let mut request = req("GET /nothing HTTP/1.1\r\n\r\n");
    let resp = route(&mut hook, &routes, &mut request);
    assert_eq!(resp.status_code, 404);
    assert_eq!(resp.body, "Not Found");
}

#[test]
fn short_circuit_middleware_prevents_controller() {
    let routes = vec![
        Route::new(
            s("GET"),
            vec![s("guarded")],
            vec![
                HandlerKind::Middleware(MiddlewareKind::ShortCircuit(418, s("stopped here"))),
                controller_echo("id"),
            ],
        ),
    ];
    let mut hook = NoControllers;
    let mut request = req("GET /guarded HTTP/1.1\r\n\r\n");
    let resp = route(&mut hook, &routes, &mut request);
    assert_eq!(resp.status_code, 418);
    assert_eq!(resp.body, "stopped here");
    assert!(map_get(&resp.headers, "X-Seen").is_none());
}

#[test]
fn admission_reject_bytes_are_the_fixed_literal() {
    let bytes = service_unavailable_bytes();
    assert_eq!(
        bytes.as_slice(),
        b"HTTP/1.1 503 Service Unavailable\r\nContent-Length: 0\r\nConnection: close\r\n\r\n"
            as &[u8]
    );
}

#[test]
fn admission_pool_counts_tokens() {
    let mut pool = AdmissionPool::new(2, 3);
    for _ in 0..6 {
        assert!(pool.try_acquire());
    }
    assert!(!pool.try_acquire());
    assert!(!pool.try_acquire());
    pool.release();
    assert!(pool.try_acquire());
    assert!(!pool.try_acquire());
}

#[test]
fn round_robin_kth_connection_goes_to_k_mod_n() {
    let mut rr = RoundRobin::new(3);
    let mut picks: Vec<usize> = Vec::new();
    for _ in 0..8 {
        picks.push(rr.pick());
    }
    assert_eq!(picks, vec![0usize, 1, 2, 0, 1, 2, 0, 1]);
    let mut single = RoundRobin::new(1);
    assert_eq!(single.pick(), 0);
    assert_eq!(single.pick(), 0);
}

#[test]
fn end_to_end_middleware_and_bound_param() {
    let routes = vec![
        Route::new(
            s("GET"),
            vec![s("items"), s(":id")],
            vec![
                HandlerKind::Middleware(MiddlewareKind::AddResponseHeader(s("X-Seen"), s("1"))),
                controller_echo("id"),
            ],
        ),
    ];
    let mut hook = NoControllers;
    let mut request = req("GET /items/42 HTTP/1.1\r\nHost: x\r\n\r\n");
    assert_eq!(request.method, "GET");
    assert_eq!(request.url, "/items/42");
    let resp = route(&mut hook, &routes, &mut request);
    assert_eq!(resp.status_code, 200);
    assert_eq!(map_get(&resp.headers, "X-Seen").map(|v| v.as_str()), Some("1"));
    assert_eq!(resp.body, "42");
}

#[test]
fn empty_start_line_yields_404_with_empty_method_and_path() {
    let routes = vec![
        Route::new(s("GET"), vec![s("items"), s(":id")], vec![controller_echo("id")]),
    ];
    let mut hook = NoControllers;
    let mut request = req("\r\n\r\n");
    assert_eq!(request.method, "");
    assert_eq!(request.url, "");
    let resp = route(&mut hook, &routes, &mut request);
    assert_eq!(resp.status_code, 404);

    let mut empty = req("");
    assert_eq!(empty.method, "");
    assert_eq!(empty.url, "");
    let resp2 = route(&mut hook, &routes, &mut empty);
    assert_eq!(resp2.status_code, 404);
}

#[test]
fn exhausted_chain_yields_fixed_500() {
    let mut hook = NoControllers;
    let mut request = req("GET /x HTTP/1.1\r\n\r\n");
    let params = path_match_params(&vec![s(":p")], &vec![s("x")]).unwrap();
    let mut handlers: Vec<HandlerKind> = Vec::new();
    let resp = next_handler(&mut hook, &mut request, &params, &mut handlers);
    assert_eq!(resp.status_code, 500);
    assert_eq!(resp.body, "Middleware chain ended without controller");
}

#[test]
fn middleware_post_processes_extern_controller() {
    let routes = vec![
        Route::new(
            s("GET"),
            vec![s("ext")],
            vec![
                HandlerKind::Middleware(MiddlewareKind::AddResponseHeader(s("X-Seen"), s("1"))),
                HandlerKind::Controller(ControllerKind::Extern(7)),
            ],
        ),
    ];
    let mut hook = RecordingHook { calls: Vec::new() };
    let mut request = req("GET /ext HTTP/1.1\r\n\r\n");
    let resp = route(&mut hook, &routes, &mut request);
    assert_eq!(hook.calls, vec![7]);
    assert_eq!(resp.status_code, 299);
    assert_eq!(resp.body, "tag:7");
    assert_eq!(map_get(&resp.headers, "X-Seen").map(|v| v.as_str()), Some("1"));
}

#[test]
fn first_matching_route_wins() {
    let routes = vec![
        Route::new(s("GET"), vec![s(":a")], vec![controller_fixed(200, "text/plain", "one")]),
        Route::new(s("GET"), vec![s(":b")], vec![controller_fixed(200, "text/plain", "two")]),
    ];
    let mut hook = NoControllers;
    let mut request = req("GET /anything HTTP/1.1\r\n\r\n");
    let resp = route(&mut hook, &routes, &mut request);
    assert_eq!(resp.body, "one");
}

#[test]
fn route_table_initializes_once() {
    let mut table = RouteTable::new();
    assert_eq!(table.routes().len(), 0);
    table.init(init_routes());
    assert_eq!(table.routes().len(), 5);
    table.init(Vec::new());
    assert_eq!(table.routes().len(), 5);
}

#[test]
fn user_routes_placeholder_endpoints() {
    let routes = UserController::routes();
    assert_eq!(routes.len(), 5);
    let mut hook = RecordingHook { calls: Vec::new() };

    let mut one = req("GET /user/9 HTTP/1.1\r\n\r\n");
    let resp = route(&mut hook, &routes, &mut one);
    assert_eq!(resp.status_code, 200);
    assert_eq!(resp.body, "User");

    let mut listing = req("GET /user HTTP/1.1\r\n\r\n");
    let resp2 = route(&mut hook, &routes, &mut listing);
    assert_eq!(resp2.body, format!("tag:{}", USER_GET_ALL_TAG));

    let mut creation = req("POST /user HTTP/1.1\r\n\r\n");
    let resp3 = route(&mut hook, &routes, &mut creation);
    assert_eq!(resp3.body, format!("tag:{}", USER_CREATE_TAG));

    assert_eq!(hook.calls, vec![USER_GET_ALL_TAG, USER_CREATE_TAG]);
}

#[test]
fn method_not_allowed_response_shape() {
    let resp = method_not_allowed();
    assert_eq!(resp.status_code, 405);
    assert_eq!(resp.body, "Method Not Allowed");
    assert_eq!(map_get(&resp.headers, "Content-Type").map(|v| v.as_str()), Some("text/plain"));
}

#[test]
fn response_serialization_is_exact() {
    let resp = Response {
        status_code: 200,
        headers: vec![(s("Content-Type"), s("text/plain")), (s("X-Seen"), s("1"))],
        body: s("42"),
    };
    let text = String::from_utf8(resp.to_bytes()).unwrap();
    assert_eq!(text, "HTTP/1.1 200 OK\r\nContent-Type: text/plain\r\nX-Seen: 1\r\n\r\n42");
    let unknown = Response { status_code: 299, headers: Vec::new(), body: s("") };
    assert_eq!(String::from_utf8(unknown.to_bytes()).unwrap(), "HTTP/1.1 299 \r\n\r\n");
}
