use httpcore::http::{dec_string, map_get, map_set};
use httpcore::pagination::{build_paginated_json_query, DbParam};
use httpcore::parser::{
    content_length, parse_header_line, parse_query_params, parse_request, parse_start_line,
    parse_usize, split_path_segments,
};
use httpcore::scaffold::to_snake_case;
use httpcore::user::{UserDto, UserRepo, UserService};

fn s(v: &str) -> String {
    v.to_string()
}

#[test]
fn start_line_splits_on_whitespace() {
    let (m, u, v) = parse_start_line("GET /items/42 HTTP/1.1");
    assert_eq!(m, "GET");
    assert_eq!(u, "/items/42");
    assert_eq!(v, "HTTP/1.1");
}

#[test]
fn start_line_is_lenient() {
    let (m, u, v) = parse_start_line("");
    assert_eq!((m.as_str(), u.as_str(), v.as_str()), ("", "", ""));
    let (m, u, v) = parse_start_line("GET");
    assert_eq!((m.as_str(), u.as_str(), v.as_str()), ("GET", "", ""));
    let (m, u, v) = parse_start_line("  GET   /a\tHTTP/1.1  extra");
    assert_eq!((m.as_str(), u.as_str(), v.as_str()), ("GET", "/a", "HTTP/1.1"));
}

#[test]
fn header_line_splits_once_on_colon_space() {
    let (k, v) = parse_header_line("Host: example: yes").unwrap();
    assert_eq!(k, "Host");
    assert_eq!(v, "example: yes");
    assert!(parse_header_line("Malformed").is_none());
    assert!(parse_header_line("NoSpace:x").is_none());
}

#[test]
fn duplicate_headers_last_write_wins() {
    let request = parse_request("GET / HTTP/1.1\r\nX-A: one\r\nX-A: two\r\n\r\n", None, 0);
    assert_eq!(map_get(&request.headers, "X-A").map(|v| v.as_str()), Some("two"));
    assert_eq!(request.headers.len(), 1);
}

#[test]
fn body_read_by_content_length() {
    let request = parse_request(
        "POST /u HTTP/1.1\r\nContent-Length: 4\r\n\r\nabcdEXTRA",
        None,
        7,
    );
    assert_eq!(request.body, "abcd");
    assert_eq!(request.timestamp, 7);

    let none = parse_request("POST /u HTTP/1.1\r\n\r\nabcd", None, 0);
    assert_eq!(none.body, "");

    let bad = parse_request("POST /u HTTP/1.1\r\nContent-Length: x4\r\n\r\nabcd", None, 0);
    assert_eq!(bad.body, "");

    let short = parse_request("POST /u HTTP/1.1\r\nContent-Length: 99\r\n\r\nab", None, 0);
    assert_eq!(short.body, "ab");
}

#[test]
fn usize_parsing_matches_std() {
    assert_eq!(parse_usize("10"), Some(10));
    assert_eq!(parse_usize("+10"), Some(10));
    assert_eq!(parse_usize("0"), Some(0));
    assert_eq!(parse_usize(""), None);
    assert_eq!(parse_usize("+"), None);
    assert_eq!(parse_usize("-1"), None);
    assert_eq!(parse_usize(" 5"), None);
    assert_eq!(parse_usize("1 "), None);
    assert_eq!(parse_usize("99999999999999999999999999"), None);
    assert_eq!(parse_usize(&usize::MAX.to_string()), Some(usize::MAX));
}

#[test]
fn content_length_reads_the_header() {
    let mut headers: Vec<(String, String)> = Vec::new();
    assert_eq!(content_length(&headers), None);
    map_set(&mut headers, s("Content-Length"), s("12"));
    assert_eq!(content_length(&headers), Some(12));
    map_set(&mut headers, s("Content-Length"), s("oops"));
    assert_eq!(content_length(&headers), None);
}

#[test]
fn query_params_split_and_override() {
    let qp = parse_query_params("/p?a=1&b=2&a=3&skipme&c=");
    assert_eq!(map_get(&qp, "a").map(|v| v.as_str()), Some("3"));
    assert_eq!(map_get(&qp, "b").map(|v| v.as_str()), Some("2"));
    assert_eq!(map_get(&qp, "c").map(|v| v.as_str()), Some(""));
    assert!(map_get(&qp, "skipme").is_none());
    assert!(parse_query_params("/p").is_empty());
}

#[test]
fn path_segments_drop_empty_pieces_and_query() {
    let segs = split_path_segments("/a//b/?q=1");
    assert_eq!(segs, vec![s("a"), s("b")]);
    assert!(split_path_segments("/").is_empty());
    assert!(split_path_segments("").is_empty());
    assert!(split_path_segments("?a=1").is_empty());
}

#[test]
fn decimal_rendering() {
    assert_eq!(dec_string(0), "0");
    assert_eq!(dec_string(7), "7");
    assert_eq!(dec_string(12345), "12345");
    assert_eq!(dec_string(u64::MAX), u64::MAX.to_string());
}

#[test]
fn snake_case_conversion() {
    assert_eq!(to_snake_case("MyMiddleware"), "my_middleware");
    assert_eq!(to_snake_case("already_snake"), "already_snake");
    assert_eq!(to_snake_case("hello-world Foo"), "hello_world__foo");
    assert_eq!(to_snake_case("ABC"), "a_b_c");
    assert_eq!(to_snake_case(""), "");
}

#[test]
fn paginated_query_with_both_bounds() {
    let q = build_paginated_json_query(
        "USER",
        "id, username",
        "'id', id, 'username', username",
        None,
        Vec::new(),
        Some(5),
        Some(10),
    );
    assert_eq!(
        q.sql,
        "WITH page AS (SELECT id, username FROM \"USER\" OFFSET $1 LIMIT $2)\n\
         SELECT (SELECT COUNT(*) FROM \"USER\") AS total,\n\
         COALESCE(json_agg(json_build_object('id', id, 'username', username)), '[]') AS data_json\n\
         FROM page;"
    );
    assert_eq!(q.top, 5);
    assert_eq!(q.skip, 10);
    assert_eq!(q.params.len(), 2);
    assert!(matches!(q.params[0], DbParam::Int64(10)));
    assert!(matches!(q.params[1], DbParam::Int64(5)));
}

#[test]
fn paginated_query_defaults_and_where() {
    let q = build_paginated_json_query(
        "USER",
        "id",
        "'id', id",
        Some("id > $1"),
        vec![DbParam::Int64(3)],
        None,
        None,
    );
    assert_eq!(
        q.sql,
        "WITH page AS (SELECT id FROM \"USER\" WHERE id > $1)\n\
         SELECT (SELECT COUNT(*) FROM \"USER\" WHERE id > $1) AS total,\n\
         COALESCE(json_agg(json_build_object('id', id)), '[]') AS data_json\n\
         FROM page;"
    );
    assert_eq!(q.top, 10);
    assert_eq!(q.skip, 0);
    assert_eq!(q.params.len(), 1);

    let only_top = build_paginated_json_query("T", "c", "'c', c", None, Vec::new(), Some(2), None);
    assert!(only_top.sql.contains(" LIMIT $1)"));
    assert!(!only_top.sql.contains("OFFSET"));
}

#[test]
fn user_values_carry_through() {
    let dto = UserDto::new(s("1"), s("ada"), s("pw"));
    assert_eq!(dto.id, "1");
    assert_eq!(dto.username, "ada");
    assert_eq!(dto.password, "pw");
    let service = UserService::new(UserRepo::new());
    assert_eq!(service.respond(), "User");
}
