use std::io::Cursor;

use rusty_server::HeaderError;
use rusty_server::Headers;
use rusty_server::HttpVersion;
use rusty_server::Method;
use rusty_server::Request;
use rusty_server::RequestParseError;
use rusty_server::Response;
use rusty_server::Status;

#[test]
pub fn test_request() {
    // GET / HTTP/1.1
    // Host: localhost:8088
    // User-Agent: curl/7.81.0
    // Accept: */*

    let mut rs = String::new();
    rs.push_str("GET /index.php?param1=2&p2=2 HTTP/1.1\r\n");
    rs.push_str("Host: testy.mctest.local:8088");
    rs.push_str("User-Agent: unittest/1.2.3");
    rs.push_str("X-Test: 1234abc");
    rs.push_str("Content-Length: 12");
    rs.push_str("\r\n");
    rs.push_str("abcdef123456");

    let _c = Cursor::new(rs.as_bytes());
}

#[test]
fn response_write_to() {
    let mut buf = Cursor::new(Vec::<u8>::new());
    let mut h = Headers::new();

    let payload_string = String::from("Hello there!");
    let payload: Vec<u8> = payload_string.bytes().collect();
    let payload_len = payload.len();

    h.add("server".to_string(), Some("rust-tests".to_string()));

    let mut resp = Response {
        version: HttpVersion::HTTP1_1,
        status: Status::Okay,
        headers: h,
        payload,
    };

    let n = resp.write_to(&mut buf).unwrap();
    assert_eq!(
        resp.headers.content_length().unwrap(),
        payload_len,
        "Content-Length is wrong"
    );

    let server_header = format!("server: {}\r\n", resp.headers.server().unwrap());
    let content_len_header = format!(
        "content-length: {}\r\n",
        resp.headers.content_length().unwrap()
    );

    let rs = String::from_utf8(buf.into_inner()).unwrap();
    assert_eq!(rs.len(), n);

    let first_line_end = rs.find('\r').unwrap() + 2;
    assert_eq!(first_line_end, 17);

    let first_line = &rs[0..first_line_end];
    println!("{:?}", first_line);
    assert_eq!(first_line, "HTTP/1.1 200 OK\r\n");

    let rest = &rs[first_line_end..];
    println!("{:?}", rest);
    let line_end = rest.find("\r\n").unwrap() + 2;
    let header_1 = &rest[0..line_end];
    println!("1 {:?}", header_1);

    let rest = &rest[line_end..];
    let line_end = rest.find('\r').unwrap() + 2;
    let header_2 = &rest[0..line_end];
    println!("2 {:?}", header_2);

    if header_1.starts_with("server") {
        assert_eq!(header_1, server_header);
        assert_eq!(header_2, content_len_header);
    } else if header_2.starts_with("server") {
        assert_eq!(header_1, content_len_header);
        assert_eq!(header_2, server_header);
    } else {
        panic!("no server header")
    }

    let rest = &rest[line_end..];
    let line_end = rest.find('\r').unwrap() + 2;
    let new_line = &rest[0..line_end];
    println!("3 {:?}", new_line);
    assert_eq!(new_line, "\r\n");

    let payload = &rest[line_end..];
    println!("4 {:?}", payload);
    assert_eq!(payload_string, payload);
}

#[test]
fn first_line_valid_tokens() {
    let (m, u, v) = Request::parse_first_line("GET /index.php?a=1 HTTP/1.1\r\n").unwrap();
    assert_eq!(m, Method::GET);
    assert_eq!(u.path, "/index.php");
    assert_eq!(u.raw, "/index.php?a=1");
    assert_eq!(v, HttpVersion::HTTP1_1);

    let (m, u, v) = Request::parse_first_line("post /form HTTP/1.0").unwrap();
    assert_eq!(m, Method::POST);
    assert_eq!(u.path, "/form");
    assert_eq!(v, HttpVersion::HTTP1_0);
}

#[test]
fn first_line_errors_name_the_bad_token() {
    assert_eq!(
        Request::parse_first_line("").unwrap_err(),
        RequestParseError::RequestMalformed
    );
    assert_eq!(
        Request::parse_first_line("FROB / HTTP/1.1").unwrap_err(),
        RequestParseError::UnknownMethod
    );
    assert_eq!(
        Request::parse_first_line("GET").unwrap_err(),
        RequestParseError::RequestMalformed
    );
    assert_eq!(
        Request::parse_first_line("GET /index").unwrap_err(),
        RequestParseError::RequestMalformed
    );
    assert_eq!(
        Request::parse_first_line("GET / HTTP/2.0").unwrap_err(),
        RequestParseError::VersionMalformed
    );
}

#[test]
fn header_get_is_case_insensitive() {
    let mut h = Headers::new();
    h.add_from_line("X-Test: 1").unwrap();
    assert_eq!(h.get("x-test".to_string()).unwrap(), "1");
    assert_eq!(h.get("X-TEST".to_string()).unwrap(), "1");
    assert_eq!(h.get("X-Test".to_string()).unwrap(), "1");
}

#[test]
fn header_add_overwrites_and_returns_prior() {
    let mut h = Headers::new();
    assert_eq!(h.add("Key".to_string(), Some("1".to_string())), None);
    assert_eq!(
        h.add("kEy".to_string(), Some("2".to_string())),
        Some(Some("1".to_string()))
    );
    assert_eq!(h.get("key".to_string()).unwrap(), "2");
}

#[test]
fn header_line_without_colon_is_a_valueless_key() {
    let mut h = Headers::new();
    h.add_from_line("weird").unwrap();
    assert!(matches!(
        h.get("weird".to_string()),
        Err(HeaderError::NoValue)
    ));
}

#[test]
fn header_value_is_trimmed() {
    let mut h = Headers::new();
    h.add_from_line("Key:   spaced value \t ").unwrap();
    assert_eq!(h.get("key".to_string()).unwrap(), "spaced value");
}

#[test]
fn content_length_three_outcomes() {
    let h = Headers::new();
    assert!(matches!(h.content_length(), Err(HeaderError::NotFound)));

    let mut h = Headers::new();
    h.add("content-length".to_string(), Some("abc".to_string()));
    assert!(matches!(h.content_length(), Err(HeaderError::InvalidValue)));

    let mut h = Headers::new();
    h.add("Content-Length".to_string(), Some("12".to_string()));
    assert_eq!(h.content_length().unwrap(), 12);

    let mut h = Headers::new();
    h.add("content-length".to_string(), None);
    assert!(matches!(h.content_length(), Err(HeaderError::NoValue)));

    // a numeral too large for any payload is invalid, not wrapped
    let mut h = Headers::new();
    h.add(
        "content-length".to_string(),
        Some("99999999999999999999999999".to_string()),
    );
    assert!(matches!(h.content_length(), Err(HeaderError::InvalidValue)));
}

#[test]
fn default_headers_name_server_and_close() {
    let h = Headers::default();
    assert_eq!(h.server().unwrap(), "rusty-server");
    assert_eq!(h.get("Connection".to_string()).unwrap(), "close");
}

#[test]
fn headers_serialize_with_blank_line() {
    let mut h = Headers::new();
    h.add("a".to_string(), Some("b".to_string()));
    h.add("c".to_string(), None);
    assert_eq!(h.to_string(), "a: b\r\nc: \r\n\r\n");
}

#[test]
fn response_content_length_is_recomputed() {
    let mut resp = Response::new(Status::Okay, "four");
    resp.headers
        .add("content-length".to_string(), Some("999".to_string()));
    let mut buf = Cursor::new(Vec::<u8>::new());
    resp.write_to(&mut buf).unwrap();
    assert_eq!(resp.headers.content_length().unwrap(), 4);

    let mut resp = Response::new(Status::Okay, "");
    resp.set_content_length();
    assert_eq!(resp.headers.content_length().unwrap(), 0);
}

#[test]
fn response_constructors_fix_status_and_version() {
    let r = Response::ok(HttpVersion::HTTP1_0);
    assert_eq!(r.status.code(), 200);
    assert_eq!(r.version, HttpVersion::HTTP1_0);
    assert!(r.payload.is_empty());

    let r = Response::ok_1();
    assert_eq!(r.version, HttpVersion::HTTP1_0);
    let r = Response::ok_1_1();
    assert_eq!(r.version, HttpVersion::HTTP1_1);
    let r = Response::internal_server_error(HttpVersion::HTTP1_1);
    assert_eq!(r.status.code(), 500);
}

#[test]
fn status_text_pairs_code_and_reason() {
    assert_eq!(Status::Okay.to_string(), "200 OK");
    assert_eq!(Status::NotFound.to_string(), "404 Not Found");
    assert_eq!(Status::Accepted.to_string(), "202 Accepted");
    assert_eq!(
        Status::HttpVersionNotSupported.to_string(),
        "505 HTTP Version Not Supported"
    );
    assert_eq!(
        Status::NonAuthoritativeInformation.to_string(),
        "203 Non-Authoritative Information"
    );
    assert_eq!(Status::NoContent.code(), 204);
    assert_eq!(Status::ResetContent.code(), 205);
    assert_eq!(Status::PartialContent.code(), 206);
    assert_eq!(Status::Created.code(), 201);
}

#[test]
fn method_text_both_ways() {
    assert_eq!(Method::from_str("GET").unwrap(), Method::GET);
    assert_eq!(Method::from_str("delete").unwrap(), Method::DELETE);
    assert_eq!(Method::from_str("GET\r\n").unwrap(), Method::GET);
    assert_eq!(Method::from_str("Patch").unwrap(), Method::PATCH);
    assert!(Method::from_str("SMELL").is_err());
    assert_eq!(Method::CONNECT.to_string(), "CONNECT");
    assert_eq!(Method::OPTIONS.to_string(), "OPTIONS");
    assert_eq!(Method::TRACE.to_string(), "TRACE");
    assert_eq!(Method::HEAD.to_string(), "HEAD");
    assert_eq!(Method::PUT.to_string(), "PUT");
}

#[test]
fn version_text_both_ways() {
    assert_eq!(
        HttpVersion::from_str("HTTP/1.1").unwrap(),
        HttpVersion::HTTP1_1
    );
    assert_eq!(
        HttpVersion::from_str("HTTP/1.0").unwrap(),
        HttpVersion::HTTP1_0
    );
    assert!(HttpVersion::from_str("http/1.1").is_err());
    assert!(HttpVersion::from_str("HTTP/2").is_err());
    assert_eq!(HttpVersion::HTTP1_0.to_string(), "HTTP/1.0");
    assert_eq!(HttpVersion::HTTP1_1.to_string(), "HTTP/1.1");
}

#[test]
fn uri_without_query_is_all_path() {
    let u = rusty_server::Uri::from_str("/plain/path").unwrap();
    assert_eq!(u.path, "/plain/path");
    assert_eq!(u.raw, "/plain/path");
    assert_eq!(u.params.len(), 0);
    assert_eq!(u.to_string(), "/plain/path");
}

#[test]
fn uri_query_parsing() {
    let u = rusty_server::Uri::from_str("/p?a=1&b&c=&a=2").unwrap();
    assert_eq!(u.path, "/p");
    assert_eq!(u.raw, "/p?a=1&b&c=&a=2");
    // a later duplicate overwrites
    assert_eq!(u.params.get("a"), Some(Some("2".to_string())));
    // a fragment without `=` is a key with no value, as is `c=`
    assert_eq!(u.params.get("b"), Some(None));
    assert_eq!(u.params.get("c"), Some(None));
    assert_eq!(u.params.get("missing"), None);
}

#[test]
fn parse_full_request() {
    let raw = "GET /index.php?param1=2&p2=2 HTTP/1.1\r\nHost: x\r\nContent-Length: 5\r\n\r\nhello";
    let req = Request::parse(raw.as_bytes()).unwrap();
    assert_eq!(req.method, Method::GET);
    assert_eq!(req.uri.path, "/index.php");
    assert_eq!(req.uri.params.get("param1"), Some(Some("2".to_string())));
    assert_eq!(req.uri.params.get("p2"), Some(Some("2".to_string())));
    assert_eq!(req.version, HttpVersion::HTTP1_1);
    assert_eq!(req.payload, b"hello".to_vec());
    assert_eq!(req.headers.get("host".to_string()).unwrap(), "x");
}

#[test]
fn parse_rejects_bad_content_length() {
    let raw = "GET / HTTP/1.1\r\nContent-Length: abc\r\n\r\nhello";
    assert_eq!(
        Request::parse(raw.as_bytes()).unwrap_err(),
        RequestParseError::RequestMalformed
    );
}

#[test]
fn parse_without_content_length_has_empty_payload() {
    let raw = "GET / HTTP/1.1\r\nHost: x\r\n\r\nleftover";
    let req = Request::parse(raw.as_bytes()).unwrap();
    assert!(req.payload.is_empty());
}

#[test]
fn parse_fails_on_short_payload() {
    let raw = "GET / HTTP/1.1\r\nContent-Length: 50\r\n\r\nshort";
    assert_eq!(
        Request::parse(raw.as_bytes()).unwrap_err(),
        RequestParseError::CantReadRequest
    );
}

#[test]
fn parse_rejects_empty_input_and_bad_text() {
    assert_eq!(
        Request::parse(b"").unwrap_err(),
        RequestParseError::RequestMalformed
    );
    let bad = [0xffu8, 0xfe, 0x20, 0x2f, 0x0a];
    assert_eq!(
        Request::parse(&bad).unwrap_err(),
        RequestParseError::CantReadRequest
    );
}

#[test]
fn router_last_registration_wins() {
    let mut table = rusty_server::Handlers::new();
    table.register(rusty_server::Handler {
        methods: vec![Method::GET],
        pattern: "/ok/*".to_string(),
        id: 1,
    });
    table.register(rusty_server::Handler {
        methods: vec![Method::GET],
        pattern: "/ok/*".to_string(),
        id: 2,
    });
    let (found, h) = table.get(&Method::GET, "/ok/1");
    assert!(found);
    assert_eq!(h.id, 2);
}

#[test]
fn router_matches_method_and_pattern() {
    let mut table = rusty_server::Handlers::new();
    table.register(rusty_server::Handler {
        methods: vec![Method::GET, Method::POST],
        pattern: "/form*".to_string(),
        id: 7,
    });
    let (found, h) = table.get(&Method::POST, "/form/submit");
    assert!(found);
    assert_eq!(h.id, 7);
    let (found, _) = table.get(&Method::DELETE, "/form/submit");
    assert!(!found);
    let (found, _) = table.get(&Method::GET, "/elsewhere");
    assert!(!found);
}

#[test]
fn unmatched_route_yields_default_not_found() {
    let mut table = rusty_server::Handlers::new();
    table.register(rusty_server::Handler {
        methods: vec![Method::GET],
        pattern: "/ok/*".to_string(),
        id: 1,
    });
    let (found, _) = table.get(&Method::DELETE, "/nowhere");
    assert!(!found);

    let resp = rusty_server::not_found_response(&Method::DELETE, "/nowhere");
    assert_eq!(resp.status.code(), 404);
    let body = String::from_utf8(resp.payload.clone()).unwrap();
    assert!(body.contains("DELETE"));
    assert!(body.contains("/nowhere"));
    assert_eq!(body, "no handler found for DELETE /nowhere");
}

#[test]
fn request_renders_as_text() {
    let raw = "GET /index.php?param1=2&p2=2 HTTP/1.1\r\nHost: x\r\nContent-Length: 5\r\n\r\nhello";
    let req = Request::parse(raw.as_bytes()).unwrap();
    assert_eq!(
        req.to_string(),
        "GET /index.php?param1=2&p2=2 HTTP/1.1\nhost: x\r\ncontent-length: 5\r\n\r\nhello"
    );
}

#[test]
fn header_errors_say_what_went_wrong() {
    assert_eq!(HeaderError::NotFound.message(), "header is not defined");
    assert_eq!(
        HeaderError::NoValue.message(),
        "header is defined but has no value"
    );
    assert_eq!(
        HeaderError::InvalidValue.message(),
        "header is defined but has an invalid value, e.g. invalid int"
    );
}

#[test]
fn parse_headers_end_at_end_of_input() {
    let raw = "GET / HTTP/1.1\r\nHost: partial.example";
    let req = Request::parse(raw.as_bytes()).unwrap();
    assert_eq!(req.headers.get("host".to_string()).unwrap(), "partial.example");
    assert!(req.payload.is_empty());
}

#[test]
fn parse_takes_exactly_content_length_bytes() {
    let raw = "GET / HTTP/1.1\r\nContent-Length: 2\r\n\r\nhello";
    let req = Request::parse(raw.as_bytes()).unwrap();
    assert_eq!(req.payload, b"he".to_vec());

    let raw = "GET / HTTP/1.1\r\nContent-Length: 0\r\n\r\n";
    let req = Request::parse(raw.as_bytes()).unwrap();
    assert!(req.payload.is_empty());
}
