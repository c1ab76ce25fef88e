use mini_http::http::request::Request;
use mini_http::http::{HttpError, HttpMethod, Protocol, RequestFault, Status};
use mini_http::text_map::TextMap;

fn bad_request_details(error: &HttpError) -> String {
    match &error.status {
        Status::BadRequest400(details) => details.clone(),
        other => panic!("expected a bad request, got {:?}", other),
    }
}

fn request(method: HttpMethod, path: &str, body: &str) -> Request {
    Request {
        method,
        path: path.to_string(),
        protocol: Protocol::HTTP11,
        headers: TextMap::new(),
        body: body.to_string(),
    }
}

#[test]
fn parse_round_trips_method_and_path() {
    let cases = [
        ("GET", HttpMethod::GET),
        ("HEAD", HttpMethod::HEAD),
        ("DELETE", HttpMethod::DELETE),
        ("TRACE", HttpMethod::TRACE),
        ("POST", HttpMethod::POST),
        ("PUT", HttpMethod::PUT),
        ("PATCH", HttpMethod::PATCH),
        ("OPTIONS", HttpMethod::OPTIONS),
        ("CONNECT", HttpMethod::CONNECT),
    ];
    for (name, method) in cases {
        let text = format!("{} /index.html HTTP/1.1", name);
        let parsed = Request::parse(text.as_bytes()).unwrap();
        assert_eq!(parsed.method, method);
        assert_eq!(parsed.path, "/index.html");
        assert_eq!(parsed.protocol, Protocol::HTTP11);
        assert_eq!(parsed.headers.len(), 0);
        assert_eq!(parsed.body, "");
    }
}

#[test]
fn parse_accepts_a_request_line_without_protocol() {
    let parsed = Request::parse(b"GET /a").unwrap();
    assert_eq!(parsed.method, HttpMethod::GET);
    assert_eq!(parsed.path, "/a");
    assert_eq!(parsed.protocol, Protocol::HTTP11);
}

#[test]
fn parse_ignores_tokens_after_the_protocol() {
    let parsed = Request::parse(b"GET /a HTTP/1.1 extra\n\n").unwrap();
    assert_eq!(parsed.path, "/a");
}

#[test]
fn parse_rejects_asterisk_without_options() {
    let error = Request::parse(b"GET * HTTP/1.1\n\n").unwrap_err();
    assert_eq!(
        bad_request_details(&error),
        "request target '*' can only be used with OPTIONS method"
    );
    assert_eq!(
        Request::try_parse(b"POST * HTTP/1.1\n\n").unwrap_err(),
        RequestFault::AsteriskTarget
    );
}

#[test]
fn parse_accepts_asterisk_with_options() {
    let parsed = Request::parse(b"OPTIONS * HTTP/1.1\n\n").unwrap();
    assert_eq!(parsed.method, HttpMethod::OPTIONS);
    assert_eq!(parsed.path, "*");
}

#[test]
fn parse_rejects_authority_form_without_connect() {
    let error = Request::parse(b"GET example.com:8080 HTTP/1.1\n\n").unwrap_err();
    assert_eq!(
        bad_request_details(&error),
        "request target in the form <host>:<port> can only be used with CONNECT method"
    );
    assert_eq!(
        Request::try_parse(b"OPTIONS 10.0.0.1:443 HTTP/1.1\n\n").unwrap_err(),
        RequestFault::AuthorityTarget
    );
}

#[test]
fn parse_accepts_authority_form_with_connect() {
    let parsed = Request::parse(b"CONNECT example.com:8080 HTTP/1.1\n\n").unwrap();
    assert_eq!(parsed.method, HttpMethod::CONNECT);
    assert_eq!(parsed.path, "example.com:8080");
}

#[test]
fn parse_finds_an_authority_anywhere_in_the_target() {
    assert_eq!(
        Request::try_parse(b"GET /proxy/example.com:80/x HTTP/1.1").unwrap_err(),
        RequestFault::AuthorityTarget
    );
    assert!(Request::try_parse(b"GET /a:b HTTP/1.1").is_ok());
    assert!(Request::try_parse(b"GET /EXAMPLE:80 HTTP/1.1").is_ok());
}

#[test]
fn parse_rejects_a_body_on_get() {
    let error = Request::parse(b"GET / HTTP/1.1\nHost: x\n\nhello").unwrap_err();
    assert_eq!(
        bad_request_details(&error),
        "only PATCH, POST, and PUT methods can send non-empty body"
    );
    for name in ["HEAD", "DELETE", "CONNECT", "OPTIONS", "TRACE"] {
        let text = format!("{} / HTTP/1.1\n\nhello", name);
        assert_eq!(
            Request::try_parse(text.as_bytes()).unwrap_err(),
            RequestFault::UnexpectedBody
        );
    }
}

#[test]
fn parse_accepts_a_body_on_post_put_patch() {
    for (name, method) in [
        ("POST", HttpMethod::POST),
        ("PUT", HttpMethod::PUT),
        ("PATCH", HttpMethod::PATCH),
    ] {
        let text = format!("{} /items HTTP/1.1\nHost: x\n\nhello", name);
        let parsed = Request::parse(text.as_bytes()).unwrap();
        assert_eq!(parsed.method, method);
        assert_eq!(parsed.body, "hello");
    }
}

#[test]
fn parse_joins_body_lines_without_separators() {
    let parsed = Request::parse(b"POST / HTTP/1.1\r\nHost: x\r\n\r\nab\r\ncd\n\nef").unwrap();
    assert_eq!(parsed.body, "abcdef");
}

#[test]
fn parse_drops_unknown_headers() {
    let parsed = Request::parse(b"GET / HTTP/1.1\nX-Custom: 1\nHost: x\n\n").unwrap();
    assert!(!parsed.headers.contains_key(&"x-custom".to_string()));
    assert!(!parsed.headers.contains_key(&"X-Custom".to_string()));
    assert_eq!(parsed.headers.len(), 1);
    assert_eq!(parsed.headers.get(&"host".to_string()), Some(&"x".to_string()));
}

#[test]
fn parse_lowers_header_names() {
    let parsed = Request::parse(b"GET / HTTP/1.1\nHOST: Example\nUser-Agent: curl\n\n").unwrap();
    assert_eq!(parsed.headers.get(&"host".to_string()), Some(&"Example".to_string()));
    assert_eq!(parsed.headers.get(&"user-agent".to_string()), Some(&"curl".to_string()));
    assert!(!parsed.headers.contains_key(&"HOST".to_string()));
    assert_eq!(parsed.headers.key_at(0), "host");
    assert_eq!(parsed.headers.value_at(1), "curl");
}

#[test]
fn parse_keeps_the_first_of_two_equal_headers() {
    let parsed = Request::parse(b"GET / HTTP/1.1\nHost: first\nhost: second\n\n").unwrap();
    assert_eq!(parsed.headers.len(), 1);
    assert_eq!(parsed.headers.get(&"host".to_string()), Some(&"first".to_string()));
}

#[test]
fn parse_skips_header_lines_of_another_shape() {
    let parsed = Request::parse(
        b"GET / HTTP/1.1\nHost x\nAccept: a b\nCookie:: c\nPragma:no-cache\nLocation:  y\nRanges: r\n\n",
    )
    .unwrap();
    assert_eq!(parsed.headers.len(), 2);
    assert_eq!(parsed.headers.get(&"cookie".to_string()), Some(&"c".to_string()));
    assert_eq!(parsed.headers.get(&"ranges".to_string()), Some(&"r".to_string()));
}

#[test]
fn parse_reads_crlf_lines() {
    let parsed = Request::parse(b"GET /x HTTP/1.1\r\nHost: x\r\n\r\n").unwrap();
    assert_eq!(parsed.path, "/x");
    assert_eq!(parsed.headers.get(&"host".to_string()), Some(&"x".to_string()));
    assert_eq!(parsed.body, "");
}

#[test]
fn parse_reports_bytes_that_are_not_utf8() {
    let error = Request::parse(&[0x47, 0x45, 0x54, 0x20, 0xff, 0xfe]).unwrap_err();
    assert!(matches!(error.status, Status::MalformedEncoding));
    assert_eq!(
        Request::try_parse(&[0xc3, 0x28]).unwrap_err(),
        RequestFault::MalformedEncoding
    );
}

#[test]
fn parse_reads_text_beyond_ascii() {
    let parsed = Request::parse("GET /caf\u{e9} HTTP/1.1\n\n".as_bytes()).unwrap();
    assert_eq!(parsed.path, "/caf\u{e9}");
}

#[test]
fn parse_reports_an_empty_message() {
    let error = Request::parse(b"").unwrap_err();
    assert!(matches!(error.status, Status::TCPError));
    assert_eq!(Request::try_parse(b"").unwrap_err(), RequestFault::EmptyMessage);
}

#[test]
fn parse_rejects_a_malformed_request_line() {
    for text in [
        "GET",
        "\n",
        "\nGET / HTTP/1.1",
        "FETCH / HTTP/1.1",
        "get / HTTP/1.1",
        "GET / HTTP/2",
        "GET / http/1.1",
        "GET  / HTTP/1.1",
        " GET / HTTP/1.1",
    ] {
        let error = Request::parse(text.as_bytes()).unwrap_err();
        assert_eq!(bad_request_details(&error), "invalid http request format");
        assert_eq!(
            Request::try_parse(text.as_bytes()).unwrap_err(),
            RequestFault::InvalidFormat
        );
    }
}

#[test]
fn validate_holds_the_three_rules() {
    assert!(request(HttpMethod::GET, "/", "").validate().is_ok());
    assert!(request(HttpMethod::OPTIONS, "*", "").validate().is_ok());
    assert!(request(HttpMethod::CONNECT, "a.b:1", "").validate().is_ok());
    assert!(request(HttpMethod::POST, "/", "x").validate().is_ok());
    assert_eq!(
        request(HttpMethod::GET, "*", "").fault(),
        Some(RequestFault::AsteriskTarget)
    );
    assert_eq!(
        request(HttpMethod::GET, "a.b:1", "").fault(),
        Some(RequestFault::AuthorityTarget)
    );
    assert_eq!(
        request(HttpMethod::CONNECT, "a.b:1", "x").fault(),
        Some(RequestFault::UnexpectedBody)
    );
    assert_eq!(request(HttpMethod::OPTIONS, "*", "x").fault(), Some(RequestFault::UnexpectedBody));
    assert_eq!(request(HttpMethod::GET, "*", "x").fault(), Some(RequestFault::AsteriskTarget));
    let error = request(HttpMethod::TRACE, "/", "x").validate().unwrap_err();
    assert_eq!(
        bad_request_details(&error),
        "only PATCH, POST, and PUT methods can send non-empty body"
    );
}

#[test]
fn errors_describe_themselves() {
    let bad = HttpError::new(Status::BadRequest400("no good".to_string()));
    assert_eq!(bad.to_string(), "bad request; details: no good");
    let other = HttpError::new(Status::TCPError);
    assert_eq!(other.to_string(), "internal server error; details: unidentified problem");
    let found = HttpError::new(Status::NotFound404("x".to_string()));
    assert_eq!(found.to_string(), "internal server error; details: unidentified problem");
    assert_eq!(Protocol::HTTP11.to_string(), "Http/1.1");
}

#[test]
fn faults_become_errors() {
    assert!(matches!(RequestFault::MalformedEncoding.to_error().status, Status::MalformedEncoding));
    assert!(matches!(RequestFault::EmptyMessage.to_error().status, Status::TCPError));
    assert_eq!(
        bad_request_details(&RequestFault::InvalidFormat.to_error()),
        "invalid http request format"
    );
    assert_eq!(
        bad_request_details(&RequestFault::AsteriskTarget.to_error()),
        "request target '*' can only be used with OPTIONS method"
    );
}

#[test]
fn text_map_keeps_the_first_value_and_the_order() {
    let mut map = TextMap::new();
    assert!(map.insert_if_absent("b".to_string(), "1".to_string()));
    assert!(map.insert_if_absent("a".to_string(), "2".to_string()));
    assert!(!map.insert_if_absent("b".to_string(), "3".to_string()));
    assert_eq!(map.len(), 2);
    assert_eq!(map.key_at(0), "b");
    assert_eq!(map.value_at(0), "1");
    assert_eq!(map.key_at(1), "a");
    assert_eq!(map.get(&"a".to_string()), Some(&"2".to_string()));
    assert_eq!(map.get(&"c".to_string()), None);
    assert!(map.contains_key(&"b".to_string()));
    assert!(!map.contains_key(&"B".to_string()));
}

#[test]
fn plain_parser_reads_a_get_request_line() {
    let parsed = mini_http::http::request::parse_http_message(
        "GET /index.html HTTP/1.1\r\nHost: x\r\n\r\n".to_string(),
    )
    .unwrap();
    assert_eq!(parsed.method, HttpMethod::GET);
    assert_eq!(parsed.path, "/index.html");
    assert_eq!(parsed.protocol, Protocol::HTTP11);
    assert_eq!(parsed.headers.len(), 0);
    assert_eq!(parsed.body, "");
}

#[test]
fn plain_parser_refuses_everything_else() {
    for text in [
        "",
        "GET / HTTP/1.1",
        "GET / HTTP/1.1\nHost: x\n",
        "GET /\nHost: x\n\n",
        "GET / HTTP/1.1 more\nHost: x\n\n",
        "POST / HTTP/1.1\nHost: x\n\n",
        "GET / HTTP/1.0\nHost: x\n\n",
    ] {
        let complaint = mini_http::http::request::parse_http_message(text.to_string()).unwrap_err();
        assert_eq!(complaint, "invalid http request format");
    }
}

#[test]
fn message_lines_come_before_parsing() {
    let ls = mini_http::http::request::message_lines(b"GET / HTTP/1.1\r\nHost: x\r\n\r\nbody").unwrap();
    let ls: Vec<String> = ls.into_iter().map(|line| line.into_iter().collect()).collect();
    assert_eq!(ls, vec!["GET / HTTP/1.1", "Host: x", "", "body"]);
    assert_eq!(
        mini_http::http::request::message_lines(b"").unwrap_err(),
        RequestFault::EmptyMessage
    );
    assert_eq!(
        mini_http::http::request::message_lines(&[0x80]).unwrap_err(),
        RequestFault::MalformedEncoding
    );
    assert_eq!(mini_http::http::request::message_lines(b"\n").unwrap(), vec![Vec::<char>::new()]);
}
