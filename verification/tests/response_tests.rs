use mini_http::http::handler::HttpHandler;
use mini_http::http::request::Request;
use mini_http::http::response::{CacheOptions, Cookies, Response, Timestamp};
use mini_http::http::{HttpError, Protocol, Status};
use mini_http::tcp_server::{Config, Server};
use mini_http::text_map::TextMap;

fn map_of(pairs: &[(&str, &str)]) -> TextMap {
    let mut map = TextMap::new();
    for (key, value) in pairs {
        map.insert_if_absent(key.to_string(), value.to_string());
    }
    map
}

fn epoch() -> Timestamp {
    Timestamp { second: 0, nanosecond: 0 }
}

fn cookies(same_site: Option<&str>, secure: bool) -> Cookies {
    Cookies::new(
        map_of(&[("id", "7")]),
        None,
        secure,
        false,
        None,
        None,
        same_site.map(|s| s.to_string()),
    )
}

#[test]
fn encode_starts_with_the_status_line() {
    let response = Response::new(
        Protocol::HTTP11,
        Status::OK200("Ok".to_string()),
        map_of(&[("Content-Type", "text/html")]),
        Some(cookies(None, true)),
        Some(CacheOptions::new_default()),
        Some(b"body".to_vec()),
    );
    let bytes = response.encode();
    assert!(bytes.starts_with(b"Http/1.1 200 Ok\n"));
    assert!(bytes.ends_with(b"\n\nbody"));
}

#[test]
fn encode_writes_the_parts_in_order() {
    let response = Response::new(
        Protocol::HTTP11,
        Status::OK200("Fine".to_string()),
        map_of(&[("Content-Type", "text/html"), ("Server", "mini")]),
        Some(cookies(Some("Strict"), true)),
        Some(CacheOptions::new(Some(60), false, false, false, false, true, epoch(), "tag".to_string())),
        Some(vec![0xff, 0x00, 0x41]),
    );
    let mut expected = b"Http/1.1 200 Fine\nContent-Type: text/html\nServer: mini\n\
Cache-Control: max-age=60public\nLast-Modified: Thu,  1 Jan 1970 12:00:00 GMT\nETag: tag\n\
Set-Cookie: id=7; Secure; SameSite=Strict\n\n"
        .to_vec();
    expected.extend_from_slice(&[0xff, 0x00, 0x41]);
    assert_eq!(response.encode(), expected);
}

#[test]
fn encode_shows_every_other_status_as_a_bad_request() {
    for status in [
        Status::NoContent204,
        Status::NotModified304,
        Status::BadRequest400("details".to_string()),
        Status::NotFound404("nothing".to_string()),
        Status::MalformedEncoding,
        Status::TCPError,
    ] {
        let response = Response::new(Protocol::HTTP11, status, TextMap::new(), None, None, None);
        assert_eq!(response.encode(), b"Http/1.1 400 bad request\n\n".to_vec());
    }
}

#[test]
fn encode_of_a_bare_ok_is_the_status_line_and_a_blank_line() {
    let parsed = Request::parse(b"GET / HTTP/1.1\nHost: x\n\n").unwrap();
    let response = Response::new(
        parsed.protocol,
        Status::OK200("Ok".to_string()),
        TextMap::new(),
        None,
        None,
        None,
    );
    assert_eq!(response.encode(), b"Http/1.1 200 Ok\n\n".to_vec());
}

#[test]
fn try_encode_refuses_a_date_that_cannot_be_written() {
    let unwritable = Timestamp { second: i64::MAX, nanosecond: 0 };
    let response = Response::new(
        Protocol::HTTP11,
        Status::OK200("Ok".to_string()),
        TextMap::new(),
        None,
        Some(CacheOptions::new(None, true, false, false, false, false, unwritable, "t".to_string())),
        None,
    );
    assert_eq!(response.try_encode(), None);
    let plain = Response::new(
        Protocol::HTTP11,
        Status::OK200("Ok".to_string()),
        TextMap::new(),
        None,
        None,
        Some(b"x".to_vec()),
    );
    assert_eq!(plain.try_encode(), Some(b"Http/1.1 200 Ok\n\nx".to_vec()));
}

#[test]
fn lax_cookies_are_secure() {
    let header = cookies(Some("Lax"), false).to_set_cookie_header();
    assert!(header.contains("SameSite=Lax"));
    assert!(header.contains("Secure"));
    assert_eq!(header, "Set-Cookie: id=7; SameSite=Lax; Secure");
    let already = cookies(Some("lax"), true).to_set_cookie_header();
    assert_eq!(already, "Set-Cookie: id=7; Secure; SameSite=Lax");
}

#[test]
fn same_site_is_told_apart_in_any_case() {
    assert_eq!(
        cookies(Some("STRICT"), false).to_set_cookie_header(),
        "Set-Cookie: id=7; SameSite=Strict"
    );
    assert_eq!(
        cookies(Some("nOnE"), false).to_set_cookie_header(),
        "Set-Cookie: id=7; SameSite=None"
    );
    assert_eq!(cookies(Some("relaxed"), false).to_set_cookie_header(), "Set-Cookie: id=7");
    assert_eq!(cookies(None, false).to_set_cookie_header(), "Set-Cookie: id=7");
}

#[test]
fn cookie_attributes_come_in_their_order() {
    let all = Cookies::new(
        map_of(&[("a", "1"), ("b", "2"), ("c", "3")]),
        Some(3600),
        true,
        true,
        Some("example.com".to_string()),
        Some("/".to_string()),
        Some("none".to_string()),
    );
    assert_eq!(
        all.to_set_cookie_header(),
        "Set-Cookie: a=1; b=2; c=3; Max-Age=3600; Secure; HttpOnly; Domain=example.com; Path=/; SameSite=None"
    );
    let bare = Cookies::new(TextMap::new(), Some(0), false, false, None, None, None);
    assert_eq!(bare.to_set_cookie_header(), "Set-Cookie: ; Max-Age=0");
}

#[test]
fn cache_header_writes_the_directives_without_separators() {
    let all = CacheOptions::new(Some(4294967295), true, true, true, true, true, epoch(), "e".to_string());
    assert_eq!(
        all.to_cache_related_header(),
        "Cache-Control: max-age=4294967295no-cacheno-storeimmutableprivate\n\
Last-Modified: Thu,  1 Jan 1970 12:00:00 GMT\nETag: e"
    );
    let public = CacheOptions::new(Some(10), false, false, false, false, true, epoch(), "e".to_string());
    assert_eq!(
        public.header_with_date("today"),
        "Cache-Control: max-age=10public\nLast-Modified: today\nETag: e"
    );
    let none = CacheOptions::new(None, false, false, false, false, false, epoch(), "".to_string());
    assert_eq!(none.header_with_date(""), "Cache-Control: \nLast-Modified: \nETag: ");
}

#[test]
fn cache_header_writes_the_date_of_the_instant() {
    let later = Timestamp { second: 1_700_000_000, nanosecond: 5 };
    let options = CacheOptions::new(None, true, false, false, false, false, later, "x".to_string());
    assert_eq!(
        options.try_to_cache_related_header(),
        Some("Cache-Control: no-cache\nLast-Modified: Tue, 14 Nov 2023 10:13:20 GMT\nETag: x".to_string())
    );
    let never = Timestamp { second: 0, nanosecond: 2_000_000_000 };
    let options = CacheOptions::new(None, true, false, false, false, false, never, "x".to_string());
    assert_eq!(options.try_to_cache_related_header(), None);
}

#[test]
fn default_cache_options_revalidate() {
    let options = CacheOptions::new_default();
    assert_eq!(options.max_age, None);
    assert!(options.no_cache);
    assert!(!options.no_store && !options.immutable && !options.private && !options.public);
    assert_eq!(options.etag.len(), 36);
    for (i, c) in options.etag.chars().enumerate() {
        if i == 8 || i == 13 || i == 18 || i == 23 {
            assert_eq!(c, '-');
        } else {
            assert!(c.is_ascii_digit() || ('a'..='f').contains(&c));
        }
    }
    assert!(options.last_modified.second > 1_600_000_000);
    assert!(options.last_modified.nanosecond.abs() < 1_000_000_000);
    assert_ne!(CacheOptions::new_default().etag, options.etag);
    let header = options.to_cache_related_header();
    assert!(header.starts_with("Cache-Control: no-cache\nLast-Modified: "));
    assert!(header.ends_with(&format!(" GMT\nETag: {}", options.etag)));
}

#[test]
fn handler_serves_the_page() {
    let handler = HttpHandler::new();
    let response = handler.handle_request(b"GET / HTTP/1.1\nHost: x\n\n").unwrap();
    assert!(matches!(&response.status, Status::OK200(message) if message == "Ok"));
    assert_eq!(response.headers.len(), 1);
    assert_eq!(response.headers.get(&"Content-Type".to_string()), Some(&"text/html".to_string()));
    let cookies = response.cookies.as_ref().unwrap();
    assert_eq!(cookies.values.len(), 2);
    assert_eq!(cookies.values.key_at(0), "best-movie");
    assert_eq!(cookies.values.value_at(1), "hangover trilogy");
    assert!(cookies.secure && cookies.http_only);
    assert_eq!(cookies.path, Some("/".to_string()));
    assert!(response.cache_options.as_ref().unwrap().no_cache);
    let body = String::from_utf8(response.body.clone()).unwrap();
    assert!(body.starts_with("\r\n\n<html>"));
    assert!(body.contains("hey this is my own http server written in Rust!"));
    let bytes = response.encode();
    assert!(bytes.starts_with(b"Http/1.1 200 Ok\nContent-Type: text/html\nCache-Control: no-cache\n"));
}

#[test]
fn handler_answers_a_rejected_request_with_its_status() {
    let handler = HttpHandler::new();
    let response = handler.handle_request(b"GET * HTTP/1.1\n\n").unwrap();
    assert!(matches!(&response.status, Status::BadRequest400(details)
        if details == "request target '*' can only be used with OPTIONS method"));
    assert_eq!(response.headers.len(), 0);
    assert!(response.cookies.is_none() && response.cache_options.is_none());
    assert!(response.body.is_empty());
    let response = handler.handle_request(&[0xff]).unwrap();
    assert!(matches!(response.status, Status::MalformedEncoding));
}

#[test]
fn handler_answers_nothing_to_a_silent_peer() {
    let handler = HttpHandler::new();
    let error = handler.handle_request(b"").unwrap_err();
    assert!(matches!(error.status, Status::TCPError));
    let handed_back = handler.respond(Err(HttpError::new(Status::TCPError))).unwrap_err();
    assert!(matches!(handed_back.status, Status::TCPError));
    let answered = handler.respond(Err(HttpError::new(Status::Forbidden403("no".to_string())))).unwrap();
    assert!(matches!(&answered.status, Status::Forbidden403(details) if details == "no"));
}

#[test]
fn server_answers_with_encoded_bytes() {
    let server = Server::new(Config::new("localhost".to_string(), 8080), HttpHandler::new());
    assert_eq!(server.config.address(), "localhost:8080");
    assert_eq!(server.answer(b""), None);
    assert_eq!(
        server.answer(b"BREW /pot HTTP/1.1\n\n"),
        Some(b"Http/1.1 400 bad request\n\n".to_vec())
    );
    let page = server.answer(b"GET / HTTP/1.1\nHost: x\n\n").unwrap();
    assert!(page.starts_with(b"Http/1.1 200 Ok\n"));
    assert!(page.ends_with(b"</html>\n\r\n\n                "));
}

#[test]
fn addresses_write_the_port_in_decimal() {
    assert_eq!(Config::new("h".to_string(), 0).address(), "h:0");
    assert_eq!(Config::new("".to_string(), 7).address(), ":7");
    assert_eq!(Config::new("127.0.0.1".to_string(), 65535).address(), "127.0.0.1:65535");
    assert_eq!(Config::new("::1".to_string(), 4294967295).address(), "::1:4294967295");
    assert_eq!(Config::new("h".to_string(), 1000).address(), "h:1000");
}
