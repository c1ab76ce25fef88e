//! The handler that answers every well-formed request with one fixed page.

use crate::http::request::{parse_bytes, Request};
use crate::http::response::{is_hyphenated_uuid, CacheOptions, Cookies, Response};
use crate::http::{HttpError, Protocol, RequestFault, Status};
use crate::text_map::TextMap;
use vstd::prelude::*;
use vstd::string::*;
use vstd::utf8::*;

verus! {

/// The page that the handler serves.
pub open spec fn page() -> Seq<char> {
    "\r\n
<html>
    <head>
        <title>
            heyya
        </title>
    </head>
    <body>
        hey this is my own http server written in Rust!
    </body>
</html>
\r\n
                "@
}

/// Whether a response is the handler's answer to a well-formed request with
/// the given protocol: the page, as HTML, with the handler's two cookies and
/// the default cache policy.
pub open spec fn is_page_response(response: Response, protocol: Protocol) -> bool {
    &&& response.protocol == protocol
    &&& response.status matches Status::OK200(message) && message@ == "Ok"@
    &&& response.headers.entries() == seq![("Content-Type"@, "text/html"@)]
    &&& response.cookies matches Some(cookies) && {
        &&& cookies.values.entries() == seq![
            ("best-movie"@, "how to train your dragon"@),
            ("the-second-best-movie"@, "hangover trilogy"@),
        ]
        &&& cookies.max_age is None
        &&& cookies.secure
        &&& cookies.http_only
        &&& cookies.domain is None
        &&& cookies.path matches Some(path) && path@ == "/"@
        &&& cookies.same_site is None
    }
    &&& response.cache_options matches Some(options) && {
        &&& options.max_age is None
        &&& options.no_cache
        &&& !options.no_store
        &&& !options.immutable
        &&& !options.private
        &&& !options.public
        &&& is_hyphenated_uuid(options.etag@)
    }
    &&& response.body@ == encode_utf8(page())
}

/// Whether a response is the handler's answer to a rejected request: the
/// error's status and nothing else.
pub open spec fn is_rejection(response: Response, status: Status) -> bool {
    &&& response.protocol == Protocol::HTTP11
    &&& response.status == status
    &&& response.headers.entries().len() == 0
    &&& response.cookies is None
    &&& response.cache_options is None
    &&& response.body@.len() == 0
}

/// Answers parsed messages.
pub struct HttpHandler {}

impl HttpHandler {
    pub fn new() -> (r: Self)
        ensures
            r == (HttpHandler {  }),
    {
        Self {  }
    }

    /// Answers the outcome of parsing a message. A request gets the page. An
    /// error gets a response with its status, but for the one that says that
    /// the peer sent nothing: that one is handed back, for there is nobody to
    /// answer.
    pub fn respond(&self, parsed: Result<Request, HttpError>) -> (r: Result<Response, HttpError>)
        ensures
            match parsed {
                Ok(request) => r matches Ok(response) && is_page_response(
                    response,
                    request.protocol,
                ),
                Err(error) => if error.status is TCPError {
                    r matches Err(same) && same == error
                } else {
                    r matches Ok(response) && is_rejection(response, error.status)
                },
            },
    {
        match parsed {
            Ok(request) => {
                let mut cookie_values = TextMap::new();
                cookie_values.insert_if_absent(
                    "best-movie".to_owned(),
                    "how to train your dragon".to_owned(),
                );
                proof {
                    reveal_strlit("best-movie");
                    reveal_strlit("the-second-best-movie");
                    assert("best-movie"@.len() != "the-second-best-movie"@.len());
                }
                cookie_values.insert_if_absent(
                    "the-second-best-movie".to_owned(),
                    "hangover trilogy".to_owned(),
                );
                let mut common_headers = TextMap::new();
                common_headers.insert_if_absent("Content-Type".to_owned(), "text/html".to_owned());
                let body = "\r\n
<html>
    <head>
        <title>
            heyya
        </title>
    </head>
    <body>
        hey this is my own http server written in Rust!
    </body>
</html>
\r\n
                ".as_bytes_vec();
                let cookies = Cookies::new(
                    cookie_values,
                    None,
                    true,
                    true,
                    None,
                    Some("/".to_owned()),
                    None,
                );
                let response = Response::new(
                    request.protocol,
                    Status::OK200("Ok".to_owned()),
                    common_headers,
                    Some(cookies),
                    Some(CacheOptions::new_default()),
                    Some(body),
                );
                proof {
                    assert(response.headers.entries() =~= seq![("Content-Type"@, "text/html"@)]);
                    assert(response.cookies->0.values.entries() =~= seq![
                        ("best-movie"@, "how to train your dragon"@),
                        ("the-second-best-movie"@, "hangover trilogy"@),
                    ]);
                }
                Ok(response)
            },
            Err(error) => {
                match error.status {
                    Status::TCPError => Err(error),
                    _ => Ok(
                        Response::new(
                            Protocol::HTTP11,
                            error.status,
                            TextMap::new(),
                            None,
                            None,
                            None,
                        ),
                    ),
                }
            },
        }
    }

    /// Parses the bytes of one message and answers it.
    pub fn handle_request(&self, request_bytes: &[u8]) -> (r: Result<Response, HttpError>)
        ensures
            match parse_bytes(request_bytes@) {
                Ok(request) => r matches Ok(response) && is_page_response(
                    response,
                    request.protocol,
                ),
                Err(RequestFault::EmptyMessage) => r matches Err(error) && error.reports(
                    RequestFault::EmptyMessage,
                ),
                Err(fault) => r matches Ok(response) && response.status.signals(fault)
                    && is_rejection(response, response.status),
            },
    {
        self.respond(Request::parse(request_bytes))
    }
}

} // verus!
