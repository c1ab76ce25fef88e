//! The server's configuration, and what the server answers to the bytes that
//! a connection delivers.

use crate::http::handler::{is_page_response, HttpHandler};
use crate::http::request::parse_bytes;
use crate::http::response::Response;
use crate::http::theorems::theorem_rejection_encoding;
use crate::http::RequestFault;
use crate::text::{decimal, push_decimal};
use vstd::prelude::*;
use vstd::string::*;
use vstd::utf8::*;

verus! {

/// Where the server listens.
pub struct Config {
    pub host: String,
    pub port: u32,
}

impl Config {
    pub fn new(host: String, port: u32) -> (r: Self)
        ensures
            r.host == host,
            r.port == port,
    {
        Self { host, port }
    }

    /// The address to listen on: the host, a colon and the port in decimal.
    pub open spec fn address_text(&self) -> Seq<char> {
        self.host@ + ":"@ + decimal(self.port as nat)
    }

    /// Writes the address to listen on.
    pub fn address(&self) -> (r: String)
        ensures
            r@ == self.address_text(),
    {
        let mut out = self.host.clone();
        out.append(":");
        push_decimal(&mut out, self.port);
        out
    }
}

/// Whether `bytes` is what writing the response gives: its encoding, or
/// nothing where it cannot be written.
pub open spec fn written(response: Response, bytes: Option<Vec<u8>>) -> bool {
    if response.encodable() {
        bytes matches Some(encoded) && encoded@ == response.encoding()
    } else {
        bytes is None
    }
}

/// A server: its configuration and the handler that answers.
pub struct Server {
    pub config: Config,
    pub http_handler: HttpHandler,
}

impl Server {
    pub fn new(config: Config, http_handler: HttpHandler) -> (r: Self)
        ensures
            r.config == config,
            r.http_handler == http_handler,
    {
        Self { config, http_handler }
    }

    /// What goes back on a connection that delivered the given bytes: the
    /// encoded answer of the handler, or nothing where the peer sent nothing
    /// or the answer cannot be written.
    pub fn answer(&self, request_bytes: &[u8]) -> (r: Option<Vec<u8>>)
        ensures
            match parse_bytes(request_bytes@) {
                Ok(request) => exists|response: Response| #[trigger]
                    is_page_response(response, request.protocol) && written(response, r),
                Err(RequestFault::EmptyMessage) => r is None,
                Err(fault) => r matches Some(bytes) && bytes@ == encode_utf8(
                    "Http/1.1 400 bad request\n\n"@,
                ),
            },
    {
        match self.http_handler.handle_request(request_bytes) {
            Ok(response) => {
                proof {
                    if parse_bytes(request_bytes@) is Err {
                        theorem_rejection_encoding(response);
                    }
                }
                response.try_encode()
            },
            Err(_) => None,
        }
    }
}

} // verus!
