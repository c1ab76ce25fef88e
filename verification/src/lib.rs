//! A minimal HTTP/1.1 message layer: a request parser, a response encoder
//! with cache and cookie header synthesis, and the server's configuration.
//!
//! Every function of this crate carries a contract that Verus proves. The few
//! calls into other crates stand behind wrappers whose contracts are believed,
//! each marked as such in its documentation.

pub mod http;
pub mod tcp_server;
pub mod text;
pub mod text_map;
