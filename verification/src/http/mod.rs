//! The vocabulary of HTTP messages: methods, protocol versions, statuses and
//! the error that a rejected request carries.

use vstd::prelude::*;
use vstd::string::*;

pub mod handler;
pub mod request;
pub mod response;
pub mod theorems;

verus! {

/// The request methods that the parser knows.
#[derive(Debug, Clone, Copy, PartialEq, Eq, Structural)]
pub enum HttpMethod {
    GET,
    HEAD,
    POST,
    PUT,
    DELETE,
    CONNECT,
    OPTIONS,
    TRACE,
    PATCH,
}

/// The protocol versions that the server speaks.
#[derive(Debug, Clone, Copy, PartialEq, Eq, Structural)]
pub enum Protocol {
    HTTP11,
}

impl Protocol {
    /// The protocol's name as a response's status line writes it.
    pub open spec fn name(self) -> Seq<char> {
        "Http/1.1"@
    }

    pub fn to_string(&self) -> (r: String)
        ensures
            r@ == self.name(),
    {
        match self {
            Protocol::HTTP11 => "Http/1.1".to_owned(),
        }
    }
}

/// The status of a response, and the two conditions under which a message
/// could not be read at all. A status that carries a text carries its
/// reason or its details.
#[derive(Debug, Clone)]
pub enum Status {
    OK200(String),
    NoContent204,
    PartialContent206,
    MultipleChoices300,
    MovedPermanently301,
    Found302,
    SeeOther303,
    NotModified304,
    TemporaryRedirect307,
    PermanentRedirect308,
    BadRequest400(String),
    UnAuthorized401(String),
    Forbidden403(String),
    NotFound404(String),
    ProxyAuthenticationRequired407(String),
    PreconditionFailed412,
    RequestedRangeNotSatisfiable416,
    /// The bytes received are not UTF-8 text.
    MalformedEncoding,
    /// The peer closed the connection before it sent anything.
    TCPError,
}

/// Why a request is rejected.
#[derive(Debug, Clone, Copy, PartialEq, Eq, Structural)]
pub enum RequestFault {
    /// The bytes are not well-formed UTF-8.
    MalformedEncoding,
    /// The message has no line at all: the peer sent nothing.
    EmptyMessage,
    /// The request line has fewer than two tokens, an unknown method, or a
    /// protocol other than HTTP/1.1.
    InvalidFormat,
    /// The target `*` with a method other than OPTIONS.
    AsteriskTarget,
    /// A target of the form host:port with a method other than CONNECT.
    AuthorityTarget,
    /// A body with a method other than PATCH, POST or PUT.
    UnexpectedBody,
}

impl RequestFault {
    /// Whether the fault is answered with a bad-request status.
    pub open spec fn is_bad_request(self) -> bool {
        self != RequestFault::MalformedEncoding && self != RequestFault::EmptyMessage
    }

    /// The details that a bad-request status gives of the fault.
    pub open spec fn detail(self) -> Seq<char> {
        match self {
            RequestFault::AsteriskTarget => {
                "request target '*' can only be used with OPTIONS method"@
            },
            RequestFault::AuthorityTarget => {
                "request target in the form <host>:<port> can only be used with CONNECT method"@
            },
            RequestFault::UnexpectedBody => {
                "only PATCH, POST, and PUT methods can send non-empty body"@
            },
            _ => "invalid http request format"@,
        }
    }

    /// The error that reports this fault.
    pub fn to_error(self) -> (e: HttpError)
        ensures
            e.reports(self),
    {
        let status = match self {
            RequestFault::MalformedEncoding => Status::MalformedEncoding,
            RequestFault::EmptyMessage => Status::TCPError,
            RequestFault::InvalidFormat => Status::BadRequest400(
                "invalid http request format".to_owned(),
            ),
            RequestFault::AsteriskTarget => Status::BadRequest400(
                "request target '*' can only be used with OPTIONS method".to_owned(),
            ),
            RequestFault::AuthorityTarget => Status::BadRequest400(
                "request target in the form <host>:<port> can only be used with CONNECT method".to_owned(),
            ),
            RequestFault::UnexpectedBody => Status::BadRequest400(
                "only PATCH, POST, and PUT methods can send non-empty body".to_owned(),
            ),
        };
        HttpError::new(status)
    }
}

impl Status {
    /// The status code that a response with this status shows. Every status
    /// but `OK200` is shown as a bad request.
    pub open spec fn code(&self) -> nat {
        match self {
            Status::OK200(_) => 200,
            _ => 400,
        }
    }

    /// The reason phrase beside the code: the one that `OK200` carries, and a
    /// fixed one for every other status.
    pub open spec fn reason(&self) -> Seq<char> {
        match self {
            Status::OK200(message) => message@,
            _ => "bad request"@,
        }
    }

    /// Whether this is the status that reports the given fault.
    pub open spec fn signals(&self, fault: RequestFault) -> bool {
        match fault {
            RequestFault::MalformedEncoding => self is MalformedEncoding,
            RequestFault::EmptyMessage => self is TCPError,
            _ => self matches Status::BadRequest400(details) && details@ == fault.detail(),
        }
    }
}

/// The error of a request that was not accepted: the status that says why.
#[derive(Debug, Clone)]
pub struct HttpError {
    pub status: Status,
}

impl HttpError {
    pub fn new(status: Status) -> (e: Self)
        ensures
            e.status == status,
    {
        Self { status }
    }

    /// Whether this error reports the given fault.
    pub open spec fn reports(&self, fault: RequestFault) -> bool {
        self.status.signals(fault)
    }

    /// The text of `to_string`.
    pub open spec fn message(&self) -> Seq<char> {
        match self.status {
            Status::BadRequest400(details) => "bad request; details: "@ + details@,
            _ => "internal server error; details: unidentified problem"@,
        }
    }

    /// Describes the error in one line: a bad request with its details, any
    /// other status as an internal error.
    pub fn to_string(&self) -> (r: String)
        ensures
            r@ == self.message(),
    {
        match &self.status {
            Status::BadRequest400(details) => {
                let mut out = "bad request; details: ".to_owned();
                out.append(details.as_str());
                out
            },
            _ => "internal server error; details: unidentified problem".to_owned(),
        }
    }
}

} // verus!
