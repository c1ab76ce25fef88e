//! The request parser: from the bytes of one message to a validated
//! `Request`, or to the fault for which the message is rejected.

use crate::http::{HttpError, HttpMethod, Protocol, RequestFault};
use crate::text::{
    append_chars, chars_of, concat, first_index, lemma_first_index, lines, lowercase, same_text,
    spells, split, split_lines, split_on, string_of, string_of_prefix, texts, to_lowercase,
    utf8_text,
};
use crate::text_map::{distinct_keys, has_key, TextMap};
use vstd::prelude::*;
use vstd::string::*;
use vstd::utf8::*;

verus! {

/// A request as the parser accepted it.
#[derive(Debug)]
pub struct Request {
    pub method: HttpMethod,
    pub path: String,
    pub protocol: Protocol,
    pub headers: TextMap,
    pub body: String,
}

/// What a request holds, as mathematical values.
pub struct RequestView {
    pub method: HttpMethod,
    pub path: Seq<char>,
    pub protocol: Protocol,
    /// The headers in the order in which the message gave them.
    pub headers: Seq<(Seq<char>, Seq<char>)>,
    pub body: Seq<char>,
}

impl View for Request {
    type V = RequestView;

    open spec fn view(&self) -> RequestView {
        RequestView {
            method: self.method,
            path: self.path@,
            protocol: self.protocol,
            headers: self.headers.entries(),
            body: self.body@,
        }
    }
}

/// The method that a token of the request line names.
pub open spec fn method_of(token: Seq<char>) -> Option<HttpMethod> {
    if token == "GET"@ {
        Some(HttpMethod::GET)
    } else if token == "HEAD"@ {
        Some(HttpMethod::HEAD)
    } else if token == "POST"@ {
        Some(HttpMethod::POST)
    } else if token == "PUT"@ {
        Some(HttpMethod::PUT)
    } else if token == "DELETE"@ {
        Some(HttpMethod::DELETE)
    } else if token == "CONNECT"@ {
        Some(HttpMethod::CONNECT)
    } else if token == "OPTIONS"@ {
        Some(HttpMethod::OPTIONS)
    } else if token == "TRACE"@ {
        Some(HttpMethod::TRACE)
    } else if token == "PATCH"@ {
        Some(HttpMethod::PATCH)
    } else {
        None
    }
}

/// The header names that a request keeps, in lower case. Every other header
/// is dropped.
pub open spec fn is_recognized_header(name: Seq<char>) -> bool {
    ||| name == "accept"@
    ||| name == "accept-encoding"@
    ||| name == "accept-language"@
    ||| name == "authorization"@
    ||| name == "cookie"@
    ||| name == "content-length"@
    ||| name == "content-type"@
    ||| name == "host"@
    ||| name == "if-match"@
    ||| name == "if-modified-since"@
    ||| name == "if-none-match"@
    ||| name == "if-range"@
    ||| name == "if-unmodified-since"@
    ||| name == "location"@
    ||| name == "pragma"@
    ||| name == "proxy-authorization"@
    ||| name == "ranges"@
    ||| name == "user-agent"@
}

/// What the request line gives: the method, the target and the protocol. The
/// line is split at single spaces. It needs a known method and a target; a
/// third token, if there is one, must be `HTTP/1.1`; further tokens are not
/// looked at.
pub open spec fn request_line(line: Seq<char>) -> Option<(HttpMethod, Seq<char>, Protocol)> {
    let tokens = split(line, ' ');
    if tokens.len() < 2 {
        None
    } else if method_of(tokens[0]) is None {
        None
    } else if tokens.len() >= 3 && tokens[2] != "HTTP/1.1"@ {
        None
    } else {
        Some((method_of(tokens[0])->0, tokens[1], Protocol::HTTP11))
    }
}

/// A header name without the colons that end it.
pub open spec fn trim_colons(name: Seq<char>) -> Seq<char>
    decreases name.len(),
{
    if name.len() > 0 && name.last() == ':' {
        trim_colons(name.drop_last())
    } else {
        name
    }
}

/// The header that a line gives, if it gives one: the line has exactly two
/// tokens between single spaces, the first ends with a colon, and its name,
/// without the colon and in lower case, is a recognized one.
pub open spec fn header_entry(line: Seq<char>) -> Option<(Seq<char>, Seq<char>)> {
    let tokens = split(line, ' ');
    if tokens.len() == 2 && tokens[0].len() > 0 && tokens[0].last() == ':' {
        let name = lowercase(trim_colons(tokens[0]));
        if is_recognized_header(name) {
            Some((name, tokens[1]))
        } else {
            None
        }
    } else {
        None
    }
}

/// The headers that the given lines give, in their order. Of two lines with
/// the same name the first wins.
pub open spec fn collect_headers(lines: Seq<Seq<char>>) -> Seq<(Seq<char>, Seq<char>)>
    decreases lines.len(),
{
    if lines.len() == 0 {
        Seq::empty()
    } else {
        let before = collect_headers(lines.drop_last());
        match header_entry(lines.last()) {
            Some(entry) => if has_key(before, entry.0) {
                before
            } else {
                before.push(entry)
            },
            None => before,
        }
    }
}

/// The headers collected from any lines have recognized names, and no name
/// twice.
pub proof fn lemma_collected_headers(ls: Seq<Seq<char>>)
    ensures
        distinct_keys(collect_headers(ls)),
        forall|i: int|
            0 <= i < collect_headers(ls).len() ==> is_recognized_header(
                (#[trigger] collect_headers(ls)[i]).0,
            ),
    decreases ls.len(),
{
    if ls.len() > 0 {
        lemma_collected_headers(ls.drop_last());
        let before = collect_headers(ls.drop_last());
        let after = collect_headers(ls);
        match header_entry(ls.last()) {
            Some(entry) => {
                if !has_key(before, entry.0) {
                    assert(after == before.push(entry));
                    assert forall|i: int, j: int| 0 <= i < j < after.len() implies (
                    #[trigger] after[i]).0 != (#[trigger] after[j]).0 by {
                        if j < before.len() {
                            assert(before[i].0 != before[j].0);
                        } else {
                            assert(before[i].0 != entry.0);
                        }
                    }
                }
            },
            None => {},
        }
    }
}

/// The position of the blank line that ends the headers, or the number of
/// lines where there is none. The request line is not looked at.
pub open spec fn header_end(lines: Seq<Seq<char>>) -> int {
    1 + first_index(lines.subrange(1, lines.len() as int), Seq::<char>::empty())
}

/// The pattern of a target in authority form: a host and a port.
pub open spec fn authority_pattern() -> Seq<char> {
    "(?<host>[a-z0-9\\.]+):(?<port>\\d+)"@
}

/// What the regular expression engine answers when asked whether `pattern`
/// matches somewhere in `text`: nothing where it does not accept the
/// pattern.
pub uninterp spec fn regex_search(pattern: Seq<char>, text: Seq<char>) -> Option<bool>;

/// Believed, not proved: `regex::Regex::new` compiles the pattern or
/// refuses it, and `Regex::is_match` says whether the compiled pattern
/// matches anywhere in the text; both depend on their arguments alone.
#[verifier::external_body]
fn regex_is_match(pattern: &str, text: &str) -> (r: Option<bool>)
    ensures
        r == regex_search(pattern@, text@),
{
    match regex::Regex::new(pattern) {
        Ok(re) => Some(re.is_match(text)),
        Err(_) => None,
    }
}

/// Whether a target is in asterisk form.
pub open spec fn is_asterisk_form(path: Seq<char>) -> bool {
    path == "*"@
}

/// Whether a target is in authority form: it is not the asterisk, and the
/// authority pattern matches somewhere in it.
pub open spec fn is_authority_form(path: Seq<char>) -> bool {
    !is_asterisk_form(path) && regex_search(authority_pattern(), path) == Some(true)
}

/// Whether a request with this method may carry a body.
pub open spec fn carries_body(method: HttpMethod) -> bool {
    method == HttpMethod::PATCH || method == HttpMethod::POST || method == HttpMethod::PUT
}

/// The first rule that a request breaks, if it breaks one: the asterisk form
/// is for OPTIONS, the authority form for CONNECT, a body for PATCH, POST and
/// PUT.
pub open spec fn fault_of(request: RequestView) -> Option<RequestFault> {
    if is_asterisk_form(request.path) && request.method != HttpMethod::OPTIONS {
        Some(RequestFault::AsteriskTarget)
    } else if is_authority_form(request.path) && request.method != HttpMethod::CONNECT {
        Some(RequestFault::AuthorityTarget)
    } else if request.body.len() > 0 && !carries_body(request.method) {
        Some(RequestFault::UnexpectedBody)
    } else {
        None
    }
}

/// The headers of a message, given its lines: what the lines between the
/// request line and the first blank line give.
pub open spec fn headers_of(ls: Seq<Seq<char>>) -> Seq<(Seq<char>, Seq<char>)> {
    collect_headers(ls.subrange(1, header_end(ls)))
}

/// The body of a message, given its lines: the lines after the first blank
/// line, one after the other with nothing between them.
pub open spec fn body_of(ls: Seq<Seq<char>>) -> Seq<char> {
    let end = header_end(ls);
    if end < ls.len() {
        concat(ls.subrange(end + 1, ls.len() as int))
    } else {
        Seq::empty()
    }
}

/// The request that a text holds. The first line is the request line, the
/// lines up to the first blank one are headers, and the lines after it are
/// the body. A text without a line holds no message, and a request that
/// breaks a rule on targets and bodies is rejected.
pub open spec fn parse_text(text: Seq<char>) -> Result<RequestView, RequestFault> {
    let ls = lines(text);
    if ls.len() == 0 {
        Err(RequestFault::EmptyMessage)
    } else {
        match request_line(ls[0]) {
            None => Err(RequestFault::InvalidFormat),
            Some((method, path, protocol)) => {
                let request = RequestView {
                    method,
                    path,
                    protocol,
                    headers: headers_of(ls),
                    body: body_of(ls),
                };
                match fault_of(request) {
                    Some(fault) => Err(fault),
                    None => Ok(request),
                }
            },
        }
    }
}

/// The request that the bytes of a message hold: they are UTF-8 text, and the
/// text holds a request.
pub open spec fn parse_bytes(bytes: Seq<u8>) -> Result<RequestView, RequestFault> {
    if valid_utf8(bytes) {
        parse_text(decode_utf8(bytes))
    } else {
        Err(RequestFault::MalformedEncoding)
    }
}

fn method_from(token: &Vec<char>) -> (r: Option<HttpMethod>)
    ensures
        r == method_of(token@),
{
    if spells(token, "GET") {
        Some(HttpMethod::GET)
    } else if spells(token, "HEAD") {
        Some(HttpMethod::HEAD)
    } else if spells(token, "POST") {
        Some(HttpMethod::POST)
    } else if spells(token, "PUT") {
        Some(HttpMethod::PUT)
    } else if spells(token, "DELETE") {
        Some(HttpMethod::DELETE)
    } else if spells(token, "CONNECT") {
        Some(HttpMethod::CONNECT)
    } else if spells(token, "OPTIONS") {
        Some(HttpMethod::OPTIONS)
    } else if spells(token, "TRACE") {
        Some(HttpMethod::TRACE)
    } else if spells(token, "PATCH") {
        Some(HttpMethod::PATCH)
    } else {
        None
    }
}

fn recognized_header(name: &str) -> (r: bool)
    ensures
        r == is_recognized_header(name@),
{
    same_text(name, "accept") || same_text(name, "accept-encoding") || same_text(
        name,
        "accept-language",
    ) || same_text(name, "authorization") || same_text(name, "cookie") || same_text(
        name,
        "content-length",
    ) || same_text(name, "content-type") || same_text(name, "host") || same_text(name, "if-match")
        || same_text(name, "if-modified-since") || same_text(name, "if-none-match") || same_text(
        name,
        "if-range",
    ) || same_text(name, "if-unmodified-since") || same_text(name, "location") || same_text(
        name,
        "pragma",
    ) || same_text(name, "proxy-authorization") || same_text(name, "ranges") || same_text(
        name,
        "user-agent",
    )
}

fn parse_request_line(line: &Vec<char>) -> (r: Option<(HttpMethod, String, Protocol)>)
    ensures
        r is Some <==> request_line(line@) is Some,
        r matches Some(found) ==> (found.0, found.1@, found.2) == request_line(line@)->0,
{
    let tokens = split_on(line, ' ');
    assert(forall|i: int| 0 <= i < tokens.len() ==> tokens[i]@ == #[trigger] texts(tokens@)[i]);
    if tokens.len() < 2 {
        return None;
    }
    let method = match method_from(&tokens[0]) {
        Some(method) => method,
        None => {
            return None;
        },
    };
    if tokens.len() >= 3 && !spells(&tokens[2], "HTTP/1.1") {
        return None;
    }
    Some((method, string_of(&tokens[1]), Protocol::HTTP11))
}

fn parse_header(line: &Vec<char>) -> (r: Option<(String, String)>)
    ensures
        r is Some <==> header_entry(line@) is Some,
        r matches Some(found) ==> (found.0@, found.1@) == header_entry(line@)->0,
{
    let tokens = split_on(line, ' ');
    assert(forall|i: int| 0 <= i < tokens.len() ==> tokens[i]@ == #[trigger] texts(tokens@)[i]);
    if tokens.len() != 2 {
        return None;
    }
    let name = &tokens[0];
    if name.len() == 0 || name[name.len() - 1] != ':' {
        return None;
    }
    let mut end: usize = name.len();
    assert(name@.subrange(0, end as int) == name@);
    while end > 0 && name[end - 1] == ':'
        invariant
            end <= name.len(),
            trim_colons(name@) == trim_colons(name@.subrange(0, end as int)),
        decreases end,
    {
        assert(name@.subrange(0, end as int).drop_last() == name@.subrange(0, end - 1));
        end -= 1;
    }
    let trimmed = string_of_prefix(name, end);
    let key = to_lowercase(trimmed.as_str());
    if recognized_header(key.as_str()) {
        Some((key, string_of(&tokens[1])))
    } else {
        None
    }
}

/// Splits the bytes of a message into its lines: the step before any
/// parsing. Bytes that are not UTF-8 are refused, and so is a message without
/// a line.
pub fn message_lines(bytes: &[u8]) -> (r: Result<Vec<Vec<char>>, RequestFault>)
    ensures
        match r {
            Ok(ls) => valid_utf8(bytes@) && texts(ls@) == lines(decode_utf8(bytes@)) && ls.len()
                > 0,
            Err(fault) => if valid_utf8(bytes@) {
                fault == RequestFault::EmptyMessage && lines(decode_utf8(bytes@)).len() == 0
            } else {
                fault == RequestFault::MalformedEncoding
            },
        },
{
    let text = match utf8_text(bytes) {
        Some(text) => text,
        None => {
            return Err(RequestFault::MalformedEncoding);
        },
    };
    let chars = chars_of(text);
    let ls = split_lines(&chars);
    if ls.len() == 0 {
        return Err(RequestFault::EmptyMessage);
    }
    Ok(ls)
}

/// Collects the headers from the lines after the request line, up to the
/// first blank line, and says where that line is.
fn read_headers(ls: &Vec<Vec<char>>) -> (r: (TextMap, usize))
    requires
        ls.len() > 0,
    ensures
        r.0.wf(),
        r.0.entries() == headers_of(texts(ls@)),
        r.1 == header_end(texts(ls@)),
        1 <= r.1 <= ls.len(),
        forall|name: Seq<char>| has_key(r.0.entries(), name) ==> is_recognized_header(name),
{
    let ghost all = texts(ls@);
    let mut headers = TextMap::new();
    let mut end: usize = 1;
    assert(all.subrange(1, 1) == Seq::<Seq<char>>::empty());
    while end < ls.len() && ls[end].len() != 0
        invariant
            1 <= end <= ls.len(),
            all == texts(ls@),
            forall|i: int| 1 <= i < end ==> all[i] != Seq::<char>::empty(),
            headers.wf(),
            headers.entries() == collect_headers(all.subrange(1, end as int)),
        decreases ls.len() - end,
    {
        proof {
            let upto = all.subrange(1, end + 1);
            assert(upto.drop_last() == all.subrange(1, end as int));
            assert(upto.last() == ls[end as int]@);
            assert(all[end as int].len() != 0);
        }
        match parse_header(&ls[end]) {
            Some((key, value)) => {
                headers.insert_if_absent(key, value);
            },
            None => {},
        }
        end += 1;
    }
    proof {
        let rest = all.subrange(1, all.len() as int);
        assert forall|j: int| 0 <= j < end - 1 implies rest[j] != Seq::<char>::empty() by {
            assert(rest[j] == all[j + 1]);
        }
        if end < ls.len() {
            assert(rest[end - 1] == all[end as int]);
            assert(all[end as int] =~= Seq::<char>::empty());
        }
        lemma_first_index(rest, Seq::<char>::empty(), end - 1);
        lemma_collected_headers(all.subrange(1, end as int));
    }
    (headers, end)
}

/// Joins the lines after the blank line at `end` into the body.
fn read_body(ls: &Vec<Vec<char>>, end: usize) -> (body: String)
    requires
        end == header_end(texts(ls@)),
        1 <= end <= ls.len(),
    ensures
        body@ == body_of(texts(ls@)),
{
    let ghost all = texts(ls@);
    let mut body = String::new();
    if end < ls.len() {
        let mut next: usize = end + 1;
        assert(all.subrange(end + 1, end + 1) == Seq::<Seq<char>>::empty());
        assert(concat(Seq::<Seq<char>>::empty()) == Seq::<char>::empty());
        while next < ls.len()
            invariant
                end < next <= ls.len(),
                all == texts(ls@),
                body@ == concat(all.subrange(end + 1, next as int)),
            decreases ls.len() - next,
        {
            proof {
                let upto = all.subrange(end + 1, next + 1);
                assert(upto.drop_last() == all.subrange(end + 1, next as int));
                assert(upto.last() == ls[next as int]@);
            }
            append_chars(&mut body, &ls[next]);
            next += 1;
        }
    }
    body
}

impl Request {
    /// A request's invariant: it keeps the rules on targets and bodies, and
    /// no header name occurs twice.
    pub open spec fn wf(&self) -> bool {
        fault_of(self@) is None && self.headers.wf()
    }

    /// Parses the bytes of one message into a validated request.
    ///
    /// The error reports the fault for which the message is rejected: bytes
    /// that are not UTF-8, a message without a line, a malformed request line,
    /// or a broken rule on targets and bodies.
    pub fn parse(bytes: &[u8]) -> (r: Result<Request, HttpError>)
        ensures
            match r {
                Ok(request) => parse_bytes(bytes@) == Ok::<RequestView, RequestFault>(request@)
                    && request.wf() && forall|name: Seq<char>|
                    has_key(request@.headers, name) ==> is_recognized_header(name),
                Err(error) => parse_bytes(bytes@) is Err && error.reports(
                    parse_bytes(bytes@)->Err_0,
                ),
            },
    {
        match Request::try_parse(bytes) {
            Ok(request) => Ok(request),
            Err(fault) => Err(fault.to_error()),
        }
    }

    /// Parses the bytes of one message into a validated request, or names the
    /// fault for which the message is rejected.
    pub fn try_parse(bytes: &[u8]) -> (r: Result<Request, RequestFault>)
        ensures
            match r {
                Ok(request) => parse_bytes(bytes@) == Ok::<RequestView, RequestFault>(request@)
                    && request.wf() && forall|name: Seq<char>|
                    has_key(request@.headers, name) ==> is_recognized_header(name),
                Err(fault) => parse_bytes(bytes@) == Err::<RequestView, RequestFault>(fault),
            },
    {
        let ls = match message_lines(bytes) {
            Ok(ls) => ls,
            Err(fault) => {
                return Err(fault);
            },
        };
        assert(ls[0]@ == texts(ls@)[0]);
        let (method, path, protocol) = match parse_request_line(&ls[0]) {
            Some(found) => found,
            None => {
                return Err(RequestFault::InvalidFormat);
            },
        };
        let (headers, end) = read_headers(&ls);
        let body = read_body(&ls, end);
        let request = Request { method, path, protocol, headers, body };
        match request.fault() {
            Some(fault) => Err(fault),
            None => Ok(request),
        }
    }

    /// The first rule on targets and bodies that the request breaks, if it
    /// breaks one.
    pub fn fault(&self) -> (r: Option<RequestFault>)
        ensures
            r == fault_of(self@),
    {
        let asterisk = same_text(self.path.as_str(), "*");
        if asterisk && self.method != HttpMethod::OPTIONS {
            return Some(RequestFault::AsteriskTarget);
        }
        if !asterisk && self.method != HttpMethod::CONNECT {
            let found = regex_is_match("(?<host>[a-z0-9\\.]+):(?<port>\\d+)", self.path.as_str());
            if found == Some(true) {
                return Some(RequestFault::AuthorityTarget);
            }
        }
        let with_body = self.method == HttpMethod::PATCH || self.method == HttpMethod::POST
            || self.method == HttpMethod::PUT;
        if !with_body && !self.body.as_str().is_empty() {
            return Some(RequestFault::UnexpectedBody);
        }
        None
    }

    /// Checks the rules on targets and bodies: the asterisk form is for
    /// OPTIONS, the authority form for CONNECT, a body for PATCH, POST and PUT.
    pub fn validate(&self) -> (r: Result<(), HttpError>)
        ensures
            match r {
                Ok(_) => fault_of(self@) is None,
                Err(error) => fault_of(self@) matches Some(fault) && error.reports(fault),
            },
    {
        match self.fault() {
            Some(fault) => Err(fault.to_error()),
            None => Ok(()),
        }
    }
}

/// The request that a message holds when read the plain way: at least three
/// lines, and on the first exactly `GET`, a target and `HTTP/1.1` between
/// single spaces. Headers and body are not looked at.
pub open spec fn plain_request(text: Seq<char>) -> Option<RequestView> {
    let ls = lines(text);
    if ls.len() < 3 {
        None
    } else {
        let tokens = split(ls[0], ' ');
        if tokens.len() == 3 && tokens[0] == "GET"@ && tokens[2] == "HTTP/1.1"@ {
            Some(
                RequestView {
                    method: HttpMethod::GET,
                    path: tokens[1],
                    protocol: Protocol::HTTP11,
                    headers: Seq::empty(),
                    body: Seq::empty(),
                },
            )
        } else {
            None
        }
    }
}

/// Reads a GET request the plain way, taking nothing but the request line
/// from the message. Any other message is refused with one fixed complaint.
pub fn parse_http_message(message: String) -> (r: Result<Request, String>)
    ensures
        match r {
            Ok(request) => plain_request(message@) == Some(request@) && request.headers.wf(),
            Err(complaint) => plain_request(message@) is None && complaint@
                == "invalid http request format"@,
        },
{
    let chars = chars_of(message.as_str());
    let ls = split_lines(&chars);
    assert(forall|i: int| 0 <= i < ls.len() ==> ls[i]@ == #[trigger] texts(ls@)[i]);
    if ls.len() < 3 {
        return Err("invalid http request format".to_owned());
    }
    let tokens = split_on(&ls[0], ' ');
    assert(forall|i: int| 0 <= i < tokens.len() ==> tokens[i]@ == #[trigger] texts(tokens@)[i]);
    if tokens.len() != 3 || !spells(&tokens[0], "GET") || !spells(&tokens[2], "HTTP/1.1") {
        return Err("invalid http request format".to_owned());
    }
    Ok(
        Request {
            method: HttpMethod::GET,
            path: string_of(&tokens[1]),
            protocol: Protocol::HTTP11,
            headers: TextMap::new(),
            body: String::new(),
        },
    )
}

} // verus!
