//! What holds of every request and every response, proved from the
//! definitions of the parser and the encoder.

use crate::http::request::{
    body_of, carries_body, collect_headers, fault_of, header_end, header_entry, headers_of,
    is_asterisk_form, is_authority_form, is_recognized_header, lemma_collected_headers, method_of,
    parse_bytes, parse_text, request_line, RequestView,
};
use crate::http::response::{
    cookie_pairs, same_site_attribute, CacheOptions, Cookies, Response,
};
use crate::http::{HttpMethod, Protocol, RequestFault, Status};
use crate::text::{decimal, lemma_first_index, lines, lowercase, split};
use crate::text_map::{distinct_keys, has_key};
use vstd::prelude::*;
use vstd::string::*;
use vstd::utf8::*;

verus! {

/// The token that names a method on the request line.
pub open spec fn method_name(method: HttpMethod) -> Seq<char> {
    match method {
        HttpMethod::GET => "GET"@,
        HttpMethod::HEAD => "HEAD"@,
        HttpMethod::POST => "POST"@,
        HttpMethod::PUT => "PUT"@,
        HttpMethod::DELETE => "DELETE"@,
        HttpMethod::CONNECT => "CONNECT"@,
        HttpMethod::OPTIONS => "OPTIONS"@,
        HttpMethod::TRACE => "TRACE"@,
        HttpMethod::PATCH => "PATCH"@,
    }
}

/// The request line of a method and a target under HTTP/1.1.
pub open spec fn request_line_text(method: HttpMethod, path: Seq<char>) -> Seq<char> {
    method_name(method) + " "@ + path + " "@ + "HTTP/1.1"@
}

/// A request without headers and body.
pub open spec fn bare_request(method: HttpMethod, path: Seq<char>) -> RequestView {
    RequestView {
        method,
        path,
        protocol: Protocol::HTTP11,
        headers: Seq::empty(),
        body: Seq::empty(),
    }
}

proof fn lemma_method_names(method: HttpMethod)
    ensures
        method_of(method_name(method)) == Some(method),
        forall|i: int|
            0 <= i < method_name(method).len() ==> method_name(method)[i] != ' ' && method_name(
                method,
            )[i] != '\n',
{
    reveal_strlit("GET");
    reveal_strlit("HEAD");
    reveal_strlit("POST");
    reveal_strlit("PUT");
    reveal_strlit("DELETE");
    reveal_strlit("CONNECT");
    reveal_strlit("OPTIONS");
    reveal_strlit("TRACE");
    reveal_strlit("PATCH");
    let name = method_name(method);
    assert("GET"@[0] == 'G' && "HEAD"@[0] == 'H' && "DELETE"@[0] == 'D' && "CONNECT"@[0] == 'C'
        && "OPTIONS"@[0] == 'O' && "TRACE"@[0] == 'T');
    assert("POST"@[1] == 'O' && "PUT"@[1] == 'U' && "PATCH"@[1] == 'A');
}

/// Parsing the request line of a method and a target gives back the method
/// and the target, with no header and no body: for every method, and every
/// target without a space or a line feed that the rules on targets allow
/// with the method.
pub proof fn theorem_request_line_round_trip(method: HttpMethod, path: Seq<char>)
    requires
        forall|i: int| 0 <= i < path.len() ==> path[i] != ' ' && path[i] != '\n',
        fault_of(bare_request(method, path)) is None,
    ensures
        parse_text(request_line_text(method, path)) == Ok::<RequestView, RequestFault>(
            bare_request(method, path),
        ),
        parse_bytes(encode_utf8(request_line_text(method, path))) == Ok::<
            RequestView,
            RequestFault,
        >(bare_request(method, path)),
{
    let name = method_name(method);
    let protocol = "HTTP/1.1"@;
    let text = request_line_text(method, path);
    lemma_method_names(method);
    reveal_strlit("HTTP/1.1");
    reveal_strlit(" ");
    let tail = path + " "@ + protocol;
    assert(text == name + " "@ + tail);
    assert(text.len() > 0);
    // The text is one line.
    lemma_first_index(text, '\n', text.len() as int);
    let ls = lines(text);
    assert(ls == seq![text]);
    // The line has three tokens.
    lemma_first_index(text, ' ', name.len() as int);
    assert(text.subrange(0, name.len() as int) == name);
    assert(text.subrange(name.len() as int + 1, text.len() as int) == tail);
    lemma_first_index(tail, ' ', path.len() as int);
    assert(tail.subrange(0, path.len() as int) == path);
    assert(tail.subrange(path.len() as int + 1, tail.len() as int) == protocol);
    lemma_first_index(protocol, ' ', protocol.len() as int);
    assert(split(protocol, ' ') == seq![protocol]);
    assert(split(tail, ' ') == seq![path] + seq![protocol]);
    assert(split(text, ' ') == seq![name] + (seq![path] + seq![protocol]));
    let tokens = split(text, ' ');
    assert(tokens.len() == 3 && tokens[0] == name && tokens[1] == path && tokens[2] == protocol);
    assert(request_line(ls[0]) == Some((method, path, Protocol::HTTP11)));
    // There is no header and no body.
    assert(ls.subrange(1, 1) == Seq::<Seq<char>>::empty());
    assert(header_end(ls) == 1);
    assert(headers_of(ls) == Seq::<(Seq<char>, Seq<char>)>::empty());
    assert(body_of(ls) == Seq::<char>::empty());
    theorem_bytes_of_text(text);
}

/// The bytes that encode a text parse as the text does.
pub proof fn theorem_bytes_of_text(text: Seq<char>)
    ensures
        parse_bytes(encode_utf8(text)) == parse_text(text),
{
    encode_utf8_valid_utf8(text);
    encode_utf8_decode_utf8(text);
}

/// The method on the request line of a message that has a well-formed one.
pub open spec fn method_asked(text: Seq<char>) -> HttpMethod {
    let found = request_line(lines(text)[0])->0;
    found.0
}

/// The target on the request line of a message that has a well-formed one.
pub open spec fn target_asked(text: Seq<char>) -> Seq<char> {
    let found = request_line(lines(text)[0])->0;
    found.1
}

/// A message whose target is `*` is rejected for its target where the method
/// is not OPTIONS. With OPTIONS it is accepted unless it has a body.
pub proof fn theorem_asterisk_target(text: Seq<char>)
    requires
        lines(text).len() > 0,
        request_line(lines(text)[0]) matches Some(found) && is_asterisk_form(found.1),
    ensures
        method_asked(text) != HttpMethod::OPTIONS ==> parse_text(text) == Err::<
            RequestView,
            RequestFault,
        >(RequestFault::AsteriskTarget),
        method_asked(text) == HttpMethod::OPTIONS ==> (parse_text(text) is Ok
            <==> body_of(lines(text)).len() == 0),
        method_asked(text) == HttpMethod::OPTIONS && body_of(lines(text)).len() > 0
            ==> parse_text(text) == Err::<RequestView, RequestFault>(RequestFault::UnexpectedBody),
{
}

/// A message whose target is in authority form is rejected for its target
/// where the method is not CONNECT. With CONNECT it is accepted unless it has
/// a body.
pub proof fn theorem_authority_target(text: Seq<char>)
    requires
        lines(text).len() > 0,
        request_line(lines(text)[0]) matches Some(found) && is_authority_form(found.1),
    ensures
        method_asked(text) != HttpMethod::CONNECT ==> parse_text(text) == Err::<
            RequestView,
            RequestFault,
        >(RequestFault::AuthorityTarget),
        method_asked(text) == HttpMethod::CONNECT ==> (parse_text(text) is Ok
            <==> body_of(lines(text)).len() == 0),
{
}

/// A message with a body is rejected where the method is none of PATCH, POST
/// and PUT. With one of them it is accepted unless its target is `*` or in
/// authority form.
pub proof fn theorem_body_needs_method(text: Seq<char>)
    requires
        lines(text).len() > 0,
        request_line(lines(text)[0]) is Some,
        body_of(lines(text)).len() > 0,
    ensures
        !carries_body(method_asked(text)) ==> parse_text(text) is Err,
        carries_body(method_asked(text)) ==> (parse_text(text) is Ok
            <==> !is_asterisk_form(target_asked(text)) && !is_authority_form(
            target_asked(text),
        )),
{
}

/// A request that was accepted keeps its three rules: the target `*` goes
/// with OPTIONS, a target in authority form with CONNECT, and a body with
/// PATCH, POST or PUT.
pub proof fn theorem_accepted_requests_are_valid(text: Seq<char>)
    requires
        parse_text(text) is Ok,
    ensures
        is_asterisk_form(parse_text(text)->Ok_0.path) ==> parse_text(text)->Ok_0.method
            == HttpMethod::OPTIONS,
        is_authority_form(parse_text(text)->Ok_0.path) ==> parse_text(text)->Ok_0.method
            == HttpMethod::CONNECT,
        parse_text(text)->Ok_0.body.len() > 0 ==> carries_body(parse_text(text)->Ok_0.method),
{
}

/// A request that was accepted has no header under a name that is not
/// recognized, whatever the message held: none named `x-custom`, for one.
pub proof fn theorem_unknown_headers_are_dropped(text: Seq<char>, name: Seq<char>)
    requires
        parse_text(text) is Ok,
    ensures
        !is_recognized_header(name) ==> !has_key(parse_text(text)->Ok_0.headers, name),
        !has_key(parse_text(text)->Ok_0.headers, "x-custom"@),
        distinct_keys(parse_text(text)->Ok_0.headers),
{
    let ls = lines(text);
    lemma_collected_headers(ls.subrange(1, header_end(ls)));
    lemma_x_custom_is_unknown();
}

proof fn lemma_x_custom_is_unknown()
    ensures
        !is_recognized_header("x-custom"@),
{
    reveal_strlit("x-custom");
    reveal_strlit("accept");
    reveal_strlit("accept-encoding");
    reveal_strlit("accept-language");
    reveal_strlit("authorization");
    reveal_strlit("cookie");
    reveal_strlit("content-length");
    reveal_strlit("content-type");
    reveal_strlit("host");
    reveal_strlit("if-match");
    reveal_strlit("if-modified-since");
    reveal_strlit("if-none-match");
    reveal_strlit("if-range");
    reveal_strlit("if-unmodified-since");
    reveal_strlit("location");
    reveal_strlit("pragma");
    reveal_strlit("proxy-authorization");
    reveal_strlit("ranges");
    reveal_strlit("user-agent");
    assert("x-custom"@[0] == 'x');
    assert("if-match"@[0] == 'i' && "if-range"@[0] == 'i' && "location"@[0] == 'l');
}

/// The encoding of two texts one after the other is the encoding of the
/// first followed by that of the second.
pub proof fn lemma_encode_utf8_concat(a: Seq<char>, b: Seq<char>)
    ensures
        encode_utf8(a + b) == encode_utf8(a) + encode_utf8(b),
    decreases a.len(),
{
    if a.len() == 0 {
        assert(a + b == b);
        assert(encode_utf8(a) + encode_utf8(b) == encode_utf8(b));
    } else {
        assert((a + b).drop_first() == a.drop_first() + b);
        lemma_encode_utf8_concat(a.drop_first(), b);
        assert(encode_utf8(a + b) == encode_scalar((a + b)[0] as u32) + encode_utf8(
            (a + b).drop_first(),
        ));
        assert(encode_utf8(a) + encode_utf8(b) =~= encode_scalar(a[0] as u32) + (encode_utf8(
            a.drop_first(),
        ) + encode_utf8(b)));
    }
}

/// The encoding of a response whose status is `OK200` with the reason `Ok`
/// starts with `Http/1.1 200 Ok`, whatever else the response holds.
pub proof fn theorem_ok_status_line(response: Response)
    requires
        response.status matches Status::OK200(message) && message@ == "Ok"@,
    ensures
        encode_utf8("Http/1.1 200 Ok"@).is_prefix_of(response.encoding()),
        response.status_line() == "Http/1.1 200 Ok\n"@,
{
    reveal_strlit("Http/1.1 200 Ok");
    reveal_strlit("Http/1.1 200 Ok\n");
    reveal_strlit("Http/1.1");
    reveal_strlit(" ");
    reveal_strlit("Ok");
    reveal_strlit("\n");
    reveal_with_fuel(decimal, 3);
    assert(decimal(200) =~= seq!['2', '0', '0']);
    let line = "Http/1.1 200 Ok"@;
    assert(response.status_line() =~= line + "\n"@);
    assert(response.status_line() =~= "Http/1.1 200 Ok\n"@);
    let rest = "\n"@ + response.header_block() + "\n"@;
    assert(response.status_line() + response.header_block() + "\n"@ =~= line + rest);
    lemma_encode_utf8_concat(line, rest);
    assert(encode_utf8(line).is_prefix_of(encode_utf8(line) + encode_utf8(rest) + response.body@));
    assert(response.encoding() =~= encode_utf8(line) + encode_utf8(rest) + response.body@);
}

/// A response that holds nothing but the status `OK200` with the reason `Ok`
/// is written as its status line and a blank line.
pub proof fn theorem_bare_ok_encoding(response: Response)
    requires
        response.status matches Status::OK200(message) && message@ == "Ok"@,
        response.headers.entries().len() == 0,
        response.cache_options is None,
        response.cookies is None,
        response.body@.len() == 0,
    ensures
        response.encoding() == encode_utf8("Http/1.1 200 Ok\n\n"@),
{
    theorem_ok_status_line(response);
    reveal_strlit("Http/1.1 200 Ok\n");
    reveal_strlit("Http/1.1 200 Ok\n\n");
    reveal_strlit("\n");
    assert(response.header_block() =~= Seq::<char>::empty());
    assert(response.status_line() + response.header_block() + "\n"@ =~= "Http/1.1 200 Ok\n\n"@);
    assert(response.encoding() =~= encode_utf8("Http/1.1 200 Ok\n\n"@));
}

/// A response that holds nothing but a status other than `OK200` is written
/// as the line of a bad request and a blank line.
pub proof fn theorem_rejection_encoding(response: Response)
    requires
        !(response.status is OK200),
        response.headers.entries().len() == 0,
        response.cache_options is None,
        response.cookies is None,
        response.body@.len() == 0,
    ensures
        response.encoding() == encode_utf8("Http/1.1 400 bad request\n\n"@),
{
    reveal_strlit("Http/1.1 400 bad request\n\n");
    reveal_strlit("Http/1.1");
    reveal_strlit(" ");
    reveal_strlit("bad request");
    reveal_strlit("\n");
    reveal_with_fuel(decimal, 3);
    assert(decimal(400) =~= seq!['4', '0', '0']);
    assert(response.header_block() =~= Seq::<char>::empty());
    assert(response.status_line() + response.header_block() + "\n"@
        =~= "Http/1.1 400 bad request\n\n"@);
    assert(response.encoding() =~= encode_utf8("Http/1.1 400 bad request\n\n"@));
}

/// Whether `part` occurs somewhere in `text`.
pub open spec fn occurs_in(part: Seq<char>, text: Seq<char>) -> bool {
    exists|i: int|
        0 <= i && i + part.len() <= text.len() && #[trigger] text.subrange(i, i + part.len() as int)
            == part
}

/// What occurs in a text occurs in the text with more written after it.
pub proof fn lemma_occurs_before(part: Seq<char>, text: Seq<char>, more: Seq<char>)
    requires
        occurs_in(part, text),
    ensures
        occurs_in(part, text + more),
{
    let i = choose|i: int|
        0 <= i && i + part.len() <= text.len() && #[trigger] text.subrange(
            i,
            i + part.len() as int,
        ) == part;
    assert((text + more).subrange(i, i + part.len() as int) == text.subrange(
        i,
        i + part.len() as int,
    ));
}

/// What occurs in a text occurs in the text with more written before it.
pub proof fn lemma_occurs_after(part: Seq<char>, more: Seq<char>, text: Seq<char>)
    requires
        occurs_in(part, text),
    ensures
        occurs_in(part, more + text),
{
    let i = choose|i: int|
        0 <= i && i + part.len() <= text.len() && #[trigger] text.subrange(
            i,
            i + part.len() as int,
        ) == part;
    let j = more.len() + i;
    assert((more + text).subrange(j, j + part.len() as int) == text.subrange(
        i,
        i + part.len() as int,
    ));
}

proof fn lemma_lax_attribute(secure: bool, policy: Seq<char>)
    requires
        lowercase(policy) == "lax"@,
    ensures
        occurs_in("SameSite=Lax"@, same_site_attribute(policy, secure)),
        !secure ==> occurs_in("Secure"@, same_site_attribute(policy, secure)),
        occurs_in("Secure"@, "; Secure"@),
{
    reveal_strlit("; SameSite=Lax");
    reveal_strlit("SameSite=Lax");
    reveal_strlit("; Secure");
    reveal_strlit("Secure");
    reveal_strlit("lax");
    reveal_strlit("strict");
    assert("lax"@.len() != "strict"@.len());
    let lax = "; SameSite=Lax"@;
    let secure_flag = "; Secure"@;
    assert(lax.subrange(2, 2 + "SameSite=Lax"@.len() as int) == "SameSite=Lax"@);
    assert(secure_flag.subrange(2, 2 + "Secure"@.len() as int) == "Secure"@);
    assert(occurs_in("SameSite=Lax"@, lax));
    assert(occurs_in("Secure"@, secure_flag));
    if secure {
        lemma_occurs_before("SameSite=Lax"@, lax, Seq::empty());
    } else {
        lemma_occurs_before("SameSite=Lax"@, lax, secure_flag);
        lemma_occurs_after("Secure"@, lax, secure_flag);
    }
}

/// A cookie whose `SameSite` policy reads `lax` in lower case is written with
/// both `SameSite=Lax` and `Secure`, whether or not it was made secure.
pub proof fn theorem_lax_cookies_are_secure(cookies: Cookies)
    requires
        cookies.same_site matches Some(policy) && lowercase(policy@) == "lax"@,
    ensures
        occurs_in("SameSite=Lax"@, cookies.header()),
        occurs_in("Secure"@, cookies.header()),
{
    let policy = cookies.same_site->0@;
    lemma_lax_attribute(cookies.secure, policy);
    let attribute = same_site_attribute(policy, cookies.secure);
    let with_age = cookie_pairs(cookies.values.entries()) + (match cookies.max_age {
        Some(seconds) => "; Max-Age="@ + decimal(seconds as nat),
        None => Seq::empty(),
    });
    let secure = if cookies.secure {
        "; Secure"@
    } else {
        Seq::empty()
    };
    let http_only = if cookies.http_only {
        "; HttpOnly"@
    } else {
        Seq::empty()
    };
    let domain = match cookies.domain {
        Some(domain) => "; Domain="@ + domain@,
        None => Seq::empty(),
    };
    let path = match cookies.path {
        Some(path) => "; Path="@ + path@,
        None => Seq::empty(),
    };
    let before = with_age + secure + http_only + domain + path;
    assert(cookies.attributes() == before + attribute);
    lemma_occurs_after("SameSite=Lax"@, before, attribute);
    lemma_occurs_after("SameSite=Lax"@, "Set-Cookie: "@, cookies.attributes());
    if cookies.secure {
        lemma_occurs_after("Secure"@, with_age, secure);
        lemma_occurs_before("Secure"@, with_age + secure, http_only);
        lemma_occurs_before("Secure"@, with_age + secure + http_only, domain);
        lemma_occurs_before("Secure"@, with_age + secure + http_only + domain, path);
        lemma_occurs_before("Secure"@, before, attribute);
    } else {
        lemma_occurs_after("Secure"@, before, attribute);
    }
    lemma_occurs_after("Secure"@, "Set-Cookie: "@, cookies.attributes());
}

/// Where `private` is set, `public` changes nothing in the `Cache-Control`
/// line: `private` takes precedence.
pub proof fn theorem_private_takes_precedence(options: CacheOptions, other: CacheOptions)
    requires
        options.private,
        other == (CacheOptions { public: !options.public, ..options }),
    ensures
        options.cache_control() == other.cache_control(),
        forall|date: Seq<char>| options.header_with(date) == other.header_with(date),
{
}

/// A `SameSite` policy that is none of `strict`, `lax` and `none` in lower
/// case is left out: the cookie is written as one without a policy.
pub proof fn theorem_unknown_same_site_is_omitted(cookies: Cookies, other: Cookies)
    requires
        cookies.same_site matches Some(policy) && lowercase(policy@) != "strict"@ && lowercase(
            policy@,
        ) != "lax"@ && lowercase(policy@) != "none"@,
        other == (Cookies { same_site: None, ..cookies }),
    ensures
        cookies.header() == other.header(),
{
}

/// Of two header lines with the same name the first wins: a line whose name
/// the lines before it have given adds nothing.
pub proof fn theorem_first_header_wins(before: Seq<Seq<char>>, line: Seq<char>)
    requires
        header_entry(line) matches Some(entry) && has_key(collect_headers(before), entry.0),
    ensures
        collect_headers(before.push(line)) == collect_headers(before),
{
    assert(before.push(line).drop_last() == before);
}

} // verus!
