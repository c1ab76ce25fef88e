//! The response model and its encoder: status line, headers, the cache and
//! cookie headers synthesized from their directives, and the body.

use crate::http::{Protocol, Status};
use crate::text::{decimal, lowercase, push_decimal, same_text, to_lowercase};
use crate::text_map::TextMap;
use vstd::prelude::*;
use vstd::string::*;
use vstd::utf8::*;

verus! {

/// An instant: seconds since the Unix epoch and the nanoseconds beside them.
#[derive(Debug, Clone, Copy, PartialEq, Eq, Structural)]
pub struct Timestamp {
    pub second: i64,
    pub nanosecond: i32,
}

/// The format in which a response writes a date.
pub open spec fn http_date_format() -> Seq<char> {
    "%a, %e %b %Y %I:%M:%S GMT"@
}

/// The text that the time library writes for an instant in a given format:
/// nothing where it cannot represent the instant or refuses the format.
pub uninterp spec fn strftime_text(format: Seq<char>, second: i64, nanosecond: i32) -> Option<
    Seq<char>,
>;

/// Believed, not proved: `jiff::Timestamp::new` makes an instant of the two
/// numbers or refuses them, and `jiff::fmt::strtime::format` writes it, in
/// UTC, or refuses the format; both depend on their arguments alone.
#[verifier::external_body]
fn strftime(format: &str, second: i64, nanosecond: i32) -> (r: Option<String>)
    ensures
        r is Some <==> strftime_text(format@, second, nanosecond) is Some,
        r matches Some(text) ==> strftime_text(format@, second, nanosecond) == Some(text@),
{
    match jiff::Timestamp::new(second, nanosecond) {
        Ok(instant) => jiff::fmt::strtime::format(format, instant).ok(),
        Err(_) => None,
    }
}

/// Believed, not proved: `jiff::Timestamp::now` reads the system clock, and
/// `as_second` and `subsec_nanosecond` give its two parts, the second of them
/// less than a second either way. `now` panics where the clock is set outside
/// of the years that the library represents.
#[verifier::external_body]
fn current_time() -> (now: Timestamp)
    ensures
        -1_000_000_000 < now.nanosecond < 1_000_000_000,
{
    let now = jiff::Timestamp::now();
    Timestamp { second: now.as_second(), nanosecond: now.subsec_nanosecond() }
}

/// Whether the character is a digit of a lower-case hexadecimal numeral.
pub open spec fn is_lower_hex(c: char) -> bool {
    ('0' <= c <= '9') || ('a' <= c <= 'f')
}

/// Whether a text has the shape of a hyphenated identifier: 36 characters,
/// hyphens after the 8th, 12th, 16th and 20th digit, lower-case hexadecimal
/// digits elsewhere.
pub open spec fn is_hyphenated_uuid(text: Seq<char>) -> bool {
    &&& text.len() == 36
    &&& forall|i: int|
        0 <= i < 36 ==> if i == 8 || i == 13 || i == 18 || i == 23 {
            #[trigger] text[i] == '-'
        } else {
            is_lower_hex(#[trigger] text[i])
        }
}

/// Believed, not proved: `uuid::Uuid::new_v4` draws a random identifier, and
/// its `to_string` writes it hyphenated, in lower case. `new_v4` panics where
/// the operating system gives no random bytes.
#[verifier::external_body]
fn random_uuid() -> (r: String)
    ensures
        is_hyphenated_uuid(r@),
{
    uuid::Uuid::new_v4().to_string()
}

/// How a response may be cached, when it last changed, and its entity tag.
#[derive(Debug)]
pub struct CacheOptions {
    pub max_age: Option<u32>,
    pub no_cache: bool,
    pub no_store: bool,
    pub immutable: bool,
    pub private: bool,
    pub public: bool,
    pub last_modified: Timestamp,
    pub etag: String,
}

impl CacheOptions {
    pub fn new(
        max_age: Option<u32>,
        no_cache: bool,
        no_store: bool,
        immutable: bool,
        private: bool,
        public: bool,
        last_modified: Timestamp,
        etag: String,
    ) -> (r: Self)
        ensures
            r == (CacheOptions {
                max_age,
                no_cache,
                no_store,
                immutable,
                private,
                public,
                last_modified,
                etag,
            }),
    {
        Self { max_age, no_cache, no_store, immutable, private, public, last_modified, etag }
    }

    /// The default policy: revalidate before every use. The instant is the
    /// current time and the tag a fresh random identifier.
    pub fn new_default() -> (r: Self)
        ensures
            r.max_age is None,
            r.no_cache,
            !r.no_store,
            !r.immutable,
            !r.private,
            !r.public,
            -1_000_000_000 < r.last_modified.nanosecond < 1_000_000_000,
            is_hyphenated_uuid(r.etag@),
    {
        Self {
            max_age: None,
            no_cache: true,
            no_store: false,
            immutable: false,
            private: false,
            public: false,
            last_modified: current_time(),
            etag: random_uuid(),
        }
    }

    /// The `Cache-Control` line. The directives that are set follow one
    /// another with nothing between them, in the order max-age, no-cache,
    /// no-store, immutable, private, public; `public` is left out where
    /// `private` is set.
    pub open spec fn cache_control(&self) -> Seq<char> {
        "Cache-Control: "@ + (match self.max_age {
            Some(seconds) => "max-age="@ + decimal(seconds as nat),
            None => Seq::empty(),
        }) + (if self.no_cache {
            "no-cache"@
        } else {
            Seq::empty()
        }) + (if self.no_store {
            "no-store"@
        } else {
            Seq::empty()
        }) + (if self.immutable {
            "immutable"@
        } else {
            Seq::empty()
        }) + (if self.private {
            "private"@
        } else {
            Seq::empty()
        }) + (if self.public && !self.private {
            "public"@
        } else {
            Seq::empty()
        })
    }

    /// The date of the last change as it is written, where it can be.
    pub open spec fn last_modified_text(&self) -> Option<Seq<char>> {
        strftime_text(http_date_format(), self.last_modified.second, self.last_modified.nanosecond)
    }

    /// The three cache-related lines, with the given text for the date.
    pub open spec fn header_with(&self, date: Seq<char>) -> Seq<char> {
        self.cache_control() + "\n"@ + "Last-Modified: "@ + date + "\n"@ + "ETag: "@ + self.etag@
    }

    /// The three cache-related lines.
    pub open spec fn header(&self) -> Seq<char> {
        self.header_with(self.last_modified_text()->0)
    }

    /// Writes the `Cache-Control`, `Last-Modified` and `ETag` lines, given
    /// the date as it is to be written.
    pub fn header_with_date(&self, date: &str) -> (r: String)
        ensures
            r@ == self.header_with(date@),
    {
        let mut out = "Cache-Control: ".to_owned();
        if let Some(seconds) = self.max_age {
            out.append("max-age=");
            push_decimal(&mut out, seconds);
        }
        let ghost with_age = out@;
        assert(with_age == "Cache-Control: "@ + (match self.max_age {
            Some(seconds) => "max-age="@ + decimal(seconds as nat),
            None => Seq::empty(),
        }));
        if self.no_cache {
            out.append("no-cache");
        }
        if self.no_store {
            out.append("no-store");
        }
        if self.immutable {
            out.append("immutable");
        }
        if self.private {
            out.append("private");
        }
        if self.public && !self.private {
            out.append("public");
        }
        assert(out@ == self.cache_control());
        out.append("\n");
        out.append("Last-Modified: ");
        out.append(date);
        out.append("\n");
        out.append("ETag: ");
        out.append(self.etag.as_str());
        out
    }

    /// Writes the `Cache-Control`, `Last-Modified` and `ETag` lines.
    pub fn to_cache_related_header(&self) -> (r: String)
        requires
            self.last_modified_text() is Some,
        ensures
            r@ == self.header(),
    {
        let date = strftime(
            "%a, %e %b %Y %I:%M:%S GMT",
            self.last_modified.second,
            self.last_modified.nanosecond,
        ).unwrap();
        self.header_with_date(date.as_str())
    }

    /// Writes the cache-related lines where the date can be written, and
    /// nothing where it cannot.
    pub fn try_to_cache_related_header(&self) -> (r: Option<String>)
        ensures
            r is Some <==> self.last_modified_text() is Some,
            r matches Some(text) ==> text@ == self.header(),
    {
        match strftime(
            "%a, %e %b %Y %I:%M:%S GMT",
            self.last_modified.second,
            self.last_modified.nanosecond,
        ) {
            Some(_) => Some(self.to_cache_related_header()),
            None => None,
        }
    }
}

/// The pairs of a cookie header: each name with its value, joined by `; `.
pub open spec fn cookie_pairs(entries: Seq<(Seq<char>, Seq<char>)>) -> Seq<char>
    decreases entries.len(),
{
    if entries.len() == 0 {
        Seq::empty()
    } else if entries.len() == 1 {
        entries[0].0 + "="@ + entries[0].1
    } else {
        cookie_pairs(entries.drop_last()) + "; "@ + entries.last().0 + "="@ + entries.last().1
    }
}

/// The `SameSite` attribute for a requested policy, told apart in lower case.
/// A policy that is none of the three gives no attribute. `Lax` brings
/// `Secure` with it where the cookie does not have it already.
pub open spec fn same_site_attribute(policy: Seq<char>, secure: bool) -> Seq<char> {
    let lowered = lowercase(policy);
    if lowered == "strict"@ {
        "; SameSite=Strict"@
    } else if lowered == "lax"@ {
        "; SameSite=Lax"@ + (if secure {
            Seq::empty()
        } else {
            "; Secure"@
        })
    } else if lowered == "none"@ {
        "; SameSite=None"@
    } else {
        Seq::empty()
    }
}

/// The cookies that a response sets, with the attributes that they share.
#[derive(Debug)]
pub struct Cookies {
    pub values: TextMap,
    pub max_age: Option<u32>,
    pub secure: bool,
    pub http_only: bool,
    pub domain: Option<String>,
    pub path: Option<String>,
    pub same_site: Option<String>,
}

impl Cookies {
    pub fn new(
        values: TextMap,
        max_age: Option<u32>,
        secure: bool,
        http_only: bool,
        domain: Option<String>,
        path: Option<String>,
        same_site: Option<String>,
    ) -> (r: Self)
        ensures
            r == (Cookies { values, max_age, secure, http_only, domain, path, same_site }),
    {
        Self { values, max_age, secure, http_only, domain, path, same_site }
    }

    /// The value of the `Set-Cookie` header: the pairs, then the attributes
    /// that are set, in the order Max-Age, Secure, HttpOnly, Domain, Path,
    /// SameSite.
    pub open spec fn attributes(&self) -> Seq<char> {
        cookie_pairs(self.values.entries()) + (match self.max_age {
            Some(seconds) => "; Max-Age="@ + decimal(seconds as nat),
            None => Seq::empty(),
        }) + (if self.secure {
            "; Secure"@
        } else {
            Seq::empty()
        }) + (if self.http_only {
            "; HttpOnly"@
        } else {
            Seq::empty()
        }) + (match self.domain {
            Some(domain) => "; Domain="@ + domain@,
            None => Seq::empty(),
        }) + (match self.path {
            Some(path) => "; Path="@ + path@,
            None => Seq::empty(),
        }) + (match self.same_site {
            Some(policy) => same_site_attribute(policy@, self.secure),
            None => Seq::empty(),
        })
    }

    /// The `Set-Cookie` line.
    pub open spec fn header(&self) -> Seq<char> {
        "Set-Cookie: "@ + self.attributes()
    }

    fn pairs(&self) -> (r: String)
        ensures
            r@ == cookie_pairs(self.values.entries()),
    {
        let mut out = String::new();
        let n = self.values.len();
        let ghost entries = self.values.entries();
        let mut i: usize = 0;
        while i < n
            invariant
                i <= n,
                n == entries.len(),
                entries == self.values.entries(),
                out@ == cookie_pairs(entries.subrange(0, i as int)),
            decreases n - i,
        {
            proof {
                let upto = entries.subrange(0, i + 1);
                assert(upto.drop_last() == entries.subrange(0, i as int));
                assert(upto.last() == entries[i as int]);
                if i == 0 {
                    assert(out@ + entries[0].0 == entries[0].0);
                }
            }
            if i > 0 {
                out.append("; ");
            }
            out.append(self.values.key_at(i).as_str());
            out.append("=");
            out.append(self.values.value_at(i).as_str());
            i += 1;
        }
        assert(entries.subrange(0, n as int) == entries);
        out
    }

    /// Writes the `Set-Cookie` line.
    pub fn to_set_cookie_header(self) -> (r: String)
        ensures
            r@ == self.header(),
    {
        let mut values = self.pairs();
        if let Some(seconds) = self.max_age {
            values.append("; Max-Age=");
            push_decimal(&mut values, seconds);
        }
        let ghost with_age = values@;
        assert(with_age == cookie_pairs(self.values.entries()) + (match self.max_age {
            Some(seconds) => "; Max-Age="@ + decimal(seconds as nat),
            None => Seq::empty(),
        }));
        if self.secure {
            values.append("; Secure");
        }
        if self.http_only {
            values.append("; HttpOnly");
        }
        let ghost with_flags = values@;
        if let Some(domain) = &self.domain {
            values.append("; Domain=");
            values.append(domain.as_str());
        }
        let ghost with_domain = values@;
        assert(with_domain == with_flags + (match self.domain {
            Some(domain) => "; Domain="@ + domain@,
            None => Seq::empty(),
        }));
        if let Some(path) = &self.path {
            values.append("; Path=");
            values.append(path.as_str());
        }
        let ghost with_path = values@;
        assert(with_path == with_domain + (match self.path {
            Some(path) => "; Path="@ + path@,
            None => Seq::empty(),
        }));
        if let Some(policy) = &self.same_site {
            let lowered = to_lowercase(policy.as_str());
            if same_text(lowered.as_str(), "strict") {
                values.append("; SameSite=Strict");
            } else if same_text(lowered.as_str(), "lax") {
                values.append("; SameSite=Lax");
                if !self.secure {
                    values.append("; Secure");
                }
                assert(values@ == with_path + same_site_attribute(policy@, self.secure));
            } else if same_text(lowered.as_str(), "none") {
                values.append("; SameSite=None");
            }
            assert(values@ == with_path + same_site_attribute(policy@, self.secure));
        }
        assert(values@ == self.attributes());
        let mut out = "Set-Cookie: ".to_owned();
        out.append(values.as_str());
        out
    }
}

/// The header lines of a response: each entry as `name: value` and a line
/// feed, in the entries' order.
pub open spec fn header_lines(entries: Seq<(Seq<char>, Seq<char>)>) -> Seq<char>
    decreases entries.len(),
{
    if entries.len() == 0 {
        Seq::empty()
    } else {
        header_lines(entries.drop_last()) + entries.last().0 + ": "@ + entries.last().1 + "\n"@
    }
}

/// A response before it is written.
#[derive(Debug)]
pub struct Response {
    pub protocol: Protocol,
    pub status: Status,
    pub headers: TextMap,
    pub cache_options: Option<CacheOptions>,
    pub cookies: Option<Cookies>,
    pub body: Vec<u8>,
}

impl Response {
    /// A response of the given parts. Without a body it has the empty one.
    pub fn new(
        protocol: Protocol,
        status: Status,
        headers: TextMap,
        cookies: Option<Cookies>,
        cache_options: Option<CacheOptions>,
        body: Option<Vec<u8>>,
    ) -> (r: Self)
        ensures
            r.protocol == protocol,
            r.status == status,
            r.headers == headers,
            r.cookies == cookies,
            r.cache_options == cache_options,
            r.body@ == (match body {
                Some(bytes) => bytes@,
                None => Seq::empty(),
            }),
    {
        let body = match body {
            Some(bytes) => bytes,
            None => Vec::new(),
        };
        Self { protocol, status, headers, cookies, cache_options, body }
    }

    /// Whether the response can be written: the date of its cache options, if
    /// it has any, can be.
    pub open spec fn encodable(&self) -> bool {
        self.cache_options matches Some(options) ==> options.last_modified_text() is Some
    }

    /// The status line: protocol, code and reason.
    pub open spec fn status_line(&self) -> Seq<char> {
        self.protocol.name() + " "@ + decimal(self.status.code()) + " "@ + self.status.reason()
            + "\n"@
    }

    /// The header block: the headers in their order, then the cache-related
    /// lines, then the cookie line.
    pub open spec fn header_block(&self) -> Seq<char> {
        header_lines(self.headers.entries()) + (match self.cache_options {
            Some(options) => options.header() + "\n"@,
            None => Seq::empty(),
        }) + (match self.cookies {
            Some(cookies) => cookies.header() + "\n"@,
            None => Seq::empty(),
        })
    }

    /// The bytes of the response on the wire: status line, header block and a
    /// blank line as UTF-8, then the body as it is.
    pub open spec fn encoding(&self) -> Seq<u8> {
        encode_utf8(self.status_line() + self.header_block() + "\n"@) + self.body@
    }

    fn write_headers(&self) -> (r: String)
        ensures
            r@ == header_lines(self.headers.entries()),
    {
        let mut out = String::new();
        let n = self.headers.len();
        let ghost entries = self.headers.entries();
        let mut i: usize = 0;
        while i < n
            invariant
                i <= n,
                n == entries.len(),
                entries == self.headers.entries(),
                out@ == header_lines(entries.subrange(0, i as int)),
            decreases n - i,
        {
            proof {
                let upto = entries.subrange(0, i + 1);
                assert(upto.drop_last() == entries.subrange(0, i as int));
                assert(upto.last() == entries[i as int]);
            }
            out.append(self.headers.key_at(i).as_str());
            out.append(": ");
            out.append(self.headers.value_at(i).as_str());
            out.append("\n");
            i += 1;
        }
        assert(entries.subrange(0, n as int) == entries);
        out
    }

    /// Writes the response as the bytes that go on the wire.
    pub fn encode(self) -> (r: Vec<u8>)
        requires
            self.encodable(),
        ensures
            r@ == self.encoding(),
    {
        let mut head = self.protocol.to_string();
        head.append(" ");
        match &self.status {
            Status::OK200(message) => {
                push_decimal(&mut head, 200);
                head.append(" ");
                head.append(message.as_str());
            },
            _ => {
                push_decimal(&mut head, 400);
                head.append(" ");
                head.append("bad request");
            },
        }
        head.append("\n");
        assert(head@ == self.status_line());
        let headers = self.write_headers();
        head.append(headers.as_str());
        let ghost with_headers = head@;
        if let Some(options) = &self.cache_options {
            let lines = options.to_cache_related_header();
            head.append(lines.as_str());
            head.append("\n");
            assert(head@ == with_headers + (options.header() + "\n"@));
        }
        let ghost with_cache = head@;
        let mut body = self.body;
        if let Some(cookies) = self.cookies {
            let ghost line = cookies.header();
            let line = cookies.to_set_cookie_header();
            head.append(line.as_str());
            head.append("\n");
            assert(head@ == with_cache + (line@ + "\n"@));
        }
        assert(head@ == self.status_line() + self.header_block());
        head.append("\n");
        let mut out = head.as_str().as_bytes_vec();
        out.append(&mut body);
        out
    }

    /// Writes the response as the bytes that go on the wire, where it can be
    /// written, and nothing where it cannot.
    pub fn try_encode(self) -> (r: Option<Vec<u8>>)
        ensures
            r is Some <==> self.encodable(),
            r matches Some(bytes) ==> bytes@ == self.encoding(),
    {
        let writable = match &self.cache_options {
            Some(options) => options.try_to_cache_related_header().is_some(),
            None => true,
        };
        if writable {
            Some(self.encode())
        } else {
            None
        }
    }
}

} // verus!
