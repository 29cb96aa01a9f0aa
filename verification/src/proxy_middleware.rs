//! Middleware of the proxy: CORS, rate limiting, header rewriting and IP filtering.
//!
//! Each middleware decides, from what it reads of a request, whether the request goes on
//! to the next middleware (possibly with rewritten headers) or is answered at once. A
//! request's headers are modelled as `(name, value)` pairs whose names are normalized
//! (lowercase), as `http` keeps them.

use vstd::prelude::*;
use crate::assoc::{assoc_find, assoc_keys, assoc_view, lemma_assoc_has_key, lemma_assoc_push, lemma_assoc_replace};
use crate::duration::Duration;
use crate::settings::{bool_setting, list_setting, pair_views, string_views, table_setting, text_setting, u64_setting, Settings};
use crate::text::{chars_of, decimal, has_prefix, is_space, parse_unsigned, parse_unsigned_chars, slice_chars, str_eq, string_of, trim, trim_chars, u64_decimal};
use crate::fqn::first_index;

verus! {

// ---------------------------------------------------------------------------
// HTTP tokens, header names and header values
// ---------------------------------------------------------------------------

/// A character of an HTTP token (RFC 9110 `tchar`).
pub open spec fn is_tchar(c: char) -> bool {
    ||| ('a' <= c && c <= 'z')
    ||| ('A' <= c && c <= 'Z')
    ||| ('0' <= c && c <= '9')
    ||| c == '!' || c == '#' || c == '$' || c == '%' || c == '&' || c == '\''
    ||| c == '*' || c == '+' || c == '-' || c == '.' || c == '^' || c == '_'
    ||| c == '`' || c == '|' || c == '~'
}

/// Whether `s` is an HTTP token: one or more `tchar`s.
pub open spec fn is_token(s: Seq<char>) -> bool {
    s.len() > 0 && forall|i: int| 0 <= i < s.len() ==> #[trigger] is_tchar(s[i])
}

/// `c` with ASCII uppercase letters made lowercase.
pub open spec fn ascii_lower(c: char) -> char {
    if 'A' <= c && c <= 'Z' {
        ((c as u32) + 32) as char
    } else {
        c
    }
}

/// The normalized header name that `s` stands for: a token of at most 65535 characters,
/// in lowercase.
pub open spec fn header_name_of(s: Seq<char>) -> Option<Seq<char>> {
    if is_token(s) && s.len() <= 65535 {
        Some(s.map_values(|c: char| ascii_lower(c)))
    } else {
        None
    }
}

/// A character a header value may hold: a tab, or any character from the space on
/// but DEL.
pub open spec fn is_value_char(c: char) -> bool {
    c == '\t' || (' ' <= c && c != '\u{7f}')
}

/// Whether `s` can be a header value.
pub open spec fn is_header_value(s: Seq<char>) -> bool {
    forall|i: int| 0 <= i < s.len() ==> #[trigger] is_value_char(s[i])
}

/// `http::Method::from_str`, giving back the method's name: a method is any token, and
/// its name is the text it was read from.
#[verifier::external_body]
fn method_name(s: &str) -> (r: Option<String>)
    ensures
        r is Some <==> is_token(s@),
        r matches Some(m) ==> m@ == s@,
{
    match s.parse::<http::Method>() {
        Ok(m) => Some(m.as_str().to_string()),
        Err(_) => None,
    }
}

/// `http::header::HeaderName::from_str`, giving back the normalized name: a token of at
/// most 65535 bytes, in lowercase.
#[verifier::external_body]
fn header_name(s: &str) -> (r: Option<String>)
    ensures
        match r {
            Some(n) => header_name_of(s@) == Some(n@),
            None => header_name_of(s@) is None,
        },
{
    match s.parse::<http::header::HeaderName>() {
        Ok(n) => Some(n.as_str().to_string()),
        Err(_) => None,
    }
}

/// `http::HeaderValue::from_str(s).is_ok()`: every byte is a tab or at least 32 and not
/// 127, which for the characters of a string is `is_header_value`.
#[verifier::external_body]
fn header_value_ok(s: &str) -> (r: bool)
    ensures
        r == is_header_value(s@),
{
    http::HeaderValue::from_str(s).is_ok()
}

/// The texts joined with `sep` between them.
pub open spec fn join_with(items: Seq<Seq<char>>, sep: Seq<char>) -> Seq<char>
    decreases items.len(),
{
    if items.len() == 0 {
        Seq::empty()
    } else if items.len() == 1 {
        items[0]
    } else {
        join_with(items.drop_last(), sep) + sep + items.last()
    }
}

/// The strings joined with `sep` between them.
pub fn join_strings(items: &Vec<String>, sep: &str) -> (r: String)
    ensures
        r@ == join_with(string_views(items@), sep@),
{
    let mut out = String::new();
    let mut i: usize = 0;
    while i < items.len()
        invariant
            i <= items@.len(),
            out@ == join_with(string_views(items@.take(i as int)), sep@),
        decreases items@.len() - i,
    {
        let ghost before = out@;
        if i > 0 {
            out.append(sep);
        }
        out.append(items[i].as_str());
        proof {
            let t = string_views(items@.take(i + 1));
            assert(t.drop_last() =~= string_views(items@.take(i as int)));
            assert(t.last() == items@[i as int]@);
            if i == 0 {
                assert(t =~= seq![items@[0]@]);
                assert(out@ =~= t[0]);
            } else {
                assert(out@ =~= before + sep@ + t.last());
            }
        }
        i = i + 1;
    }
    assert(items@.take(items@.len() as int) =~= items@);
    out
}

// ---------------------------------------------------------------------------
// CORS
// ---------------------------------------------------------------------------

/// Answers CORS preflight requests from allowed origins.
#[derive(Clone, Debug)]
pub struct CorsMiddleware {
    /// Allowed origins (`*` for all).
    pub allowed_origins: Vec<String>,
    pub allowed_methods: Vec<String>,
    pub allowed_headers: Vec<String>,
    pub exposed_headers: Vec<String>,
    pub allow_credentials: bool,
    /// How long a preflight answer may be cached, in seconds.
    pub max_age: u32,
}

/// The methods a list names, in order: the entries that are HTTP methods.
pub open spec fn method_list(s: Seq<Seq<char>>) -> Seq<Seq<char>>
    decreases s.len(),
{
    if s.len() == 0 {
        Seq::empty()
    } else if is_token(s.last()) {
        method_list(s.drop_last()).push(s.last())
    } else {
        method_list(s.drop_last())
    }
}

/// Whether the origins allow `origin`: one of them is `*` or `origin` itself.
pub open spec fn origin_allowed(origins: Seq<Seq<char>>, origin: Seq<char>) -> bool {
    exists|i: int| 0 <= i < origins.len() && (origins[i] == "*"@ || origins[i] == origin)
}

/// The text of an optional string.
pub open spec fn opt_view(o: Option<&str>) -> Option<Seq<char>> {
    match o {
        Some(s) => Some(s@),
        None => None,
    }
}

/// The answer to a request with method `method` and `Origin` header `origin`: the headers
/// of a `204 No Content` answer for a preflight request (`OPTIONS`) from an allowed
/// origin, `None` for any other request.
pub open spec fn preflight_answer(c: CorsMiddleware, method: Seq<char>, origin: Option<Seq<char>>) -> Option<Seq<(Seq<char>, Seq<char>)>> {
    if method == "OPTIONS"@ {
        match origin {
            Some(o) => if origin_allowed(string_views(c.allowed_origins@), o) {
                Some(preflight_headers(c, o))
            } else {
                None
            },
            None => None,
        }
    } else {
        None
    }
}

/// The headers of the answer to an approved preflight request.
pub open spec fn preflight_headers(c: CorsMiddleware, origin: Seq<char>) -> Seq<(Seq<char>, Seq<char>)> {
    let methods = join_with(string_views(c.allowed_methods@), ", "@);
    let headers = join_with(string_views(c.allowed_headers@), ", "@);
    let base = seq![
        ("access-control-allow-origin"@, if is_header_value(origin) { origin } else { "*"@ }),
        ("access-control-allow-methods"@, if is_header_value(methods) { methods } else { "GET, POST"@ }),
        ("access-control-allow-headers"@, if is_header_value(headers) { headers } else { "Content-Type"@ }),
        ("access-control-max-age"@, decimal(c.max_age as nat)),
    ];
    if c.allow_credentials {
        base.push(("access-control-allow-credentials"@, "true"@))
    } else {
        base
    }
}

fn strings_of(v: Vec<&str>) -> (r: Vec<String>)
    ensures
        r@.len() == v@.len(),
        forall|i: int| 0 <= i < v@.len() ==> #[trigger] r@[i]@ == v@[i]@,
{
    let mut r: Vec<String> = Vec::new();
    let mut i: usize = 0;
    while i < v.len()
        invariant
            i <= v@.len(),
            r@.len() == i,
            forall|j: int| 0 <= j < i ==> #[trigger] r@[j]@ == v@[j]@,
        decreases v@.len() - i,
    {
        r.push(v[i].to_owned());
        i = i + 1;
    }
    r
}

fn methods_of(names: &Vec<String>) -> (r: Vec<String>)
    ensures
        string_views(r@) == method_list(string_views(names@)),
{
    let mut r: Vec<String> = Vec::new();
    let mut i: usize = 0;
    while i < names.len()
        invariant
            i <= names@.len(),
            string_views(r@) == method_list(string_views(names@.take(i as int))),
        decreases names@.len() - i,
    {
        let ghost prefix = string_views(names@.take(i + 1));
        assert(prefix.drop_last() =~= string_views(names@.take(i as int)));
        assert(prefix.last() == names@[i as int]@);
        match method_name(names[i].as_str()) {
            Some(m) => {
                r.push(m);
                assert(string_views(r@) =~= method_list(prefix));
            },
            None => {},
        }
        i = i + 1;
    }
    assert(names@.take(names@.len() as int) =~= names@);
    r
}

impl Default for CorsMiddleware {
    fn default() -> (r: Self)
        ensures
            string_views(r.allowed_origins@) == seq!["*"@],
            string_views(r.allowed_methods@) == seq!["GET"@, "POST"@, "PUT"@, "DELETE"@, "PATCH"@, "OPTIONS"@],
            string_views(r.allowed_headers@) == seq!["Content-Type"@, "Authorization"@],
            r.exposed_headers@.len() == 0,
            !r.allow_credentials,
            r.max_age == 86400,
    {
        CorsMiddleware::new()
    }
}

impl CorsMiddleware {
    /// Any origin; the methods GET, POST, PUT, DELETE, PATCH and OPTIONS; the headers
    /// Content-Type and Authorization; no credentials; answers cached for a day.
    pub fn new() -> (r: Self)
        ensures
            string_views(r.allowed_origins@) == seq!["*"@],
            string_views(r.allowed_methods@) == seq!["GET"@, "POST"@, "PUT"@, "DELETE"@, "PATCH"@, "OPTIONS"@],
            string_views(r.allowed_headers@) == seq!["Content-Type"@, "Authorization"@],
            r.exposed_headers@.len() == 0,
            !r.allow_credentials,
            r.max_age == 86400,
    {
        let origins = strings_of(vec!["*"]);
        let methods = strings_of(vec!["GET", "POST", "PUT", "DELETE", "PATCH", "OPTIONS"]);
        let headers = strings_of(vec!["Content-Type", "Authorization"]);
        assert(string_views(origins@) =~= seq!["*"@]);
        assert(string_views(methods@) =~= seq!["GET"@, "POST"@, "PUT"@, "DELETE"@, "PATCH"@, "OPTIONS"@]);
        assert(string_views(headers@) =~= seq!["Content-Type"@, "Authorization"@]);
        CorsMiddleware {
            allowed_origins: origins,
            allowed_methods: methods,
            allowed_headers: headers,
            exposed_headers: Vec::new(),
            allow_credentials: false,
            max_age: 86400,
        }
    }

    /// The middleware configured by the settings `origins`, `methods` (entries that are
    /// not HTTP methods are dropped), `headers`, `expose_headers` (lists of texts),
    /// `credentials` and `max_age` (cut to its low 32 bits); what is absent keeps the
    /// value of `new`.
    pub fn from_config(settings: &Settings) -> (r: Self)
        ensures
            string_views(r.allowed_origins@) == (match list_setting(*settings, "origins"@) {
                Some(l) => l,
                None => seq!["*"@],
            }),
            string_views(r.allowed_methods@) == (match list_setting(*settings, "methods"@) {
                Some(l) => method_list(l),
                None => seq!["GET"@, "POST"@, "PUT"@, "DELETE"@, "PATCH"@, "OPTIONS"@],
            }),
            string_views(r.allowed_headers@) == (match list_setting(*settings, "headers"@) {
                Some(l) => l,
                None => seq!["Content-Type"@, "Authorization"@],
            }),
            string_views(r.exposed_headers@) == (match list_setting(*settings, "expose_headers"@) {
                Some(l) => l,
                None => Seq::empty(),
            }),
            r.allow_credentials == (match bool_setting(*settings, "credentials"@) {
                Some(b) => b,
                None => false,
            }),
            r.max_age == (match u64_setting(*settings, "max_age"@) {
                Some(a) => (a % 4294967296) as u32,
                None => 86400,
            }),
    {
        let mut cors = CorsMiddleware::new();
        if let Some(origins) = settings.get_str_list("origins") {
            cors.allowed_origins = origins;
        }
        if let Some(methods) = settings.get_str_list("methods") {
            cors.allowed_methods = methods_of(&methods);
        }
        if let Some(headers) = settings.get_str_list("headers") {
            cors.allowed_headers = headers;
        }
        if let Some(expose) = settings.get_str_list("expose_headers") {
            cors.exposed_headers = expose;
        }
        if let Some(creds) = settings.get_bool("credentials") {
            cors.allow_credentials = creds;
        }
        if let Some(age) = settings.get_u64("max_age") {
            let cut = (age % 4294967296) as u32;
            cors.max_age = cut;
        }
        assert(string_views(cors.exposed_headers@) =~= (match list_setting(*settings, "expose_headers"@) {
            Some(l) => l,
            None => Seq::<Seq<char>>::empty(),
        }));
        cors
    }

    /// The middleware's name.
    pub fn name(&self) -> (r: &'static str)
        ensures
            r@ == "cors"@,
    {
        "cors"
    }

    /// Whether requests from `origin` are allowed.
    pub fn is_origin_allowed(&self, origin: &str) -> (r: bool)
        ensures
            r == origin_allowed(string_views(self.allowed_origins@), origin@),
    {
        proof {
            reveal_strlit("*");
        }
        let mut i: usize = 0;
        while i < self.allowed_origins.len()
            invariant
                i <= self.allowed_origins@.len(),
                forall|j: int| 0 <= j < i ==> !(self.allowed_origins@[j]@ == "*"@ || self.allowed_origins@[j]@ == origin@),
            decreases self.allowed_origins@.len() - i,
        {
            let o = self.allowed_origins[i].as_str();
            if str_eq(o, "*") || str_eq(o, origin) {
                assert(string_views(self.allowed_origins@)[i as int] == self.allowed_origins@[i as int]@);
                return true;
            }
            i = i + 1;
        }
        proof {
            let v = string_views(self.allowed_origins@);
            assert forall|j: int| 0 <= j < v.len() implies !(v[j] == "*"@ || v[j] == origin@) by {
                assert(v[j] == self.allowed_origins@[j]@);
            }
        }
        false
    }

    /// The answer to a request with method `method` and `Origin` header `origin`: for a
    /// preflight request (`OPTIONS`) from an allowed origin, the headers of a
    /// `204 No Content` answer; otherwise `None`, and the request goes on.
    pub fn preflight(&self, method: &str, origin: Option<&str>) -> (r: Option<Vec<(String, String)>>)
        ensures
            match r {
                Some(h) => preflight_answer(*self, method@, opt_view(origin)) == Some(
                    pair_views(h@),
                ),
                None => preflight_answer(*self, method@, opt_view(origin)) is None,
            },
    {
        proof {
            reveal_strlit("OPTIONS");
            reveal_strlit("*");
            reveal_strlit("GET, POST");
            reveal_strlit("Content-Type");
        }
        if !str_eq(method, "OPTIONS") {
            return None;
        }
        let o = match origin {
            Some(o) => o,
            None => return None,
        };
        if !self.is_origin_allowed(o) {
            return None;
        }
        let allow_origin = if header_value_ok(o) {
            o.to_owned()
        } else {
            "*".to_owned()
        };
        let methods = join_strings(&self.allowed_methods, ", ");
        let allow_methods = if header_value_ok(methods.as_str()) {
            methods
        } else {
            "GET, POST".to_owned()
        };
        let headers = join_strings(&self.allowed_headers, ", ");
        let allow_headers = if header_value_ok(headers.as_str()) {
            headers
        } else {
            "Content-Type".to_owned()
        };
        let age = string_of(&u64_decimal(self.max_age as u64));
        let mut out: Vec<(String, String)> = Vec::new();
        out.push(("access-control-allow-origin".to_owned(), allow_origin));
        out.push(("access-control-allow-methods".to_owned(), allow_methods));
        out.push(("access-control-allow-headers".to_owned(), allow_headers));
        out.push(("access-control-max-age".to_owned(), age));
        if self.allow_credentials {
            out.push(("access-control-allow-credentials".to_owned(), "true".to_owned()));
        }
        assert(pair_views(out@) =~= preflight_headers(*self, o@));
        Some(out)
    }
}

// ---------------------------------------------------------------------------
// IP ranges and filtering
// ---------------------------------------------------------------------------

/// An IP address as its bits: 32 for IPv4, 128 for IPv6.
#[derive(Clone, Copy, Debug, PartialEq, Eq, Structural)]
pub enum IpAddress {
    V4(u32),
    V6(u128),
}

/// A single address, or a CIDR block: an address and the number of leading bits that
/// addresses of the block share with it.
#[derive(Clone, Copy, Debug, PartialEq, Eq, Structural)]
pub struct IpRange {
    pub addr: IpAddress,
    pub prefix_len: Option<u8>,
}

/// The parts of `s` before and after its first `c`, if it has one.
pub open spec fn split_once(s: Seq<char>, c: char) -> Option<(Seq<char>, Seq<char>)> {
    match first_index(s, c) {
        Some(i) => Some((s.take(i), s.skip(i + 1))),
        None => None,
    }
}

/// Splits `s` at its first `c`.
pub fn split_once_char(s: &str, c: char) -> (r: Option<(String, String)>)
    ensures
        match r {
            Some((a, b)) => split_once(s@, c) == Some((a@, b@)),
            None => split_once(s@, c) is None,
        },
{
    let v = chars_of(s);
    let mut i: usize = 0;
    while i < v.len()
        invariant
            i <= v@.len(),
            v@ == s@,
            forall|j: int| 0 <= j < i ==> v@[j] != c,
        decreases v.len() - i,
    {
        if v[i] == c {
            proof {
                assert(exists|k: int| 0 <= k < v@.len() && v@[k] == c);
                let k = choose|k: int| 0 <= k < s@.len() && s@[k] == c && forall|j: int| 0 <= j < k ==> s@[j] != c;
                if k < i {
                } else if k > i {
                    assert(s@[i as int] == c);
                }
                assert(k == i);
            }
            let a = string_of(&slice_chars(&v, 0, i));
            let b = string_of(&slice_chars(&v, i + 1, v.len()));
            assert(v@.subrange(0, i as int) =~= s@.take(i as int));
            assert(v@.subrange(i + 1, v@.len() as int) =~= s@.skip(i + 1));
            return Some((a, b));
        }
        i = i + 1;
    }
    None
}

/// The address text and the prefix text of a range written `addr` or `addr/prefix`.
pub open spec fn range_parts(s: Seq<char>) -> (Seq<char>, Option<Seq<char>>) {
    match split_once(s, '/') {
        Some((a, p)) => (a, Some(p)),
        None => (s, None),
    }
}

/// Splits a range written `addr` or `addr/prefix` into its address text and prefix text.
pub fn split_range(s: &str) -> (r: (String, Option<String>))
    ensures
        r.0@ == range_parts(s@).0,
        match r.1 {
            Some(p) => range_parts(s@).1 == Some(p@),
            None => range_parts(s@).1 is None,
        },
{
    match split_once_char(s, '/') {
        Some((a, p)) => (a, Some(p)),
        None => (s.to_owned(), None),
    }
}

/// The range with address `addr` and the prefix written `prefix` (a number from 0 to
/// 255), if the prefix is a number.
pub open spec fn range_of(addr: IpAddress, prefix: Option<Seq<char>>) -> Option<IpRange> {
    match prefix {
        None => Some(IpRange { addr, prefix_len: None }),
        Some(p) => match parse_unsigned(p, 255) {
            Some(n) => Some(IpRange { addr, prefix_len: Some(n as u8) }),
            None => None,
        },
    }
}

/// Whether the prefix of a range fits its address family (at most 32 bits for IPv4, 128
/// for IPv6); a single address always does.
pub open spec fn prefix_fits(r: IpRange) -> bool {
    match r.prefix_len {
        None => true,
        Some(p) => match r.addr {
            IpAddress::V4(_) => p <= 32,
            IpAddress::V6(_) => p <= 128,
        },
    }
}

/// Whether two addresses are of the same family.
pub open spec fn same_family(a: IpAddress, b: IpAddress) -> bool {
    (a is V4 && b is V4) || (a is V6 && b is V6)
}

/// Whether a range can be tested against `ip`: of another family it never holds `ip`;
/// of the same family its prefix must fit.
pub open spec fn testable(r: IpRange, ip: IpAddress) -> bool {
    same_family(r.addr, ip) ==> prefix_fits(r)
}

/// Whether the range holds `ip`: the same address, or, for a block, the same leading
/// `prefix_len` bits; a block of prefix 0 holds every address of its family.
pub open spec fn in_range(r: IpRange, ip: IpAddress) -> bool {
    match (r.addr, ip) {
        (IpAddress::V4(a), IpAddress::V4(b)) => match r.prefix_len {
            None => a == b,
            Some(p) => p == 0 || (a >> ((32 - p) as u32)) == (b >> ((32 - p) as u32)),
        },
        (IpAddress::V6(a), IpAddress::V6(b)) => match r.prefix_len {
            None => a == b,
            Some(p) => p == 0 || (a >> ((128 - p) as u128)) == (b >> ((128 - p) as u128)),
        },
        _ => false,
    }
}

impl IpRange {
    /// The range of `addr` with the prefix written `prefix`, if the prefix is a number
    /// from 0 to 255; `None` otherwise. (The address itself is read outside this crate.)
    pub fn from_parts(addr: IpAddress, prefix: Option<&str>) -> (r: Option<IpRange>)
        ensures
            r == range_of(addr, opt_view(prefix)),
    {
        match prefix {
            None => Some(IpRange { addr, prefix_len: None }),
            Some(p) => match parse_unsigned_chars(&chars_of(p), 255) {
                Some(n) => Some(IpRange { addr, prefix_len: Some(n as u8) }),
                None => None,
            },
        }
    }

    /// Whether the range holds `ip`.
    pub fn contains(&self, ip: IpAddress) -> (r: bool)
        requires
            testable(*self, ip),
        ensures
            r == in_range(*self, ip),
    {
        match (self.addr, ip) {
            (IpAddress::V4(range), IpAddress::V4(target)) => match self.prefix_len {
                Some(prefix_len) => {
                    if prefix_len == 0 {
                        return true;
                    }
                    let k: u32 = 32 - prefix_len as u32;
                    (range >> k) == (target >> k)
                },
                None => range == target,
            },
            (IpAddress::V6(range), IpAddress::V6(target)) => match self.prefix_len {
                Some(prefix_len) => {
                    if prefix_len == 0 {
                        return true;
                    }
                    let k: u128 = 128 - prefix_len as u128;
                    (range >> k) == (target >> k)
                },
                None => range == target,
            },
            _ => false,
        }
    }
}

/// Whether some range of `ranges` that can be tested holds `ip`.
pub open spec fn any_holds(ranges: Seq<IpRange>, ip: IpAddress) -> bool {
    exists|i: int| 0 <= i < ranges.len() && testable(ranges[i], ip) && in_range(ranges[i], ip)
}

/// Whether testing `ranges` against `ip` in order, stopping at the first that holds it,
/// never meets a range that cannot be tested.
pub open spec fn scan_testable(ranges: Seq<IpRange>, ip: IpAddress) -> bool {
    forall|i: int|
        0 <= i < ranges.len() && !testable(#[trigger] ranges[i], ip) ==> exists|j: int|
            0 <= j < i && testable(ranges[j], ip) && in_range(ranges[j], ip)
}

/// Tests `ranges` against `ip` in order, stopping at the first that holds it.
fn any_range_holds(ranges: &Vec<IpRange>, ip: IpAddress) -> (r: bool)
    requires
        scan_testable(ranges@, ip),
    ensures
        r == any_holds(ranges@, ip),
{
    let mut i: usize = 0;
    while i < ranges.len()
        invariant
            i <= ranges@.len(),
            scan_testable(ranges@, ip),
            forall|j: int| 0 <= j < i ==> testable(ranges@[j], ip) && !in_range(ranges@[j], ip),
        decreases ranges@.len() - i,
    {
        proof {
            if !testable(ranges@[i as int], ip) {
                let j = choose|j: int| 0 <= j < i && testable(ranges@[j], ip) && in_range(ranges@[j], ip);
                assert(!in_range(ranges@[j], ip));
            }
        }
        if ranges[i].contains(ip) {
            return true;
        }
        i = i + 1;
    }
    false
}

/// How a scan of ranges against an address ends.
pub enum Scan {
    /// A range that cannot be tested comes before any range that holds the address.
    Stuck,
    /// A range holds the address, and every range before it can be tested.
    Holds,
    /// Every range can be tested, and none holds the address.
    Clear,
}

fn first_untestable(ranges: &Vec<IpRange>, ip: IpAddress) -> (r: Scan)
    ensures
        match r {
            Scan::Stuck => !scan_testable(ranges@, ip),
            Scan::Holds => scan_testable(ranges@, ip) && any_holds(ranges@, ip),
            Scan::Clear => scan_testable(ranges@, ip) && !any_holds(ranges@, ip),
        },
{
    let mut i: usize = 0;
    while i < ranges.len()
        invariant
            i <= ranges@.len(),
            forall|j: int| 0 <= j < i ==> testable(ranges@[j], ip) && !in_range(ranges@[j], ip),
        decreases ranges@.len() - i,
    {
        let r = ranges[i];
        let fits = match r.prefix_len {
            None => true,
            Some(p) => match r.addr {
                IpAddress::V4(_) => p <= 32,
                IpAddress::V6(_) => p <= 128,
            },
        };
        let same = match (r.addr, ip) {
            (IpAddress::V4(_), IpAddress::V4(_)) => true,
            (IpAddress::V6(_), IpAddress::V6(_)) => true,
            _ => false,
        };
        if same && !fits {
            proof {
                assert(!testable(ranges@[i as int], ip));
                assert(!scan_testable(ranges@, ip));
            }
            return Scan::Stuck;
        }
        if r.contains(ip) {
            proof {
                assert forall|k: int| 0 <= k < ranges@.len() && !testable(#[trigger] ranges@[k], ip) implies exists|j: int|
                    0 <= j < k && testable(ranges@[j], ip) && in_range(ranges@[j], ip) by {
                    assert(k > i);
                    assert(testable(ranges@[i as int], ip) && in_range(ranges@[i as int], ip));
                }
            }
            return Scan::Holds;
        }
        i = i + 1;
    }
    Scan::Clear
}

/// Blocks requests from addresses that a deny range holds, or, where there are allow
/// ranges, that no allow range holds.
#[derive(Clone, Debug)]
pub struct IpFilterMiddleware {
    pub allow: Vec<IpRange>,
    pub deny: Vec<IpRange>,
    /// Whether the client address is taken from `X-Forwarded-For` before `X-Real-IP`.
    pub trust_xff: bool,
}

/// Whether `ip` may pass: no deny range holds it, and the allow ranges are empty or one
/// of them holds it.
pub open spec fn ip_allowed(f: IpFilterMiddleware, ip: IpAddress) -> bool {
    !any_holds(f.deny@, ip) && (f.allow@.len() == 0 || any_holds(f.allow@, ip))
}

/// Whether deciding on `ip` tests only ranges that can be tested.
pub open spec fn decidable(f: IpFilterMiddleware, ip: IpAddress) -> bool {
    scan_testable(f.deny@, ip) && (!any_holds(f.deny@, ip) ==> scan_testable(f.allow@, ip))
}

/// The first entry of an `X-Forwarded-For` list, without surrounding whitespace.
pub open spec fn first_forwarded(xff: Seq<char>) -> Seq<char> {
    match split_once(xff, ',') {
        Some((a, _)) => trim(a),
        None => trim(xff),
    }
}

/// The first entry of an `X-Forwarded-For` list, without surrounding whitespace.
pub fn forwarded_client(xff: &str) -> (r: String)
    ensures
        r@ == first_forwarded(xff@),
{
    let first = match split_once_char(xff, ',') {
        Some((a, _)) => a,
        None => xff.to_owned(),
    };
    string_of(&trim_chars(&chars_of(first.as_str())))
}

impl Default for IpFilterMiddleware {
    fn default() -> (r: Self)
        ensures
            r.allow@.len() == 0,
            r.deny@.len() == 0,
            !r.trust_xff,
    {
        IpFilterMiddleware::new()
    }
}

impl IpFilterMiddleware {
    /// No ranges: every address passes.
    pub fn new() -> (r: Self)
        ensures
            r.allow@.len() == 0,
            r.deny@.len() == 0,
            !r.trust_xff,
    {
        IpFilterMiddleware { allow: Vec::new(), deny: Vec::new(), trust_xff: false }
    }

    /// A filter with the given ranges (the texts of the `allow` and `deny` settings that
    /// are ranges, read outside this crate) and the `trust_xff` setting.
    pub fn from_config(settings: &Settings, allow: Vec<IpRange>, deny: Vec<IpRange>) -> (r: Self)
        ensures
            r.allow@ == allow@,
            r.deny@ == deny@,
            r.trust_xff == (match bool_setting(*settings, "trust_xff"@) {
                Some(b) => b,
                None => false,
            }),
    {
        let trust_xff = match settings.get_bool("trust_xff") {
            Some(b) => b,
            None => false,
        };
        IpFilterMiddleware { allow, deny, trust_xff }
    }

    /// The middleware's name.
    pub fn name(&self) -> (r: &'static str)
        ensures
            r@ == "ip-filter"@,
    {
        "ip-filter"
    }

    /// The client address: the first `X-Forwarded-For` entry (`forwarded`, as read) when
    /// the filter trusts it and it is an address, else `X-Real-IP` (`real_ip`, as read).
    pub fn client_ip(&self, forwarded: Option<IpAddress>, real_ip: Option<IpAddress>) -> (r: Option<IpAddress>)
        ensures
            r == (if self.trust_xff && forwarded is Some {
                forwarded
            } else {
                real_ip
            }),
    {
        if self.trust_xff && forwarded.is_some() {
            forwarded
        } else {
            real_ip
        }
    }

    /// Whether requests from `ip` pass: deny ranges are tested first, then the allow
    /// ranges, each list in order up to the first range that holds `ip`.
    pub fn is_allowed(&self, ip: IpAddress) -> (r: bool)
        requires
            decidable(*self, ip),
        ensures
            r == ip_allowed(*self, ip),
    {
        if any_range_holds(&self.deny, ip) {
            return false;
        }
        if self.allow.len() == 0 {
            return true;
        }
        any_range_holds(&self.allow, ip)
    }

    /// Whether deciding on `ip` tests only ranges that can be tested (see `decidable`).
    pub fn decides(&self, ip: IpAddress) -> (r: bool)
        ensures
            r == decidable(*self, ip),
    {
        match first_untestable(&self.deny, ip) {
            Scan::Stuck => false,
            Scan::Holds => true,
            Scan::Clear => match first_untestable(&self.allow, ip) {
                Scan::Stuck => false,
                _ => true,
            },
        }
    }

    /// Whether a request from `ip` (if its address is known) is answered `403 Forbidden`.
    pub fn blocks(&self, ip: Option<IpAddress>) -> (r: bool)
        requires
            ip matches Some(a) ==> decidable(*self, a),
        ensures
            r == (ip matches Some(a) && !ip_allowed(*self, a)),
    {
        match ip {
            Some(a) => !self.is_allowed(a),
            None => false,
        }
    }
}

// ---------------------------------------------------------------------------
// Rate limiting
// ---------------------------------------------------------------------------

/// What requests are counted by.
#[derive(Clone, Copy, Debug, PartialEq, Eq, Structural)]
pub enum RateLimitBy {
    /// The client address.
    Ip,
    /// The value of a configured header.
    Header,
    /// The request path.
    Path,
}

/// The requests counted for one key in its current window.
#[derive(Clone, Copy, Debug, PartialEq, Eq, Structural)]
pub struct RateWindow {
    /// Requests seen since the window started.
    pub count: u64,
    /// When the window started, on the clock the caller reads.
    pub window_start: Duration,
}

/// Answers `429 Too Many Requests` once a key has made more than its allowance of
/// requests within a window.
#[derive(Clone, Debug)]
pub struct RateLimitMiddleware {
    pub max_requests: u64,
    pub window: Duration,
    /// Requests allowed above `max_requests` in a window.
    pub burst: u64,
    pub by: RateLimitBy,
    /// The header counted by, for `RateLimitBy::Header`.
    pub header_name: Option<String>,
    /// The window of each key seen.
    pub states: Vec<(String, RateWindow)>,
}

/// How `by` setting names the key: `ip`, `path` or `header:<name>`; anything else counts
/// by address.
pub open spec fn counted_by(by: Seq<char>) -> (RateLimitBy, Option<Seq<char>>) {
    if by == "ip"@ {
        (RateLimitBy::Ip, None)
    } else if by == "path"@ {
        (RateLimitBy::Path, None)
    } else if has_prefix(by, "header:"@) {
        (RateLimitBy::Header, Some(by.skip(7)))
    } else {
        (RateLimitBy::Ip, None)
    }
}

/// The key a request is counted under: the first `X-Forwarded-For` entry, else
/// `X-Real-IP`, else `unknown` (by address); the configured header's value, else
/// `unknown` (by header); the path (by path). Header values are given as read, where
/// they are visible text.
pub open spec fn rate_key(by: RateLimitBy, forwarded: Option<Seq<char>>, real_ip: Option<Seq<char>>, header_value: Option<Seq<char>>, path: Seq<char>) -> Seq<char> {
    match by {
        RateLimitBy::Ip => match forwarded {
            Some(x) => first_forwarded(x),
            None => match real_ip {
                Some(r) => r,
                None => "unknown"@,
            },
        },
        RateLimitBy::Header => match header_value {
            Some(v) => v,
            None => "unknown"@,
        },
        RateLimitBy::Path => path,
    }
}

/// The window a key has after a request at `now`, and whether the request is limited: a
/// key without a window, or whose window is older than `window`, starts a new window with
/// one request and passes; otherwise the request is counted and is limited when
/// `max_requests + burst` requests were already counted.
pub open spec fn rate_step(previous: Option<RateWindow>, now: Duration, window: Duration, limit: int) -> (RateWindow, bool) {
    match previous {
        Some(w) => if (if now.total_nanos() > w.window_start.total_nanos() {
            now.total_nanos() - w.window_start.total_nanos()
        } else {
            0
        }) > window.total_nanos() {
            (RateWindow { count: 1, window_start: now }, false)
        } else {
            (
                RateWindow {
                    count: if w.count == u64::MAX { 0 } else { (w.count + 1) as u64 },
                    window_start: w.window_start,
                },
                w.count >= limit,
            )
        },
        None => (RateWindow { count: 1, window_start: now }, false),
    }
}

impl RateLimitMiddleware {
    /// The window is well formed, each key has one window, and every window started at
    /// a well-formed time.
    pub open spec fn wf(&self) -> bool {
        &&& self.window.wf()
        &&& assoc_keys(self.states@).no_duplicates()
        &&& forall|i: int| 0 <= i < self.states@.len() ==> (#[trigger] self.states@[i]).1.window_start.wf()
    }

    /// 1000 requests a minute, with a burst of 50, by client address.
    pub fn new() -> (r: Self)
        ensures
            r.wf(),
            r.max_requests == 1000,
            r.window.total_nanos() == 60_000_000_000,
            r.burst == 50,
            r.by == RateLimitBy::Ip,
            r.header_name is None,
            r.states@.len() == 0,
    {
        let r = RateLimitMiddleware {
            max_requests: 1000,
            window: Duration::from_secs(60),
            burst: 50,
            by: RateLimitBy::Ip,
            header_name: None,
            states: Vec::new(),
        };
        assert(assoc_keys(r.states@) =~= Seq::<Seq<char>>::empty());
        r
    }

    /// The middleware configured by the settings `requests`, `window` (a duration such as
    /// `30s`, given as read: `window` is `None` where the text is not a duration, which
    /// means a minute), `burst` and `by`; what is absent keeps the value of `new`.
    pub fn from_config(settings: &Settings, window: Option<Duration>) -> (r: Self)
        requires
            window matches Some(d) ==> d.wf(),
        ensures
            r.wf(),
            r.max_requests == (match u64_setting(*settings, "requests"@) {
                Some(n) => n,
                None => 1000,
            }),
            r.window.total_nanos() == (match (text_setting(*settings, "window"@), window) {
                (Some(_), Some(d)) => d.total_nanos(),
                _ => 60_000_000_000,
            }),
            r.burst == (match u64_setting(*settings, "burst"@) {
                Some(n) => n,
                None => 50,
            }),
            r.by == (match text_setting(*settings, "by"@) {
                Some(b) => counted_by(b).0,
                None => RateLimitBy::Ip,
            }),
            match r.header_name {
                Some(h) => text_setting(*settings, "by"@) matches Some(b) && counted_by(b).1 == Some(h@),
                None => match text_setting(*settings, "by"@) {
                    Some(b) => counted_by(b).1 is None,
                    None => true,
                },
            },
            r.states@.len() == 0,
    {
        let mut rl = RateLimitMiddleware::new();
        if let Some(requests) = settings.get_u64("requests") {
            rl.max_requests = requests;
        }
        if let Some(_) = settings.get_str("window") {
            rl.window = match window {
                Some(d) => d,
                None => Duration::from_secs(60),
            };
        }
        if let Some(burst) = settings.get_u64("burst") {
            rl.burst = burst;
        }
        if let Some(by) = settings.get_str("by") {
            proof {
                reveal_strlit("ip");
                reveal_strlit("path");
                reveal_strlit("header:");
            }
            let b = by.as_str();
            if str_eq(b, "ip") {
                rl.by = RateLimitBy::Ip;
            } else if str_eq(b, "path") {
                rl.by = RateLimitBy::Path;
            } else {
                let c = chars_of(b);
                let p = chars_of("header:");
                if crate::text::chars_start_with(&c, &p) {
                    rl.header_name = Some(string_of(&slice_chars(&c, 7, c.len())));
                    rl.by = RateLimitBy::Header;
                    assert(c@.subrange(7, c@.len() as int) =~= b@.skip(7));
                } else {
                    rl.by = RateLimitBy::Ip;
                }
            }
        }
        assert(assoc_keys(rl.states@) =~= Seq::<Seq<char>>::empty());
        rl
    }

    /// The middleware's name.
    pub fn name(&self) -> (r: &'static str)
        ensures
            r@ == "rate-limit"@,
    {
        "rate-limit"
    }

    /// The key a request is counted under (see `rate_key`); `forwarded`, `real_ip` and
    /// `header_value` are the request's `X-Forwarded-For`, `X-Real-IP` and configured
    /// header, where present as visible text.
    pub fn key_for(&self, forwarded: Option<&str>, real_ip: Option<&str>, header_value: Option<&str>, path: &str) -> (r: String)
        ensures
            r@ == rate_key(self.by, opt_view(forwarded), opt_view(real_ip), opt_view(header_value), path@),
    {
        proof {
            reveal_strlit("unknown");
        }
        match self.by {
            RateLimitBy::Ip => match forwarded {
                Some(x) => forwarded_client(x),
                None => match real_ip {
                    Some(r) => r.to_owned(),
                    None => "unknown".to_owned(),
                },
            },
            RateLimitBy::Header => match header_value {
                Some(v) => v.to_owned(),
                None => "unknown".to_owned(),
            },
            RateLimitBy::Path => path.to_owned(),
        }
    }

    /// Counts a request of `key` at `now` and tells whether it is limited (see
    /// `rate_step`); the key's window is replaced by the one the step gives.
    pub fn is_rate_limited(&mut self, key: &str, now: Duration) -> (r: bool)
        requires
            old(self).wf(),
            now.wf(),
            old(self).max_requests + old(self).burst <= u64::MAX,
        ensures
            final(self).wf(),
            final(self).max_requests == old(self).max_requests,
            final(self).window == old(self).window,
            final(self).burst == old(self).burst,
            final(self).by == old(self).by,
            final(self).header_name == old(self).header_name,
            ({
                let previous = if assoc_view(old(self).states@).contains_key(key@) {
                    Some(assoc_view(old(self).states@)[key@])
                } else {
                    None
                };
                let (w, limited) = rate_step(previous, now, old(self).window, old(self).max_requests + old(self).burst);
                &&& r == limited
                &&& assoc_view(final(self).states@) == assoc_view(old(self).states@).insert(key@, w)
            }),
    {
        let k = chars_of(key);
        let limit = self.max_requests + self.burst;
        match assoc_find(&self.states, &k) {
            Some(j) => {
                let w = self.states[j].1;
                proof {
                    assert(self.states@[j as int].1.window_start.wf());
                }
                let elapsed = now.saturating_sub(w.window_start);
                if elapsed.is_longer_than(self.window) {
                    let e = (key.to_owned(), RateWindow { count: 1, window_start: now });
                    proof {
                        lemma_assoc_replace(self.states@, j as int, e);
                    }
                    self.states.set(j, e);
                    false
                } else {
                    let count = w.count;
                    let e = (key.to_owned(), RateWindow { count: count.wrapping_add(1), window_start: w.window_start });
                    proof {
                        lemma_assoc_replace(self.states@, j as int, e);
                    }
                    self.states.set(j, e);
                    count >= limit
                }
            },
            None => {
                let e = (key.to_owned(), RateWindow { count: 1, window_start: now });
                proof {
                    lemma_assoc_push(self.states@, e);
                    assert forall|i: int| 0 <= i < self.states@.len() implies #[trigger] assoc_keys(self.states@)[i] != key@ by {
                        lemma_assoc_has_key(self.states@, i);
                    }
                    assert(assoc_keys(self.states@.push(e)) =~= assoc_keys(self.states@).push(key@));
                }
                self.states.push(e);
                false
            },
        }
    }

    /// The body, headers and `Retry-After` value of the `429` answer: a JSON error, as
    /// `application/json`, retrying after the window's whole seconds.
    pub fn limited_answer(&self) -> (r: (String, Vec<(String, String)>))
        ensures
            r.0@ == "{\"error\": \"rate limited\"}"@,
            pair_views(r.1@) == seq![
                ("content-type"@, "application/json"@),
                ("retry-after"@, decimal(self.window.secs as nat)),
            ],
    {
        let mut h: Vec<(String, String)> = Vec::new();
        h.push(("content-type".to_owned(), "application/json".to_owned()));
        h.push(("retry-after".to_owned(), string_of(&u64_decimal(self.window.secs))));
        assert(pair_views(h@) =~= seq![
            ("content-type"@, "application/json"@),
            ("retry-after"@, decimal(self.window.secs as nat)),
        ]);
        ("{\"error\": \"rate limited\"}".to_owned(), h)
    }
}

// ---------------------------------------------------------------------------
// Header rewriting
// ---------------------------------------------------------------------------

/// The values a header list holds for the name `n`, in order.
pub open spec fn values_of(h: Seq<(String, String)>, n: Seq<char>) -> Seq<Seq<char>>
    decreases h.len(),
{
    if h.len() == 0 {
        Seq::empty()
    } else if h.last().0@ == n {
        values_of(h.drop_last(), n).push(h.last().1@)
    } else {
        values_of(h.drop_last(), n)
    }
}

/// Removes every header named `n`.
fn remove_named(h: &mut Vec<(String, String)>, n: &str)
    ensures
        forall|m: Seq<char>| #[trigger] values_of(final(h)@, m) == if m == n@ {
            Seq::empty()
        } else {
            values_of(old(h)@, m)
        },
{
    let ghost start = h@;
    let mut out: Vec<(String, String)> = Vec::new();
    let mut i: usize = 0;
    while i < h.len()
        invariant
            i <= h@.len(),
            h@ == start,
            forall|m: Seq<char>| #[trigger] values_of(out@, m) == if m == n@ {
                Seq::empty()
            } else {
                values_of(start.take(i as int), m)
            },
        decreases h@.len() - i,
    {
        let ghost before = out@;
        let ghost t = start.take(i + 1);
        assert(t.drop_last() =~= start.take(i as int));
        assert(t.last() == start[i as int]);
        let keep = !str_eq(h[i].0.as_str(), n);
        if keep {
            let e = (h[i].0.clone(), h[i].1.clone());
            out.push(e);
            assert(out@.drop_last() =~= before);
            assert(out@.last() == e);
        }
        proof {
            assert forall|m: Seq<char>| #[trigger] values_of(out@, m) == if m == n@ {
                Seq::empty()
            } else {
                values_of(t, m)
            } by {
                assert(values_of(before, m) == if m == n@ {
                    Seq::<Seq<char>>::empty()
                } else {
                    values_of(start.take(i as int), m)
                });
                if keep {
                    assert(values_of(out@, m) == if out@.last().0@ == m {
                        values_of(before, m).push(out@.last().1@)
                    } else {
                        values_of(before, m)
                    });
                }
                assert(values_of(t, m) == if t.last().0@ == m {
                    values_of(start.take(i as int), m).push(t.last().1@)
                } else {
                    values_of(start.take(i as int), m)
                });
            }
        }
        i = i + 1;
    }
    assert(start.take(start.len() as int) =~= start);
    *h = out;
}

/// Whether some header is named `n`.
fn has_named(h: &Vec<(String, String)>, n: &str) -> (r: bool)
    ensures
        r == (values_of(h@, n@).len() > 0),
{
    let mut i: usize = 0;
    while i < h.len()
        invariant
            i <= h@.len(),
            values_of(h@.take(i as int), n@).len() == 0,
        decreases h@.len() - i,
    {
        assert(h@.take(i + 1).drop_last() =~= h@.take(i as int));
        if str_eq(h[i].0.as_str(), n) {
            proof {
                lemma_values_grow(h@, (i + 1) as int, n@);
            }
            return true;
        }
        i = i + 1;
    }
    assert(h@.take(h@.len() as int) =~= h@);
    false
}

proof fn lemma_values_grow(h: Seq<(String, String)>, k: int, n: Seq<char>)
    requires
        0 < k <= h.len(),
        h[k - 1].0@ == n,
    ensures
        values_of(h, n).len() > 0,
    decreases h.len(),
{
    if k < h.len() {
        assert(h.drop_last()[k - 1] == h[k - 1]);
        lemma_values_grow(h.drop_last(), k, n);
    }
}

/// Sets the header `n` to the one value `v`.
fn insert_named(h: &mut Vec<(String, String)>, n: &str, v: &str)
    ensures
        forall|m: Seq<char>| #[trigger] values_of(final(h)@, m) == if m == n@ {
            seq![v@]
        } else {
            values_of(old(h)@, m)
        },
{
    remove_named(h, n);
    let ghost before = h@;
    h.push((n.to_owned(), v.to_owned()));
    assert(h@.drop_last() =~= before);
    assert forall|m: Seq<char>| #[trigger] values_of(h@, m) == if m == n@ {
        seq![v@]
    } else {
        values_of(old(h)@, m)
    } by {
        assert(values_of(before, m) == if m == n@ {
            Seq::<Seq<char>>::empty()
        } else {
            values_of(old(h)@, m)
        });
        assert(values_of(h@, m) == if h@.last().0@ == m {
            values_of(before, m).push(h@.last().1@)
        } else {
            values_of(before, m)
        });
        if m == n@ {
            assert(values_of(h@, m) =~= seq![v@]);
        }
    }
}

/// Adds, removes and overwrites request headers.
#[derive(Clone, Debug)]
pub struct HeadersMiddleware {
    /// Headers to add where the request has none of that name.
    pub add: Vec<(String, String)>,
    pub remove: Vec<String>,
    /// Headers to set, replacing those of the request.
    pub set: Vec<(String, String)>,
}

/// Whether the list of names has one that names the header `n`.
pub open spec fn names_header(names: Seq<String>, n: Seq<char>) -> bool {
    exists|i: int| 0 <= i < names.len() && header_name_of(#[trigger] names[i]@) == Some(n)
}

/// Whether an entry is a valid header for the name `n`.
pub open spec fn entry_for(e: (String, String), n: Seq<char>) -> bool {
    header_name_of(e.0@) == Some(n) && is_header_value(e.1@)
}

/// The value of the first entry of `entries` valid for the name `n`.
pub open spec fn first_entry_for(entries: Seq<(String, String)>, n: Seq<char>) -> Option<Seq<char>>
    decreases entries.len(),
{
    if entries.len() == 0 {
        None
    } else if entry_for(entries[0], n) {
        Some(entries[0].1@)
    } else {
        first_entry_for(entries.drop_first(), n)
    }
}

/// The value of the last entry of `entries` valid for the name `n`.
pub open spec fn last_entry_for(entries: Seq<(String, String)>, n: Seq<char>) -> Option<Seq<char>>
    decreases entries.len(),
{
    if entries.len() == 0 {
        None
    } else if entry_for(entries.last(), n) {
        Some(entries.last().1@)
    } else {
        last_entry_for(entries.drop_last(), n)
    }
}

/// The values of the header `n` after the rewrite, `old` being its values before: a set
/// entry decides (the last for `n`); else, where the header is absent once removals are
/// done, an add entry (the first for `n`); else the removals.
pub open spec fn rewritten(m: HeadersMiddleware, old: Seq<Seq<char>>, n: Seq<char>) -> Seq<Seq<char>> {
    let kept = if names_header(m.remove@, n) { Seq::empty() } else { old };
    match last_entry_for(m.set@, n) {
        Some(v) => seq![v],
        None => match first_entry_for(m.add@, n) {
            Some(v) => if kept.len() == 0 { seq![v] } else { kept },
            None => kept,
        },
    }
}

proof fn lemma_first_entry_step(entries: Seq<(String, String)>, i: int, n: Seq<char>)
    requires
        0 <= i < entries.len(),
    ensures
        first_entry_for(entries.take(i + 1), n) == match first_entry_for(entries.take(i), n) {
            Some(v) => Some(v),
            None => if entry_for(entries[i], n) {
                Some(entries[i].1@)
            } else {
                None
            },
        },
    decreases i,
{
    let t = entries.take(i + 1);
    assert(t[0] == entries[0]);
    if i == 0 {
        assert(t.drop_first() =~= Seq::<(String, String)>::empty());
        assert(entries.take(0) =~= Seq::<(String, String)>::empty());
    } else {
        let d = entries.drop_first();
        assert(entries.take(i)[0] == entries[0]);
        assert(t.drop_first() =~= d.take(i));
        assert(entries.take(i).drop_first() =~= d.take(i - 1));
        lemma_first_entry_step(d, i - 1, n);
        assert(d[i - 1] == entries[i]);
        if !entry_for(entries[0], n) {
            assert(first_entry_for(t, n) == first_entry_for(d.take(i), n));
            assert(first_entry_for(entries.take(i), n) == first_entry_for(d.take(i - 1), n));
        }
    }
}

impl HeadersMiddleware {
    /// No rewriting.
    pub fn new() -> (r: Self)
        ensures
            r.add@.len() == 0,
            r.remove@.len() == 0,
            r.set@.len() == 0,
    {
        HeadersMiddleware { add: Vec::new(), remove: Vec::new(), set: Vec::new() }
    }

    /// The middleware configured by the settings `add` and `set` (tables of texts) and
    /// `remove` (a list of texts).
    pub fn from_config(settings: &Settings) -> (r: Self)
        ensures
            pair_views(r.add@) == (match table_setting(*settings, "add"@) {
                Some(t) => t,
                None => Seq::empty(),
            }),
            string_views(r.remove@) == (match list_setting(*settings, "remove"@) {
                Some(l) => l,
                None => Seq::empty(),
            }),
            pair_views(r.set@) == (match table_setting(*settings, "set"@) {
                Some(t) => t,
                None => Seq::empty(),
            }),
    {
        let mut headers = HeadersMiddleware::new();
        if let Some(add) = settings.get_str_table("add") {
            headers.add = add;
        }
        if let Some(remove) = settings.get_str_list("remove") {
            headers.remove = remove;
        }
        if let Some(set) = settings.get_str_table("set") {
            headers.set = set;
        }
        assert(pair_views(headers.add@) =~= (match table_setting(*settings, "add"@) {
            Some(t) => t,
            None => Seq::<(Seq<char>, Seq<char>)>::empty(),
        }));
        assert(string_views(headers.remove@) =~= (match list_setting(*settings, "remove"@) {
            Some(l) => l,
            None => Seq::<Seq<char>>::empty(),
        }));
        assert(pair_views(headers.set@) =~= (match table_setting(*settings, "set"@) {
            Some(t) => t,
            None => Seq::<(Seq<char>, Seq<char>)>::empty(),
        }));
        headers
    }

    /// The middleware's name.
    pub fn name(&self) -> (r: &'static str)
        ensures
            r@ == "headers"@,
    {
        "headers"
    }

    /// Rewrites the request headers `h`: removes the headers named in `remove`, adds each
    /// `add` entry whose header is then absent, and sets each `set` entry; entries whose
    /// name or value is not valid are skipped.
    pub fn apply(&self, h: &mut Vec<(String, String)>)
        ensures
            forall|n: Seq<char>| #[trigger] values_of(final(h)@, n) == rewritten(*self, values_of(old(h)@, n), n),
    {
        let ghost start = h@;
        let mut i: usize = 0;
        while i < self.remove.len()
            invariant
                i <= self.remove@.len(),
                forall|n: Seq<char>| #[trigger] values_of(h@, n) == if names_header(self.remove@.take(i as int), n) {
                    Seq::empty()
                } else {
                    values_of(start, n)
                },
            decreases self.remove@.len() - i,
        {
            let ghost before = h@;
            match header_name(self.remove[i].as_str()) {
                Some(hn) => {
                    remove_named(h, hn.as_str());
                },
                None => {},
            }
            proof {
                assert forall|n: Seq<char>| #[trigger] values_of(h@, n) == if names_header(self.remove@.take(i + 1), n) {
                    Seq::empty()
                } else {
                    values_of(start, n)
                } by {
                    let t = self.remove@.take(i + 1);
                    if header_name_of(self.remove@[i as int]@) == Some(n) {
                        assert(t[i as int] == self.remove@[i as int]);
                    }
                    if names_header(self.remove@.take(i as int), n) {
                        let j = choose|j: int| 0 <= j < i && header_name_of(#[trigger] self.remove@.take(i as int)[j]@) == Some(n);
                        assert(t[j] == self.remove@.take(i as int)[j]);
                    }
                    if names_header(t, n) {
                        let j = choose|j: int| 0 <= j < t.len() && header_name_of(#[trigger] t[j]@) == Some(n);
                        if j < i {
                            assert(self.remove@.take(i as int)[j] == t[j]);
                        }
                    }
                }
            }
            i = i + 1;
        }
        assert(self.remove@.take(self.remove@.len() as int) =~= self.remove@);
        let ghost removed = h@;
        let mut i: usize = 0;
        while i < self.add.len()
            invariant
                i <= self.add@.len(),
                forall|n: Seq<char>| #[trigger] values_of(h@, n) == match first_entry_for(self.add@.take(i as int), n) {
                    Some(v) => if values_of(removed, n).len() == 0 { seq![v] } else { values_of(removed, n) },
                    None => values_of(removed, n),
                },
            decreases self.add@.len() - i,
        {
            let ghost before = h@;
            match header_name(self.add[i].0.as_str()) {
                Some(hn) => {
                    if header_value_ok(self.add[i].1.as_str()) {
                        if !has_named(h, hn.as_str()) {
                            insert_named(h, hn.as_str(), self.add[i].1.as_str());
                        }
                    }
                },
                None => {},
            }
            proof {
                assert forall|n: Seq<char>| #[trigger] values_of(h@, n) == match first_entry_for(self.add@.take(i + 1), n) {
                    Some(v) => if values_of(removed, n).len() == 0 { seq![v] } else { values_of(removed, n) },
                    None => values_of(removed, n),
                } by {
                    lemma_first_entry_step(self.add@, i as int, n);
                    assert(values_of(before, n) == values_of(before, n));
                }
            }
            i = i + 1;
        }
        assert(self.add@.take(self.add@.len() as int) =~= self.add@);
        let ghost added = h@;
        let mut i: usize = 0;
        while i < self.set.len()
            invariant
                i <= self.set@.len(),
                forall|n: Seq<char>| #[trigger] values_of(h@, n) == match last_entry_for(self.set@.take(i as int), n) {
                    Some(v) => seq![v],
                    None => values_of(added, n),
                },
            decreases self.set@.len() - i,
        {
            let ghost before = h@;
            match header_name(self.set[i].0.as_str()) {
                Some(hn) => {
                    if header_value_ok(self.set[i].1.as_str()) {
                        insert_named(h, hn.as_str(), self.set[i].1.as_str());
                    }
                },
                None => {},
            }
            proof {
                assert forall|n: Seq<char>| #[trigger] values_of(h@, n) == match last_entry_for(self.set@.take(i + 1), n) {
                    Some(v) => seq![v],
                    None => values_of(added, n),
                } by {
                    let t = self.set@.take(i + 1);
                    assert(t.drop_last() =~= self.set@.take(i as int));
                    assert(t.last() == self.set@[i as int]);
                    assert(values_of(before, n) == values_of(before, n));
                }
            }
            i = i + 1;
        }
        assert(self.set@.take(self.set@.len() as int) =~= self.set@);
    }
}

// ---------------------------------------------------------------------------
// The chain
// ---------------------------------------------------------------------------

/// A middleware as configured: its type and its table of settings, under which the
/// middleware's own settings stand at the key that is its type.
#[derive(Clone, Debug)]
pub struct ProxyPluginConfig {
    pub plugin_type: String,
    pub config: Vec<(String, Settings)>,
}

/// The kinds of middleware.
#[derive(Clone, Copy, Debug, PartialEq, Eq, Structural)]
pub enum MiddlewareKind {
    Cors,
    RateLimit,
    Headers,
    IpFilter,
}

/// The kind a type names: `cors`, `rate-limit`, `headers`, `ip-filter`.
pub open spec fn kind_named(t: Seq<char>) -> Option<MiddlewareKind> {
    if t == "cors"@ {
        Some(MiddlewareKind::Cors)
    } else if t == "rate-limit"@ {
        Some(MiddlewareKind::RateLimit)
    } else if t == "headers"@ {
        Some(MiddlewareKind::Headers)
    } else if t == "ip-filter"@ {
        Some(MiddlewareKind::IpFilter)
    } else {
        None
    }
}

/// The chain the first `n` configured middlewares give: the kind and position of each
/// whose type is known, in order; others are skipped.
pub open spec fn plan_of(plugins: Seq<ProxyPluginConfig>, n: nat) -> Seq<(MiddlewareKind, usize)>
    decreases n,
{
    if n == 0 || n > plugins.len() {
        Seq::empty()
    } else {
        let rest = plan_of(plugins, (n - 1) as nat);
        match kind_named(plugins[n - 1].plugin_type@) {
            Some(k) => rest.push((k, (n - 1) as usize)),
            None => rest,
        }
    }
}

/// The kind a type names.
pub fn kind_of(t: &str) -> (r: Option<MiddlewareKind>)
    ensures
        r == kind_named(t@),
{
    proof {
        reveal_strlit("cors");
        reveal_strlit("rate-limit");
        reveal_strlit("headers");
        reveal_strlit("ip-filter");
    }
    if str_eq(t, "cors") {
        Some(MiddlewareKind::Cors)
    } else if str_eq(t, "rate-limit") {
        Some(MiddlewareKind::RateLimit)
    } else if str_eq(t, "headers") {
        Some(MiddlewareKind::Headers)
    } else if str_eq(t, "ip-filter") {
        Some(MiddlewareKind::IpFilter)
    } else {
        None
    }
}

/// The middleware chain the configuration gives, in order: the kind of each middleware
/// whose type is known, with its position in `plugins`.
pub fn chain_plan(plugins: &Vec<ProxyPluginConfig>) -> (r: Vec<(MiddlewareKind, usize)>)
    ensures
        r@ == plan_of(plugins@, plugins@.len()),
{
    let mut r: Vec<(MiddlewareKind, usize)> = Vec::new();
    let mut i: usize = 0;
    while i < plugins.len()
        invariant
            i <= plugins@.len(),
            r@ == plan_of(plugins@, i as nat),
        decreases plugins@.len() - i,
    {
        match kind_of(plugins[i].plugin_type.as_str()) {
            Some(k) => {
                r.push((k, i));
            },
            None => {},
        }
        i = i + 1;
    }
    r
}

/// The settings of a middleware: those under the key that is its type, if its table
/// has that key.
pub open spec fn own_settings(p: ProxyPluginConfig) -> Option<Settings> {
    if assoc_view(p.config@).contains_key(p.plugin_type@) {
        Some(assoc_view(p.config@)[p.plugin_type@])
    } else {
        None
    }
}

/// The settings of a middleware, if its table has them (else it is configured by an
/// empty object).
pub fn plugin_settings(p: &ProxyPluginConfig) -> (r: Option<&Settings>)
    ensures
        match r {
            Some(s) => own_settings(*p) == Some(*s),
            None => own_settings(*p) is None,
        },
{
    let k = chars_of(p.plugin_type.as_str());
    match assoc_find(&p.config, &k) {
        Some(j) => Some(&p.config[j].1),
        None => None,
    }
}

} // verus!
