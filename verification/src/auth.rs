//! Install tokens, the origin allowlist, and credentials carried by request
//! headers.

use vstd::prelude::*;
use crate::external::{
    duration_nanos, first_header_text, getrandom_fill, header_text, hex_encode, hex_lower,
    http_uri_parts, lower_header_name, parse_uri_parts, since_unix_epoch, system_time_now,
    uri_parts_view, UriParts,
};
use crate::text::{
    chars_eq, chars_eq_str, ends_with, ends_with_str, occurs_at, starts_with, starts_with_str,
    str_chars, string_from_chars, sub_chars, trim, trim_chars, trimmed_chars,
};

verus! {

/// Bytes of entropy in an install token.
pub const TOKEN_BYTES: usize = 32;

/// Whether a provided credential matches the expected one: both trimmed, the
/// expected one not blank, and equal.
pub open spec fn spec_tokens_match(expected: Seq<char>, provided: Seq<char>) -> bool {
    trim(expected).len() > 0 && trim(expected) == trim(provided)
}

proof fn lemma_or_xor_zero(acc: u32, a: u32, b: u32)
    ensures
        ((acc | (a ^ b)) == 0) == (acc == 0 && a == b),
{
    assert(((acc | (a ^ b)) == 0) == (acc == 0 && a == b)) by (bit_vector);
}

/// Compare a provided credential with the expected one, trimmed, without an
/// early exit on the first differing character.
pub fn tokens_match(expected: &str, provided: &str) -> (r: bool)
    ensures
        r == spec_tokens_match(expected@, provided@),
{
    let e = trimmed_chars(expected);
    let p = trimmed_chars(provided);
    if e.len() == 0 || e.len() != p.len() {
        return false;
    }
    let mut acc: u32 = 0;
    let mut i: usize = 0;
    while i < e.len()
        invariant
            e@.len() == p@.len(),
            i <= e@.len(),
            (acc == 0) == (forall|j: int| 0 <= j < i ==> e@[j] == p@[j]),
        decreases e@.len() - i,
    {
        let a = e[i] as u32;
        let b = p[i] as u32;
        proof {
            lemma_or_xor_zero(acc, a, b);
            vstd::utf8::char_u32_cast(e@[i as int], a);
            vstd::utf8::char_u32_cast(p@[i as int], b);
            assert((a == b) == (e@[i as int] == p@[i as int]));
        }
        acc = acc | (a ^ b);
        i = i + 1;
    }
    proof {
        if acc == 0 {
            assert(e@ =~= p@);
        }
    }
    acc == 0
}

/// The fallback token byte `i` derived from a clock reading.
pub open spec fn fallback_token_byte(now_nanos: u128, i: int) -> u8 {
    ((((now_nanos >> (((i % 16) * 8) as u128)) as u8) as int + i) % 256) as u8
}

/// Token bytes: the random ones when the operating system supplied them,
/// otherwise bytes derived from the clock reading.
pub fn token_bytes(random_ok: bool, random: Vec<u8>, now_nanos: u128) -> (r: Vec<u8>)
    requires
        random@.len() == TOKEN_BYTES,
    ensures
        r@.len() == TOKEN_BYTES,
        random_ok ==> r@ == random@,
        !random_ok ==> forall|i: int| 0 <= i < TOKEN_BYTES ==> r@[i] == fallback_token_byte(now_nanos, i),
{
    if random_ok {
        return random;
    }
    let mut bytes: Vec<u8> = Vec::new();
    let mut i: usize = 0;
    while i < TOKEN_BYTES
        invariant
            i <= TOKEN_BYTES,
            bytes@.len() == i,
            forall|k: int| 0 <= k < i ==> bytes@[k] == fallback_token_byte(now_nanos, k),
        decreases TOKEN_BYTES - i,
    {
        let shift = ((i % 16) * 8) as u128;
        let low = (now_nanos >> shift) as u8;
        let b = ((low as u16 + i as u16) % 256) as u8;
        bytes.push(b);
        i = i + 1;
    }
    bytes
}

/// A fresh install token: 32 bytes from the operating system's random source
/// (or, if that fails, derived from the clock), as 64 lower-case hex digits.
pub fn generate_token() -> (r: String)
    ensures
        exists|b: Seq<u8>| b.len() == TOKEN_BYTES && r@ == hex_lower(b),
{
    let mut random: Vec<u8> = Vec::new();
    let mut i: usize = 0;
    while i < TOKEN_BYTES
        invariant
            i <= TOKEN_BYTES,
            random@.len() == i,
        decreases TOKEN_BYTES - i,
    {
        random.push(0u8);
        i = i + 1;
    }
    let ok = getrandom_fill(&mut random);
    let now: u128 = if ok {
        0
    } else {
        let t = system_time_now();
        match since_unix_epoch(&t) {
            Some(d) => duration_nanos(&d),
            None => 0,
        }
    };
    let bytes = token_bytes(ok, random, now);
    hex_encode(bytes.as_slice())
}

/// The hosts of the local machine; an IPv6 host is written in brackets in a URI.
pub open spec fn loopback_host(host: Seq<char>) -> bool {
    host == "localhost"@ || host == "127.0.0.1"@ || host == "::1"@ || host == "[::1]"@
}

/// Finvoroo's own domain and its subdomains.
pub open spec fn finvoroo_host(host: Seq<char>) -> bool {
    host == "finvoroo.com"@ || ends_with(host, ".finvoroo.com"@)
}

/// The origin rule on a URI's scheme and host (blank when absent): the local
/// machine over http, Finvoroo hosts over https.
pub open spec fn spec_origin_rule(scheme: Seq<char>, host: Seq<char>) -> bool {
    if loopback_host(host) {
        scheme == "http"@
    } else if finvoroo_host(host) {
        scheme == "https"@
    } else {
        false
    }
}

/// An optional text, blank when absent.
pub open spec fn or_blank(o: Option<Seq<char>>) -> Seq<char> {
    match o {
        Some(s) => s,
        None => Seq::empty(),
    }
}

/// Whether an origin text is on the allowlist.
pub open spec fn spec_origin_allowed(origin: Seq<char>) -> bool {
    match http_uri_parts(trim(origin)) {
        None => false,
        Some((scheme, host, _)) => spec_origin_rule(or_blank(scheme), or_blank(host)),
    }
}

/// The origin rule on a parsed URI's scheme and host.
pub fn origin_parts_allowed(scheme: Option<&str>, host: Option<&str>) -> (r: bool)
    ensures
        r == spec_origin_rule(
            or_blank(match scheme {
                Some(s) => Some(s@),
                None => None,
            }),
            or_blank(match host {
                Some(h) => Some(h@),
                None => None,
            }),
        ),
{
    let h: Vec<char> = match host {
        Some(h) => str_chars(h),
        None => Vec::new(),
    };
    let s: Vec<char> = match scheme {
        Some(s) => str_chars(s),
        None => Vec::new(),
    };
    if chars_eq_str(&h, "localhost") || chars_eq_str(&h, "127.0.0.1") || chars_eq_str(&h, "::1")
        || chars_eq_str(&h, "[::1]") {
        return chars_eq_str(&s, "http");
    }
    if chars_eq_str(&h, "finvoroo.com") || ends_with_str(&h, ".finvoroo.com") {
        return chars_eq_str(&s, "https");
    }
    false
}

/// Whether a browser origin may pair with or print through the agent:
/// `http://localhost`, `http://127.0.0.1`, `http://[::1]` (any port), and
/// `https://finvoroo.com` or any `https://*.finvoroo.com`.
pub fn origin_is_allowed(origin: &str) -> (r: bool)
    ensures
        r == spec_origin_allowed(origin@),
{
    let t = trimmed_chars(origin);
    let text = string_from_chars(&t);
    match parse_uri_parts(text.as_str()) {
        None => false,
        Some(parts) => {
            let scheme: Option<&str> = match &parts.scheme {
                Some(s) => Some(s.as_str()),
                None => None,
            };
            let host: Option<&str> = match &parts.host {
                Some(h) => Some(h.as_str()),
                None => None,
            };
            origin_parts_allowed(scheme, host)
        },
    }
}

} // verus!

verus! {

/// The credential after a `Bearer ` (or `bearer `) prefix of a trimmed
/// `Authorization` value.
pub open spec fn bearer_rest(authorization: Seq<char>) -> Option<Seq<char>> {
    let t = trim(authorization);
    if starts_with(t, "Bearer "@) {
        Some(t.subrange("Bearer "@.len() as int, t.len() as int))
    } else if starts_with(t, "bearer "@) {
        Some(t.subrange("bearer "@.len() as int, t.len() as int))
    } else {
        None
    }
}

/// The credential of a request: the trimmed `X-Finvoroo-Print-Token` value
/// when it is not blank, otherwise the trimmed bearer credential of
/// `Authorization` when it is not blank.
pub open spec fn spec_token_from_values(custom: Option<Seq<char>>, authorization: Option<Seq<char>>) -> Option<
    Seq<char>,
> {
    if custom is Some && trim(custom.unwrap()).len() > 0 {
        Some(trim(custom.unwrap()))
    } else {
        match authorization {
            Some(a) => match bearer_rest(a) {
                Some(rest) => if trim(rest).len() > 0 {
                    Some(trim(rest))
                } else {
                    None
                },
                None => None,
            },
            None => None,
        }
    }
}

/// The characters of an optional `String`.
pub open spec fn opt_view(o: Option<String>) -> Option<Seq<char>> {
    match o {
        Some(s) => Some(s@),
        None => None,
    }
}

/// The characters of an optional string slice.
pub open spec fn opt_str(o: Option<&str>) -> Option<Seq<char>> {
    match o {
        Some(s) => Some(s@),
        None => None,
    }
}

/// The credential carried by a custom token header value and an
/// `Authorization` header value.
pub fn token_from_header_values(custom: Option<&str>, authorization: Option<&str>) -> (r: Option<String>)
    ensures
        opt_view(r) == spec_token_from_values(opt_str(custom), opt_str(authorization)),
{
    match custom {
        Some(c) => {
            let t = trimmed_chars(c);
            if t.len() > 0 {
                return Some(string_from_chars(&t));
            }
        },
        None => {},
    }
    match authorization {
        Some(a) => {
            let t = trimmed_chars(a);
            let rest: Vec<char> = if starts_with_str(&t, "Bearer ") {
                let p = str_chars("Bearer ");
                sub_chars(&t, p.len(), t.len())
            } else if starts_with_str(&t, "bearer ") {
                let p = str_chars("bearer ");
                sub_chars(&t, p.len(), t.len())
            } else {
                return None;
            };
            let rt = trim_chars(&rest);
            if rt.len() > 0 {
                Some(string_from_chars(&rt))
            } else {
                None
            }
        },
        None => None,
    }
}

/// The origin carried by an `Origin` header value: trimmed, and only when
/// not blank.
pub fn origin_from_header_value(value: Option<&str>) -> (r: Option<String>)
    ensures
        (opt_str(value) is Some && trim(opt_str(value).unwrap()).len() > 0) ==> opt_view(r) == Some(
            trim(opt_str(value).unwrap()),
        ),
        !(opt_str(value) is Some && trim(opt_str(value).unwrap()).len() > 0) ==> r is None,
{
    match value {
        Some(v) => {
            let t = trimmed_chars(v);
            if t.len() > 0 {
                Some(string_from_chars(&t))
            } else {
                None
            }
        },
        None => None,
    }
}

/// The `Origin` header of a request, trimmed, when present and not blank.
pub fn origin_from_headers(headers: &http::HeaderMap) -> (r: Option<String>)
    ensures
        ({
            let v = first_header_text(crate::external::header_entries(*headers), "origin"@);
            &&& (v is Some && trim(v.unwrap()).len() > 0) ==> opt_view(r) == Some(trim(v.unwrap()))
            &&& !(v is Some && trim(v.unwrap()).len() > 0) ==> r is None
        }),
{
    proof {
        reveal_strlit("origin");
    }
    let value = header_text(headers, "origin");
    match &value {
        Some(v) => origin_from_header_value(Some(v.as_str())),
        None => origin_from_header_value(None),
    }
}

/// The credential of a request: the `X-Finvoroo-Print-Token` header, or a
/// bearer credential in `Authorization`.
pub fn token_from_headers(headers: &http::HeaderMap) -> (r: Option<String>)
    ensures
        opt_view(r) == spec_token_from_values(
            first_header_text(crate::external::header_entries(*headers), "x-finvoroo-print-token"@),
            first_header_text(crate::external::header_entries(*headers), "authorization"@),
        ),
{
    proof {
        reveal_strlit("x-finvoroo-print-token");
        reveal_strlit("authorization");
    }
    let custom = header_text(headers, "x-finvoroo-print-token");
    let auth = header_text(headers, "authorization");
    let c: Option<&str> = match &custom {
        Some(s) => Some(s.as_str()),
        None => None,
    };
    let a: Option<&str> = match &auth {
        Some(s) => Some(s.as_str()),
        None => None,
    };
    token_from_header_values(c, a)
}

/// Two parsed origins are the same local pairing: both on the local machine,
/// with the same scheme and port.
pub open spec fn spec_loopback_parts_match(
    a: (Option<Seq<char>>, Option<Seq<char>>, Option<u16>),
    b: (Option<Seq<char>>, Option<Seq<char>>, Option<u16>),
) -> bool {
    loopback_host(or_blank(a.1)) && loopback_host(or_blank(b.1)) && a.0 == b.0 && a.2 == b.2
}

/// Two origins are the same pairing: equal once trimmed, or both on the local
/// machine with the same scheme and port.
pub open spec fn spec_origins_match(a: Seq<char>, b: Seq<char>) -> bool {
    trim(a) == trim(b) || match (http_uri_parts(trim(a)), http_uri_parts(trim(b))) {
        (Some(pa), Some(pb)) => spec_loopback_parts_match(pa, pb),
        _ => false,
    }
}

fn is_loopback_host(host: &Option<String>) -> (r: bool)
    ensures
        r == loopback_host(or_blank(opt_view(*host))),
{
    let h: Vec<char> = match host {
        Some(h) => str_chars(h.as_str()),
        None => Vec::new(),
    };
    chars_eq_str(&h, "localhost") || chars_eq_str(&h, "127.0.0.1") || chars_eq_str(&h, "::1")
        || chars_eq_str(&h, "[::1]")
}

fn opt_strings_eq(a: &Option<String>, b: &Option<String>) -> (r: bool)
    ensures
        r == (opt_view(*a) == opt_view(*b)),
{
    match (a, b) {
        (Some(x), Some(y)) => {
            let xc = str_chars(x.as_str());
            let yc = str_chars(y.as_str());
            chars_eq(&xc, &yc)
        },
        (None, None) => true,
        _ => false,
    }
}

/// Whether two parsed origins are the same local pairing: both hosts name the
/// local machine and scheme and port agree.
pub fn loopback_parts_match(a: &UriParts, b: &UriParts) -> (r: bool)
    ensures
        r == spec_loopback_parts_match(uri_parts_view(Some(*a)).unwrap(), uri_parts_view(Some(*b)).unwrap()),
{
    is_loopback_host(&a.host) && is_loopback_host(&b.host) && opt_strings_eq(&a.scheme, &b.scheme) && a.port
        == b.port
}

/// Whether two origins belong to the same pairing on this machine: the same
/// text, or `localhost` / `127.0.0.1` / `::1` with the same scheme and port.
pub fn origins_match_for_reconnect(a: &str, b: &str) -> (r: bool)
    ensures
        r == spec_origins_match(a@, b@),
{
    let ta = trimmed_chars(a);
    let tb = trimmed_chars(b);
    if chars_eq(&ta, &tb) {
        return true;
    }
    let sa = string_from_chars(&ta);
    let sb = string_from_chars(&tb);
    match (parse_uri_parts(sa.as_str()), parse_uri_parts(sb.as_str())) {
        (Some(pa), Some(pb)) => loopback_parts_match(&pa, &pb),
        _ => false,
    }
}

} // verus!

verus! {

/// Matching credentials does not depend on which side is the expected one.
pub proof fn law_tokens_match_is_symmetric(a: Seq<char>, b: Seq<char>)
    ensures
        spec_tokens_match(a, b) == spec_tokens_match(b, a),
{
}

/// A blank install token matches nothing, and nothing matches a blank credential.
pub proof fn law_blank_never_matches(expected: Seq<char>, provided: Seq<char>)
    requires
        trim(expected).len() == 0 || trim(provided).len() == 0,
    ensures
        !spec_tokens_match(expected, provided),
{
}

/// Only the local machine and Finvoroo hosts are allowed: the local machine
/// over http, Finvoroo hosts over https.
pub proof fn law_origin_rule(scheme: Seq<char>, host: Seq<char>)
    ensures
        spec_origin_rule(scheme, host) ==> loopback_host(host) || finvoroo_host(host),
        finvoroo_host(host) && !loopback_host(host) ==> (spec_origin_rule(scheme, host) <==> scheme == "https"@),
        loopback_host(host) ==> (spec_origin_rule(scheme, host) <==> scheme == "http"@),
{
}

} // verus!

