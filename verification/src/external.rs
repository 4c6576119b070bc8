//! Calls into outside crates and into std where vstd gives no specification.
//! Every item here is trusted: Verus takes its contract without proof.

use vstd::prelude::*;

verus! {

/// `base64::DecodeError`: why a base64 text did not decode.
#[verifier::external_type_specification]
#[verifier::external_body]
pub struct ExDecodeError(base64::DecodeError);

/// What the `base64` crate's `STANDARD` engine (standard alphabet, canonical
/// padding required) decodes `text` to, or `None` when it refuses the text.
pub uninterp spec fn base64_standard_decoded(text: Seq<char>) -> Option<Seq<u8>>;

/// Calls `base64::Engine::decode` with `base64::engine::general_purpose::STANDARD`
/// on the UTF-8 bytes of `text`. The contract claims only that the outcome is the
/// named function of the text: `Ok` exactly when it decodes, with those bytes.
#[verifier::external_body]
pub(crate) fn base64_decode_standard(text: &str) -> (r: Result<Vec<u8>, base64::DecodeError>)
    ensures
        r is Ok <==> base64_standard_decoded(text@) is Some,
        r matches Ok(bytes) ==> bytes@ == base64_standard_decoded(text@).unwrap(),
{
    base64::Engine::decode(&base64::engine::general_purpose::STANDARD, text)
}

/// The `Display` text of a `base64::DecodeError` (via `format!`). Nothing is
/// claimed of the text.
#[verifier::external_body]
pub(crate) fn base64_error_text(e: &base64::DecodeError) -> String {
    format!("{e}")
}

} // verus!

verus! {

// ---- getrandom -------------------------------------------------------------

/// Calls `getrandom::getrandom` on the whole buffer. `true` when the operating
/// system filled it; the buffer keeps its length. Nothing is claimed of the
/// bytes (they are random, or unspecified after a failure).
#[verifier::external_body]
pub(crate) fn getrandom_fill(dest: &mut Vec<u8>) -> (ok: bool)
    ensures
        final(dest)@.len() == old(dest)@.len(),
{
    getrandom::getrandom(dest.as_mut_slice()).is_ok()
}

// ---- hex -------------------------------------------------------------------

/// Lower-case hex digit of a nibble.
pub open spec fn hex_digit(n: int) -> char {
    if n < 10 {
        (48 + n) as char
    } else {
        (87 + n) as char
    }
}

/// Lower-case hex text of bytes, two digits per byte, high nibble first.
pub open spec fn hex_lower(bytes: Seq<u8>) -> Seq<char>
    decreases bytes.len(),
{
    if bytes.len() == 0 {
        Seq::empty()
    } else {
        hex_lower(bytes.drop_last()) + seq![
            hex_digit(bytes.last() as int / 16),
            hex_digit(bytes.last() as int % 16),
        ]
    }
}

/// Calls `hex::encode`, which the crate documents as encoding the bytes as a
/// hex string of lower-case characters, two per byte.
#[verifier::external_body]
pub(crate) fn hex_encode(bytes: &[u8]) -> (r: String)
    ensures
        r@ == hex_lower(bytes@),
{
    hex::encode(bytes)
}

// ---- std::time -------------------------------------------------------------

/// `std::time::SystemTime`: a wall-clock reading.
#[verifier::external_type_specification]
#[verifier::external_body]
pub struct ExSystemTime(std::time::SystemTime);

/// `std::time::Instant`: a monotonic clock reading.
#[verifier::external_type_specification]
#[verifier::external_body]
pub struct ExInstant(std::time::Instant);

/// Calls `std::time::SystemTime::now`. Nothing is claimed of the reading.
#[verifier::external_body]
pub(crate) fn system_time_now() -> std::time::SystemTime {
    std::time::SystemTime::now()
}

/// Calls `SystemTime::duration_since(UNIX_EPOCH)`; `None` when the clock reads
/// before the epoch. Nothing is claimed of the duration.
#[verifier::external_body]
pub(crate) fn since_unix_epoch(t: &std::time::SystemTime) -> Option<core::time::Duration> {
    t.duration_since(std::time::UNIX_EPOCH).ok()
}

/// Calls `std::time::Instant::now`. Nothing is claimed of the reading.
#[verifier::external_body]
pub(crate) fn instant_now() -> std::time::Instant {
    std::time::Instant::now()
}

/// Calls `Instant::elapsed`. Nothing is claimed of the duration.
#[verifier::external_body]
pub(crate) fn instant_elapsed(t: &std::time::Instant) -> core::time::Duration {
    t.elapsed()
}

/// Calls `Duration::as_nanos`. Nothing is claimed (the duration is opaque here).
#[verifier::external_body]
pub(crate) fn duration_nanos(d: &core::time::Duration) -> u128 {
    d.as_nanos()
}

/// Calls `Duration::as_millis`. Nothing is claimed (the duration is opaque here).
#[verifier::external_body]
pub(crate) fn duration_millis(d: &core::time::Duration) -> u128 {
    d.as_millis()
}

/// Calls `Duration::as_secs`. Nothing is claimed (the duration is opaque here).
#[verifier::external_body]
pub(crate) fn duration_secs(d: &core::time::Duration) -> u64 {
    d.as_secs()
}

// ---- http::Uri -------------------------------------------------------------

/// What `http::Uri` reads out of a text: `None` when `Uri::try_from` refuses it,
/// otherwise `(scheme_str(), host(), port_u16())`.
pub uninterp spec fn http_uri_parts(text: Seq<char>) -> Option<(Option<Seq<char>>, Option<Seq<char>>, Option<u16>)>;

/// Scheme, host and port of a URI.
pub struct UriParts {
    pub scheme: Option<String>,
    pub host: Option<String>,
    pub port: Option<u16>,
}

/// The character views of optional URI parts.
pub open spec fn uri_parts_view(p: Option<UriParts>) -> Option<(Option<Seq<char>>, Option<Seq<char>>, Option<u16>)> {
    match p {
        Some(u) => Some(
            (
                match u.scheme {
                    Some(s) => Some(s@),
                    None => None,
                },
                match u.host {
                    Some(h) => Some(h@),
                    None => None,
                },
                u.port,
            ),
        ),
        None => None,
    }
}

/// Calls `http::Uri::try_from(&str)` and, on success, `scheme_str`, `host`
/// and `port_u16`. The contract claims that the outcome is the named function
/// of the text, and that the empty text is refused (`Uri::from_shared` returns
/// `ErrorKind::Empty` for it).
#[verifier::external_body]
pub(crate) fn parse_uri_parts(text: &str) -> (r: Option<UriParts>)
    ensures
        uri_parts_view(r) == http_uri_parts(text@),
        text@.len() == 0 ==> r is None,
{
    match http::Uri::try_from(text) {
        Ok(uri) => Some(
            UriParts {
                scheme: uri.scheme_str().map(|s| s.to_string()),
                host: uri.host().map(|h| h.to_string()),
                port: uri.port_u16(),
            },
        ),
        Err(_) => None,
    }
}

// ---- http::HeaderMap -------------------------------------------------------

/// `http::HeaderValue`: the bytes of one header value.
#[verifier::external_type_specification]
#[verifier::external_body]
pub struct ExHeaderValue(http::HeaderValue);

/// `http::HeaderMap`: request headers.
#[verifier::external_type_specification]
#[verifier::external_body]
#[verifier::reject_recursive_types(T)]
pub struct ExHeaderMap<T>(http::HeaderMap<T>);

/// What a header map holds: for each (lower-case) header name, its values in
/// insertion order, as bytes.
pub uninterp spec fn header_entries(headers: http::HeaderMap) -> Map<Seq<char>, Seq<Seq<u8>>>;

/// `HeaderValue::to_str` accepts visible ASCII and tab.
pub open spec fn visible_ascii(bytes: Seq<u8>) -> bool {
    forall|i: int| 0 <= i < bytes.len() ==> (32 <= #[trigger] bytes[i] < 127 || bytes[i] == 9)
}

/// The first value of a header as text, when it is present and visible ASCII.
pub open spec fn first_header_text(entries: Map<Seq<char>, Seq<Seq<u8>>>, name: Seq<char>) -> Option<Seq<char>> {
    if entries.contains_key(name) && entries[name].len() > 0 && visible_ascii(entries[name][0]) {
        Some(entries[name][0].map_values(|b: u8| b as char))
    } else {
        None
    }
}

/// A lower-case header name: letters, digits and `-`.
pub open spec fn lower_header_name(name: Seq<char>) -> bool {
    &&& name.len() > 0
    &&& forall|i: int| 0 <= i < name.len() ==> ('a' <= #[trigger] name[i] <= 'z' || '0' <= name[i] <= '9' || name[i] == '-')
}

/// Calls `HeaderMap::get(name)` and then `HeaderValue::to_str` on the first
/// value. The contract claims what the `http` source shows: `get` returns the
/// first value stored under the name, and `to_str` succeeds exactly on visible
/// ASCII (bytes 32..=126 and tab), giving those bytes as characters.
#[verifier::external_body]
pub(crate) fn header_text(headers: &http::HeaderMap, name: &str) -> (r: Option<String>)
    requires
        lower_header_name(name@),
    ensures
        r is Some == first_header_text(header_entries(*headers), name@) is Some,
        r matches Some(s) ==> Some(s@) == first_header_text(header_entries(*headers), name@),
{
    match headers.get(name) {
        Some(v) => match v.to_str() {
            Ok(s) => Some(s.to_string()),
            Err(_) => None,
        },
        None => None,
    }
}

} // verus!

verus! {

// ---- serde_json --------------------------------------------------------------

/// Whether `serde_json` parses `raw` as a JSON value.
pub uninterp spec fn json_is_value(raw: Seq<char>) -> bool;

/// The string member `key` of the JSON object `raw`, when `raw` parses and the
/// member is a string.
pub uninterp spec fn json_str_member(raw: Seq<char>, key: Seq<char>) -> Option<Seq<char>>;

/// The member `key` of the JSON object `raw` as a `u64`, when `raw` parses and
/// the member is a non-negative integer that fits.
pub uninterp spec fn json_u64_member(raw: Seq<char>, key: Seq<char>) -> Option<u64>;

/// The array member `key` of the JSON object `raw`, each element as its string
/// (or `None` for a non-string element), when `raw` parses and the member is an array.
pub uninterp spec fn json_str_array_member(raw: Seq<char>, key: Seq<char>) -> Option<Seq<Option<Seq<char>>>>;

/// Calls `serde_json::from_str::<serde_json::Value>`; `true` when it parses.
#[verifier::external_body]
pub(crate) fn json_parses(raw: &str) -> (r: bool)
    ensures
        r == json_is_value(raw@),
{
    serde_json::from_str::<serde_json::Value>(raw).is_ok()
}

/// Calls `serde_json::from_str::<serde_json::Value>`, `Value::get(key)` and
/// `Value::as_str`.
#[verifier::external_body]
pub(crate) fn json_str_field(raw: &str, key: &str) -> (r: Option<String>)
    ensures
        r is Some == json_str_member(raw@, key@) is Some,
        r matches Some(s) ==> Some(s@) == json_str_member(raw@, key@),
{
    let value = serde_json::from_str::<serde_json::Value>(raw).ok()?;
    value.get(key)?.as_str().map(|s| s.to_string())
}

/// Calls `serde_json::from_str::<serde_json::Value>`, `Value::get(key)` and
/// `Value::as_u64`.
#[verifier::external_body]
pub(crate) fn json_u64_field(raw: &str, key: &str) -> (r: Option<u64>)
    ensures
        r == json_u64_member(raw@, key@),
{
    let value = serde_json::from_str::<serde_json::Value>(raw).ok()?;
    value.get(key)?.as_u64()
}

/// Calls `serde_json::from_str::<serde_json::Value>`, `Value::get(key)`,
/// `Value::as_array` and `Value::as_str` on each element.
#[verifier::external_body]
pub(crate) fn json_str_array_field(raw: &str, key: &str) -> (r: Option<Vec<Option<String>>>)
    ensures
        r is Some == json_str_array_member(raw@, key@) is Some,
        r matches Some(v) ==> Some(v@.map_values(|o: Option<String>| match o {
            Some(s) => Some(s@),
            None => None,
        })) == json_str_array_member(raw@, key@),
{
    let value = serde_json::from_str::<serde_json::Value>(raw).ok()?;
    let items = value.get(key)?.as_array()?;
    Some(items.iter().map(|v| v.as_str().map(|s| s.to_string())).collect())
}

} // verus!
