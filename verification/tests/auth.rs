use finvoroo_print_agent::external::UriParts;
use finvoroo_print_agent::auth::{
    generate_token, loopback_parts_match, origin_from_header_value, origin_from_headers, origin_is_allowed, origins_match_for_reconnect, token_from_header_values,
    token_from_headers, tokens_match,
};

#[test]
fn tokens_match_constant_time() {
    assert!(tokens_match("abc", "abc"));
    assert!(!tokens_match("abc", "abd"));
    assert!(!tokens_match("abc", "ab"));
    assert!(!tokens_match("", "abc"));
}

#[test]
fn origin_allowlist() {
    assert!(origin_is_allowed("http://localhost:5173"));
    assert!(origin_is_allowed("http://127.0.0.1:4173"));
    assert!(origin_is_allowed("https://app.finvoroo.com"));
    assert!(origin_is_allowed("https://finvoroo.com"));
    assert!(!origin_is_allowed("https://evil.example"));
    assert!(!origin_is_allowed("http://finvoroo.com"));
    assert!(!origin_is_allowed("https://finvoroo.com.evil.test"));
}

#[test]
fn token_from_custom_and_bearer_headers() {
    let mut headers = http::HeaderMap::new();
    headers.insert("x-finvoroo-print-token", "abc123".parse().unwrap());
    assert_eq!(token_from_headers(&headers).as_deref(), Some("abc123"));

    headers.clear();
    headers.insert(http::header::AUTHORIZATION, "Bearer xyz".parse().unwrap());
    assert_eq!(token_from_headers(&headers).as_deref(), Some("xyz"));
}

// ---- further cases ----------------------------------------------------------

#[test]
fn tokens_are_compared_trimmed_and_symmetrically() {
    assert!(tokens_match("  abc ", "abc\n"));
    assert_eq!(tokens_match("abc", "abd"), tokens_match("abd", "abc"));
    assert!(!tokens_match("   ", "   "));
    assert!(!tokens_match("abc", ""));
}

#[test]
fn ipv6_loopback_is_allowed_as_documented() {
    assert!(origin_is_allowed("http://[::1]:5173"));
    assert!(origin_is_allowed("  http://localhost  "));
    assert!(!origin_is_allowed("https://localhost:5173"));
    assert!(!origin_is_allowed("ftp://localhost"));
    assert!(!origin_is_allowed("not a uri at all"));
}

#[test]
fn custom_header_wins_over_bearer() {
    let mut headers = http::HeaderMap::new();
    headers.insert("x-finvoroo-print-token", " first ".parse().unwrap());
    headers.insert(http::header::AUTHORIZATION, "Bearer second".parse().unwrap());
    assert_eq!(token_from_headers(&headers).as_deref(), Some("first"));
}

#[test]
fn blank_custom_header_falls_back_to_lower_case_bearer() {
    assert_eq!(token_from_header_values(Some("   "), Some("bearer tok")).as_deref(), Some("tok"));
    assert_eq!(token_from_header_values(None, Some("Basic abc")), None);
    assert_eq!(token_from_header_values(None, Some("Bearer    ")), None);
    assert_eq!(token_from_header_values(None, None), None);
}

#[test]
fn origin_header_is_trimmed_and_blank_is_absent() {
    let mut headers = http::HeaderMap::new();
    assert_eq!(origin_from_headers(&headers), None);
    headers.insert(http::header::ORIGIN, " http://localhost:5173 ".parse().unwrap());
    assert_eq!(origin_from_headers(&headers).as_deref(), Some("http://localhost:5173"));
}

#[test]
fn reconnect_treats_loopback_names_alike_on_the_same_port() {
    assert!(origins_match_for_reconnect("http://127.0.0.1:47391", "http://localhost:47391"));
    assert!(origins_match_for_reconnect("http://[::1]:47391", "http://localhost:47391"));
    assert!(!origins_match_for_reconnect("http://127.0.0.1:47391", "http://localhost:5173"));
    assert!(!origins_match_for_reconnect("https://localhost:47391", "http://localhost:47391"));
    assert!(origins_match_for_reconnect(" https://app.finvoroo.com", "https://app.finvoroo.com "));
    assert!(!origins_match_for_reconnect("https://a.finvoroo.com", "https://b.finvoroo.com"));
}

#[test]
fn generated_tokens_are_64_lower_hex_digits() {
    let t = generate_token();
    assert_eq!(t.len(), 64);
    assert!(t.chars().all(|c| c.is_ascii_digit() || ('a'..='f').contains(&c)));
    assert_ne!(generate_token(), t);
}

fn parts(scheme: Option<&str>, host: Option<&str>, port: Option<u16>) -> UriParts {
    UriParts { scheme: scheme.map(|s| s.to_string()), host: host.map(|h| h.to_string()), port }
}

#[test]
fn loopback_parts_need_matching_scheme_and_port() {
    let a = parts(Some("http"), Some("localhost"), Some(5173));
    assert!(loopback_parts_match(&a, &parts(Some("http"), Some("[::1]"), Some(5173))));
    assert!(!loopback_parts_match(&a, &parts(Some("http"), Some("example.com"), Some(5173))));
    assert!(!loopback_parts_match(&a, &parts(Some("https"), Some("127.0.0.1"), Some(5173))));
    assert!(!loopback_parts_match(&a, &parts(Some("http"), Some("127.0.0.1"), None)));
}

#[test]
fn origin_header_values_are_trimmed() {
    assert_eq!(origin_from_header_value(Some("  http://a ")).as_deref(), Some("http://a"));
    assert_eq!(origin_from_header_value(Some("   ")), None);
    assert_eq!(origin_from_header_value(None), None);
}
