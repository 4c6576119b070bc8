use finvoroo_print_agent::server::epoch_millis;
use finvoroo_print_agent::config::AgentConfig;
use finvoroo_print_agent::pairing::PairingStore;
use finvoroo_print_agent::print::PrintRequest;
use finvoroo_print_agent::server::{
    check_auth, pair, pair_at, pairing_origin, require_auth, settings_report, status_report, unix_millis,
    unix_seconds_text, validate_print_request, PairRequest, PrintThrottle, PRINT_DEDUPE_NANOS, STATUS_FORBIDDEN,
    STATUS_TOO_MANY_REQUESTS, STATUS_UNAUTHORIZED, STATUS_UNPROCESSABLE,
};

const TOKEN: &str = "test-token-aaaaaaaaaaaaaaaaaaaaaaaaaaaaaa";

fn test_config() -> AgentConfig {
    let mut cfg = AgentConfig::default();
    cfg.token = TOKEN.to_string();
    cfg.first_run = false;
    cfg
}

fn headers(pairs: &[(&'static str, &str)]) -> http::HeaderMap {
    let mut h = http::HeaderMap::new();
    for (name, value) in pairs {
        h.insert(*name, value.parse().unwrap());
    }
    h
}

fn pair_request(code: &str) -> PairRequest {
    PairRequest { code: code.to_string(), origin: None, workstation_id: None }
}

#[test]
fn status_is_public() {
    let cfg = test_config();
    let report = status_report(&cfg, "1.1.6", "windows");
    assert!(report.running);
    assert_eq!(report.version, "1.1.6");
    assert_eq!(report.bind, "127.0.0.1");
    assert!(report.auth_required && report.pairing_required && report.pairing_available);
}

#[test]
fn printers_require_token() {
    let cfg = test_config();
    let err = require_auth(&headers(&[]), &cfg.token).unwrap_err();
    assert_eq!(err.status, STATUS_UNAUTHORIZED);
    assert_eq!(err.error, "Invalid or missing Finvoroo Print Agent token");
}

#[test]
fn print_requires_token() {
    let cfg = test_config();
    let h = headers(&[("content-type", "application/json")]);
    assert_eq!(require_auth(&h, &cfg.token).unwrap_err().status, STATUS_UNAUTHORIZED);
    let h = headers(&[("x-finvoroo-print-token", TOKEN)]);
    assert!(require_auth(&h, &cfg.token).is_ok());
    let h = headers(&[("authorization", &format!("Bearer {TOKEN}"))]);
    assert!(require_auth(&h, &cfg.token).is_ok());
}

#[test]
fn pair_rejects_wrong_pin_and_origin() {
    let mut cfg = test_config();
    let mut store = PairingStore::default();
    let err = pair(&headers(&[("origin", "https://evil.example")]), &pair_request("123456"), &mut store, &mut cfg)
        .unwrap_err();
    assert_eq!(err.status, STATUS_FORBIDDEN);

    let err = pair(&headers(&[("origin", "http://127.0.0.1:5173")]), &pair_request("000000"), &mut store, &mut cfg)
        .unwrap_err();
    assert_eq!(err.status, STATUS_UNAUTHORIZED);
}

#[test]
fn pair_returns_token_once_for_valid_pin() {
    let mut cfg = test_config();
    let mut store = PairingStore::default();
    let code = store.issue();
    let h = headers(&[("origin", "http://localhost:5173")]);
    let reply = pair(&h, &pair_request(&code), &mut store, &mut cfg).unwrap();
    assert_eq!(reply.token, TOKEN);
    assert_eq!(reply.origin, "http://localhost:5173");
    assert_eq!(cfg.paired_origin.as_deref(), Some("http://localhost:5173"));
    assert!(cfg.paired_at.is_some());

    let err = pair(&h, &pair_request(&code), &mut store, &mut cfg).unwrap_err();
    assert_eq!(err.status, STATUS_UNAUTHORIZED);
    assert_eq!(err.error, "Invalid or expired pairing code");
}

// ---- further cases ----------------------------------------------------------

#[test]
fn refused_origin_wins_over_a_good_token() {
    let h = headers(&[("origin", "https://evil.example"), ("x-finvoroo-print-token", TOKEN)]);
    let err = require_auth(&h, TOKEN).unwrap_err();
    assert_eq!(err.status, STATUS_FORBIDDEN);
    assert_eq!(err.error, "Origin is not allowed to print");
    assert!(check_auth(Some("https://app.finvoroo.com"), TOKEN, Some(TOKEN)).is_ok());
    assert!(check_auth(None, TOKEN, Some(TOKEN)).is_ok());
    assert_eq!(check_auth(None, "", Some("")).unwrap_err().status, STATUS_UNAUTHORIZED);
}

#[test]
fn pairing_origin_falls_back_to_the_body() {
    assert_eq!(pairing_origin(None, Some("http://localhost:5173".to_string())).unwrap(), "http://localhost:5173");
    assert_eq!(
        pairing_origin(Some("https://app.finvoroo.com".to_string()), Some("https://evil.example".to_string()))
            .unwrap(),
        "https://app.finvoroo.com"
    );
    let err = pairing_origin(None, None).unwrap_err();
    assert_eq!(err.status, STATUS_FORBIDDEN);
    assert_eq!(err.error, "Origin is not allowed to pair with Finvoroo Print Agent");
}

#[test]
fn pairing_at_a_given_time_records_the_given_stamp() {
    let mut cfg = test_config();
    cfg.token = String::new();
    let mut store = PairingStore::default();
    let _ = store.issue_at("123456".to_string(), 0);
    let mut req = pair_request(" 123456 ");
    req.origin = Some("https://app.finvoroo.com".to_string());
    let reply = pair_at(&headers(&[]), &req, &mut store, &mut cfg, 5, "1700000000".to_string()).unwrap();
    assert_eq!(reply.token.len(), 64);
    assert_eq!(cfg.token, reply.token);
    assert_eq!(cfg.paired_at.as_deref(), Some("1700000000"));
    assert!(store.active_at(5).is_none());
}

#[test]
fn refused_pairing_leaves_config_alone() {
    let mut cfg = test_config();
    let mut store = PairingStore::default();
    let _ = store.issue_at("123456".to_string(), 0);
    let mut req = pair_request("123456");
    req.origin = Some("https://evil.example".to_string());
    assert!(pair_at(&headers(&[]), &req, &mut store, &mut cfg, 1, "x".to_string()).is_err());
    assert_eq!(cfg.paired_origin, None);
    assert!(store.active_at(1).is_some());
}

#[test]
fn throttle_refuses_requests_inside_the_window() {
    let mut t = PrintThrottle::new();
    assert!(t.try_start_at(1_000).is_ok());
    let err = t.try_start_at(1_000 + PRINT_DEDUPE_NANOS - 1).unwrap_err();
    assert_eq!(err.status, STATUS_TOO_MANY_REQUESTS);
    assert_eq!(err.error, "Print job already in progress");
    assert!(t.try_start_at(1_000 + PRINT_DEDUPE_NANOS).is_ok());
    assert!(t.try_start_at(0).is_err());
    let mut fresh = PrintThrottle::default();
    assert!(fresh.try_start().is_ok());
    assert!(fresh.try_start().is_err());
}

#[test]
fn print_requests_need_a_printer_and_data() {
    let mut req = PrintRequest {
        printer_id: " ".to_string(),
        job_type: "pdf".to_string(),
        data: "x".to_string(),
        encoding: None,
        options: None,
    };
    let err = validate_print_request(&req).unwrap_err();
    assert_eq!((err.status, err.error.as_str()), (STATUS_UNPROCESSABLE, "printer_id is required"));
    req.printer_id = "HP".to_string();
    req.data = "\n".to_string();
    let err = validate_print_request(&req).unwrap_err();
    assert_eq!((err.status, err.error.as_str()), (STATUS_UNPROCESSABLE, "print data is empty"));
    req.data = "x".to_string();
    assert!(validate_print_request(&req).is_ok());
}

#[test]
fn settings_report_never_carries_the_token() {
    let mut cfg = test_config();
    cfg.default_printer_id = Some("POS 80".to_string());
    let report = settings_report(&cfg, "1.1.6", "macos");
    assert!(report.token_set);
    assert_eq!(report.port, 17392);
    assert_eq!(report.default_printer_id.as_deref(), Some("POS 80"));
    cfg.token = String::new();
    assert!(!settings_report(&cfg, "1.1.6", "macos").token_set);
}

#[test]
fn clock_texts_are_decimal_unix_time() {
    let secs: u64 = unix_seconds_text().parse().unwrap();
    assert!(secs > 1_600_000_000);
    let ms = unix_millis();
    assert!(ms / 1000 >= secs);
}

#[test]
fn epoch_millis_keeps_the_low_64_bits() {
    assert_eq!(epoch_millis(None), 0);
    assert_eq!(epoch_millis(Some(1_700_000_000_123)), 1_700_000_000_123);
    assert_eq!(epoch_millis(Some((1u128 << 64) + 5)), 5);
}
