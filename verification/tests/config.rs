use finvoroo_print_agent::config::{salvage_config, salvage_from_fields, AgentConfig, SalvagedFields};
use finvoroo_print_agent::DEFAULT_PORT;

#[test]
fn pairing_survives_origin_list_and_clear() {
    let mut cfg = AgentConfig::default();
    assert!(!cfg.is_paired());
    cfg.remember_paired_origin("https://app.finvoroo.com");
    assert!(cfg.is_paired());
    cfg.remember_paired_origin("http://127.0.0.1:47391");
    assert_eq!(cfg.paired_origins.len(), 2);
    cfg.remember_paired_origin("http://localhost:47391");
    assert_eq!(cfg.paired_origins.len(), 2);
    cfg.clear_pairing();
    assert!(!cfg.is_paired());
    assert!(cfg.paired_origins.is_empty());
}

#[test]
fn salvage_keeps_token_and_origin() {
    let raw = r#"{
        "token": "abc123",
        "port": 17392,
        "paired_origin": "https://app.finvoroo.com",
        "extra_future_field": true
    }"#;
    let cfg = salvage_config(raw);
    assert_eq!(cfg.token, "abc123");
    assert_eq!(cfg.paired_origin.as_deref(), Some("https://app.finvoroo.com"));
    assert!(cfg.is_paired());
}

// ---- further cases ----------------------------------------------------------

#[test]
fn default_config_is_a_first_run_with_a_fresh_token() {
    let cfg = AgentConfig::default();
    assert!(cfg.first_run);
    assert_eq!(cfg.port, DEFAULT_PORT);
    assert_eq!(cfg.port, 17392);
    assert_eq!(cfg.token.len(), 64);
    assert!(cfg.paired_origins.is_empty());
}

#[test]
fn version_tracking_moves_the_old_version_back_once() {
    let mut cfg = AgentConfig::default();
    assert!(cfg.apply_version_tracking("1.1.5"));
    assert_eq!(cfg.installed_version.as_deref(), Some("1.1.5"));
    assert_eq!(cfg.previous_version, None);
    assert!(cfg.apply_version_tracking("1.1.6"));
    assert_eq!(cfg.installed_version.as_deref(), Some("1.1.6"));
    assert_eq!(cfg.previous_version.as_deref(), Some("1.1.5"));
    assert!(!cfg.apply_version_tracking("1.1.6"));
    assert_eq!(cfg.previous_version.as_deref(), Some("1.1.5"));
}

#[test]
fn blank_origins_are_ignored_and_origins_are_trimmed() {
    let mut cfg = AgentConfig::default();
    cfg.remember_paired_origin("   ");
    assert_eq!(cfg.paired_origin, None);
    assert!(cfg.paired_origins.is_empty());
    cfg.remember_paired_origin("  https://app.finvoroo.com\n");
    assert_eq!(cfg.paired_origin.as_deref(), Some("https://app.finvoroo.com"));
    cfg.remember_paired_origin("https://app.finvoroo.com");
    assert_eq!(cfg.paired_origins, vec!["https://app.finvoroo.com".to_string()]);
}

#[test]
fn unpaired_without_a_token() {
    let mut cfg = AgentConfig::default();
    cfg.remember_paired_origin("https://app.finvoroo.com");
    cfg.token = "  ".to_string();
    assert!(!cfg.is_paired());
}

#[test]
fn salvage_of_garbage_starts_fresh_but_not_first_run() {
    let cfg = salvage_config("{ this is not json");
    assert!(!cfg.first_run);
    assert_eq!(cfg.port, DEFAULT_PORT);
    assert_eq!(cfg.token.len(), 64);
    assert_eq!(cfg.paired_origin, None);
}

#[test]
fn salvage_reads_port_printer_and_origin_list() {
    let raw = r#"{"token":"  tok  ","port":9000,"default_printer_id":" POS 80 ",
        "paired_origins":["http://localhost:1","", 5, "http://127.0.0.1:1","https://app.finvoroo.com"],
        "paired_at":"1700000000"}"#;
    let cfg = salvage_config(raw);
    assert_eq!(cfg.token, "tok");
    assert_eq!(cfg.port, 9000);
    assert_eq!(cfg.default_printer_id.as_deref(), Some("POS 80"));
    assert_eq!(
        cfg.paired_origins,
        vec!["http://localhost:1".to_string(), "https://app.finvoroo.com".to_string()]
    );
    assert_eq!(cfg.paired_origin.as_deref(), Some("https://app.finvoroo.com"));
    assert_eq!(cfg.paired_at.as_deref(), Some("1700000000"));
}

#[test]
fn salvage_rejects_out_of_range_ports() {
    let cfg = salvage_config(r#"{"port":70000}"#);
    assert_eq!(cfg.port, DEFAULT_PORT);
    let cfg = salvage_config(r#"{"port":0}"#);
    assert_eq!(cfg.port, DEFAULT_PORT);
}

#[test]
fn finish_load_repairs_blank_token_and_port_zero() {
    let mut cfg = AgentConfig::default();
    cfg.token = String::new();
    cfg.port = 0;
    cfg.paired_origin = Some("https://app.finvoroo.com".to_string());
    cfg.paired_origins = vec!["  ".to_string(), "http://localhost:1".to_string()];
    cfg.finish_load();
    assert_eq!(cfg.token.len(), 64);
    assert_eq!(cfg.port, DEFAULT_PORT);
    assert!(!cfg.first_run);
    assert_eq!(
        cfg.paired_origins,
        vec!["http://localhost:1".to_string(), "https://app.finvoroo.com".to_string()]
    );
}

#[test]
fn storage_form_is_never_first_run() {
    let cfg = AgentConfig::default();
    let token = cfg.token.clone();
    let stored = cfg.for_storage();
    assert!(!stored.first_run);
    assert_eq!(stored.token, token);
}

#[test]
fn default_printer_blank_clears() {
    let mut cfg = AgentConfig::default();
    cfg.set_default_printer("POS 80".to_string());
    assert_eq!(cfg.default_printer_id.as_deref(), Some("POS 80"));
    cfg.set_default_printer("  ".to_string());
    assert_eq!(cfg.default_printer_id, None);
}

#[test]
fn regenerating_the_token_forgets_the_current_origin() {
    let mut cfg = AgentConfig::default();
    cfg.remember_paired_origin("https://app.finvoroo.com");
    cfg.paired_at = Some("1".to_string());
    let old = cfg.token.clone();
    let new = cfg.regenerate_token();
    assert_ne!(new, old);
    assert_eq!(cfg.token, new);
    assert_eq!(cfg.paired_origin, None);
    assert_eq!(cfg.paired_at, None);
    assert_eq!(cfg.paired_origins.len(), 1);
}

#[test]
fn recording_a_pairing_keeps_a_set_token() {
    let mut cfg = AgentConfig::default();
    cfg.token = "keep-me".to_string();
    let t = cfg.record_pairing("http://localhost:5173".to_string(), "42".to_string());
    assert_eq!(t, "keep-me");
    assert_eq!(cfg.paired_origin.as_deref(), Some("http://localhost:5173"));
    assert_eq!(cfg.paired_at.as_deref(), Some("42"));
    cfg.token = " ".to_string();
    let t = cfg.record_pairing("http://localhost:5173".to_string(), "43".to_string());
    assert_eq!(t.len(), 64);
}

#[test]
fn salvage_from_members_read() {
    let cfg = salvage_from_fields(Some(SalvagedFields {
        token: Some(" t ".to_string()),
        port: Some(65535),
        default_printer_id: Some("   ".to_string()),
        paired_origin: Some("http://localhost:5173".to_string()),
        paired_origins: Some(vec![None, Some("http://127.0.0.1:5173".to_string()), Some("https://x.finvoroo.com".to_string())]),
        paired_at: None,
    }));
    assert_eq!(cfg.token, "t");
    assert_eq!(cfg.port, 65535);
    assert_eq!(cfg.default_printer_id, None);
    assert_eq!(
        cfg.paired_origins,
        vec!["http://localhost:5173".to_string(), "https://x.finvoroo.com".to_string()]
    );
    assert_eq!(cfg.paired_origin.as_deref(), Some("https://x.finvoroo.com"));
    assert_eq!(cfg.paired_at, None);
    assert!(!cfg.first_run);
    let fresh = salvage_from_fields(None);
    assert_eq!(fresh.port, DEFAULT_PORT);
    assert_eq!(fresh.token.len(), 64);
}

#[test]
fn loading_twice_changes_nothing_more() {
    let mut cfg = AgentConfig::default();
    cfg.paired_origin = Some(" http://localhost:5173 ".to_string());
    cfg.paired_origins = vec!["".to_string(), "http://127.0.0.1:5173".to_string(), "https://a.finvoroo.com".to_string()];
    cfg.finish_load();
    let once = cfg.clone();
    cfg.finish_load();
    assert_eq!(cfg.paired_origin, once.paired_origin);
    assert_eq!(cfg.paired_origins, once.paired_origins);
    assert_eq!(cfg.token, once.token);
    assert_eq!(
        once.paired_origins,
        vec!["http://127.0.0.1:5173".to_string(), "https://a.finvoroo.com".to_string()]
    );
    assert_eq!(once.paired_origin.as_deref(), Some("http://localhost:5173"));
}
