use finvoroo_print_agent::pairing::{pin_from_bytes, PairingStore, PIN_TTL_NANOS};

#[test]
fn pin_is_six_digits() {
    let mut store = PairingStore::default();
    let code = store.issue();
    assert_eq!(code.len(), 6);
    assert!(code.chars().all(|c| c.is_ascii_digit()));
}

#[test]
fn wrong_pin_rejected() {
    let mut store = PairingStore::default();
    let _ = store.issue();
    assert!(!store.verify_and_consume("000000"));
    assert!(store.active().is_some());
}

#[test]
fn correct_pin_consumed_once() {
    let mut store = PairingStore::default();
    let code = store.issue();
    assert!(store.verify_and_consume(&code));
    assert!(!store.verify_and_consume(&code));
    assert!(store.active().is_none());
}

// ---- further cases ----------------------------------------------------------

#[test]
fn wrong_pin_keeps_the_challenge_pending() {
    let mut store = PairingStore::default();
    let _ = store.issue_at("123456".to_string(), 0);
    assert!(!store.verify_and_consume_at("000000", 1));
    assert!(store.active_at(1).is_some());
    assert!(store.verify_and_consume_at("123456", 2));
}

#[test]
fn pin_is_the_little_endian_u32_mod_a_million() {
    assert_eq!(pin_from_bytes(&vec![0, 0, 0, 0]), "000000");
    assert_eq!(pin_from_bytes(&vec![0x39, 0x30, 0, 0]), "012345");
    assert_eq!(pin_from_bytes(&vec![0xff, 0xff, 0xff, 0xff]), "967295");
    assert_eq!(pin_from_bytes(&vec![0x40, 0x42, 0x0f, 0x00]), "000000");
}

#[test]
fn expired_pin_is_refused_and_dropped() {
    let mut store = PairingStore::default();
    let code = store.issue_at("654321".to_string(), 1_000);
    assert!(!store.verify_and_consume_at(&code, 1_000 + PIN_TTL_NANOS + 1));
    assert!(store.active_at(1_000).is_none());
}

#[test]
fn pin_is_accepted_up_to_its_deadline() {
    let mut store = PairingStore::default();
    let code = store.issue_at("654321".to_string(), 1_000);
    assert!(store.verify_and_consume_at(&format!("  {code} "), 1_000 + PIN_TTL_NANOS));
}

#[test]
fn active_reports_whole_seconds_left_but_at_least_one() {
    let mut store = PairingStore::default();
    let _ = store.issue_at("111111".to_string(), 0);
    assert_eq!(store.active_at(0), Some(("111111".to_string(), 60)));
    assert_eq!(store.active_at(500_000_000), Some(("111111".to_string(), 59)));
    assert_eq!(store.active_at(PIN_TTL_NANOS - 1), Some(("111111".to_string(), 1)));
    assert_eq!(store.active_at(PIN_TTL_NANOS), None);
}

#[test]
fn nothing_pending_refuses_everything() {
    let mut store = PairingStore::default();
    assert!(!store.verify_and_consume("000000"));
    assert!(store.active().is_none());
}

#[test]
fn a_new_pin_replaces_the_old_one() {
    let mut store = PairingStore::default();
    let _ = store.issue_at("111111".to_string(), 0);
    let _ = store.issue_at("222222".to_string(), 0);
    assert!(!store.verify_and_consume_at("111111", 1));
    assert!(store.verify_and_consume_at("222222", 1));
}
