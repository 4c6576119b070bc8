use finvoroo_print_agent::updater::{idle_wait_step, is_idle, IdleWait, IDLE_BEFORE_INSTALL_MS};

#[test]
fn idle_when_nothing_printed_or_fifteen_seconds_passed() {
    assert!(is_idle(0, 5));
    assert!(!is_idle(1_000, 1_000 + IDLE_BEFORE_INSTALL_MS - 1));
    assert!(is_idle(1_000, 1_000 + IDLE_BEFORE_INSTALL_MS));
    assert!(!is_idle(2_000, 1_000));
}

#[test]
fn idle_wait_installs_when_idle_and_gives_up_at_the_deadline() {
    assert_eq!(idle_wait_step(0, 0, true), IdleWait::Install);
    assert_eq!(idle_wait_step(10, 20, false), IdleWait::KeepWaiting);
    assert_eq!(idle_wait_step(10, 20, true), IdleWait::GiveUp);
}
