//! When a downloaded update may be installed: only once no print job has
//! started for a while, or when waiting has gone on too long.

use vstd::prelude::*;

verus! {

/// Wait before the first update check after start-up, in seconds.
pub const STARTUP_DELAY_SECS: u64 = 30;

/// Interval between update checks, in seconds (one hour).
pub const RECHECK_INTERVAL_SECS: u64 = 3600;

/// An update is installed once no print job has started for this long (15 s).
pub const IDLE_BEFORE_INSTALL_MS: u64 = 15_000;

/// Interval between idle checks, in seconds.
pub const IDLE_POLL_INTERVAL_SECS: u64 = 5;

/// Longest wait for an idle moment before installing anyway (ten minutes).
pub const IDLE_MAX_WAIT_SECS: u64 = 600;

/// Whether the agent is idle at `now_ms`, given when the last print job
/// started (`0`: none since start-up); both in Unix milliseconds.
pub open spec fn spec_is_idle(last_print_ms: u64, now_ms: u64) -> bool {
    last_print_ms == 0 || (if now_ms >= last_print_ms { now_ms - last_print_ms } else { 0 })
        >= IDLE_BEFORE_INSTALL_MS
}

pub fn is_idle(last_print_ms: u64, now_ms: u64) -> (r: bool)
    ensures
        r == spec_is_idle(last_print_ms, now_ms),
{
    last_print_ms == 0 || now_ms.saturating_sub(last_print_ms) >= IDLE_BEFORE_INSTALL_MS
}

/// What one poll of the idle wait decides.
#[derive(Debug, Clone, Copy, PartialEq, Eq, Structural)]
pub enum IdleWait {
    /// The agent is idle: install now.
    Install,
    /// Still busy and time is left: poll again after the interval.
    KeepWaiting,
    /// Still busy and the wait is over: install anyway.
    GiveUp,
}

/// One poll of the wait for an idle moment: idle wins over the deadline.
pub fn idle_wait_step(last_print_ms: u64, now_ms: u64, deadline_reached: bool) -> (r: IdleWait)
    ensures
        spec_is_idle(last_print_ms, now_ms) ==> r == IdleWait::Install,
        !spec_is_idle(last_print_ms, now_ms) && deadline_reached ==> r == IdleWait::GiveUp,
        !spec_is_idle(last_print_ms, now_ms) && !deadline_reached ==> r == IdleWait::KeepWaiting,
{
    if is_idle(last_print_ms, now_ms) {
        IdleWait::Install
    } else if deadline_reached {
        IdleWait::GiveUp
    } else {
        IdleWait::KeepWaiting
    }
}

/// A print job that started at `started_ms` keeps the agent busy for fifteen
/// seconds, and no longer.
pub proof fn law_busy_for_fifteen_seconds(started_ms: u64, now_ms: u64)
    requires
        started_ms > 0,
        started_ms <= now_ms,
    ensures
        spec_is_idle(started_ms, now_ms) <==> now_ms - started_ms >= IDLE_BEFORE_INSTALL_MS,
{
}

} // verus!
