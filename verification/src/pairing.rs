//! One-time pairing PINs: six digits, valid for a minute, consumed by the
//! first correct answer.

use vstd::prelude::*;
use crate::auth::{spec_tokens_match, tokens_match};
use crate::external::{duration_nanos, getrandom_fill, instant_elapsed, instant_now};
use crate::text::{digit_char, is_ws, lemma_trim_unpadded, string_from_chars, trim};

verus! {

/// How long an issued PIN stays valid, in nanoseconds (60 s).
pub const PIN_TTL_NANOS: u64 = 60_000_000_000;

/// How long an issued PIN stays valid, in seconds.
pub const PIN_TTL_SECS: u64 = 60;

/// Nanoseconds in a second.
pub const NANOS_PER_SEC: u64 = 1_000_000_000;

struct Challenge {
    code: String,
    /// Deadline, in nanoseconds on the store's clock.
    expires_at: u64,
}

/// The pending pairing challenge, if any. Times are nanoseconds measured from
/// the moment the store was created.
pub struct PairingStore {
    challenge: Option<Challenge>,
    clock: std::time::Instant,
    /// The latest time a PIN was issued at. The store's clock never goes back
    /// (`Instant` is monotonic), so it never reads earlier than this.
    latest: u64,
}

impl PairingStore {
    /// A pending PIN expires at most a minute after the latest issue time.
    #[verifier::type_invariant]
    spec fn deadline_within_a_minute(self) -> bool {
        match self.challenge {
            Some(c) => c.expires_at <= self.latest + PIN_TTL_NANOS,
            None => true,
        }
    }

    /// The earliest time the store's clock can still read.
    pub closed spec fn clock_floor(&self) -> u64 {
        self.latest
    }
}

impl View for PairingStore {
    /// The pending PIN and its deadline.
    type V = Option<(Seq<char>, u64)>;

    closed spec fn view(&self) -> Option<(Seq<char>, u64)> {
        match self.challenge {
            Some(c) => Some((c.code@, c.expires_at)),
            None => None,
        }
    }
}

impl Default for PairingStore {
    /// A store with nothing pending.
    fn default() -> (r: Self)
        ensures
            r@ is None,
    {
        PairingStore { challenge: None, clock: instant_now(), latest: 0 }
    }
}

/// `n` written with exactly six decimal digits (zero-padded, high digit first).
pub open spec fn pin_text(n: int) -> Seq<char> {
    seq![
        digit_char(n / 100000 % 10),
        digit_char(n / 10000 % 10),
        digit_char(n / 1000 % 10),
        digit_char(n / 100 % 10),
        digit_char(n / 10 % 10),
        digit_char(n % 10),
    ]
}

/// Every character is an ASCII decimal digit.
pub open spec fn all_digits(s: Seq<char>) -> bool {
    forall|i: int| 0 <= i < s.len() ==> '0' <= #[trigger] s[i] <= '9'
}

/// The weight of the `k`-th of six digits, high digit first (0 past the end).
pub open spec fn place_value(k: int) -> int {
    if k == 0 {
        100000
    } else if k == 1 {
        10000
    } else if k == 2 {
        1000
    } else if k == 3 {
        100
    } else if k == 4 {
        10
    } else if k == 5 {
        1
    } else {
        0
    }
}

/// The little-endian `u32` of four bytes.
pub open spec fn le_u32(b: Seq<u8>) -> int {
    b[0] + 256 * b[1] + 65536 * b[2] + 16777216 * b[3]
}

/// The PIN drawn from four random bytes: their little-endian `u32` modulo one
/// million, as six digits.
pub fn pin_from_bytes(bytes: &Vec<u8>) -> (r: String)
    requires
        bytes@.len() == 4,
    ensures
        r@ == pin_text(le_u32(bytes@) % 1_000_000),
        r@.len() == 6,
        all_digits(r@),
{
    let n: u64 = bytes[0] as u64 + 256 * (bytes[1] as u64) + 65536 * (bytes[2] as u64) + 16777216 * (
    bytes[3] as u64);
    let m: u64 = n % 1_000_000;
    let mut digits: Vec<char> = Vec::new();
    let mut div: u64 = 100000;
    let mut k: usize = 0;
    while k < 6
        invariant
            k <= 6,
            m < 1_000_000,
            div as int == place_value(k as int),
            digits@.len() == k,
            forall|j: int| 0 <= j < k ==> #[trigger] digits@[j] == pin_text(m as int)[j],
        decreases 6 - k,
    {
        let d: u64 = m / div % 10;
        let c: char = if d == 0 {
            '0'
        } else if d == 1 {
            '1'
        } else if d == 2 {
            '2'
        } else if d == 3 {
            '3'
        } else if d == 4 {
            '4'
        } else if d == 5 {
            '5'
        } else if d == 6 {
            '6'
        } else if d == 7 {
            '7'
        } else if d == 8 {
            '8'
        } else {
            '9'
        };
        assert(c == digit_char(d as int));
        digits.push(c);
        div = div / 10;
        k = k + 1;
    }
    assert(digits@ =~= pin_text(m as int));
    assert(all_digits(pin_text(m as int)));
    string_from_chars(&digits)
}

/// A fresh PIN from four random bytes. A failure of the random source is
/// ignored: the bytes are then whatever the buffer holds.
pub fn generate_pin() -> (r: String)
    ensures
        exists|n: int| 0 <= n < 1_000_000 && r@ == pin_text(n),
        r@.len() == 6,
        all_digits(r@),
{
    let mut bytes: Vec<u8> = vec![0u8, 0u8, 0u8, 0u8];
    let _ = getrandom_fill(&mut bytes);
    let r = pin_from_bytes(&bytes);
    assert(0 <= le_u32(bytes@) % 1_000_000 < 1_000_000);
    r
}

/// Pending challenge after an attempt with `code` at time `now`: an expired
/// challenge is dropped, a correct answer consumes it, a wrong one leaves it.
pub open spec fn after_attempt(state: Option<(Seq<char>, u64)>, code: Seq<char>, now: u64) -> Option<
    (Seq<char>, u64),
> {
    match state {
        None => None,
        Some((pin, deadline)) => if now > deadline || spec_tokens_match(pin, code) {
            None
        } else {
            state
        },
    }
}

/// Whether an attempt with `code` at time `now` is accepted: a challenge is
/// pending, its deadline has not passed, and the trimmed code equals the PIN.
pub open spec fn attempt_accepted(state: Option<(Seq<char>, u64)>, code: Seq<char>, now: u64) -> bool {
    match state {
        None => false,
        Some((pin, deadline)) => now <= deadline && spec_tokens_match(pin, code),
    }
}

/// What `active` reports at time `now`: the PIN and the whole seconds left
/// (at least one), or nothing when no time is left.
pub open spec fn spec_active(state: Option<(Seq<char>, u64)>, now: u64) -> Option<(Seq<char>, u64)> {
    match state {
        None => None,
        Some((pin, deadline)) => if deadline <= now {
            None
        } else {
            let secs = (deadline - now) / (NANOS_PER_SEC as int);
            Some((pin, if secs < 1 { 1u64 } else { secs as u64 }))
        },
    }
}

/// The deadline of a PIN issued at `now`.
pub open spec fn deadline_from(now: u64) -> u64 {
    if now + PIN_TTL_NANOS > u64::MAX {
        u64::MAX
    } else {
        (now + PIN_TTL_NANOS) as u64
    }
}

impl PairingStore {
    /// Nanoseconds on the store's clock, never earlier than the latest issue
    /// time. Nothing else is known of the reading.
    pub(crate) fn now(&self) -> (r: u64)
        ensures
            r >= self.clock_floor(),
    {
        let e = duration_nanos(&instant_elapsed(&self.clock));
        let n: u64 = if e > u64::MAX as u128 {
            u64::MAX
        } else {
            e as u64
        };
        if n < self.latest {
            self.latest
        } else {
            n
        }
    }

    /// Make `code` the pending PIN at time `now`, replacing any earlier one;
    /// it stays valid for a minute.
    pub fn issue_at(&mut self, code: String, now: u64) -> (r: String)
        ensures
            final(self)@ == Some((code@, deadline_from(now))),
            r@ == code@,
    {
        proof {
            use_type_invariant(&*self);
        }
        if now > self.latest {
            self.latest = now;
        }
        let expires_at = now.saturating_add(PIN_TTL_NANOS);
        let r = code.clone();
        self.challenge = Some(Challenge { code, expires_at });
        r
    }

    /// Issue a fresh six-digit PIN, replacing any earlier one.
    pub fn issue(&mut self) -> (r: String)
        ensures
            r@.len() == 6,
            all_digits(r@),
            exists|now: u64| final(self)@ == Some((r@, #[trigger] deadline_from(now))),
    {
        let code = generate_pin();
        let now = self.now();
        self.issue_at(code, now)
    }

    /// Check `code` against the pending PIN at time `now`. A correct answer
    /// consumes the PIN; an expired PIN is dropped and refused.
    pub fn verify_and_consume_at(&mut self, code: &str, now: u64) -> (r: bool)
        ensures
            r == attempt_accepted(old(self)@, code@, now),
            final(self)@ == after_attempt(old(self)@, code@, now),
    {
        match &self.challenge {
            None => false,
            Some(c) => {
                if now > c.expires_at {
                    self.challenge = None;
                    return false;
                }
                let ok = tokens_match(c.code.as_str(), code);
                if ok {
                    self.challenge = None;
                }
                ok
            },
        }
    }

    /// Check `code` against the pending PIN now.
    pub fn verify_and_consume(&mut self, code: &str) -> (r: bool)
        ensures
            exists|now: u64|
                r == attempt_accepted(old(self)@, code@, now) && final(self)@ == #[trigger] after_attempt(
                    old(self)@,
                    code@,
                    now,
                ),
    {
        let now = self.now();
        self.verify_and_consume_at(code, now)
    }

    /// The pending PIN and the seconds it has left at time `now`.
    pub fn active_at(&self, now: u64) -> (r: Option<(String, u64)>)
        ensures
            match r {
                None => spec_active(self@, now) is None,
                Some((pin, secs)) => spec_active(self@, now) == Some((pin@, secs)),
            },
    {
        match &self.challenge {
            None => None,
            Some(c) => {
                let remaining = c.expires_at.saturating_sub(now);
                if remaining == 0 {
                    return None;
                }
                let secs = remaining / NANOS_PER_SEC;
                let secs: u64 = if secs < 1 {
                    1
                } else {
                    secs
                };
                Some((c.code.clone(), secs))
            },
        }
    }

    /// The pending PIN and the seconds it has left now: between one and sixty.
    pub fn active(&self) -> (r: Option<(String, u64)>)
        ensures
            exists|now: u64|
                match r {
                    None => #[trigger] spec_active(self@, now) is None,
                    Some((pin, secs)) => spec_active(self@, now) == Some((pin@, secs)),
                },
            r matches Some((_, secs)) ==> 1 <= secs <= PIN_TTL_SECS,
    {
        proof {
            use_type_invariant(self);
        }
        let now = self.now();
        let r = self.active_at(now);
        proof {
            if let Some((_, secs)) = r {
                let deadline = self@.unwrap().1;
                assert(deadline <= now + PIN_TTL_NANOS);
                assert((deadline - now) / (NANOS_PER_SEC as int) <= 60);
            }
        }
        r
    }
}

/// A PIN of six digits trims to itself and is not blank.
pub proof fn lemma_pin_is_trimmed(pin: Seq<char>)
    requires
        pin.len() == 6,
        all_digits(pin),
    ensures
        trim(pin) == pin,
        trim(pin).len() > 0,
{
    assert('0' <= pin[0] <= '9');
    assert('0' <= pin[5] <= '9');
    assert(!is_ws(pin[0]));
    assert(!is_ws(pin[5]));
    lemma_trim_unpadded(pin);
}

/// A freshly issued PIN is accepted when it is sent back before its minute
/// is up, and the answer consumes it: the same PIN is refused afterwards, at
/// any time.
pub proof fn law_correct_pin_consumed_once(pin: Seq<char>, issued: u64, answered: u64, again: u64)
    requires
        pin.len() == 6,
        all_digits(pin),
        issued <= answered <= deadline_from(issued),
    ensures
        attempt_accepted(Some((pin, deadline_from(issued))), pin, answered),
        after_attempt(Some((pin, deadline_from(issued))), pin, answered) is None,
        !attempt_accepted(after_attempt(Some((pin, deadline_from(issued))), pin, answered), pin, again),
{
    lemma_pin_is_trimmed(pin);
}

/// A wrong code before the deadline is refused and leaves the PIN pending.
pub proof fn law_wrong_pin_keeps_challenge(pin: Seq<char>, deadline: u64, code: Seq<char>, now: u64)
    requires
        now <= deadline,
        !spec_tokens_match(pin, code),
    ensures
        !attempt_accepted(Some((pin, deadline)), code, now),
        after_attempt(Some((pin, deadline)), code, now) == Some((pin, deadline)),
{
}

/// After the deadline every code is refused and the PIN is dropped.
pub proof fn law_expired_pin_refused(pin: Seq<char>, deadline: u64, code: Seq<char>, now: u64)
    requires
        now > deadline,
    ensures
        !attempt_accepted(Some((pin, deadline)), code, now),
        after_attempt(Some((pin, deadline)), code, now) is None,
{
}

/// With nothing pending every code is refused.
pub proof fn law_nothing_pending_refuses(code: Seq<char>, now: u64)
    ensures
        !attempt_accepted(None, code, now),
        after_attempt(None, code, now) is None,
        spec_active(None, now) is None,
{
}

/// A PIN issued at `issued` is reported as active, with between one and
/// sixty seconds left, until its deadline.
pub proof fn law_issued_pin_is_active(pin: Seq<char>, issued: u64, now: u64)
    requires
        issued <= now < deadline_from(issued),
        issued + PIN_TTL_NANOS <= u64::MAX,
    ensures
        spec_active(Some((pin, deadline_from(issued))), now) matches Some((p, secs)) && p == pin && 1 <= secs
            <= 60,
{
}

} // verus!
