//! The decisions of the localhost HTTP API: who may call it, what a pairing
//! request is answered, when a print request is taken, and the clock texts it
//! records. The HTTP plumbing that performs these decisions lives outside the
//! library.

use vstd::prelude::*;
use crate::auth::{
    opt_view, or_blank, origin_from_headers, origin_is_allowed, spec_origin_allowed, spec_token_from_values,
    spec_tokens_match, token_from_headers, tokens_match,
};
use crate::config::{is_install_token, AgentConfig};
use crate::external::{
    duration_millis, duration_secs, first_header_text, header_entries, since_unix_epoch, system_time_now,
    duration_nanos, instant_elapsed, instant_now,
};
use crate::pairing::{after_attempt, attempt_accepted, PairingStore};
use crate::print::PrintRequest;
use crate::text::{decimal, decimal_string, str_chars, trim, trimmed_chars};

verus! {

/// HTTP status of a refused credential.
pub const STATUS_UNAUTHORIZED: u16 = 401;

/// HTTP status of a refused origin.
pub const STATUS_FORBIDDEN: u16 = 403;

/// HTTP status of an invalid print request.
pub const STATUS_UNPROCESSABLE: u16 = 422;

/// HTTP status of a print request that arrives while one is starting.
pub const STATUS_TOO_MANY_REQUESTS: u16 = 429;

/// HTTP status of a failure inside the agent.
pub const STATUS_INTERNAL: u16 = 500;

pub const MSG_ORIGIN_MAY_NOT_PRINT: &'static str = "Origin is not allowed to print";

pub const MSG_BAD_TOKEN: &'static str = "Invalid or missing Finvoroo Print Agent token";

pub const MSG_ORIGIN_MAY_NOT_PAIR: &'static str = "Origin is not allowed to pair with Finvoroo Print Agent";

pub const MSG_BAD_PAIRING_CODE: &'static str = "Invalid or expired pairing code";

pub const MSG_PRINT_IN_PROGRESS: &'static str = "Print job already in progress";

pub const MSG_PRINTER_REQUIRED: &'static str = "printer_id is required";

pub const MSG_DATA_EMPTY: &'static str = "print data is empty";

/// A refused request: its HTTP status and the `error` text of the JSON body.
#[derive(Debug, Clone)]
pub struct ErrorReply {
    pub status: u16,
    pub error: String,
}

/// An error reply as status and text.
pub open spec fn reply_view(e: ErrorReply) -> (u16, Seq<char>) {
    (e.status, e.error@)
}

/// The outcome of a check: `None` when it passes, else the reply.
pub open spec fn check_view(r: Result<(), ErrorReply>) -> Option<(u16, Seq<char>)> {
    match r {
        Ok(_) => None,
        Err(e) => Some(reply_view(e)),
    }
}

fn reply(status: u16, message: &str) -> (r: ErrorReply)
    ensures
        r.status == status,
        r.error@ == message@,
{
    ErrorReply { status, error: String::from_str(message) }
}

// ---- authentication ---------------------------------------------------------

/// The `Origin` header of a request: its first value, trimmed, when present,
/// visible ASCII and not blank.
pub open spec fn header_origin(entries: Map<Seq<char>, Seq<Seq<u8>>>) -> Option<Seq<char>> {
    let v = first_header_text(entries, "origin"@);
    if v is Some && trim(v.unwrap()).len() > 0 {
        Some(trim(v.unwrap()))
    } else {
        None
    }
}

/// The credential of a request: the custom token header, else a bearer token.
pub open spec fn header_token(entries: Map<Seq<char>, Seq<Seq<u8>>>) -> Option<Seq<char>> {
    spec_token_from_values(
        first_header_text(entries, "x-finvoroo-print-token"@),
        first_header_text(entries, "authorization"@),
    )
}

/// The authentication rule: an `Origin`, when sent, must be on the allowlist
/// (403); then the credential must match the install token (401).
pub open spec fn spec_auth(origin: Option<Seq<char>>, expected: Seq<char>, provided: Option<Seq<char>>) -> Option<
    (u16, Seq<char>),
> {
    if origin is Some && !spec_origin_allowed(origin.unwrap()) {
        Some((STATUS_FORBIDDEN, MSG_ORIGIN_MAY_NOT_PRINT@))
    } else if spec_tokens_match(expected, or_blank(provided)) {
        None
    } else {
        Some((STATUS_UNAUTHORIZED, MSG_BAD_TOKEN@))
    }
}

/// Apply the authentication rule to an origin and a credential already read
/// from the request.
pub fn check_auth(origin: Option<&str>, expected: &str, provided: Option<&str>) -> (r: Result<(), ErrorReply>)
    ensures
        check_view(r) == spec_auth(
            match origin {
                Some(o) => Some(o@),
                None => None,
            },
            expected@,
            match provided {
                Some(p) => Some(p@),
                None => None,
            },
        ),
{
    match origin {
        Some(o) => {
            if !origin_is_allowed(o) {
                return Err(reply(STATUS_FORBIDDEN, MSG_ORIGIN_MAY_NOT_PRINT));
            }
        },
        None => {},
    }
    let given: &str = match provided {
        Some(p) => p,
        None => "",
    };
    proof {
        reveal_strlit("");
    }
    if tokens_match(expected, given) {
        Ok(())
    } else {
        Err(reply(STATUS_UNAUTHORIZED, MSG_BAD_TOKEN))
    }
}

/// Authenticate a request by its headers against the install token.
pub fn require_auth(headers: &http::HeaderMap, expected: &str) -> (r: Result<(), ErrorReply>)
    ensures
        check_view(r) == spec_auth(
            header_origin(header_entries(*headers)),
            expected@,
            header_token(header_entries(*headers)),
        ),
{
    let origin = origin_from_headers(headers);
    let token = token_from_headers(headers);
    let o: Option<&str> = match &origin {
        Some(s) => Some(s.as_str()),
        None => None,
    };
    let t: Option<&str> = match &token {
        Some(s) => Some(s.as_str()),
        None => None,
    };
    check_auth(o, expected, t)
}

// ---- pairing ----------------------------------------------------------------

/// A pairing request as the browser sends it.
#[derive(Debug, Clone)]
pub struct PairRequest {
    pub code: String,
    pub origin: Option<String>,
    pub workstation_id: Option<String>,
}

/// What a successful pairing hands back.
#[derive(Debug, Clone)]
pub struct PairReply {
    pub token: String,
    pub origin: String,
}

/// The origin a pairing is for: the `Origin` header, else the one in the body,
/// else blank.
pub open spec fn spec_pair_origin(header: Option<Seq<char>>, body: Option<Seq<char>>) -> Seq<char> {
    match header {
        Some(h) => h,
        None => or_blank(body),
    }
}

/// Whether an origin may pair: not empty and on the allowlist.
pub open spec fn may_pair(origin: Seq<char>) -> bool {
    origin.len() > 0 && spec_origin_allowed(origin)
}

/// Choose the origin of a pairing request and check that it may pair.
pub fn pairing_origin(header: Option<String>, body: Option<String>) -> (r: Result<String, ErrorReply>)
    ensures
        may_pair(spec_pair_origin(opt_view(header), opt_view(body))) ==> (r matches Ok(o) && o@
            == spec_pair_origin(opt_view(header), opt_view(body))),
        !may_pair(spec_pair_origin(opt_view(header), opt_view(body))) ==> (r matches Err(e) && reply_view(e)
            == (STATUS_FORBIDDEN, MSG_ORIGIN_MAY_NOT_PAIR@)),
{
    let origin = match header {
        Some(h) => h,
        None => match body {
            Some(b) => b,
            None => String::new(),
        },
    };
    if str_chars(origin.as_str()).len() == 0 || !origin_is_allowed(origin.as_str()) {
        return Err(reply(STATUS_FORBIDDEN, MSG_ORIGIN_MAY_NOT_PAIR));
    }
    Ok(origin)
}

/// The effect of a pairing attempt at time `now` for `origin` with `code`:
/// a refused origin changes nothing (403); otherwise the attempt is made on
/// the pending PIN, and a refused PIN leaves the configuration alone (401); an
/// accepted one records the origin, keeps a set token (or issues one for a
/// blank token) and hands the token back.
pub open spec fn pairing_effect(
    origin: Seq<char>,
    code: Seq<char>,
    now: u64,
    store_before: Option<(Seq<char>, u64)>,
    store_after: Option<(Seq<char>, u64)>,
    before: AgentConfig,
    after: AgentConfig,
    r: Result<PairReply, ErrorReply>,
) -> bool {
    if !may_pair(origin) {
        &&& r matches Err(e) && reply_view(e) == (STATUS_FORBIDDEN, MSG_ORIGIN_MAY_NOT_PAIR@)
        &&& store_after == store_before
        &&& after == before
    } else if !attempt_accepted(store_before, code, now) {
        &&& r matches Err(e) && reply_view(e) == (STATUS_UNAUTHORIZED, MSG_BAD_PAIRING_CODE@)
        &&& store_after == after_attempt(store_before, code, now)
        &&& after == before
    } else {
        &&& r matches Ok(p) && p.origin@ == origin && p.token == after.token
        &&& store_after == after_attempt(store_before, code, now)
        &&& trim(before.token@).len() > 0 ==> after.token == before.token
        &&& trim(before.token@).len() == 0 ==> is_install_token(after.token@)
        &&& opt_view(after.paired_origin) == Some(origin)
        &&& after.paired_at is Some
        &&& after.paired_origins == before.paired_origins
        &&& after.port == before.port
        &&& after.default_printer_id == before.default_printer_id
        &&& after.first_run == before.first_run
        &&& after.installed_version == before.installed_version
        &&& after.previous_version == before.previous_version
    }
}

/// The origin a request pairs for, read from its headers and body.
pub open spec fn request_pair_origin(headers: http::HeaderMap, req: PairRequest) -> Seq<char> {
    spec_pair_origin(header_origin(header_entries(headers)), opt_view(req.origin))
}

/// Answer a pairing request at time `now` on the store's clock, recording
/// `paired_at` as the pairing time: the origin must be allowed (403), the PIN
/// must be pending, in time and correct (401); then the configuration records
/// the pairing and the install token is handed back.
pub fn pair_at(
    headers: &http::HeaderMap,
    req: &PairRequest,
    store: &mut PairingStore,
    cfg: &mut AgentConfig,
    now: u64,
    paired_at: String,
) -> (r: Result<PairReply, ErrorReply>)
    ensures
        pairing_effect(
            request_pair_origin(*headers, *req),
            req.code@,
            now,
            old(store)@,
            final(store)@,
            *old(cfg),
            *final(cfg),
            r,
        ),
        r is Ok ==> final(cfg).paired_at == Some(paired_at),
{
    let header_origin = origin_from_headers(headers);
    let body_origin: Option<String> = match &req.origin {
        Some(o) => Some(o.clone()),
        None => None,
    };
    let origin = match pairing_origin(header_origin, body_origin) {
        Ok(o) => o,
        Err(e) => return Err(e),
    };
    if !store.verify_and_consume_at(req.code.as_str(), now) {
        return Err(reply(STATUS_UNAUTHORIZED, MSG_BAD_PAIRING_CODE));
    }
    let token = cfg.record_pairing(origin.clone(), paired_at);
    Ok(PairReply { token, origin })
}

/// Answer a pairing request now, recording the current Unix time as the
/// pairing time.
pub fn pair(headers: &http::HeaderMap, req: &PairRequest, store: &mut PairingStore, cfg: &mut AgentConfig) -> (r:
    Result<PairReply, ErrorReply>)
    ensures
        exists|now: u64|
            #[trigger] pairing_effect(
                request_pair_origin(*headers, *req),
                req.code@,
                now,
                old(store)@,
                final(store)@,
                *old(cfg),
                *final(cfg),
                r,
            ),
        r is Ok ==> exists|secs: u64| final(cfg).paired_at matches Some(t) && t@ == #[trigger] decimal(secs as nat),
{
    let now = store.now();
    let at = unix_seconds_text();
    pair_at(headers, req, store, cfg, now, at)
}

// ---- print requests ---------------------------------------------------------

/// Two print requests closer together than this (80 ms) are one job.
pub const PRINT_DEDUPE_NANOS: u64 = 80_000_000;

/// When the last print job started, on the throttle's own clock (nanoseconds).
pub struct PrintThrottle {
    last_started: Option<u64>,
    clock: std::time::Instant,
}

impl View for PrintThrottle {
    /// When the last print request taken arrived.
    type V = Option<u64>;

    closed spec fn view(&self) -> Option<u64> {
        self.last_started
    }
}

/// Whether a request at `now` arrives while the previous one is starting.
pub open spec fn in_flight(last: Option<u64>, now: u64) -> bool {
    match last {
        Some(prev) => (if now >= prev { now - prev } else { 0 }) < PRINT_DEDUPE_NANOS,
        None => false,
    }
}

impl PrintThrottle {
    /// A throttle that has taken nothing yet.
    pub fn new() -> (r: PrintThrottle)
        ensures
            r@ is None,
    {
        PrintThrottle { last_started: None, clock: instant_now() }
    }

    /// Nanoseconds on the throttle's clock. Nothing is known of the reading.
    fn now(&self) -> u64 {
        let n = duration_nanos(&instant_elapsed(&self.clock));
        if n > u64::MAX as u128 {
            u64::MAX
        } else {
            n as u64
        }
    }

    /// Take a print request arriving at `now`, unless the previous one started
    /// less than 80 ms earlier (429). A request taken becomes the last one.
    pub fn try_start_at(&mut self, now: u64) -> (r: Result<(), ErrorReply>)
        ensures
            in_flight(old(self)@, now) ==> (check_view(r) == Some((STATUS_TOO_MANY_REQUESTS, MSG_PRINT_IN_PROGRESS@))
                && final(self)@ == old(self)@),
            !in_flight(old(self)@, now) ==> (r is Ok && final(self)@ == Some(now)),
    {
        match self.last_started {
            Some(prev) => {
                let elapsed = now.saturating_sub(prev);
                if elapsed < PRINT_DEDUPE_NANOS {
                    return Err(reply(STATUS_TOO_MANY_REQUESTS, MSG_PRINT_IN_PROGRESS));
                }
            },
            None => {},
        }
        self.last_started = Some(now);
        Ok(())
    }

    /// Take a print request arriving now.
    pub fn try_start(&mut self) -> (r: Result<(), ErrorReply>)
        ensures
            exists|now: u64|
                {
                    &&& #[trigger] in_flight(old(self)@, now) ==> (check_view(r) == Some(
                        (STATUS_TOO_MANY_REQUESTS, MSG_PRINT_IN_PROGRESS@),
                    ) && final(self)@ == old(self)@)
                    &&& !in_flight(old(self)@, now) ==> (r is Ok && final(self)@ == Some(now))
                },
    {
        let now = self.now();
        self.try_start_at(now)
    }
}

impl Default for PrintThrottle {
    fn default() -> (r: Self)
        ensures
            r@ is None,
    {
        PrintThrottle::new()
    }
}

/// The fields a print request must fill: a printer (422) and data (422).
pub open spec fn spec_print_fields(printer_id: Seq<char>, data: Seq<char>) -> Option<(u16, Seq<char>)> {
    if trim(printer_id).len() == 0 {
        Some((STATUS_UNPROCESSABLE, MSG_PRINTER_REQUIRED@))
    } else if trim(data).len() == 0 {
        Some((STATUS_UNPROCESSABLE, MSG_DATA_EMPTY@))
    } else {
        None
    }
}

/// Check that a print request names a printer and carries data.
pub fn validate_print_request(req: &PrintRequest) -> (r: Result<(), ErrorReply>)
    ensures
        check_view(r) == spec_print_fields(req.printer_id@, req.data@),
{
    let p = trimmed_chars(req.printer_id.as_str());
    if p.len() == 0 {
        return Err(reply(STATUS_UNPROCESSABLE, MSG_PRINTER_REQUIRED));
    }
    let d = trimmed_chars(req.data.as_str());
    if d.len() == 0 {
        return Err(reply(STATUS_UNPROCESSABLE, MSG_DATA_EMPTY));
    }
    Ok(())
}

// ---- reports ----------------------------------------------------------------

/// The only address the API listens on.
pub const BIND_ADDRESS: &'static str = "127.0.0.1";

/// What the public `/status` endpoint reports. It has no field for the token.
#[derive(Debug, Clone)]
pub struct StatusReport {
    pub running: bool,
    pub version: String,
    pub previous_version: Option<String>,
    pub installed_version: Option<String>,
    pub bind: String,
    pub platform: String,
    pub auth_required: bool,
    pub pairing_required: bool,
    pub pairing_available: bool,
}

/// What the authenticated `/settings` endpoint reports: whether a token is
/// set, never the token itself.
#[derive(Debug, Clone)]
pub struct SettingsReport {
    pub version: String,
    pub port: u16,
    pub bind: String,
    pub default_printer_id: Option<String>,
    pub platform: String,
    pub token_set: bool,
    pub paired_origin: Option<String>,
}

fn copy_opt(o: &Option<String>) -> (r: Option<String>)
    ensures
        r == *o,
{
    match o {
        Some(s) => Some(s.clone()),
        None => None,
    }
}

/// The `/status` report of a configuration, for agent `version` on `platform`.
pub fn status_report(cfg: &AgentConfig, version: &str, platform: &str) -> (r: StatusReport)
    ensures
        r.running,
        r.version@ == version@,
        r.previous_version == cfg.previous_version,
        r.installed_version == cfg.installed_version,
        r.bind@ == BIND_ADDRESS@,
        r.platform@ == platform@,
        r.auth_required,
        r.pairing_required,
        r.pairing_available,
{
    StatusReport {
        running: true,
        version: String::from_str(version),
        previous_version: copy_opt(&cfg.previous_version),
        installed_version: copy_opt(&cfg.installed_version),
        bind: String::from_str(BIND_ADDRESS),
        platform: String::from_str(platform),
        auth_required: true,
        pairing_required: true,
        pairing_available: true,
    }
}

/// The `/settings` report of a configuration, for agent `version` on `platform`.
pub fn settings_report(cfg: &AgentConfig, version: &str, platform: &str) -> (r: SettingsReport)
    ensures
        r.version@ == version@,
        r.port == cfg.port,
        r.bind@ == BIND_ADDRESS@,
        r.default_printer_id == cfg.default_printer_id,
        r.platform@ == platform@,
        r.token_set == (cfg.token@.len() > 0),
        r.paired_origin == cfg.paired_origin,
{
    SettingsReport {
        version: String::from_str(version),
        port: cfg.port,
        bind: String::from_str(BIND_ADDRESS),
        default_printer_id: copy_opt(&cfg.default_printer_id),
        platform: String::from_str(platform),
        token_set: str_chars(cfg.token.as_str()).len() > 0,
        paired_origin: copy_opt(&cfg.paired_origin),
    }
}

// ---- clock texts --------------------------------------------------------------

/// Seconds since the Unix epoch as decimal text (`0` when the clock reads
/// before the epoch).
pub fn unix_seconds_text() -> (r: String)
    ensures
        exists|secs: u64| r@ == #[trigger] decimal(secs as nat),
{
    let secs: u64 = match since_unix_epoch(&system_time_now()) {
        Some(d) => duration_secs(&d),
        None => 0,
    };
    decimal_string(secs)
}

/// Milliseconds cut to 64 bits, or 0 when there is no reading.
pub open spec fn spec_epoch_millis(ms: Option<u128>) -> u64 {
    match ms {
        Some(m) => (m % 0x1_0000_0000_0000_0000) as u64,
        None => 0,
    }
}

/// A millisecond count since the Unix epoch as 64 bits (the low 64 bits of
/// the count), or 0 when the clock reads before the epoch (`None`).
pub fn epoch_millis(ms: Option<u128>) -> (r: u64)
    ensures
        r == spec_epoch_millis(ms),
{
    match ms {
        Some(m) => (m % 0x1_0000_0000_0000_0000) as u64,
        None => 0,
    }
}

/// Milliseconds since the Unix epoch, cut to 64 bits (`0` when the clock
/// reads before the epoch).
pub fn unix_millis() -> (r: u64)
    ensures
        exists|ms: Option<u128>| r == #[trigger] spec_epoch_millis(ms),
{
    let ms: Option<u128> = match since_unix_epoch(&system_time_now()) {
        Some(d) => Some(duration_millis(&d)),
        None => None,
    };
    epoch_millis(ms)
}

} // verus!

verus! {

/// A request without a credential is refused with 401 unless its origin is
/// refused first (403).
pub proof fn law_missing_token_refused(origin: Option<Seq<char>>, expected: Seq<char>)
    ensures
        spec_auth(origin, expected, None) is Some,
        (origin is None || spec_origin_allowed(origin.unwrap())) ==> spec_auth(origin, expected, None) == Some(
            (STATUS_UNAUTHORIZED, MSG_BAD_TOKEN@),
        ),
{
    assert(trim(Seq::<char>::empty()).len() == 0);
}

/// A refused origin gets 403 whatever credential it sends.
pub proof fn law_refused_origin_forbidden(origin: Seq<char>, expected: Seq<char>, provided: Option<Seq<char>>)
    requires
        !spec_origin_allowed(origin),
    ensures
        spec_auth(Some(origin), expected, provided) == Some((STATUS_FORBIDDEN, MSG_ORIGIN_MAY_NOT_PRINT@)),
{
}

/// The install token is handed out once per PIN: a second pairing with the
/// same PIN is refused with 401 and changes nothing.
pub proof fn law_pairing_code_works_once(
    origin: Seq<char>,
    code: Seq<char>,
    now1: u64,
    now2: u64,
    s0: Option<(Seq<char>, u64)>,
    s1: Option<(Seq<char>, u64)>,
    s2: Option<(Seq<char>, u64)>,
    c0: AgentConfig,
    c1: AgentConfig,
    c2: AgentConfig,
    r1: Result<PairReply, ErrorReply>,
    r2: Result<PairReply, ErrorReply>,
)
    requires
        pairing_effect(origin, code, now1, s0, s1, c0, c1, r1),
        pairing_effect(origin, code, now2, s1, s2, c1, c2, r2),
        r1 is Ok,
    ensures
        r2 matches Err(e) && reply_view(e) == (STATUS_UNAUTHORIZED, MSG_BAD_PAIRING_CODE@),
        c2 == c1,
        s2 is None,
{
}

/// Print requests closer than 80 ms to the last one taken are refused; later
/// ones are taken.
pub proof fn law_print_dedupe_window(last: u64, now: u64)
    requires
        last <= now,
    ensures
        in_flight(Some(last), now) <==> now - last < PRINT_DEDUPE_NANOS,
        !in_flight(None, now),
{
}

} // verus!

