//! The agent's persisted settings: install token, port, default printer and
//! pairing state, with the rules that keep them consistent.

use vstd::prelude::*;
use crate::auth::{generate_token, opt_view, origins_match_for_reconnect, spec_origins_match, TOKEN_BYTES};
use crate::external::{
    hex_lower, http_uri_parts, json_is_value, json_parses, json_str_array_field, json_str_array_member, json_str_field,
    json_str_member, json_u64_field, json_u64_member,
};
use crate::text::{chars_eq, lemma_trim_idempotent, str_chars, trim, trimmed_chars, string_from_chars};
use crate::DEFAULT_PORT;

verus! {

/// The agent configuration as stored in `config.json`.
#[derive(Debug, Clone)]
pub struct AgentConfig {
    pub token: String,
    pub port: u16,
    pub default_printer_id: Option<String>,
    pub paired_origin: Option<String>,
    /// Every Finvoroo origin that has paired or reconnected on this PC.
    /// Pairing is per machine, not per browser URL.
    pub paired_origins: Vec<String>,
    pub paired_at: Option<String>,
    pub first_run: bool,
    /// Last version written by this agent build (used to detect upgrades).
    pub installed_version: Option<String>,
    /// Version immediately before the current install (shown after an update).
    pub previous_version: Option<String>,
}

/// A fresh install token: 64 lower-case hex digits of 32 bytes.
pub open spec fn is_install_token(t: Seq<char>) -> bool {
    exists|b: Seq<u8>| b.len() == TOKEN_BYTES && t == hex_lower(b)
}

impl Default for AgentConfig {
    /// A first-run configuration with a fresh token and the default port.
    fn default() -> (r: Self)
        ensures
            is_install_token(r.token@),
            r.port == DEFAULT_PORT,
            r.default_printer_id is None,
            r.paired_origin is None,
            r.paired_origins@.len() == 0,
            r.paired_at is None,
            r.first_run,
            r.installed_version is None,
            r.previous_version is None,
    {
        AgentConfig {
            token: generate_token(),
            port: DEFAULT_PORT,
            default_printer_id: None,
            paired_origin: None,
            paired_origins: Vec::new(),
            paired_at: None,
            first_run: true,
            installed_version: None,
            previous_version: None,
        }
    }
}

/// The characters of each stored origin.
pub open spec fn origin_views(v: Seq<String>) -> Seq<Seq<char>> {
    v.map_values(|s: String| s@)
}

/// Whether some origin of the list is the same pairing as `origin`.
pub open spec fn knows_origin(list: Seq<Seq<char>>, origin: Seq<char>) -> bool {
    exists|i: int| 0 <= i < list.len() && spec_origins_match(#[trigger] list[i], origin)
}

/// Pairing state after recording `origin`: blank origins change nothing;
/// otherwise the trimmed origin is current and joins the list unless the list
/// already holds the same pairing.
pub open spec fn spec_remember(state: (Option<Seq<char>>, Seq<Seq<char>>), origin: Seq<char>) -> (
    Option<Seq<char>>,
    Seq<Seq<char>>,
) {
    let o = trim(origin);
    if o.len() == 0 {
        state
    } else if knows_origin(state.1, o) {
        (Some(o), state.1)
    } else {
        (Some(o), state.1.push(o))
    }
}

/// The effect of recording the running agent version `current`: nothing when
/// the configuration already names it; otherwise it becomes the installed
/// version and the one it replaces (if any) becomes the previous version.
pub open spec fn version_step(before: AgentConfig, after: AgentConfig, current: Seq<char>, changed: bool) -> bool {
    if opt_view(before.installed_version) == Some(current) {
        !changed && after == before
    } else {
        &&& changed
        &&& after.same_except_versions(&before)
        &&& opt_view(after.installed_version) == Some(current)
        &&& after.previous_version == if before.installed_version is Some {
            before.installed_version
        } else {
            before.previous_version
        }
    }
}

/// Whether two optional strings hold the same text.
fn same_text(a: &Option<String>, b: &str) -> (r: bool)
    ensures
        r == (opt_view(*a) == Some(b@)),
{
    match a {
        Some(x) => {
            let xc = str_chars(x.as_str());
            let bc = str_chars(b);
            chars_eq(&xc, &bc)
        },
        None => false,
    }
}

impl AgentConfig {
    /// Everything but the version fields is equal.
    pub open spec fn same_except_versions(&self, other: &AgentConfig) -> bool {
        &&& self.token == other.token
        &&& self.port == other.port
        &&& self.default_printer_id == other.default_printer_id
        &&& self.paired_origin == other.paired_origin
        &&& self.paired_origins == other.paired_origins
        &&& self.paired_at == other.paired_at
        &&& self.first_run == other.first_run
    }

    /// Everything but the pairing fields is equal.
    pub open spec fn same_except_pairing(&self, other: &AgentConfig) -> bool {
        &&& self.token == other.token
        &&& self.port == other.port
        &&& self.default_printer_id == other.default_printer_id
        &&& self.first_run == other.first_run
        &&& self.installed_version == other.installed_version
        &&& self.previous_version == other.previous_version
    }

    /// Record a version change when the agent binary differs from the config:
    /// the old installed version becomes the previous one. Returns whether
    /// anything changed.
    pub fn apply_version_tracking(&mut self, current: &str) -> (changed: bool)
        ensures
            version_step(*old(self), *final(self), current@, changed),
    {
        if same_text(&self.installed_version, current) {
            return false;
        }
        let prior = self.installed_version.take();
        match prior {
            Some(old_version) => {
                self.previous_version = Some(old_version);
            },
            None => {},
        }
        self.installed_version = Some(String::from_str(current));
        true
    }

    /// Paired: a token is set and some origin is recorded.
    pub open spec fn spec_is_paired(&self) -> bool {
        &&& trim(self.token@).len() > 0
        &&& (self.paired_origin matches Some(o) && trim(o@).len() > 0) || exists|i: int|
            0 <= i < self.paired_origins@.len() && trim(#[trigger] self.paired_origins@[i]@).len() > 0
    }

    pub fn is_paired(&self) -> (r: bool)
        ensures
            r == self.spec_is_paired(),
    {
        let t = trimmed_chars(self.token.as_str());
        if t.len() == 0 {
            return false;
        }
        match &self.paired_origin {
            Some(o) => {
                let ot = trimmed_chars(o.as_str());
                if ot.len() > 0 {
                    return true;
                }
            },
            None => {},
        }
        let mut i: usize = 0;
        while i < self.paired_origins.len()
            invariant
                trim(self.token@).len() > 0,
                !(self.paired_origin matches Some(o) && trim(o@).len() > 0),
                i <= self.paired_origins@.len(),
                forall|j: int| 0 <= j < i ==> trim(#[trigger] self.paired_origins@[j]@).len() == 0,
            decreases self.paired_origins@.len() - i,
        {
            let ot = trimmed_chars(self.paired_origins[i].as_str());
            if ot.len() > 0 {
                proof {
                    assert(trim(self.paired_origins@[i as int]@).len() > 0);
                }
                return true;
            }
            i = i + 1;
        }
        false
    }

    /// The current origin and the origin list, as text.
    pub open spec fn pairing_view(&self) -> (Option<Seq<char>>, Seq<Seq<char>>) {
        (opt_view(self.paired_origin), origin_views(self.paired_origins@))
    }

    /// Record a paired origin (trimmed; blank origins are ignored). It becomes
    /// the current origin and joins the list unless the list already holds the
    /// same pairing.
    pub fn remember_paired_origin(&mut self, origin: &str)
        ensures
            final(self).same_except_pairing(old(self)),
            final(self).paired_at == old(self).paired_at,
            final(self).pairing_view() == spec_remember(old(self).pairing_view(), origin@),
            trim(origin@).len() == 0 ==> *final(self) == *old(self),
    {
        let t = trimmed_chars(origin);
        if t.len() == 0 {
            return;
        }
        let o = string_from_chars(&t);
        self.paired_origin = Some(string_from_chars(&t));
        let mut found = false;
        let mut i: usize = 0;
        while i < self.paired_origins.len()
            invariant_except_break
                !found,
                i <= self.paired_origins@.len(),
                forall|j: int| 0 <= j < i ==> !spec_origins_match(#[trigger] self.paired_origins@[j]@, o@),
            ensures
                found ==> knows_origin(origin_views(self.paired_origins@), o@),
                !found ==> !knows_origin(origin_views(self.paired_origins@), o@),
            decreases self.paired_origins@.len() - i,
        {
            if origins_match_for_reconnect(self.paired_origins[i].as_str(), o.as_str()) {
                proof {
                    assert(origin_views(self.paired_origins@)[i as int] == self.paired_origins@[i as int]@);
                }
                found = true;
                break;
            }
            i = i + 1;
        }
        if !found {
            let ghost before = self.paired_origins@;
            self.paired_origins.push(o);
            proof {
                assert(origin_views(self.paired_origins@) =~= origin_views(before).push(t@));
            }
        }
    }

    /// Forget every paired origin and the pairing time.
    pub fn clear_pairing(&mut self)
        ensures
            final(self).same_except_pairing(old(self)),
            final(self).paired_origin is None,
            final(self).paired_origins@.len() == 0,
            final(self).paired_at is None,
    {
        self.paired_origin = None;
        self.paired_origins.clear();
        self.paired_at = None;
    }
}

} // verus!

verus! {

/// The origins that are not blank, in order.
pub open spec fn keep_nonblank(list: Seq<Seq<char>>) -> Seq<Seq<char>>
    decreases list.len(),
{
    if list.len() == 0 {
        list
    } else if trim(list.last()).len() == 0 {
        keep_nonblank(list.drop_last())
    } else {
        keep_nonblank(list.drop_last()).push(list.last())
    }
}

/// Pairing state after recording each present origin in turn.
pub open spec fn remember_each(
    state: (Option<Seq<char>>, Seq<Seq<char>>),
    origins: Seq<Option<Seq<char>>>,
) -> (Option<Seq<char>>, Seq<Seq<char>>)
    decreases origins.len(),
{
    if origins.len() == 0 {
        state
    } else {
        let before = remember_each(state, origins.drop_last());
        match origins.last() {
            Some(o) => spec_remember(before, o),
            None => before,
        }
    }
}

/// Pairing state after normalisation: the current origin is recorded in the
/// list, then blank entries are dropped.
pub open spec fn spec_normalized(state: (Option<Seq<char>>, Seq<Seq<char>>)) -> (Option<Seq<char>>, Seq<Seq<char>>) {
    let mid = match state.0 {
        Some(o) => spec_remember(state, o),
        None => state,
    };
    (mid.0, keep_nonblank(mid.1))
}

impl AgentConfig {
    /// Record the current origin in the list and drop blank entries.
    pub fn normalize_pairing(&mut self)
        ensures
            final(self).same_except_pairing(old(self)),
            final(self).paired_at == old(self).paired_at,
            final(self).pairing_view() == spec_normalized(old(self).pairing_view()),
    {
        let current: Option<String> = match &self.paired_origin {
            Some(o) => Some(o.clone()),
            None => None,
        };
        match current {
            Some(o) => {
                self.remember_paired_origin(o.as_str());
            },
            None => {},
        }
        let mut kept: Vec<String> = Vec::new();
        let mut i: usize = 0;
        while i < self.paired_origins.len()
            invariant
                i <= self.paired_origins@.len(),
                origin_views(kept@) == keep_nonblank(origin_views(self.paired_origins@).take(i as int)),
            decreases self.paired_origins@.len() - i,
        {
            proof {
                assert(origin_views(self.paired_origins@).take(i + 1).drop_last() =~= origin_views(
                    self.paired_origins@,
                ).take(i as int));
            }
            let t = trimmed_chars(self.paired_origins[i].as_str());
            if t.len() > 0 {
                let ghost before = kept@;
                kept.push(self.paired_origins[i].clone());
                proof {
                    assert(origin_views(kept@) =~= origin_views(before).push(self.paired_origins@[i as int]@));
                }
            }
            i = i + 1;
        }
        proof {
            assert(origin_views(self.paired_origins@).take(self.paired_origins@.len() as int) =~= origin_views(
                self.paired_origins@,
            ));
        }
        self.paired_origins = kept;
    }
}

/// What a configuration that no longer deserialises still holds, as its JSON
/// reads: each member when it has the right JSON type.
#[derive(Debug, Clone)]
pub struct SalvagedFields {
    pub token: Option<String>,
    pub port: Option<u64>,
    pub default_printer_id: Option<String>,
    pub paired_origin: Option<String>,
    /// Each element as its string, `None` for an element that is not a string.
    pub paired_origins: Option<Vec<Option<String>>>,
    pub paired_at: Option<String>,
}

/// The text views of the elements of an origin array.
pub open spec fn origin_items(v: Seq<Option<String>>) -> Seq<Option<Seq<char>>> {
    v.map_values(|o: Option<String>| opt_view(o))
}

/// A salvaged configuration when nothing could be read: a fresh one, first
/// run off.
pub open spec fn salvaged_fresh(r: AgentConfig) -> bool {
    &&& is_install_token(r.token@)
    &&& r.port == DEFAULT_PORT
    &&& r.default_printer_id is None
    &&& r.paired_origin is None
    &&& r.paired_origins@.len() == 0
    &&& r.paired_at is None
    &&& !r.first_run
    &&& r.installed_version is None
    &&& r.previous_version is None
}

/// A salvaged configuration from the members read: a non-blank token and
/// printer are kept trimmed (else a fresh token and no printer), a port in
/// 1..=65535 is kept (else the default), the current origin and then each
/// listed origin are recorded as pairings, and the pairing time is kept.
pub open spec fn salvaged_from(
    token: Option<Seq<char>>,
    port: Option<u64>,
    printer: Option<Seq<char>>,
    origin: Option<Seq<char>>,
    origins: Option<Seq<Option<Seq<char>>>>,
    paired_at: Option<Seq<char>>,
    r: AgentConfig,
) -> bool {
    &&& (token matches Some(t) && trim(t).len() > 0) ==> r.token@ == trim(token.unwrap())
    &&& !(token matches Some(t) && trim(t).len() > 0) ==> is_install_token(r.token@)
    &&& (port matches Some(p) && 0 < p <= 65535) ==> r.port == port.unwrap()
    &&& !(port matches Some(p) && 0 < p <= 65535) ==> r.port == DEFAULT_PORT
    &&& (printer matches Some(p) && trim(p).len() > 0) ==> opt_view(r.default_printer_id) == Some(
        trim(printer.unwrap()),
    )
    &&& !(printer matches Some(p) && trim(p).len() > 0) ==> r.default_printer_id is None
    &&& r.pairing_view() == remember_each(
        match origin {
            Some(o) => spec_remember((None, Seq::empty()), o),
            None => (None, Seq::empty()),
        },
        match origins {
            Some(list) => list,
            None => Seq::empty(),
        },
    )
    &&& opt_view(r.paired_at) == paired_at
    &&& !r.first_run
    &&& r.installed_version is None
    &&& r.previous_version is None
}

/// Rebuild a configuration from the members an unreadable config file still
/// holds (`None`: the file is not JSON at all).
pub fn salvage_from_fields(fields: Option<SalvagedFields>) -> (r: AgentConfig)
    ensures
        match fields {
            None => salvaged_fresh(r),
            Some(f) => salvaged_from(
                opt_view(f.token),
                f.port,
                opt_view(f.default_printer_id),
                opt_view(f.paired_origin),
                match f.paired_origins {
                    Some(v) => Some(origin_items(v@)),
                    None => None,
                },
                opt_view(f.paired_at),
                r,
            ),
        },
{
    let mut cfg = AgentConfig::default();
    cfg.first_run = false;
    let f = match fields {
        None => return cfg,
        Some(f) => f,
    };
    match &f.token {
        Some(token) => {
            let t = trimmed_chars(token.as_str());
            if t.len() > 0 {
                cfg.token = string_from_chars(&t);
            }
        },
        None => {},
    }
    match f.port {
        Some(port) => {
            if port > 0 && port <= 65535 {
                cfg.port = port as u16;
            }
        },
        None => {},
    }
    match &f.default_printer_id {
        Some(printer) => {
            let t = trimmed_chars(printer.as_str());
            if t.len() > 0 {
                cfg.default_printer_id = Some(string_from_chars(&t));
            }
        },
        None => {},
    }
    let ghost start = cfg.pairing_view();
    proof {
        assert(start =~= (None::<Seq<char>>, Seq::<Seq<char>>::empty()));
    }
    match &f.paired_origin {
        Some(origin) => {
            cfg.remember_paired_origin(origin.as_str());
        },
        None => {},
    }
    let ghost after_current = cfg.pairing_view();
    assert(after_current == match opt_view(f.paired_origin) {
        Some(o) => spec_remember((None, Seq::empty()), o),
        None => (None, Seq::empty()),
    });
    match &f.paired_origins {
        Some(origins) => {
            let ghost list = origin_items(origins@);
            let ghost t0 = cfg.token;
            let ghost p0 = cfg.port;
            let ghost d0 = cfg.default_printer_id;
            let mut i: usize = 0;
            while i < origins.len()
                invariant
                    i <= origins@.len(),
                    list == origin_items(origins@),
                    cfg.pairing_view() == remember_each(after_current, list.take(i as int)),
                    !cfg.first_run,
                    cfg.installed_version is None,
                    cfg.previous_version is None,
                    cfg.paired_at is None,
                    cfg.token == t0,
                    cfg.port == p0,
                    cfg.default_printer_id == d0,
                decreases origins@.len() - i,
            {
                proof {
                    assert(list.take(i + 1).drop_last() =~= list.take(i as int));
                }
                match &origins[i] {
                    Some(o) => {
                        cfg.remember_paired_origin(o.as_str());
                    },
                    None => {},
                }
                i = i + 1;
            }
            proof {
                assert(list.take(origins@.len() as int) =~= list);
            }
        },
        None => {
            assert(remember_each(after_current, Seq::empty()) == after_current);
        },
    }
    match &f.paired_at {
        Some(at) => {
            cfg.paired_at = Some(at.clone());
        },
        None => {},
    }
    cfg
}

/// Rebuild a configuration from a config file that no longer deserialises:
/// start from a fresh one (first run off) and keep whatever the JSON still
/// holds of the token, port, default printer and pairing.
pub fn salvage_config(raw: &str) -> (r: AgentConfig)
    ensures
        !json_is_value(raw@) ==> salvaged_fresh(r),
        json_is_value(raw@) ==> salvaged_from(
            json_str_member(raw@, "token"@),
            json_u64_member(raw@, "port"@),
            json_str_member(raw@, "default_printer_id"@),
            json_str_member(raw@, "paired_origin"@),
            json_str_array_member(raw@, "paired_origins"@),
            json_str_member(raw@, "paired_at"@),
            r,
        ),
{
    if !json_parses(raw) {
        return salvage_from_fields(None);
    }
    let origins = json_str_array_field(raw, "paired_origins");
    proof {
        if origins is Some {
            assert(origin_items(origins.unwrap()@) =~= origins.unwrap()@.map_values(|o: Option<String>| match o {
                Some(s) => Some(s@),
                None => None,
            }));
        }
    }
    let fields = SalvagedFields {
        token: json_str_field(raw, "token"),
        port: json_u64_field(raw, "port"),
        default_printer_id: json_str_field(raw, "default_printer_id"),
        paired_origin: json_str_field(raw, "paired_origin"),
        paired_origins: origins,
        paired_at: json_str_field(raw, "paired_at"),
    };
    salvage_from_fields(Some(fields))
}

impl AgentConfig {
    /// Settle a configuration read from disk: normalise the pairing, replace a
    /// blank token with a fresh one, fall back to the default port for port 0,
    /// and clear the first-run flag.
    pub fn finish_load(&mut self)
        ensures
            final(self).pairing_view() == spec_normalized(old(self).pairing_view()),
            final(self).paired_at == old(self).paired_at,
            trim(old(self).token@).len() > 0 ==> final(self).token == old(self).token,
            trim(old(self).token@).len() == 0 ==> is_install_token(final(self).token@),
            final(self).port == if old(self).port == 0 { DEFAULT_PORT } else { old(self).port },
            final(self).default_printer_id == old(self).default_printer_id,
            final(self).installed_version == old(self).installed_version,
            final(self).previous_version == old(self).previous_version,
            !final(self).first_run,
    {
        self.normalize_pairing();
        let t = trimmed_chars(self.token.as_str());
        if t.len() == 0 {
            self.token = generate_token();
        }
        if self.port == 0 {
            self.port = DEFAULT_PORT;
        }
        self.first_run = false;
    }

    /// The form written to disk: the first-run flag is never stored.
    pub fn for_storage(self) -> (r: AgentConfig)
        ensures
            r == (AgentConfig { first_run: false, ..self }),
    {
        AgentConfig { first_run: false, ..self }
    }

    /// Choose the default printer; a blank id clears it.
    pub fn set_default_printer(&mut self, printer_id: String)
        ensures
            trim(printer_id@).len() == 0 ==> final(self).default_printer_id is None,
            trim(printer_id@).len() > 0 ==> final(self).default_printer_id == Some(printer_id),
            final(self).token == old(self).token,
            final(self).port == old(self).port,
            final(self).paired_origin == old(self).paired_origin,
            final(self).paired_origins == old(self).paired_origins,
            final(self).paired_at == old(self).paired_at,
            final(self).first_run == old(self).first_run,
            final(self).installed_version == old(self).installed_version,
            final(self).previous_version == old(self).previous_version,
    {
        let t = trimmed_chars(printer_id.as_str());
        self.default_printer_id = if t.len() == 0 {
            None
        } else {
            Some(printer_id)
        };
    }

    /// Issue a new install token; the current origin and pairing time are
    /// forgotten (the origin list is kept). Returns the new token.
    pub fn regenerate_token(&mut self) -> (r: String)
        ensures
            is_install_token(final(self).token@),
            r == final(self).token,
            final(self).paired_origin is None,
            final(self).paired_at is None,
            final(self).paired_origins == old(self).paired_origins,
            final(self).port == old(self).port,
            final(self).default_printer_id == old(self).default_printer_id,
            final(self).first_run == old(self).first_run,
            final(self).installed_version == old(self).installed_version,
            final(self).previous_version == old(self).previous_version,
    {
        self.token = generate_token();
        self.paired_origin = None;
        self.paired_at = None;
        self.token.clone()
    }

    /// Record a completed pairing: a blank token is replaced first, then the
    /// origin and pairing time are stored. Returns the token handed to the browser.
    pub fn record_pairing(&mut self, origin: String, paired_at: String) -> (r: String)
        ensures
            trim(old(self).token@).len() > 0 ==> final(self).token == old(self).token,
            trim(old(self).token@).len() == 0 ==> is_install_token(final(self).token@),
            r == final(self).token,
            final(self).paired_origin == Some(origin),
            final(self).paired_at == Some(paired_at),
            final(self).paired_origins == old(self).paired_origins,
            final(self).port == old(self).port,
            final(self).default_printer_id == old(self).default_printer_id,
            final(self).first_run == old(self).first_run,
            final(self).installed_version == old(self).installed_version,
            final(self).previous_version == old(self).previous_version,
    {
        let t = trimmed_chars(self.token.as_str());
        if t.len() == 0 {
            self.token = generate_token();
        }
        self.paired_origin = Some(origin);
        self.paired_at = Some(paired_at);
        self.token.clone()
    }
}

} // verus!

verus! {

/// Recording the same version a second time changes nothing and reports no
/// change.
pub proof fn law_version_tracking_settles(
    before: AgentConfig,
    after: AgentConfig,
    again: AgentConfig,
    current: Seq<char>,
    changed: bool,
    changed_again: bool,
)
    requires
        version_step(before, after, current, changed),
        version_step(after, again, current, changed_again),
    ensures
        !changed_again,
        again == after,
{
}

/// Recording an origin twice is recording it once.
pub proof fn law_remember_is_idempotent(state: (Option<Seq<char>>, Seq<Seq<char>>), origin: Seq<char>)
    ensures
        spec_remember(spec_remember(state, origin), origin) == spec_remember(state, origin),
{
    let o = trim(origin);
    if o.len() > 0 {
        let once = spec_remember(state, origin);
        if !knows_origin(state.1, o) {
            let i = state.1.len() as int;
            assert(once.1[i] == o);
            assert(spec_origins_match(once.1[i], o));
        }
        assert(knows_origin(once.1, o));
    }
}

/// No two entries of an origin list are the same pairing.
pub open spec fn distinct_pairings(list: Seq<Seq<char>>) -> bool {
    forall|i: int, j: int| 0 <= i < j < list.len() ==> !spec_origins_match(#[trigger] list[i], #[trigger] list[j])
}

/// Recording an origin never lists the same pairing twice.
pub proof fn law_remember_keeps_pairings_distinct(state: (Option<Seq<char>>, Seq<Seq<char>>), origin: Seq<char>)
    requires
        distinct_pairings(state.1),
    ensures
        distinct_pairings(spec_remember(state, origin).1),
{
    let o = trim(origin);
    let after = spec_remember(state, origin).1;
    if o.len() > 0 && !knows_origin(state.1, o) {
        assert forall|i: int, j: int| 0 <= i < j < after.len() implies !spec_origins_match(
            #[trigger] after[i],
            #[trigger] after[j],
        ) by {
            if j == state.1.len() {
                assert(after[j] == o);
                assert(after[i] == state.1[i]);
            } else {
                assert(after[i] == state.1[i]);
                assert(after[j] == state.1[j]);
            }
        }
    }
}

/// With an install token set, recording a non-blank origin pairs the agent.
pub proof fn law_remember_pairs(before: AgentConfig, after: AgentConfig, origin: Seq<char>)
    requires
        after.same_except_pairing(&before),
        after.pairing_view() == spec_remember(before.pairing_view(), origin),
        trim(before.token@).len() > 0,
        trim(origin).len() > 0,
    ensures
        after.spec_is_paired(),
{
    lemma_trim_idempotent(origin);
    let o = after.paired_origin.unwrap();
    assert(o@ == trim(origin));
}

/// After the pairing is cleared the agent is not paired.
pub proof fn law_cleared_is_unpaired(cfg: AgentConfig)
    requires
        cfg.paired_origin is None,
        cfg.paired_origins@.len() == 0,
    ensures
        !cfg.spec_is_paired(),
{
}

} // verus!

verus! {

/// Dropping blank origins twice is dropping them once.
pub proof fn lemma_keep_nonblank_idempotent(list: Seq<Seq<char>>)
    ensures
        keep_nonblank(keep_nonblank(list)) == keep_nonblank(list),
    decreases list.len(),
{
    if list.len() > 0 {
        lemma_keep_nonblank_idempotent(list.drop_last());
        let k = keep_nonblank(list.drop_last());
        if trim(list.last()).len() > 0 {
            let kp = k.push(list.last());
            assert(kp.drop_last() =~= k);
            assert(kp.last() == list.last());
        }
    }
}

/// A non-blank entry survives the dropping of blank ones.
pub proof fn lemma_keep_nonblank_keeps(list: Seq<Seq<char>>, i: int)
    requires
        0 <= i < list.len(),
        trim(list[i]).len() > 0,
    ensures
        exists|j: int| 0 <= j < keep_nonblank(list).len() && keep_nonblank(list)[j] == list[i],
    decreases list.len(),
{
    let k = keep_nonblank(list.drop_last());
    if i == list.len() - 1 {
        let j = k.len() as int;
        assert(keep_nonblank(list)[j] == list[i]);
    } else {
        lemma_keep_nonblank_keeps(list.drop_last(), i);
        let j = choose|j: int| 0 <= j < k.len() && k[j] == list.drop_last()[i];
        if trim(list.last()).len() > 0 {
            assert(keep_nonblank(list)[j] == list[i]);
        } else {
            assert(keep_nonblank(list)[j] == list[i]);
        }
    }
}

/// Normalising a normalised pairing state changes nothing, so a configuration
/// that was loaded once loads the same way again. (`http` refuses the empty
/// text as a URI, so a blank entry is never the same pairing as a real origin.)
pub proof fn law_normalize_is_idempotent(state: (Option<Seq<char>>, Seq<Seq<char>>))
    requires
        http_uri_parts(Seq::empty()) is None,
    ensures
        spec_normalized(spec_normalized(state)) == spec_normalized(state),
{
    let n1 = spec_normalized(state);
    match state.0 {
        None => {
            lemma_keep_nonblank_idempotent(state.1);
        },
        Some(o) => {
            let t = trim(o);
            lemma_trim_idempotent(o);
            if t.len() == 0 {
                lemma_keep_nonblank_idempotent(state.1);
            } else {
                let mid = spec_remember(state, o);
                lemma_keep_nonblank_idempotent(mid.1);
                assert(n1.0 == Some(t));
                if knows_origin(state.1, t) {
                    let i = choose|i: int| 0 <= i < state.1.len() && spec_origins_match(#[trigger] state.1[i], t);
                    assert(trim(state.1[i]).len() > 0) by {
                        if trim(state.1[i]).len() == 0 {
                            assert(trim(state.1[i]) =~= Seq::<char>::empty());
                        }
                    }
                    lemma_keep_nonblank_keeps(mid.1, i);
                    let j = choose|j: int| 0 <= j < keep_nonblank(mid.1).len() && keep_nonblank(mid.1)[j] == mid.1[i];
                    assert(spec_origins_match(n1.1[j], t));
                    assert(knows_origin(n1.1, t));
                } else {
                    let i = state.1.len() as int;
                    assert(mid.1[i] == t);
                    lemma_keep_nonblank_keeps(mid.1, i);
                    let j = choose|j: int| 0 <= j < keep_nonblank(mid.1).len() && keep_nonblank(mid.1)[j] == mid.1[i];
                    assert(spec_origins_match(n1.1[j], t));
                    assert(knows_origin(n1.1, t));
                }
            }
        },
    }
}

} // verus!

