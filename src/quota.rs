//! The quota engine: per-user monthly counters, loaded lazily, reset at the
//! first instant of each month in UTC+8, and written out every
//! `save_interval` increments.
//!
//! File I/O stays with the caller: loading takes what the user's quota file
//! held, and every operation that must write returns the snapshots to write,
//! in order, each to `<username>.json`.

use crate::config::{QuotaTiersConfig, UserView};
use crate::error::AppError;
use crate::text::{is_lower_ascii, join2, lowercase, lowercase_of};
use crate::user_manager::UserManager;
use crate::utils::{beijing_rfc3339_of, next_month_reset, next_month_reset_of, rfc3339_beijing};
use dashmap::DashMap;
use vstd::prelude::*;

verus! {

/// A subscription tier.
#[derive(Debug, Clone, Copy, PartialEq, Eq, Structural)]
pub enum QuotaTier {
    Basic,
    Pro,
    Premium,
}

/// The tier a lower-case name stands for.
pub open spec fn tier_named(n: Seq<char>) -> Option<QuotaTier> {
    if n == "basic"@ {
        Some(QuotaTier::Basic)
    } else if n == "pro"@ {
        Some(QuotaTier::Pro)
    } else if n == "premium"@ {
        Some(QuotaTier::Premium)
    } else {
        None
    }
}

/// The lower-case name of a tier.
pub open spec fn tier_name(t: QuotaTier) -> Seq<char> {
    match t {
        QuotaTier::Basic => "basic"@,
        QuotaTier::Pro => "pro"@,
        QuotaTier::Premium => "premium"@,
    }
}

/// The monthly limit of a tier.
pub open spec fn tier_limit(t: QuotaTier, c: QuotaTiersConfig) -> u32 {
    match t {
        QuotaTier::Basic => c.basic,
        QuotaTier::Pro => c.pro,
        QuotaTier::Premium => c.premium,
    }
}

impl QuotaTier {
    /// The monthly limit of this tier under `config`.
    pub fn limit(&self, config: &QuotaTiersConfig) -> (r: u32)
        ensures
            r == tier_limit(*self, *config),
    {
        match self {
            QuotaTier::Basic => config.basic,
            QuotaTier::Pro => config.pro,
            QuotaTier::Premium => config.premium,
        }
    }

    /// The tier named `s`, in any letter case.
    pub fn from_str(s: &str) -> (r: Option<QuotaTier>)
        ensures
            r == tier_named(lowercase_of(s@)),
            is_lower_ascii(s@) ==> r == tier_named(s@),
    {
        let lower = lowercase(s);
        if lower == String::from_str("basic") {
            Some(QuotaTier::Basic)
        } else if lower == String::from_str("pro") {
            Some(QuotaTier::Pro)
        } else if lower == String::from_str("premium") {
            Some(QuotaTier::Premium)
        } else {
            None
        }
    }

    /// The lower-case name of this tier.
    pub fn as_str(&self) -> (r: &'static str)
        ensures
            r@ == tier_name(*self),
    {
        match self {
            QuotaTier::Basic => "basic",
            QuotaTier::Pro => "pro",
            QuotaTier::Premium => "premium",
        }
    }
}

/// The answer of a quota check.
#[derive(Debug, Clone, Copy, PartialEq, Eq, Structural)]
pub enum QuotaStatus {
    /// Requests are left this month.
    Allowed { used: u32, limit: u32, remaining: u32, reset_at: i64 },
    /// The month's requests are used up.
    Exceeded { used: u32, limit: u32, reset_at: i64 },
}

/// The abstract content of a user's quota.
pub struct QuotaView {
    pub username: Seq<char>,
    pub tier: Seq<char>,
    pub monthly_limit: u32,
    pub used_count: u32,
    pub last_saved_count: u32,
    /// Unix instant of the next reset.
    pub reset_at: i64,
    pub last_saved_at: Option<Seq<char>>,
}

pub open spec fn opt_view(o: Option<String>) -> Option<Seq<char>> {
    match o {
        Some(s) => Some(s@),
        None => None,
    }
}

/// A user's quota as written to its file.
#[derive(Debug, Clone)]
pub struct QuotaState {
    pub username: String,
    pub tier: String,
    pub monthly_limit: u32,
    pub used_count: u32,
    pub last_saved_count: u32,
    /// Unix instant of the next reset; the file holds it as RFC 3339 text.
    pub reset_at: i64,
    pub last_saved_at: Option<String>,
    /// Whether the state differs from the file; never written.
    pub dirty: bool,
}

impl View for QuotaState {
    type V = QuotaView;

    /// Every field but `dirty`.
    open spec fn view(&self) -> QuotaView {
        QuotaView {
            username: self.username@,
            tier: self.tier@,
            monthly_limit: self.monthly_limit,
            used_count: self.used_count,
            last_saved_count: self.last_saved_count,
            reset_at: self.reset_at,
            last_saved_at: opt_view(self.last_saved_at),
        }
    }
}

/// A user's quota as the engine holds it.
#[derive(Debug, Clone)]
pub struct QuotaStateAtomic {
    pub username: String,
    pub tier: String,
    pub monthly_limit: u32,
    pub used_count: u32,
    pub last_saved_count: u32,
    pub reset_at: i64,
    pub last_saved_at: Option<String>,
}

impl View for QuotaStateAtomic {
    type V = QuotaView;

    open spec fn view(&self) -> QuotaView {
        QuotaView {
            username: self.username@,
            tier: self.tier@,
            monthly_limit: self.monthly_limit,
            used_count: self.used_count,
            last_saved_count: self.last_saved_count,
            reset_at: self.reset_at,
            last_saved_at: opt_view(self.last_saved_at),
        }
    }
}

fn copy_opt(o: &Option<String>) -> (r: Option<String>)
    ensures
        opt_view(r) == opt_view(*o),
{
    match o {
        Some(s) => Some(s.clone()),
        None => None,
    }
}

/// The counter after one more request; it stops at `u32::MAX`.
pub open spec fn bumped(v: QuotaView) -> QuotaView {
    QuotaView {
        used_count: if v.used_count < u32::MAX { (v.used_count + 1) as u32 } else { u32::MAX },
        ..v
    }
}

/// The state after a monthly reset: both counters zero, next reset at `next`.
pub open spec fn after_reset(v: QuotaView, next: i64) -> QuotaView {
    QuotaView { used_count: 0, last_saved_count: 0, reset_at: next, ..v }
}

/// The state recorded as written at `now`.
pub open spec fn marked_saved(v: QuotaView, now: int) -> QuotaView {
    QuotaView { last_saved_count: v.used_count, last_saved_at: beijing_rfc3339_of(now), ..v }
}

/// Whether enough increments have piled up since the last write.
pub open spec fn flush_due(v: QuotaView, interval: u32) -> bool {
    v.used_count < v.last_saved_count || v.used_count - v.last_saved_count >= interval
}

/// The answer of a check on `v`.
pub open spec fn status_of(v: QuotaView) -> QuotaStatus {
    if v.used_count >= v.monthly_limit {
        QuotaStatus::Exceeded { used: v.used_count, limit: v.monthly_limit, reset_at: v.reset_at }
    } else {
        QuotaStatus::Allowed {
            used: v.used_count,
            limit: v.monthly_limit,
            remaining: (v.monthly_limit - v.used_count) as u32,
            reset_at: v.reset_at,
        }
    }
}

impl QuotaStateAtomic {
    pub fn from_state(state: QuotaState) -> (r: Self)
        ensures
            r@ == state@,
    {
        QuotaStateAtomic {
            username: state.username,
            tier: state.tier,
            monthly_limit: state.monthly_limit,
            used_count: state.used_count,
            last_saved_count: state.last_saved_count,
            reset_at: state.reset_at,
            last_saved_at: state.last_saved_at,
        }
    }

    /// The state to write; it matches the file once written.
    pub fn to_state(&self) -> (r: QuotaState)
        ensures
            r@ == self@,
            !r.dirty,
    {
        QuotaState {
            username: self.username.clone(),
            tier: self.tier.clone(),
            monthly_limit: self.monthly_limit,
            used_count: self.used_count,
            last_saved_count: self.last_saved_count,
            reset_at: self.reset_at,
            last_saved_at: copy_opt(&self.last_saved_at),
            dirty: false,
        }
    }

    pub fn duplicate(&self) -> (r: Self)
        ensures
            r@ == self@,
    {
        QuotaStateAtomic::from_state(self.to_state())
    }

    /// Counts one more request and returns the new count; it stops at
    /// `u32::MAX`.
    pub fn increment(&mut self) -> (r: u32)
        ensures
            final(self)@ == bumped(old(self)@),
            r == final(self)@.used_count,
    {
        if self.used_count < u32::MAX {
            self.used_count = self.used_count + 1;
        }
        self.used_count
    }

    pub fn get_used(&self) -> (r: u32)
        ensures
            r == self@.used_count,
    {
        self.used_count
    }

    pub fn get_last_saved(&self) -> (r: u32)
        ensures
            r == self@.last_saved_count,
    {
        self.last_saved_count
    }

    pub fn update_last_saved(&mut self, count: u32)
        ensures
            final(self)@ == (QuotaView { last_saved_count: count, ..old(self)@ }),
    {
        self.last_saved_count = count;
    }

    /// Starts a new month: both counters zero, next reset at `new_reset_at`.
    pub fn reset(&mut self, new_reset_at: i64)
        ensures
            final(self)@ == after_reset(old(self)@, new_reset_at),
    {
        self.used_count = 0;
        self.last_saved_count = 0;
        self.reset_at = new_reset_at;
    }
}

#[verifier::external_type_specification]
#[verifier::external_body]
#[verifier::reject_recursive_types(K)]
#[verifier::reject_recursive_types(V)]
#[verifier::reject_recursive_types(S)]
pub struct ExDashMap<K, V, S>(DashMap<K, V, S>);

/// The in-memory quotas, keyed by username.
pub type QuotaCache = DashMap<String, QuotaStateAtomic>;

/// What the quota cache holds: each username's quota.
pub uninterp spec fn quota_entries_of(m: QuotaCache) -> Map<Seq<char>, QuotaView>;

/// No quota loaded.
pub open spec fn no_quotas() -> Map<Seq<char>, QuotaView> {
    Map::empty()
}

/// Relies on dashmap's `DashMap::new`: an empty map.
#[verifier::external_body]
fn cache_new() -> (r: QuotaCache)
    ensures
        quota_entries_of(r) == no_quotas(),
{
    DashMap::new()
}

/// Relies on dashmap's `DashMap::get`: the value stored under `k`, cloned.
#[verifier::external_body]
fn cache_get(m: &QuotaCache, k: &str) -> (r: Option<QuotaStateAtomic>)
    ensures
        r is None <==> !quota_entries_of(*m).contains_key(k@),
        r matches Some(v) ==> v@ == quota_entries_of(*m)[k@],
{
    m.get(k).map(|e| e.value().clone())
}

/// Relies on dashmap's `DashMap::insert`: stores `v` under `k`, replacing
/// what was there.
#[verifier::external_body]
fn cache_insert(m: &mut QuotaCache, k: String, v: QuotaStateAtomic)
    ensures
        quota_entries_of(*final(m)) == quota_entries_of(*old(m)).insert(k@, v@),
{
    m.insert(k, v);
}

/// Relies on dashmap's `DashMap::iter`: every key once, in no known order.
#[verifier::external_body]
fn cache_keys(m: &QuotaCache) -> (r: Vec<String>)
    ensures
        forall|i: int| 0 <= i < r@.len() ==> quota_entries_of(*m).contains_key(#[trigger] r@[i]@),
        forall|k: Seq<char>| #[trigger] quota_entries_of(*m).contains_key(k) ==> exists|i: int| 0 <= i < r@.len() && r@[i]@ == k,
        forall|i: int, j: int| 0 <= i < r@.len() && 0 <= j < r@.len() && i != j ==> #[trigger] r@[i]@ != #[trigger] r@[j]@,
{
    m.iter().map(|e| e.key().clone()).collect()
}

/// A new user's quota: tier and limit from the user record, nothing used,
/// next reset at `reset_at`.
pub open spec fn fresh_quota(name: Seq<char>, t: QuotaTier, tiers: QuotaTiersConfig, reset_at: i64) -> QuotaView {
    QuotaView {
        username: name,
        tier: tier_name(t),
        monthly_limit: tier_limit(t, tiers),
        used_count: 0,
        last_saved_count: 0,
        reset_at,
        last_saved_at: None,
    }
}

/// The quota a lazy load of `name` makes: what the file held, else a fresh
/// one for a known user of a known tier; `None` where the load fails.
pub open spec fn loaded_quota(
    name: Seq<char>,
    disk: Option<QuotaView>,
    user: Option<UserView>,
    tiers: QuotaTiersConfig,
    now: int,
) -> Option<QuotaView> {
    match disk {
        Some(d) => Some(d),
        None => match user {
            None => None,
            Some(u) => match tier_named(lowercase_of(u.quota_tier)) {
                None => None,
                Some(t) => match next_month_reset_of(now) {
                    None => None,
                    Some(r) => Some(fresh_quota(name, t, tiers, r)),
                },
            },
        },
    }
}

pub open spec fn opt_state_view(o: Option<QuotaState>) -> Option<QuotaView> {
    match o {
        Some(s) => Some(s@),
        None => None,
    }
}

/// The quota before the increment counts: reset first where `now` has
/// reached the reset instant.
pub open spec fn month_of(v: QuotaView, now: int) -> QuotaView {
    if now >= v.reset_at {
        after_reset(v, next_month_reset_of(now).unwrap())
    } else {
        v
    }
}

/// The quota after the increment counts, and after the write it may call for.
pub open spec fn incremented(v: QuotaView, now: int, interval: u32) -> QuotaView {
    let b = bumped(month_of(v, now));
    if flush_due(b, interval) {
        marked_saved(b, now)
    } else {
        b
    }
}

/// The snapshots an increment writes: the reset state, where a reset
/// happened, then the incremented state, where a write was due.
pub open spec fn increment_writes(v: QuotaView, now: int, interval: u32) -> Seq<QuotaView> {
    let first: Seq<QuotaView> = if now >= v.reset_at { seq![month_of(v, now)] } else { Seq::empty() };
    let b = bumped(month_of(v, now));
    if flush_due(b, interval) {
        first.push(marked_saved(b, now))
    } else {
        first
    }
}

/// The per-user quota counters.
pub struct QuotaManager {
    cache: QuotaCache,
    tiers: QuotaTiersConfig,
    save_interval: u32,
}

impl QuotaManager {
    /// Each loaded username's quota.
    pub closed spec fn entries(&self) -> Map<Seq<char>, QuotaView> {
        quota_entries_of(self.cache)
    }

    pub closed spec fn tiers(&self) -> QuotaTiersConfig {
        self.tiers
    }

    pub closed spec fn interval(&self) -> u32 {
        self.save_interval
    }

    /// An engine with nothing loaded.
    pub fn new(tiers: QuotaTiersConfig, save_interval: u32) -> (r: Self)
        ensures
            r.entries() == no_quotas(),
            r.tiers() == tiers,
            r.interval() == save_interval,
    {
        QuotaManager { cache: cache_new(), tiers, save_interval }
    }

    /// Whether `username`'s quota is in memory; where it is not, the caller
    /// reads the user's quota file before the next operation on the user.
    pub fn is_loaded(&self, username: &str) -> (r: bool)
        ensures
            r == self.entries().contains_key(username@),
    {
        cache_get(&self.cache, username).is_some()
    }

    /// Brings `username`'s quota into memory: kept if already there, else
    /// taken from `on_disk` (what the quota file held), else made fresh for
    /// a user of the store. Fails with `Unauthorized` for an unknown user and
    /// with `InternalError` for an unknown tier or an unrepresentable reset.
    pub fn load_or_init(
        &mut self,
        username: &str,
        on_disk: Option<QuotaState>,
        users: &UserManager,
        now: i64,
    ) -> (r: Result<QuotaStateAtomic, AppError>)
        requires
            users.wf(),
        ensures
            final(self).tiers() == old(self).tiers(),
            final(self).interval() == old(self).interval(),
            old(self).entries().contains_key(username@) ==> (r matches Ok(v)
                && v@ == old(self).entries()[username@] && final(self).entries() == old(self).entries()),
            !old(self).entries().contains_key(username@) ==> (match loaded_quota(
                username@,
                opt_state_view(on_disk),
                users.lookup(username@),
                old(self).tiers(),
                now as int,
            ) {
                Some(q) => r matches Ok(v) && v@ == q && final(self).entries() == old(self).entries().insert(username@, q),
                None => r is Err && final(self).entries() == old(self).entries(),
            }),
            !old(self).entries().contains_key(username@) && on_disk is None && users.lookup(username@) is None
                ==> r matches Err(AppError::Unauthorized(_)),
    {
        match cache_get(&self.cache, username) {
            Some(v) => return Ok(v),
            None => {},
        }
        let state = match on_disk {
            Some(st) => QuotaStateAtomic::from_state(st),
            None => {
                let user = match users.get_user(username) {
                    Some(u) => u,
                    None => {
                        let msg = join2("用户 ", username).concat(" 不存在");
                        return Err(AppError::Unauthorized(msg));
                    },
                };
                let tier = match QuotaTier::from_str(user.quota_tier.as_str()) {
                    Some(t) => t,
                    None => return Err(AppError::InternalError(String::from_str("无效的配额档次"))),
                };
                let reset_at = match next_month_reset(now) {
                    Some(t) => t,
                    None => return Err(AppError::InternalError(String::from_str("重置时间计算失败"))),
                };
                QuotaStateAtomic {
                    username: String::from_str(username),
                    tier: String::from_str(tier.as_str()),
                    monthly_limit: tier.limit(&self.tiers),
                    used_count: 0,
                    last_saved_count: 0,
                    reset_at,
                    last_saved_at: None,
                }
            },
        };
        let out = state.duplicate();
        cache_insert(&mut self.cache, String::from_str(username), state);
        Ok(out)
    }

    /// Whether `username` may make one more request this month; counts
    /// nothing.
    pub fn check_quota(
        &mut self,
        username: &str,
        on_disk: Option<QuotaState>,
        users: &UserManager,
        now: i64,
    ) -> (r: Result<QuotaStatus, AppError>)
        requires
            users.wf(),
        ensures
            final(self).tiers() == old(self).tiers(),
            final(self).interval() == old(self).interval(),
            old(self).entries().contains_key(username@) ==> final(self).entries() == old(self).entries()
                && r == Ok::<QuotaStatus, AppError>(status_of(old(self).entries()[username@])),
            !old(self).entries().contains_key(username@) ==> (match loaded_quota(
                username@,
                opt_state_view(on_disk),
                users.lookup(username@),
                old(self).tiers(),
                now as int,
            ) {
                Some(q) => r == Ok::<QuotaStatus, AppError>(status_of(q))
                    && final(self).entries() == old(self).entries().insert(username@, q),
                None => r is Err && final(self).entries() == old(self).entries(),
            }),
    {
        let state = match self.load_or_init(username, on_disk, users, now) {
            Ok(s) => s,
            Err(e) => return Err(e),
        };
        let used = state.get_used();
        let limit = state.monthly_limit;
        if used >= limit {
            Ok(QuotaStatus::Exceeded { used, limit, reset_at: state.reset_at })
        } else {
            Ok(QuotaStatus::Allowed { used, limit, remaining: limit - used, reset_at: state.reset_at })
        }
    }

    /// Counts one request of `username`, after a monthly reset where `now`
    /// has reached the reset instant. Returns the snapshots to write, in
    /// order: the reset state where a reset happened, then the new state
    /// where `save_interval` increments have piled up since the last write.
    pub fn increment_quota(
        &mut self,
        username: &str,
        on_disk: Option<QuotaState>,
        users: &UserManager,
        now: i64,
    ) -> (r: Result<Vec<QuotaState>, AppError>)
        requires
            users.wf(),
        ensures
            final(self).tiers() == old(self).tiers(),
            final(self).interval() == old(self).interval(),
            ({
                let loaded = if old(self).entries().contains_key(username@) {
                    Some(old(self).entries()[username@])
                } else {
                    loaded_quota(username@, opt_state_view(on_disk), users.lookup(username@), old(self).tiers(), now as int)
                };
                match loaded {
                    None => r is Err && final(self).entries() == old(self).entries(),
                    Some(v) => if now >= v.reset_at && next_month_reset_of(now as int) is None {
                        r is Err && final(self).entries() == old(self).entries().insert(username@, v)
                    } else {
                        r matches Ok(w) && final(self).entries() == old(self).entries().insert(
                            username@,
                            incremented(v, now as int, old(self).interval()),
                        ) && w@.map_values(|s: QuotaState| s@) == increment_writes(v, now as int, old(self).interval())
                    },
                }
            }),
    {
        let mut state = match self.load_or_init(username, on_disk, users, now) {
            Ok(s) => s,
            Err(e) => return Err(e),
        };
        let ghost v = state@;
        let mut writes: Vec<QuotaState> = Vec::new();
        if now >= state.reset_at {
            let next = match next_month_reset(now) {
                Some(t) => t,
                None => return Err(AppError::InternalError(String::from_str("重置时间计算失败"))),
            };
            state.reset(next);
            writes.push(state.to_state());
        }
        assert(state@ == month_of(v, now as int));
        let used = state.increment();
        let last = state.get_last_saved();
        if used < last || used - last >= self.save_interval {
            state.update_last_saved(used);
            state.last_saved_at = rfc3339_beijing(now);
            writes.push(state.to_state());
        }
        cache_insert(&mut self.cache, String::from_str(username), state);
        proof {
            assert(writes@.map_values(|s: QuotaState| s@) =~= increment_writes(v, now as int, self.save_interval));
        }
        Ok(writes)
    }

    /// A snapshot of `username`'s quota, loading it as `load_or_init` does.
    pub fn get_quota(
        &mut self,
        username: &str,
        on_disk: Option<QuotaState>,
        users: &UserManager,
        now: i64,
    ) -> (r: Result<QuotaState, AppError>)
        requires
            users.wf(),
        ensures
            final(self).tiers() == old(self).tiers(),
            final(self).interval() == old(self).interval(),
            old(self).entries().contains_key(username@) ==> (r matches Ok(s)
                && s@ == old(self).entries()[username@] && final(self).entries() == old(self).entries()),
            !old(self).entries().contains_key(username@) ==> (match loaded_quota(
                username@,
                opt_state_view(on_disk),
                users.lookup(username@),
                old(self).tiers(),
                now as int,
            ) {
                Some(q) => r matches Ok(s) && s@ == q && final(self).entries() == old(self).entries().insert(username@, q),
                None => r is Err && final(self).entries() == old(self).entries(),
            }),
    {
        match self.load_or_init(username, on_disk, users, now) {
            Ok(s) => Ok(s.to_state()),
            Err(e) => Err(e),
        }
    }

    /// Marks every loaded quota as written at `now` and returns, for each,
    /// the username and the snapshot to write; used at shutdown, whatever
    /// the number of increments since the last write.
    pub fn save_all(&mut self, now: i64) -> (r: Vec<(String, QuotaState)>)
        ensures
            final(self).tiers() == old(self).tiers(),
            final(self).interval() == old(self).interval(),
            final(self).entries().dom() == old(self).entries().dom(),
            forall|k: Seq<char>| #[trigger] old(self).entries().contains_key(k) ==> final(self).entries()[k]
                == marked_saved(old(self).entries()[k], now as int),
            forall|i: int| 0 <= i < r@.len() ==> old(self).entries().contains_key((#[trigger] r@[i]).0@)
                && r@[i].1@ == final(self).entries()[r@[i].0@],
            forall|k: Seq<char>| #[trigger] old(self).entries().contains_key(k) ==> exists|i: int|
                0 <= i < r@.len() && r@[i].0@ == k,
    {
        let keys = cache_keys(&self.cache);
        let ghost old_entries = self.entries();
        let mut out: Vec<(String, QuotaState)> = Vec::new();
        let mut i: usize = 0;
        while i < keys.len()
            invariant
                i <= keys@.len(),
                self.tiers == old(self).tiers(),
                self.save_interval == old(self).interval(),
                old_entries == old(self).entries(),
                forall|a: int| 0 <= a < keys@.len() ==> old_entries.contains_key(#[trigger] keys@[a]@),
                forall|a: int, b: int| 0 <= a < keys@.len() && 0 <= b < keys@.len() && a != b
                    ==> #[trigger] keys@[a]@ != #[trigger] keys@[b]@,
                self.entries().dom() == old_entries.dom(),
                forall|k: Seq<char>| #[trigger] old_entries.contains_key(k) ==> (if exists|a: int| 0 <= a < i && keys@[a]@ == k {
                    self.entries()[k] == marked_saved(old_entries[k], now as int)
                } else {
                    self.entries()[k] == old_entries[k]
                }),
                out@.len() == i,
                forall|a: int| 0 <= a < i ==> (#[trigger] out@[a]).0@ == keys@[a]@
                    && out@[a].1@ == marked_saved(old_entries[keys@[a]@], now as int),
            decreases keys@.len() - i,
        {
            let k = &keys[i];
            let mut st = match cache_get(&self.cache, k.as_str()) {
                Some(s) => s,
                None => {
                    proof { assert(false); }
                    return out;
                },
            };
            let used = st.get_used();
            st.update_last_saved(used);
            st.last_saved_at = rfc3339_beijing(now);
            let snap = st.to_state();
            cache_insert(&mut self.cache, k.clone(), st);
            out.push((k.clone(), snap));
            proof {
                assert forall|kk: Seq<char>| #[trigger] old_entries.contains_key(kk) implies (if exists|a: int| 0 <= a < i + 1 && keys@[a]@ == kk {
                    self.entries()[kk] == marked_saved(old_entries[kk], now as int)
                } else {
                    self.entries()[kk] == old_entries[kk]
                }) by {
                    if kk == keys@[i as int]@ {
                        assert(!exists|a: int| 0 <= a < i && keys@[a]@ == kk);
                    } else {
                        if exists|a: int| 0 <= a < i + 1 && keys@[a]@ == kk {
                            let a = choose|a: int| 0 <= a < i + 1 && keys@[a]@ == kk;
                            assert(a < i);
                        }
                    }
                }
                assert(self.entries().dom() =~= old_entries.dom());
            }
            i = i + 1;
        }
        proof {
            assert forall|k: Seq<char>| #[trigger] old(self).entries().contains_key(k) implies final_saved(self.entries(), old_entries, k, now as int) by {
                let a = choose|a: int| 0 <= a < keys@.len() && keys@[a]@ == k;
                assert(0 <= a < i && keys@[a]@ == k);
            }
            assert forall|ii: int| 0 <= ii < out@.len() implies old(self).entries().contains_key((#[trigger] out@[ii]).0@)
                && out@[ii].1@ == self.entries()[out@[ii].0@] by {
                let k = keys@[ii]@;
                assert(0 <= ii < i && keys@[ii]@ == k);
            }
            assert forall|k: Seq<char>| #[trigger] old(self).entries().contains_key(k) implies exists|a: int|
                0 <= a < out@.len() && out@[a].0@ == k by {
                let a = choose|a: int| 0 <= a < keys@.len() && keys@[a]@ == k;
                assert(out@[a].0@ == k);
            }
        }
        out
    }
}

spec fn final_saved(now_entries: Map<Seq<char>, QuotaView>, old_entries: Map<Seq<char>, QuotaView>, k: Seq<char>, now: int) -> bool {
    now_entries[k] == marked_saved(old_entries[k], now)
}

/// Every tier's name is lower-case ASCII and names that tier again, so
/// parsing the name a tier is written under gives the tier back.
pub proof fn lemma_tier_name_round_trip(t: QuotaTier)
    ensures
        is_lower_ascii(tier_name(t)),
        tier_named(tier_name(t)) == Some(t),
{
    reveal_strlit("basic");
    reveal_strlit("pro");
    reveal_strlit("premium");
    assert("pro"@.len() != "basic"@.len());
    assert("premium"@.len() != "basic"@.len() && "premium"@.len() != "pro"@.len());
}

/// Within a month the counter never goes down: an increment before the
/// reset instant leaves it one higher, or at `u32::MAX`.
pub proof fn lemma_count_monotone_within_month(v: QuotaView, now: int, interval: u32)
    requires
        now < v.reset_at,
    ensures
        incremented(v, now, interval).used_count >= v.used_count,
        v.used_count < u32::MAX ==> incremented(v, now, interval).used_count == v.used_count + 1,
        incremented(v, now, interval).reset_at == v.reset_at,
{
}

/// Whenever an increment writes its state, the last snapshot written is
/// the state the engine keeps.
pub proof fn lemma_written_state_is_kept(v: QuotaView, now: int, interval: u32)
    requires
        increment_writes(v, now, interval).len() > 0,
        flush_due(bumped(month_of(v, now)), interval),
    ensures
        increment_writes(v, now, interval).last() == incremented(v, now, interval),
        increment_writes(v, now, interval).last().used_count == increment_writes(v, now, interval).last().last_saved_count,
{
}

/// One request short of the limit, a check admits the request, the
/// increment brings the counter to the limit, and the next check refuses.
pub proof fn lemma_last_request_of_month(v: QuotaView, now: int, interval: u32)
    requires
        v.used_count + 1 == v.monthly_limit,
        now < v.reset_at,
    ensures
        status_of(v) is Allowed,
        incremented(v, now, interval).used_count == v.monthly_limit,
        incremented(v, now, interval).monthly_limit == v.monthly_limit,
        status_of(incremented(v, now, interval)) is Exceeded,
{
}

/// At the reset instant, an increment first zeroes both counters and
/// writes that state at once, with the next month's reset instant, and then
/// counts the request: the counter becomes 1.
pub proof fn lemma_reset_then_count(v: QuotaView, now: int, interval: u32)
    requires
        now >= v.reset_at,
        next_month_reset_of(now) is Some,
    ensures
        increment_writes(v, now, interval).len() >= 1,
        increment_writes(v, now, interval)[0] == after_reset(v, next_month_reset_of(now).unwrap()),
        increment_writes(v, now, interval)[0].used_count == 0,
        incremented(v, now, interval).used_count == 1,
        incremented(v, now, interval).reset_at == next_month_reset_of(now).unwrap(),
{
}

} // verus!
