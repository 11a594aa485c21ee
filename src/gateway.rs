//! The admission pipeline. Every request passes the layered limiters in a
//! fixed order and stops at the first refusal:
//!
//! - login: global bucket, brute-force guard, credentials, active flag,
//!   then the user's token (reused or minted);
//! - chat: global bucket, quota check, the user's permit; after the
//!   upstream service accepts the call, the quota increment; when the
//!   response stream ends, the permit goes back.
//!
//! Instants come in twice: `now_ms` on the monotonic clock of the limiters
//! and `now_unix` in Unix seconds for tokens and quotas.

use crate::bruteforce::{key_of, lemma_recent_idempotent, recent, recorded, BruteForceGuard};
use crate::config::Config;
use crate::error::{AppError, AuthError};
use crate::jwt::{hs256_token_of, JwtService};
use crate::limiter::{fresh_slot, live_at, released, taken, LoginLimiter, TokenPermit};
use crate::quota::{
    increment_writes, incremented, loaded_quota, opt_state_view, status_of, QuotaManager, QuotaState,
    QuotaStatus, QuotaView,
};
use crate::rate_limiter::{admits, step, GlobalRateLimiter, MAX_REQUESTS_PER_SECOND};
use crate::user_manager::UserManager;
use crate::utils::{next_month_reset_of, rfc3339_beijing};
use vstd::prelude::*;

verus! {

/// The body of a login.
#[derive(Debug)]
pub struct LoginRequest {
    pub username: String,
    pub password: String,
}

/// The answer to a successful login.
#[derive(Debug)]
pub struct LoginResponse {
    pub token: String,
    /// Seconds the token stays valid.
    pub expires_in: u64,
}

/// The state every request goes through.
pub struct Gateway {
    pub global: GlobalRateLimiter,
    pub brute_force: BruteForceGuard,
    pub users: UserManager,
    pub tokens: LoginLimiter,
    pub quotas: QuotaManager,
    pub jwt: JwtService,
}

/// Whether `username` and `password` match an account of `users`.
pub open spec fn credentials_match(users: UserManager, username: Seq<char>, password: Seq<char>) -> bool {
    users.lookup(username) matches Some(v) && v.password == password
}

/// Whether the pair has as many failures within the window at `now` as the
/// threshold.
pub open spec fn blocked(g: BruteForceGuard, username: Seq<char>, ip: Seq<char>, now: u64) -> bool {
    recent(recorded(g.entries(), key_of(username, ip)), now, g.window_seconds()).len() >= g.threshold()
}

/// Every token slot is as it was.
pub open spec fn tokens_kept(before: LoginLimiter, after: LoginLimiter) -> bool {
    forall|n: Seq<char>| #[trigger] after.slot(n) == before.slot(n)
}

/// The failure instants after those of key `k` outside the window at
/// `now` are dropped.
pub open spec fn pruned_for(m: Map<Seq<char>, Seq<u64>>, k: Seq<char>, now: u64, window_seconds: u64) -> Map<
    Seq<char>,
    Seq<u64>,
> {
    if m.contains_key(k) { m.insert(k, recent(m[k], now, window_seconds)) } else { m }
}

/// The quota of `username` once loaded for a request at `now`.
pub open spec fn quota_for(
    q: QuotaManager,
    users: UserManager,
    username: Seq<char>,
    on_disk: Option<QuotaState>,
    now: int,
) -> Option<QuotaView> {
    if q.entries().contains_key(username) {
        Some(q.entries()[username])
    } else {
        loaded_quota(username, opt_state_view(on_disk), users.lookup(username), q.tiers(), now)
    }
}

/// Every quota that was loaded keeps its value.
pub open spec fn quotas_kept(before: Map<Seq<char>, QuotaView>, after: Map<Seq<char>, QuotaView>) -> bool {
    forall|k: Seq<char>| #[trigger] before.contains_key(k) ==> after.contains_key(k) && after[k] == before[k]
}

impl Gateway {
    pub open spec fn wf(&self) -> bool {
        &&& self.global.wf()
        &&& self.users.wf()
        &&& self.tokens.wf()
        &&& self.jwt.wf()
    }

    /// The pipeline for `config`, with the bucket full at `now_ms`. Fails
    /// with a configuration error where the rate is zero or too large.
    pub fn new(config: &Config, users: UserManager, jwt: JwtService, now_ms: u64) -> (r: Result<Gateway, AppError>)
        requires
            users.wf(),
            jwt.wf(),
        ensures
            r matches Ok(g) ==> g.wf() && g.users@ == users@ && g.quotas.entries().len() == 0
                && g.quotas.tiers() == config.quota.tiers && g.quotas.interval() == config.quota.save_interval
                && g.global.view().rps == config.rate_limit.requests_per_second,
            r is Err <==> !(1 <= config.rate_limit.requests_per_second <= MAX_REQUESTS_PER_SECOND
                && 2 * config.rate_limit.requests_per_second <= usize::MAX),
    {
        let rps = config.rate_limit.requests_per_second;
        if rps < 1 || rps as u64 > MAX_REQUESTS_PER_SECOND || rps > usize::MAX / 2 {
            return Err(AppError::configuration_error(String::from_str("rate_limit.requests_per_second 超出范围")));
        }
        let global = GlobalRateLimiter::new(rps, now_ms);
        let brute_force = BruteForceGuard::new(config.security.clone());
        let tokens = LoginLimiter::new(config.auth.token_ttl_seconds);
        let quotas = QuotaManager::new(config.quota.tiers, config.quota.save_interval);
        let g = Gateway { global, brute_force, users, tokens, quotas, jwt };
        proof { assert(g.quotas.entries() =~= Map::<Seq<char>, QuotaView>::empty()); }
        Ok(g)
    }

    /// Logs a user in from `ip`. Refused with `TooManyRequests` by the
    /// global bucket or while the pair is blocked; a wrong password is
    /// recorded as a failure and refused with `Unauthorized` (the block
    /// starts with the next attempt once the threshold is reached); a
    /// deactivated account is refused with `AccountDisabled`. Otherwise the
    /// user's live token is answered again, or a new one is issued, and the
    /// pair's failures are forgotten. Only a successful login touches the
    /// tokens.
    pub fn login(&mut self, req: &LoginRequest, ip: &str, now_ms: u64, now_unix: i64) -> (r: Result<LoginResponse, AppError>)
        requires
            old(self).wf(),
        ensures
            final(self).wf(),
            final(self).users@ == old(self).users@,
            final(self).quotas.entries() == old(self).quotas.entries(),
            final(self).global.view() == step(old(self).global.view(), now_ms as nat),
            final(self).brute_force.threshold() == old(self).brute_force.threshold(),
            final(self).brute_force.window_seconds() == old(self).brute_force.window_seconds(),
            final(self).tokens.ttl() == old(self).tokens.ttl(),
            final(self).jwt.ttl() == old(self).jwt.ttl(),
            final(self).jwt.secret() == old(self).jwt.secret(),
            !admits(old(self).global.view(), now_ms as nat) ==> (r matches Err(AppError::TooManyRequests)
                && final(self).brute_force.entries() == old(self).brute_force.entries()
                && tokens_kept(old(self).tokens, final(self).tokens)),
            admits(old(self).global.view(), now_ms as nat) ==> ({
                let u = req.username@;
                let k = key_of(u, ip@);
                let g = old(self).brute_force;
                let pruned = pruned_for(g.entries(), k, now_ms, g.window_seconds());
                if blocked(g, u, ip@, now_ms) {
                    r matches Err(AppError::TooManyRequests) && final(self).brute_force.entries() == pruned
                        && tokens_kept(old(self).tokens, final(self).tokens)
                } else if !credentials_match(old(self).users, u, req.password@) {
                    r matches Err(AppError::Unauthorized(_)) && final(self).brute_force.entries() == g.entries().insert(
                        k,
                        recent(recorded(g.entries(), k), now_ms, g.window_seconds()).push(now_ms),
                    ) && tokens_kept(old(self).tokens, final(self).tokens)
                } else if !old(self).users.lookup(u).unwrap().is_active {
                    r matches Err(AppError::Auth(AuthError::AccountDisabled)) && final(self).brute_force.entries() == pruned
                        && tokens_kept(old(self).tokens, final(self).tokens)
                } else {
                    &&& live_at(old(self).tokens.slot(u), now_ms) is Some ==> r is Ok
                    &&& (0 <= now_unix + old(self).jwt.ttl() <= i64::MAX && now_unix + old(self).jwt.ttl() <= usize::MAX)
                        ==> r is Ok
                    &&& r is Err ==> final(self).brute_force.entries() == pruned && final(self).tokens.slot(u) is None
                        && forall|n: Seq<char>| n != u ==> #[trigger] final(self).tokens.slot(n) == live_at(
                            old(self).tokens.slot(n),
                            now_ms,
                        )
                    &&& r matches Ok(resp) ==> {
                        &&& resp.expires_in == old(self).jwt.ttl()
                        &&& final(self).brute_force.entries() == pruned.remove(k)
                        &&& forall|n: Seq<char>| n != u ==> #[trigger] final(self).tokens.slot(n) == live_at(
                            old(self).tokens.slot(n),
                            now_ms,
                        )
                        &&& match live_at(old(self).tokens.slot(u), now_ms) {
                            Some(e) => resp.token@ == e.token && final(self).tokens.slot(u) == Some(e),
                            None => resp.token@ == hs256_token_of(u, now_unix + old(self).jwt.ttl(), old(self).jwt.secret())
                                && final(self).tokens.slot(u) == Some(
                                fresh_slot(u, resp.token@, now_ms, old(self).tokens.ttl(), false, old(self).tokens.next_gen()),
                            ),
                        }
                    }
                }
            }),
    {
        if self.global.acquire(now_ms).is_err() {
            return Err(AppError::TooManyRequests);
        }
        let username = req.username.as_str();
        let ghost pre_check = self.brute_force;
        let ghost k = key_of(req.username@, ip@);
        if self.brute_force.should_block(username, ip, now_ms) {
            return Err(AppError::TooManyRequests);
        }
        proof {
            assert(self.brute_force.entries() =~= pruned_for(pre_check.entries(), k, now_ms, pre_check.window_seconds()));
        }
        let user = match self.users.find_user(username, req.password.as_str()) {
            Some(u) => u,
            None => {
                self.brute_force.record_failure(username, ip, now_ms);
                proof {
                    lemma_recent_idempotent(recorded(pre_check.entries(), k), now_ms, pre_check.window_seconds());
                    assert(self.brute_force.entries() =~= pre_check.entries().insert(
                        k,
                        recent(recorded(pre_check.entries(), k), now_ms, pre_check.window_seconds()).push(now_ms),
                    ));
                }
                return Err(AppError::Unauthorized(String::from_str("用户名或密码错误")));
            },
        };
        if !user.is_active {
            return Err(AppError::account_disabled());
        }
        let jwt = &self.jwt;
        let mint = || -> (t: Result<String, AppError>)
            requires
                jwt.wf(),
            ensures
                t matches Ok(s) ==> s@ == hs256_token_of(username@, now_unix + jwt.ttl(), jwt.secret()),
                (0 <= now_unix + jwt.ttl() <= i64::MAX && now_unix + jwt.ttl() <= usize::MAX) ==> t is Ok,
        {
            jwt.generate_token(username, now_unix)
        };
        let token = match self.tokens.get_or_generate(username, now_ms, mint) {
            Ok(t) => t,
            Err(e) => return Err(e),
        };
        self.brute_force.reset_on_success(username, ip);
        Ok(LoginResponse { token, expires_in: self.jwt.get_ttl_seconds() })
    }

    /// Admits a chat request of `username`: the global bucket, then the
    /// quota check (`PaymentRequired` once the month's requests are used
    /// up), then the user's permit (`TokenExpired` without a live token,
    /// `TooManyRequests` while another request of the user runs). Counts
    /// nothing: a refused request leaves every loaded quota as it was.
    pub fn admit_chat(&mut self, username: &str, on_disk: Option<QuotaState>, now_ms: u64, now_unix: i64) -> (r: Result<TokenPermit, AppError>)
        requires
            old(self).wf(),
        ensures
            final(self).wf(),
            final(self).users@ == old(self).users@,
            final(self).brute_force.entries() == old(self).brute_force.entries(),
            final(self).quotas.tiers() == old(self).quotas.tiers(),
            final(self).quotas.interval() == old(self).quotas.interval(),
            quotas_kept(old(self).quotas.entries(), final(self).quotas.entries()),
            final(self).global.view() == step(old(self).global.view(), now_ms as nat),
            final(self).brute_force.threshold() == old(self).brute_force.threshold(),
            final(self).brute_force.window_seconds() == old(self).brute_force.window_seconds(),
            final(self).tokens.ttl() == old(self).tokens.ttl(),
            final(self).tokens.next_gen() == old(self).tokens.next_gen(),
            final(self).jwt.ttl() == old(self).jwt.ttl(),
            final(self).jwt.secret() == old(self).jwt.secret(),
            r matches Ok(p) ==> p.user() == username@,
            !admits(old(self).global.view(), now_ms as nat) ==> (r matches Err(AppError::TooManyRequests)
                && final(self).quotas.entries() == old(self).quotas.entries()
                && tokens_kept(old(self).tokens, final(self).tokens)),
            admits(old(self).global.view(), now_ms as nat) ==> match quota_for(
                old(self).quotas,
                old(self).users,
                username@,
                on_disk,
                now_unix as int,
            ) {
                None => r is Err && tokens_kept(old(self).tokens, final(self).tokens),
                Some(v) => {
                    &&& final(self).quotas.entries().contains_key(username@)
                    &&& final(self).quotas.entries()[username@] == v
                    &&& match status_of(v) {
                        QuotaStatus::Exceeded { used, limit, .. } => r matches Err(AppError::PaymentRequired { used: u, limit: l, .. })
                            && u == used && l == limit && tokens_kept(old(self).tokens, final(self).tokens),
                        QuotaStatus::Allowed { .. } => match live_at(old(self).tokens.slot(username@), now_ms) {
                            None => r matches Err(AppError::Auth(AuthError::TokenExpired)) && final(self).tokens.slot(username@) is None
                                && forall|n: Seq<char>| n != username@ ==> #[trigger] final(self).tokens.slot(n) == live_at(
                                    old(self).tokens.slot(n),
                                    now_ms,
                                ),
                            Some(e) => if e.held {
                                r matches Err(AppError::TooManyRequests) && final(self).tokens.slot(username@) == Some(e)
                                    && forall|n: Seq<char>| n != username@ ==> #[trigger] final(self).tokens.slot(n) == live_at(
                                        old(self).tokens.slot(n),
                                        now_ms,
                                    )
                            } else {
                                r matches Ok(p) && p.user() == username@ && p.generation() == e.generation
                                    && final(self).tokens.slot(username@) == Some(taken(e))
                                    && forall|n: Seq<char>| n != username@ ==> #[trigger] final(self).tokens.slot(n) == live_at(
                                        old(self).tokens.slot(n),
                                        now_ms,
                                    )
                            },
                        },
                    }
                },
            },
    {
        if self.global.acquire(now_ms).is_err() {
            return Err(AppError::TooManyRequests);
        }
        let status = match self.quotas.check_quota(username, on_disk, &self.users, now_unix) {
            Ok(s) => s,
            Err(e) => return Err(e),
        };
        match status {
            QuotaStatus::Exceeded { used, limit, reset_at } => {
                let reset_text = match rfc3339_beijing(reset_at) {
                    Some(s) => s,
                    None => String::new(),
                };
                return Err(AppError::PaymentRequired { used, limit, reset_at: reset_text });
            },
            QuotaStatus::Allowed { .. } => {},
        }
        self.tokens.acquire_permit_by_username(username, now_ms)
    }

    /// Counts the request of `username` once the upstream service accepted
    /// it; returns the quota snapshots to write.
    pub fn complete_chat(&mut self, username: &str, now_unix: i64) -> (r: Result<Vec<QuotaState>, AppError>)
        requires
            old(self).wf(),
            old(self).quotas.entries().contains_key(username@),
        ensures
            final(self).wf(),
            final(self).users@ == old(self).users@,
            final(self).quotas.tiers() == old(self).quotas.tiers(),
            final(self).quotas.interval() == old(self).quotas.interval(),
            ({
                let v = old(self).quotas.entries()[username@];
                r matches Ok(w) ==> final(self).quotas.entries() == old(self).quotas.entries().insert(
                    username@,
                    incremented(v, now_unix as int, old(self).quotas.interval()),
                ) && w@.map_values(|s: QuotaState| s@) == increment_writes(v, now_unix as int, old(self).quotas.interval())
            }),
            now_unix < old(self).quotas.entries()[username@].reset_at ==> r is Ok,
            !(now_unix >= old(self).quotas.entries()[username@].reset_at && next_month_reset_of(now_unix as int) is None)
                ==> r is Ok,
            r is Err ==> final(self).quotas.entries().contains_key(username@),
            final(self).global.view() == old(self).global.view(),
            final(self).brute_force.entries() == old(self).brute_force.entries(),
            final(self).brute_force.threshold() == old(self).brute_force.threshold(),
            final(self).brute_force.window_seconds() == old(self).brute_force.window_seconds(),
            tokens_kept(old(self).tokens, final(self).tokens),
            final(self).tokens.ttl() == old(self).tokens.ttl(),
            final(self).tokens.next_gen() == old(self).tokens.next_gen(),
    {
        self.quotas.increment_quota(username, None, &self.users, now_unix)
    }

    /// Gives the permit of a finished or failed chat request back.
    pub fn finish_chat(&mut self, permit: TokenPermit)
        requires
            old(self).wf(),
        ensures
            final(self).wf(),
            final(self).users@ == old(self).users@,
            final(self).quotas.entries() == old(self).quotas.entries(),
            final(self).quotas.tiers() == old(self).quotas.tiers(),
            final(self).quotas.interval() == old(self).quotas.interval(),
            final(self).global.view() == old(self).global.view(),
            final(self).brute_force.entries() == old(self).brute_force.entries(),
            final(self).brute_force.threshold() == old(self).brute_force.threshold(),
            final(self).brute_force.window_seconds() == old(self).brute_force.window_seconds(),
            final(self).tokens.ttl() == old(self).tokens.ttl(),
            final(self).tokens.next_gen() == old(self).tokens.next_gen(),
            final(self).tokens.slot(permit.user()) == released(old(self).tokens.slot(permit.user()), permit.generation()),
            forall|n: Seq<char>| n != permit.user() ==> #[trigger] final(self).tokens.slot(n) == old(self).tokens.slot(n),
    {
        self.tokens.release_permit(permit);
    }
}

/// A request that passed admission and reached the upstream service raises
/// its user's counter by exactly one, within the month and below the top of
/// the counter.
pub proof fn lemma_upstream_request_counts_once(v: QuotaView, now: int, interval: u32)
    requires
        now < v.reset_at,
        v.used_count < u32::MAX,
    ensures
        incremented(v, now, interval).used_count == v.used_count + 1,
{
}

} // verus!
