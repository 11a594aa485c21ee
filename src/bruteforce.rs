//! Brute-force guard: failed logins per `(username, ip)`, kept as the list
//! of their instants and pruned to the configured window on every touch.
//! Instants are milliseconds on a monotonic clock.

use crate::config::SecurityConfig;
use dashmap::DashMap;
use vstd::prelude::*;

verus! {

/// Failure instants, keyed by `username:ip`.
pub type AttemptMap = DashMap<String, Vec<u64>>;

/// What the attempt map holds: the failure instants of each key.
pub uninterp spec fn attempts_of(m: AttemptMap) -> Map<Seq<char>, Seq<u64>>;

/// No failure recorded.
pub open spec fn no_attempts() -> Map<Seq<char>, Seq<u64>> {
    Map::empty()
}

/// Relies on dashmap's `DashMap::new`: an empty map.
#[verifier::external_body]
fn attempts_new() -> (r: AttemptMap)
    ensures
        attempts_of(r) == no_attempts(),
{
    DashMap::new()
}

/// Relies on dashmap's `DashMap::get`: the list stored under `k`, cloned.
#[verifier::external_body]
fn attempts_get(m: &AttemptMap, k: &str) -> (r: Option<Vec<u64>>)
    ensures
        r is None <==> !attempts_of(*m).contains_key(k@),
        r matches Some(v) ==> v@ == attempts_of(*m)[k@],
{
    m.get(k).map(|e| e.value().clone())
}

/// Relies on dashmap's `DashMap::insert`: stores `v` under `k`, replacing
/// what was there.
#[verifier::external_body]
fn attempts_insert(m: &mut AttemptMap, k: String, v: Vec<u64>)
    ensures
        attempts_of(*final(m)) == attempts_of(*old(m)).insert(k@, v@),
{
    m.insert(k, v);
}

/// Relies on dashmap's `DashMap::remove`: drops the entry of `k`, if any.
#[verifier::external_body]
fn attempts_remove(m: &mut AttemptMap, k: &str)
    ensures
        attempts_of(*final(m)) == attempts_of(*old(m)).remove(k@),
{
    m.remove(k);
}

/// Whether a failure at `t` still counts at `now`; an instant after `now`
/// counts as no time elapsed.
pub open spec fn within(t: u64, now: u64, window_seconds: u64) -> bool {
    t >= now || now - t <= window_seconds * 1000
}

/// The failures of `s` that still count at `now`, in their order.
pub open spec fn recent(s: Seq<u64>, now: u64, window_seconds: u64) -> Seq<u64>
    decreases s.len(),
{
    if s.len() == 0 {
        s
    } else {
        let r = recent(s.drop_last(), now, window_seconds);
        if within(s.last(), now, window_seconds) {
            r.push(s.last())
        } else {
            r
        }
    }
}

/// The key of a `(username, ip)` pair.
pub open spec fn key_of(username: Seq<char>, ip: Seq<char>) -> Seq<char> {
    username + ":"@ + ip
}

/// The failures recorded under `k`.
pub open spec fn recorded(m: Map<Seq<char>, Seq<u64>>, k: Seq<char>) -> Seq<u64> {
    if m.contains_key(k) { m[k] } else { Seq::empty() }
}

/// Failed logins per `(username, ip)`.
pub struct BruteForceGuard {
    attempts: AttemptMap,
    cfg: SecurityConfig,
}

impl BruteForceGuard {
    /// The failure instants of each key.
    pub closed spec fn entries(&self) -> Map<Seq<char>, Seq<u64>> {
        attempts_of(self.attempts)
    }

    pub closed spec fn window_seconds(&self) -> u64 {
        self.cfg.login_fail_window_seconds
    }

    pub closed spec fn threshold(&self) -> usize {
        self.cfg.login_fail_threshold
    }

    pub fn new(cfg: SecurityConfig) -> (r: Self)
        ensures
            r.entries() == no_attempts(),
            r.window_seconds() == cfg.login_fail_window_seconds,
            r.threshold() == cfg.login_fail_threshold,
    {
        BruteForceGuard { attempts: attempts_new(), cfg }
    }

    /// `username:ip`
    fn key(username: &str, ip: &str) -> (r: String)
        ensures
            r@ == key_of(username@, ip@),
    {
        String::from_str(username).concat(":").concat(ip)
    }

    fn prune(&self, s: &Vec<u64>, now: u64) -> (r: Vec<u64>)
        ensures
            r@ == recent(s@, now, self.window_seconds()),
    {
        let window = self.cfg.login_fail_window_seconds;
        let mut out: Vec<u64> = Vec::new();
        let mut i: usize = 0;
        while i < s.len()
            invariant
                i <= s@.len(),
                window == self.window_seconds(),
                out@ == recent(s@.subrange(0, i as int), now, window),
            decreases s@.len() - i,
        {
            proof {
                assert(s@.subrange(0, i + 1).drop_last() =~= s@.subrange(0, i as int));
            }
            let t = s[i];
            if t >= now || ((now - t) as u128) <= (window as u128) * 1000 {
                out.push(t);
            }
            i = i + 1;
        }
        proof {
            assert(s@.subrange(0, s@.len() as int) =~= s@);
        }
        out
    }

    /// Records a failure of `(username, ip)` at `now`, after dropping the
    /// failures outside the window; returns how many failures now count.
    pub fn record_failure(&mut self, username: &str, ip: &str, now: u64) -> (r: usize)
        ensures
            final(self).window_seconds() == old(self).window_seconds(),
            final(self).threshold() == old(self).threshold(),
            final(self).entries() == old(self).entries().insert(
                key_of(username@, ip@),
                recent(recorded(old(self).entries(), key_of(username@, ip@)), now, old(self).window_seconds()).push(now),
            ),
            r == final(self).entries()[key_of(username@, ip@)].len(),
    {
        let key = BruteForceGuard::key(username, ip);
        let past = match attempts_get(&self.attempts, key.as_str()) {
            Some(v) => v,
            None => Vec::new(),
        };
        let mut kept = self.prune(&past, now);
        kept.push(now);
        let n = kept.len();
        attempts_insert(&mut self.attempts, key, kept);
        n
    }

    /// Whether `(username, ip)` has as many failures within the window at
    /// `now` as the threshold; the failures outside the window are dropped.
    pub fn should_block(&mut self, username: &str, ip: &str, now: u64) -> (r: bool)
        ensures
            final(self).window_seconds() == old(self).window_seconds(),
            final(self).threshold() == old(self).threshold(),
            r == (recent(recorded(old(self).entries(), key_of(username@, ip@)), now, old(self).window_seconds()).len()
                >= old(self).threshold()),
            old(self).entries().contains_key(key_of(username@, ip@)) ==> final(self).entries() == old(self).entries().insert(
                key_of(username@, ip@),
                recent(old(self).entries()[key_of(username@, ip@)], now, old(self).window_seconds()),
            ),
            !old(self).entries().contains_key(key_of(username@, ip@)) ==> final(self).entries() == old(self).entries(),
    {
        let key = BruteForceGuard::key(username, ip);
        match attempts_get(&self.attempts, key.as_str()) {
            Some(v) => {
                let kept = self.prune(&v, now);
                let n = kept.len();
                attempts_insert(&mut self.attempts, key, kept);
                n >= self.cfg.login_fail_threshold
            },
            None => {
                proof {
                    assert(recent(Seq::<u64>::empty(), now, self.window_seconds()).len() == 0);
                }
                0 >= self.cfg.login_fail_threshold
            },
        }
    }

    /// Forgets the failures of `(username, ip)` after a successful login.
    pub fn reset_on_success(&mut self, username: &str, ip: &str)
        ensures
            final(self).window_seconds() == old(self).window_seconds(),
            final(self).threshold() == old(self).threshold(),
            final(self).entries() == old(self).entries().remove(key_of(username@, ip@)),
    {
        let key = BruteForceGuard::key(username, ip);
        attempts_remove(&mut self.attempts, key.as_str());
    }
}

/// Once `threshold` failures of a pair lie within the window of `now`, the
/// pair is blocked at `now`: more failures, or any failure older than the
/// window, change nothing to that. Only the window elapsing or a reset on
/// success lifts the block.
pub proof fn lemma_block_holds_within_window(s: Seq<u64>, now: u64, window_seconds: u64, threshold: nat)
    requires
        exists|w: Seq<u64>| #[trigger] is_subseq(w, s) && w.len() >= threshold
            && forall|i: int| 0 <= i < w.len() ==> within(#[trigger] w[i], now, window_seconds),
    ensures
        recent(s, now, window_seconds).len() >= threshold,
{
    let w = choose|w: Seq<u64>| #[trigger] is_subseq(w, s) && w.len() >= threshold
        && forall|i: int| 0 <= i < w.len() ==> within(#[trigger] w[i], now, window_seconds);
    lemma_recent_len_at_least(s, w, now, window_seconds);
}

/// `w` is `s` with some elements left out, the rest in order.
pub open spec fn is_subseq(w: Seq<u64>, s: Seq<u64>) -> bool
    decreases s.len(),
{
    if w.len() == 0 {
        true
    } else if s.len() == 0 {
        false
    } else if w.last() == s.last() {
        is_subseq(w.drop_last(), s.drop_last())
    } else {
        is_subseq(w, s.drop_last())
    }
}

proof fn lemma_recent_len_at_least(s: Seq<u64>, w: Seq<u64>, now: u64, window_seconds: u64)
    requires
        is_subseq(w, s),
        forall|i: int| 0 <= i < w.len() ==> within(#[trigger] w[i], now, window_seconds),
    ensures
        recent(s, now, window_seconds).len() >= w.len(),
    decreases s.len(),
{
    if w.len() == 0 {
    } else if s.len() == 0 {
    } else if w.last() == s.last() {
        assert forall|i: int| 0 <= i < w.drop_last().len() implies within(#[trigger] w.drop_last()[i], now, window_seconds) by {
            assert(w.drop_last()[i] == w[i]);
        }
        lemma_recent_len_at_least(s.drop_last(), w.drop_last(), now, window_seconds);
        assert(within(w[w.len() - 1], now, window_seconds));
    } else {
        lemma_recent_len_at_least(s.drop_last(), w, now, window_seconds);
    }
}

/// Dropping the failures outside the window twice at the same instant
/// drops nothing more the second time.
pub proof fn lemma_recent_idempotent(s: Seq<u64>, now: u64, window_seconds: u64)
    ensures
        recent(recent(s, now, window_seconds), now, window_seconds) == recent(s, now, window_seconds),
    decreases s.len(),
{
    if s.len() > 0 {
        lemma_recent_idempotent(s.drop_last(), now, window_seconds);
        let r = recent(s.drop_last(), now, window_seconds);
        if within(s.last(), now, window_seconds) {
            assert(r.push(s.last()).drop_last() =~= r);
        }
    }
}

/// After a success forgets a pair's failures, the pair is not blocked
/// (with a threshold above zero) and its next failure counts as the first.
pub proof fn lemma_reset_unblocks(m: Map<Seq<char>, Seq<u64>>, k: Seq<char>, now: u64, window_seconds: u64, threshold: nat)
    requires
        threshold > 0,
    ensures
        recent(recorded(m.remove(k), k), now, window_seconds).len() < threshold,
        recent(recorded(m.remove(k), k), now, window_seconds).push(now).len() == 1,
{
    assert(recorded(m.remove(k), k) == Seq::<u64>::empty());
}

/// Once every recorded failure of a pair lies outside the window, the pair
/// is no longer blocked (with a threshold above zero): the block lifts by
/// itself when the window elapses.
pub proof fn lemma_block_lapses(s: Seq<u64>, now: u64, window_seconds: u64, threshold: nat)
    requires
        threshold > 0,
        forall|i: int| 0 <= i < s.len() ==> !within(#[trigger] s[i], now, window_seconds),
    ensures
        recent(s, now, window_seconds).len() == 0,
        recent(s, now, window_seconds).len() < threshold,
    decreases s.len(),
{
    if s.len() > 0 {
        assert forall|i: int| 0 <= i < s.drop_last().len() implies !within(#[trigger] s.drop_last()[i], now, window_seconds) by {
            assert(s.drop_last()[i] == s[i]);
        }
        lemma_block_lapses(s.drop_last(), now, window_seconds, threshold);
        assert(!within(s[s.len() - 1], now, window_seconds));
    }
}

} // verus!
