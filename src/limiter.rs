//! The token/permit manager: at most one live bearer token per user, reused
//! until it expires, and for each token a single permit that serializes the
//! user's proxied requests. Expired entries are dropped on every touch.
//! Instants are milliseconds on a monotonic clock.

use crate::error::{AppError, AuthError};
use vstd::prelude::*;

verus! {

/// The longest reuse window of a token, in seconds.
pub const MAX_TOKEN_TTL_SECONDS: u64 = 60;

/// The right of one caller to make one upstream call for a user. Handing it
/// back to `release_permit` frees the user's slot.
#[derive(Debug)]
pub struct TokenPermit {
    username: String,
    generation: u64,
}

impl TokenPermit {
    pub closed spec fn user(&self) -> Seq<char> {
        self.username@
    }

    pub closed spec fn generation(&self) -> u64 {
        self.generation
    }
}

/// A live token of a user and the state of its permit.
pub struct Slot {
    pub username: Seq<char>,
    pub token: Seq<char>,
    pub expires_at: u64,
    /// Whether a caller holds the permit.
    pub held: bool,
    /// Tells permits of successive tokens of a user apart.
    pub generation: u64,
}

struct TokenEntry {
    username: String,
    token: String,
    expires_at: u64,
    held: bool,
    generation: u64,
}

impl View for TokenEntry {
    type V = Slot;

    closed spec fn view(&self) -> Slot {
        Slot {
            username: self.username@,
            token: self.token@,
            expires_at: self.expires_at,
            held: self.held,
            generation: self.generation,
        }
    }
}

/// The slot named `name` among `s`.
pub open spec fn slot_in(s: Seq<Slot>, name: Seq<char>) -> Option<Slot> {
    if exists|i: int| 0 <= i < s.len() && #[trigger] s[i].username == name {
        Some(s[choose|i: int| 0 <= i < s.len() && #[trigger] s[i].username == name])
    } else {
        None
    }
}

pub open spec fn slots_unique(s: Seq<Slot>) -> bool {
    forall|i: int, j: int|
        0 <= i < s.len() && 0 <= j < s.len() && i != j ==> #[trigger] s[i].username != #[trigger] s[j].username
}

/// `slot` if it is still live at `now`.
pub open spec fn live_at(slot: Option<Slot>, now: u64) -> Option<Slot> {
    match slot {
        Some(e) => if now < e.expires_at { Some(e) } else { None },
        None => None,
    }
}

/// Unified token lifetime and per-user concurrency control.
///
/// The slots are kept in a `Vec` with at most one slot per user (`wf`):
/// every touch drops all expired slots, which needs a walk over the whole
/// map, and vstd's specified map with string keys (`StringHashMap`) offers
/// no iteration.
pub struct LoginLimiter {
    entries: Vec<TokenEntry>,
    ttl_ms: u64,
    next_generation: u64,
}

impl LoginLimiter {
    closed spec fn seq(&self) -> Seq<Slot> {
        self.entries@.map_values(|e: TokenEntry| e@)
    }

    /// The slot of `name`, live or not.
    pub closed spec fn slot(&self, name: Seq<char>) -> Option<Slot> {
        slot_in(self.seq(), name)
    }

    /// The reuse window, in milliseconds.
    pub closed spec fn ttl(&self) -> u64 {
        self.ttl_ms
    }

    pub closed spec fn wf(&self) -> bool {
        slots_unique(self.seq())
    }

    /// The generation the next token will get.
    pub closed spec fn next_gen(&self) -> u64 {
        self.next_generation
    }

    /// A manager with no token, reusing tokens for `min(ttl_seconds, 60)`
    /// seconds.
    pub fn new(ttl_seconds: u64) -> (r: Self)
        ensures
            r.wf(),
            r.ttl() == (if ttl_seconds < MAX_TOKEN_TTL_SECONDS { ttl_seconds } else { MAX_TOKEN_TTL_SECONDS }) * 1000,
            forall|n: Seq<char>| #[trigger] r.slot(n) is None,
    {
        let secs = if ttl_seconds < MAX_TOKEN_TTL_SECONDS { ttl_seconds } else { MAX_TOKEN_TTL_SECONDS };
        let r = LoginLimiter { entries: Vec::new(), ttl_ms: secs * 1000, next_generation: 0 };
        assert(r.seq() =~= Seq::<Slot>::empty());
        r
    }

    /// Drops every entry that has expired at `now`.
    fn prune(&mut self, now: u64)
        requires
            old(self).wf(),
        ensures
            final(self).wf(),
            final(self).ttl() == old(self).ttl(),
            final(self).next_gen() == old(self).next_gen(),
            forall|n: Seq<char>| #[trigger] final(self).slot(n) == live_at(old(self).slot(n), now),
    {
        let ghost s = self.seq();
        let mut kept: Vec<TokenEntry> = Vec::new();
        let ghost mut kv: Seq<Slot> = Seq::empty();
        let mut i: usize = 0;
        while i < self.entries.len()
            invariant
                self.seq() == s,
                old(self).wf(),
                s == old(self).seq(),
                i <= s.len(),
                s.len() == self.entries@.len(),
                kept@.map_values(|e: TokenEntry| e@) == kv,
                filter_inv(s, kv, i as int, now),
            decreases s.len() - i,
        {
            let e = &self.entries[i];
            proof { assert(s[i as int] == e@); }
            if now < e.expires_at {
                let d = TokenEntry {
                    username: e.username.clone(),
                    token: e.token.clone(),
                    expires_at: e.expires_at,
                    held: e.held,
                    generation: e.generation,
                };
                kept.push(d);
                proof {
                    lemma_filter_keep(s, kv, i as int, now);
                    kv = kv.push(s[i as int]);
                    assert(kept@.map_values(|e: TokenEntry| e@) =~= kv);
                }
            } else {
                proof { lemma_filter_skip(s, kv, i as int, now); }
            }
            i = i + 1;
        }
        self.entries = kept;
        proof {
            lemma_filtered_slots(s, kv, now);
        }
    }

    fn index_of(&self, username: &str) -> (r: Option<usize>)
        requires
            self.wf(),
        ensures
            r matches Some(i) ==> i < self.entries@.len() && self.slot(username@) == Some(self.entries@[i as int]@),
            r is None ==> self.slot(username@) is None,
    {
        let name = String::from_str(username);
        let mut i: usize = 0;
        while i < self.entries.len()
            invariant
                self.wf(),
                i <= self.entries@.len(),
                self.seq().len() == self.entries@.len(),
                name@ == username@,
                forall|j: int| 0 <= j < i ==> (#[trigger] self.seq()[j]).username != username@,
            decreases self.entries@.len() - i,
        {
            proof { assert(self.seq()[i as int] == self.entries@[i as int]@); }
            if self.entries[i].username == name {
                proof {
                    assert(self.seq()[i as int].username == username@);
                    let k = choose|k: int| 0 <= k < self.seq().len() && #[trigger] self.seq()[k].username == username@;
                    assert(k == i);
                }
                return Some(i);
            }
            i = i + 1;
        }
        None
    }

    /// Stores `e`, replacing the slot of the same user if there is one.
    fn put(&mut self, e: TokenEntry)
        requires
            old(self).wf(),
        ensures
            final(self).wf(),
            final(self).ttl() == old(self).ttl(),
            final(self).next_gen() == old(self).next_gen(),
            final(self).slot(e@.username) == Some(e@),
            forall|n: Seq<char>| n != e@.username ==> #[trigger] final(self).slot(n) == old(self).slot(n),
    {
        let ghost u = e@;
        let ghost s0 = self.seq();
        match self.index_of(e.username.as_str()) {
            Some(i) => {
                proof {
                    let k = choose|k: int| 0 <= k < s0.len() && #[trigger] s0[k].username == u.username;
                    assert(s0[i as int] == self.entries@[i as int]@);
                    assert(k == i);
                }
                self.entries.set(i, e);
                proof {
                    assert(self.seq() =~= s0.update(i as int, u));
                    lemma_slot_update(s0, i as int, u);
                }
            },
            None => {
                self.entries.push(e);
                proof {
                    assert(self.seq() =~= s0.push(u));
                    lemma_slot_push(s0, u);
                }
            },
        }
    }

    /// Changing the next generation leaves every slot as it is.
    proof fn lemma_same_slots_after_gen(&self, before: Self, u: Seq<char>)
        requires
            self.entries == before.entries,
        ensures
            forall|n: Seq<char>| #[trigger] self.slot(n) == before.slot(n),
            self.wf() == before.wf(),
    {
    }

    /// The live token of `username` at `now` if there is one; else a token
    /// from `generate_fn`, which from then on is the user's token for the
    /// reuse window. Expired entries of every user are dropped first.
    pub fn get_or_generate<F, E>(&mut self, username: &str, now: u64, generate_fn: F) -> (r: Result<String, E>)
        where
            F: FnOnce() -> Result<String, E>,
        requires
            old(self).wf(),
            generate_fn.requires(()),
        ensures
            final(self).wf(),
            final(self).ttl() == old(self).ttl(),
            forall|n: Seq<char>| n != username@ ==> #[trigger] final(self).slot(n) == live_at(old(self).slot(n), now),
            live_at(old(self).slot(username@), now) matches Some(e) ==> (r matches Ok(t) && t@ == e.token
                && final(self).slot(username@) == Some(e)),
            live_at(old(self).slot(username@), now) is None ==> generate_fn.ensures((), r)
                && (r matches Ok(t) ==> final(self).slot(username@) == Some(fresh_slot(username@, t@, now, old(self).ttl(), false, old(self).next_gen())))
                && (r is Err ==> final(self).slot(username@) is None),
    {
        self.prune(now);
        match self.index_of(username) {
            Some(i) => return Ok(self.entries[i].token.clone()),
            None => {},
        }
        let token = match generate_fn() {
            Ok(t) => t,
            Err(e) => return Err(e),
        };
        let generation = self.next_generation;
        self.put(TokenEntry {
            username: String::from_str(username),
            token: token.clone(),
            expires_at: deadline(now, self.ttl_ms),
            held: false,
            generation,
        });
        let ghost after_put = *self;
        self.next_generation = next_generation_after(generation);
        proof { self.lemma_same_slots_after_gen(after_put, username@); }
        Ok(token)
    }

    /// Like `get_or_generate`, and takes the permit of the token too: a
    /// fresh token comes with its permit taken; a live one fails with
    /// `TooManyRequests` while another caller holds its permit.
    pub fn get_token_and_permit<F>(&mut self, username: &str, now: u64, generate_fn: F) -> (r: Result<(String, TokenPermit), AppError>)
        where
            F: FnOnce() -> Result<String, AppError>,
        requires
            old(self).wf(),
            generate_fn.requires(()),
        ensures
            final(self).wf(),
            final(self).ttl() == old(self).ttl(),
            forall|n: Seq<char>| n != username@ ==> #[trigger] final(self).slot(n) == live_at(old(self).slot(n), now),
            live_at(old(self).slot(username@), now) matches Some(e) ==> (if e.held {
                r matches Err(AppError::TooManyRequests) && final(self).slot(username@) == Some(e)
            } else {
                r matches Ok((t, p)) && t@ == e.token && p.user() == username@ && p.generation() == e.generation
                    && final(self).slot(username@) == Some(taken(e))
            }),
            live_at(old(self).slot(username@), now) is None ==> (r matches Ok((t, p)) ==> generate_fn.ensures((), Ok::<String, AppError>(t))
                && p.user() == username@ && p.generation() == old(self).next_gen()
                && final(self).slot(username@) == Some(fresh_slot(username@, t@, now, old(self).ttl(), true, old(self).next_gen())))
                && (r matches Err(e) ==> generate_fn.ensures((), Err::<String, AppError>(e)) && final(self).slot(username@) is None),
    {
        self.prune(now);
        match self.index_of(username) {
            Some(i) => {
                if self.entries[i].held {
                    return Err(AppError::TooManyRequests);
                }
                let e = &self.entries[i];
                let d = TokenEntry {
                    username: e.username.clone(),
                    token: e.token.clone(),
                    expires_at: e.expires_at,
                    held: true,
                    generation: e.generation,
                };
                let token = e.token.clone();
                let permit = TokenPermit { username: e.username.clone(), generation: e.generation };
                self.put(d);
                return Ok((token, permit));
            },
            None => {},
        }
        let token = match generate_fn() {
            Ok(t) => t,
            Err(e) => return Err(e),
        };
        let generation = self.next_generation;
        self.put(TokenEntry {
            username: String::from_str(username),
            token: token.clone(),
            expires_at: deadline(now, self.ttl_ms),
            held: true,
            generation,
        });
        let ghost after_put = *self;
        self.next_generation = next_generation_after(generation);
        proof { self.lemma_same_slots_after_gen(after_put, username@); }
        Ok((token, TokenPermit { username: String::from_str(username), generation }))
    }

    /// Takes the permit of `username`'s live token. Fails with
    /// `TokenExpired` where the user has no live token (they must log in
    /// again) and with `TooManyRequests` while another caller holds it.
    pub fn acquire_permit_by_username(&mut self, username: &str, now: u64) -> (r: Result<TokenPermit, AppError>)
        requires
            old(self).wf(),
        ensures
            final(self).wf(),
            final(self).ttl() == old(self).ttl(),
            final(self).next_gen() == old(self).next_gen(),
            forall|n: Seq<char>| n != username@ ==> #[trigger] final(self).slot(n) == live_at(old(self).slot(n), now),
            live_at(old(self).slot(username@), now) is None ==> (r matches Err(AppError::Auth(AuthError::TokenExpired))
                && final(self).slot(username@) is None),
            live_at(old(self).slot(username@), now) matches Some(e) ==> (if e.held {
                r matches Err(AppError::TooManyRequests) && final(self).slot(username@) == Some(e)
            } else {
                r matches Ok(p) && p.user() == username@ && p.generation() == e.generation
                    && final(self).slot(username@) == Some(taken(e))
            }),
    {
        self.prune(now);
        match self.index_of(username) {
            Some(i) => {
                if self.entries[i].held {
                    return Err(AppError::TooManyRequests);
                }
                let e = &self.entries[i];
                let d = TokenEntry {
                    username: e.username.clone(),
                    token: e.token.clone(),
                    expires_at: e.expires_at,
                    held: true,
                    generation: e.generation,
                };
                let permit = TokenPermit { username: e.username.clone(), generation: e.generation };
                self.put(d);
                Ok(permit)
            },
            None => Err(AppError::token_expired()),
        }
    }

    /// Gives a permit back: the slot it was taken from is free again. A
    /// permit of a token that has since been dropped or replaced frees
    /// nothing.
    pub fn release_permit(&mut self, permit: TokenPermit)
        requires
            old(self).wf(),
        ensures
            final(self).wf(),
            final(self).ttl() == old(self).ttl(),
            final(self).next_gen() == old(self).next_gen(),
            forall|n: Seq<char>| n != permit.user() ==> #[trigger] final(self).slot(n) == old(self).slot(n),
            final(self).slot(permit.user()) == released(old(self).slot(permit.user()), permit.generation()),
    {
        match self.index_of(permit.username.as_str()) {
            Some(i) => {
                if self.entries[i].generation == permit.generation {
                    let e = &self.entries[i];
                    let d = TokenEntry {
                        username: e.username.clone(),
                        token: e.token.clone(),
                        expires_at: e.expires_at,
                        held: false,
                        generation: e.generation,
                    };
                    self.put(d);
                }
            },
            None => {},
        }
    }
}

/// The instant a token made at `now` expires; it stops at `u64::MAX`.
pub open spec fn deadline_of(now: u64, ttl: u64) -> u64 {
    if now as int + ttl as int <= u64::MAX { (now + ttl) as u64 } else { u64::MAX }
}

fn deadline(now: u64, ttl: u64) -> (r: u64)
    ensures
        r == deadline_of(now, ttl),
{
    if now <= u64::MAX - ttl { now + ttl } else { u64::MAX }
}

fn next_generation_after(g: u64) -> (r: u64) {
    if g < u64::MAX { g + 1 } else { g }
}

/// The slot of a token just made.
pub open spec fn fresh_slot(username: Seq<char>, token: Seq<char>, now: u64, ttl: u64, held: bool, generation: u64) -> Slot {
    Slot { username, token, expires_at: deadline_of(now, ttl), held, generation }
}

/// `e` with its permit taken.
pub open spec fn taken(e: Slot) -> Slot {
    Slot { held: true, ..e }
}

/// The slot after a permit of `generation` comes back.
pub open spec fn released(slot: Option<Slot>, generation: u64) -> Option<Slot> {
    match slot {
        Some(e) => if e.generation == generation { Some(Slot { held: false, ..e }) } else { Some(e) },
        None => None,
    }
}

proof fn lemma_slot_update(s: Seq<Slot>, i: int, u: Slot)
    requires
        slots_unique(s),
        0 <= i < s.len(),
        s[i].username == u.username,
    ensures
        slots_unique(s.update(i, u)),
        slot_in(s.update(i, u), u.username) == Some(u),
        forall|n: Seq<char>| n != u.username ==> #[trigger] slot_in(s.update(i, u), n) == slot_in(s, n),
{
    let t = s.update(i, u);
    assert forall|a: int, b: int| 0 <= a < t.len() && 0 <= b < t.len() && a != b implies #[trigger] t[a].username != #[trigger] t[b].username by {
        assert(t[a].username == s[a].username && t[b].username == s[b].username);
    }
    assert(t[i].username == u.username);
    let k = choose|k: int| 0 <= k < t.len() && #[trigger] t[k].username == u.username;
    assert(k == i);
    assert forall|n: Seq<char>| n != u.username implies #[trigger] slot_in(t, n) == slot_in(s, n) by {
        if exists|k: int| 0 <= k < t.len() && #[trigger] t[k].username == n {
            let k = choose|k: int| 0 <= k < t.len() && #[trigger] t[k].username == n;
            assert(s[k].username == n);
        }
        if exists|k: int| 0 <= k < s.len() && #[trigger] s[k].username == n {
            let k = choose|k: int| 0 <= k < s.len() && #[trigger] s[k].username == n;
            assert(t[k].username == n);
        }
    }
}

proof fn lemma_slot_push(s: Seq<Slot>, u: Slot)
    requires
        slots_unique(s),
        slot_in(s, u.username) is None,
    ensures
        slots_unique(s.push(u)),
        slot_in(s.push(u), u.username) == Some(u),
        forall|n: Seq<char>| n != u.username ==> #[trigger] slot_in(s.push(u), n) == slot_in(s, n),
{
    let t = s.push(u);
    let l = s.len() as int;
    assert forall|a: int, b: int| 0 <= a < t.len() && 0 <= b < t.len() && a != b implies #[trigger] t[a].username != #[trigger] t[b].username by {
        if a < l && b < l {
            assert(t[a] == s[a] && t[b] == s[b]);
        } else if a < l {
            assert(t[a] == s[a]);
        } else {
            assert(t[b] == s[b]);
        }
    }
    assert(t[l].username == u.username);
    let k = choose|k: int| 0 <= k < t.len() && #[trigger] t[k].username == u.username;
    assert(k == l);
    assert forall|n: Seq<char>| n != u.username implies #[trigger] slot_in(t, n) == slot_in(s, n) by {
        if exists|k: int| 0 <= k < t.len() && #[trigger] t[k].username == n {
            let k = choose|k: int| 0 <= k < t.len() && #[trigger] t[k].username == n;
            assert(s[k].username == n);
        }
        if exists|k: int| 0 <= k < s.len() && #[trigger] s[k].username == n {
            let k = choose|k: int| 0 <= k < s.len() && #[trigger] s[k].username == n;
            assert(t[k].username == n);
        }
    }
}

/// While a permit is taken, no second caller gets it: taking the permit of
/// a free slot succeeds, and taking it again before it comes back fails.
pub proof fn lemma_permit_exclusive(e: Slot, generation: u64)
    requires
        !e.held,
    ensures
        taken(e).held,
        released(Some(taken(e)), e.generation) == Some(e),
{
}

/// A token handed out at `now1` is handed out again, unchanged, to every
/// login of the same user before it expires.
pub proof fn lemma_token_reused(username: Seq<char>, token: Seq<char>, now1: u64, now2: u64, ttl: u64, held: bool, generation: u64)
    requires
        now1 <= now2,
        (now2 as int) < now1 as int + ttl as int,
        now1 as int + ttl as int <= u64::MAX,
    ensures
        live_at(Some(fresh_slot(username, token, now1, ttl, held, generation)), now2)
            == Some(fresh_slot(username, token, now1, ttl, held, generation)),
        fresh_slot(username, token, now1, ttl, held, generation).token == token,
{
}

/// `x` is among `s[0..hi]`.
spec fn has_at(s: Seq<Slot>, x: Slot, hi: int) -> bool {
    exists|k: int| 0 <= k < hi && #[trigger] s[k] == x
}

/// `kv` holds, without repeats, exactly the slots of `s[0..i]` that are live
/// at `now`.
spec fn filter_inv(s: Seq<Slot>, kv: Seq<Slot>, i: int, now: u64) -> bool {
    &&& i <= s.len()
    &&& slots_unique(s)
    &&& slots_unique(kv)
    &&& forall|j: int| 0 <= j < kv.len() ==> has_at(s, #[trigger] kv[j], i) && now < kv[j].expires_at
    &&& forall|k: int| 0 <= k < i && now < (#[trigger] s[k]).expires_at ==> has_at(kv, s[k], kv.len() as int)
}

proof fn lemma_filter_keep(s: Seq<Slot>, kv: Seq<Slot>, i: int, now: u64)
    requires
        0 <= i < s.len(),
        filter_inv(s, kv, i, now),
        now < s[i].expires_at,
    ensures
        filter_inv(s, kv.push(s[i]), i + 1, now),
{
    let c = kv.push(s[i]);
    assert forall|a: int, b: int| 0 <= a < c.len() && 0 <= b < c.len() && a != b implies #[trigger] c[a].username != #[trigger] c[b].username by {
        if a < kv.len() && b < kv.len() {
            assert(c[a] == kv[a] && c[b] == kv[b]);
        } else if a < kv.len() {
            assert(has_at(s, kv[a], i));
            let k = choose|k: int| 0 <= k < i && #[trigger] s[k] == kv[a];
            assert(s[k].username != s[i].username);
        } else if b < kv.len() {
            assert(has_at(s, kv[b], i));
            let k = choose|k: int| 0 <= k < i && #[trigger] s[k] == kv[b];
            assert(s[k].username != s[i].username);
        }
    }
    assert forall|j: int| 0 <= j < c.len() implies has_at(s, #[trigger] c[j], i + 1) && now < c[j].expires_at by {
        if j < kv.len() {
            assert(c[j] == kv[j]);
            assert(has_at(s, kv[j], i));
            let k = choose|k: int| 0 <= k < i && #[trigger] s[k] == kv[j];
            assert(s[k] == c[j]);
        } else {
            assert(s[i] == c[j]);
        }
    }
    assert forall|k: int| 0 <= k < i + 1 && now < (#[trigger] s[k]).expires_at implies has_at(c, s[k], c.len() as int) by {
        if k < i {
            assert(has_at(kv, s[k], kv.len() as int));
            let j = choose|j: int| 0 <= j < kv.len() && #[trigger] kv[j] == s[k];
            assert(c[j] == s[k]);
        } else {
            assert(c[kv.len() as int] == s[k]);
        }
    }
}

proof fn lemma_filter_skip(s: Seq<Slot>, kv: Seq<Slot>, i: int, now: u64)
    requires
        0 <= i < s.len(),
        filter_inv(s, kv, i, now),
        !(now < s[i].expires_at),
    ensures
        filter_inv(s, kv, i + 1, now),
{
    assert forall|j: int| 0 <= j < kv.len() implies has_at(s, #[trigger] kv[j], i + 1) && now < kv[j].expires_at by {
        assert(has_at(s, kv[j], i));
        let k = choose|k: int| 0 <= k < i && #[trigger] s[k] == kv[j];
        assert(0 <= k < i + 1 && s[k] == kv[j]);
    }
}

/// `c` holding exactly the slots of `s` that are live at `now` answers each
/// name with the slot of `s` if it is live.
proof fn lemma_filtered_slots(s: Seq<Slot>, c: Seq<Slot>, now: u64)
    requires
        filter_inv(s, c, s.len() as int, now),
    ensures
        forall|n: Seq<char>| #[trigger] slot_in(c, n) == live_at(slot_in(s, n), now),
        forall|j: int| 0 <= j < c.len() ==> has_at(s, #[trigger] c[j], s.len() as int),
{
    assert forall|n: Seq<char>| #[trigger] slot_in(c, n) == live_at(slot_in(s, n), now) by {
        lemma_filtered_slot(s, c, now, n);
    }
}

proof fn lemma_filtered_slot(s: Seq<Slot>, c: Seq<Slot>, now: u64, n: Seq<char>)
    requires
        filter_inv(s, c, s.len() as int, now),
    ensures
        slot_in(c, n) == live_at(slot_in(s, n), now),
{
    if exists|i: int| 0 <= i < s.len() && #[trigger] s[i].username == n {
        let k = choose|i: int| 0 <= i < s.len() && #[trigger] s[i].username == n;
        if now < s[k].expires_at {
            assert(has_at(c, s[k], c.len() as int));
            let j = choose|j: int| 0 <= j < c.len() && #[trigger] c[j] == s[k];
            assert(c[j].username == n);
            let j2 = choose|i: int| 0 <= i < c.len() && #[trigger] c[i].username == n;
            assert(j2 == j);
        } else {
            if exists|i: int| 0 <= i < c.len() && #[trigger] c[i].username == n {
                let j = choose|i: int| 0 <= i < c.len() && #[trigger] c[i].username == n;
                assert(has_at(s, c[j], s.len() as int));
                let k2 = choose|k2: int| 0 <= k2 < s.len() && #[trigger] s[k2] == c[j];
                assert(s[k2].username == n);
                assert(k2 == k);
            }
        }
    } else {
        if exists|i: int| 0 <= i < c.len() && #[trigger] c[i].username == n {
            let j = choose|i: int| 0 <= i < c.len() && #[trigger] c[i].username == n;
            assert(has_at(s, c[j], s.len() as int));
            let k2 = choose|k2: int| 0 <= k2 < s.len() && #[trigger] s[k2] == c[j];
            assert(s[k2].username == n);
        }
    }
}

} // verus!
