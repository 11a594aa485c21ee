//! The user store: one record per username, kept in memory in the order
//! the records arrived. Records are never removed; an account is retired by
//! deactivating it. Writing the records to their files is the caller's
//! part: every operation that changes a record returns it for that.

use crate::config::{User, UserView};
use crate::error::AppError;
use crate::text::{ascii_alnum, is_ascii_alnum, join2, push_char};
use crate::utils::now_beijing_rfc3339;
use vstd::prelude::*;

verus! {

/// A user as listed to administrators: no password.
#[derive(Debug, Clone)]
pub struct UserInfo {
    pub username: String,
    pub quota_tier: String,
    pub is_active: bool,
}

/// Whether `s` is a valid username: 3 to 32 characters, ASCII letters,
/// digits, `_` and `-`, starting with a letter or digit.
pub open spec fn valid_username(s: Seq<char>) -> bool {
    &&& 3 <= s.len() <= 32
    &&& is_ascii_alnum(s[0])
    &&& forall|i: int| 0 <= i < s.len() ==> is_ascii_alnum(#[trigger] s[i]) || s[i] == '_' || s[i] == '-'
}

/// Whether `users` holds at most one record per username.
pub open spec fn names_unique(users: Seq<UserView>) -> bool {
    forall|i: int, j: int|
        0 <= i < users.len() && 0 <= j < users.len() && i != j ==> #[trigger] users[i].username
            != #[trigger] users[j].username
}

/// The record named `name` among `users`.
pub open spec fn lookup_in(users: Seq<UserView>, name: Seq<char>) -> Option<UserView> {
    if exists|i: int| 0 <= i < users.len() && #[trigger] users[i].username == name {
        let i = choose|i: int| 0 <= i < users.len() && #[trigger] users[i].username == name;
        Some(users[i])
    } else {
        None
    }
}

/// `r` is `u` with only the active flag set to `active` and a new update
/// time.
pub open spec fn is_activation_of(r: UserView, u: UserView, active: bool) -> bool {
    &&& r.username == u.username
    &&& r.password == u.password
    &&& r.quota_tier == u.quota_tier
    &&& r.is_active == active
    &&& r.created_at == u.created_at
    &&& r.updated_at is Some
}

/// The records, in the order they were stored, at most one per username
/// (`wf`). A `Vec` rather than a map: listing every user walks the store,
/// and vstd's specified map with string keys (`StringHashMap`) offers no
/// iteration.
pub struct UserManager {
    users: Vec<User>,
}

impl View for UserManager {
    type V = Seq<UserView>;

    closed spec fn view(&self) -> Seq<UserView> {
        self.users@.map_values(|u: User| u@)
    }
}

impl UserManager {
    pub open spec fn wf(&self) -> bool {
        names_unique(self@)
    }

    /// The record named `name`.
    pub open spec fn lookup(&self, name: Seq<char>) -> Option<UserView> {
        lookup_in(self@, name)
    }

    /// An empty store.
    pub fn new() -> (r: Self)
        ensures
            r.wf(),
            r@.len() == 0,
    {
        let r = UserManager { users: Vec::new() };
        assert(r@ =~= Seq::<UserView>::empty());
        r
    }

    /// The store at startup: the records read from the user directory, or,
    /// where there were none, the users that the configuration declares.
    /// The second result holds the records that must now be written.
    pub fn from_records(loaded: Vec<User>, initial_users: Vec<User>) -> (r: (UserManager, Vec<User>))
        ensures
            r.0.wf(),
            loaded@.len() > 0 ==> r.1@.len() == 0,
            loaded@.len() == 0 ==> r.1@.len() == initial_users@.len(),
            loaded@.len() == 0 ==> forall|i: int| 0 <= i < r.1@.len() ==> (#[trigger] r.1@[i])@ == initial_users@[i]@,
            loaded@.len() > 0 ==> stores_last_of(r.0, loaded@.map_values(|u: User| u@)),
            loaded@.len() == 0 ==> stores_last_of(r.0, initial_users@.map_values(|u: User| u@)),
    {
        let source = if loaded.len() > 0 { &loaded } else { &initial_users };
        let ghost src = source@.map_values(|u: User| u@);
        let mut m = UserManager::new();
        let mut out: Vec<User> = Vec::new();
        let mut i: usize = 0;
        while i < source.len()
            invariant
                m.wf(),
                i <= source@.len(),
                src == source@.map_values(|u: User| u@),
                out@.len() == i,
                forall|j: int| 0 <= j < i ==> (#[trigger] out@[j])@ == source@[j]@,
                stores_last_of(m, src.subrange(0, i as int)),
            decreases source@.len() - i,
        {
            let ghost before = m;
            m.save_user(source[i].duplicate());
            out.push(source[i].duplicate());
            proof {
                assert(src.subrange(0, i + 1) =~= src.subrange(0, i as int).push(src[i as int]));
                lemma_stores_last_push(before, m, src.subrange(0, i as int), src[i as int]);
            }
            i = i + 1;
        }
        proof {
            assert(src.subrange(0, i as int) =~= src);
        }
        if loaded.len() > 0 {
            (m, Vec::new())
        } else {
            (m, out)
        }
    }

    fn index_of(&self, username: &str) -> (r: Option<usize>)
        requires
            self.wf(),
        ensures
            r matches Some(i) ==> i < self@.len() && self@[i as int].username == username@,
            r is None ==> self.lookup(username@) is None,
            r matches Some(i) ==> self.lookup(username@) == Some(self@[i as int]),
    {
        let name = String::from_str(username);
        let mut i: usize = 0;
        while i < self.users.len()
            invariant
                self.wf(),
                i <= self@.len(),
                self@.len() == self.users@.len(),
                name@ == username@,
                forall|j: int| 0 <= j < i ==> (#[trigger] self@[j]).username != username@,
            decreases self.users@.len() - i,
        {
            proof { assert(self@[i as int] == self.users@[i as int]@); }
            if self.users[i].username == name {
                proof {
                    assert(self@[i as int].username == username@);
                    let k = choose|k: int| 0 <= k < self@.len() && #[trigger] self@[k].username == username@;
                    assert(k == i);
                }
                return Some(i);
            }
            i = i + 1;
        }
        None
    }

    /// Stores `user`, replacing the record of the same name if there is one.
    pub fn save_user(&mut self, user: User)
        requires
            old(self).wf(),
        ensures
            final(self).wf(),
            final(self).lookup(user@.username) == Some(user@),
            forall|n: Seq<char>| n != user@.username ==> #[trigger] final(self).lookup(n) == old(self).lookup(n),
    {
        let ghost u = user@;
        match self.index_of(user.username.as_str()) {
            Some(i) => {
                self.users.set(i, user);
                proof {
                    assert(self@ =~= old(self)@.update(i as int, u));
                    assert forall|n: Seq<char>| n != u.username implies #[trigger] self.lookup(n) == old(self).lookup(n) by {
                        if exists|k: int| 0 <= k < self@.len() && #[trigger] self@[k].username == n {
                            let k = choose|k: int| 0 <= k < self@.len() && #[trigger] self@[k].username == n;
                            assert(old(self)@[k].username == n);
                        }
                        if exists|k: int| 0 <= k < old(self)@.len() && #[trigger] old(self)@[k].username == n {
                            let k = choose|k: int| 0 <= k < old(self)@.len() && #[trigger] old(self)@[k].username == n;
                            assert(self@[k].username == n);
                        }
                    }
                    assert(self@[i as int].username == u.username);
                }
            },
            None => {
                self.users.push(user);
                proof {
                    assert(self@ =~= old(self)@.push(u));
                    let l = old(self)@.len() as int;
                    assert(self@[l].username == u.username);
                    assert forall|n: Seq<char>| n != u.username implies #[trigger] self.lookup(n) == old(self).lookup(n) by {
                        if exists|k: int| 0 <= k < self@.len() && #[trigger] self@[k].username == n {
                            let k = choose|k: int| 0 <= k < self@.len() && #[trigger] self@[k].username == n;
                            assert(old(self)@[k].username == n);
                        }
                        if exists|k: int| 0 <= k < old(self)@.len() && #[trigger] old(self)@[k].username == n {
                            let k = choose|k: int| 0 <= k < old(self)@.len() && #[trigger] old(self)@[k].username == n;
                            assert(self@[k].username == n);
                        }
                    }
                    let k = choose|k: int| 0 <= k < self@.len() && #[trigger] self@[k].username == u.username;
                    assert(k == l);
                }
            },
        }
    }

    /// The record named `username` if its password is `password`.
    pub fn find_user(&self, username: &str, password: &str) -> (r: Option<User>)
        requires
            self.wf(),
        ensures
            r matches Some(u) ==> self.lookup(username@) == Some(u@),
            r is Some <==> (self.lookup(username@) matches Some(v) && v.password == password@),
    {
        match self.index_of(username) {
            Some(i) => {
                let pw = String::from_str(password);
                if self.users[i].password == pw {
                    Some(self.users[i].duplicate())
                } else {
                    None
                }
            },
            None => None,
        }
    }

    /// The record named `username`.
    pub fn get_user(&self, username: &str) -> (r: Option<User>)
        requires
            self.wf(),
        ensures
            r matches Some(u) ==> self.lookup(username@) == Some(u@),
            r is None <==> self.lookup(username@) is None,
    {
        match self.index_of(username) {
            Some(i) => Some(self.users[i].duplicate()),
            None => None,
        }
    }

    /// Every user, without passwords, in the order they were stored.
    pub fn list_users(&self) -> (r: Vec<UserInfo>)
        ensures
            r@.len() == self@.len(),
            forall|i: int| 0 <= i < r@.len() ==> (#[trigger] r@[i]).username@ == self@[i].username
                && r@[i].quota_tier@ == self@[i].quota_tier && r@[i].is_active == self@[i].is_active,
    {
        let mut out: Vec<UserInfo> = Vec::new();
        let mut i: usize = 0;
        while i < self.users.len()
            invariant
                i <= self.users@.len(),
                self@.len() == self.users@.len(),
                out@.len() == i,
                forall|j: int| 0 <= j < i ==> (#[trigger] out@[j]).username@ == self@[j].username
                    && out@[j].quota_tier@ == self@[j].quota_tier && out@[j].is_active == self@[j].is_active,
            decreases self.users@.len() - i,
        {
            let u = &self.users[i];
            out.push(UserInfo { username: u.username.clone(), quota_tier: u.quota_tier.clone(), is_active: u.is_active });
            i = i + 1;
        }
        out
    }

    /// Sets the active flag of the user named `username` and stamps the
    /// update time; returns the record to write. Fails with `NotFound` for
    /// an unknown user.
    pub fn set_user_active(&mut self, username: &str, is_active: bool) -> (r: Result<User, AppError>)
        requires
            old(self).wf(),
        ensures
            final(self).wf(),
            old(self).lookup(username@) is None ==> (r matches Err(AppError::NotFound(_)) && final(self)@ == old(self)@),
            old(self).lookup(username@) matches Some(u) ==> (r matches Ok(rec)
                && is_activation_of(rec@, u, is_active)
                && final(self).lookup(username@) == Some(rec@)),
            forall|n: Seq<char>| n != username@ ==> #[trigger] final(self).lookup(n) == old(self).lookup(n),
    {
        match self.index_of(username) {
            Some(i) => {
                let mut user = self.users[i].duplicate();
                user.is_active = is_active;
                user.updated_at = Some(now_beijing_rfc3339());
                let rec = user.duplicate();
                self.save_user(user);
                Ok(rec)
            },
            None => {
                let msg = join2("用户 ", username).concat(" 不存在");
                Err(AppError::NotFound(msg))
            },
        }
    }

    /// Checks the username rules: 3 to 32 characters, ASCII letters, digits,
    /// `_` and `-`, starting with a letter or digit.
    pub fn validate_username(username: &str) -> (r: Result<(), AppError>)
        ensures
            r is Ok <==> valid_username(username@),
            r matches Err(e) ==> e is BadRequest,
    {
        let n = username.unicode_len();
        if n < 3 || n > 32 {
            return Err(AppError::BadRequest(String::from_str("用户名长度必须在 3-32 个字符之间")));
        }
        let first = username.get_char(0);
        if !ascii_alnum(first) {
            return Err(AppError::BadRequest(String::from_str("用户名必须以字母或数字开头")));
        }
        let mut i: usize = 0;
        while i < n
            invariant
                n == username@.len(),
                i <= n,
                forall|j: int| 0 <= j < i ==> is_ascii_alnum(#[trigger] username@[j]) || username@[j] == '_'
                    || username@[j] == '-',
            decreases n - i,
        {
            let c = username.get_char(i);
            if !ascii_alnum(c) && c != '_' && c != '-' {
                let mut msg = String::from_str("用户名包含非法字符: '");
                push_char(&mut msg, c);
                let msg = msg.concat("'. 只允许字母、数字、下划线和连字符");
                return Err(AppError::BadRequest(msg));
            }
            i = i + 1;
        }
        Ok(())
    }

    /// Creates an active user of tier `quota_tier`, stamped with the current
    /// time; returns the record to write. Fails with `BadRequest` for an
    /// invalid username and with `InternalError` for a taken one.
    pub fn create_user(&mut self, username: String, password: String, quota_tier: String) -> (r: Result<User, AppError>)
        requires
            old(self).wf(),
        ensures
            final(self).wf(),
            !valid_username(username@) ==> (r matches Err(AppError::BadRequest(_)) && final(self)@ == old(self)@),
            valid_username(username@) && old(self).lookup(username@) is Some ==> (r matches Err(
                AppError::InternalError(_)) && final(self)@ == old(self)@),
            valid_username(username@) && old(self).lookup(username@) is None ==> (r matches Ok(rec)
                && rec@.username == username@ && rec@.password == password@ && rec@.quota_tier == quota_tier@
                && rec@.is_active && rec@.created_at is Some && rec@.created_at == rec@.updated_at
                && final(self).lookup(username@) == Some(rec@)),
            forall|n: Seq<char>| n != username@ ==> #[trigger] final(self).lookup(n) == old(self).lookup(n),
    {
        match UserManager::validate_username(username.as_str()) {
            Err(e) => return Err(e),
            Ok(()) => {},
        }
        if self.index_of(username.as_str()).is_some() {
            let msg = join2("用户 ", username.as_str()).concat(" 已存在");
            return Err(AppError::InternalError(msg));
        }
        let now = now_beijing_rfc3339();
        let user = User {
            username,
            password,
            quota_tier,
            is_active: true,
            created_at: Some(now.clone()),
            updated_at: Some(now),
        };
        let rec = user.duplicate();
        self.save_user(user);
        Ok(rec)
    }
}

/// `m` holds, for each name among `recs`, the last record of that name,
/// and no other name.
pub open spec fn stores_last_of(m: UserManager, recs: Seq<UserView>) -> bool {
    &&& forall|i: int| 0 <= i < recs.len() ==> exists|j: int|
        i <= j < recs.len() && recs[j].username == recs[i].username && #[trigger] m.lookup(recs[i].username) == Some(recs[j])
            && forall|l: int| j < l < recs.len() ==> recs[l].username != recs[i].username
    &&& forall|n: Seq<char>| #[trigger] m.lookup(n) is Some ==> exists|i: int| 0 <= i < recs.len() && recs[i].username == n
}

proof fn lemma_stores_last_push(before: UserManager, after: UserManager, recs: Seq<UserView>, u: UserView)
    requires
        stores_last_of(before, recs),
        after.lookup(u.username) == Some(u),
        forall|n: Seq<char>| n != u.username ==> #[trigger] after.lookup(n) == before.lookup(n),
    ensures
        stores_last_of(after, recs.push(u)),
{
    let t = recs.push(u);
    let l = recs.len() as int;
    assert forall|i: int| 0 <= i < t.len() implies exists|j: int|
        i <= j < t.len() && t[j].username == t[i].username && #[trigger] after.lookup(t[i].username) == Some(t[j])
            && forall|q: int| j < q < t.len() ==> t[q].username != t[i].username by {
        if t[i].username == u.username {
            assert(t[l] == u);
        } else {
            assert(t[i] == recs[i]);
            assert(before.lookup(recs[i].username) == after.lookup(t[i].username));
            let j = choose|j: int|
                i <= j < recs.len() && recs[j].username == recs[i].username && #[trigger] before.lookup(recs[i].username) == Some(recs[j])
                    && forall|q: int| j < q < recs.len() ==> recs[q].username != recs[i].username;
            assert(t[j] == recs[j]);
            assert forall|q: int| j < q < t.len() implies t[q].username != t[i].username by {
                if q < l {
                    assert(t[q] == recs[q]);
                }
            }
        }
    }
    assert forall|n: Seq<char>| #[trigger] after.lookup(n) is Some implies exists|i: int| 0 <= i < t.len() && t[i].username == n by {
        if n == u.username {
            assert(t[l].username == n);
        } else {
            assert(before.lookup(n) is Some);
            let i = choose|i: int| 0 <= i < recs.len() && recs[i].username == n;
            assert(t[i] == recs[i]);
        }
    }
}

/// Setting a user's active flag twice to the same value leaves the same
/// record as setting it once, but for the update time.
pub proof fn lemma_set_active_idempotent(u: UserView, once: UserView, twice: UserView, active: bool)
    requires
        is_activation_of(once, u, active),
        is_activation_of(twice, once, active),
    ensures
        twice.username == once.username,
        twice.password == once.password,
        twice.quota_tier == once.quota_tier,
        twice.is_active == once.is_active,
        twice.created_at == once.created_at,
{
}

} // verus!
