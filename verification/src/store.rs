use vstd::prelude::*;

use crate::error::AuthError;
use crate::session::{Session, SessionView};
use crate::strutil::{lower_of, lowercase, str_eq};
use crate::user::{User, UserView};

verus! {

/// Row `u` belongs to the tenant and carries this (lower-cased) email.
pub open spec fn user_matching(u: UserView, project_id: u128, email_lower: Seq<char>) -> bool {
    u.project_id == project_id && u.email == email_lower
}

/// Some row of the store matches the tenant and email.
pub open spec fn user_exists(s: Seq<User>, project_id: u128, email_lower: Seq<char>) -> bool {
    exists|i: int| 0 <= i < s.len() && user_matching(#[trigger] s[i]@, project_id, email_lower)
}

/// Index `i` holds the first row matching the tenant and email.
pub open spec fn first_user_match(
    s: Seq<User>,
    project_id: u128,
    email_lower: Seq<char>,
    i: int,
) -> bool {
    &&& 0 <= i < s.len()
    &&& user_matching(s[i]@, project_id, email_lower)
    &&& forall|j: int| 0 <= j < i ==> !user_matching(#[trigger] s[j]@, project_id, email_lower)
}

/// Some row of the store carries this principal id.
pub open spec fn user_id_exists(s: Seq<User>, id: u128) -> bool {
    exists|i: int| 0 <= i < s.len() && (#[trigger] s[i]@).id == id
}

/// In-memory principal table: the verified stand-in for the relational
/// user repository, with atomic row-level operations.
pub struct UserStore {
    pub users: Vec<User>,
}

impl UserStore {
    /// Principal ids are unique, and so is the (tenant, email) pair over
    /// the stored (already lower-cased) emails.
    pub open spec fn wf(&self) -> bool {
        &&& forall|i: int, j: int| 0 <= i < j < self.users@.len()
            ==> (#[trigger] self.users@[i]@).id != (#[trigger] self.users@[j]@).id
        &&& forall|i: int, j: int| 0 <= i < j < self.users@.len()
            ==> !((#[trigger] self.users@[i]@).project_id == (#[trigger] self.users@[j]@).project_id
                && (self.users@[i]@).email == (self.users@[j]@).email)
    }

    /// An empty table.
    pub fn new() -> (r: UserStore)
        ensures
            r.wf(),
            r.users@ =~= Seq::<User>::empty(),
    {
        UserStore { users: Vec::new() }
    }

    /// Persists a new row; refuses a duplicate id or an email already
    /// registered in the row's tenant, as the store layer's uniqueness
    /// constraints would — the check is atomic with the insert.
    pub fn create(&mut self, user: &User) -> (r: Result<User, AuthError>)
        requires
            old(self).wf(),
        ensures
            final(self).wf(),
            (r is Ok) == (!user_id_exists(old(self).users@, user@.id) && !user_exists(
                old(self).users@,
                user@.project_id,
                user@.email,
            )),
            r matches Err(e) ==> e == AuthError::Database && final(self).users@ == old(self).users@,
            r matches Ok(u) ==> {
                &&& u@ == user@
                &&& final(self).users@.len() == old(self).users@.len() + 1
                &&& final(self).users@.last()@ == user@
                &&& forall|j: int| 0 <= j < old(self).users@.len()
                    ==> final(self).users@[j] == old(self).users@[j]
            },
    {
        let n = self.users.len();
        let mut i: usize = 0;
        while i < n && !(self.users[i].id == user.id || (self.users[i].project_id
            == user.project_id && str_eq(self.users[i].email.as_str(), user.email.as_str())))
            invariant
                n == self.users@.len(),
                *self == *old(self),
                i <= n,
                forall|j: int| 0 <= j < i ==> (#[trigger] self.users@[j]@).id != user@.id
                    && !user_matching(self.users@[j]@, user@.project_id, user@.email),
            decreases n - i,
        {
            i = i + 1;
        }
        if i < n {
            proof {
                assert((self.users@[i as int]@).id == user@.id || user_matching(
                    self.users@[i as int]@,
                    user@.project_id,
                    user@.email,
                ));
            }
            return Err(AuthError::Database);
        }
        proof {
            if user_id_exists(self.users@, user@.id) {
                let j = choose|j: int| 0 <= j < self.users@.len() && (#[trigger] self.users@[j]@).id == user@.id;
                assert((self.users@[j]@).id != user@.id);
            }
            if user_exists(self.users@, user@.project_id, user@.email) {
                let j = choose|j: int| 0 <= j < self.users@.len() && user_matching(
                    #[trigger] self.users@[j]@,
                    user@.project_id,
                    user@.email,
                );
                assert(!user_matching(self.users@[j]@, user@.project_id, user@.email));
            }
        }
        let row = user.clone();
        let copy = user.clone();
        self.users.push(row);
        Ok(copy)
    }

    /// Looks a principal up by id.
    pub fn find_by_id(&self, id: u128) -> (r: Option<User>)
        ensures
            (r is Some) == user_id_exists(self.users@, id),
            r matches Some(u) ==> exists|i: int| 0 <= i < self.users@.len()
                && (#[trigger] self.users@[i]@).id == id && u@ == self.users@[i]@,
    {
        let n = self.users.len();
        let mut i: usize = 0;
        while i < n && self.users[i].id != id
            invariant
                n == self.users@.len(),
                i <= n,
                forall|j: int| 0 <= j < i ==> (#[trigger] self.users@[j]@).id != id,
            decreases n - i,
        {
            i = i + 1;
        }
        if i < n {
            let u = self.users[i].clone();
            proof {
                assert((self.users@[i as int]@).id == id && u@ == self.users@[i as int]@);
            }
            Some(u)
        } else {
            proof {
                if user_id_exists(self.users@, id) {
                    let j = choose|j: int|
                        0 <= j < self.users@.len() && (#[trigger] self.users@[j]@).id == id;
                    assert((self.users@[j]@).id != id);
                }
            }
            None
        }
    }

    /// Looks a principal up by tenant and email, case-insensitively:
    /// the query is lower-cased and compared against the stored
    /// (already lower-cased) email; the earliest match wins.
    pub fn find_by_email(&self, project_id: u128, email: &str) -> (r: Option<User>)
        ensures
            (r is Some) == user_exists(self.users@, project_id, lower_of(email@)),
            r matches Some(u) ==> exists|i: int|
                first_user_match(self.users@, project_id, lower_of(email@), i)
                    && u@ == self.users@[i]@,
    {
        let target = lowercase(email);
        let ghost t = lower_of(email@);
        let n = self.users.len();
        let mut i: usize = 0;
        while i < n && !(self.users[i].project_id == project_id && str_eq(
            self.users[i].email.as_str(),
            target.as_str(),
        ))
            invariant
                n == self.users@.len(),
                i <= n,
                target@ == t,
                t == lower_of(email@),
                forall|j: int| 0 <= j < i ==> !user_matching(#[trigger] self.users@[j]@, project_id, t),
            decreases n - i,
        {
            i = i + 1;
        }
        if i < n {
            let u = self.users[i].clone();
            proof {
                assert(first_user_match(self.users@, project_id, t, i as int));
            }
            Some(u)
        } else {
            proof {
                if user_exists(self.users@, project_id, t) {
                    let j = choose|j: int| 0 <= j < self.users@.len()
                        && user_matching(#[trigger] self.users@[j]@, project_id, t);
                    assert(!user_matching(self.users@[j]@, project_id, t));
                }
            }
            None
        }
    }

    /// Replaces the row with the given principal's id, provided no other
    /// row holds its (tenant, email) pair (the uniqueness constraint);
    /// refuses an unknown id as the store layer would.
    pub fn update(&mut self, user: &User) -> (r: Result<User, AuthError>)
        requires
            old(self).wf(),
        ensures
            final(self).wf(),
            r matches Err(e) ==> e == AuthError::Database && final(self).users@ == old(self).users@,
            (r is Ok) == exists|i: int| {
                &&& 0 <= i < old(self).users@.len()
                &&& (#[trigger] old(self).users@[i]@).id == user@.id
                &&& forall|j: int| 0 <= j < old(self).users@.len() && j != i
                    ==> !user_matching(#[trigger] old(self).users@[j]@, user@.project_id, user@.email)
            },
            r matches Ok(u) ==> {
                &&& u@ == user@
                &&& final(self).users@.len() == old(self).users@.len()
                &&& exists|i: int| {
                    &&& 0 <= i < old(self).users@.len()
                    &&& (#[trigger] old(self).users@[i]@).id == user@.id
                    &&& final(self).users@[i]@ == user@
                    &&& forall|j: int| 0 <= j < old(self).users@.len() && j != i
                        ==> final(self).users@[j] == old(self).users@[j]
                }
            },
    {
        let n = self.users.len();
        let mut i: usize = 0;
        while i < n && self.users[i].id != user.id
            invariant
                n == self.users@.len(),
                *self == *old(self),
                i <= n,
                forall|j: int| 0 <= j < i ==> (#[trigger] self.users@[j]@).id != user@.id,
            decreases n - i,
        {
            i = i + 1;
        }
        if i == n {
            proof {
                if exists|k: int| ({
                    &&& 0 <= k < self.users@.len()
                    &&& (#[trigger] self.users@[k]@).id == user@.id
                    &&& forall|j: int| 0 <= j < self.users@.len() && j != k ==> !user_matching(
                        #[trigger] self.users@[j]@,
                        user@.project_id,
                        user@.email,
                    )
                }) {
                    let k = choose|k: int| ({
                        &&& 0 <= k < self.users@.len()
                        &&& (#[trigger] self.users@[k]@).id == user@.id
                        &&& forall|j: int| 0 <= j < self.users@.len() && j != k ==> !user_matching(
                            #[trigger] self.users@[j]@,
                            user@.project_id,
                            user@.email,
                        )
                    });
                    assert((self.users@[k]@).id != user@.id);
                }
            }
            return Err(AuthError::Database);
        }
        proof {
            assert((self.users@[i as int]@).id == user@.id);
        }
        let mut k: usize = 0;
        while k < n
            invariant
                n == self.users@.len(),
                *self == *old(self),
                old(self).wf(),
                i < n,
                k <= n,
                (self.users@[i as int]@).id == user@.id,
                forall|j: int| 0 <= j < i ==> (#[trigger] self.users@[j]@).id != user@.id,
                forall|j: int| 0 <= j < k && j != i
                    ==> !user_matching(#[trigger] self.users@[j]@, user@.project_id, user@.email),
            decreases n - k,
        {
            if k != i && self.users[k].project_id == user.project_id && str_eq(
                self.users[k].email.as_str(),
                user.email.as_str(),
            ) {
                proof {
                    assert(user_matching(self.users@[k as int]@, user@.project_id, user@.email));
                    if exists|m: int| ({
                        &&& 0 <= m < self.users@.len()
                        &&& (#[trigger] self.users@[m]@).id == user@.id
                        &&& forall|j: int| 0 <= j < self.users@.len() && j != m ==> !user_matching(
                            #[trigger] self.users@[j]@,
                            user@.project_id,
                            user@.email,
                        )
                    }) {
                        let m = choose|m: int| ({
                            &&& 0 <= m < self.users@.len()
                            &&& (#[trigger] self.users@[m]@).id == user@.id
                            &&& forall|j: int| 0 <= j < self.users@.len() && j != m
                                ==> !user_matching(
                                #[trigger] self.users@[j]@,
                                user@.project_id,
                                user@.email,
                            )
                        });
                        if m != i as int {
                            if m < i as int {
                                assert((self.users@[m]@).id != user@.id);
                            } else {
                                assert((self.users@[i as int]@).id != (self.users@[m]@).id);
                            }
                        }
                        assert(!user_matching(
                            self.users@[k as int]@,
                            user@.project_id,
                            user@.email,
                        ));
                    }
                }
                return Err(AuthError::Database);
            }
            k = k + 1;
        }
        let row = user.clone();
        let copy = user.clone();
        self.users.set(i, row);
        proof {
            let s0 = old(self).users@;
            let s1 = final(self).users@;
            assert(s1[i as int]@ == user@);
            assert forall|a: int, b: int| 0 <= a < b < s1.len() implies (#[trigger] s1[a]@).id != (
            #[trigger] s1[b]@).id by {
                assert(s0[a]@.id != s0[b]@.id);
                if a != i && b != i {
                    assert(s1[a] == s0[a] && s1[b] == s0[b]);
                } else if a == i as int {
                    assert(s0[a]@.id == user@.id && s1[b] == s0[b]);
                } else {
                    assert(s0[b]@.id == user@.id && s1[a] == s0[a]);
                }
            }
            assert forall|a: int, b: int| 0 <= a < b < s1.len() implies !((#[trigger] s1[a]@).project_id
                == (#[trigger] s1[b]@).project_id && (s1[a]@).email == (s1[b]@).email) by {
                assert(!(s0[a]@.project_id == s0[b]@.project_id && s0[a]@.email == s0[b]@.email));
                if a != i && b != i {
                    assert(s1[a] == s0[a] && s1[b] == s0[b]);
                } else if a == i as int {
                    assert(s1[b] == s0[b]);
                    assert(!user_matching(s0[b]@, user@.project_id, user@.email));
                } else {
                    assert(s1[a] == s0[a]);
                    assert(!user_matching(s0[a]@, user@.project_id, user@.email));
                }
            }
        }
        Ok(copy)
    }

    /// Looks a principal up by tenant and exact phone number.
    pub fn find_by_phone(&self, project_id: u128, phone: &str) -> (r: Option<User>)
        ensures
            (r is Some) == exists|i: int| 0 <= i < self.users@.len()
                && (#[trigger] self.users@[i]@).project_id == project_id
                && (self.users@[i]@).phone == Some(phone@),
            r matches Some(u) ==> exists|i: int| 0 <= i < self.users@.len()
                && (#[trigger] self.users@[i]@).project_id == project_id
                && (self.users@[i]@).phone == Some(phone@) && u@ == self.users@[i]@,
    {
        let n = self.users.len();
        let mut i: usize = 0;
        while i < n
            invariant
                n == self.users@.len(),
                i <= n,
                forall|j: int| 0 <= j < i ==> !((#[trigger] self.users@[j]@).project_id
                    == project_id && (self.users@[j]@).phone == Some(phone@)),
            decreases n - i,
        {
            let hit = {
                let u = &self.users[i];
                u.project_id == project_id && match &u.phone {
                    Some(p) => str_eq(p.as_str(), phone),
                    None => false,
                }
            };
            if hit {
                let u = self.users[i].clone();
                proof {
                    assert((self.users@[i as int]@).project_id == project_id
                        && (self.users@[i as int]@).phone == Some(phone@));
                }
                return Some(u);
            }
            i = i + 1;
        }
        proof {
            if exists|j: int| 0 <= j < self.users@.len()
                && (#[trigger] self.users@[j]@).project_id == project_id
                && (self.users@[j]@).phone == Some(phone@) {
                let j = choose|j: int| 0 <= j < self.users@.len()
                    && (#[trigger] self.users@[j]@).project_id == project_id
                    && (self.users@[j]@).phone == Some(phone@);
            }
        }
        None
    }

    /// Removes the row with this id, if one exists; removal of an
    /// unknown id is a no-op, as the store layer's delete would be.
    pub fn delete(&mut self, id: u128)
        requires
            old(self).wf(),
        ensures
            final(self).wf(),
            !user_id_exists(old(self).users@, id) ==> final(self).users@ == old(self).users@,
            user_id_exists(old(self).users@, id) ==> exists|i: int| {
                &&& 0 <= i < old(self).users@.len()
                &&& (#[trigger] old(self).users@[i]@).id == id
                &&& final(self).users@ == old(self).users@.subrange(0, i) + old(
                    self,
                ).users@.subrange(i + 1, old(self).users@.len() as int)
            },
    {
        let n = self.users.len();
        let mut i: usize = 0;
        while i < n && self.users[i].id != id
            invariant
                n == self.users@.len(),
                *self == *old(self),
                i <= n,
                forall|j: int| 0 <= j < i ==> (#[trigger] self.users@[j]@).id != id,
            decreases n - i,
        {
            i = i + 1;
        }
        if i < n {
            proof {
                assert((self.users@[i as int]@).id == id);
            }
            self.users.remove(i);
            proof {
                let s0 = old(self).users@;
                let s1 = final(self).users@;
                assert(s1 =~= s0.subrange(0, i as int) + s0.subrange(i as int + 1, s0.len() as int));
                assert forall|a: int, b: int| 0 <= a < b < s1.len() implies (#[trigger] s1[a]@).id
                    != (#[trigger] s1[b]@).id by {
                    let a0 = if a < i { a } else { a + 1 };
                    let b0 = if b < i { b } else { b + 1 };
                    assert(s1[a] == s0[a0] && s1[b] == s0[b0]);
                    assert(s0[a0]@.id != s0[b0]@.id);
                }
            }
        } else {
            proof {
                if user_id_exists(self.users@, id) {
                    let j = choose|j: int|
                        0 <= j < self.users@.len() && (#[trigger] self.users@[j]@).id == id;
                    assert((self.users@[j]@).id != id);
                }
            }
        }
    }
}

/// Index `i` holds the first session with this id.
pub open spec fn first_session_by_id(s: Seq<Session>, id: Seq<char>, i: int) -> bool {
    &&& 0 <= i < s.len()
    &&& (s[i]@).id == id
    &&& forall|j: int| 0 <= j < i ==> (#[trigger] s[j]@).id != id
}

/// Some session row carries this id.
pub open spec fn session_id_exists(s: Seq<Session>, id: Seq<char>) -> bool {
    exists|i: int| 0 <= i < s.len() && (#[trigger] s[i]@).id == id
}

/// Index `i` holds the first session with this refresh token.
pub open spec fn first_session_by_rt(s: Seq<Session>, rt: Seq<char>, i: int) -> bool {
    &&& 0 <= i < s.len()
    &&& (s[i]@).refresh_token == rt
    &&& forall|j: int| 0 <= j < i ==> (#[trigger] s[j]@).refresh_token != rt
}

/// Some session row holds this refresh token.
pub open spec fn session_rt_exists(s: Seq<Session>, rt: Seq<char>) -> bool {
    exists|i: int| 0 <= i < s.len() && (#[trigger] s[i]@).refresh_token == rt
}

/// How many rows a sweep at `now` would change: those strictly past
/// expiry and not yet revoked.
pub open spec fn sweepable_count(s: Seq<Session>, now: i64) -> int
    decreases s.len(),
{
    if s.len() == 0 {
        0
    } else {
        sweepable_count(s.drop_last(), now) + if s.last()@.expires_at < now
            && !s.last()@.revoked {
            1int
        } else {
            0int
        }
    }
}

/// In-memory session table: the verified stand-in for the relational
/// session repository. Conditional updates are atomic per row, which is
/// what makes refresh-token rotation safe against concurrent use.
pub struct SessionStore {
    pub sessions: Vec<Session>,
}

impl SessionStore {
    /// Session ids and refresh tokens are unique across all rows.
    pub open spec fn wf(&self) -> bool {
        &&& forall|i: int, j: int| 0 <= i < j < self.sessions@.len()
            ==> (#[trigger] self.sessions@[i]@).id != (#[trigger] self.sessions@[j]@).id
        &&& forall|i: int, j: int| 0 <= i < j < self.sessions@.len()
            ==> (#[trigger] self.sessions@[i]@).refresh_token
                != (#[trigger] self.sessions@[j]@).refresh_token
    }

    /// An empty table.
    pub fn new() -> (r: SessionStore)
        ensures
            r.wf(),
            r.sessions@ =~= Seq::<Session>::empty(),
    {
        SessionStore { sessions: Vec::new() }
    }

    /// Persists a new row; refuses a duplicate session id or refresh
    /// token as the store layer's uniqueness constraints would.
    pub fn create(&mut self, session: &Session) -> (r: Result<Session, AuthError>)
        requires
            old(self).wf(),
        ensures
            final(self).wf(),
            (r is Ok) == (!session_id_exists(old(self).sessions@, session@.id)
                && !session_rt_exists(old(self).sessions@, session@.refresh_token)),
            r matches Err(e) ==> e == AuthError::Database
                && final(self).sessions@ == old(self).sessions@,
            r matches Ok(s) ==> {
                &&& s@ == session@
                &&& final(self).sessions@.len() == old(self).sessions@.len() + 1
                &&& final(self).sessions@.last()@ == session@
                &&& forall|j: int| 0 <= j < old(self).sessions@.len()
                    ==> final(self).sessions@[j] == old(self).sessions@[j]
            },
    {
        let n = self.sessions.len();
        let mut i: usize = 0;
        while i < n && !(str_eq(self.sessions[i].id.as_str(), session.id.as_str()) || str_eq(
            self.sessions[i].refresh_token.as_str(),
            session.refresh_token.as_str(),
        ))
            invariant
                n == self.sessions@.len(),
                *self == *old(self),
                i <= n,
                forall|j: int| 0 <= j < i ==> (#[trigger] self.sessions@[j]@).id != session@.id
                    && (self.sessions@[j]@).refresh_token != session@.refresh_token,
            decreases n - i,
        {
            i = i + 1;
        }
        if i < n {
            proof {
                assert((self.sessions@[i as int]@).id == session@.id
                    || (self.sessions@[i as int]@).refresh_token == session@.refresh_token);
            }
            return Err(AuthError::Database);
        }
        proof {
            if session_id_exists(self.sessions@, session@.id) {
                let j = choose|j: int|
                    0 <= j < self.sessions@.len() && (#[trigger] self.sessions@[j]@).id == session@.id;
                assert((self.sessions@[j]@).id != session@.id);
            }
            if session_rt_exists(self.sessions@, session@.refresh_token) {
                let j = choose|j: int| 0 <= j < self.sessions@.len()
                    && (#[trigger] self.sessions@[j]@).refresh_token == session@.refresh_token;
                assert((self.sessions@[j]@).refresh_token != session@.refresh_token);
            }
        }
        let row = session.clone();
        let copy = session.clone();
        self.sessions.push(row);
        Ok(copy)
    }

    /// Looks a session up by id.
    pub fn find_by_id(&self, id: &str) -> (r: Option<Session>)
        ensures
            (r is Some) == session_id_exists(self.sessions@, id@),
            r matches Some(s) ==> exists|i: int|
                first_session_by_id(self.sessions@, id@, i) && s@ == self.sessions@[i]@,
    {
        let n = self.sessions.len();
        let mut i: usize = 0;
        while i < n && !str_eq(self.sessions[i].id.as_str(), id)
            invariant
                n == self.sessions@.len(),
                i <= n,
                forall|j: int| 0 <= j < i ==> (#[trigger] self.sessions@[j]@).id != id@,
            decreases n - i,
        {
            i = i + 1;
        }
        if i < n {
            let s = self.sessions[i].clone();
            proof {
                assert(first_session_by_id(self.sessions@, id@, i as int));
            }
            Some(s)
        } else {
            proof {
                if session_id_exists(self.sessions@, id@) {
                    let j = choose|j: int|
                        0 <= j < self.sessions@.len() && (#[trigger] self.sessions@[j]@).id == id@;
                    assert((self.sessions@[j]@).id != id@);
                }
            }
            None
        }
    }

    /// Looks a session up by its exact refresh-token value.
    pub fn find_by_refresh_token(&self, refresh_token: &str) -> (r: Option<Session>)
        ensures
            (r is Some) == session_rt_exists(self.sessions@, refresh_token@),
            r matches Some(s) ==> exists|i: int|
                first_session_by_rt(self.sessions@, refresh_token@, i) && s@ == self.sessions@[i]@,
    {
        let n = self.sessions.len();
        let mut i: usize = 0;
        while i < n && !str_eq(self.sessions[i].refresh_token.as_str(), refresh_token)
            invariant
                n == self.sessions@.len(),
                i <= n,
                forall|j: int| 0 <= j < i
                    ==> (#[trigger] self.sessions@[j]@).refresh_token != refresh_token@,
            decreases n - i,
        {
            i = i + 1;
        }
        if i < n {
            let s = self.sessions[i].clone();
            proof {
                assert(first_session_by_rt(self.sessions@, refresh_token@, i as int));
            }
            Some(s)
        } else {
            proof {
                if session_rt_exists(self.sessions@, refresh_token@) {
                    let j = choose|j: int| 0 <= j < self.sessions@.len()
                        && (#[trigger] self.sessions@[j]@).refresh_token == refresh_token@;
                    assert((self.sessions@[j]@).refresh_token != refresh_token@);
                }
            }
            None
        }
    }

    /// Replaces the row with the given session's id, provided no other
    /// row holds its refresh token (the uniqueness constraint); refuses
    /// an unknown id as the store layer would.
    pub fn update(&mut self, session: &Session) -> (r: Result<Session, AuthError>)
        requires
            old(self).wf(),
        ensures
            final(self).wf(),
            r matches Err(e) ==> e == AuthError::Database
                && final(self).sessions@ == old(self).sessions@,
            (r is Ok) == exists|i: int| {
                &&& first_session_by_id(old(self).sessions@, session@.id, i)
                &&& forall|j: int| 0 <= j < old(self).sessions@.len() && j != i
                    ==> (#[trigger] old(self).sessions@[j]@).refresh_token != session@.refresh_token
            },
            r matches Ok(s) ==> {
                &&& s@ == session@
                &&& final(self).sessions@.len() == old(self).sessions@.len()
                &&& exists|i: int| {
                    &&& first_session_by_id(old(self).sessions@, session@.id, i)
                    &&& final(self).sessions@[i]@ == session@
                    &&& forall|j: int| 0 <= j < old(self).sessions@.len() && j != i
                        ==> final(self).sessions@[j] == old(self).sessions@[j]
                }
            },
    {
        let n = self.sessions.len();
        let mut i: usize = 0;
        while i < n && !str_eq(self.sessions[i].id.as_str(), session.id.as_str())
            invariant
                n == self.sessions@.len(),
                *self == *old(self),
                i <= n,
                forall|j: int| 0 <= j < i ==> (#[trigger] self.sessions@[j]@).id != session@.id,
            decreases n - i,
        {
            i = i + 1;
        }
        if i == n {
            proof {
                if exists|k: int| first_session_by_id(self.sessions@, session@.id, k) {
                    let k = choose|k: int| first_session_by_id(self.sessions@, session@.id, k);
                    assert((self.sessions@[k]@).id != session@.id);
                }
            }
            return Err(AuthError::Database);
        }
        proof {
            assert(first_session_by_id(self.sessions@, session@.id, i as int));
        }
        let mut k: usize = 0;
        while k < n
            invariant
                n == self.sessions@.len(),
                *self == *old(self),
                old(self).wf(),
                i < n,
                k <= n,
                first_session_by_id(self.sessions@, session@.id, i as int),
                forall|j: int| 0 <= j < k && j != i
                    ==> (#[trigger] self.sessions@[j]@).refresh_token != session@.refresh_token,
            decreases n - k,
        {
            if k != i && str_eq(self.sessions[k].refresh_token.as_str(), session.refresh_token.as_str()) {
                proof {
                    assert((self.sessions@[k as int]@).refresh_token == session@.refresh_token);
                    if exists|ii: int| {
                        &&& first_session_by_id(self.sessions@, session@.id, ii)
                        &&& forall|j: int| 0 <= j < self.sessions@.len() && j != ii
                            ==> (#[trigger] self.sessions@[j]@).refresh_token
                                != session@.refresh_token
                    } {
                        let ii = choose|ii: int| {
                            &&& first_session_by_id(self.sessions@, session@.id, ii)
                            &&& forall|j: int| 0 <= j < self.sessions@.len() && j != ii
                                ==> (#[trigger] self.sessions@[j]@).refresh_token
                                    != session@.refresh_token
                        };
                        if ii != i as int {
                            if ii < i as int {
                                assert((self.sessions@[ii]@).id != session@.id);
                            } else {
                                assert((self.sessions@[i as int]@).id != session@.id);
                            }
                        }
                        assert((self.sessions@[k as int]@).refresh_token != session@.refresh_token);
                    }
                }
                return Err(AuthError::Database);
            }
            k = k + 1;
        }
        let row = session.clone();
        let copy = session.clone();
        self.sessions.set(i, row);
        proof {
            let s1 = final(self).sessions@;
            let s0 = old(self).sessions@;
            assert(s1[i as int]@ == session@);
            assert forall|a: int, b: int| 0 <= a < b < s1.len() implies (#[trigger] s1[a]@).id != (
            #[trigger] s1[b]@).id by {
                assert(s0[a]@.id != s0[b]@.id);
                if a != i && b != i {
                    assert(s1[a] == s0[a] && s1[b] == s0[b]);
                } else if a == i as int {
                    assert(s0[a]@.id == session@.id && s1[b] == s0[b]);
                } else {
                    assert(s0[b]@.id == session@.id && s1[a] == s0[a]);
                }
            }
            assert forall|a: int, b: int| 0 <= a < b < s1.len() implies (#[trigger] s1[a]@).refresh_token
                != (#[trigger] s1[b]@).refresh_token by {
                assert(s0[a]@.refresh_token != s0[b]@.refresh_token);
                if a != i && b != i {
                    assert(s1[a] == s0[a] && s1[b] == s0[b]);
                } else if a == i as int {
                    assert(s1[b] == s0[b]);
                    assert(s0[b]@.refresh_token != session@.refresh_token);
                } else {
                    assert(s1[a] == s0[a]);
                    assert(s0[a]@.refresh_token != session@.refresh_token);
                }
            }
        }
        Ok(copy)
    }

    /// Bulk-revokes every row strictly past its expiry at `now`; returns
    /// exactly how many rows changed. Idempotent, and meant for a
    /// periodic schedule. (A row at its exact expiry instant is already
    /// unusable by the read-time check and is picked up by the next
    /// sweep.)
    #[verifier::rlimit(50)]
    pub fn revoke_expired(&mut self, now: i64) -> (r: u64)
        requires
            old(self).wf(),
        ensures
            final(self).wf(),
            final(self).sessions@.len() == old(self).sessions@.len(),
            forall|i: int| 0 <= i < old(self).sessions@.len()
                ==> (#[trigger] final(self).sessions@[i])@ == (
                if old(self).sessions@[i]@.expires_at < now && !old(self).sessions@[i]@.revoked {
                    SessionView { revoked: true, ..old(self).sessions@[i]@ }
                } else {
                    old(self).sessions@[i]@
                }),
            r == sweepable_count(old(self).sessions@, now),
    {
        let ghost s0 = old(self).sessions@;
        let n = self.sessions.len();
        let mut count: u64 = 0;
        let mut i: usize = 0;
        while i < n
            invariant
                s0 == old(self).sessions@,
                n == self.sessions@.len(),
                n == s0.len(),
                i <= n,
                count <= i,
                count == sweepable_count(s0.subrange(0, i as int), now),
                forall|j: int| i <= j < n ==> #[trigger] self.sessions@[j] == s0[j],
                forall|j: int| 0 <= j < i ==> (#[trigger] self.sessions@[j])@ == (
                if s0[j]@.expires_at < now && !s0[j]@.revoked {
                    SessionView { revoked: true, ..s0[j]@ }
                } else {
                    s0[j]@
                }),
            decreases n - i,
        {
            proof {
                assert(s0.subrange(0, i as int + 1).drop_last() =~= s0.subrange(0, i as int));
                assert(s0.subrange(0, i as int + 1).last() == s0[i as int]);
            }
            if self.sessions[i].expires_at < now && !self.sessions[i].revoked {
                self.sessions[i].revoked = true;
                count = count + 1;
            }
            i = i + 1;
        }
        proof {
            assert(s0.subrange(0, n as int) =~= s0);
        }
        proof {
            assert forall|a: int, b: int| 0 <= a < b < final(self).sessions@.len() implies (
            #[trigger] final(self).sessions@[a]@).id != (#[trigger] final(self).sessions@[b]@).id
                && (final(self).sessions@[a]@).refresh_token
                != (final(self).sessions@[b]@).refresh_token by {
                assert(old(self).sessions@[a]@.id != old(self).sessions@[b]@.id);
                assert(old(self).sessions@[a]@.refresh_token != old(self).sessions@[b]@.refresh_token);
            }
        }
        count
    }

    /// The principal's sessions that are not revoked, in store order.
    pub fn find_by_user_id(&self, user_id: u128) -> (r: Vec<Session>)
        ensures
            r@.len() <= self.sessions@.len(),
            forall|k: int| 0 <= k < r@.len() ==> (#[trigger] r@[k]@).user_id == user_id
                && !(r@[k]@).revoked,
            forall|j: int| 0 <= j < self.sessions@.len()
                && (#[trigger] self.sessions@[j]@).user_id == user_id
                && !(self.sessions@[j]@).revoked
                ==> exists|k: int| 0 <= k < r@.len() && (#[trigger] r@[k])@ == self.sessions@[j]@,
    {
        let n = self.sessions.len();
        let mut out: Vec<Session> = Vec::new();
        let mut i: usize = 0;
        while i < n
            invariant
                n == self.sessions@.len(),
                i <= n,
                out@.len() <= i,
                forall|k: int| 0 <= k < out@.len() ==> (#[trigger] out@[k]@).user_id == user_id
                    && !(out@[k]@).revoked,
                forall|j: int| 0 <= j < i && (#[trigger] self.sessions@[j]@).user_id == user_id
                    && !(self.sessions@[j]@).revoked
                    ==> exists|k: int| 0 <= k < out@.len() && (#[trigger] out@[k])@
                        == self.sessions@[j]@,
            decreases n - i,
        {
            let ghost prev = out@;
            if self.sessions[i].user_id == user_id && !self.sessions[i].revoked {
                let row = self.sessions[i].clone();
                out.push(row);
            }
            proof {
                assert forall|j: int| 0 <= j < i + 1
                    && (#[trigger] self.sessions@[j]@).user_id == user_id
                    && !(self.sessions@[j]@).revoked
                    implies exists|k: int| 0 <= k < out@.len() && (#[trigger] out@[k])@
                    == self.sessions@[j]@ by {
                    if j < i {
                        let k = choose|k: int|
                            0 <= k < prev.len() && (#[trigger] prev[k])@ == self.sessions@[j]@;
                        assert(out@[k] == prev[k]);
                    } else {
                        assert((out@[prev.len() as int])@ == self.sessions@[j]@);
                    }
                }
            }
            i = i + 1;
        }
        out
    }

    /// Bulk-revokes every session of one principal: the enforcement step
    /// behind bans, password changes and "sign out everywhere".
    pub fn revoke_all_for_principal(&mut self, user_id: u128)
        requires
            old(self).wf(),
        ensures
            final(self).wf(),
            final(self).sessions@.len() == old(self).sessions@.len(),
            forall|i: int| 0 <= i < old(self).sessions@.len()
                ==> (#[trigger] final(self).sessions@[i])@ == (
                if old(self).sessions@[i]@.user_id == user_id {
                    SessionView { revoked: true, ..old(self).sessions@[i]@ }
                } else {
                    old(self).sessions@[i]@
                }),
    {
        let n = self.sessions.len();
        let mut i: usize = 0;
        while i < n
            invariant
                n == self.sessions@.len(),
                i <= n,
                forall|j: int| i <= j < n ==> #[trigger] self.sessions@[j] == old(self).sessions@[j],
                forall|j: int| 0 <= j < i ==> (#[trigger] self.sessions@[j])@ == (
                if old(self).sessions@[j]@.user_id == user_id {
                    SessionView { revoked: true, ..old(self).sessions@[j]@ }
                } else {
                    old(self).sessions@[j]@
                }),
            decreases n - i,
        {
            if self.sessions[i].user_id == user_id {
                self.sessions[i].revoked = true;
            }
            i = i + 1;
        }
        proof {
            assert forall|a: int, b: int| 0 <= a < b < final(self).sessions@.len() implies (
            #[trigger] final(self).sessions@[a]@).id != (#[trigger] final(self).sessions@[b]@).id
                && (final(self).sessions@[a]@).refresh_token
                != (final(self).sessions@[b]@).refresh_token by {
                assert(old(self).sessions@[a]@.id != old(self).sessions@[b]@.id);
                assert(old(self).sessions@[a]@.refresh_token != old(self).sessions@[b]@.refresh_token);
            }
        }
    }
}

/// Two first matches for the same tenant and email are the same index.
pub proof fn lemma_first_user_match_unique(
    s: Seq<User>,
    project_id: u128,
    email_lower: Seq<char>,
    i: int,
    j: int,
)
    requires
        first_user_match(s, project_id, email_lower, i),
        first_user_match(s, project_id, email_lower, j),
    ensures
        i == j,
{
    if i < j {
        assert(!user_matching(s[i]@, project_id, email_lower));
    }
    if j < i {
        assert(!user_matching(s[j]@, project_id, email_lower));
    }
}

/// Two first matches for the same session id are the same index.
pub proof fn lemma_first_session_by_id_unique(s: Seq<Session>, id: Seq<char>, i: int, j: int)
    requires
        first_session_by_id(s, id, i),
        first_session_by_id(s, id, j),
    ensures
        i == j,
{
    if i < j {
        assert((s[i]@).id != id);
    }
    if j < i {
        assert((s[j]@).id != id);
    }
}

/// Two first matches for the same refresh token are the same index.
pub proof fn lemma_first_session_by_rt_unique(s: Seq<Session>, rt: Seq<char>, i: int, j: int)
    requires
        first_session_by_rt(s, rt, i),
        first_session_by_rt(s, rt, j),
    ensures
        i == j,
{
    if i < j {
        assert((s[i]@).refresh_token != rt);
    }
    if j < i {
        assert((s[j]@).refresh_token != rt);
    }
}

} // verus!
