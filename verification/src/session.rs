use vstd::prelude::*;

verus! {

/// Mathematical model of a session row.
pub ghost struct SessionView {
    pub id: Seq<char>,
    pub user_id: u128,
    pub project_id: u128,
    pub access_token: Seq<char>,
    pub refresh_token: Seq<char>,
    pub ip_address: Option<Seq<char>>,
    pub user_agent: Option<Seq<char>>,
    pub created_at: i64,
    pub expires_at: i64,
    pub last_active_at: i64,
    pub revoked: bool,
}

/// A live authentication grant. Usable iff not revoked and strictly
/// before its expiry instant; revocation is terminal, expiry is a
/// read-time check.
#[derive(Debug)]
pub struct Session {
    pub id: String,
    pub user_id: u128,
    pub project_id: u128,
    pub access_token: String,
    pub refresh_token: String,
    pub ip_address: Option<String>,
    pub user_agent: Option<String>,
    pub created_at: i64,
    pub expires_at: i64,
    pub last_active_at: i64,
    pub revoked: bool,
}

pub open spec fn view_opt_string(o: Option<String>) -> Option<Seq<char>> {
    match o {
        Some(s) => Some(s@),
        None => None,
    }
}

impl View for Session {
    type V = SessionView;

    open spec fn view(&self) -> SessionView {
        SessionView {
            id: self.id@,
            user_id: self.user_id,
            project_id: self.project_id,
            access_token: self.access_token@,
            refresh_token: self.refresh_token@,
            ip_address: view_opt_string(self.ip_address),
            user_agent: view_opt_string(self.user_agent),
            created_at: self.created_at,
            expires_at: self.expires_at,
            last_active_at: self.last_active_at,
            revoked: self.revoked,
        }
    }
}

impl Clone for Session {
    /// A clone carries the same model.
    fn clone(&self) -> (r: Session)
        ensures
            r@ == self@,
    {
        Session {
            id: self.id.clone(),
            user_id: self.user_id,
            project_id: self.project_id,
            access_token: self.access_token.clone(),
            refresh_token: self.refresh_token.clone(),
            ip_address: self.ip_address.clone(),
            user_agent: self.user_agent.clone(),
            created_at: self.created_at,
            expires_at: self.expires_at,
            last_active_at: self.last_active_at,
            revoked: self.revoked,
        }
    }
}

impl Session {
    /// A fresh, unrevoked session created at `now`.
    pub fn new(
        id: String,
        user_id: u128,
        project_id: u128,
        access_token: String,
        refresh_token: String,
        expires_at: i64,
        ip_address: Option<String>,
        user_agent: Option<String>,
        now: i64,
    ) -> (r: Session)
        ensures
            r@ == (SessionView {
                id: id@,
                user_id,
                project_id,
                access_token: access_token@,
                refresh_token: refresh_token@,
                ip_address: view_opt_string(ip_address),
                user_agent: view_opt_string(user_agent),
                created_at: now,
                expires_at,
                last_active_at: now,
                revoked: false,
            }),
    {
        Session {
            id,
            user_id,
            project_id,
            access_token,
            refresh_token,
            ip_address,
            user_agent,
            created_at: now,
            expires_at,
            last_active_at: now,
            revoked: false,
        }
    }

    /// No longer usable: at or past its expiry instant, or revoked. A
    /// session is usable iff it is neither revoked nor at its expiry yet.
    pub open spec fn spec_is_expired(s: SessionView, now: i64) -> bool {
        now >= s.expires_at || s.revoked
    }

    /// Read-time expiry check against the caller's clock.
    pub fn is_expired(&self, now: i64) -> (r: bool)
        ensures
            r == Session::spec_is_expired(self@, now),
    {
        now >= self.expires_at || self.revoked
    }

    /// Bumps the activity timestamp; everything else is unchanged.
    pub fn update_last_active(&mut self, now: i64)
        ensures
            final(self)@ == (SessionView { last_active_at: now, ..old(self)@ }),
    {
        self.last_active_at = now;
    }

    /// Marks the session revoked: terminal and idempotent.
    pub fn revoke(&mut self)
        ensures
            final(self)@ == (SessionView { revoked: true, ..old(self)@ }),
    {
        self.revoked = true;
    }
}

} // verus!
