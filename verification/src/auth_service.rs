use vstd::prelude::*;
use vstd::string::StringSliceAdditionalSpecFns;

use crate::config::{valid_time, MAX_LIFETIME_SECONDS};
use crate::crypto::{generate_magic_link_token, generate_session_id, has_prefix};
use crate::error::AuthError;
use crate::password::{hash_parses, password_matches, PasswordService};
use crate::session::{Session, SessionView};
use crate::single_use::{consumable, lemma_link_choice_unique, link_choice, link_consumable, MagicLink, MagicLinkStore, OtpCode, OtpService, OtpStore};
use crate::store::{
    first_session_by_id, first_session_by_rt, first_user_match, lemma_first_session_by_id_unique,
    lemma_first_session_by_rt_unique, lemma_first_user_match_unique, session_id_exists,
    session_rt_exists, user_exists, user_id_exists, user_matching, SessionStore, UserStore,
};
use crate::strutil::lower_of;
use crate::strutil::dec_digits;
use crate::token::{jwt_of, TokenService};
use crate::user::{User, UserView};
use crate::validation::{valid_email, valid_password, validate_email, validate_password};

verus! {

/// The session a fresh sign-up or sign-in yields for principal `u` at
/// `now`: bound to the principal and tenant, carrying a tagged random
/// session id, a non-empty signed access token and a tagged random
/// refresh token, expiring `expiry` seconds out, not revoked.
pub open spec fn fresh_session_for(s: SessionView, u: UserView, expiry: int, now: i64) -> bool {
    &&& s.user_id == u.id
    &&& s.project_id == u.project_id
    &&& has_prefix(s.id, "sess_"@)
    &&& s.id.len() == "sess_"@.len() + 32
    &&& s.access_token.len() > 0
    &&& has_prefix(s.refresh_token, "rt_"@)
    &&& s.refresh_token.len() == "rt_"@.len() + 64
    &&& s.created_at == now
    &&& s.last_active_at == now
    &&& s.expires_at == now + expiry
    &&& !s.revoked
}

/// The session's access token is exactly the signed claim set of its
/// principal: subject and tenant ids as decimal strings, no roles or
/// permissions loaded at issuance, issued at `now` and expiring
/// `jwt_expiry` seconds later, under the configured secret.
pub open spec fn carries_signed_access(
    s: SessionView,
    u: UserView,
    jwt_expiry: int,
    now: i64,
    secret: Seq<char>,
) -> bool {
    s.access_token == jwt_of(
        dec_digits(u.id as int),
        dec_digits(u.project_id as int),
        Seq::empty(),
        Seq::empty(),
        now + jwt_expiry,
        now as int,
        secret,
    )
}

/// Composes credential verification, token issuance and the session
/// store into the password flows: sign-up, sign-in, refresh, sign-out.
pub struct AuthService {
    pub user_repo: UserStore,
    pub session_repo: SessionStore,
    pub token_service: TokenService,
    pub refresh_token_expiry_seconds: u64,
}

impl AuthService {
    /// Both stores keep their invariants and every configured lifetime
    /// is bounded.
    pub open spec fn wf(&self) -> bool {
        &&& self.user_repo.wf()
        &&& self.session_repo.wf()
        &&& self.token_service.config.wf()
        &&& self.refresh_token_expiry_seconds <= MAX_LIFETIME_SECONDS
    }

    /// Wires the orchestrator to its stores and token issuer.
    pub fn new(
        user_repo: UserStore,
        session_repo: SessionStore,
        token_service: TokenService,
        refresh_token_expiry_seconds: u64,
    ) -> (r: AuthService)
        requires
            user_repo.wf(),
            session_repo.wf(),
            token_service.config.wf(),
            refresh_token_expiry_seconds <= MAX_LIFETIME_SECONDS,
        ensures
            r.wf(),
            r.user_repo == user_repo,
            r.session_repo == session_repo,
            r.token_service == token_service,
            r.refresh_token_expiry_seconds == refresh_token_expiry_seconds,
    {
        AuthService { user_repo, session_repo, token_service, refresh_token_expiry_seconds }
    }

    /// Mints an access and refresh token pair for the principal and
    /// persists a fresh session row; fails only when the store refuses
    /// the (randomly keyed) new row.
    fn create_session(
        &mut self,
        user: &User,
        ip_address: Option<String>,
        user_agent: Option<String>,
        now: i64,
    ) -> (r: Result<Session, AuthError>)
        requires
            old(self).wf(),
            valid_time(now),
        ensures
            final(self).wf(),
            final(self).user_repo == old(self).user_repo,
            final(self).token_service == old(self).token_service,
            final(self).refresh_token_expiry_seconds == old(self).refresh_token_expiry_seconds,
            r matches Err(e) ==> e == AuthError::Database
                && final(self).session_repo.sessions@ == old(self).session_repo.sessions@,
            r matches Ok(s) ==> {
                &&& fresh_session_for(s@, user@, old(self).refresh_token_expiry_seconds as int, now)
                &&& carries_signed_access(
                    s@,
                    user@,
                    old(self).token_service.config.jwt_expiry_seconds as int,
                    now,
                    old(self).token_service.config.jwt_secret@,
                )
                &&& final(self).session_repo.sessions@.len()
                    == old(self).session_repo.sessions@.len() + 1
                &&& final(self).session_repo.sessions@.last()@ == s@
                &&& forall|j: int| 0 <= j < old(self).session_repo.sessions@.len()
                    ==> final(self).session_repo.sessions@[j] == old(self).session_repo.sessions@[j]
            },
    {
        let roles: Vec<String> = Vec::new();
        let permissions: Vec<String> = Vec::new();
        proof {
            assert(roles.deep_view() =~= Seq::<Seq<char>>::empty());
            assert(permissions.deep_view() =~= Seq::<Seq<char>>::empty());
        }
        let access_token = match self.token_service.generate_access_token(
            user.id,
            user.project_id,
            roles,
            permissions,
            now,
        ) {
            Ok(t) => t,
            Err(e) => {
                return Err(AuthError::Database);
            },
        };
        let refresh_token = self.token_service.generate_refresh_token();
        let expires_at = now + self.refresh_token_expiry_seconds as i64;
        let session = Session::new(
            generate_session_id(),
            user.id,
            user.project_id,
            access_token.token,
            refresh_token.token,
            expires_at,
            ip_address,
            user_agent,
            now,
        );
        self.session_repo.create(&session)
    }

    /// Sign-up: refuses an email already registered in the tenant, then
    /// validates the email and password shapes, hashes the password,
    /// persists the principal and opens a first session. First failure
    /// wins, in that order.
    pub fn signup(
        &mut self,
        project_id: u128,
        email: &str,
        password: &str,
        metadata: Option<String>,
        now: i64,
    ) -> (r: Result<(User, Session), AuthError>)
        requires
            old(self).wf(),
            valid_time(now),
        ensures
            final(self).wf(),
            final(self).token_service == old(self).token_service,
            final(self).refresh_token_expiry_seconds == old(self).refresh_token_expiry_seconds,
            (r == Err::<(User, Session), AuthError>(AuthError::UserExists)) == user_exists(
                old(self).user_repo.users@,
                project_id,
                lower_of(email@),
            ),
            !user_exists(old(self).user_repo.users@, project_id, lower_of(email@))
                && !valid_email(email.spec_bytes())
                ==> (r matches Err(e) && e matches AuthError::InvalidInput(m)
                    && m@ == "invalid_email"@),
            !user_exists(old(self).user_repo.users@, project_id, lower_of(email@))
                && valid_email(email.spec_bytes()) && !valid_password(password.spec_bytes())
                ==> (r matches Err(e) && e matches AuthError::InvalidInput(m) && m@ == (
                    if password.spec_bytes().len() < 8 {
                        "password_too_short"@
                    } else if password.spec_bytes().len() > 128 {
                        "password_too_long"@
                    } else {
                        "password_weak"@
                    }
                )),
            !user_exists(old(self).user_repo.users@, project_id, lower_of(email@))
                && valid_email(email.spec_bytes()) && valid_password(password.spec_bytes())
                ==> (r is Ok || r == Err::<(User, Session), AuthError>(AuthError::Database)),
            r is Err ==> final(self).session_repo.sessions@ == old(self).session_repo.sessions@,
            r is Err && !(r == Err::<(User, Session), AuthError>(AuthError::Database))
                ==> final(self).user_repo.users@ == old(self).user_repo.users@,
            r == Err::<(User, Session), AuthError>(AuthError::Database)
                ==> (final(self).user_repo.users@ == old(self).user_repo.users@ || ({
                &&& final(self).user_repo.users@.len() == old(self).user_repo.users@.len() + 1
                &&& forall|j: int| 0 <= j < old(self).user_repo.users@.len()
                    ==> final(self).user_repo.users@[j] == old(self).user_repo.users@[j]
                &&& final(self).user_repo.users@.last()@.project_id == project_id
                &&& final(self).user_repo.users@.last()@.email == lower_of(email@)
                &&& !final(self).user_repo.users@.last()@.banned
                &&& final(self).user_repo.users@.last()@.password_hash matches Some(h)
                    && hash_parses(h) && password_matches(password@, h)
            })),
            r matches Ok((u, s)) ==> {
                &&& !user_exists(old(self).user_repo.users@, project_id, lower_of(email@))
                &&& valid_email(email.spec_bytes())
                &&& valid_password(password.spec_bytes())
                &&& u@.project_id == project_id
                &&& u@.email == lower_of(email@)
                &&& !u@.banned
                &&& !u@.email_verified
                &&& u@.created_at == now
                &&& u@.metadata == (match metadata {
                    Some(m) => m@,
                    None => "{}"@,
                })
                &&& u@.password_hash matches Some(h) && hash_parses(h) && password_matches(
                    password@,
                    h,
                )
                &&& final(self).user_repo.users@.len() == old(self).user_repo.users@.len() + 1
                &&& final(self).user_repo.users@.last()@ == u@
                &&& forall|j: int| 0 <= j < old(self).user_repo.users@.len()
                    ==> final(self).user_repo.users@[j] == old(self).user_repo.users@[j]
                &&& fresh_session_for(s@, u@, old(self).refresh_token_expiry_seconds as int, now)
                &&& carries_signed_access(
                    s@,
                    u@,
                    old(self).token_service.config.jwt_expiry_seconds as int,
                    now,
                    old(self).token_service.config.jwt_secret@,
                )
                &&& final(self).session_repo.sessions@.len()
                    == old(self).session_repo.sessions@.len() + 1
                &&& final(self).session_repo.sessions@.last()@ == s@
                &&& forall|j: int| 0 <= j < old(self).session_repo.sessions@.len()
                    ==> final(self).session_repo.sessions@[j] == old(self).session_repo.sessions@[j]
            },
    {
        if self.user_repo.find_by_email(project_id, email).is_some() {
            return Err(AuthError::UserExists);
        }
        if let Err(e) = validate_email(email, "email") {
            return Err(e);
        }
        if let Err(e) = validate_password(password, "password") {
            return Err(e);
        }
        let password_hash = match PasswordService::hash_password(password) {
            Ok(h) => h,
            Err(e) => {
                return Err(e);
            },
        };
        let mut user = User::new(project_id, email.to_owned(), now).with_password(password_hash);
        if let Some(meta) = metadata {
            user = user.with_metadata(meta);
        }
        let user = match self.user_repo.create(&user) {
            Ok(u) => u,
            Err(e) => {
                return Err(e);
            },
        };
        let session = match self.create_session(&user, None, None, now) {
            Ok(s) => s,
            Err(e) => {
                return Err(e);
            },
        };
        Ok((user, session))
    }

    /// Sign-in: an unknown email and a wrong password are refused with
    /// the same `InvalidCredentials`; a banned principal with
    /// `Forbidden`; a correct password records the sign-in time and
    /// opens a fresh session.
    pub fn signin(
        &mut self,
        project_id: u128,
        email: &str,
        password: &str,
        ip_address: Option<String>,
        user_agent: Option<String>,
        now: i64,
    ) -> (r: Result<(User, Session), AuthError>)
        requires
            old(self).wf(),
            valid_time(now),
        ensures
            final(self).wf(),
            final(self).token_service == old(self).token_service,
            final(self).refresh_token_expiry_seconds == old(self).refresh_token_expiry_seconds,
            !user_exists(old(self).user_repo.users@, project_id, lower_of(email@)) ==> r == Err::<
                (User, Session),
                AuthError,
            >(AuthError::InvalidCredentials) && final(self).user_repo.users@ == old(
                self,
            ).user_repo.users@ && final(self).session_repo.sessions@ == old(
                self,
            ).session_repo.sessions@,
            forall|i: int|
                first_user_match(old(self).user_repo.users@, project_id, lower_of(email@), i)
                    ==> (#[trigger] signin_case(old(self).user_repo.users@[i]@, password, r)),
            r is Err ==> final(self).session_repo.sessions@ == old(self).session_repo.sessions@,
            r is Err && !(r == Err::<(User, Session), AuthError>(AuthError::Database))
                ==> final(self).user_repo.users@ == old(self).user_repo.users@,
            r == Err::<(User, Session), AuthError>(AuthError::Database)
                ==> (final(self).user_repo.users@ == old(self).user_repo.users@ || exists|i: int| ({
                &&& first_user_match(old(self).user_repo.users@, project_id, lower_of(email@), i)
                &&& final(self).user_repo.users@.len() == old(self).user_repo.users@.len()
                &&& final(self).user_repo.users@[i]@ == (UserView {
                    last_signin_at: Some(now),
                    updated_at: now,
                    ..old(self).user_repo.users@[i]@
                })
                &&& forall|j: int| 0 <= j < old(self).user_repo.users@.len() && j != i
                    ==> final(self).user_repo.users@[j] == old(self).user_repo.users@[j]
            })),
            r matches Ok((u, s)) ==> exists|i: int| {
                &&& first_user_match(old(self).user_repo.users@, project_id, lower_of(email@), i)
                &&& u@ == (UserView {
                    last_signin_at: Some(now),
                    updated_at: now,
                    ..old(self).user_repo.users@[i]@
                })
                &&& final(self).user_repo.users@.len() == old(self).user_repo.users@.len()
                &&& final(self).user_repo.users@[i]@ == u@
                &&& forall|j: int| 0 <= j < old(self).user_repo.users@.len() && j != i
                    ==> final(self).user_repo.users@[j] == old(self).user_repo.users@[j]
                &&& fresh_session_for(s@, u@, old(self).refresh_token_expiry_seconds as int, now)
                &&& carries_signed_access(
                    s@,
                    u@,
                    old(self).token_service.config.jwt_expiry_seconds as int,
                    now,
                    old(self).token_service.config.jwt_secret@,
                )
                &&& final(self).session_repo.sessions@.len()
                    == old(self).session_repo.sessions@.len() + 1
                &&& final(self).session_repo.sessions@.last()@ == s@
                &&& forall|j: int| 0 <= j < old(self).session_repo.sessions@.len()
                    ==> final(self).session_repo.sessions@[j] == old(self).session_repo.sessions@[j]
            },
    {
        let user0 = match self.user_repo.find_by_email(project_id, email) {
            Some(u) => u,
            None => {
                return Err(AuthError::InvalidCredentials);
            },
        };
        proof {
            let i0 = choose|i0: int|
                first_user_match(old(self).user_repo.users@, project_id, lower_of(email@), i0)
                    && user0@ == old(self).user_repo.users@[i0]@;
            assert forall|i: int|
                first_user_match(old(self).user_repo.users@, project_id, lower_of(email@), i)
                    implies old(self).user_repo.users@[i]@ == user0@ by {
                lemma_first_user_match_unique(
                    old(self).user_repo.users@,
                    project_id,
                    lower_of(email@),
                    i,
                    i0,
                );
            }
        }
        let mut user = user0;
        if user.banned {
            return Err(AuthError::Forbidden);
        }
        let verified = match &user.password_hash {
            Some(hash) => {
                match PasswordService::verify_password(password, hash.as_str()) {
                    Ok(b) => b,
                    Err(e) => {
                        return Err(e);
                    },
                }
            },
            None => {
                return Err(AuthError::InvalidCredentials);
            },
        };
        if !verified {
            return Err(AuthError::InvalidCredentials);
        }
        user.update_last_signin(now);
        let user = match self.user_repo.update(&user) {
            Ok(u) => u,
            Err(e) => {
                return Err(e);
            },
        };
        let session = match self.create_session(&user, ip_address, user_agent, now) {
            Ok(s) => s,
            Err(e) => {
                return Err(e);
            },
        };
        Ok((user, session))
    }

    /// Sign-out: revokes the session with this id, terminally; an
    /// unknown id is itself an error, not silently ignored.
    pub fn signout(&mut self, session_id: &str) -> (r: Result<(), AuthError>)
        requires
            old(self).wf(),
        ensures
            final(self).wf(),
            final(self).user_repo == old(self).user_repo,
            final(self).token_service == old(self).token_service,
            final(self).refresh_token_expiry_seconds == old(self).refresh_token_expiry_seconds,
            (r is Ok) == session_id_exists(old(self).session_repo.sessions@, session_id@),
            r matches Err(e) ==> e == AuthError::SessionNotFound
                && final(self).session_repo.sessions@ == old(self).session_repo.sessions@,
            r is Ok ==> exists|i: int| {
                &&& first_session_by_id(old(self).session_repo.sessions@, session_id@, i)
                &&& final(self).session_repo.sessions@.len()
                    == old(self).session_repo.sessions@.len()
                &&& final(self).session_repo.sessions@[i]@ == (SessionView {
                    revoked: true,
                    ..old(self).session_repo.sessions@[i]@
                })
                &&& forall|j: int| 0 <= j < old(self).session_repo.sessions@.len() && j != i
                    ==> final(self).session_repo.sessions@[j] == old(self).session_repo.sessions@[j]
            },
    {
        let mut session = match self.session_repo.find_by_id(session_id) {
            Some(s) => s,
            None => {
                return Err(AuthError::SessionNotFound);
            },
        };
        let ghost s0 = old(self).session_repo.sessions@;
        proof {
            let i0 = choose|i0: int|
                first_session_by_id(s0, session_id@, i0) && session@ == s0[i0]@;
            assert(s0[i0]@.id == session_id@);
            assert forall|j: int| 0 <= j < s0.len() && j != i0 implies (#[trigger] s0[j]@).refresh_token
                != s0[i0]@.refresh_token by {
                if j < i0 {
                    assert(s0[j]@.refresh_token != s0[i0]@.refresh_token);
                } else {
                    assert(s0[i0]@.refresh_token != s0[j]@.refresh_token);
                }
            }
        }
        session.revoke();
        // The write-back cannot fail: the row was found by id, and revoking
        // keeps its refresh token, which no other row holds.
        match self.session_repo.update(&session) {
            Ok(_) => Ok(()),
            Err(_) => {
                proof {
                    let i0 = choose|i0: int|
                        first_session_by_id(s0, session_id@, i0) && session@.id == s0[i0]@.id;
                }
                assert(false);
                Err(AuthError::SessionNotFound)
            },
        }
    }

    /// Refresh: looks the session up by the exact refresh-token value,
    /// refuses a missing token, an expired or revoked session, a vanished
    /// principal and a banned one, in that order; otherwise rotates both
    /// tokens, extends the expiry and bumps activity, so the old refresh
    /// token no longer matches any row.
    pub fn refresh_token(&mut self, refresh_token: &str, now: i64) -> (r: Result<
        Session,
        AuthError,
    >)
        requires
            old(self).wf(),
            valid_time(now),
        ensures
            final(self).wf(),
            final(self).user_repo == old(self).user_repo,
            final(self).token_service == old(self).token_service,
            final(self).refresh_token_expiry_seconds == old(self).refresh_token_expiry_seconds,
            !session_rt_exists(old(self).session_repo.sessions@, refresh_token@) ==> r == Err::<
                Session,
                AuthError,
            >(AuthError::InvalidToken) && final(self).session_repo.sessions@ == old(
                self,
            ).session_repo.sessions@,
            forall|i: int|
                first_session_by_rt(old(self).session_repo.sessions@, refresh_token@, i)
                    ==> #[trigger] refresh_case(
                    old(self).session_repo.sessions@[i]@,
                    old(self).user_repo.users@,
                    now,
                    r,
                ),
            r is Err ==> final(self).session_repo.sessions@ == old(self).session_repo.sessions@,
            r matches Ok(s) ==> exists|i: int| {
                &&& first_session_by_rt(old(self).session_repo.sessions@, refresh_token@, i)
                &&& !Session::spec_is_expired(old(self).session_repo.sessions@[i]@, now)
                &&& s@.id == old(self).session_repo.sessions@[i]@.id
                &&& s@.user_id == old(self).session_repo.sessions@[i]@.user_id
                &&& s@.project_id == old(self).session_repo.sessions@[i]@.project_id
                &&& has_prefix(s@.refresh_token, "rt_"@)
                &&& s@.refresh_token.len() == "rt_"@.len() + 64
                &&& s@.access_token.len() > 0
                &&& forall|j: int| 0 <= j < old(self).user_repo.users@.len()
                    && (#[trigger] old(self).user_repo.users@[j]@).id == s@.user_id
                    ==> carries_signed_access(
                        s@,
                        old(self).user_repo.users@[j]@,
                        old(self).token_service.config.jwt_expiry_seconds as int,
                        now,
                        old(self).token_service.config.jwt_secret@,
                    )
                &&& s@.expires_at == now + old(self).refresh_token_expiry_seconds
                &&& s@.last_active_at == now
                &&& !s@.revoked
                &&& final(self).session_repo.sessions@.len()
                    == old(self).session_repo.sessions@.len()
                &&& final(self).session_repo.sessions@[i]@ == s@
                &&& forall|j: int| 0 <= j < old(self).session_repo.sessions@.len() && j != i
                    ==> final(self).session_repo.sessions@[j] == old(self).session_repo.sessions@[j]
            },
    {
        let mut session = match self.session_repo.find_by_refresh_token(refresh_token) {
            Some(s) => s,
            None => {
                return Err(AuthError::InvalidToken);
            },
        };
        let ghost s0 = old(self).session_repo.sessions@;
        let ghost u0 = old(self).user_repo.users@;
        proof {
            let i0 = choose|i0: int|
                first_session_by_rt(s0, refresh_token@, i0) && session@ == s0[i0]@;
            assert forall|i: int| first_session_by_rt(s0, refresh_token@, i) implies s0[i]@
                == session@ by {
                lemma_first_session_by_rt_unique(s0, refresh_token@, i, i0);
            }
        }
        if session.is_expired(now) {
            return Err(AuthError::TokenExpired);
        }
        let user = match self.user_repo.find_by_id(session.user_id) {
            Some(u) => u,
            None => {
                return Err(AuthError::UserNotFound);
            },
        };
        proof {
            let j0 = choose|j0: int| 0 <= j0 < u0.len() && (#[trigger] u0[j0]@).id
                == session@.user_id && user@ == u0[j0]@;
            assert forall|j: int| 0 <= j < u0.len() && (#[trigger] u0[j]@).id == session@.user_id
                implies u0[j]@ == user@ by {
                if j != j0 {
                    if j < j0 {
                        assert(u0[j]@.id != u0[j0]@.id);
                    } else {
                        assert(u0[j0]@.id != u0[j]@.id);
                    }
                }
            }
        }
        if user.banned {
            return Err(AuthError::Forbidden);
        }
        let roles: Vec<String> = Vec::new();
        let permissions: Vec<String> = Vec::new();
        proof {
            assert(roles.deep_view() =~= Seq::<Seq<char>>::empty());
            assert(permissions.deep_view() =~= Seq::<Seq<char>>::empty());
        }
        let access_token = match self.token_service.generate_access_token(
            user.id,
            user.project_id,
            roles,
            permissions,
            now,
        ) {
            Ok(t) => t,
            Err(e) => {
                return Err(AuthError::Database);
            },
        };
        let new_refresh = self.token_service.generate_refresh_token();
        session.access_token = access_token.token;
        session.refresh_token = new_refresh.token;
        session.expires_at = now + self.refresh_token_expiry_seconds as i64;
        session.update_last_active(now);
        proof {
            let i0 = choose|i0: int| first_session_by_rt(s0, refresh_token@, i0);
            assert(s0[i0]@.id == session@.id);
            assert forall|j: int| 0 <= j < s0.len() && j < i0 implies (#[trigger] s0[j]@).id
                != session@.id by {
                assert(s0[j]@.id != s0[i0]@.id);
            }
            assert(first_session_by_id(s0, session@.id, i0));
        }
        match self.session_repo.update(&session) {
            Ok(s) => {
                proof {
                    let k = choose|k: int| ({
                        &&& first_session_by_id(s0, session@.id, k)
                        &&& final(self).session_repo.sessions@[k]@ == session@
                        &&& forall|j: int| 0 <= j < s0.len() && j != k
                            ==> final(self).session_repo.sessions@[j] == s0[j]
                    });
                    let i0 = choose|i0: int| first_session_by_rt(s0, refresh_token@, i0);
                    lemma_first_session_by_id_unique(s0, session@.id, k, i0);
                }
                Ok(s)
            },
            Err(e) => Err(e),
        }
    }

    /// Passwordless, delivery side: mints a six-digit single-use code
    /// bound to (tenant, identifier), persists it with a ten-minute
    /// expiry, and returns the row for the email/SMS collaborator to
    /// deliver. Delivery failures are the embedding layer's to surface
    /// and do not roll this row back.
    pub fn send_otp(
        &mut self,
        otp_store: &mut OtpStore,
        project_id: u128,
        identifier: &str,
        channel: String,
        now: i64,
    ) -> (r: OtpCode)
        requires
            old(self).wf(),
            valid_time(now),
        ensures
            *final(self) == *old(self),
            final(otp_store).codes@ == old(otp_store).codes@.push(final(otp_store).codes@.last()),
            final(otp_store).codes@.last()@ == r@,
            r@.project_id == project_id,
            r@.identifier == identifier@,
            r@.code.len() == 6,
            r@.channel == channel@,
            r@.expires_at == now + crate::single_use::OTP_TTL_SECONDS,
            !r@.used,
            consumable(r@, project_id, identifier@, r@.code, now),
    {
        let code = OtpService::generate_code();
        let expires_at = OtpService::generate_expiry(now);
        let otp = OtpCode::new(
            project_id,
            identifier.to_owned(),
            code,
            channel,
            expires_at,
            now,
        );
        otp_store.create(otp)
    }

    /// Passwordless, verification side: consumes the presented code
    /// atomically (wrong, expired and already-used are one
    /// indistinguishable `OtpInvalid`), refuses a banned principal, then
    /// finds the principal for the identifier or creates a fresh one with
    /// its email marked verified, and opens a session.
    pub fn verify_otp(
        &mut self,
        otp_store: &mut OtpStore,
        project_id: u128,
        identifier: &str,
        code: &str,
        now: i64,
    ) -> (r: Result<(User, Session), AuthError>)
        requires
            old(self).wf(),
            valid_time(now),
        ensures
            final(self).wf(),
            final(self).token_service == old(self).token_service,
            final(self).refresh_token_expiry_seconds == old(self).refresh_token_expiry_seconds,
            (r == Err::<(User, Session), AuthError>(AuthError::OtpInvalid)) == !exists|i: int|
                0 <= i < old(otp_store).codes@.len() && consumable(
                #[trigger] old(otp_store).codes@[i]@,
                project_id,
                identifier@,
                code@,
                now,
            ),
            r == Err::<(User, Session), AuthError>(AuthError::OtpInvalid) ==> *final(self) == *old(
                self,
            ) && final(otp_store).codes@ == old(otp_store).codes@,
            r is Err ==> final(self).session_repo.sessions@ == old(self).session_repo.sessions@,
            r matches Ok((u, s)) ==> {
                &&& u@.project_id == project_id
                &&& !u@.banned
                &&& fresh_session_for(s@, u@, old(self).refresh_token_expiry_seconds as int, now)
                &&& final(self).session_repo.sessions@.len()
                    == old(self).session_repo.sessions@.len() + 1
                &&& final(self).session_repo.sessions@.last()@ == s@
                &&& (user_exists(old(self).user_repo.users@, project_id, lower_of(identifier@))
                    ==> final(self).user_repo.users@ == old(self).user_repo.users@
                        && exists|i: int| first_user_match(
                        old(self).user_repo.users@,
                        project_id,
                        lower_of(identifier@),
                        i,
                    ) && u@ == old(self).user_repo.users@[i]@)
                &&& (!user_exists(old(self).user_repo.users@, project_id, lower_of(identifier@))
                    ==> u@.email == lower_of(identifier@) && u@.email_verified
                        && final(self).user_repo.users@.len()
                        == old(self).user_repo.users@.len() + 1)
            },
            forall|i: int|
                first_user_match(old(self).user_repo.users@, project_id, lower_of(identifier@), i)
                    && (#[trigger] old(self).user_repo.users@[i]@).banned
                    ==> r == Err::<(User, Session), AuthError>(AuthError::Forbidden)
                        || r == Err::<(User, Session), AuthError>(AuthError::OtpInvalid),
    {
        if let Err(e) = otp_store.consume(project_id, identifier, code, now) {
            return Err(e);
        }
        let user = match self.user_repo.find_by_email(project_id, identifier) {
            Some(u) => {
                proof {
                    let i0 = choose|i0: int|
                        first_user_match(
                            old(self).user_repo.users@,
                            project_id,
                            lower_of(identifier@),
                            i0,
                        ) && u@ == old(self).user_repo.users@[i0]@;
                    assert forall|i: int|
                        first_user_match(
                            old(self).user_repo.users@,
                            project_id,
                            lower_of(identifier@),
                            i,
                        ) implies old(self).user_repo.users@[i]@ == u@ by {
                        lemma_first_user_match_unique(
                            old(self).user_repo.users@,
                            project_id,
                            lower_of(identifier@),
                            i,
                            i0,
                        );
                    }
                }
                if u.banned {
                    return Err(AuthError::Forbidden);
                }
                u
            },
            None => {
                let mut fresh = User::new(project_id, identifier.to_owned(), now);
                fresh.verify_email(now);
                match self.user_repo.create(&fresh) {
                    Ok(u) => u,
                    Err(e) => {
                        return Err(e);
                    },
                }
            },
        };
        let session = match self.create_session(&user, None, None, now) {
            Ok(s) => s,
            Err(e) => {
                return Err(e);
            },
        };
        Ok((user, session))
    }

    /// Passwordless, delivery side: mints a tagged random single-use
    /// link token bound to (tenant, email), persists it with a
    /// ten-minute expiry, and returns the row for the email collaborator
    /// to deliver.
    pub fn send_magic_link(
        &mut self,
        links: &mut MagicLinkStore,
        project_id: u128,
        email: &str,
        now: i64,
    ) -> (r: MagicLink)
        requires
            old(self).wf(),
            valid_time(now),
        ensures
            *final(self) == *old(self),
            final(links).links@ == old(links).links@.push(final(links).links@.last()),
            final(links).links@.last()@ == r@,
            r@.project_id == project_id,
            r@.email == email@,
            has_prefix(r@.token, "ml_"@),
            r@.token.len() == "ml_"@.len() + 48,
            r@.expires_at == now + crate::single_use::OTP_TTL_SECONDS,
            !r@.used,
            link_consumable(r@, r@.token, now),
            user_exists(old(self).user_repo.users@, project_id, lower_of(email@))
                ==> r@.user_id is Some,
    {
        let user_id = match self.user_repo.find_by_email(project_id, email) {
            Some(u) => Some(u.id),
            None => None,
        };
        let token = generate_magic_link_token();
        let expires_at = now + crate::single_use::OTP_TTL_SECONDS;
        let link = MagicLink::new(project_id, user_id, email.to_owned(), token, expires_at, now);
        links.create(link)
    }

    /// Passwordless, verification side: consumes the presented link
    /// token atomically (wrong, expired and already-used are one
    /// indistinguishable `OtpInvalid`), refuses a banned principal, then
    /// finds the principal for the link's email or creates a fresh one
    /// with its email marked verified, and opens a session.
    pub fn verify_magic_link(
        &mut self,
        links: &mut MagicLinkStore,
        token: &str,
        now: i64,
    ) -> (r: Result<(User, Session), AuthError>)
        requires
            old(self).wf(),
            valid_time(now),
        ensures
            final(self).wf(),
            final(self).token_service == old(self).token_service,
            final(self).refresh_token_expiry_seconds == old(self).refresh_token_expiry_seconds,
            (r == Err::<(User, Session), AuthError>(AuthError::OtpInvalid)) == !exists|i: int|
                0 <= i < old(links).links@.len() && link_consumable(
                #[trigger] old(links).links@[i]@,
                token@,
                now,
            ),
            r == Err::<(User, Session), AuthError>(AuthError::OtpInvalid) ==> *final(self) == *old(
                self,
            ) && final(links).links@ == old(links).links@,
            r is Err ==> final(self).session_repo.sessions@ == old(self).session_repo.sessions@,
            forall|i: int, j: int| ({
                &&& link_choice(old(links).links@, token@, now, i)
                &&& first_user_match(
                    old(self).user_repo.users@,
                    (#[trigger] old(links).links@[i]@).project_id,
                    lower_of(old(links).links@[i]@.email),
                    j,
                )
                &&& (#[trigger] old(self).user_repo.users@[j]@).banned
            }) ==> r == Err::<(User, Session), AuthError>(AuthError::Forbidden),
            r matches Ok((u, s)) ==> {
                &&& !u@.banned
                &&& fresh_session_for(s@, u@, old(self).refresh_token_expiry_seconds as int, now)
                &&& final(self).session_repo.sessions@.len()
                    == old(self).session_repo.sessions@.len() + 1
                &&& final(self).session_repo.sessions@.last()@ == s@
            },
    {
        let link = match links.consume(token, now) {
            Ok(l) => l,
            Err(e) => {
                return Err(e);
            },
        };
        proof {
            let i0 = choose|i0: int| ({
                &&& link_choice(old(links).links@, token@, now, i0)
                &&& link@ == old(links).links@[i0]@
            });
            assert forall|i: int| link_choice(old(links).links@, token@, now, i)
                implies old(links).links@[i]@ == link@ by {
                lemma_link_choice_unique(old(links).links@, token@, now, i, i0);
            }
        }
        let user = match self.user_repo.find_by_email(link.project_id, link.email.as_str()) {
            Some(u) => {
                proof {
                    let j0 = choose|j0: int| ({
                        &&& first_user_match(
                            old(self).user_repo.users@,
                            link@.project_id,
                            lower_of(link.email@),
                            j0,
                        )
                        &&& u@ == old(self).user_repo.users@[j0]@
                    });
                    assert forall|j: int|
                        first_user_match(
                            old(self).user_repo.users@,
                            link@.project_id,
                            lower_of(link.email@),
                            j,
                        ) implies old(self).user_repo.users@[j]@ == u@ by {
                        lemma_first_user_match_unique(
                            old(self).user_repo.users@,
                            link@.project_id,
                            lower_of(link.email@),
                            j,
                            j0,
                        );
                    }
                }
                if u.banned {
                    return Err(AuthError::Forbidden);
                }
                u
            },
            None => {
                let mut fresh = User::new(link.project_id, link.email.clone(), now);
                fresh.verify_email(now);
                match self.user_repo.create(&fresh) {
                    Ok(u) => u,
                    Err(e) => {
                        return Err(e);
                    },
                }
            },
        };
        let session = match self.create_session(&user, None, None, now) {
            Ok(s) => s,
            Err(e) => {
                return Err(e);
            },
        };
        Ok((user, session))
    }
}

/// What sign-in reports for the first principal row matching the
/// presented tenant and email: banned principals are `Forbidden`; a
/// missing or non-matching password is `InvalidCredentials`; an
/// unparseable stored hash surfaces as invalid input; a matching
/// password can only succeed or hit a store refusal.
pub open spec fn signin_case(
    u: UserView,
    password: &str,
    r: Result<(User, Session), AuthError>,
) -> bool {
    &&& u.banned ==> r == Err::<(User, Session), AuthError>(AuthError::Forbidden)
    &&& !u.banned ==> match u.password_hash {
        None => r == Err::<(User, Session), AuthError>(AuthError::InvalidCredentials),
        Some(h) => {
            &&& !hash_parses(h) ==> (r matches Err(e) && e matches AuthError::InvalidInput(m)
                && m@ == "Invalid password hash"@)
            &&& hash_parses(h) && !password_matches(password@, h) ==> r == Err::<
                (User, Session),
                AuthError,
            >(AuthError::InvalidCredentials)
            &&& hash_parses(h) && password_matches(password@, h) ==> (r is Ok || r == Err::<
                (User, Session),
                AuthError,
            >(AuthError::Database))
        },
    }
}

/// What refresh reports for the first session row holding the presented
/// token: an expired or revoked session is `TokenExpired`; a vanished
/// principal `UserNotFound`; a banned one `Forbidden`; otherwise rotation
/// can only succeed or hit a store refusal.
pub open spec fn refresh_case(
    sess: SessionView,
    users: Seq<User>,
    now: i64,
    r: Result<Session, AuthError>,
) -> bool {
    &&& Session::spec_is_expired(sess, now) ==> r == Err::<Session, AuthError>(
        AuthError::TokenExpired,
    )
    &&& !Session::spec_is_expired(sess, now) && !user_id_exists(users, sess.user_id) ==> r
        == Err::<Session, AuthError>(AuthError::UserNotFound)
    &&& !Session::spec_is_expired(sess, now) ==> forall|j: int|
        0 <= j < users.len() && (#[trigger] users[j]@).id == sess.user_id ==> {
            &&& users[j]@.banned ==> r == Err::<Session, AuthError>(AuthError::Forbidden)
            &&& !users[j]@.banned ==> (r is Ok || r == Err::<Session, AuthError>(
                AuthError::Database,
            ))
        }
}

/// Sign-up then sign-in (law): a successful sign-up leaves the store with
/// exactly one new row, and the sign-in lookup for the same tenant and
/// (lower-cased) email finds precisely that row: an unbanned principal
/// whose stored hash verifies the same password. By `signin_case`, a
/// subsequent sign-in can therefore neither report `InvalidCredentials`
/// nor `Forbidden`: it succeeds (up to a store refusal of the randomly
/// keyed new session row), and the session it yields is bound to the
/// new principal's id.
pub proof fn lemma_signup_then_signin(
    users0: Seq<User>,
    users1: Seq<User>,
    uv: UserView,
    project_id: u128,
    email_lower: Seq<char>,
    password: &str,
)
    requires
        !user_exists(users0, project_id, email_lower),
        users1.len() == users0.len() + 1,
        forall|j: int| 0 <= j < users0.len() ==> users1[j] == users0[j],
        users1.last()@ == uv,
        uv.project_id == project_id,
        uv.email == email_lower,
        !uv.banned,
        uv.password_hash matches Some(h) && hash_parses(h) && password_matches(password@, h),
    ensures
        user_exists(users1, project_id, email_lower),
        first_user_match(users1, project_id, email_lower, users0.len() as int),
        users1[users0.len() as int]@ == uv,
        forall|r: Result<(User, Session), AuthError>| #[trigger] signin_case(uv, password, r)
            ==> (r is Ok || r == Err::<(User, Session), AuthError>(AuthError::Database)),
{
    let n = users0.len() as int;
    assert(users1[n] == users1.last());
    assert(user_matching(users1[n]@, project_id, email_lower));
    assert forall|j: int| 0 <= j < n implies !user_matching(
        #[trigger] users1[j]@,
        project_id,
        email_lower,
    ) by {
        assert(users1[j] == users0[j]);
        if user_matching(users0[j]@, project_id, email_lower) {
            assert(user_exists(users0, project_id, email_lower));
        }
    }
}

/// Tenant isolation of duplicate sign-up (law): once (tenant, email) is
/// registered, a second sign-up of the same pair is refused with
/// `UserExists` (the store now matches), while the same email under a
/// different tenant is still free, so its sign-up proceeds
/// independently.
pub proof fn lemma_duplicate_signup(
    users0: Seq<User>,
    users1: Seq<User>,
    uv: UserView,
    project_id: u128,
    email_lower: Seq<char>,
    other_project: u128,
)
    requires
        users1.len() == users0.len() + 1,
        forall|j: int| 0 <= j < users0.len() ==> users1[j] == users0[j],
        users1.last()@ == uv,
        uv.project_id == project_id,
        uv.email == email_lower,
        other_project != project_id,
        !user_exists(users0, other_project, email_lower),
    ensures
        user_exists(users1, project_id, email_lower),
        !user_exists(users1, other_project, email_lower),
{
    let n = users0.len() as int;
    assert(user_matching(users1[n]@, project_id, email_lower));
    if user_exists(users1, other_project, email_lower) {
        let j = choose|j: int| 0 <= j < users1.len() && user_matching(
            #[trigger] users1[j]@,
            other_project,
            email_lower,
        );
        if j < n {
            assert(users1[j] == users0[j]);
            assert(user_exists(users0, other_project, email_lower));
        }
    }
}

/// Refresh-token rotation (law): after a successful refresh rotated the
/// session at row `i` from `old_rt` to a different `new_rt`, no row of
/// the store holds `old_rt` any more, so a repeat refresh with the old
/// value fails with `InvalidToken`; and `new_rt` now finds exactly the
/// rotated session, so the new token keeps working. The one case left
/// out is the random collision `new_rt == old_rt`, which the token
/// generator makes vanishingly unlikely but cannot exclude.
pub proof fn lemma_rotation_invalidates_old(
    s0: Seq<Session>,
    s1: Seq<Session>,
    i: int,
    old_rt: Seq<char>,
    new_rt: Seq<char>,
)
    requires
        forall|a: int, b: int| 0 <= a < b < s0.len()
            ==> (#[trigger] s0[a]@).refresh_token != (#[trigger] s0[b]@).refresh_token,
        forall|a: int, b: int| 0 <= a < b < s1.len()
            ==> (#[trigger] s1[a]@).refresh_token != (#[trigger] s1[b]@).refresh_token,
        first_session_by_rt(s0, old_rt, i),
        s1.len() == s0.len(),
        (s1[i]@).refresh_token == new_rt,
        forall|j: int| 0 <= j < s0.len() && j != i ==> s1[j] == s0[j],
        new_rt != old_rt,
    ensures
        !session_rt_exists(s1, old_rt),
        first_session_by_rt(s1, new_rt, i),
{
    assert forall|j: int| 0 <= j < s1.len() implies (#[trigger] s1[j]@).refresh_token != old_rt by {
        if j != i {
            assert(s1[j] == s0[j]);
            if j < i {
                assert(s0[j]@.refresh_token != old_rt);
            } else {
                assert(s0[i]@.refresh_token != s0[j]@.refresh_token);
            }
        }
    }
    if session_rt_exists(s1, old_rt) {
        let j = choose|j: int| 0 <= j < s1.len() && (#[trigger] s1[j]@).refresh_token == old_rt;
    }
    assert forall|j: int| 0 <= j < i implies (#[trigger] s1[j]@).refresh_token != new_rt by {
        assert(s1[j]@.refresh_token != s1[i]@.refresh_token);
    }
}

} // verus!
