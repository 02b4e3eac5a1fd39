use vstd::prelude::*;

use crate::crypto::new_uuid;
use crate::session::view_opt_string;
use crate::strutil::{lower_of, lowercase};

verus! {

/// Mathematical model of a principal row.
pub ghost struct UserView {
    pub id: u128,
    pub project_id: u128,
    pub email: Seq<char>,
    pub email_verified: bool,
    pub phone: Option<Seq<char>>,
    pub phone_verified: bool,
    pub password_hash: Option<Seq<char>>,
    pub metadata: Seq<char>,
    pub mfa_enabled: bool,
    pub mfa_secret: Option<Seq<char>>,
    pub mfa_backup_codes: Option<Seq<String>>,
    pub banned: bool,
    pub created_at: i64,
    pub updated_at: i64,
    pub last_signin_at: Option<i64>,
}

/// A tenant-scoped principal. The email is stored lower-cased; the
/// metadata blob is carried as opaque JSON text.
#[derive(Debug)]
pub struct User {
    pub id: u128,
    pub project_id: u128,
    pub email: String,
    pub email_verified: bool,
    pub phone: Option<String>,
    pub phone_verified: bool,
    pub password_hash: Option<String>,
    pub metadata: String,
    pub mfa_enabled: bool,
    pub mfa_secret: Option<String>,
    pub mfa_backup_codes: Option<Vec<String>>,
    pub banned: bool,
    pub created_at: i64,
    pub updated_at: i64,
    pub last_signin_at: Option<i64>,
}

pub open spec fn view_opt_vec(o: Option<Vec<String>>) -> Option<Seq<String>> {
    match o {
        Some(v) => Some(v@),
        None => None,
    }
}

impl View for User {
    type V = UserView;

    open spec fn view(&self) -> UserView {
        UserView {
            id: self.id,
            project_id: self.project_id,
            email: self.email@,
            email_verified: self.email_verified,
            phone: view_opt_string(self.phone),
            phone_verified: self.phone_verified,
            password_hash: view_opt_string(self.password_hash),
            metadata: self.metadata@,
            mfa_enabled: self.mfa_enabled,
            mfa_secret: view_opt_string(self.mfa_secret),
            mfa_backup_codes: view_opt_vec(self.mfa_backup_codes),
            banned: self.banned,
            created_at: self.created_at,
            updated_at: self.updated_at,
            last_signin_at: self.last_signin_at,
        }
    }
}

impl Clone for User {
    /// A clone carries the same model.
    fn clone(&self) -> (r: User)
        ensures
            r@ == self@,
    {
        let mfa_backup_codes = match &self.mfa_backup_codes {
            Some(v) => Some(v.clone()),
            None => None,
        };
        proof {
            assert(view_opt_vec(mfa_backup_codes) == view_opt_vec(self.mfa_backup_codes));
        }
        User {
            id: self.id,
            project_id: self.project_id,
            email: self.email.clone(),
            email_verified: self.email_verified,
            phone: self.phone.clone(),
            phone_verified: self.phone_verified,
            password_hash: self.password_hash.clone(),
            metadata: self.metadata.clone(),
            mfa_enabled: self.mfa_enabled,
            mfa_secret: self.mfa_secret.clone(),
            mfa_backup_codes,
            banned: self.banned,
            created_at: self.created_at,
            updated_at: self.updated_at,
            last_signin_at: self.last_signin_at,
        }
    }
}

impl User {
    /// A fresh principal for a tenant: a random id, the email lower-cased,
    /// no credentials yet, not banned.
    pub fn new(project_id: u128, email: String, now: i64) -> (r: User)
        ensures
            r@ == (UserView {
                id: r@.id,
                project_id,
                email: lower_of(email@),
                email_verified: false,
                phone: None,
                phone_verified: false,
                password_hash: None,
                metadata: "{}"@,
                mfa_enabled: false,
                mfa_secret: None,
                mfa_backup_codes: None,
                banned: false,
                created_at: now,
                updated_at: now,
                last_signin_at: None,
            }),
    {
        User {
            id: new_uuid(),
            project_id,
            email: lowercase(email.as_str()),
            email_verified: false,
            phone: None,
            phone_verified: false,
            password_hash: None,
            metadata: String::from_str("{}"),
            mfa_enabled: false,
            mfa_secret: None,
            mfa_backup_codes: None,
            banned: false,
            created_at: now,
            updated_at: now,
            last_signin_at: None,
        }
    }

    /// The same principal with a password hash set.
    pub fn with_password(self, password_hash: String) -> (r: User)
        ensures
            r@ == (UserView { password_hash: Some(password_hash@), ..self@ }),
    {
        User { password_hash: Some(password_hash), ..self }
    }

    /// The same principal with its metadata blob replaced.
    pub fn with_metadata(self, metadata: String) -> (r: User)
        ensures
            r@ == (UserView { metadata: metadata@, ..self@ }),
    {
        User { metadata, ..self }
    }

    /// Marks the email verified.
    pub fn verify_email(&mut self, now: i64)
        ensures
            final(self)@ == (UserView { email_verified: true, updated_at: now, ..old(self)@ }),
    {
        self.email_verified = true;
        self.updated_at = now;
    }

    /// Marks the phone verified.
    pub fn verify_phone(&mut self, now: i64)
        ensures
            final(self)@ == (UserView { phone_verified: true, updated_at: now, ..old(self)@ }),
    {
        self.phone_verified = true;
        self.updated_at = now;
    }

    /// Records a successful sign-in at `now`.
    pub fn update_last_signin(&mut self, now: i64)
        ensures
            final(self)@ == (UserView {
                last_signin_at: Some(now),
                updated_at: now,
                ..old(self)@
            }),
    {
        self.last_signin_at = Some(now);
        self.updated_at = now;
    }

    /// Bans the principal; every authentication path then refuses it.
    pub fn ban(&mut self, now: i64)
        ensures
            final(self)@ == (UserView { banned: true, updated_at: now, ..old(self)@ }),
    {
        self.banned = true;
        self.updated_at = now;
    }

    /// Lifts a ban.
    pub fn unban(&mut self, now: i64)
        ensures
            final(self)@ == (UserView { banned: false, updated_at: now, ..old(self)@ }),
    {
        self.banned = false;
        self.updated_at = now;
    }
}

} // verus!
