use vstd::prelude::*;

verus! {

/// Upper bound a unix-seconds timestamp is assumed to stay under; far
/// enough out that adding a bounded lifetime never overflows an `i64`.
pub const MAX_TIMESTAMP: i64 = 0x4000_0000_0000;

/// Upper bound on configured lifetimes, in seconds.
pub const MAX_LIFETIME_SECONDS: u64 = 0x7fff_ffff;

/// Process configuration, supplied at start by the embedding program.
#[derive(Debug, Clone)]
pub struct Config {
    pub database_url: String,
    pub jwt_secret: String,
    pub jwt_expiry_seconds: u64,
    pub refresh_token_expiry_seconds: u64,
    pub smtp_host: Option<String>,
    pub smtp_port: Option<u16>,
    pub smtp_username: Option<String>,
    pub smtp_password: Option<String>,
    pub smtp_from: Option<String>,
    pub twilio_account_sid: Option<String>,
    pub twilio_auth_token: Option<String>,
    pub twilio_from: Option<String>,
    pub allowed_origins: Vec<String>,
    pub rate_limit_per_minute: u32,
}

impl Config {
    /// Configured lifetimes small enough that expiry arithmetic on
    /// in-range timestamps cannot overflow.
    pub open spec fn wf(&self) -> bool {
        &&& self.jwt_expiry_seconds <= MAX_LIFETIME_SECONDS
        &&& self.refresh_token_expiry_seconds <= MAX_LIFETIME_SECONDS
    }
}

/// A timestamp the engine accepts: non-negative and far below overflow.
pub open spec fn valid_time(now: i64) -> bool {
    0 <= now <= MAX_TIMESTAMP
}

} // verus!
