use vstd::prelude::*;

use jsonwebtoken::errors::ErrorKind::ExpiredSignature;
use jsonwebtoken::{decode, encode, DecodingKey, EncodingKey, Header, Validation};
use serde_json::{from_value, Value};

use crate::config::{valid_time, Config, MAX_TIMESTAMP};
use crate::crypto;
use crate::crypto::{all_token_chars, has_prefix};
use crate::error::AuthError;
use crate::strutil::{dec_digits, str_eq, u128_to_dec};

verus! {

/// A short-lived, stateless signed credential. Its validity is decided by
/// signature and expiry alone, never by a store lookup.
#[derive(Debug, Clone)]
pub struct AccessToken {
    pub token: String,
    pub expires_in: u64,
}

impl AccessToken {
    /// Pairs a signed token with the lifetime it was minted for.
    pub fn new(token: String, expires_in: u64) -> (r: AccessToken)
        ensures
            r.token@ == token@,
            r.expires_in == expires_in,
    {
        AccessToken { token, expires_in }
    }
}

/// A long-lived opaque credential; validity additionally requires an
/// unrevoked, unexpired session row holding this exact value.
#[derive(Debug, Clone)]
pub struct RefreshToken {
    pub token: String,
    pub expires_in: u64,
}

impl RefreshToken {
    /// Pairs an opaque token with the lifetime it was minted for.
    pub fn new(token: String, expires_in: u64) -> (r: RefreshToken)
        ensures
            r.token@ == token@,
            r.expires_in == expires_in,
    {
        RefreshToken { token, expires_in }
    }
}

/// The claim set carried by an access token. Principal and tenant ids
/// travel as decimal strings.
#[derive(Debug, Clone)]
pub struct Claims {
    pub sub: String,
    pub project_id: String,
    pub roles: Vec<String>,
    pub permissions: Vec<String>,
    pub exp: i64,
    pub iat: i64,
}

/// What `jsonwebtoken::encode` yields under the default HS256 header for
/// this claim set and secret: HMAC signing of the canonical JSON payload,
/// a deterministic function of its arguments. Only named here.
pub uninterp spec fn jwt_of(
    sub: Seq<char>,
    project_id: Seq<char>,
    roles: Seq<Seq<char>>,
    permissions: Seq<Seq<char>>,
    exp: int,
    iat: int,
    secret: Seq<char>,
) -> Seq<char>;

/// Relies on `jsonwebtoken::encode` with `Header::default()` (HS256) and
/// an HMAC secret key: with a matching key family and a string-keyed JSON
/// map, encoding cannot fail, and the result
/// `header.payload.signature` is never empty.
#[verifier::external_body]
fn jwt_encode(
    sub: &String,
    project_id: &String,
    roles: &Vec<String>,
    permissions: &Vec<String>,
    exp: i64,
    iat: i64,
    secret: &String,
) -> (r: String)
    ensures
        r@ == jwt_of(sub@, project_id@, roles.deep_view(), permissions.deep_view(), exp as int, iat as int, secret@),
        r@.len() > 0,
{
    let mut claims = serde_json::Map::new();
    claims.insert("sub".to_string(), Value::from(sub.as_str()));
    claims.insert("project_id".to_string(), Value::from(project_id.as_str()));
    claims.insert("roles".to_string(), Value::from(roles.clone()));
    claims.insert("permissions".to_string(), Value::from(permissions.clone()));
    claims.insert("exp".to_string(), Value::from(exp));
    claims.insert("iat".to_string(), Value::from(iat));
    encode(&Header::default(), &claims, &EncodingKey::from_secret(secret.as_bytes())).unwrap()
}

/// Relies on `jsonwebtoken::decode` with `Validation::default()`: verifies
/// the HMAC signature, then the `exp` claim against the real clock, then
/// reads the claim set out of the payload; an absent or ill-typed claim
/// is refused, as decoding into the typed set would be. The outcome
/// depends on that clock, so success is never promised; stated are the
/// error taxonomy — expiry alone as `TokenExpired`, everything else as
/// `InvalidToken` — and the round trip: a token that is exactly the
/// encoding of a claim set under this secret can only decode to that
/// claim set, because the signature check pins the payload and the
/// canonical encoding determines each claim.
#[verifier::external_body]
fn jwt_decode(token: &str, secret: &String) -> (r: Result<Claims, AuthError>)
    ensures
        r matches Err(e) ==> e == AuthError::TokenExpired || e == AuthError::InvalidToken,
        r matches Ok(c) ==> forall|sub: Seq<char>, pid: Seq<char>, roles: Seq<Seq<char>>, perms: Seq<Seq<char>>, exp: int, iat: int|
            token@ == jwt_of(sub, pid, roles, perms, exp, iat, secret@) ==> (c.sub@ == sub
                && c.project_id@ == pid && c.roles.deep_view() == roles
                && c.permissions.deep_view() == perms && c.exp == exp && c.iat == iat),
{
    let c = decode::<Value>(token, &DecodingKey::from_secret(secret.as_bytes()), &Validation::default())
        .map_err(|e| if matches!(e.kind(), ExpiredSignature) { AuthError::TokenExpired } else { AuthError::InvalidToken })?
        .claims;
    match (c["sub"].as_str(), c["project_id"].as_str(), c["exp"].as_i64(), c["iat"].as_i64(),
        from_value(c["roles"].clone()), from_value(c["permissions"].clone()))
    {
        (Some(sub), Some(project), Some(exp), Some(iat), Ok(roles), Ok(permissions)) =>
            Ok(Claims { sub: sub.into(), project_id: project.into(), roles, permissions, exp, iat }),
        _ => Err(AuthError::InvalidToken),
    }
}

/// Gates a decoded claim set on its expiry instant against the caller's
/// clock: stale claims are exactly `TokenExpired`, anything else is
/// handed back unchanged.
pub fn check_claims_expiry(claims: Claims, now: i64) -> (r: Result<Claims, AuthError>)
    ensures
        claims.exp <= now ==> r == Err::<Claims, AuthError>(AuthError::TokenExpired),
        claims.exp > now ==> (r matches Ok(c) && c == claims),
{
    if claims.exp <= now {
        Err(AuthError::TokenExpired)
    } else {
        Ok(claims)
    }
}

/// Mints signed access tokens and opaque refresh tokens.
pub struct TokenService {
    pub config: Config,
}

impl TokenService {
    /// Binds the issuer to its configuration.
    pub fn new(config: Config) -> (r: TokenService)
        ensures
            r.config == config,
    {
        TokenService { config }
    }

    /// Signs a claim set for the principal, expiring `jwt_expiry_seconds`
    /// after `now`.
    pub fn generate_access_token(
        &self,
        user_id: u128,
        project_id: u128,
        roles: Vec<String>,
        permissions: Vec<String>,
        now: i64,
    ) -> (r: Result<AccessToken, AuthError>)
        requires
            self.config.wf(),
            valid_time(now),
        ensures
            r matches Ok(t) && t.token@ == jwt_of(
                dec_digits(user_id as int),
                dec_digits(project_id as int),
                roles.deep_view(),
                permissions.deep_view(),
                now + self.config.jwt_expiry_seconds,
                now as int,
                self.config.jwt_secret@,
            ) && t.token@.len() > 0 && t.expires_in == self.config.jwt_expiry_seconds,
    {
        let exp = now + self.config.jwt_expiry_seconds as i64;
        let sub = u128_to_dec(user_id);
        let project = u128_to_dec(project_id);
        let token = jwt_encode(&sub, &project, &roles, &permissions, exp, now, &self.config.jwt_secret);
        Ok(AccessToken::new(token, self.config.jwt_expiry_seconds))
    }

    /// Mints a fresh opaque refresh token with the configured lifetime.
    pub fn generate_refresh_token(&self) -> (r: RefreshToken)
        ensures
            has_prefix(r.token@, "rt_"@),
            r.token@.len() == "rt_"@.len() + 64,
            all_token_chars(r.token@.skip("rt_"@.len() as int)),
            r.expires_in == self.config.refresh_token_expiry_seconds,
    {
        RefreshToken::new(
            crypto::generate_refresh_token(),
            self.config.refresh_token_expiry_seconds,
        )
    }

    /// Checks signature and expiry of an access token. Any cryptographic
    /// or structural failure is `InvalidToken`; expiry alone (whether
    /// caught by the decoder or by the `exp` claim against `now`) is
    /// `TokenExpired`. What happens to the decoded claims is decided
    /// entirely by `check_claims_expiry`.
    pub fn verify_access_token(&self, token: &str, now: i64) -> (r: Result<Claims, AuthError>)
        ensures
            r matches Ok(c) ==> c.exp > now,
            r matches Err(e) ==> e == AuthError::TokenExpired || e == AuthError::InvalidToken,
            r matches Ok(c) ==> forall|sub: Seq<char>, pid: Seq<char>, roles: Seq<Seq<char>>, perms: Seq<Seq<char>>, exp: int, iat: int|
                token@ == jwt_of(sub, pid, roles, perms, exp, iat, self.config.jwt_secret@)
                    ==> (c.sub@ == sub && c.project_id@ == pid && c.roles.deep_view() == roles
                        && c.permissions.deep_view() == perms && c.exp == exp && c.iat == iat),
    {
        let claims = jwt_decode(token, &self.config.jwt_secret)?;
        check_claims_expiry(claims, now)
    }

    /// Shape check for a refresh token: the `rt_` tag plus a body of more
    /// than seven characters. Real validity is decided against the store.
    pub fn verify_refresh_token(&self, token: &str) -> (r: Result<(), AuthError>)
        ensures
            (r is Ok) == (has_prefix(token@, "rt_"@) && token@.len() > 10),
            r matches Err(e) ==> e == AuthError::InvalidToken,
    {
        proof {
            reveal_strlit("rt_");
        }
        let len = token.unicode_len();
        if len > 10 {
            let head = token.substring_char(0, 3);
            if str_eq(head, "rt_") {
                return Ok(());
            }
        }
        Err(AuthError::InvalidToken)
    }
}

/// Pulls the token out of an `Authorization: Bearer <token>` header
/// value; anything not tagged `Bearer ` yields nothing.
pub fn parse_bearer(header: &str) -> (r: Option<&str>)
    ensures
        (r is Some) == (header@.len() >= "Bearer "@.len() && header@.subrange(
            0,
            "Bearer "@.len() as int,
        ) == "Bearer "@),
        r matches Some(t) ==> t@ == header@.skip("Bearer "@.len() as int),
{
    proof {
        reveal_strlit("Bearer ");
    }
    let len = header.unicode_len();
    if len < 7 {
        return None;
    }
    let head = header.substring_char(0, 7);
    if crate::strutil::str_eq(head, "Bearer ") {
        let rest = header.substring_char(7, len);
        proof {
            assert(rest@ =~= header@.skip(7));
        }
        Some(rest)
    } else {
        None
    }
}

} // verus!
