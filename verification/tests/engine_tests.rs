use merco_auth::auth_service::AuthService;
use merco_auth::config::Config;
use merco_auth::error::AuthError;
use merco_auth::single_use::{MagicLink, MagicLinkStore, OtpStore};
use merco_auth::store::{SessionStore, UserStore};
use merco_auth::token::TokenService;

const NOW: i64 = 1_700_000_000;
const TENANT: u128 = 1;
const OTHER_TENANT: u128 = 2;

fn test_config() -> Config {
    Config {
        database_url: "postgres://test".to_string(),
        jwt_secret: "test-secret-key-for-testing-purposes-only".to_string(),
        jwt_expiry_seconds: 3600,
        refresh_token_expiry_seconds: 2592000,
        smtp_host: None,
        smtp_port: None,
        smtp_username: None,
        smtp_password: None,
        smtp_from: None,
        twilio_account_sid: None,
        twilio_auth_token: None,
        twilio_from: None,
        allowed_origins: vec!["*".to_string()],
        rate_limit_per_minute: 60,
    }
}

fn engine() -> AuthService {
    AuthService::new(
        UserStore::new(),
        SessionStore::new(),
        TokenService::new(test_config()),
        2592000,
    )
}

#[test]
fn test_signup_then_signin_scenario() {
    // Tenant T, email a@b.com, password Passw0rd!
    let mut auth = engine();
    let (user, session) = auth
        .signup(TENANT, "a@b.com", "Passw0rd!", None, NOW)
        .unwrap();
    assert!(!session.access_token.is_empty());
    assert!(!session.refresh_token.is_empty());
    assert_eq!(session.user_id, user.id);

    let (user2, session2) = auth
        .signin(TENANT, "a@b.com", "Passw0rd!", None, None, NOW + 10)
        .unwrap();
    assert_eq!(user2.id, user.id);
    assert_ne!(session2.id, session.id);

    let err = auth
        .signin(TENANT, "a@b.com", "WrongPassw0rd", None, None, NOW + 20)
        .unwrap_err();
    assert_eq!(err, AuthError::InvalidCredentials);
}

#[test]
fn test_duplicate_signup_per_tenant() {
    let mut auth = engine();
    auth.signup(TENANT, "a@b.com", "Passw0rd!", None, NOW).unwrap();

    let err = auth
        .signup(TENANT, "a@b.com", "Passw0rd!", None, NOW + 1)
        .unwrap_err();
    assert_eq!(err, AuthError::UserExists);

    // The same email in a different tenant succeeds independently.
    let (other, _) = auth
        .signup(OTHER_TENANT, "a@b.com", "Passw0rd!", None, NOW + 2)
        .unwrap();
    assert_eq!(other.project_id, OTHER_TENANT);
}

#[test]
fn test_signup_is_case_insensitive_per_tenant() {
    let mut auth = engine();
    auth.signup(TENANT, "A@B.com", "Passw0rd!", None, NOW).unwrap();
    let err = auth
        .signup(TENANT, "a@b.COM", "Passw0rd!", None, NOW + 1)
        .unwrap_err();
    assert_eq!(err, AuthError::UserExists);
}

#[test]
fn test_signup_validation_errors() {
    let mut auth = engine();
    let err = auth.signup(TENANT, "bad", "Passw0rd!", None, NOW).unwrap_err();
    assert_eq!(err, AuthError::InvalidInput("invalid_email".to_string()));

    let err = auth.signup(TENANT, "a@b.com", "short1", None, NOW).unwrap_err();
    assert_eq!(err, AuthError::InvalidInput("password_too_short".to_string()));

    let err = auth
        .signup(TENANT, "a@b.com", "allletters", None, NOW)
        .unwrap_err();
    assert_eq!(err, AuthError::InvalidInput("password_weak".to_string()));
}

#[test]
fn test_signin_unknown_email_is_invalid_credentials() {
    let mut auth = engine();
    let err = auth
        .signin(TENANT, "nobody@b.com", "Passw0rd!", None, None, NOW)
        .unwrap_err();
    assert_eq!(err, AuthError::InvalidCredentials);
}

#[test]
fn test_signin_banned_user_is_forbidden() {
    let mut auth = engine();
    let (user, _) = auth.signup(TENANT, "a@b.com", "Passw0rd!", None, NOW).unwrap();
    let mut banned = auth.user_repo.find_by_id(user.id).unwrap();
    banned.ban(NOW + 1);
    auth.user_repo.update(&banned).unwrap();

    let err = auth
        .signin(TENANT, "a@b.com", "Passw0rd!", None, None, NOW + 2)
        .unwrap_err();
    assert_eq!(err, AuthError::Forbidden);
}

#[test]
fn test_refresh_rotates_token() {
    let mut auth = engine();
    let (_, session) = auth.signup(TENANT, "a@b.com", "Passw0rd!", None, NOW).unwrap();
    let old_rt = session.refresh_token.clone();

    let rotated = auth.refresh_token(&old_rt, NOW + 100).unwrap();
    assert_ne!(rotated.refresh_token, old_rt);
    assert_eq!(rotated.id, session.id);

    // The previous refresh token is permanently unusable.
    let err = auth.refresh_token(&old_rt, NOW + 200).unwrap_err();
    assert_eq!(err, AuthError::InvalidToken);

    // The new one keeps working.
    let again = auth.refresh_token(&rotated.refresh_token, NOW + 300).unwrap();
    assert_eq!(again.id, session.id);
}

#[test]
fn test_refresh_unknown_token_is_invalid() {
    let mut auth = engine();
    let err = auth.refresh_token("rt_doesnotexist", NOW).unwrap_err();
    assert_eq!(err, AuthError::InvalidToken);
}

#[test]
fn test_refresh_expired_session_is_token_expired() {
    let mut auth = engine();
    let (_, session) = auth.signup(TENANT, "a@b.com", "Passw0rd!", None, NOW).unwrap();
    let err = auth
        .refresh_token(&session.refresh_token, NOW + 2592000 + 1)
        .unwrap_err();
    assert_eq!(err, AuthError::TokenExpired);
}

#[test]
fn test_refresh_banned_user_is_forbidden() {
    let mut auth = engine();
    let (user, session) = auth.signup(TENANT, "a@b.com", "Passw0rd!", None, NOW).unwrap();
    let mut banned = auth.user_repo.find_by_id(user.id).unwrap();
    banned.ban(NOW + 1);
    auth.user_repo.update(&banned).unwrap();

    let err = auth
        .refresh_token(&session.refresh_token, NOW + 2)
        .unwrap_err();
    assert_eq!(err, AuthError::Forbidden);
}

#[test]
fn test_signout_revokes_session() {
    let mut auth = engine();
    let (_, session) = auth.signup(TENANT, "a@b.com", "Passw0rd!", None, NOW).unwrap();
    auth.signout(&session.id).unwrap();

    // Signing out twice is fine: revocation is idempotent per row.
    auth.signout(&session.id).unwrap();

    // The revoked session's refresh token is dead (reported as expired).
    let err = auth
        .refresh_token(&session.refresh_token, NOW + 1)
        .unwrap_err();
    assert_eq!(err, AuthError::TokenExpired);
}

#[test]
fn test_signout_unknown_session_is_an_error() {
    let mut auth = engine();
    let err = auth.signout("sess_missing").unwrap_err();
    assert_eq!(err, AuthError::SessionNotFound);
}

#[test]
fn test_sweep_marks_expired_sessions() {
    let mut auth = engine();
    let (_, s1) = auth.signup(TENANT, "a@b.com", "Passw0rd!", None, NOW).unwrap();
    auth.signup(TENANT, "b@b.com", "Passw0rd!", None, NOW + 5).unwrap();

    // Only the first session is past expiry at this sweep instant.
    let sweep_at = NOW + 2592000 + 3;
    let swept = auth.session_repo.revoke_expired(sweep_at);
    assert_eq!(swept, 1);
    let row = auth.session_repo.find_by_id(&s1.id).unwrap();
    assert!(row.revoked);

    // Sweeping again at the same instant changes nothing.
    assert_eq!(auth.session_repo.revoke_expired(sweep_at), 0);
}

#[test]
fn test_signup_stores_metadata() {
    let mut auth = engine();
    let (user, _) = auth
        .signup(TENANT, "a@b.com", "Passw0rd!", Some("{\"plan\":\"pro\"}".to_string()), NOW)
        .unwrap();
    assert_eq!(user.metadata, "{\"plan\":\"pro\"}");
    let (plain, _) = auth
        .signup(TENANT, "b@b.com", "Passw0rd!", None, NOW)
        .unwrap();
    assert_eq!(plain.metadata, "{}");
}

#[test]
fn test_passwordless_otp_flow() {
    let mut auth = engine();
    let mut otps = OtpStore::new();

    let otp = auth.send_otp(&mut otps, TENANT, "a@b.com", "email".to_string(), NOW);
    assert_eq!(otp.code.len(), 6);
    assert_eq!(otp.expires_at, NOW + 600);

    // A wrong code is refused, indistinguishably.
    let err = auth
        .verify_otp(&mut otps, TENANT, "a@b.com", "000000", NOW)
        .unwrap_err();
    assert_eq!(err, AuthError::OtpInvalid);

    // The right code creates the principal (email verified) and a session.
    let (user, session) = auth
        .verify_otp(&mut otps, TENANT, "a@b.com", &otp.code, NOW + 1)
        .unwrap();
    assert_eq!(user.email, "a@b.com");
    assert!(user.email_verified);
    assert_eq!(session.user_id, user.id);

    // The consumed code is dead, with the same error as a wrong one.
    let err = auth
        .verify_otp(&mut otps, TENANT, "a@b.com", &otp.code, NOW + 2)
        .unwrap_err();
    assert_eq!(err, AuthError::OtpInvalid);
}

#[test]
fn test_passwordless_otp_finds_existing_principal() {
    let mut auth = engine();
    let mut otps = OtpStore::new();
    let (user, _) = auth.signup(TENANT, "a@b.com", "Passw0rd!", None, NOW).unwrap();

    let otp = auth.send_otp(&mut otps, TENANT, "a@b.com", "email".to_string(), NOW);
    let (found, _) = auth
        .verify_otp(&mut otps, TENANT, "a@b.com", &otp.code, NOW + 1)
        .unwrap();
    assert_eq!(found.id, user.id);
}

#[test]
fn test_passwordless_otp_refuses_banned_principal() {
    let mut auth = engine();
    let mut otps = OtpStore::new();
    let (user, _) = auth.signup(TENANT, "a@b.com", "Passw0rd!", None, NOW).unwrap();
    let mut banned = auth.user_repo.find_by_id(user.id).unwrap();
    banned.ban(NOW + 1);
    auth.user_repo.update(&banned).unwrap();

    let otp = auth.send_otp(&mut otps, TENANT, "a@b.com", "email".to_string(), NOW + 2);
    let err = auth
        .verify_otp(&mut otps, TENANT, "a@b.com", &otp.code, NOW + 3)
        .unwrap_err();
    assert_eq!(err, AuthError::Forbidden);
}

#[test]
fn test_passwordless_magic_link_flow() {
    let mut auth = engine();
    let mut links = MagicLinkStore::new();

    let link = auth.send_magic_link(&mut links, TENANT, "a@b.com", NOW);
    assert!(link.token.starts_with("ml_"));
    assert_eq!(link.expires_at, NOW + 600);
    assert!(link.user_id.is_none());

    // A wrong token is refused, indistinguishably.
    let err = auth
        .verify_magic_link(&mut links, "ml_wrong", NOW)
        .unwrap_err();
    assert_eq!(err, AuthError::OtpInvalid);

    // The right token creates the principal and a session.
    let (user, session) = auth
        .verify_magic_link(&mut links, &link.token, NOW + 1)
        .unwrap();
    assert_eq!(user.email, "a@b.com");
    assert!(user.email_verified);
    assert_eq!(session.user_id, user.id);

    // The consumed token is dead, with the same error as a wrong one.
    let err = auth
        .verify_magic_link(&mut links, &link.token, NOW + 2)
        .unwrap_err();
    assert_eq!(err, AuthError::OtpInvalid);

    // A link for a known principal records its id.
    let link2 = auth.send_magic_link(&mut links, TENANT, "a@b.com", NOW + 3);
    assert_eq!(link2.user_id, Some(user.id));
}

#[test]
fn test_magic_link_store_cleanup() {
    let mut links = MagicLinkStore::new();
    links.create(MagicLink::new(1, None, "a@b.com".to_string(), "ml_old".to_string(), NOW - 1, NOW - 700));
    links.create(MagicLink::new(1, None, "a@b.com".to_string(), "ml_new".to_string(), NOW + 600, NOW));
    assert_eq!(links.cleanup_expired(NOW), 1);
    assert_eq!(links.links.len(), 1);
    assert_eq!(links.links[0].token, "ml_new");
}

#[test]
fn test_refresh_vanished_principal_is_user_not_found() {
    let mut auth = engine();
    let (user, session) = auth.signup(TENANT, "a@b.com", "Passw0rd!", None, NOW).unwrap();
    auth.user_repo.delete(user.id);

    let err = auth
        .refresh_token(&session.refresh_token, NOW + 1)
        .unwrap_err();
    assert_eq!(err, AuthError::UserNotFound);
}

#[test]
fn test_refresh_at_exact_expiry_instant_is_token_expired() {
    // A session is usable only strictly before its expiry instant.
    let mut auth = engine();
    let (_, session) = auth.signup(TENANT, "a@b.com", "Passw0rd!", None, NOW).unwrap();
    let err = auth
        .refresh_token(&session.refresh_token, NOW + 2592000)
        .unwrap_err();
    assert_eq!(err, AuthError::TokenExpired);
}
