use merco_auth::crypto;
use merco_auth::email::EmailService;
use merco_auth::error::AuthError;
use merco_auth::password::PasswordService;
use merco_auth::token::parse_bearer;
use merco_auth::rate_limit::{derive_rate_limit_key, RateLimitMiddleware};
use merco_auth::strutil::{lowercase, u128_to_dec};

const NOW: i64 = 1_700_000_000;

#[test]
fn test_rate_limiter_admits_exactly_max_per_window() {
    let mut limiter = RateLimitMiddleware::new(3, 60);

    // Exactly max_requests admissions succeed within one window.
    for i in 0..3 {
        assert!(limiter.check_and_increment("ip:1.2.3.4", NOW + i).is_ok());
    }
    // The next attempt in the same window fails.
    let err = limiter.check_and_increment("ip:1.2.3.4", NOW + 3).unwrap_err();
    assert_eq!(err, AuthError::RateLimitExceeded);
    let err = limiter.check_and_increment("ip:1.2.3.4", NOW + 4).unwrap_err();
    assert_eq!(err, AuthError::RateLimitExceeded);

    // After the window elapses, the counter resets and admission resumes.
    assert!(limiter.check_and_increment("ip:1.2.3.4", NOW + 61).is_ok());
}

#[test]
fn test_rate_limiter_keys_are_independent() {
    let mut limiter = RateLimitMiddleware::new(1, 60);
    assert!(limiter.check_and_increment("ip:1.1.1.1", NOW).is_ok());
    assert!(limiter.check_and_increment("ip:2.2.2.2", NOW).is_ok());
    assert!(limiter.check_and_increment("ip:1.1.1.1", NOW + 1).is_err());
}

#[test]
fn test_derive_rate_limit_key() {
    assert_eq!(derive_rate_limit_key(Some("mk_abc"), None), "api_key:mk_abc");
    assert_eq!(
        derive_rate_limit_key(Some("mk_abc"), Some("9.9.9.9")),
        "api_key:mk_abc"
    );
    assert_eq!(
        derive_rate_limit_key(None, Some("1.2.3.4, 5.6.7.8")),
        "ip:1.2.3.4"
    );
    assert_eq!(derive_rate_limit_key(None, Some("1.2.3.4")), "ip:1.2.3.4");
    assert_eq!(derive_rate_limit_key(None, None), "unknown");
}

#[test]
fn test_generated_token_shapes() {
    let sess = crypto::generate_session_id();
    assert!(sess.starts_with("sess_"));
    assert_eq!(sess.len(), 37);

    let rt = crypto::generate_refresh_token();
    assert!(rt.starts_with("rt_"));
    assert_eq!(rt.len(), 67);

    let ml = crypto::generate_magic_link_token();
    assert!(ml.starts_with("ml_"));
    assert_eq!(ml.len(), 51);

    let reset = crypto::generate_reset_token();
    assert!(reset.starts_with("reset_"));
    assert_eq!(reset.len(), 54);

    let key = crypto::generate_api_key();
    assert!(key.starts_with("mk_"));
    assert_eq!(key.len(), 35);

    let token = crypto::generate_random_token(16);
    assert_eq!(token.len(), 16);
    assert!(token.chars().all(|c| c.is_ascii_alphanumeric()));
}

#[test]
fn test_two_generated_tokens_differ() {
    assert_ne!(crypto::generate_refresh_token(), crypto::generate_refresh_token());
}

#[test]
fn test_hash_api_key_is_sha256_hex() {
    // SHA-256("abc"), the classic test vector.
    assert_eq!(
        crypto::hash_api_key("abc"),
        "ba7816bf8f01cfea414140de5dae2223b00361a396177a9cb410ff61f20015ad"
    );
}

#[test]
fn test_lowercase_wrapper() {
    assert_eq!(lowercase("MiXeD@CasE.Com"), "mixed@case.com");
    assert_eq!(lowercase(""), "");
}

#[test]
fn test_u128_to_dec() {
    assert_eq!(u128_to_dec(0), "0");
    assert_eq!(u128_to_dec(12345), "12345");
    assert_eq!(
        u128_to_dec(u128::MAX),
        "340282366920938463463374607431768211455"
    );
}

#[test]
fn test_now_seconds_is_sane() {
    // Past 2020, well before the engine's overflow horizon.
    let now = crypto::now_seconds();
    assert!(now > 1_577_836_800);
    assert!(now < 0x4000_0000_0000);
}

#[test]
fn test_parse_bearer() {
    assert_eq!(parse_bearer("Bearer abc.def.ghi"), Some("abc.def.ghi"));
    assert_eq!(parse_bearer("Bearer "), Some(""));
    assert_eq!(parse_bearer("bearer abc"), None);
    assert_eq!(parse_bearer("Basic abc"), None);
    assert_eq!(parse_bearer(""), None);
}

#[test]
fn test_email_bodies() {
    let (subject, body) = EmailService::magic_link_email("ml_tok");
    assert_eq!(subject, "Sign in to your account");
    assert!(body.contains("https://auth.merco.dev/magic-link/verify?token=ml_tok"));

    let (subject, body) = EmailService::otp_email("123456");
    assert_eq!(subject, "Your verification code");
    assert!(body.contains("123456"));

    let (subject, body) = EmailService::password_reset_email("reset_tok");
    assert_eq!(subject, "Reset your password");
    assert!(body.contains("https://auth.merco.dev/password/reset?token=reset_tok"));
}

#[test]
fn test_password_round_trip_law() {
    assert_eq!(PasswordService::round_trip_verifies("Passw0rd!"), Some(true));
}
