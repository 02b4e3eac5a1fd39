use merco_auth::error::AuthError;
use merco_auth::mfa::{bytes_to_hex, hex_to_bytes, MfaService};
use merco_auth::single_use::{PasswordResetStore, PasswordResetToken};
use merco_auth::single_use::{OtpCode, OtpService, OtpStore};

const NOW: i64 = 1_700_000_000;

#[test]
fn test_otp_code_format() {
    let code = OtpService::generate_code();
    assert_eq!(code.len(), 6);
    assert!(code.chars().all(|c| c.is_ascii_digit()));
}

#[test]
fn test_otp_expiry() {
    let expires_at = OtpService::generate_expiry(NOW);
    assert!(expires_at > NOW);

    // Should not be expired immediately
    assert!(!OtpService::is_expired(expires_at, NOW));
}

#[test]
fn test_otp_verification() {
    let code = "123456";
    let expires_at = NOW + 600;

    assert!(OtpService::verify_code(code, code, expires_at, NOW).is_ok());
    assert!(OtpService::verify_code("wrong", code, expires_at, NOW).is_err());
}

#[test]
fn test_otp_expired_and_wrong_are_indistinguishable() {
    let wrong = OtpService::verify_code("000000", "123456", NOW + 600, NOW).unwrap_err();
    let expired = OtpService::verify_code("123456", "123456", NOW - 1, NOW).unwrap_err();
    assert_eq!(wrong, AuthError::OtpInvalid);
    assert_eq!(expired, AuthError::OtpInvalid);
}

fn sample_code(code: &str, expires_at: i64) -> OtpCode {
    OtpCode::new(
        7,
        "a@b.com".to_string(),
        code.to_string(),
        "email".to_string(),
        expires_at,
        NOW,
    )
}

#[test]
fn test_otp_store_consume_once() {
    let mut store = OtpStore::new();
    store.create(sample_code("123456", NOW + 600));

    let first = store.consume(7, "a@b.com", "123456", NOW);
    assert!(first.is_ok());

    // The same code a second time is refused with the same error as a
    // wrong value.
    let second = store.consume(7, "a@b.com", "123456", NOW).unwrap_err();
    let wrong = store.consume(7, "a@b.com", "999999", NOW).unwrap_err();
    assert_eq!(second, AuthError::OtpInvalid);
    assert_eq!(wrong, AuthError::OtpInvalid);
}

#[test]
fn test_otp_store_expired_code_rejected() {
    let mut store = OtpStore::new();
    store.create(sample_code("123456", NOW - 1));
    let err = store.consume(7, "a@b.com", "123456", NOW).unwrap_err();
    assert_eq!(err, AuthError::OtpInvalid);
}

#[test]
fn test_otp_store_cleanup_expired() {
    let mut store = OtpStore::new();
    store.create(sample_code("111111", NOW - 10));
    store.create(sample_code("222222", NOW + 600));
    let removed = store.cleanup_expired(NOW);
    assert_eq!(removed, 1);
    assert_eq!(store.codes.len(), 1);
    assert_eq!(store.codes[0].code, "222222");
}

#[test]
fn test_secret_generation() {
    let secret = MfaService::generate_secret();
    assert!(!secret.is_empty());
}

#[test]
fn test_backup_codes() {
    let codes = MfaService::generate_backup_codes(10);
    assert_eq!(codes.len(), 10);
    assert!(codes.iter().all(|c| c.len() == 8));
}

#[test]
fn test_hex_round_trip() {
    let bytes = vec![0xbeu8, 0xef, 0x00, 0x1a];
    let hex = bytes_to_hex(&bytes);
    assert_eq!(hex, "beef001a");
    assert_eq!(hex_to_bytes(&hex), bytes);
    // A trailing odd character is ignored, invalid pairs are skipped.
    assert_eq!(hex_to_bytes("beefx"), vec![0xbeu8, 0xef]);
    assert_eq!(hex_to_bytes("zzbe"), vec![0xbeu8]);
}

#[test]
fn test_generate_qr_code_shape() {
    let secret = MfaService::generate_secret();
    let url = MfaService::generate_qr_code(&secret, "user@example.com").unwrap();
    assert!(url.starts_with("otpauth://totp/"));
    assert!(url.contains("Merco%20Auth"));
}

#[test]
fn test_generate_qr_code_rejects_short_secret() {
    let err = MfaService::generate_qr_code("beef", "user@example.com").unwrap_err();
    assert_eq!(err, AuthError::Internal);
}

#[test]
fn test_verify_totp_round_trip() {
    let secret = MfaService::generate_secret();
    // The current code is six digits; a wrong six-digit guess almost
    // surely fails, and a malformed secret is an internal error.
    let result = MfaService::verify_totp(&secret, "not-a-code").unwrap();
    assert!(!result);
    assert!(MfaService::verify_totp("beef", "123456").is_err());
}

#[test]
fn test_otp_code_rejected_at_exact_expiry_instant() {
    // A code is valid only strictly before its expiry instant.
    assert!(OtpService::verify_code("123456", "123456", NOW + 600, NOW + 599).is_ok());
    assert!(OtpService::verify_code("123456", "123456", NOW + 600, NOW + 600).is_err());
    assert!(OtpService::is_expired(NOW + 600, NOW + 600));
    assert!(!OtpService::is_expired(NOW + 600, NOW + 599));
}

#[test]
fn test_otp_store_consumes_newest_matching_code() {
    // When the same code value is outstanding twice, the newest row wins.
    let mut store = OtpStore::new();
    let older = OtpCode::new(
        7,
        "a@b.com".to_string(),
        "123456".to_string(),
        "email".to_string(),
        NOW + 600,
        NOW - 100,
    );
    let newer = OtpCode::new(
        7,
        "a@b.com".to_string(),
        "123456".to_string(),
        "email".to_string(),
        NOW + 600,
        NOW,
    );
    let older_id = older.id;
    let newer_id = newer.id;
    store.create(older);
    store.create(newer);

    let consumed = store.consume(7, "a@b.com", "123456", NOW + 1).unwrap();
    assert_eq!(consumed.id, newer_id);

    // The older row is still there and consumable next.
    let consumed = store.consume(7, "a@b.com", "123456", NOW + 2).unwrap();
    assert_eq!(consumed.id, older_id);
}

#[test]
fn test_otp_code_has_no_leading_zero() {
    for _ in 0..32 {
        let code = OtpService::generate_code();
        assert_ne!(code.as_bytes()[0], b'0');
    }
}

#[test]
fn test_password_reset_store_consume_once() {
    let mut store = PasswordResetStore::new();
    store.create(PasswordResetToken::new(42, "reset_tok".to_string(), NOW + 3600, NOW));

    let consumed = store.consume("reset_tok", NOW + 1).unwrap();
    assert_eq!(consumed.user_id, 42);

    // Used, wrong and expired are one indistinguishable error.
    assert_eq!(store.consume("reset_tok", NOW + 2).unwrap_err(), AuthError::OtpInvalid);
    assert_eq!(store.consume("reset_other", NOW + 2).unwrap_err(), AuthError::OtpInvalid);

    store.create(PasswordResetToken::new(42, "reset_old".to_string(), NOW - 1, NOW - 700));
    assert_eq!(store.consume("reset_old", NOW).unwrap_err(), AuthError::OtpInvalid);
    assert_eq!(store.cleanup_expired(NOW), 1);
    assert_eq!(store.tokens.len(), 1);
}

#[test]
fn test_verify_totp_accepts_window_code() {
    // A code computed from the same secret for the current step is
    // accepted; the one-step tolerance window covers a step boundary
    // crossed between computing and checking.
    let secret = MfaService::generate_secret();
    let bytes = hex_to_bytes(&secret);
    let totp = totp_rs::TOTP::new(
        totp_rs::Algorithm::SHA1,
        6,
        1,
        30,
        bytes,
        None,
        String::new(),
    )
    .unwrap();
    let code = totp.generate_current().unwrap();
    assert_eq!(MfaService::verify_totp(&secret, &code), Ok(true));
}
