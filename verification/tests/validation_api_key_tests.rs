use merco_auth::api_key::ApiKeyStore;
use merco_auth::error::AuthError;
use merco_auth::oauth::{OAuthProvider, OAuthService};
use merco_auth::single_use::{MagicLink, PasswordResetToken};
use merco_auth::sms::SmsService;
use merco_auth::validation::{validate_email, validate_password, validate_phone};

const NOW: i64 = 1_700_000_000;

#[test]
fn test_validate_email_rules() {
    assert!(validate_email("a@b.com", "email").is_ok());
    assert!(validate_email("a@b.", "email").is_ok());
    assert!(validate_email("abc", "email").is_err());
    assert!(validate_email("a@b", "email").is_err()); // too short
    let long = format!("{}@example.com", "x".repeat(250));
    assert!(validate_email(&long, "email").is_err());
    match validate_email("nodomain", "email").unwrap_err() {
        AuthError::InvalidInput(m) => assert_eq!(m, "invalid_email"),
        other => panic!("unexpected error {:?}", other),
    }
}

#[test]
fn test_validate_password_rules() {
    assert!(validate_password("Passw0rd!", "password").is_ok());
    match validate_password("ab1", "password").unwrap_err() {
        AuthError::InvalidInput(m) => assert_eq!(m, "password_too_short"),
        other => panic!("unexpected error {:?}", other),
    }
    let long = format!("a1{}", "x".repeat(130));
    match validate_password(&long, "password").unwrap_err() {
        AuthError::InvalidInput(m) => assert_eq!(m, "password_too_long"),
        other => panic!("unexpected error {:?}", other),
    }
    match validate_password("onlyletters", "password").unwrap_err() {
        AuthError::InvalidInput(m) => assert_eq!(m, "password_weak"),
        other => panic!("unexpected error {:?}", other),
    }
    match validate_password("12345678", "password").unwrap_err() {
        AuthError::InvalidInput(m) => assert_eq!(m, "password_weak"),
        other => panic!("unexpected error {:?}", other),
    }
}

#[test]
fn test_validate_phone_rules() {
    assert!(validate_phone("+14155550123", "phone").is_ok());
    assert!(validate_phone("+1 415 555-0123", "phone").is_ok());
    assert!(validate_phone("14155550123", "phone").is_err());
    assert!(validate_phone("+1", "phone").is_err());
    assert!(validate_phone("+1415555x123", "phone").is_err());
}

#[test]
fn test_create_api_key() {
    let mut store = ApiKeyStore::new();
    let (api_key, raw_key) = store.create("Test Key".to_string(), 7, NOW);

    assert!(raw_key.starts_with("mk_"));
    assert_eq!(api_key.name, "Test Key");
    assert_eq!(api_key.project_id, 7);
    assert!(api_key.is_active);
    assert_eq!(api_key.key_prefix.len(), 12);
    assert_eq!(api_key.key_prefix, raw_key[..12]);
    assert_ne!(api_key.key_hash, raw_key);
    assert_eq!(api_key.key_hash.len(), 64);
}

#[test]
fn test_find_by_key() {
    let mut store = ApiKeyStore::new();
    let (_, raw_key) = store.create("Test".to_string(), 7, NOW);

    let found = store.find_by_key(&raw_key);
    assert!(found.is_some());
    assert_eq!(found.unwrap().name, "Test");
    assert!(store.find_by_key("mk_wrongwrongwrongwrongwrongwrong").is_none());
}

#[test]
fn test_revoke_api_key() {
    let mut store = ApiKeyStore::new();
    let (api_key, raw_key) = store.create("Test".to_string(), 7, NOW);

    // Should find it before revoking
    assert!(store.find_by_key(&raw_key).is_some());

    store.revoke(api_key.id);

    // Should not find it after revoking
    assert!(store.find_by_key(&raw_key).is_none());
}

#[test]
fn test_list_by_project() {
    let mut store = ApiKeyStore::new();
    store.create("Key 1".to_string(), 7, NOW);
    store.create("Key 2".to_string(), 7, NOW + 1);
    store.create("Elsewhere".to_string(), 8, NOW + 2);

    let keys = store.list_by_project(7);
    assert_eq!(keys.len(), 2);
}

#[test]
fn test_verify_api_key_outcomes() {
    let mut store = ApiKeyStore::new();
    let (created, raw_key) = store.create("Test".to_string(), 7, NOW);

    assert!(store.verify_api_key(&raw_key, NOW).is_ok());
    assert_eq!(
        store.verify_api_key("mk_nope", NOW).unwrap_err(),
        AuthError::InvalidApiKey
    );

    // A key past its expiry is told apart from an unknown one.
    let mut expiring = store.find_by_key(&raw_key).unwrap();
    expiring.expires_at = Some(NOW + 10);
    store.keys[0] = expiring;
    assert!(store.verify_api_key(&raw_key, NOW + 5).is_ok());
    assert_eq!(
        store.verify_api_key(&raw_key, NOW + 11).unwrap_err(),
        AuthError::ApiKeyExpired
    );
    let _ = created;
}

#[test]
fn test_oauth_provider_urls() {
    let (auth, token) = OAuthService::get_provider_urls(&OAuthProvider::Google).unwrap();
    assert_eq!(auth, "https://accounts.google.com/o/oauth2/v2/auth");
    assert_eq!(token, "https://oauth2.googleapis.com/token");

    let (auth, token) =
        OAuthService::get_provider_urls(&OAuthProvider::CustomOidc("https://id.example".to_string()))
            .unwrap();
    assert_eq!(auth, "https://id.example/authorize");
    assert_eq!(token, "https://id.example/token");
}

#[test]
fn test_magic_link_consumable_once() {
    let mut link = MagicLink::new(
        7,
        None,
        "a@b.com".to_string(),
        "ml_token".to_string(),
        NOW + 600,
        NOW,
    );
    assert!(link.consumable("ml_token", NOW));
    assert!(!link.consumable("ml_other", NOW));
    assert!(!link.consumable("ml_token", NOW + 601));
    link.mark_used();
    assert!(!link.consumable("ml_token", NOW));
}

#[test]
fn test_password_reset_token_consumable_once() {
    let mut token = PasswordResetToken::new(42, "reset_token".to_string(), NOW + 3600, NOW);
    assert!(token.consumable("reset_token", NOW));
    assert!(!token.consumable("reset_token", NOW + 3601));
    token.mark_used();
    assert!(!token.consumable("reset_token", NOW));
}

#[test]
fn test_sms_otp_message() {
    let service = SmsService::new(merco_auth::config::Config {
        database_url: String::new(),
        jwt_secret: String::new(),
        jwt_expiry_seconds: 3600,
        refresh_token_expiry_seconds: 2592000,
        smtp_host: None,
        smtp_port: None,
        smtp_username: None,
        smtp_password: None,
        smtp_from: None,
        twilio_account_sid: None,
        twilio_auth_token: None,
        twilio_from: None,
        allowed_origins: vec![],
        rate_limit_per_minute: 60,
    });
    assert_eq!(
        service.otp_message("123456"),
        "Your verification code is: 123456. This code expires in 10 minutes."
    );
}

#[test]
fn test_error_codes_are_stable() {
    assert_eq!(AuthError::InvalidCredentials.code(), "invalid_credentials");
    assert_eq!(AuthError::UserExists.code(), "user_exists");
    assert_eq!(AuthError::TokenExpired.code(), "token_expired");
    assert_eq!(AuthError::InvalidToken.code(), "invalid_token");
    assert_eq!(AuthError::OtpInvalid.code(), "otp_invalid");
    assert_eq!(AuthError::RateLimitExceeded.code(), "rate_limit_exceeded");
    assert_eq!(AuthError::InvalidApiKey.code(), "invalid_api_key");
    assert_eq!(AuthError::ApiKeyExpired.code(), "api_key_expired");
}
