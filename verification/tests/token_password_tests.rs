use merco_auth::config::Config;
use merco_auth::token::{check_claims_expiry, Claims};
use merco_auth::error::AuthError;
use merco_auth::password::PasswordService;
use merco_auth::token::TokenService;

const NOW: i64 = 1_700_000_000;

fn test_config() -> Config {
    Config {
        database_url: "postgres://test".to_string(),
        jwt_secret: "test-secret-key-for-testing-purposes-only".to_string(),
        jwt_expiry_seconds: 3600,
        refresh_token_expiry_seconds: 2592000,
        smtp_host: None,
        smtp_port: None,
        smtp_username: None,
        smtp_password: None,
        smtp_from: None,
        twilio_account_sid: None,
        twilio_auth_token: None,
        twilio_from: None,
        allowed_origins: vec!["*".to_string()],
        rate_limit_per_minute: 60,
    }
}

#[test]
fn test_generate_and_verify_token() {
    let service = TokenService::new(test_config());
    let user_id: u128 = 316912650057057350374175801344;
    let project_id: u128 = 12345678901234567890;
    // Decoding checks the exp claim against the real clock, so mint now.
    let now = merco_auth::crypto::now_seconds();

    let access_token = service
        .generate_access_token(user_id, project_id, vec![], vec![], now)
        .unwrap();

    let claims = service.verify_access_token(&access_token.token, now).unwrap();
    assert_eq!(claims.sub, user_id.to_string());
    assert_eq!(claims.project_id, project_id.to_string());
}

#[test]
fn test_refresh_token_format() {
    let service = TokenService::new(test_config());
    let refresh_token = service.generate_refresh_token();

    assert!(refresh_token.token.starts_with("rt_"));
    assert!(service.verify_refresh_token(&refresh_token.token).is_ok());
}

#[test]
fn test_verify_refresh_token_rejects_bad_shapes() {
    let service = TokenService::new(test_config());
    assert_eq!(service.verify_refresh_token("rt_short").unwrap_err(), AuthError::InvalidToken);
    assert_eq!(
        service.verify_refresh_token("xx_0123456789abcdef").unwrap_err(),
        AuthError::InvalidToken
    );
}

#[test]
fn test_access_token_round_trips_claims() {
    let service = TokenService::new(test_config());
    let now = merco_auth::crypto::now_seconds();
    let token = service
        .generate_access_token(
            1,
            2,
            vec!["admin".to_string()],
            vec!["posts:read".to_string()],
            now,
        )
        .unwrap();
    // A JWT is three dot-separated segments; the claims decode back.
    assert_eq!(token.token.split('.').count(), 3);
    let claims = service.verify_access_token(&token.token, now).unwrap();
    assert_eq!(claims.roles, vec!["admin".to_string()]);
    assert_eq!(claims.permissions, vec!["posts:read".to_string()]);
    assert_eq!(claims.iat, now);
    assert_eq!(claims.exp, now + 3600);
}

#[test]
fn test_verify_access_token_rejects_garbage_and_wrong_key() {
    let service = TokenService::new(test_config());
    assert_eq!(
        service.verify_access_token("garbage", NOW).unwrap_err(),
        AuthError::InvalidToken
    );

    let mut other = test_config();
    other.jwt_secret = "another-secret-entirely".to_string();
    let other_service = TokenService::new(other);
    let now = merco_auth::crypto::now_seconds();
    let token = other_service
        .generate_access_token(1, 2, vec![], vec![], now)
        .unwrap();
    assert_eq!(
        service.verify_access_token(&token.token, now).unwrap_err(),
        AuthError::InvalidToken
    );
}

#[test]
fn test_access_token_expiry_is_checked() {
    let service = TokenService::new(test_config());
    let now = merco_auth::crypto::now_seconds();
    let token = service
        .generate_access_token(1, 2, vec![], vec![], now)
        .unwrap();
    let err = service
        .verify_access_token(&token.token, now + 3600)
        .unwrap_err();
    assert_eq!(err, AuthError::TokenExpired);
}

#[test]
fn test_password_hashing() {
    let password = "test_password_123";
    let hash = PasswordService::hash_password(password).unwrap();
    assert!(PasswordService::verify_password(password, &hash).unwrap());
}

#[test]
fn test_hash_and_verify() {
    let password = "test_password_123";
    let hash = PasswordService::hash_password(password).unwrap();

    assert!(PasswordService::verify_password(password, &hash).unwrap());
    assert!(!PasswordService::verify_password("wrong_password", &hash).unwrap());
}

#[test]
fn test_different_hashes() {
    let password = "test_password_123";
    let hash1 = PasswordService::hash_password(password).unwrap();
    let hash2 = PasswordService::hash_password(password).unwrap();

    // Same password should produce different hashes (due to random salt)
    assert_ne!(hash1, hash2);

    // But both should verify correctly
    assert!(PasswordService::verify_password(password, &hash1).unwrap());
    assert!(PasswordService::verify_password(password, &hash2).unwrap());
}

#[test]
fn test_verify_password_rejects_malformed_hash() {
    let err = PasswordService::verify_password("pw", "not-a-phc-hash").unwrap_err();
    assert!(matches!(err, AuthError::InvalidInput(_)));
}

#[test]
fn test_check_claims_expiry_gate() {
    let claims = Claims {
        sub: "1".to_string(),
        project_id: "2".to_string(),
        roles: vec![],
        permissions: vec![],
        exp: NOW + 10,
        iat: NOW,
    };
    let passed = check_claims_expiry(claims.clone(), NOW + 9).unwrap();
    assert_eq!(passed.sub, "1");
    assert_eq!(
        check_claims_expiry(claims.clone(), NOW + 10).unwrap_err(),
        AuthError::TokenExpired
    );
    assert_eq!(
        check_claims_expiry(claims, NOW + 11).unwrap_err(),
        AuthError::TokenExpired
    );
}

#[test]
fn test_token_missing_claims_is_invalid() {
    // A well-signed token without the expected claim set is refused.
    let service = TokenService::new(test_config());
    let now = merco_auth::crypto::now_seconds();
    let mut claims = serde_json::Map::new();
    claims.insert("exp".to_string(), serde_json::Value::from(now + 3600));
    claims.insert("iat".to_string(), serde_json::Value::from(now));
    let token = jsonwebtoken::encode(
        &jsonwebtoken::Header::default(),
        &claims,
        &jsonwebtoken::EncodingKey::from_secret(test_config().jwt_secret.as_bytes()),
    )
    .unwrap();
    assert_eq!(
        service.verify_access_token(&token, now).unwrap_err(),
        AuthError::InvalidToken
    );
}
