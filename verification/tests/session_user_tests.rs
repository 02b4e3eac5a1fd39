use merco_auth::session::Session;
use merco_auth::user::User;

const NOW: i64 = 1_700_000_000;

fn make_session(expires_at: i64, ip: Option<String>, agent: Option<String>) -> Session {
    Session::new(
        "sess_123".to_string(),
        42,
        7,
        "access_token".to_string(),
        "refresh_token".to_string(),
        expires_at,
        ip,
        agent,
        NOW,
    )
}

#[test]
fn test_session_creation() {
    let session = make_session(
        NOW + 3600,
        Some("127.0.0.1".to_string()),
        Some("Mozilla/5.0".to_string()),
    );

    assert_eq!(session.user_id, 42);
    assert!(!session.is_expired(NOW));
    assert!(!session.revoked);
}

#[test]
fn test_session_expired() {
    let session = make_session(NOW - 3600, None, None);

    assert!(session.is_expired(NOW));
}

#[test]
fn test_session_revoke() {
    let mut session = make_session(NOW + 3600, None, None);

    assert!(!session.revoked);
    session.revoke();
    assert!(session.revoked);
    assert!(session.is_expired(NOW));
}

#[test]
fn test_user_creation() {
    let user = User::new(7, "test@example.com".to_string(), NOW);

    assert_eq!(user.email, "test@example.com");
    assert!(!user.email_verified);
    assert!(!user.banned);
}

#[test]
fn test_email_lowercase() {
    let user = User::new(7, "Test@Example.COM".to_string(), NOW);

    assert_eq!(user.email, "test@example.com");
}

#[test]
fn test_verify_email() {
    let mut user = User::new(7, "test@example.com".to_string(), NOW);

    assert!(!user.email_verified);
    user.verify_email(NOW);
    assert!(user.email_verified);
}

#[test]
fn test_user_ban_unban() {
    let mut user = User::new(7, "test@example.com".to_string(), NOW);
    user.ban(NOW + 1);
    assert!(user.banned);
    user.unban(NOW + 2);
    assert!(!user.banned);
}

#[test]
fn test_user_fresh_ids_differ() {
    let a = User::new(7, "a@example.com".to_string(), NOW);
    let b = User::new(7, "b@example.com".to_string(), NOW);
    assert_ne!(a.id, b.id);
}

#[test]
fn test_session_expired_at_exact_instant() {
    // Implicitly expired as soon as the clock reaches expires_at.
    let session = make_session(NOW + 3600, None, None);
    assert!(!session.is_expired(NOW + 3599));
    assert!(session.is_expired(NOW + 3600));
    assert!(session.is_expired(NOW + 3601));
}
