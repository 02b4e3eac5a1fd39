use merco_auth::error::AuthError;
use merco_auth::session::Session;
use merco_auth::store::{SessionStore, UserStore};
use merco_auth::user::User;

const NOW: i64 = 1_700_000_000;

fn session(id: &str, rt: &str) -> Session {
    Session::new(
        id.to_string(),
        42,
        7,
        "access".to_string(),
        rt.to_string(),
        NOW + 3600,
        None,
        None,
        NOW,
    )
}

#[test]
fn test_user_store_rejects_duplicate_id() {
    let mut store = UserStore::new();
    let user = User::new(7, "a@b.com".to_string(), NOW);
    store.create(&user).unwrap();
    let err = store.create(&user).unwrap_err();
    assert_eq!(err, AuthError::Database);
}

#[test]
fn test_user_store_find_by_email_is_case_insensitive() {
    let mut store = UserStore::new();
    let user = User::new(7, "MiXeD@Case.Com".to_string(), NOW);
    store.create(&user).unwrap();
    let found = store.find_by_email(7, "mixed@case.COM").unwrap();
    assert_eq!(found.id, user.id);
    assert!(store.find_by_email(8, "mixed@case.com").is_none());
}

#[test]
fn test_user_store_update_unknown_id_fails() {
    let mut store = UserStore::new();
    let user = User::new(7, "a@b.com".to_string(), NOW);
    assert_eq!(store.update(&user).unwrap_err(), AuthError::Database);
}

#[test]
fn test_session_store_enforces_unique_tokens() {
    let mut store = SessionStore::new();
    store.create(&session("sess_one", "rt_one")).unwrap();

    let dup_id = store.create(&session("sess_one", "rt_two")).unwrap_err();
    assert_eq!(dup_id, AuthError::Database);

    let dup_rt = store.create(&session("sess_two", "rt_one")).unwrap_err();
    assert_eq!(dup_rt, AuthError::Database);

    store.create(&session("sess_two", "rt_two")).unwrap();
    assert!(store.find_by_refresh_token("rt_two").is_some());
    assert!(store.find_by_id("sess_two").is_some());
    assert!(store.find_by_refresh_token("rt_three").is_none());
}

#[test]
fn test_session_store_update_rejects_stolen_token() {
    let mut store = SessionStore::new();
    store.create(&session("sess_one", "rt_one")).unwrap();
    store.create(&session("sess_two", "rt_two")).unwrap();

    // Rotating sess_two onto sess_one's token violates uniqueness.
    let clash = session("sess_two", "rt_one");
    assert_eq!(store.update(&clash).unwrap_err(), AuthError::Database);

    // A fresh token value is accepted.
    let rotated = session("sess_two", "rt_fresh");
    let updated = store.update(&rotated).unwrap();
    assert_eq!(updated.refresh_token, "rt_fresh");
    assert!(store.find_by_refresh_token("rt_two").is_none());
}

#[test]
fn test_user_store_find_by_phone_and_delete() {
    let mut store = UserStore::new();
    let mut user = User::new(7, "a@b.com".to_string(), NOW);
    user.phone = Some("+14155550123".to_string());
    store.create(&user).unwrap();

    let found = store.find_by_phone(7, "+14155550123").unwrap();
    assert_eq!(found.id, user.id);
    assert!(store.find_by_phone(7, "+10000000000").is_none());
    assert!(store.find_by_phone(8, "+14155550123").is_none());

    store.delete(user.id);
    assert!(store.find_by_id(user.id).is_none());
    // Deleting again is a no-op.
    store.delete(user.id);
}

#[test]
fn test_session_store_revoke_all_for_principal() {
    let mut store = SessionStore::new();
    store.create(&session("sess_one", "rt_one")).unwrap();
    store.create(&session("sess_two", "rt_two")).unwrap();
    let mut other = session("sess_three", "rt_three");
    other.user_id = 99;
    store.create(&other).unwrap();

    store.revoke_all_for_principal(42);

    assert!(store.find_by_id("sess_one").unwrap().revoked);
    assert!(store.find_by_id("sess_two").unwrap().revoked);
    assert!(!store.find_by_id("sess_three").unwrap().revoked);

    // The active-session listing is empty for the revoked principal.
    assert!(store.find_by_user_id(42).is_empty());
    assert_eq!(store.find_by_user_id(99).len(), 1);
}

#[test]
fn test_sweep_boundary_and_count() {
    let mut store = SessionStore::new();
    assert_eq!(store.revoke_expired(NOW), 0);

    let mut at_instant = session("sess_one", "rt_one");
    at_instant.expires_at = NOW;
    let mut later = session("sess_two", "rt_two");
    later.expires_at = NOW + 1;
    store.create(&at_instant).unwrap();
    store.create(&later).unwrap();

    // The sweep takes only rows strictly past expiry; the row at its
    // exact instant is left for the read-time check and the next sweep.
    assert_eq!(store.revoke_expired(NOW), 0);
    assert_eq!(store.revoke_expired(NOW + 1), 1);
    assert!(store.find_by_id("sess_one").unwrap().revoked);
    assert!(!store.find_by_id("sess_two").unwrap().revoked);
}

#[test]
fn test_user_store_rejects_duplicate_email_per_tenant() {
    let mut store = UserStore::new();
    let first = User::new(7, "a@b.com".to_string(), NOW);
    store.create(&first).unwrap();

    // A second principal with the same (tenant, email) pair is refused
    // atomically by the store, whatever its id.
    let clash = User::new(7, "a@b.com".to_string(), NOW + 1);
    assert_eq!(store.create(&clash).unwrap_err(), AuthError::Database);

    // The same email in another tenant is free.
    let elsewhere = User::new(8, "a@b.com".to_string(), NOW + 2);
    store.create(&elsewhere).unwrap();

    // An update may not move a principal onto a taken pair either.
    let mut moved = store.find_by_id(elsewhere.id).unwrap();
    moved.project_id = 7;
    assert_eq!(store.update(&moved).unwrap_err(), AuthError::Database);
}
