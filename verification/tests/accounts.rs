use user_sessions::accounts::{authorize_account, change_password, delete_account};
use user_sessions::credentials::CredentialStore;
use user_sessions::error::AuthError;
use user_sessions::manager::SessionManager;
use user_sessions::store::SessionStore;
use user_sessions::token::TokenCodec;

fn manager() -> SessionManager {
    SessionManager::new(TokenCodec::new((0u8..64).collect()).unwrap(), 3_600)
}

fn users() -> CredentialStore {
    let mut users = CredentialStore::new();
    users.create_user(1, "alice", b"alice-digest", false, 0).unwrap();
    users.create_user(2, "bob", b"bob-digest", false, 0).unwrap();
    users
}

#[test]
fn account_is_open_to_its_owner_and_to_elevated_users() {
    assert_eq!(authorize_account(1, false, 1), Ok(()));
    assert_eq!(authorize_account(1, true, 1), Ok(()));
    assert_eq!(authorize_account(1, true, 2), Ok(()));
    assert_eq!(authorize_account(1, false, 2), Err(AuthError::Forbidden));
}

#[test]
fn new_password_logs_out_everywhere() {
    let mut users = users();
    let mut store = SessionStore::new();
    let m = manager();
    let a1 = m.login(&mut store, &users, "alice", b"alice-digest", 11, 1_000).unwrap();
    let a2 = m.login(&mut store, &users, "alice", b"alice-digest", 12, 1_000).unwrap();
    let b1 = m.login(&mut store, &users, "bob", b"bob-digest", 13, 1_000).unwrap();
    assert_eq!(change_password(&mut users, &mut store, 1, b"new-digest", 2_000), Ok(()));
    assert_eq!(m.authenticate(&store, &a1, 2_000), Err(AuthError::Unauthorized));
    assert_eq!(m.authenticate(&store, &a2, 2_000), Err(AuthError::Unauthorized));
    assert_eq!(m.authenticate(&store, &b1, 2_000), Ok(2));
    let alice = users.find_by_id(1).unwrap();
    assert_eq!(alice.password_digest, b"new-digest".to_vec());
    assert_eq!(alice.updated_at, 2_000);
    assert_eq!(alice.created_at, 0);
    assert_eq!(
        m.login(&mut store, &users, "alice", b"alice-digest", 14, 2_000),
        Err(AuthError::InvalidCredentials)
    );
    let fresh = m.login(&mut store, &users, "alice", b"new-digest", 14, 2_000).unwrap();
    assert_eq!(m.authenticate(&store, &fresh, 2_000), Ok(1));
}

#[test]
fn new_password_for_nobody_changes_nothing() {
    let mut users = users();
    let mut store = SessionStore::new();
    let m = manager();
    let a1 = m.login(&mut store, &users, "alice", b"alice-digest", 11, 1_000).unwrap();
    assert_eq!(change_password(&mut users, &mut store, 9, b"x", 2_000), Err(AuthError::NotFound));
    assert_eq!(m.authenticate(&store, &a1, 2_000), Ok(1));
    assert_eq!(users.len(), 2);
}

#[test]
fn deleted_account_has_no_valid_session() {
    let mut users = users();
    let mut store = SessionStore::new();
    let m = manager();
    let a1 = m.login(&mut store, &users, "alice", b"alice-digest", 11, 1_000).unwrap();
    let b1 = m.login(&mut store, &users, "bob", b"bob-digest", 13, 1_000).unwrap();
    assert_eq!(delete_account(&mut users, &mut store, 1), Ok(()));
    assert_eq!(users.find_by_username("alice"), Err(AuthError::NotFound));
    assert_eq!(m.authenticate(&store, &a1, 2_000), Err(AuthError::Unauthorized));
    assert_eq!(m.authenticate(&store, &b1, 2_000), Ok(2));
    assert_eq!(store.len(), 2);
    assert!(store.find_by_id(11).unwrap().revoked);
    assert_eq!(delete_account(&mut users, &mut store, 1), Err(AuthError::NotFound));
    assert_eq!(
        m.login(&mut store, &users, "alice", b"alice-digest", 14, 2_000),
        Err(AuthError::InvalidCredentials)
    );
}
