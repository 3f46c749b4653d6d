use user_sessions::credentials::CredentialStore;
use user_sessions::error::AuthError;
use user_sessions::manager::{may_revoke, Rotation, SessionManager};
use user_sessions::session::Session;
use user_sessions::store::SessionStore;
use user_sessions::token::TokenCodec;

const LIFETIME: u64 = 3_600;

fn manager() -> SessionManager {
    SessionManager::new(TokenCodec::new((0u8..64).collect()).unwrap(), LIFETIME)
}

fn stranger() -> SessionManager {
    SessionManager::new(TokenCodec::new((100u8..164).collect()).unwrap(), LIFETIME)
}

fn users() -> CredentialStore {
    let mut users = CredentialStore::new();
    users.create_user(1, "alice", b"alice-digest", false, 0).unwrap();
    users.create_user(2, "bob", b"bob-digest", false, 0).unwrap();
    users.create_user(3, "root", b"root-digest", true, 0).unwrap();
    users
}

fn logged_in(store: &mut SessionStore, name: &str, digest: &[u8], id: u64, now: u64) -> String {
    manager().login(store, &users(), name, digest, id, now).unwrap()
}

#[test]
fn login_records_a_session_and_hands_out_its_token() {
    let mut store = SessionStore::new();
    let token = manager().login(&mut store, &users(), "alice", b"alice-digest", 11, 1_000).unwrap();
    let codec = TokenCodec::new((0u8..64).collect()).unwrap();
    assert_eq!(token, codec.issue(11, 4_600));
    assert_eq!(
        store.find_by_id(11),
        Ok(Session {
            id: 11,
            user_id: 1,
            issued_at: 1_000,
            expires_at: 4_600,
            revoked: false,
            predecessor: None,
        })
    );
    assert_eq!(store.len(), 1);
}

#[test]
fn unknown_user_and_wrong_password_are_the_same_error() {
    let mut store = SessionStore::new();
    let m = manager();
    let unknown = m.login(&mut store, &users(), "mallory", b"alice-digest", 11, 1_000);
    assert_eq!(unknown, Err(AuthError::InvalidCredentials));
    assert_eq!(unknown.unwrap_err().status_code(), 401);
    assert_eq!(
        m.login(&mut store, &users(), "alice", b"bob-digest", 11, 1_000),
        Err(AuthError::InvalidCredentials)
    );
    assert_eq!(
        m.login(&mut store, &users(), "alice", b"", 11, 1_000),
        Err(AuthError::InvalidCredentials)
    );
    assert_eq!(store.len(), 0);
}

#[test]
fn login_with_a_taken_session_identifier_is_internal() {
    let mut store = SessionStore::new();
    logged_in(&mut store, "alice", b"alice-digest", 11, 1_000);
    assert_eq!(
        manager().login(&mut store, &users(), "bob", b"bob-digest", 11, 1_000),
        Err(AuthError::Internal)
    );
    assert_eq!(store.len(), 1);
    assert_eq!(store.find_by_id(11).unwrap().user_id, 1);
}

#[test]
fn login_beyond_the_range_of_the_clock_is_internal() {
    let mut store = SessionStore::new();
    let m = manager();
    assert_eq!(
        m.login(&mut store, &users(), "alice", b"alice-digest", 11, u64::MAX - LIFETIME + 1),
        Err(AuthError::Internal)
    );
    assert_eq!(store.len(), 0);
    assert!(m.login(&mut store, &users(), "alice", b"alice-digest", 11, u64::MAX - LIFETIME).is_ok());
    assert_eq!(store.find_by_id(11).unwrap().expires_at, u64::MAX);
}

#[test]
fn guard_answers_the_owner_of_a_valid_session() {
    let mut store = SessionStore::new();
    let alice = logged_in(&mut store, "alice", b"alice-digest", 11, 1_000);
    let bob = logged_in(&mut store, "bob", b"bob-digest", 12, 1_000);
    let m = manager();
    assert_eq!(m.authenticate(&store, &alice, 1_000), Ok(1));
    assert_eq!(m.authenticate(&store, &alice, 4_599), Ok(1));
    assert_eq!(m.authenticate(&store, &bob, 2_000), Ok(2));
}

#[test]
fn guard_turns_down_expired_and_revoked_sessions() {
    let mut store = SessionStore::new();
    let alice = logged_in(&mut store, "alice", b"alice-digest", 11, 1_000);
    let bob = logged_in(&mut store, "bob", b"bob-digest", 12, 1_000);
    let m = manager();
    assert_eq!(m.authenticate(&store, &alice, 4_600), Err(AuthError::Unauthorized));
    assert_eq!(m.authenticate(&store, &alice, u64::MAX), Err(AuthError::Unauthorized));
    store.revoke(12).unwrap();
    assert_eq!(m.authenticate(&store, &bob, 1_000), Err(AuthError::Unauthorized));
    assert_eq!(m.authenticate(&store, &alice, 1_000), Ok(1));
}

#[test]
fn guard_says_unauthorized_whatever_failed() {
    let mut store = SessionStore::new();
    let alice = logged_in(&mut store, "alice", b"alice-digest", 11, 1_000);
    let m = manager();
    assert_eq!(m.authenticate(&store, "", 1_000), Err(AuthError::Unauthorized));
    assert_eq!(m.authenticate(&store, "garbage", 1_000), Err(AuthError::Unauthorized));
    assert_eq!(stranger().authenticate(&store, &alice, 1_000), Err(AuthError::Unauthorized));
    let empty = SessionStore::new();
    assert_eq!(m.authenticate(&empty, &alice, 1_000), Err(AuthError::Unauthorized));
}

#[test]
fn guard_goes_by_the_ledger_not_by_the_token_alone() {
    let codec = TokenCodec::new((0u8..64).collect()).unwrap();
    let mut store = SessionStore::new();
    store
        .create(Session {
            id: 11,
            user_id: 1,
            issued_at: 0,
            expires_at: 50,
            revoked: false,
            predecessor: None,
        })
        .unwrap();
    let long_lived = codec.issue(11, 1_000);
    assert_eq!(manager().authenticate(&store, &long_lived, 49), Ok(1));
    assert_eq!(manager().authenticate(&store, &long_lived, 50), Err(AuthError::Unauthorized));
}

#[test]
fn refresh_rotates_the_session() {
    let mut store = SessionStore::new();
    let m = manager();
    let first = logged_in(&mut store, "alice", b"alice-digest", 11, 1_000);
    let second = m.refresh(&mut store, &first, 12, 2_000).unwrap();
    let codec = TokenCodec::new((0u8..64).collect()).unwrap();
    assert_eq!(second, codec.issue(12, 5_600));
    assert!(store.find_by_id(11).unwrap().revoked);
    assert_eq!(
        store.find_by_id(12),
        Ok(Session {
            id: 12,
            user_id: 1,
            issued_at: 2_000,
            expires_at: 5_600,
            revoked: false,
            predecessor: Some(11),
        })
    );
    assert_eq!(store.len(), 2);
}

#[test]
fn login_then_refresh_then_only_the_new_token_passes() {
    let mut store = SessionStore::new();
    let m = manager();
    let first = m.login(&mut store, &users(), "alice", b"alice-digest", 11, 1_000).unwrap();
    let second = m.refresh(&mut store, &first, 12, 2_000).unwrap();
    assert_eq!(m.authenticate(&store, &first, 2_000), Err(AuthError::Unauthorized));
    assert_eq!(m.authenticate(&store, &first, 1_000), Err(AuthError::Unauthorized));
    assert_eq!(m.authenticate(&store, &second, 2_000), Ok(1));
    assert_eq!(m.authenticate(&store, &second, 5_599), Ok(1));
    assert_eq!(m.authenticate(&store, &second, 5_600), Err(AuthError::Unauthorized));
}

#[test]
fn refresh_token_works_once() {
    let mut store = SessionStore::new();
    let m = manager();
    let first = logged_in(&mut store, "alice", b"alice-digest", 11, 1_000);
    assert!(m.refresh(&mut store, &first, 12, 2_000).is_ok());
    assert_eq!(m.refresh(&mut store, &first, 13, 2_000), Err(AuthError::SessionInvalid));
    assert_eq!(m.refresh(&mut store, &first, 13, 2_001), Err(AuthError::SessionInvalid));
    assert_eq!(m.refresh(&mut store, &first, 13, 1_000_000), Err(AuthError::SessionInvalid));
    assert_eq!(store.len(), 2);
    assert_eq!(store.find_by_id(13), Err(AuthError::NotFound));
}

#[test]
fn refresh_chain_keeps_one_valid_session() {
    let mut store = SessionStore::new();
    let m = manager();
    let mut token = logged_in(&mut store, "alice", b"alice-digest", 100, 1_000);
    for step in 1..=5u64 {
        token = m.refresh(&mut store, &token, 100 + step, 1_000 + step).unwrap();
    }
    assert_eq!(store.len(), 6);
    for step in 0..5u64 {
        assert!(store.find_by_id(100 + step).unwrap().revoked);
    }
    let last = store.find_by_id(105).unwrap();
    assert!(!last.revoked);
    assert_eq!(last.predecessor, Some(104));
    assert_eq!(m.authenticate(&store, &token, 2_000), Ok(1));
}

#[test]
fn refresh_fails_by_kind() {
    let mut store = SessionStore::new();
    let m = manager();
    let token = logged_in(&mut store, "alice", b"alice-digest", 11, 1_000);
    assert_eq!(m.refresh(&mut store, "garbage", 12, 2_000), Err(AuthError::Malformed));
    assert_eq!(stranger().refresh(&mut store, &token, 12, 2_000), Err(AuthError::Unauthorized));
    assert_eq!(m.refresh(&mut store, &token, 12, 4_600), Err(AuthError::SessionInvalid));
    assert_eq!(m.refresh(&mut store, &token, 11, 2_000), Err(AuthError::Internal));
    assert_eq!(
        m.refresh(&mut SessionStore::new(), &token, 12, 2_000),
        Err(AuthError::SessionInvalid)
    );
    assert_eq!(store.len(), 1);
    assert!(!store.find_by_id(11).unwrap().revoked);
    store.revoke(11).unwrap();
    assert_eq!(m.refresh(&mut store, &token, 12, 2_000), Err(AuthError::SessionInvalid));
    assert_eq!(store.len(), 1);
}

#[test]
fn refresh_of_a_session_that_expired_before_its_token() {
    let codec = TokenCodec::new((0u8..64).collect()).unwrap();
    let mut store = SessionStore::new();
    store
        .create(Session {
            id: 11,
            user_id: 1,
            issued_at: 0,
            expires_at: 50,
            revoked: false,
            predecessor: None,
        })
        .unwrap();
    let token = codec.issue(11, 1_000);
    assert_eq!(manager().refresh(&mut store, &token, 12, 50), Err(AuthError::SessionInvalid));
    assert!(manager().refresh(&mut store, &token, 12, 49).is_ok());
}

#[test]
fn refresh_beyond_the_range_of_the_clock_is_internal() {
    let codec = TokenCodec::new((0u8..64).collect()).unwrap();
    let mut store = SessionStore::new();
    store
        .create(Session {
            id: 11,
            user_id: 1,
            issued_at: 0,
            expires_at: u64::MAX,
            revoked: false,
            predecessor: None,
        })
        .unwrap();
    let token = codec.issue(11, u64::MAX);
    let m = manager();
    assert_eq!(m.refresh(&mut store, &token, 12, u64::MAX - 10), Err(AuthError::Internal));
    assert!(!store.find_by_id(11).unwrap().revoked);
}

#[test]
fn two_refreshes_of_one_session_have_one_winner() {
    let mut store = SessionStore::new();
    let m = manager();
    let token = logged_in(&mut store, "alice", b"alice-digest", 11, 1_000);
    let first = m.plan_refresh(&store, &token, 12, 2_000).unwrap();
    let second = m.plan_refresh(&store, &token, 13, 2_001).unwrap();
    assert_eq!(
        first,
        Rotation { session_id: 11, fresh_id: 12, issued_at: 2_000, expires_at: 5_600 }
    );
    let lost = m.commit_refresh(&mut store, &second);
    let codec = TokenCodec::new((0u8..64).collect()).unwrap();
    assert_eq!(lost, Ok(codec.issue(13, 5_601)));
    assert_eq!(m.commit_refresh(&mut store, &first), Err(AuthError::SessionInvalid));
    assert_eq!(store.len(), 2);
    assert_eq!(store.find_by_id(12), Err(AuthError::NotFound));
    assert_eq!(store.find_by_id(13).unwrap().predecessor, Some(11));
    let mut successors = 0;
    for i in 0..store.len() {
        if store.row(i).unwrap().predecessor == Some(11) {
            successors += 1;
        }
    }
    assert_eq!(successors, 1);
}

#[test]
fn two_refreshes_in_the_other_order_have_one_winner_too() {
    let mut store = SessionStore::new();
    let m = manager();
    let token = logged_in(&mut store, "alice", b"alice-digest", 11, 1_000);
    let first = m.plan_refresh(&store, &token, 12, 2_000).unwrap();
    let second = m.plan_refresh(&store, &token, 13, 2_001).unwrap();
    assert!(m.commit_refresh(&mut store, &first).is_ok());
    assert_eq!(m.commit_refresh(&mut store, &second), Err(AuthError::SessionInvalid));
    assert_eq!(m.plan_refresh(&store, &token, 14, 2_002), Err(AuthError::SessionInvalid));
    assert_eq!(store.len(), 2);
    assert_eq!(store.find_by_id(12).unwrap().predecessor, Some(11));
    assert_eq!(store.find_by_id(13), Err(AuthError::NotFound));
}

#[test]
fn commit_with_a_taken_identifier_changes_nothing() {
    let mut store = SessionStore::new();
    let m = manager();
    let token = logged_in(&mut store, "alice", b"alice-digest", 11, 1_000);
    logged_in(&mut store, "bob", b"bob-digest", 12, 1_000);
    let plan = m.plan_refresh(&store, &token, 12, 2_000).unwrap();
    assert_eq!(m.commit_refresh(&mut store, &plan), Err(AuthError::Internal));
    assert!(!store.find_by_id(11).unwrap().revoked);
    assert_eq!(store.len(), 2);
}

#[test]
fn pending_refresh_loses_to_revoke_all() {
    let mut store = SessionStore::new();
    let m = manager();
    let token = logged_in(&mut store, "alice", b"alice-digest", 11, 1_000);
    let plan = m.plan_refresh(&store, &token, 12, 2_000).unwrap();
    m.revoke_all_sessions(&mut store, 1);
    assert_eq!(m.commit_refresh(&mut store, &plan), Err(AuthError::SessionInvalid));
    assert_eq!(store.len(), 1);
}

#[test]
fn logout_ends_the_session() {
    let mut store = SessionStore::new();
    let m = manager();
    let token = logged_in(&mut store, "alice", b"alice-digest", 11, 1_000);
    let other = logged_in(&mut store, "alice", b"alice-digest", 12, 1_000);
    assert_eq!(m.logout(&mut store, &token, 2_000), Ok(()));
    assert_eq!(m.authenticate(&store, &token, 2_000), Err(AuthError::Unauthorized));
    assert_eq!(m.authenticate(&store, &token, 1_000), Err(AuthError::Unauthorized));
    assert_eq!(m.authenticate(&store, &other, 2_000), Ok(1));
}

#[test]
fn logout_twice_succeeds_twice() {
    let mut store = SessionStore::new();
    let m = manager();
    let token = logged_in(&mut store, "alice", b"alice-digest", 11, 1_000);
    assert_eq!(m.logout(&mut store, &token, 2_000), Ok(()));
    let after_first = store.find_by_id(11);
    assert_eq!(m.logout(&mut store, &token, 2_000), Ok(()));
    assert_eq!(m.logout(&mut store, &token, 3_000), Ok(()));
    assert_eq!(store.find_by_id(11), after_first);
    assert_eq!(store.len(), 1);
}

#[test]
fn logout_fails_by_kind() {
    let mut store = SessionStore::new();
    let m = manager();
    let token = logged_in(&mut store, "alice", b"alice-digest", 11, 1_000);
    assert_eq!(m.logout(&mut store, "garbage", 2_000), Err(AuthError::Malformed));
    assert_eq!(stranger().logout(&mut store, &token, 2_000), Err(AuthError::Unauthorized));
    assert_eq!(m.logout(&mut store, &token, 4_600), Err(AuthError::Unauthorized));
    assert_eq!(m.logout(&mut SessionStore::new(), &token, 2_000), Err(AuthError::NotFound));
    assert!(!store.find_by_id(11).unwrap().revoked);
    assert_eq!(m.authenticate(&store, &token, 4_600), Err(AuthError::Unauthorized));
}

#[test]
fn revoke_current_needs_a_valid_session() {
    let mut store = SessionStore::new();
    let m = manager();
    let token = logged_in(&mut store, "alice", b"alice-digest", 11, 1_000);
    assert_eq!(m.revoke_current(&mut store, "garbage", 2_000), Err(AuthError::Unauthorized));
    assert_eq!(m.revoke_current(&mut store, &token, 4_600), Err(AuthError::Unauthorized));
    assert!(!store.find_by_id(11).unwrap().revoked);
    assert_eq!(m.revoke_current(&mut store, &token, 2_000), Ok(()));
    assert!(store.find_by_id(11).unwrap().revoked);
    assert_eq!(m.revoke_current(&mut store, &token, 2_000), Err(AuthError::Unauthorized));
}

#[test]
fn revoking_another_users_session_is_forbidden() {
    let mut store = SessionStore::new();
    let m = manager();
    let alice = logged_in(&mut store, "alice", b"alice-digest", 11, 1_000);
    logged_in(&mut store, "bob", b"bob-digest", 12, 1_000);
    let outcome = m.revoke_session(&mut store, 2, false, 11);
    assert_eq!(outcome, Err(AuthError::Forbidden));
    assert_eq!(outcome.unwrap_err().status_code(), 403);
    assert!(!store.find_by_id(11).unwrap().revoked);
    assert_eq!(m.authenticate(&store, &alice, 2_000), Ok(1));
}

#[test]
fn owner_and_elevated_user_may_revoke() {
    let mut store = SessionStore::new();
    let m = manager();
    logged_in(&mut store, "alice", b"alice-digest", 11, 1_000);
    logged_in(&mut store, "alice", b"alice-digest", 12, 1_000);
    assert_eq!(m.revoke_session(&mut store, 1, false, 11), Ok(()));
    assert!(store.find_by_id(11).unwrap().revoked);
    assert_eq!(m.revoke_session(&mut store, 1, false, 11), Ok(()));
    assert_eq!(m.revoke_session(&mut store, 3, true, 12), Ok(()));
    assert!(store.find_by_id(12).unwrap().revoked);
    assert_eq!(m.revoke_session(&mut store, 1, false, 99), Err(AuthError::NotFound));
    assert_eq!(m.revoke_session(&mut store, 3, true, 99), Err(AuthError::NotFound));
}

#[test]
fn may_revoke_is_ownership_or_privilege() {
    let s = Session { id: 11, user_id: 1, issued_at: 0, expires_at: 9, revoked: false, predecessor: None };
    assert!(may_revoke(&s, 1, false));
    assert!(may_revoke(&s, 1, true));
    assert!(may_revoke(&s, 2, true));
    assert!(!may_revoke(&s, 2, false));
}

#[test]
fn revoke_all_invalidates_every_session_of_the_user() {
    let mut store = SessionStore::new();
    let m = manager();
    let a1 = logged_in(&mut store, "alice", b"alice-digest", 11, 1_000);
    let a2 = logged_in(&mut store, "alice", b"alice-digest", 12, 1_000);
    let b1 = logged_in(&mut store, "bob", b"bob-digest", 13, 1_000);
    m.revoke_all_sessions(&mut store, 1);
    assert_eq!(m.authenticate(&store, &a1, 2_000), Err(AuthError::Unauthorized));
    assert_eq!(m.authenticate(&store, &a2, 2_000), Err(AuthError::Unauthorized));
    assert_eq!(m.authenticate(&store, &b1, 2_000), Ok(2));
    assert_eq!(m.refresh(&mut store, &a1, 14, 2_000), Err(AuthError::SessionInvalid));
}

#[test]
fn session_created_after_revoke_all_is_valid() {
    let mut store = SessionStore::new();
    let m = manager();
    logged_in(&mut store, "alice", b"alice-digest", 11, 1_000);
    m.revoke_all_sessions(&mut store, 1);
    let fresh = logged_in(&mut store, "alice", b"alice-digest", 12, 2_000);
    assert_eq!(m.authenticate(&store, &fresh, 2_000), Ok(1));
    assert!(!store.find_by_id(12).unwrap().revoked);
    assert!(store.find_by_id(11).unwrap().revoked);
}

#[test]
fn only_the_first_of_many_refreshes_wins() {
    let mut store = SessionStore::new();
    let m = manager();
    let token = logged_in(&mut store, "alice", b"alice-digest", 11, 1_000);
    let plans: Vec<Rotation> =
        (0..5u64).map(|k| m.plan_refresh(&store, &token, 20 + k, 2_000 + k).unwrap()).collect();
    assert!(m.commit_refresh(&mut store, &plans[3]).is_ok());
    let after_first: Vec<Session> = (0..store.len()).map(|i| store.row(i).unwrap()).collect();
    for (k, plan) in plans.iter().enumerate() {
        if k != 3 {
            assert_eq!(m.commit_refresh(&mut store, plan), Err(AuthError::SessionInvalid));
        }
    }
    let after_all: Vec<Session> = (0..store.len()).map(|i| store.row(i).unwrap()).collect();
    assert_eq!(after_all, after_first);
    assert_eq!(store.len(), 2);
    assert_eq!(store.find_by_id(23).unwrap().predecessor, Some(11));
}

#[test]
fn refresh_is_plan_then_commit() {
    let m = manager();
    let mut one = SessionStore::new();
    let mut two = SessionStore::new();
    let token = logged_in(&mut one, "alice", b"alice-digest", 11, 1_000);
    logged_in(&mut two, "alice", b"alice-digest", 11, 1_000);
    let whole = m.refresh(&mut one, &token, 12, 2_000);
    let plan = m.plan_refresh(&two, &token, 12, 2_000).unwrap();
    let halves = m.commit_refresh(&mut two, &plan);
    assert_eq!(whole, halves);
    assert_eq!(one.len(), two.len());
    for i in 0..one.len() {
        assert_eq!(one.row(i), two.row(i));
    }
}

#[test]
fn manager_signs_with_its_codec() {
    let m = manager();
    let codec = TokenCodec::new((0u8..64).collect()).unwrap();
    assert_eq!(m.codec().issue(5, 6), codec.issue(5, 6));
}

#[test]
fn no_operation_removes_or_restores_a_session() {
    let mut store = SessionStore::new();
    let m = manager();
    let a = logged_in(&mut store, "alice", b"alice-digest", 11, 1_000);
    let b = logged_in(&mut store, "bob", b"bob-digest", 12, 1_000);
    m.logout(&mut store, &a, 1_500).unwrap();
    let revoked = store.find_by_id(11).unwrap();
    assert!(revoked.revoked);
    let b2 = m.refresh(&mut store, &b, 13, 2_000).unwrap();
    m.revoke_all_sessions(&mut store, 1);
    m.revoke_session(&mut store, 3, true, 13).unwrap();
    assert_eq!(m.revoke_current(&mut store, &b2, 2_500), Err(AuthError::Unauthorized));
    logged_in(&mut store, "alice", b"alice-digest", 14, 3_000);
    assert_eq!(store.find_by_id(11), Ok(revoked));
    for id in [11u64, 12, 13] {
        assert!(store.find_by_id(id).unwrap().revoked);
    }
    assert_eq!(store.find_by_id(12).unwrap().expires_at, 4_600);
    assert_eq!(store.len(), 4);
}
