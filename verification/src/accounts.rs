//! What happens to a user's sessions when the account changes: a new
//! password logs the user out everywhere, and so does deleting the account.

use crate::credentials::{CredentialStore, UserRecord};
use crate::error::AuthError;
use crate::session::revoked_for;
use crate::store::SessionStore;
use vstd::prelude::*;

verus! {

/// What a request on the account `target` answers to the user
/// `acting_user`: `Forbidden` unless the account is the user's own or the
/// user is elevated.
pub fn authorize_account(acting_user: u64, elevated: bool, target: u64) -> (outcome: Result<
    (),
    AuthError,
>)
    ensures
        outcome == (if acting_user == target || elevated {
            Ok::<(), AuthError>(())
        } else {
            Err::<(), AuthError>(AuthError::Forbidden)
        }),
{
    if acting_user == target || elevated {
        Ok(())
    } else {
        Err(AuthError::Forbidden)
    }
}

/// Gives the user `user_id` a new password digest and revokes every session
/// of the user. Without such a user the answer is `NotFound` and nothing
/// changes.
pub fn change_password(
    credentials: &mut CredentialStore,
    store: &mut SessionStore,
    user_id: u64,
    password_digest: &[u8],
    now: u64,
) -> (outcome: Result<(), AuthError>)
    requires
        old(credentials).wf(),
        old(store).wf(),
    ensures
        final(credentials).wf(),
        final(store).wf(),
        outcome == (if old(credentials)@.contains_key(user_id) {
            Ok::<(), AuthError>(())
        } else {
            Err::<(), AuthError>(AuthError::NotFound)
        }),
        outcome is Ok ==> final(credentials)@ == old(credentials)@.insert(
            user_id,
            (UserRecord {
                password_digest: password_digest@,
                updated_at: now,
                ..old(credentials)@[user_id]
            }),
        ) && final(store)@ == revoked_for(old(store)@, user_id),
        outcome is Err ==> final(credentials)@ == old(credentials)@ && final(store)@ == old(store)@,
{
    match credentials.update_user(user_id, None, Some(password_digest), now) {
        Ok(_) => {
            store.revoke_all(user_id);
            Ok(())
        },
        Err(_) => Err(AuthError::NotFound),
    }
}

/// Deletes the account `user_id` and revokes every session of the user.
/// Without such a user the answer is `NotFound` and nothing changes.
pub fn delete_account(
    credentials: &mut CredentialStore,
    store: &mut SessionStore,
    user_id: u64,
) -> (outcome: Result<(), AuthError>)
    requires
        old(credentials).wf(),
        old(store).wf(),
    ensures
        final(credentials).wf(),
        final(store).wf(),
        outcome == (if old(credentials)@.contains_key(user_id) {
            Ok::<(), AuthError>(())
        } else {
            Err::<(), AuthError>(AuthError::NotFound)
        }),
        outcome is Ok ==> final(credentials)@ == old(credentials)@.remove(user_id)
            && final(store)@ == revoked_for(old(store)@, user_id),
        outcome is Err ==> final(credentials)@ == old(credentials)@ && final(store)@ == old(store)@,
{
    match credentials.delete_user(user_id) {
        Ok(_) => {
            store.revoke_all(user_id);
            Ok(())
        },
        Err(error) => Err(error),
    }
}

} // verus!
