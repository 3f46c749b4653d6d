//! What holds of the session manager whatever the ledger, the token and the
//! time: the laws that its operations obey together.

use crate::credentials::{id_named, Directory};
use crate::error::AuthError;
use crate::manager::{
    authentication, commit_ledger, commit_outcome, first_session, login_ledger, login_outcome,
    logout_ledger, logout_outcome, refresh_ledger, refresh_outcome, revocation_ledger,
    revoke_current_ledger, rotated_session, rotation_plan, Rotation,
};
use crate::session::{
    admissible, has_successor, keeps, ledger_wf, lemma_insert_keeps_wf, lemma_revoke_all_keeps_wf,
    lemma_revoke_keeps_wf, lemma_unrevoked_has_no_successor, revoked_for, revoked_in, Ledger,
};
use crate::token::{law_issued_token_verifies, session_of, token_text, verdict, TokenError};
use vstd::prelude::*;

verus! {

/// The guard follows the ledger. With the token that was issued for a
/// session on record, it answers the session's owner for as long as the
/// session is valid, and `Unauthorized` once the session is revoked or
/// expired.
pub proof fn law_guard_follows_validity(secret: Seq<u8>, ledger: Ledger, id: u64, now: u64)
    requires
        ledger.contains_key(id),
    ensures
        authentication(secret, ledger, token_text(secret, id, ledger[id].expires_at), now) == (
        if ledger[id].valid_at(now) {
            Ok::<u64, AuthError>(ledger[id].user_id)
        } else {
            Err::<u64, AuthError>(AuthError::Unauthorized)
        }),
{
    law_issued_token_verifies(secret, id, ledger[id].expires_at, now);
}

/// Whatever the token, the guard answers a user only if the token verifies
/// and names a valid session of that user, and answers `Unauthorized`,
/// nothing else, in every other case.
pub proof fn law_guard_admits_only_valid_sessions(
    secret: Seq<u8>,
    ledger: Ledger,
    token: Seq<char>,
    now: u64,
)
    ensures
        authentication(secret, ledger, token, now) matches Ok(user) ==> {
            &&& verdict(secret, token, now) == Ok::<u64, TokenError>(session_of(token))
            &&& ledger.contains_key(session_of(token))
            &&& ledger[session_of(token)].valid_at(now)
            &&& ledger[session_of(token)].user_id == user
        },
        authentication(secret, ledger, token, now) matches Err(error) ==> error
            == AuthError::Unauthorized,
        ledger.contains_key(session_of(token)) && !ledger[session_of(token)].valid_at(now)
            ==> authentication(secret, ledger, token, now) == Err::<u64, AuthError>(
            AuthError::Unauthorized,
        ),
{
}

/// A refresh token works once. After a refresh that succeeded, the same
/// token fails with `SessionInvalid`, at any later or earlier time and
/// whatever identifier is offered for a successor.
pub proof fn law_refresh_is_single_use(
    secret: Seq<u8>,
    lifetime: u64,
    ledger: Ledger,
    token: Seq<char>,
    fresh_id: u64,
    now: u64,
    fresh_again: u64,
    again: u64,
)
    requires
        refresh_outcome(secret, lifetime, ledger, token, fresh_id, now) is Ok,
    ensures
        refresh_outcome(
            secret,
            lifetime,
            refresh_ledger(secret, lifetime, ledger, token, fresh_id, now),
            token,
            fresh_again,
            again,
        ) == Err::<Seq<char>, AuthError>(AuthError::SessionInvalid),
{
}

/// After a refresh that succeeded, the guard turns the old token down at
/// any time, and lets the new token pass, as the same user, until the new
/// session expires.
pub proof fn law_refresh_rotates(
    secret: Seq<u8>,
    lifetime: u64,
    ledger: Ledger,
    token: Seq<char>,
    fresh_id: u64,
    now: u64,
    later: u64,
)
    requires
        refresh_outcome(secret, lifetime, ledger, token, fresh_id, now) is Ok,
    ensures
        authentication(
            secret,
            refresh_ledger(secret, lifetime, ledger, token, fresh_id, now),
            token,
            later,
        ) == Err::<u64, AuthError>(AuthError::Unauthorized),
        authentication(
            secret,
            refresh_ledger(secret, lifetime, ledger, token, fresh_id, now),
            refresh_outcome(secret, lifetime, ledger, token, fresh_id, now)->Ok_0,
            later,
        ) == (if later < now + lifetime {
            Ok::<u64, AuthError>(ledger[session_of(token)].user_id)
        } else {
            Err::<u64, AuthError>(AuthError::Unauthorized)
        }),
{
    law_issued_token_verifies(secret, fresh_id, (now + lifetime) as u64, later);
}

/// After a logout that succeeded, the guard turns the same token down at
/// any time. After a logout that failed, it turns the token down from the
/// time of the logout on.
pub proof fn law_logout_ends_the_session(
    secret: Seq<u8>,
    ledger: Ledger,
    token: Seq<char>,
    now: u64,
    later: u64,
)
    requires
        logout_outcome(secret, ledger, token, now) is Ok || now <= later,
    ensures
        authentication(secret, logout_ledger(secret, ledger, token, now), token, later) == Err::<
            u64,
            AuthError,
        >(AuthError::Unauthorized),
{
}

/// Logout is idempotent. On a session that is revoked already it succeeds
/// and leaves the ledger as it was; and a second logout with the same token
/// succeeds wherever the first did and the token has not expired between.
pub proof fn law_logout_is_idempotent(
    secret: Seq<u8>,
    ledger: Ledger,
    token: Seq<char>,
    now: u64,
    later: u64,
)
    requires
        ledger_wf(ledger),
    ensures
        verdict(secret, token, now) is Ok && ledger.contains_key(session_of(token))
            && ledger[session_of(token)].revoked ==> logout_outcome(secret, ledger, token, now)
            == Ok::<(), AuthError>(()) && logout_ledger(secret, ledger, token, now) == ledger,
        logout_outcome(secret, ledger, token, now) is Ok && verdict(secret, token, later) is Ok
            ==> logout_outcome(secret, logout_ledger(secret, ledger, token, now), token, later)
            == Ok::<(), AuthError>(()) && logout_ledger(
            secret,
            logout_ledger(secret, ledger, token, now),
            token,
            later,
        ) == logout_ledger(secret, ledger, token, now),
{
    let id = session_of(token);
    if verdict(secret, token, now) is Ok && ledger.contains_key(id) && ledger[id].revoked {
        assert(ledger[id].revoked_copy() == ledger[id]);
        assert(ledger.insert(id, ledger[id]) =~= ledger);
    }
    if logout_outcome(secret, ledger, token, now) is Ok && verdict(secret, token, later) is Ok {
        let once = logout_ledger(secret, ledger, token, now);
        assert(once[id].revoked_copy() == once[id]);
        assert(once.insert(id, once[id]) =~= once);
    }
}

/// Revoking all sessions of a user leaves none of them valid: each session
/// that the user owned at the time of the call is revoked, the guard turns
/// down every token that names one, and the sessions of other users are as
/// they were.
pub proof fn law_revoke_all_invalidates(
    secret: Seq<u8>,
    ledger: Ledger,
    user_id: u64,
    id: u64,
    token: Seq<char>,
    later: u64,
)
    requires
        ledger.contains_key(id),
    ensures
        revoked_for(ledger, user_id).contains_key(id),
        ledger[id].user_id == user_id ==> !revoked_for(ledger, user_id)[id].valid_at(later),
        ledger[id].user_id == user_id && session_of(token) == id ==> authentication(
            secret,
            revoked_for(ledger, user_id),
            token,
            later,
        ) == Err::<u64, AuthError>(AuthError::Unauthorized),
        ledger[id].user_id != user_id ==> revoked_for(ledger, user_id)[id] == ledger[id],
{
}

/// A session that is created after all sessions of its user were revoked is
/// valid: a login that succeeds on the ledger that the revocation left
/// hands out a token that the guard lets pass until the session expires.
pub proof fn law_login_after_revoke_all_is_valid(
    secret: Seq<u8>,
    lifetime: u64,
    directory: Directory,
    ledger: Ledger,
    user_id: u64,
    username: Seq<char>,
    candidate: Seq<u8>,
    fresh_id: u64,
    now: u64,
    later: u64,
)
    requires
        login_outcome(
            secret,
            lifetime,
            directory,
            revoked_for(ledger, user_id),
            username,
            candidate,
            fresh_id,
            now,
        ) is Ok,
        later < now + lifetime,
    ensures
        authentication(
            secret,
            login_ledger(
                secret,
                lifetime,
                directory,
                revoked_for(ledger, user_id),
                username,
                candidate,
                fresh_id,
                now,
            ),
            login_outcome(
                secret,
                lifetime,
                directory,
                revoked_for(ledger, user_id),
                username,
                candidate,
                fresh_id,
                now,
            )->Ok_0,
            later,
        ) == Ok::<u64, AuthError>(id_named(directory, username)),
{
    law_issued_token_verifies(secret, fresh_id, (now + lifetime) as u64, later);
}

/// Of two refreshes that both found the same session valid, one wins. The
/// first to write revokes the session and records the one successor; the
/// other finds the session revoked, is told `SessionInvalid` and changes
/// nothing. Which of the two writes first is open: the law holds with the
/// two exchanged.
pub proof fn law_single_winner(
    secret: Seq<u8>,
    lifetime: u64,
    ledger: Ledger,
    first_token: Seq<char>,
    first_fresh: u64,
    first_now: u64,
    second_token: Seq<char>,
    second_fresh: u64,
    second_now: u64,
)
    requires
        ledger_wf(ledger),
        rotation_plan(secret, lifetime, ledger, first_token, first_fresh, first_now) is Ok,
        rotation_plan(secret, lifetime, ledger, second_token, second_fresh, second_now) is Ok,
        session_of(first_token) == session_of(second_token),
        !ledger.contains_key(first_fresh),
    ensures
        ({
            let first = rotation_plan(
                secret,
                lifetime,
                ledger,
                first_token,
                first_fresh,
                first_now,
            )->Ok_0;
            let second = rotation_plan(
                secret,
                lifetime,
                ledger,
                second_token,
                second_fresh,
                second_now,
            )->Ok_0;
            let between = commit_ledger(secret, ledger, first);
            let after = commit_ledger(secret, between, second);
            &&& commit_outcome(secret, ledger, first) is Ok
            &&& commit_outcome(secret, between, second) == Err::<Seq<char>, AuthError>(
                AuthError::SessionInvalid,
            )
            &&& after == between
            &&& ledger_wf(after)
            &&& forall|id: u64|
                after.contains_key(id) && after[id].predecessor == Some(session_of(first_token))
                    <==> id == first_fresh
        }),
{
    let first = rotation_plan(secret, lifetime, ledger, first_token, first_fresh, first_now)->Ok_0;
    let id = session_of(first_token);
    let between = commit_ledger(secret, ledger, first);
    lemma_unrevoked_has_no_successor(ledger, id);
    lemma_commit_keeps_wf(secret, ledger, first);
    assert forall|other: u64|
        between.contains_key(other) && between[other].predecessor == Some(id) implies other
        == first_fresh by {
        if other != first_fresh {
            assert(ledger.contains_key(other));
            assert(has_successor(ledger, id));
        }
    }
}

/// A refresh that found its session valid before all sessions of the user
/// were revoked, and writes after, creates nothing: it finds the session
/// revoked, is told `SessionInvalid`, and the ledger stays as the
/// revocation left it.
pub proof fn law_revoke_all_stops_pending_refresh(
    secret: Seq<u8>,
    lifetime: u64,
    ledger: Ledger,
    token: Seq<char>,
    fresh_id: u64,
    now: u64,
)
    requires
        rotation_plan(secret, lifetime, ledger, token, fresh_id, now) is Ok,
    ensures
        ({
            let rotation = rotation_plan(secret, lifetime, ledger, token, fresh_id, now)->Ok_0;
            let revoked = revoked_for(ledger, ledger[session_of(token)].user_id);
            &&& commit_outcome(secret, revoked, rotation) == Err::<Seq<char>, AuthError>(
                AuthError::SessionInvalid,
            )
            &&& commit_ledger(secret, revoked, rotation) == revoked
        }),
{
}

/// No operation of the manager removes a session, clears `revoked` or moves
/// an expiry: whatever it is given, the ledger that it leaves keeps every
/// record of the ledger that it found.
pub proof fn law_records_are_kept(
    secret: Seq<u8>,
    lifetime: u64,
    directory: Directory,
    ledger: Ledger,
    username: Seq<char>,
    candidate: Seq<u8>,
    token: Seq<char>,
    fresh_id: u64,
    now: u64,
    acting_user: u64,
    elevated: bool,
    target: u64,
    rotation: Rotation,
)
    ensures
        keeps(
            ledger,
            login_ledger(secret, lifetime, directory, ledger, username, candidate, fresh_id, now),
        ),
        keeps(ledger, refresh_ledger(secret, lifetime, ledger, token, fresh_id, now)),
        keeps(ledger, commit_ledger(secret, ledger, rotation)),
        keeps(ledger, logout_ledger(secret, ledger, token, now)),
        keeps(ledger, revoke_current_ledger(secret, ledger, token, now)),
        keeps(ledger, revocation_ledger(ledger, acting_user, elevated, target)),
        keeps(ledger, revoked_for(ledger, acting_user)),
{
}

/// The ledger after each of `rotations` was written in turn.
pub open spec fn committed(secret: Seq<u8>, ledger: Ledger, rotations: Seq<Rotation>) -> Ledger
    decreases rotations.len(),
{
    if rotations.len() == 0 {
        ledger
    } else {
        commit_ledger(secret, committed(secret, ledger, rotations.drop_last()), rotations.last())
    }
}

/// However many refreshes found the same session valid, the first to write
/// is the only one that wins. Every later one is told `SessionInvalid`, and
/// the ledger stays as the first left it.
pub proof fn law_one_winner_among_many(
    secret: Seq<u8>,
    ledger: Ledger,
    first: Rotation,
    others: Seq<Rotation>,
)
    requires
        commit_outcome(secret, ledger, first) is Ok,
        forall|i: int| 0 <= i < others.len() ==> (#[trigger] others[i]).session_id
            == first.session_id,
    ensures
        committed(secret, commit_ledger(secret, ledger, first), others) == commit_ledger(
            secret,
            ledger,
            first,
        ),
        forall|i: int|
            0 <= i < others.len() ==> commit_outcome(
                secret,
                committed(secret, commit_ledger(secret, ledger, first), others.subrange(0, i)),
                #[trigger] others[i],
            ) == Err::<Seq<char>, AuthError>(AuthError::SessionInvalid),
    decreases others.len(),
{
    let won = commit_ledger(secret, ledger, first);
    if others.len() > 0 {
        let before = others.drop_last();
        law_one_winner_among_many(secret, ledger, first, before);
        assert forall|i: int| 0 <= i < others.len() implies commit_outcome(
            secret,
            committed(secret, won, others.subrange(0, i)),
            #[trigger] others[i],
        ) == Err::<Seq<char>, AuthError>(AuthError::SessionInvalid) by {
            if i < before.len() {
                assert(before.subrange(0, i) =~= others.subrange(0, i));
                assert(before[i] == others[i]);
            } else {
                assert(others.subrange(0, i) =~= before);
            }
        }
    }
}

/// Every operation of the manager keeps the constraints of the ledger:
/// records under their own identifiers, successors of revoked sessions of
/// the same user only, and no session replaced twice.
pub proof fn law_ledger_stays_sound(
    secret: Seq<u8>,
    lifetime: u64,
    directory: Directory,
    ledger: Ledger,
    username: Seq<char>,
    candidate: Seq<u8>,
    token: Seq<char>,
    fresh_id: u64,
    now: u64,
    acting_user: u64,
    elevated: bool,
    target: u64,
    rotation: Rotation,
)
    requires
        ledger_wf(ledger),
    ensures
        ledger_wf(
            login_ledger(secret, lifetime, directory, ledger, username, candidate, fresh_id, now),
        ),
        ledger_wf(refresh_ledger(secret, lifetime, ledger, token, fresh_id, now)),
        ledger_wf(commit_ledger(secret, ledger, rotation)),
        ledger_wf(logout_ledger(secret, ledger, token, now)),
        ledger_wf(revoke_current_ledger(secret, ledger, token, now)),
        ledger_wf(revocation_ledger(ledger, acting_user, elevated, target)),
        ledger_wf(revoked_for(ledger, acting_user)),
{
    if login_outcome(secret, lifetime, directory, ledger, username, candidate, fresh_id, now)
        is Ok {
        lemma_insert_keeps_wf(
            ledger,
            first_session(id_named(directory, username), fresh_id, now, lifetime),
        );
    }
    let plan = rotation_plan(secret, lifetime, ledger, token, fresh_id, now);
    if plan is Ok {
        lemma_commit_keeps_wf(secret, ledger, plan->Ok_0);
    }
    lemma_commit_keeps_wf(secret, ledger, rotation);
    lemma_revoke_keeps_wf(ledger, session_of(token));
    lemma_revoke_keeps_wf(ledger, target);
    lemma_revoke_all_keeps_wf(ledger, acting_user);
}

/// Writing a rotation keeps the constraints of the ledger.
proof fn lemma_commit_keeps_wf(secret: Seq<u8>, ledger: Ledger, rotation: Rotation)
    requires
        ledger_wf(ledger),
    ensures
        ledger_wf(commit_ledger(secret, ledger, rotation)),
{
    if commit_outcome(secret, ledger, rotation) is Ok {
        let id = rotation.session_id;
        lemma_unrevoked_has_no_successor(ledger, id);
        lemma_revoke_keeps_wf(ledger, id);
        let revoked = revoked_in(ledger, id);
        let next = rotated_session(ledger[id], rotation);
        assert(admissible(revoked, next)) by {
            assert forall|other: u64| #[trigger]
                revoked.contains_key(other) implies revoked[other].predecessor != Some(id) by {
                assert(ledger.contains_key(other));
            }
        }
        lemma_insert_keeps_wf(revoked, next);
    }
}

} // verus!
