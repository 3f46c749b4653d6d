//! The session manager: login, refresh, logout, revocation and the guard
//! that every protected request passes.
//!
//! The manager keeps nothing between calls but its codec and the lifetime it
//! gives a session. What it knows of sessions it reads from the store that
//! each call is handed, and each call leaves the store either changed as a
//! whole or as it was.

use crate::credentials::{id_named, named, CredentialStore, Directory};
use crate::error::AuthError;
use crate::session::{
    admissible, lemma_unrevoked_has_no_successor, revoked_for, revoked_in, Ledger,
    Session,
};
use crate::store::SessionStore;
use crate::token::{session_of, token_text, verdict, TokenCodec, TokenError};
use vstd::prelude::*;

verus! {

/// What a caller of logout or of a revocation is told when the token fails:
/// that it cannot be decoded, or no more than that it does not authorize.
pub open spec fn token_failure(error: TokenError) -> AuthError {
    match error {
        TokenError::Malformed => AuthError::Malformed,
        TokenError::InvalidSignature => AuthError::Unauthorized,
        TokenError::Expired => AuthError::Unauthorized,
    }
}

/// What a caller of refresh is told when the token fails. A token's expiry
/// is its session's, so an expired token names an expired session.
pub open spec fn refresh_failure(error: TokenError) -> AuthError {
    match error {
        TokenError::Malformed => AuthError::Malformed,
        TokenError::InvalidSignature => AuthError::Unauthorized,
        TokenError::Expired => AuthError::SessionInvalid,
    }
}

/// The text of a token that was handed out, or the error in its place.
pub open spec fn issued(outcome: Result<String, AuthError>) -> Result<Seq<char>, AuthError> {
    match outcome {
        Ok(token) => Ok(token@),
        Err(error) => Err(error),
    }
}

/// Whether a stretch of `lifetime` seconds that starts at `now` ends within
/// the range of the clock.
pub open spec fn expiry_fits(now: u64, lifetime: u64) -> bool {
    now + lifetime <= u64::MAX
}

/// What the guard answers: the owner of the session that `token` names, if
/// the token verifies and the session is on record and valid. Every failure
/// is the same `Unauthorized`.
pub open spec fn authentication(secret: Seq<u8>, ledger: Ledger, token: Seq<char>, now: u64)
    -> Result<u64, AuthError> {
    match verdict(secret, token, now) {
        Ok(id) => if ledger.contains_key(id) && ledger[id].valid_at(now) {
            Ok(ledger[id].user_id)
        } else {
            Err(AuthError::Unauthorized)
        },
        Err(_) => Err(AuthError::Unauthorized),
    }
}

/// The session that a login creates.
pub open spec fn first_session(user_id: u64, fresh_id: u64, now: u64, lifetime: u64) -> Session {
    Session {
        id: fresh_id,
        user_id,
        issued_at: now,
        expires_at: (now + lifetime) as u64,
        revoked: false,
        predecessor: None,
    }
}

/// Whether the name and the digest are those of one user.
pub open spec fn credentials_hold(directory: Directory, username: Seq<char>, candidate: Seq<u8>)
    -> bool {
    named(directory, username) && directory[id_named(directory, username)].password_digest
        == candidate
}

/// What a login answers. An unknown name and a wrong password are the same
/// `InvalidCredentials`. A session identifier that is taken, or an expiry
/// beyond the clock's range, is `Internal`.
pub open spec fn login_outcome(
    secret: Seq<u8>,
    lifetime: u64,
    directory: Directory,
    ledger: Ledger,
    username: Seq<char>,
    candidate: Seq<u8>,
    fresh_id: u64,
    now: u64,
) -> Result<Seq<char>, AuthError> {
    if !credentials_hold(directory, username, candidate) {
        Err(AuthError::InvalidCredentials)
    } else if !expiry_fits(now, lifetime) || ledger.contains_key(fresh_id) {
        Err(AuthError::Internal)
    } else {
        Ok(token_text(secret, fresh_id, (now + lifetime) as u64))
    }
}

/// The ledger after a login: with the new session where the login
/// succeeded, as it was where it failed.
pub open spec fn login_ledger(
    secret: Seq<u8>,
    lifetime: u64,
    directory: Directory,
    ledger: Ledger,
    username: Seq<char>,
    candidate: Seq<u8>,
    fresh_id: u64,
    now: u64,
) -> Ledger {
    if login_outcome(secret, lifetime, directory, ledger, username, candidate, fresh_id, now)
        is Ok {
        ledger.insert(
            fresh_id,
            first_session(id_named(directory, username), fresh_id, now, lifetime),
        )
    } else {
        ledger
    }
}

/// A rotation that was found in order and is yet to be written: the session
/// to revoke, and what its successor is to hold.
#[derive(Clone, Copy, Debug, PartialEq, Eq, Structural)]
pub struct Rotation {
    /// The session that the refresh token names.
    pub session_id: u64,
    /// The identifier of the successor.
    pub fresh_id: u64,
    /// When the successor is issued.
    pub issued_at: u64,
    /// When the successor expires.
    pub expires_at: u64,
}

/// The first half of a refresh, which only reads: what is to be rotated, if
/// the token verifies and its session is on record and valid.
pub open spec fn rotation_plan(
    secret: Seq<u8>,
    lifetime: u64,
    ledger: Ledger,
    token: Seq<char>,
    fresh_id: u64,
    now: u64,
) -> Result<Rotation, AuthError> {
    match verdict(secret, token, now) {
        Err(error) => Err(refresh_failure(error)),
        Ok(id) => if !ledger.contains_key(id) || !ledger[id].valid_at(now) {
            Err(AuthError::SessionInvalid)
        } else if !expiry_fits(now, lifetime) {
            Err(AuthError::Internal)
        } else {
            Ok(
                Rotation {
                    session_id: id,
                    fresh_id,
                    issued_at: now,
                    expires_at: (now + lifetime) as u64,
                },
            )
        },
    }
}

/// The successor that a rotation records for the session `before`.
pub open spec fn rotated_session(before: Session, rotation: Rotation) -> Session {
    Session {
        id: rotation.fresh_id,
        user_id: before.user_id,
        issued_at: rotation.issued_at,
        expires_at: rotation.expires_at,
        revoked: false,
        predecessor: Some(before.id),
    }
}

/// The second half of a refresh, which writes on one condition: the session
/// is still not revoked. A caller that finds it revoked has lost to another
/// refresh and is told `SessionInvalid`.
pub open spec fn commit_outcome(secret: Seq<u8>, ledger: Ledger, rotation: Rotation) -> Result<
    Seq<char>,
    AuthError,
> {
    if !ledger.contains_key(rotation.session_id) || ledger[rotation.session_id].revoked {
        Err(AuthError::SessionInvalid)
    } else if ledger.contains_key(rotation.fresh_id) {
        Err(AuthError::Internal)
    } else {
        Ok(token_text(secret, rotation.fresh_id, rotation.expires_at))
    }
}

/// The ledger after the second half of a refresh.
pub open spec fn commit_ledger(secret: Seq<u8>, ledger: Ledger, rotation: Rotation) -> Ledger {
    if commit_outcome(secret, ledger, rotation) is Ok {
        revoked_in(ledger, rotation.session_id).insert(
            rotation.fresh_id,
            rotated_session(ledger[rotation.session_id], rotation),
        )
    } else {
        ledger
    }
}

/// What a refresh answers: its two halves in one step. A token that fails
/// is told so; a session that is not on record, revoked or expired is
/// `SessionInvalid`; a session identifier that is taken, or an expiry beyond
/// the clock's range, is `Internal`.
pub open spec fn refresh_outcome(
    secret: Seq<u8>,
    lifetime: u64,
    ledger: Ledger,
    token: Seq<char>,
    fresh_id: u64,
    now: u64,
) -> Result<Seq<char>, AuthError> {
    match rotation_plan(secret, lifetime, ledger, token, fresh_id, now) {
        Ok(rotation) => commit_outcome(secret, ledger, rotation),
        Err(error) => Err(error),
    }
}

/// The ledger after a refresh: where it succeeded, the old session is
/// revoked and the new one is on record as its successor; where it failed,
/// the ledger is as it was.
pub open spec fn refresh_ledger(
    secret: Seq<u8>,
    lifetime: u64,
    ledger: Ledger,
    token: Seq<char>,
    fresh_id: u64,
    now: u64,
) -> Ledger {
    match rotation_plan(secret, lifetime, ledger, token, fresh_id, now) {
        Ok(rotation) => commit_ledger(secret, ledger, rotation),
        Err(_) => ledger,
    }
}

/// What a logout answers: success for a session on record, revoked before
/// or not.
pub open spec fn logout_outcome(secret: Seq<u8>, ledger: Ledger, token: Seq<char>, now: u64)
    -> Result<(), AuthError> {
    match verdict(secret, token, now) {
        Err(error) => Err(token_failure(error)),
        Ok(id) => if ledger.contains_key(id) {
            Ok(())
        } else {
            Err(AuthError::NotFound)
        },
    }
}

/// The ledger after a logout.
pub open spec fn logout_ledger(secret: Seq<u8>, ledger: Ledger, token: Seq<char>, now: u64)
    -> Ledger {
    if logout_outcome(secret, ledger, token, now) is Ok {
        revoked_in(ledger, session_of(token))
    } else {
        ledger
    }
}

/// What revoking the session of the request answers: success where the
/// guard lets the token pass.
pub open spec fn revoke_current_outcome(
    secret: Seq<u8>,
    ledger: Ledger,
    token: Seq<char>,
    now: u64,
) -> Result<(), AuthError> {
    match authentication(secret, ledger, token, now) {
        Ok(_) => Ok(()),
        Err(error) => Err(error),
    }
}

/// The ledger after the session of the request was revoked.
pub open spec fn revoke_current_ledger(
    secret: Seq<u8>,
    ledger: Ledger,
    token: Seq<char>,
    now: u64,
) -> Ledger {
    if authentication(secret, ledger, token, now) is Ok {
        revoked_in(ledger, session_of(token))
    } else {
        ledger
    }
}

/// What revoking the session `target` answers to the user `acting_user`:
/// `NotFound` without such a session, `Forbidden` where the user neither
/// owns it nor is elevated.
pub open spec fn revocation_outcome(
    ledger: Ledger,
    acting_user: u64,
    elevated: bool,
    target: u64,
) -> Result<(), AuthError> {
    if !ledger.contains_key(target) {
        Err(AuthError::NotFound)
    } else if ledger[target].user_id != acting_user && !elevated {
        Err(AuthError::Forbidden)
    } else {
        Ok(())
    }
}

/// The ledger after the session `target` was revoked by `acting_user`.
pub open spec fn revocation_ledger(
    ledger: Ledger,
    acting_user: u64,
    elevated: bool,
    target: u64,
) -> Ledger {
    if revocation_outcome(ledger, acting_user, elevated, target) is Ok {
        revoked_in(ledger, target)
    } else {
        ledger
    }
}

/// Whether the user `acting_user` may revoke `session`.
pub fn may_revoke(session: &Session, acting_user: u64, elevated: bool) -> (allowed: bool)
    ensures
        allowed == (session.user_id == acting_user || elevated),
{
    session.user_id == acting_user || elevated
}

/// The manager of sessions.
pub struct SessionManager {
    codec: TokenCodec,
    lifetime: u64,
}

impl SessionManager {
    /// The secret that the manager's codec signs with.
    pub closed spec fn key(&self) -> Seq<u8> {
        self.codec.key()
    }

    /// The number of seconds for which a session is valid.
    pub closed spec fn lifetime(&self) -> u64 {
        self.lifetime
    }

    /// A manager that signs with `codec` and gives each session `lifetime`
    /// seconds.
    pub fn new(codec: TokenCodec, lifetime: u64) -> (manager: SessionManager)
        ensures
            manager.key() == codec.key(),
            manager.lifetime() == lifetime,
    {
        SessionManager { codec, lifetime }
    }

    /// The codec that the manager signs with.
    pub fn codec(&self) -> (codec: &TokenCodec)
        ensures
            codec.key() == self.key(),
    {
        &self.codec
    }

    /// The first moment at which a session issued at `now` is over, if the
    /// clock can hold it.
    fn expiry(&self, now: u64) -> (expires_at: Option<u64>)
        ensures
            expires_at == (if expiry_fits(now, self.lifetime()) {
                Some((now + self.lifetime()) as u64)
            } else {
                None
            }),
    {
        if self.lifetime <= u64::MAX - now {
            Some(now + self.lifetime)
        } else {
            None
        }
    }

    /// The guard: who the bearer of `token` is at the time `now`.
    pub fn authenticate(&self, store: &SessionStore, token: &str, now: u64) -> (outcome: Result<
        u64,
        AuthError,
    >)
        requires
            store.wf(),
        ensures
            outcome == authentication(self.key(), store@, token@, now),
    {
        let id = match self.codec.verify(token, now) {
            Ok(id) => id,
            Err(_) => {
                return Err(AuthError::Unauthorized);
            },
        };
        match store.find_by_id(id) {
            Ok(session) => if session.is_valid(now) {
                Ok(session.user_id)
            } else {
                Err(AuthError::Unauthorized)
            },
            Err(_) => Err(AuthError::Unauthorized),
        }
    }

    /// Logs a user in: checks the name and the password's digest against
    /// `credentials`, records a session under `fresh_id`, which the caller
    /// drew at random, and hands out its token.
    pub fn login(
        &self,
        store: &mut SessionStore,
        credentials: &CredentialStore,
        username: &str,
        candidate: &[u8],
        fresh_id: u64,
        now: u64,
    ) -> (outcome: Result<String, AuthError>)
        requires
            old(store).wf(),
            credentials.wf(),
        ensures
            final(store).wf(),
            issued(outcome) == login_outcome(
                self.key(),
                self.lifetime(),
                credentials@,
                old(store)@,
                username@,
                candidate@,
                fresh_id,
                now,
            ),
            final(store)@ == login_ledger(
                self.key(),
                self.lifetime(),
                credentials@,
                old(store)@,
                username@,
                candidate@,
                fresh_id,
                now,
            ),
    {
        let user = match credentials.find_by_username(username) {
            Ok(user) => user,
            Err(_) => {
                return Err(AuthError::InvalidCredentials);
            },
        };
        if !credentials.verify_password(&user, candidate) {
            return Err(AuthError::InvalidCredentials);
        }
        let expires_at = match self.expiry(now) {
            Some(expires_at) => expires_at,
            None => {
                return Err(AuthError::Internal);
            },
        };
        let session = Session {
            id: fresh_id,
            user_id: user.id,
            issued_at: now,
            expires_at,
            revoked: false,
            predecessor: None,
        };
        match store.create(session) {
            Ok(_) => Ok(self.codec.issue(fresh_id, expires_at)),
            Err(_) => Err(AuthError::Internal),
        }
    }

    /// The first half of a refresh: verifies `token` and reads its session,
    /// and changes nothing.
    pub fn plan_refresh(
        &self,
        store: &SessionStore,
        token: &str,
        fresh_id: u64,
        now: u64,
    ) -> (plan: Result<Rotation, AuthError>)
        requires
            store.wf(),
        ensures
            plan == rotation_plan(self.key(), self.lifetime(), store@, token@, fresh_id, now),
    {
        let id = match self.codec.verify(token, now) {
            Ok(id) => id,
            Err(TokenError::Malformed) => {
                return Err(AuthError::Malformed);
            },
            Err(TokenError::InvalidSignature) => {
                return Err(AuthError::Unauthorized);
            },
            Err(TokenError::Expired) => {
                return Err(AuthError::SessionInvalid);
            },
        };
        let current = match store.find_by_id(id) {
            Ok(session) => session,
            Err(_) => {
                return Err(AuthError::SessionInvalid);
            },
        };
        if !current.is_valid(now) {
            return Err(AuthError::SessionInvalid);
        }
        match self.expiry(now) {
            Some(expires_at) => Ok(
                Rotation { session_id: id, fresh_id, issued_at: now, expires_at },
            ),
            None => Err(AuthError::Internal),
        }
    }

    /// The second half of a refresh: revokes the session if it is not
    /// revoked yet, and only the call that revoked it records the successor
    /// and hands out its token.
    pub fn commit_refresh(&self, store: &mut SessionStore, rotation: &Rotation) -> (outcome:
        Result<String, AuthError>)
        requires
            old(store).wf(),
        ensures
            final(store).wf(),
            issued(outcome) == commit_outcome(self.key(), old(store)@, *rotation),
            final(store)@ == commit_ledger(self.key(), old(store)@, *rotation),
    {
        let current = match store.find_by_id(rotation.session_id) {
            Ok(session) => session,
            Err(_) => {
                return Err(AuthError::SessionInvalid);
            },
        };
        if current.revoked {
            return Err(AuthError::SessionInvalid);
        }
        if store.find_by_id(rotation.fresh_id).is_ok() {
            return Err(AuthError::Internal);
        }
        let next = Session {
            id: rotation.fresh_id,
            user_id: current.user_id,
            issued_at: rotation.issued_at,
            expires_at: rotation.expires_at,
            revoked: false,
            predecessor: Some(rotation.session_id),
        };
        proof {
            let id = rotation.session_id;
            lemma_unrevoked_has_no_successor(store@, id);
            let revoked = revoked_in(store@, id);
            assert(admissible(revoked, next)) by {
                assert forall|other: u64| #[trigger]
                    revoked.contains_key(other) implies revoked[other].predecessor != Some(
                    id,
                ) by {
                    assert(store@.contains_key(other));
                }
            }
        }
        let _ = store.revoke(rotation.session_id);
        let _ = store.create(next);
        Ok(self.codec.issue(rotation.fresh_id, rotation.expires_at))
    }

    /// Rotates a session: revokes the one that `token` names and records its
    /// successor under `fresh_id`, which the caller drew at random, in one
    /// step. The old token is of no use afterwards.
    pub fn refresh(
        &self,
        store: &mut SessionStore,
        token: &str,
        fresh_id: u64,
        now: u64,
    ) -> (outcome: Result<String, AuthError>)
        requires
            old(store).wf(),
        ensures
            final(store).wf(),
            issued(outcome) == refresh_outcome(
                self.key(),
                self.lifetime(),
                old(store)@,
                token@,
                fresh_id,
                now,
            ),
            final(store)@ == refresh_ledger(
                self.key(),
                self.lifetime(),
                old(store)@,
                token@,
                fresh_id,
                now,
            ),
    {
        match self.plan_refresh(store, token, fresh_id, now) {
            Ok(rotation) => self.commit_refresh(store, &rotation),
            Err(error) => Err(error),
        }
    }

    /// Logs out: revokes the session that `token` names. A session that is
    /// revoked already is left as it is, and the answer is success all the
    /// same.
    pub fn logout(&self, store: &mut SessionStore, token: &str, now: u64) -> (outcome: Result<
        (),
        AuthError,
    >)
        requires
            old(store).wf(),
        ensures
            final(store).wf(),
            outcome == logout_outcome(self.key(), old(store)@, token@, now),
            final(store)@ == logout_ledger(self.key(), old(store)@, token@, now),
    {
        let id = match self.codec.verify(token, now) {
            Ok(id) => id,
            Err(TokenError::Malformed) => {
                return Err(AuthError::Malformed);
            },
            Err(_) => {
                return Err(AuthError::Unauthorized);
            },
        };
        match store.revoke(id) {
            Ok(_) => Ok(()),
            Err(_) => Err(AuthError::NotFound),
        }
    }

    /// Revokes the session that authenticates the request.
    pub fn revoke_current(&self, store: &mut SessionStore, token: &str, now: u64) -> (outcome:
        Result<(), AuthError>)
        requires
            old(store).wf(),
        ensures
            final(store).wf(),
            outcome == revoke_current_outcome(self.key(), old(store)@, token@, now),
            final(store)@ == revoke_current_ledger(self.key(), old(store)@, token@, now),
    {
        let id = match self.codec.verify(token, now) {
            Ok(id) => id,
            Err(_) => {
                return Err(AuthError::Unauthorized);
            },
        };
        match store.find_by_id(id) {
            Ok(session) => if session.is_valid(now) {
                let _ = store.revoke(id);
                Ok(())
            } else {
                Err(AuthError::Unauthorized)
            },
            Err(_) => Err(AuthError::Unauthorized),
        }
    }

    /// Revokes the session `target` on behalf of the user `acting_user`, who
    /// must own it or be elevated.
    pub fn revoke_session(
        &self,
        store: &mut SessionStore,
        acting_user: u64,
        elevated: bool,
        target: u64,
    ) -> (outcome: Result<(), AuthError>)
        requires
            old(store).wf(),
        ensures
            final(store).wf(),
            outcome == revocation_outcome(old(store)@, acting_user, elevated, target),
            final(store)@ == revocation_ledger(old(store)@, acting_user, elevated, target),
    {
        let session = match store.find_by_id(target) {
            Ok(session) => session,
            Err(_) => {
                return Err(AuthError::NotFound);
            },
        };
        if !may_revoke(&session, acting_user, elevated) {
            return Err(AuthError::Forbidden);
        }
        let _ = store.revoke(target);
        Ok(())
    }

    /// Revokes every session of the user `user_id` in one step.
    pub fn revoke_all_sessions(&self, store: &mut SessionStore, user_id: u64)
        requires
            old(store).wf(),
        ensures
            final(store).wf(),
            final(store)@ == revoked_for(old(store)@, user_id),
    {
        store.revoke_all(user_id);
    }
}

} // verus!
