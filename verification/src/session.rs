//! Sessions and the ledger that records them.
//!
//! A session is one authenticated login. The ledger maps each session's
//! identifier to its record; records are added, and changed only by setting
//! `revoked`, never removed.

use vstd::prelude::*;

verus! {

/// One authenticated login.
#[derive(Clone, Copy, Debug, PartialEq, Eq, Structural)]
pub struct Session {
    /// The session's identifier: unique in the ledger, and hard to guess.
    pub id: u64,
    /// The user who owns the session.
    pub user_id: u64,
    /// When the session was issued, in seconds.
    pub issued_at: u64,
    /// The first moment at which the session is no longer valid, in seconds.
    pub expires_at: u64,
    /// Whether the session was revoked. Once set, it stays set.
    pub revoked: bool,
    /// The session that a refresh replaced by this one.
    pub predecessor: Option<u64>,
}

impl Session {
    /// A session is valid as long as it is neither revoked nor expired.
    pub open spec fn valid_at(self, now: u64) -> bool {
        !self.revoked && now < self.expires_at
    }

    /// This session, revoked.
    pub open spec fn revoked_copy(self) -> Session {
        Session { revoked: true, ..self }
    }

    /// Whether the session is valid at the time `now`.
    pub fn is_valid(&self, now: u64) -> (valid: bool)
        ensures
            valid == self.valid_at(now),
    {
        !self.revoked && now < self.expires_at
    }

    /// This session, revoked; every other field as it was.
    pub fn revoke(&self) -> (session: Session)
        ensures
            session == self.revoked_copy(),
    {
        Session {
            id: self.id,
            user_id: self.user_id,
            issued_at: self.issued_at,
            expires_at: self.expires_at,
            revoked: true,
            predecessor: self.predecessor,
        }
    }
}

/// The records of a ledger, by session identifier.
pub type Ledger = Map<u64, Session>;

/// The constraints that every ledger meets: a record is filed under its own
/// identifier; a session that replaced another names one that is on record,
/// revoked, and owned by the same user; and no session was replaced twice.
pub open spec fn ledger_wf(ledger: Ledger) -> bool {
    &&& forall|id: u64| #[trigger] ledger.contains_key(id) ==> ledger[id].id == id
    &&& forall|id: u64| #[trigger]
        ledger.contains_key(id) && ledger[id].predecessor is Some ==> {
            let before = ledger[id].predecessor->0;
            &&& ledger.contains_key(before)
            &&& ledger[before].revoked
            &&& ledger[before].user_id == ledger[id].user_id
        }
    &&& forall|a: u64, b: u64|
        #![trigger ledger.contains_key(a), ledger.contains_key(b)]
        ledger.contains_key(a) && ledger.contains_key(b) && ledger[a].predecessor is Some
            && ledger[a].predecessor == ledger[b].predecessor ==> a == b
}

/// Whether some session on record replaced the session `id`.
pub open spec fn has_successor(ledger: Ledger, id: u64) -> bool {
    exists|next: u64| #[trigger] ledger.contains_key(next) && ledger[next].predecessor == Some(id)
}

/// Whether `session` may be added to `ledger`: its identifier is new, and if
/// it replaces a session, that one is on record, revoked, owned by the same
/// user, and not replaced yet.
pub open spec fn admissible(ledger: Ledger, session: Session) -> bool {
    &&& !ledger.contains_key(session.id)
    &&& session.predecessor matches Some(before) ==> {
        &&& ledger.contains_key(before)
        &&& ledger[before].revoked
        &&& ledger[before].user_id == session.user_id
        &&& !has_successor(ledger, before)
    }
}

/// The ledger after the session `id` was revoked. A session that is not on
/// record, or is revoked already, leaves the ledger as it was.
pub open spec fn revoked_in(ledger: Ledger, id: u64) -> Ledger {
    if ledger.contains_key(id) {
        ledger.insert(id, ledger[id].revoked_copy())
    } else {
        ledger
    }
}

/// The ledger after every session of the user `user_id` was revoked.
pub open spec fn revoked_for(ledger: Ledger, user_id: u64) -> Ledger {
    Map::new(
        |id: u64| ledger.contains_key(id),
        |id: u64|
            if ledger[id].user_id == user_id {
                ledger[id].revoked_copy()
            } else {
                ledger[id]
            },
    )
}

/// Whether `after` keeps every record of `before`: each session is still on
/// record, and is as it was or as it was but revoked. Nothing is removed,
/// nothing is un-revoked, and no expiry moves.
pub open spec fn keeps(before: Ledger, after: Ledger) -> bool {
    forall|id: u64| #[trigger]
        before.contains_key(id) ==> after.contains_key(id) && (after[id] == before[id]
            || after[id] == before[id].revoked_copy())
}

/// Revoking a session keeps the ledger's constraints.
pub proof fn lemma_revoke_keeps_wf(ledger: Ledger, id: u64)
    requires
        ledger_wf(ledger),
    ensures
        ledger_wf(revoked_in(ledger, id)),
{
    let after = revoked_in(ledger, id);
    assert forall|a: u64| #[trigger] after.contains_key(a) implies ledger.contains_key(a)
        && after[a].id == ledger[a].id && after[a].predecessor == ledger[a].predecessor
        && after[a].user_id == ledger[a].user_id && (ledger[a].revoked ==> after[a].revoked) by {}
    assert forall|a: u64| #[trigger]
        after.contains_key(a) && after[a].predecessor is Some implies {
        let before = after[a].predecessor->0;
        &&& after.contains_key(before)
        &&& after[before].revoked
        &&& after[before].user_id == after[a].user_id
    } by {
        let before = ledger[a].predecessor->0;
        assert(ledger.contains_key(before));
        assert(after.contains_key(before));
    }
}

/// Revoking all sessions of a user keeps the ledger's constraints.
pub proof fn lemma_revoke_all_keeps_wf(ledger: Ledger, user_id: u64)
    requires
        ledger_wf(ledger),
    ensures
        ledger_wf(revoked_for(ledger, user_id)),
{
    let after = revoked_for(ledger, user_id);
    assert forall|a: u64| #[trigger]
        after.contains_key(a) && after[a].predecessor is Some implies {
        let before = after[a].predecessor->0;
        &&& after.contains_key(before)
        &&& after[before].revoked
        &&& after[before].user_id == after[a].user_id
    } by {
        let before = ledger[a].predecessor->0;
        assert(ledger.contains_key(before));
        assert(after.contains_key(before));
    }
}

/// Adding an admissible session keeps the ledger's constraints.
pub proof fn lemma_insert_keeps_wf(ledger: Ledger, session: Session)
    requires
        ledger_wf(ledger),
        admissible(ledger, session),
    ensures
        ledger_wf(ledger.insert(session.id, session)),
{
    let after = ledger.insert(session.id, session);
    assert forall|a: u64| #[trigger]
        after.contains_key(a) && after[a].predecessor is Some implies {
        let before = after[a].predecessor->0;
        &&& after.contains_key(before)
        &&& after[before].revoked
        &&& after[before].user_id == after[a].user_id
    } by {
        if a != session.id {
            let before = ledger[a].predecessor->0;
            assert(ledger.contains_key(a));
            assert(ledger.contains_key(before));
        }
    }
    assert forall|a: u64, b: u64|
        #![trigger after.contains_key(a), after.contains_key(b)]
        after.contains_key(a) && after.contains_key(b) && after[a].predecessor is Some
            && after[a].predecessor == after[b].predecessor implies a == b by {
        if a != b {
            if a == session.id {
                assert(ledger.contains_key(b));
                assert(has_successor(ledger, session.predecessor->0));
            } else if b == session.id {
                assert(ledger.contains_key(a));
                assert(has_successor(ledger, session.predecessor->0));
            } else {
                assert(ledger.contains_key(a) && ledger.contains_key(b));
            }
        }
    }
}

/// A session that is not revoked was not replaced.
pub proof fn lemma_unrevoked_has_no_successor(ledger: Ledger, id: u64)
    requires
        ledger_wf(ledger),
        ledger.contains_key(id),
        !ledger[id].revoked,
    ensures
        !has_successor(ledger, id),
{
    if has_successor(ledger, id) {
        let next = choose|next: u64| #[trigger]
            ledger.contains_key(next) && ledger[next].predecessor == Some(id);
        assert(ledger.contains_key(next) && ledger[next].predecessor is Some);
    }
}

} // verus!
