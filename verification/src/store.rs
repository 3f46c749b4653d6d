//! The session store: the ledger as it is kept, row by row.
//!
//! Every change is one conditional update. Revoking only ever turns
//! `revoked` from false to true, so revoking twice is safe, and a row is
//! never removed. A session is looked up through an index from identifier
//! to row, not by a walk through the rows.

use crate::error::AuthError;
use crate::session::{
    admissible, has_successor, ledger_wf, lemma_insert_keeps_wf, lemma_revoke_keeps_wf, revoked_for,
    revoked_in, Ledger, Session,
};
use crate::table::{
    distinct_keys, holds, lemma_key_has_row, lemma_push_row, lemma_row_recorded, lemma_update_row,
    row_of, table_of,
};
use std::collections::HashMap;
use vstd::prelude::*;
use vstd::std_specs::hash::group_hash_axioms;

verus! {

broadcast use group_hash_axioms;

/// The identifier under which a session is kept.
pub open spec fn session_key() -> spec_fn(Session) -> u64 {
    |session: Session| session.id
}

/// The ledger that the rows record.
pub open spec fn ledger_of(rows: Seq<Session>) -> Ledger {
    table_of(rows, session_key())
}

/// Whether the rows make a store: distinct identifiers, and a ledger that
/// meets its constraints.
pub open spec fn rows_wf(rows: Seq<Session>) -> bool {
    distinct_keys(rows, session_key()) && ledger_wf(ledger_of(rows))
}

/// Whether the rows can be loaded one after the other: each is admissible
/// to the ledger of the rows before it.
pub open spec fn loadable(rows: Seq<Session>) -> bool
    decreases rows.len(),
{
    rows.len() == 0 || (loadable(rows.drop_last()) && admissible(
        ledger_of(rows.drop_last()),
        rows.last(),
    ))
}

/// Rows that can be loaded can be loaded up to any row, and the next row is
/// admissible there.
pub proof fn lemma_loadable_prefix(rows: Seq<Session>, n: int)
    requires
        loadable(rows),
        0 <= n <= rows.len(),
    ensures
        loadable(rows.subrange(0, n)),
        n < rows.len() ==> admissible(ledger_of(rows.subrange(0, n)), rows[n]),
    decreases rows.len(),
{
    if n == rows.len() {
        assert(rows.subrange(0, n) =~= rows);
    } else if n == rows.len() - 1 {
        assert(rows.subrange(0, n) =~= rows.drop_last());
    } else {
        lemma_loadable_prefix(rows.drop_last(), n);
        assert(rows.drop_last().subrange(0, n) =~= rows.subrange(0, n));
    }
}

/// Whether `index` leads to each row, and to nothing else, by the row's
/// identifier.
pub open spec fn finds(index: Map<u64, usize>, rows: Seq<Session>) -> bool {
    &&& forall|id: u64| #[trigger]
        index.contains_key(id) ==> index[id] < rows.len() && rows[index[id] as int].id == id
    &&& forall|i: int| 0 <= i < rows.len() ==> index.contains_key((#[trigger] rows[i]).id)
}

/// The sessions that the service has issued.
pub struct SessionStore {
    rows: Vec<Session>,
    index: HashMap<u64, usize>,
}

impl View for SessionStore {
    type V = Ledger;

    open spec fn view(&self) -> Ledger {
        ledger_of(self.rows())
    }
}

impl SessionStore {
    /// The rows of the store, in the order in which they were added.
    pub closed spec fn rows(&self) -> Seq<Session> {
        self.rows@
    }

    /// Whether the index of the store leads to its rows.
    pub closed spec fn indexed(&self) -> bool {
        finds(self.index@, self.rows@)
    }

    /// Whether the store is sound: its rows are, see `rows_wf`, and its
    /// index leads to them. Every store that this module hands out is.
    pub open spec fn wf(&self) -> bool {
        rows_wf(self.rows()) && self.indexed()
    }

    /// A store without sessions.
    pub fn new() -> (store: SessionStore)
        ensures
            store.wf(),
            store@ == Map::<u64, Session>::empty(),
            store.rows() == Seq::<Session>::empty(),
    {
        let store = SessionStore { rows: Vec::new(), index: HashMap::new() };
        assert(store@ =~= Map::<u64, Session>::empty());
        store
    }

    /// The store that holds `rows`, loaded one after the other, or nothing if
    /// one of them is not admissible where it stands.
    pub fn restore(rows: Vec<Session>) -> (store: Option<SessionStore>)
        ensures
            store is Some <==> loadable(rows@),
            store matches Some(loaded) ==> loaded.wf() && loaded.rows() == rows@,
    {
        let mut store = SessionStore::new();
        let mut i: usize = 0;
        assert(rows@.subrange(0, 0) =~= Seq::<Session>::empty());
        while i < rows.len()
            invariant
                i <= rows@.len(),
                store.wf(),
                store.rows() == rows@.subrange(0, i as int),
                loadable(rows@.subrange(0, i as int)),
            decreases rows@.len() - i,
        {
            let ghost next = rows@.subrange(0, i + 1);
            assert(next.drop_last() =~= rows@.subrange(0, i as int));
            assert(next =~= rows@.subrange(0, i as int).push(rows@[i as int]));
            if store.create(rows[i]).is_err() {
                proof {
                    if loadable(rows@) {
                        lemma_loadable_prefix(rows@, i as int);
                    }
                }
                return None;
            }
            i = i + 1;
        }
        assert(rows@.subrange(0, i as int) =~= rows@);
        Some(store)
    }

    /// The place of the row for `id`, as the index gives it.
    fn position(&self, id: u64) -> (place: Option<usize>)
        requires
            self.wf(),
        ensures
            place matches Some(i) ==> i < self.rows@.len() && self.rows@[i as int].id == id
                && self@.contains_key(id) && self@[id] == self.rows@[i as int],
            place is None ==> !self@.contains_key(id),
    {
        match self.index.get(&id) {
            Some(place) => {
                let i = *place;
                proof {
                    lemma_row_recorded(self.rows@, session_key(), i as int);
                }
                Some(i)
            },
            None => {
                proof {
                    if self@.contains_key(id) {
                        lemma_key_has_row(self.rows@, session_key(), id);
                        let k = row_of(self.rows@, session_key(), id);
                        assert(self.index@.contains_key(self.rows@[k].id));
                    }
                }
                None
            },
        }
    }

    /// The session `id`, or `NotFound`. This is the one read path of the
    /// store.
    pub fn find_by_id(&self, id: u64) -> (found: Result<Session, AuthError>)
        requires
            self.wf(),
        ensures
            found == (if self@.contains_key(id) {
                Ok::<Session, AuthError>(self@[id])
            } else {
                Err::<Session, AuthError>(AuthError::NotFound)
            }),
    {
        match self.position(id) {
            Some(i) => Ok(self.rows[i]),
            None => Err(AuthError::NotFound),
        }
    }

    /// Whether some session on record replaced the session `id`.
    fn replaced(&self, id: u64) -> (found: bool)
        requires
            self.wf(),
        ensures
            found == has_successor(self@, id),
    {
        let mut i: usize = 0;
        while i < self.rows.len()
            invariant
                i <= self.rows@.len(),
                distinct_keys(self.rows@, session_key()),
                forall|k: int| 0 <= k < i ==> self.rows@[k].predecessor != Some(id),
            decreases self.rows@.len() - i,
        {
            if self.rows[i].predecessor == Some(id) {
                proof {
                    lemma_row_recorded(self.rows@, session_key(), i as int);
                    assert(self@.contains_key(self.rows@[i as int].id));
                }
                return true;
            }
            i = i + 1;
        }
        proof {
            if has_successor(self@, id) {
                let next = choose|next: u64| #[trigger]
                    self@.contains_key(next) && self@[next].predecessor == Some(id);
                let k = row_of(self.rows@, session_key(), next);
                lemma_key_has_row(self.rows@, session_key(), next);
                lemma_row_recorded(self.rows@, session_key(), k);
            }
        }
        false
    }

    /// Whether `session` may be added: see `admissible`.
    pub fn admits(&self, session: &Session) -> (ok: bool)
        requires
            self.wf(),
        ensures
            ok == admissible(self@, *session),
    {
        if self.position(session.id).is_some() {
            return false;
        }
        match session.predecessor {
            None => true,
            Some(before) => match self.position(before) {
                None => false,
                Some(i) => self.rows[i].revoked && self.rows[i].user_id == session.user_id
                    && !self.replaced(before),
            },
        }
    }

    /// Adds `session` as it is given and hands it back. A session that the
    /// ledger does not admit is a `Conflict`, and the store stays as it was.
    pub fn create(&mut self, session: Session) -> (created: Result<Session, AuthError>)
        requires
            old(self).wf(),
        ensures
            final(self).wf(),
            admissible(old(self)@, session) ==> created == Ok::<Session, AuthError>(session)
                && final(self)@ == old(self)@.insert(session.id, session) && final(self).rows()
                == old(self).rows().push(session),
            !admissible(old(self)@, session) ==> created == Err::<Session, AuthError>(
                AuthError::Conflict,
            ) && final(self)@ == old(self)@ && final(self).rows() == old(self).rows(),
    {
        if !self.admits(&session) {
            return Err(AuthError::Conflict);
        }
        proof {
            lemma_push_row(self.rows@, session_key(), session);
            lemma_insert_keeps_wf(self@, session);
        }
        let place = self.rows.len();
        self.rows.push(session);
        self.index.insert(session.id, place);
        proof {
            let rows = self.rows@;
            let index = self.index@;
            assert forall|id: u64| #[trigger] index.contains_key(id) implies index[id] < rows.len()
                && rows[index[id] as int].id == id by {
                if id != session.id {
                    assert(old(self).index@.contains_key(id));
                }
            }
            assert forall|i: int| 0 <= i < rows.len() implies index.contains_key(
                (#[trigger] rows[i]).id,
            ) by {
                if i < place {
                    assert(old(self).index@.contains_key(old(self).rows@[i].id));
                }
            }
        }
        Ok(session)
    }

    /// Revokes the session `id` if it is not revoked yet, and says whether
    /// this call was the one that revoked it. Without such a session the
    /// store stays as it was and the answer is `NotFound`.
    pub fn revoke(&mut self, id: u64) -> (revoked: Result<bool, AuthError>)
        requires
            old(self).wf(),
        ensures
            final(self).wf(),
            final(self)@ == revoked_in(old(self)@, id),
            revoked == (if old(self)@.contains_key(id) {
                Ok::<bool, AuthError>(!old(self)@[id].revoked)
            } else {
                Err::<bool, AuthError>(AuthError::NotFound)
            }),
    {
        match self.position(id) {
            None => Err(AuthError::NotFound),
            Some(i) => {
                let row = self.rows[i];
                if row.revoked {
                    assert(self@ =~= revoked_in(self@, id));
                    Ok(false)
                } else {
                    proof {
                        lemma_update_row(self.rows@, session_key(), i as int, row.revoked_copy());
                        lemma_revoke_keeps_wf(self@, id);
                    }
                    self.rows.set(i, row.revoke());
                    proof {
                        self.lemma_same_identifiers(old(self).rows@);
                    }
                    Ok(true)
                }
            },
        }
    }

    /// Revokes every session of the user `user_id` in one step.
    pub fn revoke_all(&mut self, user_id: u64)
        requires
            old(self).wf(),
        ensures
            final(self).wf(),
            final(self)@ == revoked_for(old(self)@, user_id),
    {
        let mut i: usize = 0;
        while i < self.rows.len()
            invariant
                i <= self.rows@.len(),
                self.rows@.len() == old(self).rows@.len(),
                rows_wf(old(self).rows@),
                rows_wf(self.rows@),
                self.indexed(),
                forall|k: int|
                    0 <= k < i ==> #[trigger] self.rows@[k] == (if old(self).rows@[k].user_id
                        == user_id {
                        old(self).rows@[k].revoked_copy()
                    } else {
                        old(self).rows@[k]
                    }),
                forall|k: int| i <= k < self.rows@.len() ==> self.rows@[k] == old(self).rows@[k],
            decreases self.rows@.len() - i,
        {
            let row = self.rows[i];
            if row.user_id == user_id {
                proof {
                    lemma_update_row(self.rows@, session_key(), i as int, row.revoked_copy());
                    lemma_row_recorded(self.rows@, session_key(), i as int);
                    lemma_revoke_keeps_wf(self@, row.id);
                }
                let ghost before = self.rows@;
                self.rows.set(i, row.revoke());
                proof {
                    self.lemma_same_identifiers(before);
                }
            }
            i = i + 1;
        }
        proof {
            let before = old(self).rows@;
            let after = self.rows@;
            let key = session_key();
            assert forall|id: u64| holds(after, key, id) <==> holds(before, key, id) by {
                if holds(after, key, id) {
                    let k = row_of(after, key, id);
                    assert(key(before[k]) == id);
                }
                if holds(before, key, id) {
                    let k = row_of(before, key, id);
                    assert(key(after[k]) == id);
                }
            }
            assert forall|id: u64| holds(after, key, id) implies #[trigger] ledger_of(after)[id]
                == revoked_for(ledger_of(before), user_id)[id] by {
                let k = row_of(after, key, id);
                lemma_row_recorded(after, key, k);
                lemma_row_recorded(before, key, k);
            }
            assert(ledger_of(after) =~= revoked_for(ledger_of(before), user_id));
        }
    }

    /// An index that led to rows leads to the rows that have taken their
    /// places under the same identifiers.
    proof fn lemma_same_identifiers(&self, before: Seq<Session>)
        requires
            finds(self.index@, before),
            before.len() == self.rows@.len(),
            forall|k: int| 0 <= k < before.len() ==> before[k].id == self.rows@[k].id,
        ensures
            self.indexed(),
    {
        let rows = self.rows@;
        let index = self.index@;
        assert forall|i: int| 0 <= i < rows.len() implies index.contains_key(
            (#[trigger] rows[i]).id,
        ) by {
            assert(index.contains_key(before[i].id));
        }
    }

    /// The number of sessions on record.
    pub fn len(&self) -> (count: usize)
        ensures
            count == self.rows().len(),
    {
        self.rows.len()
    }

    /// The `index`-th session in the order in which they were added.
    pub fn row(&self, index: usize) -> (session: Option<Session>)
        requires
            self.wf(),
        ensures
            session == (if index < self.rows().len() {
                Some(self.rows()[index as int])
            } else {
                None
            }),
            session matches Some(s) ==> self@.contains_key(s.id) && self@[s.id] == s,
    {
        if index < self.rows.len() {
            proof {
                lemma_row_recorded(self.rows@, session_key(), index as int);
            }
            Some(self.rows[index])
        } else {
            None
        }
    }
}

} // verus!
