//! Sessions and the session registry.
//!
//! A session is one pairing attempt for one caller-supplied token: up to two
//! participant slots and a one-shot offer flag. The registry maps each live
//! token to its session; a session whose two slots are both empty is never
//! kept (it is deleted the moment it reaches that state).

use vstd::prelude::*;

use crate::assoc::{
    lemma_map_of_contains, lemma_map_of_index, lemma_map_of_push, lemma_map_of_remove,
    lemma_map_of_update, map_of, unique_keys,
};
use crate::protocol::{SessionId, UserId};

verus! {

/// One pairing attempt: the first and second participant to announce the
/// token, and whether an offer has already passed through the session.
#[derive(Clone, Copy, PartialEq, Eq, Structural, Debug)]
pub struct Session {
    pub first: Option<UserId>,
    pub second: Option<UserId>,
    pub offer_received: bool,
}

/// The participant occupies one of the session's two slots.
pub open spec fn occupies(s: Session, u: UserId) -> bool {
    s.first == Some(u) || s.second == Some(u)
}

/// Both slots of the session are empty.
pub open spec fn is_empty_session(s: Session) -> bool {
    s.first is None && s.second is None
}

/// The session after the participant leaves: the `first` slot is cleared
/// when the participant holds it, otherwise the `second` slot is cleared.
pub open spec fn cleared(s: Session, u: UserId) -> Session {
    if s.first == Some(u) {
        Session { first: None, ..s }
    } else {
        Session { second: None, ..s }
    }
}

/// To whom a relayed message goes: the peer of the sender. A sender holding
/// the `first` slot reaches `second`; any other sender reaches `first`.
pub open spec fn recipient_of(s: Session, sender: UserId) -> Option<UserId> {
    if s.first == Some(sender) {
        s.second
    } else {
        s.first
    }
}

impl Session {
    /// Whether the participant occupies one of the two slots.
    pub fn occupied_by(&self, uid: UserId) -> (r: bool)
        ensures
            r == occupies(*self, uid),
    {
        let in_first = match self.first {
            Some(f) => f.id == uid.id,
            None => false,
        };
        let in_second = match self.second {
            Some(s) => s.id == uid.id,
            None => false,
        };
        in_first || in_second
    }

    /// The peer a message from `sender` is forwarded to, if that slot is
    /// occupied.
    pub fn recipient_for(&self, sender: UserId) -> (r: Option<UserId>)
        ensures
            r == recipient_of(*self, sender),
    {
        let first_is_sender = match self.first {
            Some(f) => f.id == sender.id,
            None => false,
        };
        if first_is_sender {
            self.second
        } else {
            self.first
        }
    }

    /// The session after `uid` leaves its slot.
    pub fn without(&self, uid: UserId) -> (r: Session)
        ensures
            r == cleared(*self, uid),
    {
        let in_first = match self.first {
            Some(f) => f.id == uid.id,
            None => false,
        };
        if in_first {
            Session { first: None, second: self.second, offer_received: self.offer_received }
        } else {
            Session { first: self.first, second: None, offer_received: self.offer_received }
        }
    }

    /// Whether both slots are empty.
    pub fn is_empty(&self) -> (r: bool)
        ensures
            r == is_empty_session(*self),
    {
        self.first.is_none() && self.second.is_none()
    }
}

/// One registry slot: a session under its token.
struct SessionEntry {
    id: SessionId,
    session: Session,
}

/// Registry of live sessions, keyed by session token.
pub struct SessionRegistry {
    entries: Vec<SessionEntry>,
}

impl SessionRegistry {
    /// The key/value pairs the registry holds, keys taken by token value.
    pub closed spec fn pairs(&self) -> Seq<(Seq<char>, Session)> {
        self.entries@.map_values(|e: SessionEntry| (e.id@, e.session))
    }

    /// The registry as a map from token to session.
    pub closed spec fn view(&self) -> Map<Seq<char>, Session> {
        map_of(self.pairs())
    }

    /// Tokens are pairwise distinct, so the map view loses nothing.
    pub closed spec fn wf(&self) -> bool {
        unique_keys(self.pairs())
    }

    /// An empty registry.
    pub fn new() -> (r: Self)
        ensures
            r.wf(),
            r@ == Map::<Seq<char>, Session>::empty(),
    {
        let r = SessionRegistry { entries: Vec::new() };
        proof {
            assert(r.pairs() =~= Seq::<(Seq<char>, Session)>::empty());
        }
        r
    }

    /// Position of the token in the entry vector, if present.
    fn index_of(&self, sid: &SessionId) -> (r: Option<usize>)
        ensures
            match r {
                Some(i) => i < self.entries@.len() && self.entries@[i as int].id@ == sid@,
                None => forall|j: int|
                    0 <= j < self.entries@.len() ==> self.entries@[j].id@ != sid@,
            },
    {
        let n = self.entries.len();
        let mut i: usize = 0;
        while i < n
            invariant
                n == self.entries@.len(),
                i <= n,
                forall|j: int| 0 <= j < i ==> self.entries@[j].id@ != sid@,
            decreases n - i,
        {
            if self.entries[i].id.equals(sid) {
                return Some(i);
            }
            i = i + 1;
        }
        None
    }

    /// The session stored under the token, if any.
    pub fn get(&self, sid: &SessionId) -> (r: Option<Session>)
        requires
            self.wf(),
        ensures
            r == (if self@.contains_key(sid@) {
                Some(self@[sid@])
            } else {
                None::<Session>
            }),
    {
        match self.index_of(sid) {
            Some(i) => {
                proof {
                    lemma_map_of_index(self.pairs(), i as int);
                }
                Some(self.entries[i].session)
            },
            None => {
                proof {
                    lemma_map_of_contains(self.pairs(), sid@);
                }
                None
            },
        }
    }

    /// Store the session under the token, creating or overwriting its entry.
    pub fn set(&mut self, sid: &SessionId, s: Session)
        requires
            old(self).wf(),
        ensures
            final(self).wf(),
            final(self)@ == old(self)@.insert(sid@, s),
    {
        let ghost old_pairs = self.pairs();
        match self.index_of(sid) {
            Some(i) => {
                self.entries.set(i, SessionEntry { id: sid.clone(), session: s });
                proof {
                    assert(self.pairs() =~= old_pairs.update(i as int, (sid@, s)));
                    lemma_map_of_update(old_pairs, i as int, s);
                    assert(unique_keys(self.pairs()));
                }
            },
            None => {
                self.entries.push(SessionEntry { id: sid.clone(), session: s });
                proof {
                    assert(self.pairs() =~= old_pairs.push((sid@, s)));
                    lemma_map_of_push(old_pairs, sid@, s);
                    assert(unique_keys(self.pairs()));
                }
            },
        }
    }

    /// Delete the token's entry; a no-op when the token is absent.
    pub fn remove(&mut self, sid: &SessionId)
        requires
            old(self).wf(),
        ensures
            final(self).wf(),
            final(self)@ == old(self)@.remove(sid@),
    {
        let ghost old_pairs = self.pairs();
        match self.index_of(sid) {
            Some(i) => {
                proof {
                    lemma_map_of_remove(old_pairs, i as int);
                }
                self.entries.remove(i);
                proof {
                    assert(self.pairs() =~= old_pairs.remove(i as int));
                    assert(unique_keys(self.pairs()));
                }
            },
            None => {
                proof {
                    lemma_map_of_contains(old_pairs, sid@);
                    assert(self@ =~= self@.remove(sid@));
                }
            },
        }
    }

    /// Some session the participant occupies, under its token; `None` when
    /// the participant occupies no session.
    pub fn find_occupied(&self, uid: UserId) -> (r: Option<SessionId>)
        requires
            self.wf(),
        ensures
            match r {
                Some(sid) => self@.contains_key(sid@) && occupies(self@[sid@], uid),
                None => forall|t: Seq<char>|
                    self@.contains_key(t) ==> !occupies(self@[t], uid),
            },
    {
        let n = self.entries.len();
        let mut i: usize = 0;
        while i < n
            invariant
                self.wf(),
                n == self.entries@.len(),
                i <= n,
                forall|j: int| 0 <= j < i ==> !occupies(self.entries@[j].session, uid),
            decreases n - i,
        {
            if self.entries[i].session.occupied_by(uid) {
                proof {
                    lemma_map_of_index(self.pairs(), i as int);
                }
                return Some(self.entries[i].id.clone());
            }
            i = i + 1;
        }
        proof {
            assert forall|t: Seq<char>|
                self@.contains_key(t) implies !occupies(self@[t], uid) by {
                lemma_map_of_contains(self.pairs(), t);
                let j = choose|j: int| 0 <= j < self.pairs().len() && self.pairs()[j].0 == t;
                lemma_map_of_index(self.pairs(), j);
            }
        }
        None
    }
}

} // verus!
