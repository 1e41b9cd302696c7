//! Live connections and their outbound queues.
//!
//! The connection registry maps each connected participant to its outbound
//! delivery queue: the ordered sequence of messages routed to that
//! participant and not yet handed to its transport. The transport layer
//! drains the queue; this library only appends to it.

use vstd::prelude::*;

use crate::assoc::{
    lemma_map_of_contains, lemma_map_of_index, lemma_map_of_push, lemma_map_of_remove,
    lemma_map_of_update, map_of, unique_keys,
};
use crate::protocol::{MessageModel, SignalMessage, UserId};

verus! {

/// One registry slot: a participant and its pending outbound messages.
struct ConnectionEntry {
    id: UserId,
    outbox: Vec<SignalMessage>,
}

/// Registry of live connections, keyed by participant identity.
pub struct ConnectionRegistry {
    entries: Vec<ConnectionEntry>,
}

impl ConnectionRegistry {
    /// The key/value pairs the registry holds.
    pub closed spec fn pairs(&self) -> Seq<(UserId, Seq<MessageModel>)> {
        self.entries@.map_values(|e: ConnectionEntry| (e.id, e.outbox.deep_view()))
    }

    /// The registry as a map from participant to its queued messages.
    pub closed spec fn view(&self) -> Map<UserId, Seq<MessageModel>> {
        map_of(self.pairs())
    }

    /// Identities are pairwise distinct, so the map view loses nothing.
    pub closed spec fn wf(&self) -> bool {
        unique_keys(self.pairs())
    }

    /// An empty registry.
    pub fn new() -> (r: Self)
        ensures
            r.wf(),
            r@ == Map::<UserId, Seq<MessageModel>>::empty(),
    {
        let r = ConnectionRegistry { entries: Vec::new() };
        proof {
            assert(r.pairs() =~= Seq::<(UserId, Seq<MessageModel>)>::empty());
        }
        r
    }

    /// Position of the participant in the entry vector, if present.
    fn index_of(&self, uid: UserId) -> (r: Option<usize>)
        ensures
            match r {
                Some(i) => i < self.entries@.len() && self.entries@[i as int].id == uid,
                None => forall|j: int|
                    0 <= j < self.entries@.len() ==> self.entries@[j].id != uid,
            },
    {
        let n = self.entries.len();
        let mut i: usize = 0;
        while i < n
            invariant
                n == self.entries@.len(),
                i <= n,
                forall|j: int| 0 <= j < i ==> self.entries@[j].id != uid,
            decreases n - i,
        {
            if self.entries[i].id.id == uid.id {
                return Some(i);
            }
            i = i + 1;
        }
        None
    }

    /// Whether the participant has a live connection entry.
    pub fn contains(&self, uid: UserId) -> (r: bool)
        requires
            self.wf(),
        ensures
            r == self@.contains_key(uid),
    {
        proof {
            lemma_map_of_contains(self.pairs(), uid);
        }
        match self.index_of(uid) {
            Some(i) => {
                proof {
                    assert(self.pairs()[i as int].0 == uid);
                }
                true
            },
            None => false,
        }
    }

    /// Register the participant with an empty delivery queue, creating or
    /// overwriting its entry.
    pub fn register(&mut self, uid: UserId)
        requires
            old(self).wf(),
        ensures
            final(self).wf(),
            final(self)@ == old(self)@.insert(uid, Seq::<MessageModel>::empty()),
    {
        let ghost old_pairs = self.pairs();
        let e = ConnectionEntry { id: uid, outbox: Vec::new() };
        proof {
            assert(e.outbox.deep_view() =~= Seq::<MessageModel>::empty());
        }
        match self.index_of(uid) {
            Some(i) => {
                self.entries.set(i, e);
                proof {
                    assert(self.pairs() =~= old_pairs.update(
                        i as int,
                        (uid, Seq::<MessageModel>::empty()),
                    ));
                    lemma_map_of_update(old_pairs, i as int, Seq::<MessageModel>::empty());
                    assert(unique_keys(self.pairs()));
                }
            },
            None => {
                self.entries.push(e);
                proof {
                    assert(self.pairs() =~= old_pairs.push(
                        (uid, Seq::<MessageModel>::empty()),
                    ));
                    lemma_map_of_push(old_pairs, uid, Seq::<MessageModel>::empty());
                    assert(unique_keys(self.pairs()));
                }
            },
        }
    }

    /// Append a message to the participant's delivery queue. Returns whether
    /// the participant had an entry; without one, nothing changes.
    pub fn enqueue(&mut self, uid: UserId, msg: SignalMessage) -> (r: bool)
        requires
            old(self).wf(),
        ensures
            final(self).wf(),
            r == old(self)@.contains_key(uid),
            r ==> final(self)@ == old(self)@.insert(uid, old(self)@[uid].push(msg@)),
            !r ==> final(self)@ == old(self)@,
    {
        let ghost old_pairs = self.pairs();
        proof {
            lemma_map_of_contains(old_pairs, uid);
        }
        match self.index_of(uid) {
            Some(i) => {
                proof {
                    assert(old_pairs[i as int].0 == uid);
                    lemma_map_of_index(old_pairs, i as int);
                }
                let ghost m = msg@;
                let mut e = ConnectionEntry { id: uid, outbox: Vec::new() };
                self.entries.set_and_swap(i, &mut e);
                let ghost old_outbox = e.outbox.deep_view();
                e.outbox.push(msg);
                proof {
                    assert(e.outbox.deep_view() =~= old_outbox.push(m));
                }
                self.entries.set(i, e);
                proof {
                    assert(self.pairs() =~= old_pairs.update(i as int, (uid, old_outbox.push(m))));
                    lemma_map_of_update(old_pairs, i as int, old_outbox.push(m));
                    assert(unique_keys(self.pairs()));
                }
                true
            },
            None => false,
        }
    }

    /// Delete the participant's entry; a no-op when it is absent. Pending
    /// queued messages are discarded with the connection.
    pub fn unregister(&mut self, uid: UserId)
        requires
            old(self).wf(),
        ensures
            final(self).wf(),
            final(self)@ == old(self)@.remove(uid),
    {
        let ghost old_pairs = self.pairs();
        match self.index_of(uid) {
            Some(i) => {
                proof {
                    assert(old_pairs[i as int].0 == uid);
                    lemma_map_of_remove(old_pairs, i as int);
                }
                self.entries.remove(i);
                proof {
                    assert(self.pairs() =~= old_pairs.remove(i as int));
                    assert(unique_keys(self.pairs()));
                }
            },
            None => {
                proof {
                    lemma_map_of_contains(old_pairs, uid);
                    assert(self@ =~= self@.remove(uid));
                }
            },
        }
    }

    /// Take every message queued for the participant, leaving its queue
    /// empty; the messages come out in the order the router enqueued them.
    /// Returns an empty vector for a participant without an entry.
    pub fn drain(&mut self, uid: UserId) -> (r: Vec<SignalMessage>)
        requires
            old(self).wf(),
        ensures
            final(self).wf(),
            old(self)@.contains_key(uid) ==> r.deep_view() == old(self)@[uid] && final(self)@
                == old(self)@.insert(uid, Seq::<MessageModel>::empty()),
            !old(self)@.contains_key(uid) ==> r.deep_view() == Seq::<MessageModel>::empty()
                && final(self)@ == old(self)@,
    {
        let ghost old_pairs = self.pairs();
        proof {
            lemma_map_of_contains(old_pairs, uid);
        }
        match self.index_of(uid) {
            Some(i) => {
                proof {
                    assert(old_pairs[i as int].0 == uid);
                    lemma_map_of_index(old_pairs, i as int);
                }
                let mut e = ConnectionEntry { id: uid, outbox: Vec::new() };
                proof {
                    assert(e.outbox.deep_view() =~= Seq::<MessageModel>::empty());
                }
                self.entries.set_and_swap(i, &mut e);
                proof {
                    assert(self.pairs() =~= old_pairs.update(
                        i as int,
                        (uid, Seq::<MessageModel>::empty()),
                    ));
                    lemma_map_of_update(old_pairs, i as int, Seq::<MessageModel>::empty());
                    assert(unique_keys(self.pairs()));
                }
                e.outbox
            },
            None => {
                let r = Vec::new();
                proof {
                    assert(r.deep_view() =~= Seq::<MessageModel>::empty());
                }
                r
            },
        }
    }
}

} // verus!
