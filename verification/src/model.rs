//! The mathematical model of the service: its state as two maps and a
//! counter, and one transition function per event.
//!
//! Every executable operation of the server promises that its result state
//! is exactly the one these transition functions give, so every property of
//! the service can be stated and proved over this model.

use vstd::prelude::*;

use crate::protocol::{MessageModel, UserId};
use crate::session::{cleared, is_empty_session, recipient_of, Session};

verus! {

/// The state of the service: the session registry, the connection registry
/// with each participant's queue of not-yet-delivered outbound messages, and
/// the next participant identity to issue.
pub struct StateModel {
    pub sessions: Map<Seq<char>, Session>,
    pub connections: Map<UserId, Seq<MessageModel>>,
    pub next_user: usize,
}

/// A routing failure. Every failure is contained to the one message being
/// routed: the message is dropped and no reply is sent to its sender.
#[derive(Clone, Copy, PartialEq, Eq, Structural, Debug)]
pub enum RouteError {
    /// An offer, answer or candidate named a token with no session record.
    UnknownSession,
    /// The resolved recipient slot of the session is empty.
    MissingPartner,
    /// The resolved recipient has no connection entry.
    MissingHandle,
}

/// The connection map after one message is appended to a participant's
/// delivery queue.
pub open spec fn enqueued(
    c: Map<UserId, Seq<MessageModel>>,
    to: UserId,
    m: MessageModel,
) -> Map<UserId, Seq<MessageModel>> {
    c.insert(to, c[to].push(m))
}

/// The session token a message names.
pub open spec fn token_of(m: MessageModel) -> Seq<char> {
    match m {
        MessageModel::SessionJoin(sid) => sid,
        MessageModel::SdpOffer(sid, _) => sid,
        MessageModel::SdpAnswer(sid, _) => sid,
        MessageModel::IceCandidate(sid, _) => sid,
        MessageModel::SessionReady(sid, _) => sid,
    }
}

/// A participant joins the session named `sid`.
///
/// With no session under the token, a fresh one is created with the joiner
/// in the `first` slot and nobody is notified. With an existing session, the
/// joiner takes the `second` slot (displacing any earlier holder), and when
/// the `first` slot is occupied both sides are notified that the session is
/// ready: the first joiner with `true`, the new joiner with `false`, in that
/// order. A notification whose recipient has no connection entry stops the
/// exchange with `MissingHandle`; the slot assignment, and any notification
/// already queued, stand.
pub open spec fn join_step(st: StateModel, sender: UserId, sid: Seq<char>) -> (
    StateModel,
    Result<(), RouteError>,
) {
    if !st.sessions.contains_key(sid) {
        (
            StateModel {
                sessions: st.sessions.insert(
                    sid,
                    Session { first: Some(sender), second: None, offer_received: false },
                ),
                ..st
            },
            Ok(()),
        )
    } else {
        let prior = st.sessions[sid];
        let st1 = StateModel {
            sessions: st.sessions.insert(sid, Session { second: Some(sender), ..prior }),
            ..st
        };
        match prior.first {
            None => (st1, Ok(())),
            Some(first_id) => {
                if !st.connections.contains_key(first_id) {
                    (st1, Err(RouteError::MissingHandle))
                } else {
                    let st2 = StateModel {
                        connections: enqueued(
                            st1.connections,
                            first_id,
                            MessageModel::SessionReady(sid, true),
                        ),
                        ..st1
                    };
                    if !st.connections.contains_key(sender) {
                        (st2, Err(RouteError::MissingHandle))
                    } else {
                        (
                            StateModel {
                                connections: enqueued(
                                    st2.connections,
                                    sender,
                                    MessageModel::SessionReady(sid, false),
                                ),
                                ..st2
                            },
                            Ok(()),
                        )
                    }
                }
            },
        }
    }
}

/// An offer, answer or candidate from `sender` is relayed to the peer.
///
/// The session is looked up by the token the message names; an offer marks
/// the session's offer flag (a redundant offer leaves it set and is still
/// forwarded). The recipient is whichever slot the sender does not hold;
/// the message is appended verbatim to the recipient's delivery queue. On
/// any failure the message is dropped, but an offer's flag update stands.
pub open spec fn relay_step(st: StateModel, sender: UserId, m: MessageModel) -> (
    StateModel,
    Result<(), RouteError>,
)
    recommends
        m is SdpOffer || m is SdpAnswer || m is IceCandidate,
{
    let sid = token_of(m);
    if !st.sessions.contains_key(sid) {
        (st, Err(RouteError::UnknownSession))
    } else {
        let prior = st.sessions[sid];
        let st1 = if m is SdpOffer {
            StateModel {
                sessions: st.sessions.insert(sid, Session { offer_received: true, ..prior }),
                ..st
            }
        } else {
            st
        };
        match recipient_of(prior, sender) {
            None => (st1, Err(RouteError::MissingPartner)),
            Some(recipient) => {
                if !st.connections.contains_key(recipient) {
                    (st1, Err(RouteError::MissingHandle))
                } else {
                    (
                        StateModel { connections: enqueued(st1.connections, recipient, m), ..st1 },
                        Ok(()),
                    )
                }
            },
        }
    }
}

/// One inbound message from `sender` is routed. Joins and relays act as
/// above; a `SessionReady` (or any other service-originated kind) arriving
/// inbound is unexpected and silently dropped.
pub open spec fn step(st: StateModel, sender: UserId, m: MessageModel) -> (
    StateModel,
    Result<(), RouteError>,
) {
    match m {
        MessageModel::SessionJoin(sid) => join_step(st, sender, sid),
        MessageModel::SdpOffer(_, _) => relay_step(st, sender, m),
        MessageModel::SdpAnswer(_, _) => relay_step(st, sender, m),
        MessageModel::IceCandidate(_, _) => relay_step(st, sender, m),
        MessageModel::SessionReady(_, _) => (st, Ok(())),
    }
}

/// A participant connects: the service issues the next identity and
/// registers an empty delivery queue for it.
pub open spec fn connect_step(st: StateModel) -> (StateModel, UserId)
    recommends
        st.next_user < usize::MAX,
{
    let uid = UserId { id: st.next_user };
    (
        StateModel {
            connections: st.connections.insert(uid, Seq::empty()),
            next_user: (st.next_user + 1) as usize,
            ..st
        },
        uid,
    )
}

/// The session map after the participant leaves the session under token
/// `t`: its slot is cleared, and a session left with both slots empty is
/// deleted.
pub open spec fn leave_session(
    sessions: Map<Seq<char>, Session>,
    t: Seq<char>,
    uid: UserId,
) -> Map<Seq<char>, Session> {
    let c = cleared(sessions[t], uid);
    if is_empty_session(c) {
        sessions.remove(t)
    } else {
        sessions.insert(t, c)
    }
}

/// Well-formedness of a service state: no registered session has both slots
/// empty, and every connected participant's identity was issued before the
/// counter's current value (so a newly issued identity is never in use).
pub open spec fn wf_state(st: StateModel) -> bool {
    &&& forall|t: Seq<char>| #[trigger]
        st.sessions.contains_key(t) ==> !is_empty_session(st.sessions[t])
    &&& forall|u: UserId| #[trigger] st.connections.contains_key(u) ==> u.id < st.next_user
}

/// A join preserves well-formedness: in particular, it never registers a
/// session with both slots empty.
pub proof fn lemma_join_step_preserves_wf(st: StateModel, sender: UserId, sid: Seq<char>)
    requires
        wf_state(st),
    ensures
        wf_state(join_step(st, sender, sid).0),
{
    let st2 = join_step(st, sender, sid).0;
    assert forall|t: Seq<char>| #[trigger]
        st2.sessions.contains_key(t) implies !is_empty_session(st2.sessions[t]) by {
        if t != sid {
            assert(st.sessions.contains_key(t));
        }
    }
    assert forall|u: UserId| #[trigger]
        st2.connections.contains_key(u) implies u.id < st2.next_user by {
        assert(st.connections.contains_key(u));
    }
}

/// A relay preserves well-formedness: it never empties a slot and never
/// connects or disconnects anyone.
pub proof fn lemma_relay_step_preserves_wf(st: StateModel, sender: UserId, m: MessageModel)
    requires
        wf_state(st),
    ensures
        wf_state(relay_step(st, sender, m).0),
{
    let st2 = relay_step(st, sender, m).0;
    assert forall|t: Seq<char>| #[trigger]
        st2.sessions.contains_key(t) implies !is_empty_session(st2.sessions[t]) by {
        if t != token_of(m) {
            assert(st.sessions.contains_key(t));
        } else {
            assert(st.sessions.contains_key(t));
        }
    }
    assert forall|u: UserId| #[trigger]
        st2.connections.contains_key(u) implies u.id < st2.next_user by {
        assert(st.connections.contains_key(u));
    }
}

/// Routing any one message preserves well-formedness of the state. With
/// `lemma_connect_step_preserves_wf` and `lemma_leave_preserves_wf` this
/// says of every reachable state that a session whose two slots are both
/// empty is absent from the registry.
pub proof fn lemma_step_preserves_wf(st: StateModel, sender: UserId, m: MessageModel)
    requires
        wf_state(st),
    ensures
        wf_state(step(st, sender, m).0),
{
    match m {
        MessageModel::SessionJoin(sid) => lemma_join_step_preserves_wf(st, sender, sid),
        MessageModel::SdpOffer(_, _) => lemma_relay_step_preserves_wf(st, sender, m),
        MessageModel::SdpAnswer(_, _) => lemma_relay_step_preserves_wf(st, sender, m),
        MessageModel::IceCandidate(_, _) => lemma_relay_step_preserves_wf(st, sender, m),
        MessageModel::SessionReady(_, _) => {},
    }
}

/// Connecting a participant preserves well-formedness: the issued identity
/// is below the advanced counter, and sessions are untouched.
pub proof fn lemma_connect_step_preserves_wf(st: StateModel)
    requires
        wf_state(st),
        st.next_user < usize::MAX,
    ensures
        wf_state(connect_step(st).0),
{
    let st2 = connect_step(st).0;
    assert forall|u: UserId| #[trigger]
        st2.connections.contains_key(u) implies u.id < st2.next_user by {
        if u.id != st.next_user {
            assert(st.connections.contains_key(u));
        }
    }
}

/// A participant leaving its session, and losing its connection entry,
/// preserves well-formedness: a session emptied by the departure is deleted
/// rather than kept empty.
pub proof fn lemma_leave_preserves_wf(st: StateModel, t: Seq<char>, uid: UserId)
    requires
        wf_state(st),
        st.sessions.contains_key(t),
    ensures
        wf_state(
            StateModel {
                sessions: leave_session(st.sessions, t, uid),
                connections: st.connections.remove(uid),
                next_user: st.next_user,
            },
        ),
{
    let sessions2 = leave_session(st.sessions, t, uid);
    assert forall|s: Seq<char>| #[trigger]
        sessions2.contains_key(s) implies !is_empty_session(sessions2[s]) by {
        assert(st.sessions.contains_key(s));
    }
    assert forall|u: UserId| #[trigger]
        st.connections.remove(uid).contains_key(u) implies u.id < st.next_user by {
        assert(st.connections.contains_key(u));
    }
}

/// Removing a connection entry alone preserves well-formedness.
pub proof fn lemma_unregister_preserves_wf(st: StateModel, uid: UserId)
    requires
        wf_state(st),
    ensures
        wf_state(StateModel { connections: st.connections.remove(uid), ..st }),
{
    assert forall|u: UserId| #[trigger]
        st.connections.remove(uid).contains_key(u) implies u.id < st.next_user by {
        assert(st.connections.contains_key(u));
    }
}

} // verus!
