//! Laws of the routing model: properties of whole exchanges, proved once
//! over the transition functions and thereby holding of every reachable
//! state of the service.

use vstd::prelude::*;

use crate::model::{
    join_step, leave_session, step, token_of, wf_state, RouteError, StateModel,
};
use crate::protocol::{MessageModel, UserId};
use crate::session::{occupies, Session};

verus! {

/// Two distinct connected participants joining the same fresh token are
/// paired: both joins succeed, the first joiner's queue gains exactly one
/// ready notification carrying `true`, the second joiner's exactly one
/// carrying `false`, and the session records them as first and second.
pub proof fn lemma_pairing_notifies_both(st: StateModel, u1: UserId, u2: UserId, sid: Seq<char>)
    requires
        wf_state(st),
        u1 != u2,
        !st.sessions.contains_key(sid),
        st.connections.contains_key(u1),
        st.connections.contains_key(u2),
    ensures
        ({
            let (st1, r1) = join_step(st, u1, sid);
            let (st2, r2) = join_step(st1, u2, sid);
            &&& r1 == Ok::<(), RouteError>(())
            &&& r2 == Ok::<(), RouteError>(())
            &&& st2.connections[u1] == st.connections[u1].push(
                MessageModel::SessionReady(sid, true),
            )
            &&& st2.connections[u2] == st.connections[u2].push(
                MessageModel::SessionReady(sid, false),
            )
            &&& st2.sessions[sid] == Session {
                first: Some(u1),
                second: Some(u2),
                offer_received: false,
            }
        }),
{
}

/// A session absent from the registry joined anew starts a pairing from
/// scratch: the join succeeds without notifying anyone, and the fresh
/// session holds only the joiner, in the `first` slot, with the offer flag
/// clear. With the preservation lemmas of the model (no transition ever
/// leaves a session with both slots empty registered) this says that a
/// deleted token behaves exactly like one never used.
pub proof fn lemma_fresh_join_restarts(st: StateModel, sender: UserId, sid: Seq<char>)
    requires
        !st.sessions.contains_key(sid),
    ensures
        join_step(st, sender, sid).1 == Ok::<(), RouteError>(()),
        join_step(st, sender, sid).0.sessions == st.sessions.insert(
            sid,
            Session { first: Some(sender), second: None, offer_received: false },
        ),
        join_step(st, sender, sid).0.connections == st.connections,
{
}

/// In a paired session, an offer sent by the participant holding the
/// `first` slot is appended verbatim to the peer's delivery queue, to that
/// queue only: every other participant's queue, the sender's included, is
/// untouched, and no connection appears or disappears.
pub proof fn lemma_offer_to_peer_only(
    st: StateModel,
    a: UserId,
    b: UserId,
    sid: Seq<char>,
    payload: Seq<char>,
)
    requires
        wf_state(st),
        st.sessions.contains_key(sid),
        st.sessions[sid].first == Some(a),
        st.sessions[sid].second == Some(b),
        a != b,
        st.connections.contains_key(b),
    ensures
        ({
            let (st2, r) = step(st, a, MessageModel::SdpOffer(sid, payload));
            &&& r == Ok::<(), RouteError>(())
            &&& st2.connections[b] == st.connections[b].push(MessageModel::SdpOffer(sid, payload))
            &&& forall|u: UserId|
                u != b && #[trigger] st.connections.contains_key(u) ==> st2.connections[u]
                    == st.connections[u]
            &&& st2.connections.dom() == st.connections.dom()
        }),
{
    let (st2, r) = step(st, a, MessageModel::SdpOffer(sid, payload));
    assert(st2.connections.dom() =~= st.connections.dom());
}

/// Candidates are relayed in both directions of a paired session, any
/// number of times, with the payload unchanged: the candidate is appended
/// verbatim to the peer's queue, the sessions are left exactly as they
/// were, and the state stays well formed, so the relay can be repeated
/// from either side indefinitely.
pub proof fn lemma_relay_both_directions(
    st: StateModel,
    a: UserId,
    b: UserId,
    sender: UserId,
    sid: Seq<char>,
    payload: Seq<char>,
)
    requires
        wf_state(st),
        st.sessions.contains_key(sid),
        st.sessions[sid].first == Some(a),
        st.sessions[sid].second == Some(b),
        a != b,
        sender == a || sender == b,
        st.connections.contains_key(if sender == a { b } else { a }),
    ensures
        ({
            let peer = if sender == a { b } else { a };
            let (st2, r) = step(st, sender, MessageModel::IceCandidate(sid, payload));
            &&& r == Ok::<(), RouteError>(())
            &&& st2.connections[peer] == st.connections[peer].push(
                MessageModel::IceCandidate(sid, payload),
            )
            &&& st2.sessions == st.sessions
            &&& st2.sessions[sid].first == Some(a) && st2.sessions[sid].second == Some(b)
            &&& wf_state(st2)
        }),
{
    let peer = if sender == a { b } else { a };
    let (st2, r) = step(st, sender, MessageModel::IceCandidate(sid, payload));
    assert forall|u: UserId| #[trigger]
        st2.connections.contains_key(u) implies u.id < st2.next_user by {
        assert(st.connections.contains_key(u));
    }
}

/// Disconnecting one participant of a paired session leaves the session
/// with exactly the other slot occupied; the other participant then
/// disconnecting deletes the session, and removing both connection entries
/// leaves neither registered.
pub proof fn lemma_disconnect_pair(st: StateModel, sid: Seq<char>, a: UserId, b: UserId)
    requires
        wf_state(st),
        st.sessions.contains_key(sid),
        st.sessions[sid].first == Some(a),
        st.sessions[sid].second == Some(b),
        a != b,
    ensures
        ({
            let s1 = leave_session(st.sessions, sid, a);
            &&& s1.contains_key(sid)
            &&& s1[sid] == Session {
                first: None,
                second: Some(b),
                offer_received: st.sessions[sid].offer_received,
            }
            &&& !leave_session(s1, sid, b).contains_key(sid)
            &&& !st.connections.remove(a).remove(b).contains_key(a)
            &&& !st.connections.remove(a).remove(b).contains_key(b)
        }),
{
}

/// The disconnect cleanup clears the participant's slot in some session it
/// occupies. When the participant occupies exactly one session, the
/// intended use of the service, any session the cleanup may pick is that
/// one, so the resulting session map is determined.
pub proof fn lemma_leave_determined(sessions: Map<Seq<char>, Session>, t0: Seq<char>, uid: UserId)
    requires
        sessions.contains_key(t0),
        occupies(sessions[t0], uid),
        forall|t: Seq<char>|
            #[trigger] sessions.contains_key(t) && occupies(sessions[t], uid) ==> t == t0,
    ensures
        forall|t: Seq<char>|
            #[trigger] sessions.contains_key(t) && occupies(sessions[t], uid) ==> leave_session(
                sessions,
                t,
                uid,
            ) == leave_session(sessions, t0, uid),
{
}

/// An offer, answer or candidate naming a token with no session record is
/// dropped without any effect: the state, every other session and every
/// connection included, is exactly as before, and the router reports the
/// unknown session.
pub proof fn lemma_unknown_session_dropped(st: StateModel, sender: UserId, m: MessageModel)
    requires
        m is SdpOffer || m is SdpAnswer || m is IceCandidate,
        !st.sessions.contains_key(token_of(m)),
    ensures
        step(st, sender, m) == (st, Err::<(), RouteError>(RouteError::UnknownSession)),
{
}

} // verus!
