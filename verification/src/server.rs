//! The executable service state and its operations.
//!
//! `ServerState` holds the two registries and the identity counter. Each
//! operation's contract states that the new state is exactly the one the
//! model's transition function gives, so everything proved of the model
//! holds of the running service.

use vstd::prelude::*;

use crate::connection::ConnectionRegistry;
use crate::model::{
    connect_step, join_step, leave_session, lemma_connect_step_preserves_wf,
    lemma_join_step_preserves_wf, lemma_leave_preserves_wf, lemma_unregister_preserves_wf,
    relay_step, step, wf_state, RouteError, StateModel,
};
use crate::protocol::{MessageModel, SessionId, SignalMessage, UserId};
use crate::session::{is_empty_session, occupies, Session, SessionRegistry};

verus! {

/// The whole state of the signalling service.
pub struct ServerState {
    sessions: SessionRegistry,
    connections: ConnectionRegistry,
    next_user_id: usize,
}

impl ServerState {
    /// The state as a value of the mathematical model.
    pub closed spec fn view(&self) -> StateModel {
        StateModel {
            sessions: self.sessions@,
            connections: self.connections@,
            next_user: self.next_user_id,
        }
    }

    /// The representation invariant: both registries are well formed and the
    /// modelled state is well formed.
    pub closed spec fn inv(&self) -> bool {
        &&& self.sessions.wf()
        &&& self.connections.wf()
        &&& wf_state(self@)
    }

    /// The invariant of the running service implies well-formedness of its
    /// model, so the model-level laws apply to every reachable state.
    pub proof fn lemma_inv_wf_state(&self)
        requires
            self.inv(),
        ensures
            wf_state(self@),
    {
    }

    /// A fresh service: no sessions, no connections, identities issued
    /// from 1.
    pub fn new() -> (r: Self)
        ensures
            r.inv(),
            r@.sessions == Map::<Seq<char>, Session>::empty(),
            r@.connections == Map::<UserId, Seq<MessageModel>>::empty(),
            r@.next_user == 1,
    {
        ServerState {
            sessions: SessionRegistry::new(),
            connections: ConnectionRegistry::new(),
            next_user_id: 1,
        }
    }

    /// Whether another identity can still be issued. The transport layer
    /// checks this before accepting a connection: the counter never wraps,
    /// so identities are never reused.
    pub fn identity_available(&self) -> (r: bool)
        ensures
            r == (self@.next_user < usize::MAX),
    {
        self.next_user_id < usize::MAX
    }

    /// A participant's connection was accepted: issue the next identity and
    /// register its delivery queue. The identity is fresh: it was not
    /// connected before.
    pub fn user_connected(&mut self) -> (uid: UserId)
        requires
            old(self).inv(),
            old(self)@.next_user < usize::MAX,
        ensures
            final(self).inv(),
            (final(self)@, uid) == connect_step(old(self)@),
            !old(self)@.connections.contains_key(uid),
    {
        proof {
            lemma_connect_step_preserves_wf(old(self)@);
        }
        let uid = UserId::new(self.next_user_id);
        self.next_user_id = self.next_user_id + 1;
        self.connections.register(uid);
        uid
    }

    /// Route one decoded inbound message from the given participant.
    pub fn user_message(&mut self, user_id: UserId, msg: SignalMessage) -> (r: Result<
        (),
        RouteError,
    >)
        requires
            old(self).inv(),
        ensures
            final(self).inv(),
            (final(self)@, r) == step(old(self)@, user_id, msg@),
    {
        match msg {
            SignalMessage::SessionJoin(session_id) => self.session_join(user_id, session_id),
            SignalMessage::SdpOffer(session_id, offer) => (
                self.sdp_offer(user_id, session_id, offer)
            ),
            SignalMessage::SdpAnswer(session_id, answer) => (
                self.relay(user_id, SignalMessage::SdpAnswer(session_id, answer))
            ),
            SignalMessage::IceCandidate(session_id, candidate) => (
                self.relay(user_id, SignalMessage::IceCandidate(session_id, candidate))
            ),
            SignalMessage::SessionReady(_, _) => Ok(()),
        }
    }

    /// A participant announces a session token.
    pub fn session_join(&mut self, user_id: UserId, session_id: SessionId) -> (r: Result<
        (),
        RouteError,
    >)
        requires
            old(self).inv(),
        ensures
            final(self).inv(),
            (final(self)@, r) == join_step(old(self)@, user_id, session_id@),
    {
        proof {
            lemma_join_step_preserves_wf(old(self)@, user_id, session_id@);
        }
        match self.sessions.get(&session_id) {
            None => {
                self.sessions.set(
                    &session_id,
                    Session { first: Some(user_id), second: None, offer_received: false },
                );
                Ok(())
            },
            Some(prior) => {
                self.sessions.set(
                    &session_id,
                    Session {
                        first: prior.first,
                        second: Some(user_id),
                        offer_received: prior.offer_received,
                    },
                );
                match prior.first {
                    None => Ok(()),
                    Some(first_id) => {
                        let ready_first = SignalMessage::SessionReady(session_id.clone(), true);
                        if !self.connections.enqueue(first_id, ready_first) {
                            return Err(RouteError::MissingHandle);
                        }
                        let ready_second = SignalMessage::SessionReady(session_id, false);
                        if !self.connections.enqueue(user_id, ready_second) {
                            return Err(RouteError::MissingHandle);
                        }
                        Ok(())
                    },
                }
            },
        }
    }

    /// A participant's offer: mark the session's offer flag and pass the
    /// offer to the peer unchanged.
    pub fn sdp_offer(&mut self, user_id: UserId, session_id: SessionId, offer: String) -> (r:
        Result<(), RouteError>)
        requires
            old(self).inv(),
        ensures
            final(self).inv(),
            (final(self)@, r) == relay_step(
                old(self)@,
                user_id,
                MessageModel::SdpOffer(session_id@, offer@),
            ),
    {
        self.relay(user_id, SignalMessage::SdpOffer(session_id, offer))
    }

    /// Relay an offer, answer or candidate to the sender's peer, verbatim.
    fn relay(&mut self, user_id: UserId, msg: SignalMessage) -> (r: Result<(), RouteError>)
        requires
            old(self).inv(),
            msg@ is SdpOffer || msg@ is SdpAnswer || msg@ is IceCandidate,
        ensures
            final(self).inv(),
            (final(self)@, r) == relay_step(old(self)@, user_id, msg@),
    {
        let is_offer = match &msg {
            SignalMessage::SdpOffer(_, _) => true,
            _ => false,
        };
        let session = {
            let session_id: &SessionId = match &msg {
                SignalMessage::SdpOffer(sid, _) => sid,
                SignalMessage::SdpAnswer(sid, _) => sid,
                SignalMessage::IceCandidate(sid, _) => sid,
                _ => vstd::pervasive::unreached(),
            };
            let session = match self.sessions.get(session_id) {
                Some(s) => s,
                None => {
                    return Err(RouteError::UnknownSession);
                },
            };
            if is_offer {
                // A redundant offer (the flag already set) is still forwarded;
                // only the first offer meaningfully sets the flag.
                self.sessions.set(
                    session_id,
                    Session {
                        first: session.first,
                        second: session.second,
                        offer_received: true,
                    },
                );
            }
            session
        };
        let recipient_id = match session.recipient_for(user_id) {
            Some(recipient_id) => recipient_id,
            None => {
                return Err(RouteError::MissingPartner);
            },
        };
        if self.connections.enqueue(recipient_id, msg) {
            Ok(())
        } else {
            Err(RouteError::MissingHandle)
        }
    }

    /// A participant's connection closed: clear its slot in the session it
    /// occupies (deleting the session if both slots become empty), then
    /// remove its connection entry.
    pub fn user_disconnected(&mut self, user_id: UserId)
        requires
            old(self).inv(),
        ensures
            final(self).inv(),
            final(self)@.connections == old(self)@.connections.remove(user_id),
            final(self)@.next_user == old(self)@.next_user,
            (forall|t: Seq<char>| #[trigger]
                old(self)@.sessions.contains_key(t) ==> !occupies(old(self)@.sessions[t], user_id))
                ==> final(self)@.sessions == old(self)@.sessions,
            (exists|t: Seq<char>| #[trigger]
                old(self)@.sessions.contains_key(t) && occupies(old(self)@.sessions[t], user_id))
                ==> exists|t: Seq<char>|
                #[trigger] old(self)@.sessions.contains_key(t)
                    && occupies(old(self)@.sessions[t], user_id)
                    && final(self)@.sessions == leave_session(old(self)@.sessions, t, user_id),
    {
        match self.sessions.find_occupied(user_id) {
            Some(session_id) => {
                proof {
                    lemma_leave_preserves_wf(old(self)@, session_id@, user_id);
                }
                let session = self.sessions.get(&session_id).unwrap();
                let remaining = session.without(user_id);
                if remaining.is_empty() {
                    self.sessions.remove(&session_id);
                } else {
                    self.sessions.set(&session_id, remaining);
                }
                self.connections.unregister(user_id);
            },
            None => {
                proof {
                    lemma_unregister_preserves_wf(old(self)@, user_id);
                }
                self.connections.unregister(user_id);
            },
        }
    }

    /// The session stored under a token, if any: the pairing state a test or
    /// the transport layer may inspect.
    pub fn session_of(&self, session_id: &SessionId) -> (r: Option<Session>)
        requires
            self.inv(),
        ensures
            r == (if self@.sessions.contains_key(session_id@) {
                Some(self@.sessions[session_id@])
            } else {
                None::<Session>
            }),
    {
        self.sessions.get(session_id)
    }

    /// Whether the participant has a live connection entry.
    pub fn is_connected(&self, user_id: UserId) -> (r: bool)
        requires
            self.inv(),
        ensures
            r == self@.connections.contains_key(user_id),
    {
        self.connections.contains(user_id)
    }

    /// Take every message queued for the participant, in the order the
    /// router enqueued them, leaving its queue empty. The transport layer
    /// calls this to hand the messages to the participant's connection.
    pub fn drain_outbox(&mut self, user_id: UserId) -> (r: Vec<SignalMessage>)
        requires
            old(self).inv(),
        ensures
            final(self).inv(),
            final(self)@.sessions == old(self)@.sessions,
            final(self)@.next_user == old(self)@.next_user,
            old(self)@.connections.contains_key(user_id) ==> r.deep_view() == old(
                self,
            )@.connections[user_id] && final(self)@.connections == old(
                self,
            )@.connections.insert(user_id, Seq::<MessageModel>::empty()),
            !old(self)@.connections.contains_key(user_id) ==> r.deep_view() == Seq::<
                MessageModel,
            >::empty() && final(self)@.connections == old(self)@.connections,
    {
        proof {
            if old(self)@.connections.contains_key(user_id) {
                assert forall|u: UserId| #[trigger] old(self)@.connections.insert(
                    user_id,
                    Seq::<MessageModel>::empty(),
                ).contains_key(u) implies u.id < old(self)@.next_user by {
                    assert(old(self)@.connections.contains_key(u));
                }
            }
        }
        let r = self.connections.drain(user_id);
        proof {
            assert forall|t: Seq<char>| #[trigger]
                self@.sessions.contains_key(t) implies !is_empty_session(self@.sessions[t]) by {
                assert(old(self)@.sessions.contains_key(t));
            }
        }
        r
    }
}

} // verus!
