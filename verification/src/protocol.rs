//! The message vocabulary of the service: participant identities, session
//! tokens, and the signalling messages exchanged with participants.

use vstd::prelude::*;

verus! {

/// Identity the service assigns to one connected participant. Issued from a
/// monotonically increasing counter, so an identity is unique for the
/// lifetime of the process and never reused.
#[derive(Clone, Copy, PartialEq, Eq, Structural, Debug, Hash)]
pub struct UserId {
    pub id: usize,
}

impl UserId {
    pub fn new(id: usize) -> (u: UserId)
        ensures
            u.id == id,
    {
        UserId { id }
    }
}

/// Opaque session token supplied by a caller. Two participants that announce
/// equal tokens are paired. The service never interprets the token.
#[derive(PartialEq, Eq, Debug, Hash)]
pub struct SessionId {
    pub token: String,
}

impl View for SessionId {
    type V = Seq<char>;

    open spec fn view(&self) -> Seq<char> {
        self.token@
    }
}

impl Clone for SessionId {
    fn clone(&self) -> (r: Self)
        ensures
            r == *self,
    {
        SessionId { token: self.token.clone() }
    }
}

impl SessionId {
    pub fn new(token: String) -> (s: SessionId)
        ensures
            s@ == token@,
    {
        SessionId { token }
    }

    /// Token equality: the pairing rule compares session tokens by value.
    pub fn equals(&self, other: &SessionId) -> (r: bool)
        ensures
            r == (self@ == other@),
    {
        self.token == other.token
    }
}

/// One decoded signalling message. `SessionJoin`, `SdpOffer`, `SdpAnswer`
/// and `IceCandidate` arrive from participants; `SessionReady` is originated
/// by the service when a session gains its second participant. Offer, answer
/// and candidate payloads are opaque strings the service never inspects.
#[derive(PartialEq, Eq, Debug)]
pub enum SignalMessage {
    SessionJoin(SessionId),
    SdpOffer(SessionId, String),
    SdpAnswer(SessionId, String),
    IceCandidate(SessionId, String),
    SessionReady(SessionId, bool),
}

/// The mathematical value of a `SignalMessage`: the same shape over
/// sequences of characters.
pub enum MessageModel {
    SessionJoin(Seq<char>),
    SdpOffer(Seq<char>, Seq<char>),
    SdpAnswer(Seq<char>, Seq<char>),
    IceCandidate(Seq<char>, Seq<char>),
    SessionReady(Seq<char>, bool),
}

impl View for SignalMessage {
    type V = MessageModel;

    open spec fn view(&self) -> MessageModel {
        match self {
            SignalMessage::SessionJoin(sid) => MessageModel::SessionJoin(sid@),
            SignalMessage::SdpOffer(sid, p) => MessageModel::SdpOffer(sid@, p@),
            SignalMessage::SdpAnswer(sid, p) => MessageModel::SdpAnswer(sid@, p@),
            SignalMessage::IceCandidate(sid, p) => MessageModel::IceCandidate(sid@, p@),
            SignalMessage::SessionReady(sid, f) => MessageModel::SessionReady(sid@, *f),
        }
    }
}

impl DeepView for SignalMessage {
    type V = MessageModel;

    open spec fn deep_view(&self) -> MessageModel {
        self.view()
    }
}

impl Clone for SignalMessage {
    fn clone(&self) -> (r: Self)
        ensures
            r@ == self@,
    {
        match self {
            SignalMessage::SessionJoin(sid) => SignalMessage::SessionJoin(sid.clone()),
            SignalMessage::SdpOffer(sid, p) => SignalMessage::SdpOffer(sid.clone(), p.clone()),
            SignalMessage::SdpAnswer(sid, p) => SignalMessage::SdpAnswer(sid.clone(), p.clone()),
            SignalMessage::IceCandidate(sid, p) => (
                SignalMessage::IceCandidate(sid.clone(), p.clone())
            ),
            SignalMessage::SessionReady(sid, f) => SignalMessage::SessionReady(sid.clone(), *f),
        }
    }
}

} // verus!
