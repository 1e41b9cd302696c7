//! Lifecycle behaviour: connect, disconnect, session deletion, and the full
//! exchange of one pairing.

use signaling_server::model::RouteError;
use signaling_server::protocol::{SessionId, SignalMessage};
use signaling_server::server::ServerState;
use signaling_server::session::Session;

fn sid(token: &str) -> SessionId {
    SessionId::new(token.to_string())
}

#[test]
fn identities_are_unique_and_increasing() {
    let mut server = ServerState::new();
    let c1 = server.user_connected();
    let c2 = server.user_connected();
    let c3 = server.user_connected();
    assert_ne!(c1, c2);
    assert_ne!(c2, c3);
    assert_ne!(c1, c3);
    assert!(c1.id < c2.id && c2.id < c3.id);
    // a disconnect never recycles an identity
    server.user_disconnected(c3);
    let c4 = server.user_connected();
    assert_ne!(c3, c4);
}

#[test]
fn disconnecting_pair_deletes_session_and_entries() {
    let mut server = ServerState::new();
    let c1 = server.user_connected();
    let c2 = server.user_connected();
    server.user_message(c1, SignalMessage::SessionJoin(sid("room-1"))).unwrap();
    server.user_message(c2, SignalMessage::SessionJoin(sid("room-1"))).unwrap();
    server.drain_outbox(c1);
    server.drain_outbox(c2);

    server.user_disconnected(c1);
    // exactly one slot is still occupied
    assert_eq!(
        server.session_of(&sid("room-1")),
        Some(Session { first: None, second: Some(c2), offer_received: false })
    );
    assert!(!server.is_connected(c1));
    assert!(server.is_connected(c2));

    server.user_disconnected(c2);
    // both slots empty: the session is gone, and so are both entries
    assert!(server.session_of(&sid("room-1")).is_none());
    assert!(!server.is_connected(c1));
    assert!(!server.is_connected(c2));
}

#[test]
fn emptied_token_starts_a_fresh_pairing() {
    let mut server = ServerState::new();
    let c1 = server.user_connected();
    let c2 = server.user_connected();
    server.user_message(c1, SignalMessage::SessionJoin(sid("room-1"))).unwrap();
    server.user_message(c2, SignalMessage::SessionJoin(sid("room-1"))).unwrap();
    server.drain_outbox(c1);
    server.drain_outbox(c2);
    server.user_message(c1, SignalMessage::SdpOffer(sid("room-1"), "o".to_string())).unwrap();
    server.drain_outbox(c2);
    server.user_disconnected(c1);
    server.user_disconnected(c2);
    assert!(server.session_of(&sid("room-1")).is_none());

    // the same token joined again starts from scratch: a fresh first slot,
    // the offer flag clear, and nobody notified
    let c3 = server.user_connected();
    assert_eq!(server.user_message(c3, SignalMessage::SessionJoin(sid("room-1"))), Ok(()));
    assert_eq!(
        server.session_of(&sid("room-1")),
        Some(Session { first: Some(c3), second: None, offer_received: false })
    );
    assert_eq!(server.drain_outbox(c3), Vec::<SignalMessage>::new());
}

#[test]
fn displaced_second_slot_is_overwritten() {
    let mut server = ServerState::new();
    let c1 = server.user_connected();
    let c2 = server.user_connected();
    let c3 = server.user_connected();
    server.user_message(c1, SignalMessage::SessionJoin(sid("room-1"))).unwrap();
    server.user_message(c2, SignalMessage::SessionJoin(sid("room-1"))).unwrap();
    server.drain_outbox(c1);
    server.drain_outbox(c2);

    // a third joiner silently displaces the second participant
    assert_eq!(server.user_message(c3, SignalMessage::SessionJoin(sid("room-1"))), Ok(()));
    assert_eq!(
        server.session_of(&sid("room-1")),
        Some(Session { first: Some(c1), second: Some(c3), offer_received: false })
    );
    assert_eq!(
        server.drain_outbox(c1),
        vec![SignalMessage::SessionReady(sid("room-1"), true)]
    );
    assert_eq!(
        server.drain_outbox(c3),
        vec![SignalMessage::SessionReady(sid("room-1"), false)]
    );
    assert_eq!(server.drain_outbox(c2), Vec::<SignalMessage>::new());
}

#[test]
fn stale_slot_yields_missing_handle() {
    let mut server = ServerState::new();
    let c1 = server.user_connected();
    // one participant in two sessions: the disconnect cleanup clears only
    // the first session found, leaving a stale reference in the other
    server.user_message(c1, SignalMessage::SessionJoin(sid("room-a"))).unwrap();
    server.user_message(c1, SignalMessage::SessionJoin(sid("room-b"))).unwrap();
    server.user_disconnected(c1);
    assert!(server.session_of(&sid("room-a")).is_none());
    assert_eq!(
        server.session_of(&sid("room-b")),
        Some(Session { first: Some(c1), second: None, offer_received: false })
    );

    // pairing against the stale reference fails to notify the first joiner
    let c2 = server.user_connected();
    assert_eq!(
        server.user_message(c2, SignalMessage::SessionJoin(sid("room-b"))),
        Err(RouteError::MissingHandle)
    );
    // the slot assignment stands even though the notification failed
    assert_eq!(
        server.session_of(&sid("room-b")),
        Some(Session { first: Some(c1), second: Some(c2), offer_received: false })
    );
    assert_eq!(server.drain_outbox(c2), Vec::<SignalMessage>::new());

    // a relay towards the stale participant fails the same way
    assert_eq!(
        server.user_message(c2, SignalMessage::SdpAnswer(sid("room-b"), "a".to_string())),
        Err(RouteError::MissingHandle)
    );
}

#[test]
fn disconnect_of_unjoined_participant_only_drops_its_entry() {
    let mut server = ServerState::new();
    let c1 = server.user_connected();
    let c2 = server.user_connected();
    server.user_message(c1, SignalMessage::SessionJoin(sid("room-1"))).unwrap();

    server.user_disconnected(c2);
    assert!(!server.is_connected(c2));
    assert!(server.is_connected(c1));
    assert_eq!(
        server.session_of(&sid("room-1")),
        Some(Session { first: Some(c1), second: None, offer_received: false })
    );
}

#[test]
fn full_exchange_scenario() {
    let mut server = ServerState::new();
    let c1 = server.user_connected();
    let c2 = server.user_connected();

    // both join the same room
    assert_eq!(server.user_message(c1, SignalMessage::SessionJoin(sid("room-1"))), Ok(()));
    assert_eq!(server.user_message(c2, SignalMessage::SessionJoin(sid("room-1"))), Ok(()));
    assert_eq!(
        server.drain_outbox(c1),
        vec![SignalMessage::SessionReady(sid("room-1"), true)]
    );
    assert_eq!(
        server.drain_outbox(c2),
        vec![SignalMessage::SessionReady(sid("room-1"), false)]
    );

    // the first joiner offers; the peer receives it verbatim
    assert_eq!(
        server.user_message(c1, SignalMessage::SdpOffer(sid("room-1"), "sdp-A".to_string())),
        Ok(())
    );
    assert_eq!(
        server.drain_outbox(c2),
        vec![SignalMessage::SdpOffer(sid("room-1"), "sdp-A".to_string())]
    );

    // the second joiner answers; the first receives it verbatim
    assert_eq!(
        server.user_message(c2, SignalMessage::SdpAnswer(sid("room-1"), "sdp-B".to_string())),
        Ok(())
    );
    assert_eq!(
        server.drain_outbox(c1),
        vec![SignalMessage::SdpAnswer(sid("room-1"), "sdp-B".to_string())]
    );

    // the first disconnects: only the second slot stays occupied
    server.user_disconnected(c1);
    assert_eq!(
        server.session_of(&sid("room-1")),
        Some(Session { first: None, second: Some(c2), offer_received: true })
    );

    // the second disconnects: the session no longer exists
    server.user_disconnected(c2);
    assert!(server.session_of(&sid("room-1")).is_none());
}
