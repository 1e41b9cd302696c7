//! Routing behaviour: pairing notifications, relays, and dropped messages.

use signaling_server::model::RouteError;
use signaling_server::protocol::{SessionId, SignalMessage, UserId};
use signaling_server::server::ServerState;
use signaling_server::session::Session;

fn sid(token: &str) -> SessionId {
    SessionId::new(token.to_string())
}

#[test]
fn pairing_notifies_both_sides() {
    let mut server = ServerState::new();
    let c1 = server.user_connected();
    let c2 = server.user_connected();
    assert_ne!(c1, c2);

    assert_eq!(server.user_message(c1, SignalMessage::SessionJoin(sid("room-1"))), Ok(()));
    // nobody is notified while the session waits for a second participant
    assert_eq!(server.drain_outbox(c1), Vec::<SignalMessage>::new());

    assert_eq!(server.user_message(c2, SignalMessage::SessionJoin(sid("room-1"))), Ok(()));
    assert_eq!(
        server.drain_outbox(c1),
        vec![SignalMessage::SessionReady(sid("room-1"), true)]
    );
    assert_eq!(
        server.drain_outbox(c2),
        vec![SignalMessage::SessionReady(sid("room-1"), false)]
    );
}

#[test]
fn offer_goes_to_peer_only() {
    let mut server = ServerState::new();
    let c1 = server.user_connected();
    let c2 = server.user_connected();
    server.user_message(c1, SignalMessage::SessionJoin(sid("room-1"))).unwrap();
    server.user_message(c2, SignalMessage::SessionJoin(sid("room-1"))).unwrap();
    server.drain_outbox(c1);
    server.drain_outbox(c2);

    assert_eq!(
        server.user_message(c1, SignalMessage::SdpOffer(sid("room-1"), "sdp-A".to_string())),
        Ok(())
    );
    assert_eq!(
        server.drain_outbox(c2),
        vec![SignalMessage::SdpOffer(sid("room-1"), "sdp-A".to_string())]
    );
    // never echoed to the sender
    assert_eq!(server.drain_outbox(c1), Vec::<SignalMessage>::new());
}

#[test]
fn redundant_offer_still_forwarded() {
    let mut server = ServerState::new();
    let c1 = server.user_connected();
    let c2 = server.user_connected();
    server.user_message(c1, SignalMessage::SessionJoin(sid("room-1"))).unwrap();
    server.user_message(c2, SignalMessage::SessionJoin(sid("room-1"))).unwrap();
    server.drain_outbox(c1);
    server.drain_outbox(c2);

    server.user_message(c1, SignalMessage::SdpOffer(sid("room-1"), "first".to_string())).unwrap();
    // the offer flag is already set; the second offer is still relayed
    assert_eq!(
        server.user_message(c1, SignalMessage::SdpOffer(sid("room-1"), "again".to_string())),
        Ok(())
    );
    assert_eq!(
        server.drain_outbox(c2),
        vec![
            SignalMessage::SdpOffer(sid("room-1"), "first".to_string()),
            SignalMessage::SdpOffer(sid("room-1"), "again".to_string()),
        ]
    );
    let session = server.session_of(&sid("room-1")).unwrap();
    assert!(session.offer_received);
}

#[test]
fn candidates_relayed_both_directions_repeatedly() {
    let mut server = ServerState::new();
    let c1 = server.user_connected();
    let c2 = server.user_connected();
    server.user_message(c1, SignalMessage::SessionJoin(sid("room-1"))).unwrap();
    server.user_message(c2, SignalMessage::SessionJoin(sid("room-1"))).unwrap();
    server.drain_outbox(c1);
    server.drain_outbox(c2);

    for i in 0..3 {
        let payload = format!("cand-1-{}", i);
        assert_eq!(
            server.user_message(c1, SignalMessage::IceCandidate(sid("room-1"), payload.clone())),
            Ok(())
        );
        assert_eq!(
            server.drain_outbox(c2),
            vec![SignalMessage::IceCandidate(sid("room-1"), payload)]
        );
    }
    for i in 0..3 {
        let payload = format!("cand-2-{}", i);
        assert_eq!(
            server.user_message(c2, SignalMessage::IceCandidate(sid("room-1"), payload.clone())),
            Ok(())
        );
        assert_eq!(
            server.drain_outbox(c1),
            vec![SignalMessage::IceCandidate(sid("room-1"), payload)]
        );
    }
}

#[test]
fn delivery_order_is_preserved() {
    let mut server = ServerState::new();
    let c1 = server.user_connected();
    let c2 = server.user_connected();
    server.user_message(c1, SignalMessage::SessionJoin(sid("room-1"))).unwrap();
    server.user_message(c2, SignalMessage::SessionJoin(sid("room-1"))).unwrap();
    server.drain_outbox(c1);
    server.drain_outbox(c2);

    server.user_message(c1, SignalMessage::SdpOffer(sid("room-1"), "o".to_string())).unwrap();
    server
        .user_message(c1, SignalMessage::IceCandidate(sid("room-1"), "c1".to_string()))
        .unwrap();
    server
        .user_message(c1, SignalMessage::IceCandidate(sid("room-1"), "c2".to_string()))
        .unwrap();
    assert_eq!(
        server.drain_outbox(c2),
        vec![
            SignalMessage::SdpOffer(sid("room-1"), "o".to_string()),
            SignalMessage::IceCandidate(sid("room-1"), "c1".to_string()),
            SignalMessage::IceCandidate(sid("room-1"), "c2".to_string()),
        ]
    );
}

#[test]
fn unknown_session_is_dropped_without_side_effects() {
    let mut server = ServerState::new();
    let c1 = server.user_connected();
    let c2 = server.user_connected();
    server.user_message(c1, SignalMessage::SessionJoin(sid("room-1"))).unwrap();
    server.user_message(c2, SignalMessage::SessionJoin(sid("room-1"))).unwrap();
    server.drain_outbox(c1);
    server.drain_outbox(c2);
    let before = server.session_of(&sid("room-1"));

    for msg in [
        SignalMessage::SdpOffer(sid("nowhere"), "x".to_string()),
        SignalMessage::SdpAnswer(sid("nowhere"), "x".to_string()),
        SignalMessage::IceCandidate(sid("nowhere"), "x".to_string()),
    ] {
        assert_eq!(server.user_message(c1, msg), Err(RouteError::UnknownSession));
    }
    // the untouched session and connections are exactly as before
    assert_eq!(server.session_of(&sid("room-1")), before);
    assert!(server.session_of(&sid("nowhere")).is_none());
    assert!(server.is_connected(c1));
    assert!(server.is_connected(c2));
    assert_eq!(server.drain_outbox(c1), Vec::<SignalMessage>::new());
    assert_eq!(server.drain_outbox(c2), Vec::<SignalMessage>::new());
}

#[test]
fn missing_partner_drops_offer_but_keeps_flag() {
    let mut server = ServerState::new();
    let c1 = server.user_connected();
    server.user_message(c1, SignalMessage::SessionJoin(sid("solo"))).unwrap();

    assert_eq!(
        server.user_message(c1, SignalMessage::SdpOffer(sid("solo"), "sdp".to_string())),
        Err(RouteError::MissingPartner)
    );
    // the flag update happens before the recipient is resolved and stands
    assert_eq!(
        server.session_of(&sid("solo")),
        Some(Session { first: Some(c1), second: None, offer_received: true })
    );
    assert_eq!(server.drain_outbox(c1), Vec::<SignalMessage>::new());
}

#[test]
fn inbound_ready_is_unexpected_and_ignored() {
    let mut server = ServerState::new();
    let c1 = server.user_connected();
    let c2 = server.user_connected();
    server.user_message(c1, SignalMessage::SessionJoin(sid("room-1"))).unwrap();
    server.user_message(c2, SignalMessage::SessionJoin(sid("room-1"))).unwrap();
    server.drain_outbox(c1);
    server.drain_outbox(c2);

    assert_eq!(
        server.user_message(c1, SignalMessage::SessionReady(sid("room-1"), true)),
        Ok(())
    );
    assert_eq!(server.drain_outbox(c1), Vec::<SignalMessage>::new());
    assert_eq!(server.drain_outbox(c2), Vec::<SignalMessage>::new());
}

#[test]
fn session_tokens_compare_by_value() {
    let a = sid("room-1");
    let b = sid("room-1");
    let c = sid("room-2");
    assert!(a.equals(&b));
    assert!(!a.equals(&c));
    assert_eq!(UserId::new(7), UserId::new(7));
    assert_ne!(UserId::new(7), UserId::new(8));
}
