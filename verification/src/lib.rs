//! A rendezvous and relay service core for pairing exactly two participants
//! and forwarding their connection-negotiation messages.
//!
//! The library holds the session-pairing and message-routing state machine:
//! a registry of live connections (each with an ordered outbound queue), a
//! registry of live sessions, a router that decides where each inbound
//! message goes, and the connect/disconnect lifecycle. The transport layer
//! around it hands the core decoded messages and drains the outbound queues.

pub mod assoc;
pub mod connection;
pub mod laws;
pub mod model;
pub mod protocol;
pub mod server;
pub mod session;
