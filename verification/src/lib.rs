//! The core of a message relay: peers connect, each message that one of them
//! sends is broadcast to all the others.
//!
//! The library holds the decisions and leaves sockets and tasks to its
//! caller. [`registry::Registry`] maps each live peer to its outbound queue
//! and fans messages out; [`session::Session`] takes one connection from
//! handshake to cleanup; [`server::Server`] and [`address`] decide where the
//! relay may listen; [`message`] and [`envelope`] give messages their wire
//! form.

pub mod address;
pub mod client;
pub mod envelope;
pub mod json;
pub mod message;
pub mod queue;
pub mod registry;
pub mod server;
pub mod session;
