//! Clipboard and command synchronisation between the devices of one user,
//! through a relay: message framing, the relay's session registry, the
//! device's reconnecting connection agent and its event multiplexer.
pub mod message;
pub mod codec;
pub mod registry;
pub mod agent;
pub mod text;
pub mod action;
pub mod client;
pub mod server;
pub mod request_url;
