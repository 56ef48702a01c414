//! Core of a DNS tunnel runtime: stream flow control, half-close sequencing,
//! acceptor credit, poll pacing and reconnect back-off, each stated over
//! plain values so that the event loops around them only perform effects.

pub mod acceptor;
pub mod client;
pub mod flow;
pub mod lifecycle;
pub mod pacing;
pub mod reconnect;
pub mod server;
pub mod table;
