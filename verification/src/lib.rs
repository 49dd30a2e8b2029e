//! Real-time notification core: a central registry that groups live client
//! sessions into rooms and fans domain events out to every session joined to
//! a room, and a per-connection session state machine that enforces a
//! ping/pong liveness protocol over its transport.

pub mod registry;
pub mod session;
