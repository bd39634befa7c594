//! Configuration protocol of a sixteen-port MIDI router.
//!
//! The router is configured over System Exclusive messages: a command frame
//! goes out, one reply frame comes back. This library holds everything of
//! that protocol that does not touch a MIDI port: the codec for the port
//! state carried in replies, the single-slot mailbox for inbound frames, the
//! request/response exchange as a step function, the command frames, and the
//! parser for the lines a user types.
pub mod cmd;
pub mod engine;
pub mod error;
pub mod msg;
pub mod port;
pub mod text;
