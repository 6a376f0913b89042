//! Session and wire-protocol layer of a networked card game: playing cards,
//! the textual wire codec, the join handshake and the per-connection state
//! machine.

pub mod card;
pub mod action;
pub mod wire;
pub mod join;
pub mod handler;
pub mod client;
