//! A shared pixel canvas: the board store, the color grammar, the mutation
//! engine and the per-connection session state machine.
pub mod color;
pub mod board;
pub mod engine;
pub mod session;
pub mod wire;
