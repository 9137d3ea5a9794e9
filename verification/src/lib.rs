//! Server-side engine for a networked two-player tic-tac-toe game.
//!
//! The crate holds the authoritative game state and the rules that mutate it:
//! the board and its move/win/draw logic ([`game`]), the session registry that
//! serializes mutations and publishes snapshots on an update bus ([`registry`]),
//! the wire-level request and reply values ([`message`]), and the
//! per-connection dispatch state machine ([`connection`]).
//!
//! The update bus itself is a tokio broadcast channel reached through the
//! trusted boundary in [`bus`]. Network transport, JSON framing and task
//! scheduling live outside the crate; they hand plain values in and carry
//! plain values out.

pub mod bus;
pub mod connection;
pub mod game;
pub mod message;
pub mod registry;
