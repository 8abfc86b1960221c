//! Crab Hole: a relay that shares an interactive shell session with the
//! clients of a room.
//!
//! The verified core holds the decisions of the host: how socket events are
//! validated, what is written to the shell, how shell output is turned into
//! events, how typed lines are matched with readers, and the scripted
//! keystrokes of the pseudo-terminal demo client.

pub mod demo;
pub mod input_queue;
pub mod payload;
pub mod render;
pub mod session;
pub mod term;
