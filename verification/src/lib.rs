//! A multi-user text world: the command grammar, the graph of nodes and their
//! assets, the per-connection line handling and the engine's dispatch rules.
//!
//! Everything here works on plain values. A transport hands bytes in and takes
//! bytes out; nothing in this crate touches a socket, a file or a clock.

pub mod connection_manager;
pub mod settings;
pub mod text;
pub mod world;
