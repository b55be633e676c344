//! A verified core for a session-multiplexing interactive command shell.
//!
//! The library models sessions (each with a working-directory environment,
//! an append-only command history, and an optional assistant conversation
//! context), a registry of sessions with at most one active session, and the
//! dispatch logic that classifies one input line at a time as empty, built-in
//! or external. Everything stateful is specified and verified; reading input
//! lines, touching the file system, spawning processes and talking to the
//! network are left to a thin unverified layer around the library.

pub mod assistant;
pub mod editor;
pub mod environment;
pub mod errors;
pub mod manager;
pub mod router;
pub mod session;
pub mod text;
