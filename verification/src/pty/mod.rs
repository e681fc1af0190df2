//! The session that relays a child shell: its decisions, without its I/O.

pub mod cwd;
pub mod forker;
pub mod keys;
pub mod raw_mode;
