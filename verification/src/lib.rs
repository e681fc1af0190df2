//! A pseudo-terminal host: the ANSI escape recognizer and serializer, the
//! output queue, and the decisions of the session that relays a child shell.

pub mod ascii;
pub mod error;
pub mod pty;
