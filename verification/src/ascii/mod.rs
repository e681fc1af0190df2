//! ANSI escape sequences: their byte forms, and the recognizer that reads them.

pub mod csi;
pub mod decimal;
pub mod escapes;
pub mod grammar;
pub mod laws;
pub mod lemmas;
pub mod parser;
pub mod runs;
pub mod stream;
pub mod writer;
