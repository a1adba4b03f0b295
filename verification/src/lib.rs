//! An interactive shell core: a byte-indexed line editor, a dispatcher that
//! routes each submitted line to a built-in command or to an embedded script
//! interpreter, and the history records that every submission leaves behind.

pub mod log;
pub mod parser;
pub mod shell;
