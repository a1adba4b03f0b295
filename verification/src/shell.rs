//! The evaluation loop and the parts it is made of.

pub mod commands;
pub mod executor;
pub mod fs;
pub mod history;
pub mod input;
pub mod lua;
pub mod prompt;
pub mod terminal;
pub mod text;
