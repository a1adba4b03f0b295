//! The shape of a parsed command line.

pub mod structure;
