//! What a command line is made of.

use vstd::prelude::*;

verus! {

/// What the user sends: a sequence of units.
#[derive(Debug, Clone, PartialEq, Eq)]
pub struct Command(pub Vec<CommandUnit>);

/// A part of a [`Command`]: an instruction, or an operator between two.
#[derive(Debug, Clone, PartialEq, Eq)]
pub enum CommandUnit {
    Instruction(Instruction),
    Operator(String),
}

/// Something that is called, with what it is called with.
#[derive(Debug, Clone, PartialEq, Eq)]
pub struct Instruction {
    pub callable: String,
    pub children: Vec<InstructionUnit>,
}

/// An argument or a flag.
#[derive(Debug, Clone, PartialEq, Eq)]
pub enum InstructionUnit {
    Arg(String),
    Flag(Flag),
}

/// A flag: the name behind `-` or `--`, the value handed to it, and how it
/// was written.
#[derive(Debug, Clone, PartialEq, Eq)]
pub struct Flag {
    pub name: String,
    pub value: Option<String>,
    pub length: FlagLength,
    pub storage: FlagStorage,
}

/// How a flag is introduced: `-` (short) or `--` (long).
#[derive(Debug, Clone, Copy, PartialEq, Eq)]
pub enum FlagLength {
    Short,
    Long,
}

/// Where a flag keeps its value: `--a=b` (inner) or `--a b` (outer).
#[derive(Debug, Clone, Copy, PartialEq, Eq)]
pub enum FlagStorage {
    Inner,
    Outer,
}

} // verus!
