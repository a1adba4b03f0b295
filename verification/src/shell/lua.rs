//! The script interpreter as the dispatcher sees it: a source goes in, and
//! values, a request for more input, or a diagnostic comes out.

use crate::shell::text::{same_bytes, split_tokens, tokens, views};
use vstd::prelude::*;
use vstd::string::StringSliceAdditionalSpecFns;

verus! {

/// The embedded interpreter. Its state is its own: nothing is known of it
/// here.
#[verifier::external_type_specification]
#[verifier::external_body]
pub struct ExLua(mlua::Lua);

/// What evaluating a source gave.
#[derive(Debug, Clone, PartialEq, Eq)]
pub enum EvalOutcome {
    /// The values of the source, each as the bytes that display it.
    Values(Vec<Vec<u8>>),
    /// The source is the beginning of a program and needs more input.
    Incomplete,
    /// A parse or runtime error, with its diagnostic.
    Error(Vec<u8>),
}

/// The mathematical value of an [`EvalOutcome`].
pub enum Evaluated {
    Values(Seq<Seq<u8>>),
    Incomplete,
    Error(Seq<u8>),
}

impl View for EvalOutcome {
    type V = Evaluated;

    open spec fn view(&self) -> Evaluated {
        match self {
            EvalOutcome::Values(values) => Evaluated::Values(views(values@)),
            EvalOutcome::Incomplete => Evaluated::Incomplete,
            EvalOutcome::Error(diagnostic) => Evaluated::Error(diagnostic@),
        }
    }
}

/// Loads `source` into the interpreter and evaluates it, by `Lua::load` and
/// `Chunk::eval` of mlua. A syntax error that more input could mend becomes
/// `Incomplete`; any other error becomes `Error` with its message; each
/// value is given in its pretty debug form (`1` for the integer one).
/// Nothing is claimed of the result: it depends on what the interpreter
/// holds, and a script that never ends keeps this call from returning.
#[verifier::external_body]
pub(crate) fn evaluate(lua: &mlua::Lua, source: &[u8]) -> (r: EvalOutcome) {
    match lua.load(source).eval::<mlua::MultiValue>() {
        Ok(values) => EvalOutcome::Values(
            values.iter().map(|value| format!("{value:#?}").into_bytes()).collect(),
        ),
        Err(mlua::Error::SyntaxError { incomplete_input: true, .. }) => EvalOutcome::Incomplete,
        Err(error) => EvalOutcome::Error(error.to_string().into_bytes()),
    }
}

/// The levels of the log that scripts can write to.
#[derive(Debug, Clone, Copy, PartialEq, Eq)]
pub enum LogLevel {
    Info,
    Warn,
    Error,
    Debug,
    Trace,
}

/// The level that the callable `name` of the script namespace's `log`
/// table writes at: the level of the same name.
pub open spec fn level_named(name: Seq<u8>) -> Option<LogLevel> {
    if name == "info".spec_bytes() {
        Some(LogLevel::Info)
    } else if name == "warn".spec_bytes() {
        Some(LogLevel::Warn)
    } else if name == "error".spec_bytes() {
        Some(LogLevel::Error)
    } else if name == "debug".spec_bytes() {
        Some(LogLevel::Debug)
    } else if name == "trace".spec_bytes() {
        Some(LogLevel::Trace)
    } else {
        None
    }
}

/// Looks up the level that a callable of the `log` table writes at.
pub fn log_level(name: &[u8]) -> (r: Option<LogLevel>)
    ensures
        r == level_named(name@),
{
    if same_bytes(name, "info".as_bytes()) {
        Some(LogLevel::Info)
    } else if same_bytes(name, "warn".as_bytes()) {
        Some(LogLevel::Warn)
    } else if same_bytes(name, "error".as_bytes()) {
        Some(LogLevel::Error)
    } else if same_bytes(name, "debug".as_bytes()) {
        Some(LogLevel::Debug)
    } else if same_bytes(name, "trace".as_bytes()) {
        Some(LogLevel::Trace)
    } else {
        None
    }
}

/// The arguments that a script's call of `cd` hands to the built-in: the
/// whitespace-delimited tokens of the path, and none where it gave no path.
pub fn cd_arguments(path: &Option<Vec<u8>>) -> (r: Vec<Vec<u8>>)
    ensures
        views(r@) == tokens(
            match *path {
                Some(given) => given@,
                None => Seq::empty(),
            },
        ),
{
    match path {
        Some(given) => split_tokens(given.as_slice()),
        None => {
            let none: Vec<u8> = Vec::new();
            split_tokens(none.as_slice())
        },
    }
}

} // verus!
