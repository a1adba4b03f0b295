//! The built-in commands: `exit`, `cd`, `pwd` and `echo`.
//!
//! A built-in takes its whitespace-delimited arguments and gives an exit code,
//! what it writes to standard output, and a diagnostic when it fails. What a
//! built-in needs from the process (the home directory, the working
//! directory, the change of directory itself) is handed to it as a value.

pub mod parser;

use crate::shell::text::{
    append, bytes_of, copy_of, join, joined, optional, same_bytes, views,
};
use vstd::prelude::*;
use vstd::string::StringSliceAdditionalSpecFns;

verus! {

/// The built-in commands.
#[derive(Debug, Clone, Copy, PartialEq, Eq)]
pub enum Builtin {
    Exit,
    Cd,
    Pwd,
    Echo,
}

/// The built-in that `name` names, by exact match of its bytes.
pub open spec fn builtin_named(name: Seq<u8>) -> Option<Builtin> {
    if name == "exit".spec_bytes() {
        Some(Builtin::Exit)
    } else if name == "cd".spec_bytes() {
        Some(Builtin::Cd)
    } else if name == "pwd".spec_bytes() {
        Some(Builtin::Pwd)
    } else if name == "echo".spec_bytes() {
        Some(Builtin::Echo)
    } else {
        None
    }
}

/// Looks `name` up among the built-ins.
pub fn lookup(name: &[u8]) -> (r: Option<Builtin>)
    ensures
        r == builtin_named(name@),
{
    if same_bytes(name, "exit".as_bytes()) {
        Some(Builtin::Exit)
    } else if same_bytes(name, "cd".as_bytes()) {
        Some(Builtin::Cd)
    } else if same_bytes(name, "pwd".as_bytes()) {
        Some(Builtin::Pwd)
    } else if same_bytes(name, "echo".as_bytes()) {
        Some(Builtin::Echo)
    } else {
        None
    }
}

/// What a built-in leaves behind.
#[derive(Debug, Clone, PartialEq, Eq)]
pub struct Outcome {
    /// 0 for success, nonzero for failure.
    pub code: u32,
    /// The bytes written to standard output.
    pub output: Vec<u8>,
    /// The diagnostic of a failure.
    pub diagnostic: Option<Vec<u8>>,
}

/// The mathematical value of an [`Outcome`].
pub struct Verdict {
    pub code: int,
    pub output: Seq<u8>,
    pub diagnostic: Option<Seq<u8>>,
}

impl View for Outcome {
    type V = Verdict;

    open spec fn view(&self) -> Verdict {
        Verdict {
            code: self.code as int,
            output: self.output@,
            diagnostic: optional(self.diagnostic),
        }
    }
}

/// Success with the given output.
pub open spec fn succeeded(output: Seq<u8>) -> Verdict {
    Verdict { code: 0, output, diagnostic: None }
}

/// Failure with exit code 1, no output and the given diagnostic.
pub open spec fn failed(diagnostic: Seq<u8>) -> Verdict {
    Verdict { code: 1, output: Seq::empty(), diagnostic: Some(diagnostic) }
}

fn success(output: Vec<u8>) -> (r: Outcome)
    ensures
        r@ == succeeded(output@),
{
    Outcome { code: 0, output, diagnostic: None }
}

fn failure(diagnostic: Vec<u8>) -> (r: Outcome)
    ensures
        r@ == failed(diagnostic@),
{
    Outcome { code: 1, output: Vec::new(), diagnostic: Some(diagnostic) }
}

/// `exit`: succeeds and writes nothing. Leaving the shell is the
/// dispatcher's part.
pub fn exit() -> (r: Outcome)
    ensures
        r@ == succeeded(Seq::empty()),
{
    success(Vec::new())
}

/// What `echo` writes: the arguments with one space between neighbours,
/// then a newline.
pub open spec fn echoed(args: Seq<Seq<u8>>) -> Seq<u8> {
    joined(args, seq![32u8]).push(10u8)
}

/// `echo`: writes its arguments, untouched, separated by single spaces and
/// ended by a newline.
pub fn echo(args: &Vec<Vec<u8>>) -> (r: Outcome)
    ensures
        r@ == succeeded(echoed(views(args@))),
{
    let mut space: Vec<u8> = Vec::new();
    space.push(32u8);
    assert(space@ =~= seq![32u8]);
    let mut out = join(args, space.as_slice());
    out.push(10u8);
    success(out)
}

/// What `pwd` gives for a working directory, or for none.
pub open spec fn pwd_verdict(cwd: Option<Seq<u8>>) -> Verdict {
    match cwd {
        Some(dir) => succeeded(dir.push(10u8)),
        None => failed("Failed to get current directory".spec_bytes()),
    }
}

/// `pwd`: writes the working directory and a newline; fails when the
/// working directory could not be had.
pub fn pwd(cwd: &Option<Vec<u8>>) -> (r: Outcome)
    ensures
        r@ == pwd_verdict(optional(*cwd)),
{
    match cwd {
        Some(dir) => {
            let mut out = copy_of(dir.as_slice());
            out.push(10u8);
            success(out)
        },
        None => failure(bytes_of("Failed to get current directory")),
    }
}

/// Where `cd` wants to go, or the diagnostic with which it fails before it
/// touches any directory. Without an argument the target is the home
/// directory; with arguments it is the first of them, which must be UTF-8.
pub open spec fn cd_target(args: Seq<Seq<u8>>, home: Option<Seq<u8>>) -> Result<Seq<u8>, Seq<u8>> {
    if args.len() == 0 {
        match home {
            Some(dir) => Ok(dir),
            None => Err("Failed to get home directory".spec_bytes()),
        }
    } else if vstd::utf8::valid_utf8(args[0]) {
        Ok(args[0])
    } else {
        Err("Path is invalid UTF-8".spec_bytes())
    }
}

/// `plan` holds the target, or the failure, that `target` describes.
pub open spec fn plan_matches(plan: Result<Vec<u8>, Outcome>, target: Result<Seq<u8>, Seq<u8>>) -> bool {
    match plan {
        Ok(path) => target == Ok::<Seq<u8>, Seq<u8>>(path@),
        Err(outcome) => target.is_err() && outcome@ == failed(target->Err_0),
    }
}

/// Tells whether `bytes` are valid UTF-8, by `std::str::from_utf8`, which
/// succeeds on exactly the byte strings that are.
#[verifier::external_body]
fn is_utf8(bytes: &[u8]) -> (r: bool)
    ensures
        r == vstd::utf8::valid_utf8(bytes@),
{
    std::str::from_utf8(bytes).is_ok()
}

/// The user's home directory as `dirs::home_dir` reports it, as the bytes of
/// the path; `None` where the platform gives none. Nothing is claimed of
/// the result: it depends on the user and the environment.
#[verifier::external_body]
fn home_directory() -> (r: Option<Vec<u8>>) {
    dirs::home_dir().map(|dir| dir.into_os_string().into_encoded_bytes())
}

/// The first step of `cd`, given the home directory: the path to change
/// to, or the failure.
pub fn cd_from(args: &Vec<Vec<u8>>, home: Option<Vec<u8>>) -> (r: Result<Vec<u8>, Outcome>)
    ensures
        plan_matches(r, cd_target(views(args@), optional(home))),
{
    if args.len() == 0 {
        match home {
            Some(dir) => Ok(dir),
            None => Err(failure(bytes_of("Failed to get home directory"))),
        }
    } else if is_utf8(args[0].as_slice()) {
        Ok(copy_of(args[0].as_slice()))
    } else {
        Err(failure(bytes_of("Path is invalid UTF-8")))
    }
}

/// The first step of `cd`: the path to change to, or the failure. The home
/// directory is asked of the platform when there is no argument, and only
/// then.
pub fn cd(args: &Vec<Vec<u8>>) -> (r: Result<Vec<u8>, Outcome>)
    ensures
        args@.len() > 0 ==> plan_matches(r, cd_target(views(args@), None)),
        args@.len() == 0 ==> exists|home: Option<Seq<u8>>|
            plan_matches(r, #[trigger] cd_target(views(args@), home)),
{
    if args.len() == 0 {
        let home = home_directory();
        let ghost known = optional(home);
        let r = cd_from(args, home);
        assert(plan_matches(r, cd_target(views(args@), known)));
        r
    } else {
        cd_from(args, None)
    }
}

/// How the change of directory went.
#[derive(Debug, Clone, PartialEq, Eq)]
pub enum DirStatus {
    /// The working directory is now the target.
    Changed,
    /// The target does not exist.
    Missing,
    /// The target exists and is not a directory.
    NotDirectory,
    /// The change itself failed, with the platform's message.
    Failed(Vec<u8>),
}

/// The mathematical value of a [`DirStatus`].
pub enum DirState {
    Changed,
    Missing,
    NotDirectory,
    Failed(Seq<u8>),
}

impl View for DirStatus {
    type V = DirState;

    open spec fn view(&self) -> DirState {
        match self {
            DirStatus::Changed => DirState::Changed,
            DirStatus::Missing => DirState::Missing,
            DirStatus::NotDirectory => DirState::NotDirectory,
            DirStatus::Failed(message) => DirState::Failed(message@),
        }
    }
}

/// What `cd` gives once the change to `path` went as `status` says.
pub open spec fn cd_verdict(path: Seq<u8>, status: DirState) -> Verdict {
    match status {
        DirState::Changed => succeeded(Seq::empty()),
        DirState::Missing => failed(path + ": does not exist".spec_bytes()),
        DirState::NotDirectory => failed(path + ": is not a directory".spec_bytes()),
        DirState::Failed(message) => failed("Failed to change directory: ".spec_bytes() + message),
    }
}

/// The last step of `cd`: success when the directory was changed, else
/// exit code 1 with the diagnostic of what went wrong.
pub fn cd_done(path: &[u8], status: &DirStatus) -> (r: Outcome)
    ensures
        r@ == cd_verdict(path@, status@),
{
    match status {
        DirStatus::Changed => success(Vec::new()),
        DirStatus::Missing => {
            let mut d = copy_of(path);
            append(&mut d, ": does not exist".as_bytes());
            failure(d)
        },
        DirStatus::NotDirectory => {
            let mut d = copy_of(path);
            append(&mut d, ": is not a directory".as_bytes());
            failure(d)
        },
        DirStatus::Failed(message) => {
            let mut d = bytes_of("Failed to change directory: ");
            append(&mut d, message.as_slice());
            failure(d)
        },
    }
}

/// What is known of the target before the change is tried: `Missing` for a
/// path that does not exist, `NotDirectory` for one that exists and is no
/// directory, and nothing to object for a directory.
pub open spec fn objection(exists: bool, is_dir: bool) -> Option<DirState> {
    if !exists {
        Some(DirState::Missing)
    } else if !is_dir {
        Some(DirState::NotDirectory)
    } else {
        None
    }
}

/// Looks at the target before the change is tried. `None` says that the
/// change may go ahead.
pub fn cd_check(exists: bool, is_dir: bool) -> (r: Option<DirStatus>)
    ensures
        match objection(exists, is_dir) {
            Some(state) => r is Some && r->Some_0@ == state,
            None => r is None,
        },
{
    if !exists {
        Some(DirStatus::Missing)
    } else if !is_dir {
        Some(DirStatus::NotDirectory)
    } else {
        None
    }
}

/// The status of a change that was tried: `Changed` when the platform
/// reported no error, `Failed` with its message otherwise.
pub fn cd_changed(error: Option<Vec<u8>>) -> (r: DirStatus)
    ensures
        r@ == (match error {
            Some(message) => DirState::Failed(message@),
            None => DirState::Changed,
        }),
{
    match error {
        Some(message) => DirStatus::Failed(message),
        None => DirStatus::Changed,
    }
}

} // verus!
