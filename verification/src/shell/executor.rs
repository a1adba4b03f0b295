//! The dispatcher: it classifies a submission, says what it needs from the
//! process, and, once it has the answer, says what to print, what to record
//! and how the editor goes on.

use crate::shell::commands::{
    builtin_named, cd, cd_done, cd_from, cd_target, cd_verdict, echo, echoed, exit, failed,
    lookup, plan_matches, pwd, pwd_verdict, succeeded, Builtin, DirState, DirStatus, Outcome,
    Verdict,
};
use crate::shell::history::{make_record, record};
use crate::shell::input::{Editor, KeyHandler};
use crate::shell::lua::{evaluate, EvalOutcome, Evaluated};
use crate::shell::terminal::{effects, emit, Action, Effect};
use crate::shell::text::{
    append, bytes_of, copy_of, join, joined, optional, split_tokens, tokens, views,
};
use vstd::prelude::*;
use vstd::string::StringSliceAdditionalSpecFns;

verus! {

/// A submission from the line editor: the edit buffer, and the fragments
/// that came before it and were found incomplete.
#[derive(Debug, Clone, PartialEq, Eq)]
pub struct InternalExecutor {
    /// The continuation buffer, emptied for this submission.
    pub incomplete: Vec<u8>,
    /// The session prompt.
    pub prompt: Vec<u8>,
    /// The edit buffer as submitted.
    pub buffer: Vec<u8>,
    /// The continuation buffer as it was before this submission.
    pub prev: Vec<u8>,
}

impl InternalExecutor {
    /// Takes a submission over from the editor: the continuation buffer
    /// moves into `prev` and is left empty.
    pub fn new(incomplete: &mut Vec<u8>, prompt: &Vec<u8>, buffer: &Vec<u8>) -> (r: Self)
        ensures
            final(incomplete)@ == Seq::<u8>::empty(),
            r.prev@ == old(incomplete)@,
            r.incomplete@ == Seq::<u8>::empty(),
            r.prompt@ == prompt@,
            r.buffer@ == buffer@,
    {
        let prev = copy_of(incomplete.as_slice());
        incomplete.clear();
        InternalExecutor {
            incomplete: Vec::new(),
            prompt: copy_of(prompt.as_slice()),
            buffer: copy_of(buffer.as_slice()),
            prev,
        }
    }
}

/// Where a submission comes from.
#[derive(Debug, Clone, PartialEq, Eq)]
pub enum ExecutorType {
    /// From the line editor.
    Internal(InternalExecutor),
    /// A line handed in from elsewhere.
    External(Vec<u8>),
}

impl ExecutorType {
    /// The line whose tokens name the command and its arguments.
    pub open spec fn line(&self) -> Seq<u8> {
        match self {
            ExecutorType::Internal(inner) => inner.buffer@,
            ExecutorType::External(text) => text@,
        }
    }

    /// The fragments that came before the line.
    pub open spec fn pending(&self) -> Seq<u8> {
        match self {
            ExecutorType::Internal(inner) => inner.prev@,
            ExecutorType::External(_) => Seq::empty(),
        }
    }

    /// The source that the interpreter is given: the earlier fragments,
    /// then the line.
    pub open spec fn source(&self) -> Seq<u8> {
        self.pending() + self.line()
    }

    /// The submission comes from the line editor.
    pub open spec fn is_internal(&self) -> bool {
        self is Internal
    }

    /// The whitespace-delimited tokens of the line.
    pub fn get_args(&self) -> (r: Vec<Vec<u8>>)
        ensures
            views(r@) == tokens(self.line()),
    {
        match self {
            ExecutorType::Internal(inner) => split_tokens(inner.buffer.as_slice()),
            ExecutorType::External(text) => split_tokens(text.as_slice()),
        }
    }

    /// The source for the interpreter.
    pub fn build_lua_string(&self) -> (r: Vec<u8>)
        ensures
            r@ == self.source(),
    {
        match self {
            ExecutorType::Internal(inner) => {
                let mut r = copy_of(inner.prev.as_slice());
                append(&mut r, inner.buffer.as_slice());
                r
            },
            ExecutorType::External(text) => {
                let r = copy_of(text.as_slice());
                assert(r@ =~= self.source());
                r
            },
        }
    }
}

/// What the dispatcher needs from the process before it can end a
/// submission.
#[derive(Debug, Clone, PartialEq, Eq)]
pub enum Request {
    /// Nothing: the line was empty.
    Nothing,
    /// Nothing: the built-in has run and this is its outcome.
    Done(Builtin, Outcome),
    /// Change the working directory to this path, and say how it went.
    ChangeDir(Vec<u8>),
    /// Say what the working directory is.
    WorkingDir,
    /// Evaluate this source in the interpreter.
    Eval(Vec<u8>),
}

/// The mathematical value of a [`Request`].
pub enum Asked {
    Nothing,
    Done(Builtin, Verdict),
    ChangeDir(Seq<u8>),
    WorkingDir,
    Eval(Seq<u8>),
}

impl View for Request {
    type V = Asked;

    open spec fn view(&self) -> Asked {
        match self {
            Request::Nothing => Asked::Nothing,
            Request::Done(builtin, outcome) => Asked::Done(*builtin, outcome@),
            Request::ChangeDir(path) => Asked::ChangeDir(path@),
            Request::WorkingDir => Asked::WorkingDir,
            Request::Eval(source) => Asked::Eval(source@),
        }
    }
}

/// The process's answer to a [`Request`].
#[derive(Debug, Clone, PartialEq, Eq)]
pub enum Reply {
    /// There was nothing to do.
    Nothing,
    /// How the change of directory went.
    Dir(DirStatus),
    /// The working directory, or `None` if it could not be had.
    Cwd(Option<Vec<u8>>),
    /// What the interpreter gave.
    Eval(EvalOutcome),
}

/// The mathematical value of a [`Reply`].
pub enum Answer {
    Nothing,
    Dir(DirState),
    Cwd(Option<Seq<u8>>),
    Eval(Evaluated),
}

impl View for Reply {
    type V = Answer;

    open spec fn view(&self) -> Answer {
        match self {
            Reply::Nothing => Answer::Nothing,
            Reply::Dir(status) => Answer::Dir(status@),
            Reply::Cwd(cwd) => Answer::Cwd(optional(*cwd)),
            Reply::Eval(outcome) => Answer::Eval(outcome@),
        }
    }
}

/// What `cd` asks of the process: the change to its target, or nothing
/// where it failed before it had one.
pub open spec fn cd_asks(target: Result<Seq<u8>, Seq<u8>>) -> Asked {
    match target {
        Ok(path) => Asked::ChangeDir(path),
        Err(diagnostic) => Asked::Done(Builtin::Cd, failed(diagnostic)),
    }
}

/// The home directory that was handed in, if one was.
spec fn given_home(home: Option<Option<Vec<u8>>>) -> Option<Seq<u8>> {
    match home {
        Some(dir) => optional(dir),
        None => None,
    }
}

fn cd_request(plan: Result<Vec<u8>, Outcome>) -> (r: Request)
    ensures
        forall|target: Result<Seq<u8>, Seq<u8>>| #[trigger]
            plan_matches(plan, target) ==> r@ == cd_asks(target),
{
    match plan {
        Ok(path) => Request::ChangeDir(path),
        Err(outcome) => Request::Done(Builtin::Cd, outcome),
    }
}

/// One submission on its way through the dispatcher.
#[derive(Debug, Clone, PartialEq, Eq)]
pub struct Executor {
    /// Where the submission comes from.
    pub variant: ExecutorType,
    /// The tokens after the first.
    pub args: Vec<Vec<u8>>,
    /// The first token, or nothing where the line has none.
    pub command: Vec<u8>,
}

impl Executor {
    /// The command is the first token of the line and the arguments are the
    /// rest; both are empty where the line has no token.
    pub open spec fn wf(&self) -> bool {
        let all = tokens(self.variant.line());
        if all.len() == 0 {
            self.command@.len() == 0 && self.args@.len() == 0
        } else {
            self.command@ == all[0] && views(self.args@) == all.skip(1)
        }
    }

    /// What the submission asks of the process, where `home` is the home
    /// directory. An empty line with nothing pending asks nothing; a
    /// built-in's name as the command runs that built-in; anything else is
    /// source for the interpreter.
    pub open spec fn asks(&self, home: Option<Seq<u8>>) -> Asked {
        if self.command@.len() == 0 && self.variant.pending().len() == 0 {
            Asked::Nothing
        } else {
            match builtin_named(self.command@) {
                Some(Builtin::Exit) => Asked::Done(Builtin::Exit, succeeded(Seq::empty())),
                Some(Builtin::Cd) => cd_asks(cd_target(views(self.args@), home)),
                Some(Builtin::Pwd) => Asked::WorkingDir,
                Some(Builtin::Echo) => Asked::Done(
                    Builtin::Echo,
                    succeeded(echoed(views(self.args@))),
                ),
                None => Asked::Eval(self.variant.source()),
            }
        }
    }

    /// Whether the request depends on the home directory: only a `cd`
    /// without arguments does.
    pub open spec fn needs_home(&self) -> bool {
        !(self.command@.len() == 0 && self.variant.pending().len() == 0) && builtin_named(
            self.command@,
        ) == Some(Builtin::Cd) && self.args@.len() == 0
    }

    /// Splits the line into command and arguments.
    pub fn new(variant: ExecutorType) -> (r: Self)
        ensures
            r.variant == variant,
            r.wf(),
    {
        let mut all = variant.get_args();
        if all.len() == 0 {
            Executor { variant, args: all, command: Vec::new() }
        } else {
            let ghost before = views(all@);
            let command = all.remove(0);
            assert(views(all@) =~= before.skip(1));
            Executor { variant, args: all, command }
        }
    }

    fn classify(&self, home: Option<Option<Vec<u8>>>) -> (r: Request)
        ensures
            match home {
                Some(dir) => r@ == self.asks(optional(dir)),
                None => exists|dir: Option<Seq<u8>>| r@ == #[trigger] self.asks(dir),
            },
            !self.needs_home() ==> r@ == self.asks(None),
    {
        let ghost given = given_home(home);
        if self.command.len() == 0 && self.variant_pending_is_empty() {
            assert(Request::Nothing@ == self.asks(given));
            return Request::Nothing;
        }
        match lookup(self.command.as_slice()) {
            Some(Builtin::Exit) => {
                let r = Request::Done(Builtin::Exit, exit());
                assert(r@ == self.asks(given));
                r
            },
            Some(Builtin::Cd) => {
                let plan = match home {
                    Some(dir) => cd_from(&self.args, dir),
                    None => cd(&self.args),
                };
                let r = cd_request(plan);
                proof {
                    if home is Some || self.args@.len() > 0 {
                        assert(r@ == self.asks(given));
                    } else {
                        let dir = choose|dir: Option<Seq<u8>>|
                            plan_matches(plan, #[trigger] cd_target(views(self.args@), dir));
                        assert(r@ == self.asks(dir));
                    }
                }
                r
            },
            Some(Builtin::Pwd) => {
                assert(Request::WorkingDir@ == self.asks(given));
                Request::WorkingDir
            },
            Some(Builtin::Echo) => {
                let r = Request::Done(Builtin::Echo, echo(&self.args));
                assert(r@ == self.asks(given));
                r
            },
            None => {
                let r = Request::Eval(self.variant.build_lua_string());
                assert(r@ == self.asks(given));
                r
            },
        }
    }

    fn variant_pending_is_empty(&self) -> (r: bool)
        ensures
            r == (self.variant.pending().len() == 0),
    {
        match &self.variant {
            ExecutorType::Internal(inner) => inner.prev.len() == 0,
            ExecutorType::External(_) => true,
        }
    }

    /// What the submission asks of the process, given the home directory.
    pub fn execute_from(&self, home: Option<Vec<u8>>) -> (r: Request)
        ensures
            r@ == self.asks(optional(home)),
    {
        self.classify(Some(home))
    }

    /// What the submission asks of the process. The home directory is
    /// asked of the platform for a `cd` without arguments, and only then.
    pub fn execute(&self) -> (r: Request)
        ensures
            exists|home: Option<Seq<u8>>| r@ == #[trigger] self.asks(home),
            !self.needs_home() ==> r@ == self.asks(None),
    {
        self.classify(None)
    }

    /// Has the interpreter evaluate the source of an `Eval` request. Any
    /// other request gets no reply here.
    pub fn lua(&self, request: &Request, lua: &mlua::Lua) -> (r: Option<Reply>)
        ensures
            r is Some <==> request is Eval,
            r is Some ==> r->Some_0 is Eval,
    {
        match request {
            Request::Eval(source) => Some(Reply::Eval(evaluate(lua, source.as_slice()))),
            _ => None,
        }
    }
}

/// How a submission ended.
pub enum Ending {
    /// The line was empty and nothing happened.
    Skipped,
    /// A built-in ran, with this verdict.
    Ran(Builtin, Verdict),
    /// The interpreter gave these values.
    Printed(Seq<Seq<u8>>),
    /// The interpreter wants more input.
    Pending,
    /// The interpreter failed, with this diagnostic.
    Broke(Seq<u8>),
}

/// The diagnostic for a line from elsewhere that the interpreter found
/// incomplete: there is no editor to ask for more.
pub open spec fn incomplete_message() -> Seq<u8> {
    "Incomplete input".spec_bytes()
}

/// How the submission ends when the process answers `answer` to `asked`,
/// or `None` when that is no answer to it.
pub open spec fn ending(internal: bool, asked: Asked, answer: Answer) -> Option<Ending> {
    match asked {
        Asked::Nothing => match answer {
            Answer::Nothing => Some(Ending::Skipped),
            _ => None,
        },
        Asked::Done(builtin, verdict) => match answer {
            Answer::Nothing => Some(Ending::Ran(builtin, verdict)),
            _ => None,
        },
        Asked::ChangeDir(path) => match answer {
            Answer::Dir(status) => Some(Ending::Ran(Builtin::Cd, cd_verdict(path, status))),
            _ => None,
        },
        Asked::WorkingDir => match answer {
            Answer::Cwd(cwd) => Some(Ending::Ran(Builtin::Pwd, pwd_verdict(cwd))),
            _ => None,
        },
        Asked::Eval(_) => match answer {
            Answer::Eval(Evaluated::Values(values)) => Some(Ending::Printed(values)),
            Answer::Eval(Evaluated::Incomplete) => if internal {
                Some(Ending::Pending)
            } else {
                Some(Ending::Broke(incomplete_message()))
            },
            Answer::Eval(Evaluated::Error(diagnostic)) => Some(Ending::Broke(diagnostic)),
            _ => None,
        },
    }
}

/// A diagnostic on its way to the user: raw mode is left before it is shown
/// and entered again after.
pub open spec fn reported(diagnostic: Seq<u8>) -> Seq<Effect> {
    seq![Effect::LeaveRaw, Effect::Report(diagnostic), Effect::EnterRaw]
}

/// What a built-in's verdict sends out: its output, if it wrote any, then
/// its diagnostic, if it failed.
pub open spec fn shown(verdict: Verdict) -> Seq<Effect> {
    (if verdict.output.len() > 0 {
        seq![Effect::Print(verdict.output)]
    } else {
        Seq::empty()
    }) + (match verdict.diagnostic {
        Some(diagnostic) => reported(diagnostic),
        None => Seq::empty(),
    })
}

/// What the interpreter's values print as: the values with a tab between
/// neighbours, then a newline.
pub open spec fn printed(values: Seq<Seq<u8>>) -> Seq<u8> {
    joined(values, seq![9u8]).push(10u8)
}

/// What ends the shell: the caret is shown and raw mode is left.
pub open spec fn shutdown_effects() -> Seq<Effect> {
    seq![Effect::ShowCaret, Effect::LeaveRaw]
}

/// The output and the history record of an ending, in the order in which
/// they happen: first what the command sends out, then its record. `line`
/// is the command with its arguments, `source` what the interpreter was
/// given.
pub open spec fn said(e: Ending, line: Seq<u8>, source: Seq<u8>) -> Seq<Effect> {
    match e {
        Ending::Skipped => Seq::empty(),
        Ending::Ran(_, verdict) => shown(verdict).push(
            Effect::Record(record(verdict.code as nat, line)),
        ),
        Ending::Printed(values) => seq![
            Effect::Print(printed(values)),
            Effect::Record(record(0, source)),
        ],
        Ending::Pending => Seq::empty(),
        Ending::Broke(diagnostic) => reported(diagnostic).push(
            Effect::Record(record(1, source)),
        ),
    }
}

/// The ending is that of `exit`, which ends the shell.
pub open spec fn leaves(e: Ending) -> bool {
    e matches Ending::Ran(Builtin::Exit, _)
}

/// The source that an `Eval` request carries; empty for any other.
pub open spec fn source_of(asked: Asked) -> Seq<u8> {
    match asked {
        Asked::Eval(source) => source,
        _ => Seq::empty(),
    }
}

/// The editor after an ending. `exit` leaves it alone. Otherwise the edit
/// buffer is cleared, and the continuation buffer holds the source and a
/// newline when the interpreter wants more input, and nothing in every
/// other case.
pub open spec fn editor_after(e: Ending, source: Seq<u8>, editor: Editor) -> Editor {
    if leaves(e) {
        editor
    } else {
        Editor {
            buffer: Seq::empty(),
            index: 0,
            incomplete: if e is Pending {
                source.push(10u8)
            } else {
                Seq::empty()
            },
            ..editor
        }
    }
}

/// What the process is to do after a submission, and whether the shell
/// ends with it.
#[derive(Debug, Clone, PartialEq, Eq)]
pub struct Settled {
    pub actions: Vec<Action>,
    pub exit: bool,
}

/// The actions that end the shell: show the caret, leave raw mode.
pub fn shutdown() -> (r: Vec<Action>)
    ensures
        effects(r@) == shutdown_effects(),
{
    let mut r: Vec<Action> = Vec::new();
    emit(&mut r, Action::ShowCaret);
    emit(&mut r, Action::LeaveRaw);
    assert(effects(r@) =~= shutdown_effects());
    r
}

fn report(list: &mut Vec<Action>, diagnostic: &[u8])
    ensures
        effects(final(list)@) == effects(old(list)@) + reported(diagnostic@),
{
    emit(list, Action::LeaveRaw);
    emit(list, Action::Report(copy_of(diagnostic)));
    emit(list, Action::EnterRaw);
    assert(effects(list@) =~= effects(old(list)@) + reported(diagnostic@));
}

fn show(list: &mut Vec<Action>, outcome: &Outcome)
    ensures
        effects(final(list)@) == effects(old(list)@) + shown(outcome@),
{
    if outcome.output.len() > 0 {
        emit(list, Action::Print(copy_of(outcome.output.as_slice())));
    }
    match &outcome.diagnostic {
        Some(diagnostic) => {
            report(list, diagnostic.as_slice());
        },
        None => {},
    }
    assert(effects(list@) =~= effects(old(list)@) + shown(outcome@));
}

impl Executor {
    /// The command and its arguments with single spaces between them: the
    /// text of a built-in's history record.
    pub open spec fn line(&self) -> Seq<u8> {
        joined(seq![self.command@] + views(self.args@), seq![32u8])
    }

    /// Everything the process is to do once `answer` has come for `asked`
    /// and the submission ended as `e`: the command's output and record,
    /// then the shutdown for `exit`, the render of the editor for any other
    /// submission from the editor, and nothing more for a line from
    /// elsewhere.
    pub open spec fn effects_of(&self, e: Ending, asked: Asked, editor: Editor) -> Seq<Effect> {
        said(e, self.line(), source_of(asked)) + (if leaves(e) {
            shutdown_effects()
        } else if self.variant.is_internal() {
            editor_after(e, source_of(asked), editor).render()
        } else {
            Seq::empty()
        })
    }

    /// The editor once the submission has ended as `e`. A line from
    /// elsewhere leaves the editor alone.
    pub open spec fn editor_of(&self, e: Ending, asked: Asked, editor: Editor) -> Editor {
        if self.variant.is_internal() {
            editor_after(e, source_of(asked), editor)
        } else {
            editor
        }
    }

    fn is_internal(&self) -> (r: bool)
        ensures
            r == self.variant.is_internal(),
    {
        match &self.variant {
            ExecutorType::Internal(_) => true,
            ExecutorType::External(_) => false,
        }
    }

    fn history_line(&self) -> (r: Vec<u8>)
        ensures
            r@ == self.line(),
    {
        let mut all: Vec<Vec<u8>> = Vec::new();
        all.push(copy_of(self.command.as_slice()));
        assert(views(all@) =~= seq![self.command@] + views(self.args@).subrange(0, 0));
        let n: usize = self.args.len();
        let mut k: usize = 0;
        while k < n
            invariant
                n == self.args@.len(),
                k <= n,
                views(all@) == seq![self.command@] + views(self.args@).subrange(0, k as int),
            decreases n - k,
        {
            let ghost before = views(all@);
            let word = copy_of(self.args[k].as_slice());
            all.push(word);
            assert(views(all@) =~= before.push(self.args@[k as int]@));
            k += 1;
            assert(views(self.args@).subrange(0, k as int) =~= views(self.args@).subrange(
                0,
                k - 1,
            ).push(self.args@[k - 1]@));
            assert(views(all@) =~= seq![self.command@] + views(self.args@).subrange(
                0,
                k as int,
            ));
        }
        assert(views(self.args@).subrange(0, n as int) =~= views(self.args@));
        let mut space: Vec<u8> = Vec::new();
        space.push(32u8);
        assert(space@ =~= seq![32u8]);
        join(&all, space.as_slice())
    }

    fn say_verdict(&self, list: &mut Vec<Action>, builtin: Builtin, outcome: &Outcome)
        requires
            old(list)@.len() == 0,
        ensures
            effects(final(list)@) == said(
                Ending::Ran(builtin, outcome@),
                self.line(),
                Seq::empty(),
            ),
    {
        show(list, outcome);
        let line = self.history_line();
        emit(list, Action::Record(make_record(outcome.code, line.as_slice())));
        assert(effects(list@) =~= said(Ending::Ran(builtin, outcome@), self.line(), Seq::empty()));
    }

    fn say_broken(list: &mut Vec<Action>, diagnostic: &[u8], source: &[u8])
        requires
            old(list)@.len() == 0,
        ensures
            effects(final(list)@) == said(Ending::Broke(diagnostic@), Seq::empty(), source@),
    {
        report(list, diagnostic);
        emit(list, Action::Record(make_record(1, source)));
        assert(effects(list@) =~= said(Ending::Broke(diagnostic@), Seq::empty(), source@));
    }

    /// Ends the submission with the process's reply to its request: says
    /// what to print, report and record, in that order, and then either
    /// shuts the shell down (`exit`) or clears the editor and renders it
    /// anew. A reply that does not answer the request gives `None` and
    /// changes nothing.
    pub fn settle(&self, request: &Request, reply: &Reply, handler: &mut KeyHandler) -> (r: Option<
        Settled,
    >)
        ensures
            match ending(self.variant.is_internal(), request@, reply@) {
                None => r is None && final(handler)@ == old(handler)@,
                Some(e) => r is Some && r->Some_0.exit == leaves(e) && effects(
                    r->Some_0.actions@,
                ) == self.effects_of(e, request@, old(handler)@) && final(handler)@
                    == self.editor_of(e, request@, old(handler)@),
            },
    {
        let internal = self.is_internal();
        let ghost goal = ending(internal, request@, reply@);
        let mut actions: Vec<Action> = Vec::new();
        let mut exit = false;
        let mut pending: Option<Vec<u8>> = None;
        match request {
            Request::Nothing => match reply {
                Reply::Nothing => {},
                _ => {
                    return None;
                },
            },
            Request::Done(builtin, outcome) => match reply {
                Reply::Nothing => {
                    self.say_verdict(&mut actions, *builtin, outcome);
                    exit = match builtin {
                        Builtin::Exit => true,
                        _ => false,
                    };
                },
                _ => {
                    return None;
                },
            },
            Request::ChangeDir(path) => match reply {
                Reply::Dir(status) => {
                    let outcome = cd_done(path.as_slice(), status);
                    self.say_verdict(&mut actions, Builtin::Cd, &outcome);
                },
                _ => {
                    return None;
                },
            },
            Request::WorkingDir => match reply {
                Reply::Cwd(cwd) => {
                    let outcome = pwd(cwd);
                    self.say_verdict(&mut actions, Builtin::Pwd, &outcome);
                },
                _ => {
                    return None;
                },
            },
            Request::Eval(source) => match reply {
                Reply::Eval(EvalOutcome::Values(values)) => {
                    let mut tab: Vec<u8> = Vec::new();
                    tab.push(9u8);
                    assert(tab@ =~= seq![9u8]);
                    let mut text = join(values, tab.as_slice());
                    text.push(10u8);
                    emit(&mut actions, Action::Print(text));
                    emit(&mut actions, Action::Record(make_record(0, source.as_slice())));
                    assert(effects(actions@) =~= said(goal->Some_0, self.line(), source@));
                },
                Reply::Eval(EvalOutcome::Incomplete) => {
                    if internal {
                        let mut more = copy_of(source.as_slice());
                        more.push(10u8);
                        pending = Some(more);
                    } else {
                        let message = bytes_of("Incomplete input");
                        Self::say_broken(&mut actions, message.as_slice(), source.as_slice());
                    }
                },
                Reply::Eval(EvalOutcome::Error(diagnostic)) => {
                    Self::say_broken(&mut actions, diagnostic.as_slice(), source.as_slice());
                },
                _ => {
                    return None;
                },
            },
        }
        let ghost e = goal->Some_0;
        assert(goal is Some);
        assert(effects(actions@) =~= said(e, self.line(), source_of(request@)));
        assert(exit == leaves(e));
        let ghost before = effects(actions@);
        if exit {
            let mut tail = shutdown();
            actions.append(&mut tail);
            assert(effects(actions@) =~= before + shutdown_effects());
        } else if internal {
            handler.buffer.clear();
            handler.index = 0;
            handler.incomplete = match pending {
                Some(more) => more,
                None => Vec::new(),
            };
            assert(handler@ =~= editor_after(e, source_of(request@), old(handler)@));
            let mut tail = handler.render();
            actions.append(&mut tail);
            assert(effects(actions@) =~= before + handler@.render());
        } else {
            assert(effects(actions@) =~= before + Seq::<Effect>::empty());
        }
        Some(Settled { actions, exit })
    }
}

/// Whether raw mode is on after `actions` were performed, when it was
/// `raw` before them.
pub open spec fn raw_after(actions: Seq<Effect>, raw: bool) -> bool
    decreases actions.len(),
{
    if actions.len() == 0 {
        raw
    } else {
        match actions.last() {
            Effect::LeaveRaw => false,
            Effect::EnterRaw => true,
            _ => raw_after(actions.drop_last(), raw),
        }
    }
}

/// Every diagnostic among `actions` is shown while raw mode is off, when
/// raw mode was `raw` before them.
pub open spec fn reports_cooked(actions: Seq<Effect>, raw: bool) -> bool {
    forall|i: int|
        0 <= i < actions.len() && #[trigger] actions[i] is Report ==> !raw_after(
            actions.subrange(0, i),
            raw,
        )
}

/// `actions` holds a history record.
pub open spec fn records_something(actions: Seq<Effect>) -> bool {
    exists|i: int| 0 <= i < actions.len() && #[trigger] actions[i] is Record
}

/// Every history record among `actions` begins with digits and a colon.
pub open spec fn records_well_formed(actions: Seq<Effect>) -> bool {
    forall|i: int|
        0 <= i < actions.len() && #[trigger] actions[i] is Record
            ==> crate::shell::history::is_record(actions[i]->Record_0)
}

/// Rendering toggles raw mode nowhere and shows no diagnostic.
pub proof fn lemma_render_keeps_raw(editor: Editor, raw: bool)
    ensures
        raw_after(editor.render(), raw) == raw,
        reports_cooked(editor.render(), raw),
        !records_something(editor.render()),
{
    let none = Seq::<Effect>::empty();
    assert(reports_cooked(none, raw));
    let p = editor.shown_prompt();
    let a1 = none.push(Effect::HideCaret);
    let a2 = a1.push(Effect::ClearToEndOfLine);
    let a3 = a2.push(Effect::MoveToColumn(0));
    let a4 = a3.push(Effect::Print(p));
    let a5 = a4.push(Effect::Print(editor.buffer));
    let a6 = a5.push(Effect::MoveToColumn(p.len() + editor.index));
    let a7 = a6.push(Effect::ShowCaret);
    lemma_plain_push(none, Effect::HideCaret, raw);
    lemma_plain_push(a1, Effect::ClearToEndOfLine, raw);
    lemma_plain_push(a2, Effect::MoveToColumn(0), raw);
    lemma_plain_push(a3, Effect::Print(p), raw);
    lemma_plain_push(a4, Effect::Print(editor.buffer), raw);
    lemma_plain_push(a5, Effect::MoveToColumn(p.len() + editor.index), raw);
    lemma_plain_push(a6, Effect::ShowCaret, raw);
    assert(editor.render() =~= a7);
}

/// A key toggles raw mode nowhere and shows no diagnostic: what the editor
/// sends to the terminal leaves raw mode as it was.
pub proof fn lemma_keys_keep_raw(editor: Editor, t: crate::shell::input::Transition, raw: bool)
    ensures
        raw_after(editor.output(t), raw) == raw,
        reports_cooked(editor.output(t), raw),
{
    let none = Seq::<Effect>::empty();
    assert(reports_cooked(none, raw));
    let after = editor.apply(t);
    lemma_render_keeps_raw(after, raw);
    if t is Submit {
        let newline = Effect::Print(seq![10u8]);
        lemma_plain_push(none, newline, raw);
        assert(seq![newline] =~= none.push(newline));
        lemma_raw_after_concat(seq![newline], after.render(), raw);
        lemma_reports_cooked_concat(seq![newline], after.render(), raw);
    }
}

proof fn lemma_raw_after_concat(a: Seq<Effect>, b: Seq<Effect>, raw: bool)
    ensures
        raw_after(a + b, raw) == raw_after(b, raw_after(a, raw)),
    decreases b.len(),
{
    if b.len() == 0 {
        assert(a + b =~= a);
    } else {
        assert((a + b).drop_last() =~= a + b.drop_last());
        assert((a + b).last() == b.last());
        lemma_raw_after_concat(a, b.drop_last(), raw);
    }
}

proof fn lemma_reports_cooked_concat(a: Seq<Effect>, b: Seq<Effect>, raw: bool)
    requires
        reports_cooked(a, raw),
        reports_cooked(b, raw_after(a, raw)),
    ensures
        reports_cooked(a + b, raw),
{
    let s = a + b;
    assert forall|i: int| 0 <= i < s.len() && #[trigger] s[i] is Report implies !raw_after(
        s.subrange(0, i),
        raw,
    ) by {
        if i < a.len() {
            assert(s[i] == a[i]);
            assert(s.subrange(0, i) =~= a.subrange(0, i));
        } else {
            let j = i - a.len();
            assert(s[i] == b[j]);
            assert(s.subrange(0, i) =~= a + b.subrange(0, j));
            lemma_raw_after_concat(a, b.subrange(0, j), raw);
        }
    }
}

proof fn lemma_reported(diagnostic: Seq<u8>, raw: bool)
    ensures
        raw_after(reported(diagnostic), raw),
        reports_cooked(reported(diagnostic), raw),
{
    let r = reported(diagnostic);
    assert(raw_after(r, raw)) by {
        reveal_with_fuel(raw_after, 2);
    }
    assert forall|i: int| 0 <= i < r.len() && #[trigger] r[i] is Report implies !raw_after(
        r.subrange(0, i),
        raw,
    ) by {
        assert(i == 1);
        assert(r.subrange(0, 1) =~= seq![Effect::LeaveRaw]);
        reveal_with_fuel(raw_after, 2);
    }
}

/// An action that neither toggles raw mode nor shows a diagnostic.
spec fn is_plain(x: Effect) -> bool {
    !(x is LeaveRaw) && !(x is EnterRaw) && !(x is Report)
}

proof fn lemma_plain_push(a: Seq<Effect>, x: Effect, raw: bool)
    requires
        is_plain(x),
        reports_cooked(a, raw),
    ensures
        raw_after(a.push(x), raw) == raw_after(a, raw),
        reports_cooked(a.push(x), raw),
{
    let s = a.push(x);
    assert(s.drop_last() =~= a);
    assert(s.last() == x);
    assert forall|i: int| 0 <= i < s.len() && #[trigger] s[i] is Report implies !raw_after(
        s.subrange(0, i),
        raw,
    ) by {
        assert(i < a.len());
        assert(s[i] == a[i]);
        assert(s.subrange(0, i) =~= a.subrange(0, i));
    }
}

proof fn lemma_shown(verdict: Verdict)
    ensures
        raw_after(shown(verdict), true),
        reports_cooked(shown(verdict), true),
        forall|i: int| 0 <= i < shown(verdict).len() ==> !(#[trigger] shown(verdict)[i] is Record),
{
    let none = Seq::<Effect>::empty();
    assert(reports_cooked(none, true));
    let head: Seq<Effect> = if verdict.output.len() > 0 {
        seq![Effect::Print(verdict.output)]
    } else {
        none
    };
    if verdict.output.len() > 0 {
        lemma_plain_push(none, Effect::Print(verdict.output), true);
        assert(head =~= none.push(Effect::Print(verdict.output)));
    }
    assert(raw_after(head, true));
    let middle: Seq<Effect> = match verdict.diagnostic {
        Some(diagnostic) => reported(diagnostic),
        None => none,
    };
    if verdict.diagnostic is Some {
        lemma_reported(verdict.diagnostic->Some_0, true);
    }
    assert(raw_after(middle, true));
    assert(reports_cooked(middle, true));
    lemma_raw_after_concat(head, middle, true);
    lemma_reports_cooked_concat(head, middle, true);
    assert(shown(verdict) == head + middle);
    assert forall|i: int| 0 <= i < shown(verdict).len() implies !(#[trigger] shown(
        verdict,
    )[i] is Record) by {
        if i < head.len() {
            assert(shown(verdict)[i] == head[i]);
        } else {
            assert(shown(verdict)[i] == middle[i - head.len()]);
        }
    }
}

proof fn lemma_said_raw(e: Ending, line: Seq<u8>, source: Seq<u8>)
    ensures
        raw_after(said(e, line, source), true),
        reports_cooked(said(e, line, source), true),
{
    let none = Seq::<Effect>::empty();
    assert(reports_cooked(none, true));
    match e {
        Ending::Skipped => {},
        Ending::Pending => {},
        Ending::Printed(values) => {
            let p = Effect::Print(printed(values));
            let r = Effect::Record(record(0, source));
            lemma_plain_push(none, p, true);
            lemma_plain_push(none.push(p), r, true);
            assert(said(e, line, source) =~= none.push(p).push(r));
        },
        Ending::Broke(diagnostic) => {
            lemma_reported(diagnostic, true);
            lemma_plain_push(reported(diagnostic), Effect::Record(record(1, source)), true);
        },
        Ending::Ran(_, verdict) => {
            lemma_shown(verdict);
            lemma_plain_push(
                shown(verdict),
                Effect::Record(record(verdict.code as nat, line)),
                true,
            );
        },
    }
}

proof fn lemma_said_records(e: Ending, line: Seq<u8>, source: Seq<u8>)
    ensures
        records_well_formed(said(e, line, source)),
        e is Pending ==> said(e, line, source).len() == 0,
{
    let s = said(e, line, source);
    match e {
        Ending::Skipped => {},
        Ending::Pending => {},
        Ending::Printed(values) => {
            crate::shell::history::lemma_record_format(0, source);
        },
        Ending::Broke(diagnostic) => {
            crate::shell::history::lemma_record_format(1, source);
        },
        Ending::Ran(_, verdict) => {
            crate::shell::history::lemma_record_format(verdict.code as nat, line);
            lemma_shown(verdict);
            assert forall|i: int| 0 <= i < s.len() && #[trigger] s[i] is Record
                implies crate::shell::history::is_record(s[i]->Record_0) by {
                if i < shown(verdict).len() {
                    assert(s[i] == shown(verdict)[i]);
                }
            }
        },
    }
}

impl Executor {
    /// Raw mode and the showing of diagnostics. If raw mode is on when a
    /// submission is settled, every diagnostic is shown with raw mode off;
    /// afterwards raw mode is on again, ready for the next key, unless the
    /// shell ends, and then it is off.
    pub proof fn lemma_raw_mode(&self, internal: bool, asked: Asked, answer: Answer, editor: Editor)
        requires
            internal == self.variant.is_internal(),
            ending(internal, asked, answer) is Some,
        ensures
            reports_cooked(
                self.effects_of(ending(internal, asked, answer)->Some_0, asked, editor),
                true,
            ),
            raw_after(
                self.effects_of(ending(internal, asked, answer)->Some_0, asked, editor),
                true,
            ) == !leaves(ending(internal, asked, answer)->Some_0),
    {
        let e = ending(internal, asked, answer)->Some_0;
        let head = said(e, self.line(), source_of(asked));
        lemma_said_raw(e, self.line(), source_of(asked));
        let tail: Seq<Effect> = if leaves(e) {
            shutdown_effects()
        } else if internal {
            editor_after(e, source_of(asked), editor).render()
        } else {
            Seq::empty()
        };
        if leaves(e) {
            assert(!raw_after(tail, true)) by {
                reveal_with_fuel(raw_after, 2);
            }
            assert(reports_cooked(tail, true));
        } else if internal {
            lemma_render_keeps_raw(editor_after(e, source_of(asked), editor), true);
        }
        lemma_raw_after_concat(head, tail, true);
        lemma_reports_cooked_concat(head, tail, true);
    }

    /// The continuation buffer and the history. After a submission from the
    /// editor that did not end the shell, the continuation buffer is empty,
    /// or else the interpreter found the source incomplete and no history
    /// record was written for it. Every record that is written begins with
    /// digits and a colon.
    pub proof fn lemma_continuation(&self, asked: Asked, answer: Answer, editor: Editor)
        requires
            self.variant.is_internal(),
            ending(true, asked, answer) is Some,
            !leaves(ending(true, asked, answer)->Some_0),
        ensures
            self.editor_of(ending(true, asked, answer)->Some_0, asked, editor).incomplete.len() == 0
                || (answer == Answer::Eval(Evaluated::Incomplete) && !records_something(
                self.effects_of(ending(true, asked, answer)->Some_0, asked, editor),
            )),
            records_well_formed(
                self.effects_of(ending(true, asked, answer)->Some_0, asked, editor),
            ),
            self.editor_of(ending(true, asked, answer)->Some_0, asked, editor).wf(),
    {
        let e = ending(true, asked, answer)->Some_0;
        let head = said(e, self.line(), source_of(asked));
        let after = editor_after(e, source_of(asked), editor);
        let tail = after.render();
        let all = self.effects_of(e, asked, editor);
        lemma_said_records(e, self.line(), source_of(asked));
        lemma_render_keeps_raw(after, true);
        assert(all =~= head + tail);
        assert forall|i: int| 0 <= i < all.len() && #[trigger] all[i] is Record implies i
            < head.len() && head[i] is Record by {
            if i >= head.len() {
                assert(all[i] == tail[i - head.len()]);
            }
        }
        assert forall|i: int| 0 <= i < all.len() && #[trigger] all[i] is Record
            implies crate::shell::history::is_record(all[i]->Record_0) by {
            assert(all[i] == head[i]);
        }
        if e is Pending {
            assert(!records_something(all)) by {
                if records_something(all) {
                    let i = choose|i: int| 0 <= i < all.len() && #[trigger] all[i] is Record;
                    assert(head[i] is Record);
                }
            }
        }
    }
}

} // verus!
