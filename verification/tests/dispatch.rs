use neosh::shell::commands::{Builtin, DirStatus, Outcome};
use neosh::shell::executor::{
    shutdown, Executor, ExecutorType, InternalExecutor, Reply, Request, Settled,
};
use neosh::shell::input::{KeyCode, KeyEvent, KeyHandler, KeyModifiers};
use neosh::shell::lua::EvalOutcome;
use neosh::shell::terminal::Action;

const PROMPT: &[u8] = b"user@host$ ";

fn session() -> KeyHandler {
    let mut h = KeyHandler::new();
    h.prompt = PROMPT.to_vec();
    h
}

fn type_line(h: &mut KeyHandler, line: &str) {
    for c in line.chars() {
        let r = h.process(KeyEvent { code: KeyCode::Char(c), modifiers: KeyModifiers::none() });
        assert!(r.keep_going);
    }
    let r = h.process(KeyEvent { code: KeyCode::Enter, modifiers: KeyModifiers::none() });
    assert!(r.keep_going);
    assert!(h.execute);
}

fn submit(h: &mut KeyHandler, line: &str) -> Executor {
    type_line(h, line);
    let variant =
        ExecutorType::Internal(InternalExecutor::new(&mut h.incomplete, &h.prompt, &h.buffer));
    Executor::new(variant)
}

fn render_of(prompt: &[u8], buffer: &[u8], index: usize) -> Vec<Action> {
    vec![
        Action::HideCaret,
        Action::ClearToEndOfLine,
        Action::MoveToColumn(0),
        Action::Print(prompt.to_vec()),
        Action::Print(buffer.to_vec()),
        Action::MoveToColumn((prompt.len() + index) as u128),
        Action::ShowCaret,
    ]
}

fn with_render(mut actions: Vec<Action>, prompt: &[u8]) -> Vec<Action> {
    actions.extend(render_of(prompt, b"", 0));
    actions
}

fn records_in(actions: &[Action]) -> Vec<Vec<u8>> {
    actions
        .iter()
        .filter_map(|a| match a {
            Action::Record(r) => Some(r.clone()),
            _ => None,
        })
        .collect()
}

fn raw_mode_is_respected(actions: &[Action]) -> bool {
    let mut raw = true;
    for a in actions {
        match a {
            Action::LeaveRaw => raw = false,
            Action::EnterRaw => raw = true,
            Action::Report(_) if raw => return false,
            _ => {}
        }
    }
    true
}

fn raw_after(actions: &[Action]) -> bool {
    let mut raw = true;
    for a in actions {
        match a {
            Action::LeaveRaw => raw = false,
            Action::EnterRaw => raw = true,
            _ => {}
        }
    }
    raw
}

fn interpret(lua: &mlua::Lua, h: &mut KeyHandler, line: &str) -> Settled {
    let ex = submit(h, line);
    let request = ex.execute();
    let reply = ex.lua(&request, lua).expect("the line is for the interpreter");
    ex.settle(&request, &reply, h).expect("the reply answers the request")
}

#[test]
fn internal_executor_takes_the_continuation_buffer() {
    let mut incomplete = b"function f()\n".to_vec();
    let prompt = PROMPT.to_vec();
    let buffer = b"return 1 end".to_vec();
    let int = InternalExecutor::new(&mut incomplete, &prompt, &buffer);
    assert!(incomplete.is_empty());
    assert!(int.incomplete.is_empty());
    assert_eq!(int.prev, b"function f()\n".to_vec());
    assert_eq!(int.buffer, buffer);
    assert_eq!(int.prompt, prompt);
    let variant = ExecutorType::Internal(int);
    assert_eq!(variant.get_args(), vec![b"return".to_vec(), b"1".to_vec(), b"end".to_vec()]);
    assert_eq!(variant.build_lua_string(), b"function f()\nreturn 1 end".to_vec());
}

#[test]
fn external_line_is_its_own_source() {
    let variant = ExecutorType::External(b"  print( 1 ) ".to_vec());
    assert_eq!(variant.get_args(), vec![b"print(".to_vec(), b"1".to_vec(), b")".to_vec()]);
    assert_eq!(variant.build_lua_string(), b"  print( 1 ) ".to_vec());
}

#[test]
fn executor_splits_command_and_arguments() {
    let ex = Executor::new(ExecutorType::External(b" echo  a   b ".to_vec()));
    assert_eq!(ex.command, b"echo".to_vec());
    assert_eq!(ex.args, vec![b"a".to_vec(), b"b".to_vec()]);
    let ex = Executor::new(ExecutorType::External(b" \t ".to_vec()));
    assert!(ex.command.is_empty());
    assert!(ex.args.is_empty());
}

#[test]
fn empty_line_records_nothing() {
    let mut h = session();
    let ex = submit(&mut h, "   ");
    let request = ex.execute();
    assert_eq!(request, Request::Nothing);
    let done = ex.settle(&request, &Reply::Nothing, &mut h).unwrap();
    assert!(!done.exit);
    assert_eq!(done.actions, render_of(PROMPT, b"", 0));
    assert!(h.buffer.is_empty());
    assert!(h.incomplete.is_empty());
    assert_eq!(h.index, 0);
}

#[test]
fn scenario_builtin_pwd() {
    let mut h = session();
    let ex = submit(&mut h, "pwd");
    let request = ex.execute();
    assert_eq!(request, Request::WorkingDir);
    let done = ex.settle(&request, &Reply::Cwd(Some(b"/tmp".to_vec())), &mut h).unwrap();
    assert!(!done.exit);
    assert_eq!(
        done.actions,
        with_render(
            vec![Action::Print(b"/tmp\n".to_vec()), Action::Record(b"0:pwd".to_vec())],
            PROMPT
        )
    );
    assert!(h.buffer.is_empty());
}

#[test]
fn pwd_without_a_working_directory_is_recorded_as_failed() {
    let mut h = session();
    let ex = submit(&mut h, "pwd");
    let done = ex.settle(&Request::WorkingDir, &Reply::Cwd(None), &mut h).unwrap();
    assert_eq!(
        done.actions,
        with_render(
            vec![
                Action::LeaveRaw,
                Action::Report(b"Failed to get current directory".to_vec()),
                Action::EnterRaw,
                Action::Record(b"1:pwd".to_vec()),
            ],
            PROMPT
        )
    );
}

#[test]
fn scenario_builtin_cd_success() {
    let mut h = session();
    let ex = submit(&mut h, "cd /");
    let request = ex.execute();
    assert_eq!(request, Request::ChangeDir(b"/".to_vec()));
    let done = ex.settle(&request, &Reply::Dir(DirStatus::Changed), &mut h).unwrap();
    assert!(!done.exit);
    assert_eq!(done.actions, with_render(vec![Action::Record(b"0:cd /".to_vec())], PROMPT));
    let ex = submit(&mut h, "pwd");
    let request = ex.execute();
    let done = ex.settle(&request, &Reply::Cwd(Some(b"/".to_vec())), &mut h).unwrap();
    assert_eq!(done.actions[0], Action::Print(b"/\n".to_vec()));
}

#[test]
fn scenario_builtin_cd_failure() {
    let mut h = session();
    let ex = submit(&mut h, "cd /no/such/dir");
    let request = ex.execute();
    assert_eq!(request, Request::ChangeDir(b"/no/such/dir".to_vec()));
    let done = ex.settle(&request, &Reply::Dir(DirStatus::Missing), &mut h).unwrap();
    assert_eq!(
        done.actions,
        with_render(
            vec![
                Action::LeaveRaw,
                Action::Report(b"/no/such/dir: does not exist".to_vec()),
                Action::EnterRaw,
                Action::Record(b"1:cd /no/such/dir".to_vec()),
            ],
            PROMPT
        )
    );
    assert!(!done.exit);
}

#[test]
fn cd_with_a_path_that_is_not_utf8_needs_nothing_from_the_process() {
    let ex = Executor::new(ExecutorType::External(b"cd /tmp/\xff".to_vec()));
    let request = ex.execute();
    assert_eq!(
        request,
        Request::Done(
            Builtin::Cd,
            Outcome {
                code: 1,
                output: vec![],
                diagnostic: Some(b"Path is invalid UTF-8".to_vec())
            }
        )
    );
}

#[test]
fn cd_without_home_fails() {
    let ex = Executor::new(ExecutorType::External(b"cd".to_vec()));
    let request = ex.execute_from(None);
    assert_eq!(
        request,
        Request::Done(
            Builtin::Cd,
            Outcome {
                code: 1,
                output: vec![],
                diagnostic: Some(b"Failed to get home directory".to_vec())
            }
        )
    );
    let request = ex.execute_from(Some(b"/home/me".to_vec()));
    assert_eq!(request, Request::ChangeDir(b"/home/me".to_vec()));
}

#[test]
fn scenario_echo_bytes() {
    let mut h = session();
    let ex = submit(&mut h, "echo  a   b");
    let request = ex.execute();
    assert_eq!(
        request,
        Request::Done(
            Builtin::Echo,
            Outcome { code: 0, output: b"a b\n".to_vec(), diagnostic: None }
        )
    );
    let done = ex.settle(&request, &Reply::Nothing, &mut h).unwrap();
    assert_eq!(
        done.actions,
        with_render(
            vec![Action::Print(b"a b\n".to_vec()), Action::Record(b"0:echo a b".to_vec())],
            PROMPT
        )
    );
}

#[test]
fn scenario_script_continuation() {
    let lua = mlua::Lua::new();
    let mut h = session();

    let done = interpret(&lua, &mut h, "function f()");
    assert!(!done.exit);
    assert!(records_in(&done.actions).is_empty());
    assert_eq!(done.actions, render_of(b"> ", b"", 0));
    assert_eq!(h.incomplete, b"function f()\n".to_vec());
    assert_eq!(h.shown_prompt(), b"> ".to_vec());
    assert!(h.buffer.is_empty());

    let done = interpret(&lua, &mut h, "return 1 end");
    assert_eq!(records_in(&done.actions), vec![b"0:function f()\nreturn 1 end".to_vec()]);
    assert!(h.incomplete.is_empty());
    assert_eq!(h.shown_prompt(), PROMPT.to_vec());

    let done = interpret(&lua, &mut h, "f()");
    assert_eq!(done.actions[0], Action::Print(b"1\n".to_vec()));
    assert_eq!(records_in(&done.actions), vec![b"0:f()".to_vec()]);
    assert_eq!(done.actions[2..].to_vec(), render_of(PROMPT, b"", 0));
}

#[test]
fn script_values_are_joined_by_tabs() {
    let mut h = session();
    let ex = submit(&mut h, "1, 2");
    let request = ex.execute();
    assert_eq!(request, Request::Eval(b"1, 2".to_vec()));
    let reply = Reply::Eval(EvalOutcome::Values(vec![b"1".to_vec(), b"2".to_vec()]));
    let done = ex.settle(&request, &reply, &mut h).unwrap();
    assert_eq!(
        done.actions,
        with_render(
            vec![Action::Print(b"1\t2\n".to_vec()), Action::Record(b"0:1, 2".to_vec())],
            PROMPT
        )
    );
    let ex = submit(&mut h, "x = 1");
    let request = ex.execute();
    let done = ex.settle(&request, &Reply::Eval(EvalOutcome::Values(vec![])), &mut h).unwrap();
    assert_eq!(done.actions[0], Action::Print(b"\n".to_vec()));
}

#[test]
fn interpreter_evaluates_through_the_bridge() {
    let lua = mlua::Lua::new();
    let ex = Executor::new(ExecutorType::External(b"1 + 2, 'x'".to_vec()));
    let request = ex.execute();
    let reply = ex.lua(&request, &lua).unwrap();
    match reply {
        Reply::Eval(EvalOutcome::Values(values)) => {
            assert_eq!(values.len(), 2);
            assert_eq!(values[0], b"3".to_vec());
        }
        other => panic!("unexpected reply {:?}", other),
    }
    let ex = Executor::new(ExecutorType::External(b"pwd".to_vec()));
    assert_eq!(ex.lua(&ex.execute(), &lua), None);
}

#[test]
fn scenario_script_error() {
    let lua = mlua::Lua::new();
    let mut h = session();
    let done = interpret(&lua, &mut h, "syntax !! error");
    assert!(!done.exit);
    assert_eq!(done.actions.len(), 4 + 7);
    assert_eq!(done.actions[0], Action::LeaveRaw);
    assert!(matches!(&done.actions[1], Action::Report(d) if !d.is_empty()));
    assert_eq!(done.actions[2], Action::EnterRaw);
    assert_eq!(done.actions[3], Action::Record(b"1:syntax !! error".to_vec()));
    assert_eq!(done.actions[4..].to_vec(), render_of(PROMPT, b"", 0));
    assert!(raw_mode_is_respected(&done.actions));
    assert!(raw_after(&done.actions));
    assert!(h.incomplete.is_empty());
    assert_eq!(h.shown_prompt(), PROMPT.to_vec());
}

#[test]
fn script_error_with_a_given_diagnostic() {
    let mut h = session();
    let ex = submit(&mut h, "boom()");
    let request = ex.execute();
    let reply = Reply::Eval(EvalOutcome::Error(b"runtime error: boom".to_vec()));
    let done = ex.settle(&request, &reply, &mut h).unwrap();
    assert_eq!(
        done.actions,
        with_render(
            vec![
                Action::LeaveRaw,
                Action::Report(b"runtime error: boom".to_vec()),
                Action::EnterRaw,
                Action::Record(b"1:boom()".to_vec()),
            ],
            PROMPT
        )
    );
}

#[test]
fn scenario_clean_exit() {
    let mut h = session();
    let ex = submit(&mut h, "exit");
    let request = ex.execute();
    assert_eq!(
        request,
        Request::Done(Builtin::Exit, Outcome { code: 0, output: vec![], diagnostic: None })
    );
    let done = ex.settle(&request, &Reply::Nothing, &mut h).unwrap();
    assert!(done.exit);
    assert_eq!(
        done.actions,
        vec![Action::Record(b"0:exit".to_vec()), Action::ShowCaret, Action::LeaveRaw]
    );
    assert!(!raw_after(&done.actions));
    assert_eq!(h.buffer, b"exit".to_vec());
}

#[test]
fn shutdown_shows_the_caret_and_leaves_raw_mode() {
    assert_eq!(shutdown(), vec![Action::ShowCaret, Action::LeaveRaw]);
}

#[test]
fn builtin_while_fragments_are_pending_clears_them() {
    let mut h = session();
    h.incomplete = b"function f()\n".to_vec();
    let ex = submit(&mut h, "echo hi");
    let request = ex.execute();
    let done = ex.settle(&request, &Reply::Nothing, &mut h).unwrap();
    assert_eq!(records_in(&done.actions), vec![b"0:echo hi".to_vec()]);
    assert!(h.incomplete.is_empty());
    assert_eq!(done.actions[2..].to_vec(), render_of(PROMPT, b"", 0));
}

#[test]
fn empty_line_while_fragments_are_pending_goes_to_the_interpreter() {
    let mut h = session();
    h.incomplete = b"function f()\n".to_vec();
    let ex = submit(&mut h, "  ");
    let request = ex.execute();
    assert_eq!(request, Request::Eval(b"function f()\n  ".to_vec()));
    let done = ex.settle(&request, &Reply::Eval(EvalOutcome::Incomplete), &mut h).unwrap();
    assert!(records_in(&done.actions).is_empty());
    assert_eq!(h.incomplete, b"function f()\n  \n".to_vec());
}

#[test]
fn a_reply_that_does_not_answer_changes_nothing() {
    let mut h = session();
    let ex = submit(&mut h, "pwd");
    let before = h.clone();
    assert_eq!(ex.settle(&Request::WorkingDir, &Reply::Nothing, &mut h), None);
    assert_eq!(ex.settle(&Request::WorkingDir, &Reply::Dir(DirStatus::Changed), &mut h), None);
    assert_eq!(ex.settle(&Request::Nothing, &Reply::Cwd(None), &mut h), None);
    assert_eq!(
        ex.settle(&Request::ChangeDir(b"/".to_vec()), &Reply::Eval(EvalOutcome::Incomplete), &mut h),
        None
    );
    assert_eq!(ex.settle(&Request::Eval(b"x".to_vec()), &Reply::Nothing, &mut h), None);
    assert_eq!(h, before);
}

#[test]
fn external_line_leaves_the_editor_alone() {
    let mut h = session();
    h.buffer = b"typing".to_vec();
    h.index = 3;
    let before = h.clone();
    let ex = Executor::new(ExecutorType::External(b"echo hi".to_vec()));
    let request = ex.execute();
    let done = ex.settle(&request, &Reply::Nothing, &mut h).unwrap();
    assert_eq!(
        done.actions,
        vec![Action::Print(b"hi\n".to_vec()), Action::Record(b"0:echo hi".to_vec())]
    );
    assert_eq!(h, before);
    let ex = Executor::new(ExecutorType::External(b"function f()".to_vec()));
    let request = ex.execute();
    let done = ex.settle(&request, &Reply::Eval(EvalOutcome::Incomplete), &mut h).unwrap();
    assert_eq!(
        done.actions,
        vec![
            Action::LeaveRaw,
            Action::Report(b"Incomplete input".to_vec()),
            Action::EnterRaw,
            Action::Record(b"1:function f()".to_vec()),
        ]
    );
    assert_eq!(h, before);
}

#[test]
fn diagnostics_are_shown_in_cooked_mode_and_raw_mode_comes_back() {
    let mut h = session();
    let cases: Vec<(&str, Request, Reply)> = vec![
        ("pwd", Request::WorkingDir, Reply::Cwd(None)),
        ("cd x", Request::ChangeDir(b"x".to_vec()), Reply::Dir(DirStatus::NotDirectory)),
        ("cd x", Request::ChangeDir(b"x".to_vec()), Reply::Dir(DirStatus::Failed(b"e".to_vec()))),
        ("f(", Request::Eval(b"f(".to_vec()), Reply::Eval(EvalOutcome::Error(b"bad".to_vec()))),
        ("f(", Request::Eval(b"f(".to_vec()), Reply::Eval(EvalOutcome::Incomplete)),
        ("1", Request::Eval(b"1".to_vec()), Reply::Eval(EvalOutcome::Values(vec![b"1".to_vec()]))),
    ];
    for (line, request, reply) in cases {
        h.incomplete.clear();
        let ex = submit(&mut h, line);
        let done = ex.settle(&request, &reply, &mut h).unwrap();
        assert!(raw_mode_is_respected(&done.actions));
        assert!(raw_after(&done.actions));
        for r in records_in(&done.actions) {
            let digits = r.iter().take_while(|b| b.is_ascii_digit()).count();
            assert!(digits >= 1 && r[digits] == b':');
        }
        assert!(h.incomplete.is_empty() || records_in(&done.actions).is_empty());
    }
}
