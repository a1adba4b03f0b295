use neosh::shell::commands::{
    cd, cd_changed, cd_check, cd_done, cd_from, echo, exit, lookup, pwd, Builtin, DirStatus,
    Outcome,
};

fn args(words: &[&[u8]]) -> Vec<Vec<u8>> {
    words.iter().map(|w| w.to_vec()).collect()
}

fn contains(haystack: &[u8], needle: &[u8]) -> bool {
    haystack.windows(needle.len()).any(|w| w == needle)
}

#[test]
fn lookup_matches_names_exactly() {
    assert_eq!(lookup(b"exit"), Some(Builtin::Exit));
    assert_eq!(lookup(b"cd"), Some(Builtin::Cd));
    assert_eq!(lookup(b"pwd"), Some(Builtin::Pwd));
    assert_eq!(lookup(b"echo"), Some(Builtin::Echo));
    assert_eq!(lookup(b""), None);
    assert_eq!(lookup(b"Exit"), None);
    assert_eq!(lookup(b"exit "), None);
    assert_eq!(lookup(b"ech"), None);
    assert_eq!(lookup(b"echoo"), None);
    assert_eq!(lookup(b"print"), None);
}

#[test]
fn exit_succeeds_silently() {
    assert_eq!(exit(), Outcome { code: 0, output: vec![], diagnostic: None });
}

#[test]
fn echo_with_zero_arguments_writes_a_single_newline() {
    assert_eq!(echo(&vec![]), Outcome { code: 0, output: b"\n".to_vec(), diagnostic: None });
}

#[test]
fn echo_joins_arguments_with_single_spaces() {
    let r = echo(&args(&[b"a", b"b"]));
    assert_eq!(r, Outcome { code: 0, output: b"a b\n".to_vec(), diagnostic: None });
    let r = echo(&args(&[b"one"]));
    assert_eq!(r.output, b"one\n".to_vec());
    let r = echo(&args(&[b"x\\n", b"\xff\xfe", b"z"]));
    assert_eq!(r.output, b"x\\n \xff\xfe z\n".to_vec());
    assert_eq!(r.code, 0);
}

#[test]
fn pwd_writes_the_working_directory() {
    let r = pwd(&Some(b"/tmp".to_vec()));
    assert_eq!(r, Outcome { code: 0, output: b"/tmp\n".to_vec(), diagnostic: None });
}

#[test]
fn pwd_fails_without_a_working_directory() {
    let r = pwd(&None);
    assert_eq!(r.code, 1);
    assert!(r.output.is_empty());
    assert_eq!(r.diagnostic, Some(b"Failed to get current directory".to_vec()));
}

#[test]
fn cd_without_arguments_goes_home() {
    let r = cd_from(&vec![], Some(b"/home/me".to_vec()));
    assert_eq!(r, Ok(b"/home/me".to_vec()));
}

#[test]
fn cd_without_arguments_and_without_home_fails() {
    let r = cd_from(&vec![], None);
    assert_eq!(
        r,
        Err(Outcome {
            code: 1,
            output: vec![],
            diagnostic: Some(b"Failed to get home directory".to_vec()),
        })
    );
}

#[test]
fn cd_takes_its_first_argument_and_ignores_the_rest() {
    let r = cd_from(&args(&[b"/tmp", b"/usr", b"more"]), Some(b"/home/me".to_vec()));
    assert_eq!(r, Ok(b"/tmp".to_vec()));
    let r = cd(&args(&[b"/tmp", b"\xff"]));
    assert_eq!(r, Ok(b"/tmp".to_vec()));
    let r = cd(&args(&["/caf\u{e9}".as_bytes()]));
    assert_eq!(r, Ok("/caf\u{e9}".as_bytes().to_vec()));
}

#[test]
fn cd_rejects_a_path_that_is_not_utf8() {
    let r = cd(&args(&[b"/tmp/\xff\xfe"]));
    assert_eq!(
        r,
        Err(Outcome {
            code: 1,
            output: vec![],
            diagnostic: Some(b"Path is invalid UTF-8".to_vec()),
        })
    );
    let r = cd_from(&args(&[b"\xc3"]), Some(b"/home/me".to_vec()));
    assert!(r.is_err());
    let r = cd_from(&args(&[b"\xed\xa0\x80"]), None);
    assert!(r.is_err());
}

#[test]
fn cd_without_arguments_asks_the_platform_for_home() {
    match cd(&vec![]) {
        Ok(path) => assert!(!path.is_empty()),
        Err(outcome) => {
            assert_eq!(outcome.code, 1);
            assert_eq!(outcome.diagnostic, Some(b"Failed to get home directory".to_vec()));
        }
    }
}

#[test]
fn cd_done_success() {
    let r = cd_done(b"/", &DirStatus::Changed);
    assert_eq!(r, Outcome { code: 0, output: vec![], diagnostic: None });
}

#[test]
fn cd_to_a_missing_path_fails() {
    let r = cd_done(b"/no/such/dir", &DirStatus::Missing);
    assert_eq!(r.code, 1);
    assert!(r.output.is_empty());
    assert_eq!(r.diagnostic, Some(b"/no/such/dir: does not exist".to_vec()));
    assert!(contains(&r.diagnostic.unwrap(), b"does not exist"));
}

#[test]
fn cd_to_a_regular_file_fails() {
    let r = cd_done(b"/etc/passwd", &DirStatus::NotDirectory);
    assert_eq!(r.code, 1);
    assert_eq!(r.diagnostic, Some(b"/etc/passwd: is not a directory".to_vec()));
    assert!(contains(&r.diagnostic.unwrap(), b"is not a directory"));
}

#[test]
fn cd_reports_a_failed_change() {
    let r = cd_done(b"/root", &DirStatus::Failed(b"Permission denied".to_vec()));
    assert_eq!(r.code, 1);
    assert_eq!(r.diagnostic, Some(b"Failed to change directory: Permission denied".to_vec()));
}

#[test]
fn failures_have_distinct_diagnostics() {
    let a = cd_done(b"p", &DirStatus::Missing).diagnostic;
    let b = cd_done(b"p", &DirStatus::NotDirectory).diagnostic;
    let c = cd_done(b"p", &DirStatus::Failed(b"e".to_vec())).diagnostic;
    assert_ne!(a, b);
    assert_ne!(b, c);
    assert_ne!(a, c);
}

#[test]
fn target_is_looked_at_before_the_change() {
    assert_eq!(cd_check(false, false), Some(DirStatus::Missing));
    assert_eq!(cd_check(false, true), Some(DirStatus::Missing));
    assert_eq!(cd_check(true, false), Some(DirStatus::NotDirectory));
    assert_eq!(cd_check(true, true), None);
    assert_eq!(cd_changed(None), DirStatus::Changed);
    assert_eq!(cd_changed(Some(b"denied".to_vec())), DirStatus::Failed(b"denied".to_vec()));
}
