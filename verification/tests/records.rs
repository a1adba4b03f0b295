use neosh::shell::history::{make_record, records, NeoshHistory};
use neosh::shell::text::{is_ascii_space, join, split_tokens, to_decimal};

fn starts_with_digits_and_colon(r: &[u8]) -> bool {
    let digits = r.iter().take_while(|b| b.is_ascii_digit()).count();
    digits >= 1 && r.get(digits) == Some(&b':')
}

#[test]
fn decimal_numbers() {
    assert_eq!(to_decimal(0), b"0".to_vec());
    assert_eq!(to_decimal(7), b"7".to_vec());
    assert_eq!(to_decimal(10), b"10".to_vec());
    assert_eq!(to_decimal(127), b"127".to_vec());
    assert_eq!(to_decimal(1000), b"1000".to_vec());
    assert_eq!(to_decimal(u32::MAX), b"4294967295".to_vec());
}

#[test]
fn record_is_code_colon_text() {
    assert_eq!(make_record(0, b"pwd"), b"0:pwd".to_vec());
    assert_eq!(make_record(1, b"cd /no/such/dir"), b"1:cd /no/such/dir".to_vec());
    assert_eq!(make_record(127, b""), b"127:".to_vec());
    assert_eq!(make_record(0, b"a:b"), b"0:a:b".to_vec());
}

#[test]
fn every_record_starts_with_digits_and_a_colon() {
    for code in [0u32, 1, 9, 10, 99, 256, u32::MAX] {
        for text in [&b""[..], b"x", b":", b"12:34", b"echo a b"] {
            assert!(starts_with_digits_and_colon(&make_record(code, text)));
        }
    }
}

#[test]
fn save_appends_the_record_and_a_newline() {
    let h = NeoshHistory { path: b"/tmp/neosh_history".to_vec() };
    assert_eq!(h.save(b"0:pwd"), b"0:pwd\n".to_vec());
    assert_eq!(h.save(b""), b"\n".to_vec());
}

#[test]
fn appended_records_read_back_in_order() {
    let h = NeoshHistory { path: b"history".to_vec() };
    let written: Vec<Vec<u8>> = vec![
        make_record(0, b"pwd"),
        make_record(1, b"cd /no/such/dir"),
        make_record(0, b"echo a b"),
        make_record(0, b"exit"),
    ];
    let mut file: Vec<u8> = Vec::new();
    for r in &written {
        file.extend(h.save(r));
    }
    assert_eq!(file, b"0:pwd\n1:cd /no/such/dir\n0:echo a b\n0:exit\n".to_vec());
    assert_eq!(records(&file), written);
}

#[test]
fn appending_keeps_what_the_file_held() {
    let h = NeoshHistory { path: b"history".to_vec() };
    let mut file = b"0:old\n".to_vec();
    file.extend(h.save(b"1:new"));
    assert_eq!(records(&file), vec![b"0:old".to_vec(), b"1:new".to_vec()]);
}

#[test]
fn reading_lines() {
    assert_eq!(records(b""), Vec::<Vec<u8>>::new());
    assert_eq!(records(b"\n"), vec![b"".to_vec()]);
    assert_eq!(records(b"a"), vec![b"a".to_vec()]);
    assert_eq!(records(b"a\n\nb\n"), vec![b"a".to_vec(), b"".to_vec(), b"b".to_vec()]);
    assert_eq!(records(b"a\nb"), vec![b"a".to_vec(), b"b".to_vec()]);
}

#[test]
fn whitespace_is_the_ascii_one() {
    for b in [b' ', b'\t', b'\n', b'\r', 0x0cu8] {
        assert!(is_ascii_space(b));
    }
    for b in [b'a', b'0', 0u8, 0x0b, 0x85, 0xa0, 0xff] {
        assert!(!is_ascii_space(b));
    }
}

#[test]
fn tokens_are_the_non_empty_runs_between_whitespace() {
    let t = |s: &[u8]| split_tokens(s);
    assert_eq!(t(b""), Vec::<Vec<u8>>::new());
    assert_eq!(t(b"  \t\r\n "), Vec::<Vec<u8>>::new());
    assert_eq!(t(b"pwd"), vec![b"pwd".to_vec()]);
    assert_eq!(t(b"echo  a   b"), vec![b"echo".to_vec(), b"a".to_vec(), b"b".to_vec()]);
    assert_eq!(t(b"  cd\t/tmp \n"), vec![b"cd".to_vec(), b"/tmp".to_vec()]);
    assert_eq!(t(b"a\xa0b c"), vec![b"a\xa0b".to_vec(), b"c".to_vec()]);
}

#[test]
fn join_puts_the_separator_between_neighbours() {
    let parts = vec![b"a".to_vec(), b"".to_vec(), b"bc".to_vec()];
    assert_eq!(join(&parts, b" "), b"a  bc".to_vec());
    assert_eq!(join(&parts, b"\t"), b"a\t\tbc".to_vec());
    assert_eq!(join(&vec![], b" "), Vec::<u8>::new());
    assert_eq!(join(&vec![b"x".to_vec()], b", "), b"x".to_vec());
}
