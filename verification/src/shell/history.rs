//! The history store's records: `<exit code>:<submission>`, one per line,
//! appended and never rewritten.

use crate::shell::text::{
    append, decimal, is_digit, lemma_decimal_digits, slice_copy, to_decimal, views,
};
use vstd::prelude::*;

verus! {

/// The record of a submission `text` that ended with `code`: the code in
/// decimal, a colon, the text as submitted.
pub open spec fn record(code: nat, text: Seq<u8>) -> Seq<u8> {
    decimal(code) + seq![58u8] + text
}

/// `r` begins with one or more decimal digits and a colon.
pub open spec fn is_record(r: Seq<u8>) -> bool {
    exists|k: int|
        1 <= k < r.len() && #[trigger] r[k] == 58u8 && forall|j: int|
            0 <= j < k ==> is_digit(#[trigger] r[j])
}

/// What appending `r` adds to the history file: the record and a newline.
pub open spec fn entry(r: Seq<u8>) -> Seq<u8> {
    r.push(10u8)
}

/// Every record begins with digits and a colon, whatever the code and the
/// text.
pub proof fn lemma_record_format(code: nat, text: Seq<u8>)
    ensures
        is_record(record(code, text)),
        entry(record(code, text)).last() == 10u8,
{
    lemma_decimal_digits(code);
    let r = record(code, text);
    let k = decimal(code).len() as int;
    assert(r[k] == 58u8);
    assert forall|j: int| 0 <= j < k implies is_digit(#[trigger] r[j]) by {
        assert(r[j] == decimal(code)[j]);
    }
}

/// Builds the record of a submission.
pub fn make_record(code: u32, text: &[u8]) -> (r: Vec<u8>)
    ensures
        r@ == record(code as nat, text@),
        is_record(r@),
{
    let mut r = to_decimal(code);
    r.push(58u8);
    append(&mut r, text);
    assert(r@ =~= record(code as nat, text@));
    proof {
        lemma_record_format(code as nat, text@);
    }
    r
}

/// The index of the first newline at or after `i`, or the length of `s`
/// when there is none.
pub open spec fn line_end(s: Seq<u8>, i: int) -> int
    decreases s.len() - i,
{
    if 0 <= i < s.len() && s[i] != 10u8 {
        line_end(s, i + 1)
    } else {
        i
    }
}

/// `line_end` stops at the first newline, or at the end.
pub proof fn lemma_line_end(s: Seq<u8>, i: int)
    requires
        0 <= i <= s.len(),
    ensures
        i <= line_end(s, i) <= s.len(),
        forall|k: int| i <= k < line_end(s, i) ==> #[trigger] s[k] != 10u8,
        line_end(s, i) < s.len() ==> s[line_end(s, i)] == 10u8,
    decreases s.len() - i,
{
    if i < s.len() && s[i] != 10u8 {
        lemma_line_end(s, i + 1);
    }
}

/// The lines of `s` from index `i` on, without their newlines. A last line
/// that no newline ends counts too.
pub open spec fn lines_from(s: Seq<u8>, i: int) -> Seq<Seq<u8>>
    decreases s.len() - i,
{
    if 0 <= i < s.len() {
        let e = line_end(s, i);
        proof {
            lemma_line_end(s, i);
        }
        if e < s.len() {
            seq![s.subrange(i, e)] + lines_from(s, e + 1)
        } else {
            seq![s.subrange(i, e)]
        }
    } else {
        Seq::empty()
    }
}

/// The records of a history file: its lines.
pub open spec fn lines(s: Seq<u8>) -> Seq<Seq<u8>> {
    lines_from(s, 0)
}

/// The file after `records` were appended to it, one after another.
pub open spec fn appended(file: Seq<u8>, records: Seq<Seq<u8>>) -> Seq<u8>
    decreases records.len(),
{
    if records.len() == 0 {
        file
    } else {
        appended(file, records.drop_last()) + entry(records.last())
    }
}

/// The file is empty or ends with a newline.
pub open spec fn terminated(file: Seq<u8>) -> bool {
    file.len() == 0 || file.last() == 10u8
}

/// No byte of `r` is a newline.
pub open spec fn single_line(r: Seq<u8>) -> bool {
    forall|k: int| 0 <= k < r.len() ==> #[trigger] r[k] != 10u8
}

proof fn lemma_line_end_is(s: Seq<u8>, i: int, e: int)
    requires
        0 <= i <= e <= s.len(),
        forall|k: int| i <= k < e ==> #[trigger] s[k] != 10u8,
        e < s.len() ==> s[e] == 10u8,
    ensures
        line_end(s, i) == e,
    decreases e - i,
{
    if i < e {
        lemma_line_end_is(s, i + 1, e);
    }
}

proof fn lemma_lines_of_one_more(file: Seq<u8>, r: Seq<u8>, i: int)
    requires
        terminated(file),
        single_line(r),
        0 <= i <= file.len(),
        i == 0 || file[i - 1] == 10u8,
    ensures
        lines_from(file + entry(r), i) == lines_from(file, i).push(r),
    decreases file.len() - i,
{
    let s = file + entry(r);
    if i == file.len() {
        let e: int = (file.len() + r.len()) as int;
        lemma_line_end_is(s, i, e);
        assert(s.subrange(i, e) =~= r);
        assert(s[e] == 10u8);
        assert(lines_from(s, e + 1) =~= Seq::<Seq<u8>>::empty());
        assert(lines_from(file, i) =~= Seq::<Seq<u8>>::empty());
        assert(lines_from(s, i) =~= lines_from(file, i).push(r));
    } else {
        lemma_line_end(file, i);
        let e = line_end(file, i);
        assert(e < file.len()) by {
            if e == file.len() {
                assert(file[file.len() - 1] != 10u8);
            }
        }
        lemma_line_end_is(s, i, e);
        assert(s.subrange(i, e) =~= file.subrange(i, e));
        lemma_lines_of_one_more(file, r, e + 1);
        assert(lines_from(s, i) =~= lines_from(file, i).push(r));
    }
}

/// Appending records that hold no newline to a file that is empty or ends
/// with a newline, and reading the file back line by line, gives the lines
/// it had and then exactly those records, in the order of their appending.
pub proof fn lemma_append_then_read(file: Seq<u8>, records: Seq<Seq<u8>>)
    requires
        terminated(file),
        forall|k: int| 0 <= k < records.len() ==> single_line(#[trigger] records[k]),
    ensures
        terminated(appended(file, records)),
        lines(appended(file, records)) == lines(file) + records,
    decreases records.len(),
{
    if records.len() == 0 {
        assert(lines(file) + records =~= lines(file));
    } else {
        let head = records.drop_last();
        lemma_append_then_read(file, head);
        lemma_lines_of_one_more(appended(file, head), records.last(), 0);
        assert((lines(file) + head).push(records.last()) =~= lines(file) + records);
    }
}

/// Reads a history file back: its records, in order.
pub fn records(file: &[u8]) -> (r: Vec<Vec<u8>>)
    ensures
        views(r@) == lines(file@),
{
    let mut r: Vec<Vec<u8>> = Vec::new();
    let n: usize = file.len();
    let mut i: usize = 0;
    while i < n
        invariant
            n == file@.len(),
            i <= n,
            lines(file@) == views(r@) + lines_from(file@, i as int),
        decreases n - i,
    {
        let start: usize = i;
        while i < n && file[i] != 10u8
            invariant
                n == file@.len(),
                start <= i <= n,
                start < n,
                line_end(file@, start as int) == line_end(file@, i as int),
            decreases n - i,
        {
            i += 1;
        }
        let line = slice_copy(file, start, i);
        let ghost before = views(r@);
        r.push(line);
        assert(views(r@) =~= before.push(file@.subrange(start as int, i as int)));
        if i < n {
            assert(before + (seq![file@.subrange(start as int, i as int)] + lines_from(
                file@,
                i + 1,
            )) =~= views(r@) + lines_from(file@, i + 1));
            i += 1;
        } else {
            assert(before + seq![file@.subrange(start as int, i as int)] =~= views(r@)
                + lines_from(file@, i as int));
        }
    }
    assert(views(r@) + Seq::<Seq<u8>>::empty() =~= views(r@));
    r
}

/// The history store: a file of records at `path`.
#[derive(Debug, Clone, PartialEq, Eq)]
pub struct NeoshHistory {
    pub path: Vec<u8>,
}

impl NeoshHistory {
    /// The bytes that saving `contents` appends to the file: the record and
    /// a newline.
    pub fn save(&self, contents: &[u8]) -> (r: Vec<u8>)
        ensures
            r@ == entry(contents@),
    {
        let mut r: Vec<u8> = Vec::new();
        append(&mut r, contents);
        r.push(10u8);
        assert(r@ =~= entry(contents@));
        r
    }
}

} // verus!
