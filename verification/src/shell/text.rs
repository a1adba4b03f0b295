//! Byte-level helpers shared by the editor, the built-ins and the dispatcher:
//! whitespace, tokens, joining and decimal numbers.

use vstd::prelude::*;
use vstd::string::StringSliceAdditionalSpecFns;

verus! {

/// ASCII whitespace: space, tab, line feed, form feed, carriage return.
pub open spec fn is_space(b: u8) -> bool {
    b == 32 || b == 9 || b == 10 || b == 12 || b == 13
}

/// Tells whether `b` is ASCII whitespace.
pub fn is_ascii_space(b: u8) -> (r: bool)
    ensures
        r == is_space(b),
{
    b == 32 || b == 9 || b == 10 || b == 12 || b == 13
}

/// The index of the first whitespace byte at or after `i`, or the length of
/// `s` when there is none.
pub open spec fn word_end(s: Seq<u8>, i: int) -> int
    decreases s.len() - i,
{
    if 0 <= i < s.len() && !is_space(s[i]) {
        word_end(s, i + 1)
    } else {
        i
    }
}

/// `word_end` never moves left, stops inside the sequence, and runs over
/// bytes that are not whitespace only.
pub proof fn lemma_word_end(s: Seq<u8>, i: int)
    requires
        0 <= i <= s.len(),
    ensures
        i <= word_end(s, i) <= s.len(),
        forall|k: int| i <= k < word_end(s, i) ==> !is_space(#[trigger] s[k]),
        word_end(s, i) < s.len() ==> is_space(s[word_end(s, i)]),
        i < s.len() && !is_space(s[i]) ==> i < word_end(s, i),
    decreases s.len() - i,
{
    if i < s.len() && !is_space(s[i]) {
        lemma_word_end(s, i + 1);
    }
}

/// The whitespace-delimited tokens of `s` that start at or after `i`, in
/// order. Runs of whitespace separate tokens and yield no empty token.
pub open spec fn tokens_from(s: Seq<u8>, i: int) -> Seq<Seq<u8>>
    decreases s.len() - i,
{
    if 0 <= i < s.len() {
        if is_space(s[i]) {
            tokens_from(s, i + 1)
        } else {
            let e = word_end(s, i);
            proof {
                lemma_word_end(s, i);
            }
            seq![s.subrange(i, e)] + tokens_from(s, e)
        }
    } else {
        Seq::empty()
    }
}

/// The whitespace-delimited tokens of `s`.
pub open spec fn tokens(s: Seq<u8>) -> Seq<Seq<u8>> {
    tokens_from(s, 0)
}

/// The view of an optional byte string.
pub open spec fn optional(o: Option<Vec<u8>>) -> Option<Seq<u8>> {
    match o {
        Some(bytes) => Some(bytes@),
        None => None,
    }
}

/// The views of a vector of byte strings.
pub open spec fn views(v: Seq<Vec<u8>>) -> Seq<Seq<u8>> {
    Seq::new(v.len(), |i: int| v[i]@)
}

/// Copies `s[from..to]` into a fresh vector.
pub fn slice_copy(s: &[u8], from: usize, to: usize) -> (r: Vec<u8>)
    requires
        from <= to <= s@.len(),
    ensures
        r@ == s@.subrange(from as int, to as int),
{
    let mut r: Vec<u8> = Vec::new();
    let mut k: usize = from;
    while k < to
        invariant
            from <= k <= to <= s@.len(),
            r@ == s@.subrange(from as int, k as int),
        decreases to - k,
    {
        r.push(s[k]);
        k += 1;
        assert(r@ =~= s@.subrange(from as int, k as int));
    }
    r
}

/// Splits `s` on ASCII whitespace into its non-empty tokens.
pub fn split_tokens(s: &[u8]) -> (r: Vec<Vec<u8>>)
    ensures
        views(r@) == tokens(s@),
{
    let mut r: Vec<Vec<u8>> = Vec::new();
    let mut i: usize = 0;
    let n: usize = s.len();
    while i < n
        invariant
            n == s@.len(),
            0 <= i <= n,
            tokens(s@) == views(r@) + tokens_from(s@, i as int),
        decreases n - i,
    {
        if is_ascii_space(s[i]) {
            i += 1;
        } else {
            let start: usize = i;
            while i < n && !is_ascii_space(s[i])
                invariant
                    n == s@.len(),
                    start <= i <= n,
                    word_end(s@, start as int) == word_end(s@, i as int),
                decreases n - i,
            {
                i += 1;
            }
            let word = slice_copy(s, start, i);
            let ghost before = views(r@);
            r.push(word);
            assert(views(r@) =~= before + seq![s@.subrange(start as int, i as int)]);
            assert(before + (seq![s@.subrange(start as int, i as int)] + tokens_from(s@, i as int))
                =~= views(r@) + tokens_from(s@, i as int));
        }
    }
    assert(views(r@) + Seq::<Seq<u8>>::empty() =~= views(r@));
    r
}

/// The byte strings of `parts`, one after another, with `sep` between each
/// two neighbours.
pub open spec fn joined(parts: Seq<Seq<u8>>, sep: Seq<u8>) -> Seq<u8>
    decreases parts.len(),
{
    if parts.len() == 0 {
        Seq::empty()
    } else if parts.len() == 1 {
        parts[0]
    } else {
        joined(parts.drop_last(), sep) + sep + parts.last()
    }
}

/// Appends the bytes of `more` to `out`.
pub fn append(out: &mut Vec<u8>, more: &[u8])
    ensures
        final(out)@ == old(out)@ + more@,
{
    let mut k: usize = 0;
    let n: usize = more.len();
    while k < n
        invariant
            n == more@.len(),
            k <= n,
            out@ == old(out)@ + more@.subrange(0, k as int),
        decreases n - k,
    {
        out.push(more[k]);
        k += 1;
        assert(out@ =~= old(out)@ + more@.subrange(0, k as int));
    }
    assert(more@.subrange(0, n as int) =~= more@);
}

/// Joins `parts` with `sep` between neighbours.
pub fn join(parts: &Vec<Vec<u8>>, sep: &[u8]) -> (r: Vec<u8>)
    ensures
        r@ == joined(views(parts@), sep@),
{
    let mut r: Vec<u8> = Vec::new();
    let mut k: usize = 0;
    let n: usize = parts.len();
    while k < n
        invariant
            n == parts@.len(),
            k <= n,
            r@ == joined(views(parts@).subrange(0, k as int), sep@),
        decreases n - k,
    {
        let ghost head = views(parts@).subrange(0, k as int);
        let ghost next = views(parts@).subrange(0, k + 1);
        assert(next.drop_last() =~= head);
        assert(next.last() == parts@[k as int]@);
        if k > 0 {
            append(&mut r, sep);
        }
        append(&mut r, parts[k].as_slice());
        assert(r@ =~= joined(next, sep@));
        k += 1;
    }
    assert(views(parts@).subrange(0, n as int) =~= views(parts@));
    r
}

/// The decimal digits of `n`, most significant first, as ASCII bytes.
pub open spec fn decimal(n: nat) -> Seq<u8>
    decreases n,
{
    if n < 10 {
        seq![(48 + n) as u8]
    } else {
        decimal(n / 10).push((48 + n % 10) as u8)
    }
}

/// An ASCII decimal digit.
pub open spec fn is_digit(b: u8) -> bool {
    48 <= b <= 57
}

/// A decimal number is never empty and holds digits only.
pub proof fn lemma_decimal_digits(n: nat)
    ensures
        decimal(n).len() >= 1,
        forall|k: int| 0 <= k < decimal(n).len() ==> is_digit(#[trigger] decimal(n)[k]),
    decreases n,
{
    if n >= 10 {
        lemma_decimal_digits(n / 10);
    }
}

/// Writes `n` in decimal.
pub fn to_decimal(n: u32) -> (r: Vec<u8>)
    ensures
        r@ == decimal(n as nat),
    decreases n,
{
    if n < 10 {
        let d: u8 = 48 + (n as u8);
        let mut r: Vec<u8> = Vec::new();
        r.push(d);
        assert(r@ =~= decimal(n as nat));
        r
    } else {
        let mut r = to_decimal(n / 10);
        let d: u8 = 48 + ((n % 10) as u8);
        r.push(d);
        r
    }
}

/// Tells whether two byte strings hold the same bytes.
pub fn same_bytes(a: &[u8], b: &[u8]) -> (r: bool)
    ensures
        r == (a@ == b@),
{
    if a.len() != b.len() {
        return false;
    }
    let n: usize = a.len();
    let mut k: usize = 0;
    while k < n
        invariant
            n == a@.len(),
            n == b@.len(),
            k <= n,
            a@.subrange(0, k as int) == b@.subrange(0, k as int),
        decreases n - k,
    {
        if a[k] != b[k] {
            return false;
        }
        k += 1;
        assert(a@.subrange(0, k as int) =~= a@.subrange(0, k - 1).push(a@[k - 1]));
        assert(b@.subrange(0, k as int) =~= b@.subrange(0, k - 1).push(b@[k - 1]));
    }
    assert(a@.subrange(0, n as int) =~= a@);
    assert(b@.subrange(0, n as int) =~= b@);
    true
}

/// The bytes of `s` in a vector of their own.
pub fn bytes_of(s: &str) -> (r: Vec<u8>)
    ensures
        r@ == s.spec_bytes(),
{
    let mut r: Vec<u8> = Vec::new();
    append(&mut r, s.as_bytes());
    assert(r@ =~= s.spec_bytes());
    r
}

/// A copy of `s`.
pub fn copy_of(s: &[u8]) -> (r: Vec<u8>)
    ensures
        r@ == s@,
{
    let mut r: Vec<u8> = Vec::new();
    append(&mut r, s);
    assert(r@ =~= s@);
    r
}

} // verus!
