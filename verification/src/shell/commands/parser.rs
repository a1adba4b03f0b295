//! A first tokenizer for command lines: it finds the command and the
//! numbers among its parameters.

use crate::shell::text::{is_ascii_space, is_digit, is_space, word_end};
use vstd::prelude::*;
use vstd::string::StringSliceAdditionalSpecFns;

verus! {

/// What kind of value a parameter is.
#[derive(Debug, Clone, Copy, PartialEq, Eq)]
pub enum ParameterType {
    Generic,
    String,
    Number,
}

/// What a token stands for.
#[derive(Debug, Clone, Copy, PartialEq, Eq)]
pub enum TokenType {
    Error,
    Command,
    Parameter(ParameterType),
}

/// A token: the byte range it covers in the line, and what it stands for.
#[derive(Debug, Clone, Copy, PartialEq, Eq)]
pub struct Token {
    pub range: (usize, usize),
    pub token: TokenType,
}

/// The command token of the line `s`: the bytes before the first
/// whitespace.
pub open spec fn command_token(s: Seq<u8>) -> Token {
    Token { range: (0, word_end(s, 0) as usize), token: TokenType::Command }
}

/// A number token over `start..end`.
pub open spec fn number_token(start: int, end: int) -> Token {
    Token {
        range: (start as usize, end as usize),
        token: TokenType::Parameter(ParameterType::Number),
    }
}

/// The number tokens that the bytes of `s` from index `j` on give, when a
/// token would begin at `start` and `parsing` says whether a digit was seen
/// since the last token. A digit opens a token and leaves its beginning
/// where it is. Whitespace closes an open token, which then reaches from
/// its beginning to behind the whitespace. Any byte that is no digit moves
/// the beginning behind itself. A token that is open at the end of the line
/// reaches to the end.
pub open spec fn numbers_from(s: Seq<u8>, j: int, start: int, parsing: bool) -> Seq<Token>
    decreases s.len() - j,
{
    if j < 0 || j >= s.len() {
        if parsing {
            seq![number_token(start, s.len() as int)]
        } else {
            Seq::empty()
        }
    } else if is_digit(s[j]) {
        numbers_from(s, j + 1, start, true)
    } else if is_space(s[j]) && parsing {
        seq![number_token(start, j + 1)] + numbers_from(s, j + 1, j + 1, false)
    } else {
        numbers_from(s, j + 1, j + 1, parsing)
    }
}

/// The tokens of the line `s`: its command, then its numbers.
pub open spec fn parsed(s: Seq<u8>) -> Seq<Token> {
    seq![command_token(s)] + numbers_from(s, word_end(s, 0), word_end(s, 0), false)
}

/// Breaks a line down into tokens: the command first, then the numbers
/// among what follows it. The line must not be empty.
pub fn parse(line: &str) -> (r: Vec<Token>)
    requires
        line.spec_bytes().len() > 0,
    ensures
        r@ == parsed(line.spec_bytes()),
{
    let bytes = line.as_bytes();
    let n: usize = bytes.len();
    let mut result: Vec<Token> = Vec::new();
    let mut end: usize = 0;
    while end < n && !is_ascii_space(bytes[end])
        invariant
            n == bytes@.len(),
            end <= n,
            word_end(bytes@, 0) == word_end(bytes@, end as int),
        decreases n - end,
    {
        end += 1;
    }
    result.push(Token { range: (0, end), token: TokenType::Command });
    assert(result@ =~= seq![command_token(bytes@)]);
    let mut start: usize = end;
    let mut j: usize = end;
    let mut parsing = false;
    while j < n
        invariant
            n == bytes@.len(),
            j <= n,
            start <= n,
            parsed(bytes@) == result@ + numbers_from(bytes@, j as int, start as int, parsing),
        decreases n - j,
    {
        let current = bytes[j];
        let ghost before = result@;
        if 48 <= current && current <= 57 {
            parsing = true;
        } else {
            if is_ascii_space(current) && parsing {
                parsing = false;
                result.push(
                    Token {
                        range: (start, j + 1),
                        token: TokenType::Parameter(ParameterType::Number),
                    },
                );
                assert(before + (seq![number_token(start as int, j + 1)] + numbers_from(
                    bytes@,
                    j + 1,
                    j + 1,
                    false,
                )) =~= result@ + numbers_from(bytes@, j + 1, j + 1, false));
            }
            start = j + 1;
        }
        j += 1;
    }
    let ghost before = result@;
    if parsing {
        result.push(
            Token { range: (start, n), token: TokenType::Parameter(ParameterType::Number) },
        );
        assert(before + seq![number_token(start as int, n as int)] =~= result@);
    } else {
        assert(before + Seq::<Token>::empty() =~= result@);
    }
    result
}

} // verus!
