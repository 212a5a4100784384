use vstd::prelude::*;

use crate::placeholders::{is_blank, is_blank_char};
use crate::text::string_of;
use crate::token::{Token, TokenKind};

verus! {

/// The text of token `t`.
pub open spec fn lexeme(input: Seq<char>, t: Token) -> Seq<char> {
    input.subrange(t.start as int, t.end as int)
}

/// Whether every token of `toks` is a span of a text of length `n`.
pub open spec fn tokens_fit(toks: Seq<Token>, n: int) -> bool {
    forall|i: int| 0 <= i < toks.len() ==> (#[trigger] toks[i]).start <= toks[i].end <= n
}

/// Whether `t` is an `Unknown` token made of blanks only.
pub open spec fn blank_token(input: Seq<char>, t: Token) -> bool {
    t.kind == TokenKind::Unknown && forall|i: int|
        t.start <= i < t.end ==> is_blank(#[trigger] input[i])
}

/// Whether `s` is made of digits and dots only.
pub open spec fn is_numeric(s: Seq<char>) -> bool {
    forall|i: int| 0 <= i < s.len() ==> ('0' <= #[trigger] s[i] && s[i] <= '9') || s[i] == '.'
}

/// The text of `token`.
pub fn get_lexeme(token: &Token, input: &[char]) -> (r: String)
    requires
        token.start <= token.end <= input@.len(),
    ensures
        r@ == lexeme(input@, *token),
{
    string_of(input, token.start, token.end)
}

pub fn is_blank_token(token: &Token, input: &[char]) -> (r: bool)
    requires
        token.start <= token.end <= input@.len(),
    ensures
        r == blank_token(input@, *token),
{
    if token.kind != TokenKind::Unknown {
        return false;
    }
    let mut i = token.start;
    while i < token.end
        invariant
            token.start <= i <= token.end <= input@.len(),
            forall|j: int| token.start <= j < i ==> is_blank(#[trigger] input@[j]),
        decreases token.end - i,
    {
        if !is_blank_char(input[i]) {
            return false;
        }
        i += 1;
    }
    true
}

pub fn is_numeric_text(s: &[char], from: usize, to: usize) -> (r: bool)
    requires
        from <= to <= s@.len(),
    ensures
        r == is_numeric(s@.subrange(from as int, to as int)),
{
    let mut i = from;
    while i < to
        invariant
            from <= i <= to <= s@.len(),
            forall|j: int| from <= j < i ==> ('0' <= #[trigger] s@[j] && s@[j] <= '9') || s@[j] == '.',
        decreases to - i,
    {
        let c = s[i];
        if !(('0' <= c && c <= '9') || c == '.') {
            assert(!is_numeric(s@.subrange(from as int, to as int))) by {
                assert(s@.subrange(from as int, to as int)[i - from] == c);
            }
            return false;
        }
        i += 1;
    }
    assert forall|j: int| 0 <= j < to - from implies ('0' <= #[trigger] s@.subrange(from as int, to as int)[j] && s@.subrange(from as int, to as int)[j] <= '9') || s@.subrange(from as int, to as int)[j] == '.' by {
        assert(s@.subrange(from as int, to as int)[j] == s@[from + j]);
    }
    true
}

} // verus!
