use vstd::prelude::*;

use crate::text::chars_of;

verus! {

/// The classification of a token.
#[derive(Debug, Clone, Copy, PartialEq, Eq, Structural)]
pub enum TokenKind {
    /// `;` up to the end of the line.
    Comment,
    /// `@`: variable declaration.
    At,
    /// `>`: print, input, or greater-than, told apart by the parser.
    Greater,
    /// `..`: input.
    DoubleDot,
    Plus,
    Minus,
    Star,
    Slash,
    /// A maximal run of letters, digits and `_`.
    Identifier,
    Newline,
    /// Any other single character.
    Unknown,
    /// `)`
    RSmallB,
    /// `(`
    LSmallB,
    /// `]`
    RBigB,
    /// `[`
    LBigB,
    /// `}`
    RCurlyB,
    /// `{`
    LCurlyB,
    /// `?`: conditional.
    Question,
    /// `=`
    Equals,
    /// `==`
    Equal,
    /// `!=`
    NotEqual,
    /// `<`
    LessThan,
    /// `<=`
    LessEqual,
    /// `>` in a comparison; the lexer itself always yields `Greater`.
    GreaterThan,
    /// `>=`
    GreaterEqual,
    /// `&&`
    And,
    /// `||`
    Or,
    /// From `"` to the closing `"` or to the end of the line.
    StringLiteral,
}

/// A classified span `[start, end)` of the source, counted in characters.
#[derive(Debug, Clone, Copy, PartialEq, Eq, Structural)]
pub struct Token {
    pub kind: TokenKind,
    pub start: usize,
    pub end: usize,
}

pub open spec fn is_ident_start(c: char) -> bool {
    ('0' <= c && c <= '9') || ('A' <= c && c <= 'Z') || ('a' <= c && c <= 'z') || c == '_'
}

pub open spec fn is_ident_char(c: char) -> bool {
    is_ident_start(c)
}

/// The end of the run of identifier characters that starts at `p`.
pub open spec fn ident_end(s: Seq<char>, p: int) -> int
    decreases s.len() - p,
{
    if 0 <= p < s.len() && is_ident_char(s[p]) {
        ident_end(s, p + 1)
    } else {
        p
    }
}

/// The first position at or after `p` that holds a newline, or the end.
pub open spec fn line_end(s: Seq<char>, p: int) -> int
    decreases s.len() - p,
{
    if 0 <= p < s.len() && s[p] != '\n' {
        line_end(s, p + 1)
    } else {
        p
    }
}

/// The first position at or after `p` that holds `"` or a newline, or the end.
pub open spec fn quote_end(s: Seq<char>, p: int) -> int
    decreases s.len() - p,
{
    if 0 <= p < s.len() && s[p] != '"' && s[p] != '\n' {
        quote_end(s, p + 1)
    } else {
        p
    }
}

/// A one-character token followed by `second` becomes `two`; alone it is `one`.
pub open spec fn pair_token(s: Seq<char>, p: int, second: char, two: TokenKind, one: TokenKind) -> (
    TokenKind,
    int,
) {
    if p + 1 < s.len() && s[p + 1] == second {
        (two, p + 2)
    } else {
        (one, p + 1)
    }
}

/// The kind and the end of the token that starts at `p`.
pub open spec fn next_token(s: Seq<char>, p: int) -> (TokenKind, int) {
    let c = s[p];
    if c == '{' {
        (TokenKind::LCurlyB, p + 1)
    } else if c == '}' {
        (TokenKind::RCurlyB, p + 1)
    } else if c == '[' {
        (TokenKind::LBigB, p + 1)
    } else if c == ']' {
        (TokenKind::RBigB, p + 1)
    } else if c == '(' {
        (TokenKind::LSmallB, p + 1)
    } else if c == ')' {
        (TokenKind::RSmallB, p + 1)
    } else if c == ';' {
        (TokenKind::Comment, line_end(s, p + 1))
    } else if c == '@' {
        (TokenKind::At, p + 1)
    } else if c == '>' {
        pair_token(s, p, '=', TokenKind::GreaterEqual, TokenKind::Greater)
    } else if c == '<' {
        pair_token(s, p, '=', TokenKind::LessEqual, TokenKind::LessThan)
    } else if c == '=' {
        pair_token(s, p, '=', TokenKind::Equal, TokenKind::Equals)
    } else if c == '!' {
        pair_token(s, p, '=', TokenKind::NotEqual, TokenKind::Unknown)
    } else if c == '&' {
        pair_token(s, p, '&', TokenKind::And, TokenKind::Unknown)
    } else if c == '|' {
        pair_token(s, p, '|', TokenKind::Or, TokenKind::Unknown)
    } else if c == '?' {
        (TokenKind::Question, p + 1)
    } else if c == '+' {
        (TokenKind::Plus, p + 1)
    } else if c == '-' {
        (TokenKind::Minus, p + 1)
    } else if c == '*' {
        (TokenKind::Star, p + 1)
    } else if c == '/' {
        (TokenKind::Slash, p + 1)
    } else if c == '\n' {
        (TokenKind::Newline, p + 1)
    } else if c == '.' {
        pair_token(s, p, '.', TokenKind::DoubleDot, TokenKind::Unknown)
    } else if c == '"' {
        let q = quote_end(s, p + 1);
        if q < s.len() && s[q] == '"' {
            (TokenKind::StringLiteral, q + 1)
        } else {
            (TokenKind::StringLiteral, q)
        }
    } else if is_ident_start(c) {
        (TokenKind::Identifier, ident_end(s, p + 1))
    } else {
        (TokenKind::Unknown, p + 1)
    }
}

/// The tokens of `s` from position `p` on.
pub open spec fn tokens_from(s: Seq<char>, p: int) -> Seq<Token>
    decreases s.len() - p,
{
    if p < 0 || p >= s.len() {
        Seq::empty()
    } else {
        let (k, e) = next_token(s, p);
        if e <= p || e > s.len() {
            Seq::empty()
        } else {
            seq![Token { kind: k, start: p as usize, end: e as usize }] + tokens_from(s, e)
        }
    }
}

/// The tokens of a whole source text.
pub open spec fn lex(s: Seq<char>) -> Seq<Token> {
    tokens_from(s, 0)
}

proof fn lemma_ident_end(s: Seq<char>, p: int)
    requires
        0 <= p <= s.len(),
    ensures
        p <= ident_end(s, p) <= s.len(),
    decreases s.len() - p,
{
    if p < s.len() && is_ident_char(s[p]) {
        lemma_ident_end(s, p + 1);
    }
}

proof fn lemma_line_end(s: Seq<char>, p: int)
    requires
        0 <= p <= s.len(),
    ensures
        p <= line_end(s, p) <= s.len(),
    decreases s.len() - p,
{
    if p < s.len() && s[p] != '\n' {
        lemma_line_end(s, p + 1);
    }
}

proof fn lemma_quote_end(s: Seq<char>, p: int)
    requires
        0 <= p <= s.len(),
    ensures
        p <= quote_end(s, p) <= s.len(),
    decreases s.len() - p,
{
    if p < s.len() && s[p] != '"' && s[p] != '\n' {
        lemma_quote_end(s, p + 1);
    }
}

/// Every token is non-empty and stays within the text.
pub proof fn lemma_next_token(s: Seq<char>, p: int)
    requires
        0 <= p < s.len(),
    ensures
        p < next_token(s, p).1 <= s.len(),
{
    lemma_ident_end(s, p + 1);
    lemma_line_end(s, p + 1);
    lemma_quote_end(s, p + 1);
}

/// The tokens from `p` are non-empty spans within `[p, len)`.
pub proof fn lemma_tokens_from(s: Seq<char>, p: int)
    requires
        0 <= p <= s.len(),
        s.len() <= usize::MAX,
    ensures
        forall|i: int|
            0 <= i < tokens_from(s, p).len() ==> p <= (#[trigger] tokens_from(s, p)[i]).start
                < tokens_from(s, p)[i].end <= s.len(),
    decreases s.len() - p,
{
    if p < s.len() {
        lemma_next_token(s, p);
        let e = next_token(s, p).1;
        lemma_tokens_from(s, e);
        let rest = tokens_from(s, e);
        let all = tokens_from(s, p);
        assert(all == seq![Token { kind: next_token(s, p).0, start: p as usize, end: e as usize }]
            + rest);
        assert forall|i: int| 0 <= i < all.len() implies p <= (#[trigger] all[i]).start
            < all[i].end <= s.len() by {
            if i > 0 {
                assert(all[i] == rest[i - 1]);
            }
        }
    }
}

/// Splits source text into classified spans.
pub struct Tokenizer {
    pub input: Vec<char>,
    pub pos: usize,
    pub tokens: Vec<Token>,
}

fn is_ident_char_exec(c: char) -> (r: bool)
    ensures
        r == is_ident_char(c),
{
    ('0' <= c && c <= '9') || ('A' <= c && c <= 'Z') || ('a' <= c && c <= 'z') || c == '_'
}

impl Tokenizer {
    pub fn new(input: &str) -> (r: Self)
        ensures
            r.input@ == input@,
            r.pos == 0,
            r.tokens@.len() == 0,
    {
        Tokenizer { input: chars_of(input), pos: 0, tokens: Vec::new() }
    }

    /// Scans the input from `pos` to its end and appends the tokens found.
    pub fn tokenize(&mut self) -> (r: &[Token])
        requires
            old(self).pos <= old(self).input@.len(),
        ensures
            final(self).input == old(self).input,
            final(self).tokens@ == old(self).tokens@ + tokens_from(
                old(self).input@,
                old(self).pos as int,
            ),
            r@ == final(self).tokens@,
    {
        let len = self.input.len();
        let mut pos = self.pos;
        let ghost s = self.input@;
        let ghost start_tokens = self.tokens@;
        while pos < len
            invariant
                s == self.input@,
                self.input == old(self).input,
                len == s.len(),
                old(self).pos <= pos <= len,
                self.tokens@ + tokens_from(s, pos as int) == start_tokens + tokens_from(
                    s,
                    old(self).pos as int,
                ),
            decreases len - pos,
        {
            let start = pos;
            let c = self.input[pos];
            proof {
                lemma_next_token(s, start as int);
            }
            let kind;
            if c == '{' {
                pos += 1;
                kind = TokenKind::LCurlyB;
            } else if c == '}' {
                pos += 1;
                kind = TokenKind::RCurlyB;
            } else if c == '[' {
                pos += 1;
                kind = TokenKind::LBigB;
            } else if c == ']' {
                pos += 1;
                kind = TokenKind::RBigB;
            } else if c == '(' {
                pos += 1;
                kind = TokenKind::LSmallB;
            } else if c == ')' {
                pos += 1;
                kind = TokenKind::RSmallB;
            } else if c == ';' {
                pos += 1;
                while pos < len && self.input[pos] != '\n'
                    invariant
                        s == self.input@,
                        len == s.len(),
                        start < pos <= len,
                        line_end(s, pos as int) == line_end(s, start + 1),
                    decreases len - pos,
                {
                    pos += 1;
                }
                kind = TokenKind::Comment;
            } else if c == '@' {
                pos += 1;
                kind = TokenKind::At;
            } else if c == '>' {
                pos += 1;
                if pos < len && self.input[pos] == '=' {
                    pos += 1;
                    kind = TokenKind::GreaterEqual;
                } else {
                    kind = TokenKind::Greater;
                }
            } else if c == '<' {
                pos += 1;
                if pos < len && self.input[pos] == '=' {
                    pos += 1;
                    kind = TokenKind::LessEqual;
                } else {
                    kind = TokenKind::LessThan;
                }
            } else if c == '=' {
                pos += 1;
                if pos < len && self.input[pos] == '=' {
                    pos += 1;
                    kind = TokenKind::Equal;
                } else {
                    kind = TokenKind::Equals;
                }
            } else if c == '!' {
                pos += 1;
                if pos < len && self.input[pos] == '=' {
                    pos += 1;
                    kind = TokenKind::NotEqual;
                } else {
                    kind = TokenKind::Unknown;
                }
            } else if c == '&' {
                pos += 1;
                if pos < len && self.input[pos] == '&' {
                    pos += 1;
                    kind = TokenKind::And;
                } else {
                    kind = TokenKind::Unknown;
                }
            } else if c == '|' {
                pos += 1;
                if pos < len && self.input[pos] == '|' {
                    pos += 1;
                    kind = TokenKind::Or;
                } else {
                    kind = TokenKind::Unknown;
                }
            } else if c == '?' {
                pos += 1;
                kind = TokenKind::Question;
            } else if c == '+' {
                pos += 1;
                kind = TokenKind::Plus;
            } else if c == '-' {
                pos += 1;
                kind = TokenKind::Minus;
            } else if c == '*' {
                pos += 1;
                kind = TokenKind::Star;
            } else if c == '/' {
                pos += 1;
                kind = TokenKind::Slash;
            } else if c == '\n' {
                pos += 1;
                kind = TokenKind::Newline;
            } else if c == '.' {
                pos += 1;
                if pos < len && self.input[pos] == '.' {
                    pos += 1;
                    kind = TokenKind::DoubleDot;
                } else {
                    kind = TokenKind::Unknown;
                }
            } else if c == '"' {
                pos += 1;
                while pos < len && self.input[pos] != '"' && self.input[pos] != '\n'
                    invariant
                        s == self.input@,
                        len == s.len(),
                        start < pos <= len,
                        quote_end(s, pos as int) == quote_end(s, start + 1),
                    decreases len - pos,
                {
                    pos += 1;
                }
                if pos < len && self.input[pos] == '"' {
                    pos += 1;
                }
                kind = TokenKind::StringLiteral;
            } else if is_ident_char_exec(c) {
                pos += 1;
                while pos < len && is_ident_char_exec(self.input[pos])
                    invariant
                        s == self.input@,
                        len == s.len(),
                        start < pos <= len,
                        ident_end(s, pos as int) == ident_end(s, start + 1),
                    decreases len - pos,
                {
                    pos += 1;
                }
                kind = TokenKind::Identifier;
            } else {
                pos += 1;
                kind = TokenKind::Unknown;
            }
            assert(next_token(s, start as int) == (kind, pos as int));
            let ghost before = self.tokens@;
            self.tokens.push(Token { kind, start, end: pos });
            proof {
                let t = Token { kind, start, end: pos };
                assert(tokens_from(s, start as int) == seq![t] + tokens_from(s, pos as int));
                assert(self.tokens@ + tokens_from(s, pos as int) == before + tokens_from(
                    s,
                    start as int,
                ));
            }
        }
        self.pos = pos;
        proof {
            assert(tokens_from(s, pos as int) == Seq::<Token>::empty());
            assert(self.tokens@ == self.tokens@ + tokens_from(s, pos as int));
        }
        self.tokens.as_slice()
    }
}

} // verus!
