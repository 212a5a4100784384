use vstd::prelude::*;

use crate::ast::{expr_view, node_view, opt_view, ASTNode, ExprV, Expression, NodeV, VarType, AST};
use crate::condition::{
    condition_of, joined, lemma_skip_blank, lemma_skip_idem, parse_condition, single_operand, skip_blank_back,
    skip_blank_front,
};
use crate::errs::{err_view, ErrV, VarError};
use crate::lexeme::{get_lexeme, is_blank_token, is_numeric_text, lexeme, tokens_fit};
use crate::mathop::{math_of, newline_at, parse1};
use crate::numtext::{all_digits, dec_value, parse_usize};
use crate::placeholders::{placeholder_names, placeholders};
use crate::symtab::VarMap;
use crate::text::{chars_of, string_of};
use crate::token::{lemma_tokens_from, lex, Token, TokenKind, Tokenizer};

verus! {

/// The number of newlines among the first `k` characters of `input`.
pub open spec fn newlines_before(input: Seq<char>, k: int) -> nat
    decreases k,
{
    if k <= 0 {
        0
    } else {
        newlines_before(input, k - 1) + if input[k - 1] == '\n' {
            1nat
        } else {
            0nat
        }
    }
}

proof fn lemma_newlines_before(input: Seq<char>, k: int)
    requires
        0 <= k,
    ensures
        newlines_before(input, k) <= k,
    decreases k,
{
    if k > 0 {
        lemma_newlines_before(input, k - 1);
    }
}

/// The first position of `[a, b)` that holds a token other than `>`, or `b`.
pub open spec fn greater_end(toks: Seq<Token>, a: int, b: int) -> int
    decreases b - a,
{
    if a < b && toks[a].kind == TokenKind::Greater {
        greater_end(toks, a + 1, b)
    } else {
        a
    }
}

/// Where the cursor stands after moving past the next newline from `x`: just after it, or
/// at `b` when there is none.
pub open spec fn consume_from(toks: Seq<Token>, x: int, b: int) -> int {
    if newline_at(toks, x, b) < b {
        newline_at(toks, x, b) + 1
    } else {
        b
    }
}

/// The first position of `[a, b)` that holds a newline or a comment, or `b`.
pub open spec fn text_end(toks: Seq<Token>, a: int, b: int) -> int
    decreases b - a,
{
    if a < b && toks[a].kind != TokenKind::Newline && toks[a].kind != TokenKind::Comment {
        text_end(toks, a + 1, b)
    } else {
        a
    }
}

/// The expression that the rest of a line from `a` on makes, trailing blanks and comment
/// left out: nothing, one operand, or the texts of its tokens joined into a literal.
pub open spec fn line_value(toks: Seq<Token>, input: Seq<char>, a: int, b: int) -> Option<ExprV> {
    let e = text_end(toks, a, b);
    let y = skip_blank_back(toks, input, a, e);
    if a >= y {
        None
    } else if y == a + 1 {
        Some(single_operand(input, toks[a]))
    } else {
        Some(ExprV::Literal(joined(toks, input, a, y)))
    }
}

/// A name made into literal text; anything else as it is.
pub open spec fn as_literal(e: Option<ExprV>) -> Option<ExprV> {
    match e {
        Some(ExprV::Identifier(t)) => Some(ExprV::Literal(t)),
        _ => e,
    }
}

/// `s` without the first and last character when both are `q`.
pub open spec fn strip_pair(s: Seq<char>, q: char) -> Seq<char> {
    if s.len() >= 2 && s[0] == q && s.last() == q {
        s.subrange(1, s.len() - 1)
    } else {
        s
    }
}

/// An initializer as stored for its declared type: quotes stripped from strings and chars.
pub open spec fn stored_value(e: Option<ExprV>, t: VarType) -> Option<ExprV> {
    match e {
        Some(ExprV::Literal(s)) => match t {
            VarType::String => Some(ExprV::Literal(strip_pair(s, '"'))),
            VarType::Char { .. } => Some(ExprV::Literal(strip_pair(s, '\''))),
            _ => e,
        },
        _ => e,
    }
}

/// The names of `names` that `m` does not hold, in order.
pub open spec fn missing(names: Seq<Seq<char>>, m: Map<Seq<char>, (VarType, usize)>) -> Seq<
    Seq<char>,
>
    decreases names.len(),
{
    if names.len() == 0 {
        Seq::empty()
    } else {
        missing(names.drop_last(), m) + if m.contains_key(names.last()) {
            Seq::empty()
        } else {
            seq![names.last()]
        }
    }
}

/// Whether `errs` are exactly one undeclared-variable error for each of `names`, in order,
/// all on line `line`.
pub open spec fn undeclared_errors(errs: Seq<VarError>, names: Seq<Seq<char>>, line: int) -> bool {
    errs.len() == names.len() && forall|j: int|
        0 <= j < errs.len() ==> (#[trigger] errs[j] matches VarError::UndeclaredVariable {
            name,
            line: l,
        } && name@ == names[j] && l == line)
}

/// A use of a name that the symbol table does not hold is exactly one undeclared-variable
/// error, for that name; a use of a declared name is none.
pub proof fn lemma_one_use(x: Seq<char>, m: Map<Seq<char>, (VarType, usize)>, errs: Seq<VarError>, line: int)
    requires
        undeclared_errors(errs, missing(seq![x], m), line),
    ensures
        !m.contains_key(x) ==> errs.len() == 1 && (errs[0] matches VarError::UndeclaredVariable { name, line: l } && name@ == x && l == line),
        m.contains_key(x) ==> errs.len() == 0,
{
    let names = seq![x];
    assert(names.drop_last() =~= Seq::<Seq<char>>::empty());
    assert(missing(names.drop_last(), m) =~= Seq::<Seq<char>>::empty());
    if m.contains_key(x) {
        assert(missing(names, m) =~= Seq::<Seq<char>>::empty());
    } else {
        assert(missing(names, m) =~= seq![x]);
    }
}

/// The placeholders of a print that `m` does not declare.
pub open spec fn print_missing(e: Option<ExprV>, m: Map<Seq<char>, (VarType, usize)>) -> Seq<
    Seq<char>,
> {
    match e {
        Some(ExprV::Literal(t)) => missing(placeholder_names(t, 0), m),
        _ => Seq::empty(),
    }
}

/// The position of the `)` that closes a `(` opened before `a` at depth `d`; -1 when a
/// newline or the end comes first.
pub open spec fn paren_close(toks: Seq<Token>, a: int, b: int, d: int) -> int
    decreases b - a,
{
    if a < 0 || a >= b {
        -1
    } else if toks[a].kind == TokenKind::LSmallB {
        paren_close(toks, a + 1, b, d + 1)
    } else if toks[a].kind == TokenKind::RSmallB {
        if d - 1 == 0 {
            a
        } else {
            paren_close(toks, a + 1, b, d - 1)
        }
    } else if toks[a].kind == TokenKind::Newline {
        -1
    } else {
        paren_close(toks, a + 1, b, d)
    }
}

/// The position of the `}` that closes a `{` opened before `a` at depth `d`; -1 when the end
/// comes first.
pub open spec fn brace_close(toks: Seq<Token>, a: int, b: int, d: int) -> int
    decreases b - a,
{
    if a < 0 || a >= b {
        -1
    } else if toks[a].kind == TokenKind::LCurlyB {
        brace_close(toks, a + 1, b, d + 1)
    } else if toks[a].kind == TokenKind::RCurlyB {
        if d - 1 == 0 {
            a
        } else {
            brace_close(toks, a + 1, b, d - 1)
        }
    } else {
        brace_close(toks, a + 1, b, d)
    }
}

proof fn lemma_paren_close(toks: Seq<Token>, a: int, b: int, d: int)
    requires
        0 <= a,
    ensures
        paren_close(toks, a, b, d) == -1 || a <= paren_close(toks, a, b, d) < b,
    decreases b - a,
{
    if a < b {
        lemma_paren_close(toks, a + 1, b, d + 1);
        lemma_paren_close(toks, a + 1, b, d - 1);
        lemma_paren_close(toks, a + 1, b, d);
    }
}

proof fn lemma_brace_close(toks: Seq<Token>, a: int, b: int, d: int)
    requires
        0 <= a,
    ensures
        brace_close(toks, a, b, d) == -1 || a <= brace_close(toks, a, b, d) < b,
    decreases b - a,
{
    if a < b {
        lemma_brace_close(toks, a + 1, b, d + 1);
        lemma_brace_close(toks, a + 1, b, d - 1);
        lemma_brace_close(toks, a + 1, b, d);
    }
}

/// The state of a parse: the tokens, the text they were cut from, a cursor that runs up to
/// `end`, the symbol table, and the errors found so far.
pub struct ParserState<'a> {
    pub tokens: &'a [Token],
    pub input: &'a [char],
    pub pos: usize,
    pub end: usize,
    pub global_var_map: VarMap,
    pub errors: Vec<VarError>,
    pub global_pos: usize,
}

impl<'a> ParserState<'a> {
    pub open spec fn wf(&self) -> bool {
        &&& self.pos <= self.end <= self.tokens@.len()
        &&& tokens_fit(self.tokens@, self.input@.len() as int)
        &&& self.input@.len() < usize::MAX
    }

    /// The 0-based line of token `p`.
    pub open spec fn line_of(&self, p: int) -> int {
        if 0 <= p < self.tokens@.len() {
            newlines_before(self.input@, self.tokens@[p].start as int) as int
        } else {
            0
        }
    }

    /// Whether only the cursor moved between `self` and `other`.
    pub open spec fn same_but_pos(&self, other: &Self) -> bool {
        &&& self.tokens == other.tokens
        &&& self.input == other.input
        &&& self.end == other.end
        &&& self.global_var_map == other.global_var_map
        &&& self.errors == other.errors
        &&& self.global_pos == other.global_pos
    }

    /// Whether the cursor and the errors are all that may differ between `self` and `other`.
    pub open spec fn same_frame(&self, other: &Self) -> bool {
        &&& self.tokens == other.tokens
        &&& self.input == other.input
        &&& self.end == other.end
    }

    fn current_token(&self) -> (r: Option<&Token>)
        requires
            self.wf(),
        ensures
            r is None <==> self.pos >= self.end,
            r matches Some(t) ==> *t == self.tokens@[self.pos as int],
    {
        if self.pos < self.end {
            Some(&self.tokens[self.pos])
        } else {
            None
        }
    }

    fn peek_token(&self, n: usize) -> (r: Option<&Token>)
        requires
            self.wf(),
        ensures
            r is None <==> self.pos + n >= self.end,
            r matches Some(t) ==> *t == self.tokens@[self.pos + n],
    {
        if n < self.end - self.pos {
            Some(&self.tokens[self.pos + n])
        } else {
            None
        }
    }

    /// Moves the cursor past the blank tokens.
    fn skip_whitespace(&mut self)
        requires
            old(self).wf(),
        ensures
            final(self).wf(),
            final(self).same_but_pos(old(self)),
            old(self).pos <= final(self).pos,
            final(self).pos == skip_blank_front(
                old(self).tokens@,
                old(self).input@,
                old(self).pos as int,
                old(self).end as int,
            ),
    {
        while self.pos < self.end && is_blank_token(&self.tokens[self.pos], self.input)
            invariant
                self.wf(),
                self.same_but_pos(old(self)),
                old(self).pos <= self.pos,
                skip_blank_front(self.tokens@, self.input@, self.pos as int, self.end as int)
                    == skip_blank_front(
                    old(self).tokens@,
                    old(self).input@,
                    old(self).pos as int,
                    old(self).end as int,
                ),
            decreases self.end - self.pos,
        {
            self.pos += 1;
        }
    }

    /// The number of `>` tokens in a row from the cursor on.
    fn count_consecutive_greater(&self) -> (r: usize)
        requires
            self.wf(),
        ensures
            r == greater_end(self.tokens@, self.pos as int, self.end as int) - self.pos,
            self.pos + r <= self.end,
            self.pos < self.end && self.tokens@[self.pos as int].kind == TokenKind::Greater ==> r
                >= 1,
    {
        let mut p = self.pos;
        while p < self.end && self.tokens[p].kind == TokenKind::Greater
            invariant
                self.wf(),
                self.pos <= p <= self.end,
                greater_end(self.tokens@, p as int, self.end as int) == greater_end(
                    self.tokens@,
                    self.pos as int,
                    self.end as int,
                ),
            decreases self.end - p,
        {
            p += 1;
        }
        p - self.pos
    }

    /// Moves the cursor past the next newline.
    fn consume_until_newline(&mut self)
        requires
            old(self).wf(),
        ensures
            final(self).wf(),
            final(self).same_but_pos(old(self)),
            old(self).pos <= final(self).pos,
            final(self).pos == if newline_at(
                old(self).tokens@,
                old(self).pos as int,
                old(self).end as int,
            ) < old(self).end {
                newline_at(old(self).tokens@, old(self).pos as int, old(self).end as int) + 1
            } else {
                old(self).end as int
            },
    {
        while self.pos < self.end && self.tokens[self.pos].kind != TokenKind::Newline
            invariant
                self.wf(),
                self.same_but_pos(old(self)),
                old(self).pos <= self.pos,
                newline_at(self.tokens@, self.pos as int, self.end as int) == newline_at(
                    old(self).tokens@,
                    old(self).pos as int,
                    old(self).end as int,
                ),
            decreases self.end - self.pos,
        {
            self.pos += 1;
        }
        if self.pos < self.end {
            self.pos += 1;
        }
    }

    /// The expression that the rest of the line makes (see `line_value`); the cursor stops
    /// at the newline or comment that ends it.
    fn parse_expression_until_newline(&mut self) -> (r: Option<Expression>)
        requires
            old(self).wf(),
        ensures
            final(self).wf(),
            final(self).same_but_pos(old(self)),
            old(self).pos <= final(self).pos,
            ({
                let a = skip_blank_front(
                    old(self).tokens@,
                    old(self).input@,
                    old(self).pos as int,
                    old(self).end as int,
                );
                &&& opt_view(r) == line_value(
                    old(self).tokens@,
                    old(self).input@,
                    a,
                    old(self).end as int,
                )
                &&& final(self).pos == text_end(old(self).tokens@, a, old(self).end as int)
            }),
    {
        self.skip_whitespace();
        let a = self.pos;
        let mut e = a;
        while e < self.end && self.tokens[e].kind != TokenKind::Newline && self.tokens[e].kind
            != TokenKind::Comment
            invariant
                self.wf(),
                a <= e <= self.end,
                text_end(self.tokens@, e as int, self.end as int) == text_end(
                    self.tokens@,
                    a as int,
                    self.end as int,
                ),
            decreases self.end - e,
        {
            e += 1;
        }
        let mut y = e;
        while y > a && is_blank_token(&self.tokens[y - 1], self.input)
            invariant
                self.wf(),
                a <= y <= e <= self.end,
                skip_blank_back(self.tokens@, self.input@, a as int, y as int) == skip_blank_back(
                    self.tokens@,
                    self.input@,
                    a as int,
                    e as int,
                ),
            decreases y - a,
        {
            y -= 1;
        }
        self.pos = e;
        if a >= y {
            return None;
        }
        let first = &self.tokens[a];
        if y == a + 1 {
            let lex = get_lexeme(first, self.input);
            if first.kind == TokenKind::Identifier && !is_numeric_text(
                self.input,
                first.start,
                first.end,
            ) {
                return Some(Expression::Identifier(lex));
            } else {
                return Some(Expression::Literal(lex));
            }
        }
        let mut value = String::new();
        let mut k = a;
        assert(value@ =~= joined(self.tokens@, self.input@, a as int, a as int));
        while k < y
            invariant
                self.wf(),
                a <= k <= y <= self.end,
                value@ == joined(self.tokens@, self.input@, a as int, k as int),
            decreases y - k,
        {
            let piece = get_lexeme(&self.tokens[k], self.input);
            value.append(piece.as_str());
            k += 1;
        }
        Some(Expression::Literal(value))
    }

    /// Records an undeclared-variable error for `name` unless the symbol table holds it.
    fn check_declared(&mut self, name: &String, line: usize)
        requires
            old(self).wf(),
        ensures
            final(self).wf(),
            final(self).same_frame(old(self)),
            final(self).pos == old(self).pos,
            final(self).global_var_map == old(self).global_var_map,
            final(self).errors@.subrange(0, old(self).errors@.len() as int) == old(self).errors@,
            old(self).errors@.len() <= final(self).errors@.len(),
            undeclared_errors(
                final(self).errors@.subrange(
                    old(self).errors@.len() as int,
                    final(self).errors@.len() as int,
                ),
                missing(seq![name@], old(self).global_var_map@),
                line as int,
            ),
    {
        let ghost names = seq![name@];
        assert(names.drop_last() =~= Seq::<Seq<char>>::empty());
        assert(names.last() == name@);
        assert(missing(names.drop_last(), old(self).global_var_map@) =~= Seq::<Seq<char>>::empty());
        if !self.global_var_map.contains_key(name) {
            self.errors.push(VarError::UndeclaredVariable { name: name.clone(), line });
            assert(missing(names, old(self).global_var_map@) =~= seq![name@]);
        } else {
            assert(missing(names, old(self).global_var_map@) =~= Seq::<Seq<char>>::empty());
        }
    }

    /// Records an undeclared-variable error for each placeholder of `lit` that the symbol
    /// table does not hold, in order.
    fn check_placeholders(&mut self, lit: &String, line: usize)
        requires
            old(self).wf(),
        ensures
            final(self).wf(),
            final(self).same_frame(old(self)),
            final(self).pos == old(self).pos,
            final(self).global_var_map == old(self).global_var_map,
            final(self).errors@.subrange(0, old(self).errors@.len() as int) == old(self).errors@,
            old(self).errors@.len() <= final(self).errors@.len(),
            undeclared_errors(
                final(self).errors@.subrange(
                    old(self).errors@.len() as int,
                    final(self).errors@.len() as int,
                ),
                missing(placeholder_names(lit@, 0), old(self).global_var_map@),
                line as int,
            ),
    {
        let names = placeholders(lit);
        let ghost ph = placeholder_names(lit@, 0);
        let ghost m = old(self).global_var_map@;
        let ghost n0 = old(self).errors@.len() as int;
        let mut k: usize = 0;
        assert(ph.subrange(0, 0) =~= Seq::<Seq<char>>::empty());
        assert(self.errors@.subrange(0, n0) == old(self).errors@);
        assert(self.errors@.subrange(n0, self.errors@.len() as int) =~= Seq::<VarError>::empty());
        while k < names.len()
            invariant
                self.wf(),
                self.same_frame(old(self)),
                self.pos == old(self).pos,
                self.global_var_map == old(self).global_var_map,
                m == self.global_var_map@,
                n0 == old(self).errors@.len(),
                k <= names@.len(),
                names@.map_values(|x: String| x@) == ph,
                self.errors@.subrange(0, n0) == old(self).errors@,
                n0 <= self.errors@.len(),
                undeclared_errors(
                    self.errors@.subrange(n0, self.errors@.len() as int),
                    missing(ph.subrange(0, k as int), m),
                    line as int,
                ),
            decreases names@.len() - k,
        {
            let ghost before = self.errors@;
            let ghost pre = ph.subrange(0, k as int);
            assert(ph.subrange(0, k + 1).drop_last() == pre);
            assert(ph.subrange(0, k + 1).last() == names@[k as int]@);
            if !self.global_var_map.contains_key(&names[k]) {
                self.errors.push(VarError::UndeclaredVariable { name: names[k].clone(), line });
                assert(self.errors@.subrange(0, n0) =~= before.subrange(0, n0));
                assert(self.errors@.subrange(n0, self.errors@.len() as int) =~= before.subrange(
                    n0,
                    before.len() as int,
                ).push(self.errors@.last()));
            }
            k += 1;
        }
        assert(names@.len() == ph.len());
        assert(ph.subrange(0, ph.len() as int) == ph);
    }

    /// The 1-based line of token `pos`, or 0 when there is no such token.
    pub fn get_line_number(&self, pos: usize) -> (r: usize)
        requires
            self.wf(),
        ensures
            r == if pos < self.tokens@.len() {
                self.line_of(pos as int) + 1
            } else {
                0
            },
    {
        if pos >= self.tokens.len() {
            return 0;
        }
        let start = self.tokens[pos].start;
        let mut line_count: usize = 0;
        let mut i: usize = 0;
        while i < start
            invariant
                self.wf(),
                pos < self.tokens@.len(),
                start == self.tokens@[pos as int].start,
                start <= self.input@.len(),
                i <= start,
                line_count == newlines_before(self.input@, i as int),
            decreases start - i,
        {
            proof {
                lemma_newlines_before(self.input@, i + 1);
            }
            if self.input[i] == '\n' {
                line_count += 1;
            }
            i += 1;
        }
        proof {
            lemma_newlines_before(self.input@, start as int);
        }
        line_count + 1
    }

    /// The 0-based line of token `pos`.
    fn line_at(&self, pos: usize) -> (r: usize)
        requires
            self.wf(),
            pos < self.tokens@.len(),
        ensures
            r == self.line_of(pos as int),
    {
        self.get_line_number(pos) - 1
    }
}


/// The errors for the undeclared names `names`, all on line `line`.
pub open spec fn undeclared_seq(names: Seq<Seq<char>>, line: int) -> Seq<ErrV> {
    Seq::new(names.len(), |j: int| ErrV::UndeclaredVariable { name: names[j], line: line as usize })
}

pub proof fn lemma_undeclared_view(errs: Seq<VarError>, names: Seq<Seq<char>>, line: int)
    requires
        undeclared_errors(errs, names, line),
        0 <= line <= usize::MAX,
    ensures
        errs.map_values(|e: VarError| err_view(e)) == undeclared_seq(names, line),
{
    assert(errs.map_values(|e: VarError| err_view(e)) =~= undeclared_seq(names, line));
}

pub open spec fn opt_node_view(o: Option<ASTNode>) -> Option<NodeV> {
    match o {
        Some(n) => Some(node_view(n)),
        None => None,
    }
}

pub open spec fn math_target(n: NodeV) -> Seq<char> {
    match n {
        NodeV::MathOp { name, .. } => name,
        _ => Seq::empty(),
    }
}

/// What parsing one statement gives: the statement, if any, where the cursor stands after
/// it, the symbol table, and the errors found.
pub struct StmtRes {
    pub node: Option<NodeV>,
    pub pos: int,
    pub map: Map<Seq<char>, (VarType, usize)>,
    pub errs: Seq<ErrV>,
}

/// What parsing a run of statements gives: the statements, the symbol table, the errors.
pub struct BlockRes {
    pub nodes: Seq<NodeV>,
    pub map: Map<Seq<char>, (VarType, usize)>,
    pub errs: Seq<ErrV>,
}

pub open spec fn cond_fail(m: Map<Seq<char>, (VarType, usize)>, pos: int, e: ErrV) -> StmtRes {
    StmtRes { node: None, pos, map: m, errs: seq![e] }
}

/// The statement at `p` (after blank tokens) in the tokens `[p, b)`, with symbol table `m`:
/// `@` a declaration, `..` or one `>` an input, two or three `>` a print, `*` a math
/// statement, `?` a conditional. A statement that cannot be read gives nothing and leaves
/// the cursor at its first token, except a malformed conditional, which records its error
/// and is skipped to the end of its line.
pub open spec fn stmt_spec(toks: Seq<Token>, inp: Seq<char>, p: int, b: int, m: Map<Seq<char>, (VarType, usize)>) -> StmtRes
    decreases b - p, 0int,
    via stmt_spec_decreases
{
    let a = skip_blank_front(toks, inp, p, b);
    let fail = StmtRes { node: None, pos: a, map: m, errs: Seq::empty() };
    if p < 0 || a >= b {
        fail
    } else {
        let k = toks[a].kind;
        let line = newlines_before(inp, toks[a].start as int) as int;
        let g = greater_end(toks, a, b);
        let q = skip_blank_front(toks, inp, a + 1, b);
        if k == TokenKind::At {
            match decl_head(toks, inp, a, b) {
                Some((mu, name, ty, a2)) => StmtRes {
                    node: Some(NodeV::VarDeclaration { mutable: mu, name, var_type: ty, value: stored_value(line_value(toks, inp, a2, b), ty) }),
                    pos: consume_from(toks, text_end(toks, a2, b), b),
                    map: m.insert(name, (ty, 0usize)),
                    errs: Seq::empty(),
                },
                None => fail,
            }
        } else if k == TokenKind::DoubleDot || (k == TokenKind::Greater && g == a + 1) {
            if q < b && toks[q].kind == TokenKind::Identifier {
                let name = lexeme(inp, toks[q]);
                StmtRes {
                    node: Some(NodeV::Input { name }),
                    pos: consume_from(toks, q + 1, b),
                    map: m,
                    errs: undeclared_seq(missing(seq![name], m), line),
                }
            } else {
                fail
            }
        } else if k == TokenKind::Star {
            match math_of(toks, inp, a + 1, b) {
                Some(n) => StmtRes {
                    node: Some(n),
                    pos: consume_from(toks, a + 1, b),
                    map: m,
                    errs: undeclared_seq(missing(seq![math_target(n)], m), line),
                },
                None => fail,
            }
        } else if k == TokenKind::Greater {
            let st = skip_blank_front(toks, inp, g, b);
            let e = as_literal(line_value(toks, inp, st, b));
            StmtRes {
                node: Some(NodeV::Print { to_stderr: g == a + 3, expr: e }),
                pos: consume_from(toks, text_end(toks, st, b), b),
                map: m,
                errs: undeclared_seq(print_missing(e, m), line),
            }
        } else if k == TokenKind::Question {
            let c = paren_close(toks, q + 1, b, 1);
            let kk = skip_blank_front(toks, inp, c + 1, b);
            let close = brace_close(toks, kk + 1, b, 1);
            let resync = consume_from(toks, a, b);
            if !(q < b && toks[q].kind == TokenKind::LSmallB) {
                cond_fail(m, resync, ErrV::MissingConditionOpenParen { line: line as usize })
            } else if c < 0 {
                cond_fail(m, resync, ErrV::MissingConditionCloseParen { line: line as usize })
            } else if condition_of(toks, inp, q + 1, c) is Err {
                cond_fail(m, resync, ErrV::InvalidCondition { details: condition_of(toks, inp, q + 1, c)->Err_0, line: line as usize })
            } else if !(kk < b && toks[kk].kind == TokenKind::LCurlyB) {
                cond_fail(m, resync, ErrV::MissingBlockOpenBrace { line: line as usize })
            } else if close < 0 {
                cond_fail(m, resync, ErrV::UnmatchedClosingBrace { line: line as usize })
            } else {
                let body = block_spec(toks, inp, kk + 1, close, m);
                StmtRes {
                    node: Some(NodeV::If { condition: condition_of(toks, inp, q + 1, c)->Ok_0, body: body.nodes }),
                    pos: close + 1,
                    map: body.map,
                    errs: body.errs,
                }
            }
        } else {
            fail
        }
    }
}

#[via_fn]
proof fn stmt_spec_decreases(toks: Seq<Token>, inp: Seq<char>, p: int, b: int, m: Map<Seq<char>, (VarType, usize)>) {
    if 0 <= p && p <= b {
        lemma_skip_blank(toks, inp, p, b);
        let a = skip_blank_front(toks, inp, p, b);
        if a < b {
            lemma_skip_blank(toks, inp, a + 1, b);
            let q = skip_blank_front(toks, inp, a + 1, b);
            lemma_paren_close(toks, q + 1, b, 1);
            let c = paren_close(toks, q + 1, b, 1);
            if c >= 0 {
                lemma_skip_blank(toks, inp, c + 1, b);
                let kk = skip_blank_front(toks, inp, c + 1, b);
                lemma_brace_close(toks, kk + 1, b, 1);
            }
        }
    }
}

/// The statements of the tokens `[p, b)` with symbol table `m`, in order. Where no
/// statement can be read, reading goes on past what was consumed, at least one token.
pub open spec fn block_spec(toks: Seq<Token>, inp: Seq<char>, p: int, b: int, m: Map<Seq<char>, (VarType, usize)>) -> BlockRes
    decreases b - p, 1int,
{
    if p < 0 || p >= b {
        BlockRes { nodes: Seq::empty(), map: m, errs: Seq::empty() }
    } else {
        let r = stmt_spec(toks, inp, p, b, m);
        let nx = if r.pos > p && r.pos <= b {
            r.pos
        } else {
            p + 1
        };
        let rest = block_spec(toks, inp, nx, b, r.map);
        BlockRes {
            nodes: (match r.node {
                Some(n) => seq![n],
                None => Seq::empty(),
            }) + rest.nodes,
            map: rest.map,
            errs: r.errs + rest.errs,
        }
    }
}

/// The type that a type keyword names, for the keywords without a size.
pub open spec fn plain_type_of(lex: Seq<char>) -> Option<VarType> {
    if lex == "i"@ {
        Some(VarType::Int)
    } else if lex == "str"@ {
        Some(VarType::String)
    } else if lex == "f"@ {
        Some(VarType::Float)
    } else {
        None
    }
}

/// The size that a char type's size token gives: its decimal value, or 1 when it is not a
/// number that fits.
pub open spec fn size_of_text(lex: Seq<char>) -> usize {
    if lex.len() > 0 && all_digits(lex) && dec_value(lex) <= usize::MAX {
        dec_value(lex) as usize
    } else {
        1
    }
}

/// The type written from token `t` on, and the position after it; `None` when no type is
/// written there.
pub open spec fn type_at(toks: Seq<Token>, input: Seq<char>, t: int, b: int) -> Option<(VarType, int)> {
    let lex = lexeme(input, toks[t]);
    if t >= b {
        None
    } else if plain_type_of(lex) is Some {
        Some((plain_type_of(lex)->0, t + 1))
    } else if lex == "c"@ {
        let o = skip_blank_front(toks, input, t + 1, b);
        let z = skip_blank_front(toks, input, o + 1, b);
        let c = skip_blank_front(toks, input, z + 1, b);
        if o < b && toks[o].kind == TokenKind::LBigB && z < b && c < b && toks[c].kind
            == TokenKind::RBigB {
            Some((VarType::Char { size: size_of_text(lexeme(input, toks[z])) }, c + 1))
        } else {
            None
        }
    } else {
        None
    }
}

/// The head of a declaration whose `@` is at `p`: whether it is mutable, its name, its type,
/// and where its initializer may start; `None` when the head is malformed.
pub open spec fn decl_head(toks: Seq<Token>, input: Seq<char>, p: int, b: int) -> Option<(bool, Seq<char>, VarType, int)> {
    let mutable = p + 1 < b && toks[p + 1].kind == TokenKind::At;
    let n = skip_blank_front(toks, input, if mutable { p + 2 } else { p + 1 }, b);
    let t = skip_blank_front(toks, input, n + 1, b);
    if n >= b || toks[n].kind != TokenKind::Identifier {
        None
    } else {
        match type_at(toks, input, t, b) {
            Some((ty, e)) => Some((mutable, lexeme(input, toks[n]), ty, skip_blank_front(toks, input, e, b))),
            None => None,
        }
    }
}

impl<'a> ParserState<'a> {
    /// The type at the cursor, after blank tokens (see `type_at`); the cursor moves past it.
    fn parse_type(&mut self) -> (r: Option<VarType>)
        requires
            old(self).wf(),
        ensures
            final(self).wf(),
            final(self).same_but_pos(old(self)),
            old(self).pos <= final(self).pos,
            ({
                let t = skip_blank_front(old(self).tokens@, old(self).input@, old(self).pos as int, old(self).end as int);
                let x = type_at(old(self).tokens@, old(self).input@, t, old(self).end as int);
                &&& r is None <==> x is None
                &&& r matches Some(v) ==> v == (x->0).0 && final(self).pos == (x->0).1
            }),
    {
        self.skip_whitespace();
        let t = self.pos;
        let type_token = match self.current_token() {
            Some(tk) => tk,
            None => {
                return None;
            },
        };
        let type_lex = get_lexeme(type_token, self.input);
        if type_lex == String::from_str("i") {
            self.pos += 1;
            return Some(VarType::Int);
        } else if type_lex == String::from_str("str") {
            self.pos += 1;
            return Some(VarType::String);
        } else if type_lex == String::from_str("f") {
            self.pos += 1;
            return Some(VarType::Float);
        } else if type_lex == String::from_str("c") {
            proof {
                reveal_strlit("c");
                reveal_strlit("i");
                reveal_strlit("str");
                reveal_strlit("f");
                assert("c"@ != "i"@ && "c"@ != "f"@);
                assert("c"@.len() == 1 && "str"@.len() == 3);
            }
            self.pos += 1;
            proof {
                lemma_skip_blank(self.tokens@, self.input@, self.pos as int, self.end as int);
            }
            self.skip_whitespace();
            match self.current_token() {
                Some(open) => {
                    if open.kind != TokenKind::LBigB {
                        return None;
                    }
                },
                None => {
                    return None;
                },
            }
            self.pos += 1;
            self.skip_whitespace();
            let size_token = match self.current_token() {
                Some(tk) => tk,
                None => {
                    return None;
                },
            };
            let size_chars = chars_of(get_lexeme(size_token, self.input).as_str());
            let size: usize = match parse_usize(&size_chars) {
                Some(v) => v,
                None => 1,
            };
            self.pos += 1;
            self.skip_whitespace();
            match self.current_token() {
                Some(close) => {
                    if close.kind != TokenKind::RBigB {
                        return None;
                    }
                },
                None => {
                    return None;
                },
            }
            self.pos += 1;
            return Some(VarType::Char { size });
        } else {
            return None;
        }
    }

    /// `@ [@] name type [value]`, with the cursor on the first `@`. The name is entered in
    /// the symbol table before the initializer is read.
    pub fn parse_var_declaration(&mut self) -> (r: Option<ASTNode>)
        requires
            old(self).wf(),
            old(self).pos < old(self).end,
            old(self).tokens@[old(self).pos as int].kind == TokenKind::At,
        ensures
            final(self).wf(),
            final(self).same_frame(old(self)),
            final(self).errors == old(self).errors,
            old(self).pos < final(self).pos,
            r is None ==> final(self).global_var_map == old(self).global_var_map,
            r is None <==> decl_head(old(self).tokens@, old(self).input@, old(self).pos as int, old(self).end as int) is None,
            r is Some ==> final(self).pos == consume_from(old(self).tokens@, text_end(old(self).tokens@, (decl_head(old(self).tokens@, old(self).input@, old(self).pos as int, old(self).end as int)->0).3, old(self).end as int), old(self).end as int),
            r matches Some(n) ==> (n matches ASTNode::VarDeclaration { mutable, name, var_type, value } && final(self).global_var_map@ == old(self).global_var_map@.insert(name@, (var_type, 0usize))
                && ({
                    let h = decl_head(old(self).tokens@, old(self).input@, old(self).pos as int, old(self).end as int)->0;
                    &&& h.0 == mutable && h.1 == name@ && h.2 == var_type
                    &&& opt_view(value) == stored_value(line_value(old(self).tokens@, old(self).input@, h.3, old(self).end as int), var_type)
                })),
    {
        let ghost toks = self.tokens@;
        let ghost inp = self.input@;
        let ghost b = self.end as int;
        let ghost p0 = self.pos as int;
        let mut mutable = false;
        if let Some(next) = self.peek_token(1) {
            if next.kind == TokenKind::At {
                mutable = true;
                self.pos += 1;
            }
        }
        self.pos += 1;
        assert(mutable == (p0 + 1 < b && toks[p0 + 1].kind == TokenKind::At));
        assert(self.pos as int == if mutable { p0 + 2 } else { p0 + 1 });
        self.skip_whitespace();
        let ghost n = self.pos as int;
        let name_token = match self.current_token() {
            Some(t) => t,
            None => {
                return None;
            },
        };
        if name_token.kind != TokenKind::Identifier {
            return None;
        }
        let name = get_lexeme(name_token, self.input);
        self.pos += 1;
        let var_type = match self.parse_type() {
            Some(t) => t,
            None => {
                return None;
            },
        };
        let ghost e = self.pos as int;
        self.skip_whitespace();
        proof {
            lemma_skip_idem(toks, inp, e, b);
        }
        assert(decl_head(toks, inp, p0, b) == Some((mutable, name@, var_type, self.pos as int)));
        self.global_var_map.insert(name.clone(), (var_type, 0));
        let value = self.parse_expression_until_newline();
        let value = match value {
            Some(Expression::Literal(lit)) => {
                let q: char = match var_type {
                    VarType::String => '"',
                    VarType::Char { .. } => '\'',
                    _ => ' ',
                };
                if q != ' ' {
                    let cs = chars_of(lit.as_str());
                    if cs.len() >= 2 && cs[0] == q && cs[cs.len() - 1] == q {
                        Some(Expression::Literal(string_of(cs.as_slice(), 1, cs.len() - 1)))
                    } else {
                        Some(Expression::Literal(lit))
                    }
                } else {
                    Some(Expression::Literal(lit))
                }
            },
            other => other,
        };
        self.consume_until_newline();
        Some(ASTNode::VarDeclaration { mutable, name, var_type, value })
    }

    /// An input statement: the cursor is on its marker (`..` or a single `>`), which is
    /// followed by the name of the variable to read.
    pub fn parse_input(&mut self) -> (r: Option<ASTNode>)
        requires
            old(self).wf(),
            old(self).pos < old(self).end,
        ensures
            final(self).wf(),
            final(self).same_frame(old(self)),
            final(self).global_var_map == old(self).global_var_map,
            old(self).pos < final(self).pos,
            r is None ==> final(self).errors == old(self).errors,
            ({
                let q = skip_blank_front(old(self).tokens@, old(self).input@, old(self).pos + 1, old(self).end as int);
                &&& r is None <==> !(q < old(self).end && old(self).tokens@[q].kind == TokenKind::Identifier)
                &&& r matches Some(ASTNode::Input { name }) ==> name@ == lexeme(old(self).input@, old(self).tokens@[q])
                &&& r is Some ==> final(self).pos == consume_from(old(self).tokens@, q + 1, old(self).end as int)
            }),
            r matches Some(n) ==> (n matches ASTNode::Input { name } && final(self).errors@.subrange(
                0,
                old(self).errors@.len() as int,
            ) == old(self).errors@ && undeclared_errors(
                final(self).errors@.subrange(
                    old(self).errors@.len() as int,
                    final(self).errors@.len() as int,
                ),
                missing(seq![name@], old(self).global_var_map@),
                old(self).line_of(old(self).pos as int),
            )),
            old(self).errors@.len() <= final(self).errors@.len(),
    {
        let line = self.line_at(self.pos);
        self.pos += 1;
        self.skip_whitespace();
        let name = match self.current_token() {
            Some(t) => {
                if t.kind != TokenKind::Identifier {
                    return None;
                }
                get_lexeme(t, self.input)
            },
            None => {
                return None;
            },
        };
        self.pos += 1;
        self.consume_until_newline();
        self.check_declared(&name, line);
        Some(ASTNode::Input { name })
    }

    /// A print statement: `count` `>` tokens, three meaning standard error, then the rest of
    /// the line as literal text (see `line_value`).
    pub fn parse_print(&mut self, count: usize) -> (r: Option<ASTNode>)
        requires
            old(self).wf(),
            old(self).pos + count <= old(self).end,
            count >= 1,
        ensures
            final(self).wf(),
            final(self).same_frame(old(self)),
            final(self).global_var_map == old(self).global_var_map,
            old(self).pos < final(self).pos,
            final(self).pos == consume_from(old(self).tokens@, text_end(old(self).tokens@, skip_blank_front(old(self).tokens@, old(self).input@, old(self).pos + count, old(self).end as int), old(self).end as int), old(self).end as int),
            r matches Some(n) && (n matches ASTNode::Print { to_stderr, expr } && to_stderr == (
            count == 3) && opt_view(expr) == as_literal(
                line_value(
                    old(self).tokens@,
                    old(self).input@,
                    skip_blank_front(
                        old(self).tokens@,
                        old(self).input@,
                        old(self).pos + count,
                        old(self).end as int,
                    ),
                    old(self).end as int,
                ),
            ) && final(self).errors@.subrange(0, old(self).errors@.len() as int)
                == old(self).errors@ && undeclared_errors(
                final(self).errors@.subrange(
                    old(self).errors@.len() as int,
                    final(self).errors@.len() as int,
                ),
                print_missing(opt_view(expr), old(self).global_var_map@),
                old(self).line_of(old(self).pos as int),
            )),
            old(self).errors@.len() <= final(self).errors@.len(),
    {
        let line = self.line_at(self.pos);
        let to_stderr = count == 3;
        self.pos += count;
        let expr = self.parse_expression_until_newline();
        self.consume_until_newline();
        let expr = match expr {
            Some(Expression::Identifier(t)) => Some(Expression::Literal(t)),
            other => other,
        };
        match &expr {
            Some(Expression::Literal(lit)) => {
                self.check_placeholders(lit, line);
            },
            _ => {
                assert(self.errors@.subrange(0, self.errors@.len() as int) == self.errors@);
                assert(self.errors@.subrange(self.errors@.len() as int, self.errors@.len() as int)
                    =~= Seq::<VarError>::empty());
            },
        }
        Some(ASTNode::Print { to_stderr, expr })
    }

    /// A math statement: `*` with the cursor on it, then the name, the operator and the
    /// operand (see `math_of`).
    pub fn parse_math(&mut self) -> (r: Option<ASTNode>)
        requires
            old(self).wf(),
            old(self).pos < old(self).end,
        ensures
            final(self).wf(),
            final(self).same_frame(old(self)),
            final(self).global_var_map == old(self).global_var_map,
            old(self).pos < final(self).pos,
            r is None ==> final(self).errors == old(self).errors,
            r is None <==> math_of(old(self).tokens@, old(self).input@, old(self).pos + 1, old(self).end as int) is None,
            r is Some ==> final(self).pos == consume_from(old(self).tokens@, old(self).pos + 1, old(self).end as int),
            r matches Some(n) ==> Some(node_view(n)) == math_of(
                old(self).tokens@,
                old(self).input@,
                old(self).pos + 1,
                old(self).end as int,
            ),
            r matches Some(n) ==> (n matches ASTNode::MathOp { name, .. } && final(self).errors@.subrange(
                0,
                old(self).errors@.len() as int,
            ) == old(self).errors@ && undeclared_errors(
                final(self).errors@.subrange(
                    old(self).errors@.len() as int,
                    final(self).errors@.len() as int,
                ),
                missing(seq![name@], old(self).global_var_map@),
                old(self).line_of(old(self).pos as int),
            )),
            old(self).errors@.len() <= final(self).errors@.len(),
    {
        let line = self.line_at(self.pos);
        self.pos += 1;
        match parse1(self.tokens, self.pos, self.end, self.input) {
            Some(node) => {
                self.consume_until_newline();
                if let ASTNode::MathOp { name, .. } = &node {
                    self.check_declared(name, line);
                }
                Some(node)
            },
            None => None,
        }
    }
}


impl<'a> ParserState<'a> {
    /// Parses the statement at the cursor, after blank tokens: `@` starts a declaration, `..`
    /// or a single `>` an input, two or three `>` a print (three to standard error), `*` a
    /// math statement, `?` a conditional. `None` when the token there starts no statement or
    /// the statement is malformed; the cursor then stands on that token, and a caller moves
    /// on by one token. A malformed conditional records its error and is skipped up to the
    /// end of its line. The result is exactly `stmt_spec`.
    pub fn parse_statement(&mut self) -> (r: Option<ASTNode>)
        requires
            old(self).wf(),
        ensures
            final(self).wf(),
            final(self).same_frame(old(self)),
            old(self).pos <= final(self).pos,
            r is Some ==> old(self).pos < final(self).pos,
            final(self).errors@.subrange(0, old(self).errors@.len() as int) == old(self).errors@,
            old(self).errors@.len() <= final(self).errors@.len(),
            forall|k: Seq<char>| #[trigger] old(self).global_var_map@.contains_key(k) ==> final(self).global_var_map@.contains_key(k),
            r matches Some(ASTNode::VarDeclaration { name, .. }) ==> final(self).global_var_map@.contains_key(name@),
            ({
                let toks = old(self).tokens@;
                let b = old(self).end as int;
                let a = skip_blank_front(toks, old(self).input@, old(self).pos as int, b);
                let k = toks[a].kind;
                &&& a >= b ==> r is None
                &&& a < b && k == TokenKind::At ==> (r is None || r->0 is VarDeclaration)
                &&& a < b && k == TokenKind::DoubleDot ==> (r is None || r->0 is Input)
                &&& a < b && k == TokenKind::Star ==> (r is None || r->0 is MathOp)
                &&& a < b && k == TokenKind::Question ==> (r is None || r->0 is If)
                &&& a < b && k == TokenKind::Greater && greater_end(toks, a, b) == a + 1 ==> (r is None
                    || r->0 is Input)
                &&& a < b && k == TokenKind::Greater && greater_end(toks, a, b) > a + 1 ==> (r matches Some(ASTNode::Print { to_stderr, .. }) && to_stderr == (greater_end(toks, a, b) == a + 3))
                &&& a < b && !(k == TokenKind::At || k == TokenKind::DoubleDot || k == TokenKind::Star || k
                    == TokenKind::Question || k == TokenKind::Greater) ==> r is None
            }),
            ({
                let toks = old(self).tokens@;
                let inp = old(self).input@;
                let b = old(self).end as int;
                let a = skip_blank_front(toks, inp, old(self).pos as int, b);
                let k = toks[a].kind;
                let m = old(self).global_var_map@;
                let n0 = old(self).errors@.len() as int;
                let new_errs = final(self).errors@.subrange(n0, final(self).errors@.len() as int);
                let line = newlines_before(inp, toks[a].start as int) as int;
                let h = decl_head(toks, inp, a, b);
                let q = skip_blank_front(toks, inp, a + 1, b);
                let g = greater_end(toks, a, b);
                let is_input = k == TokenKind::DoubleDot || (k == TokenKind::Greater && g == a + 1);
                &&& a < b && k == TokenKind::At ==> (r is None <==> h is None)
                &&& a < b && k == TokenKind::At ==> (r matches Some(ASTNode::VarDeclaration { mutable, name, var_type, value }) ==> ((h->0).0 == mutable && (h->0).1 == name@ && (h->0).2 == var_type && opt_view(value) == stored_value(line_value(toks, inp, (h->0).3, b), var_type)))
                &&& a < b && is_input ==> (r is None <==> !(q < b && toks[q].kind == TokenKind::Identifier))
                &&& a < b && is_input ==> (r matches Some(ASTNode::Input { name }) ==> (name@ == lexeme(inp, toks[q]) && undeclared_errors(new_errs, missing(seq![name@], m), line)))
                &&& a < b && k == TokenKind::Star ==> (r is None <==> math_of(toks, inp, a + 1, b) is None)
                &&& a < b && k == TokenKind::Star ==> (r matches Some(n) ==> (Some(node_view(n)) == math_of(toks, inp, a + 1, b) && (n matches ASTNode::MathOp { name, .. } && undeclared_errors(new_errs, missing(seq![name@], m), line))))
                &&& a < b && k == TokenKind::Greater && g > a + 1 ==> (r matches Some(ASTNode::Print { expr, .. }) && opt_view(expr) == as_literal(line_value(toks, inp, skip_blank_front(toks, inp, g, b), b)) && undeclared_errors(new_errs, print_missing(opt_view(expr), m), line))
            }),
            ({
                let sr = stmt_spec(old(self).tokens@, old(self).input@, old(self).pos as int, old(self).end as int, old(self).global_var_map@);
                let n0 = old(self).errors@.len() as int;
                &&& opt_node_view(r) == sr.node
                &&& final(self).pos == sr.pos
                &&& final(self).global_var_map@ == sr.map
                &&& final(self).errors@.subrange(n0, final(self).errors@.len() as int).map_values(|e: VarError| err_view(e)) == sr.errs
            }),
        decreases old(self).end - old(self).pos, 1int,
    {
        self.skip_whitespace();
        if self.pos >= self.end {
            assert(self.errors@.subrange(self.errors@.len() as int, self.errors@.len() as int).map_values(|e: VarError| err_view(e)) =~= Seq::<ErrV>::empty());
            return None;
        }
        let a = self.pos;
        proof {
            lemma_newlines_before(self.input@, self.tokens@[a as int].start as int);
        }
        let ghost sr = stmt_spec(old(self).tokens@, old(self).input@, old(self).pos as int, old(self).end as int, old(self).global_var_map@);
        let ghost toks = self.tokens@;
        let ghost inp = self.input@;
        let ghost b = self.end as int;
        let kind = self.tokens[self.pos].kind;
        let r = match kind {
            TokenKind::DoubleDot => {
                let r = self.parse_input();
                assert(opt_node_view(r) == sr.node);
                r
            },
            TokenKind::Question => {
                let r = parse2(self);
                if r.is_none() {
                    self.consume_until_newline();
                }
                proof {
                    if r is Some && r->0 is If {
                        let body = r->0->If_body;
                        if let NodeV::If { body: bv, .. } = node_view(r->0) {
                            assert(bv =~= body@.map_values(|x: ASTNode| node_view(x)));
                        }
                    }
                }
                assert(opt_node_view(r) == sr.node);
                r
            },
            TokenKind::Star => {
                let r = self.parse_math();
                assert(opt_node_view(r) == sr.node);
                r
            },
            TokenKind::At => {
                let r = self.parse_var_declaration();
                assert(opt_node_view(r) == sr.node);
                r
            },
            TokenKind::Greater => {
                let count = self.count_consecutive_greater();
                if count == 1 {
                    let r = self.parse_input();
                    assert(opt_node_view(r) == sr.node);
                    r
                } else {
                    let r = self.parse_print(count);
                    assert(opt_node_view(r) == sr.node);
                    r
                }
            },
            _ => None,
        };
        if r.is_none() && kind != TokenKind::Question {
            self.pos = a;
        }
        proof {
            let n0 = old(self).errors@.len() as int;
            let ne = self.errors@.subrange(n0, self.errors@.len() as int);
            let line = newlines_before(self.input@, self.tokens@[a as int].start as int) as int;
            if ne.len() == 0 {
                assert(ne.map_values(|e: VarError| err_view(e)) =~= Seq::<ErrV>::empty());
            }
            if kind == TokenKind::DoubleDot || kind == TokenKind::Star || kind == TokenKind::Greater {
                if r is Some {
                    if kind == TokenKind::Star {
                        assert(undeclared_errors(ne, missing(seq![math_target(node_view(r->0))], old(self).global_var_map@), line));
                    }
                    if kind == TokenKind::Greater && greater_end(self.tokens@, a as int, self.end as int) > a + 1 {
                        let e = as_literal(line_value(self.tokens@, self.input@, skip_blank_front(self.tokens@, self.input@, greater_end(self.tokens@, a as int, self.end as int), self.end as int), self.end as int));
                        assert(undeclared_errors(ne, print_missing(e, old(self).global_var_map@), line));
                        lemma_undeclared_view(ne, print_missing(e, old(self).global_var_map@), line);
                    } else if kind == TokenKind::Star {
                        lemma_undeclared_view(ne, missing(seq![math_target(node_view(r->0))], old(self).global_var_map@), line);
                    } else {
                        let q = skip_blank_front(self.tokens@, self.input@, a + 1, self.end as int);
                        lemma_undeclared_view(ne, missing(seq![lexeme(self.input@, self.tokens@[q])], old(self).global_var_map@), line);
                    }
                }
            }
            if kind == TokenKind::Question && ne.len() == 1 {
                assert(ne.map_values(|e: VarError| err_view(e)) =~= seq![err_view(ne[0])]);
            }
        }
        r
    }
}

/// A conditional `? ( condition ) { body }` with the cursor on the `?`; blanks may stand
/// between the `?` and the `(`, and between the `)` and the `{`. A missing `(`, a
/// condition without its `)` on the same line, a condition that does not parse, a missing
/// `{` and a block without its `}` each record one error on the line of the `?` and give
/// `None`. Otherwise the body's statements are parsed with the same symbol table and the
/// cursor moves past the `}`.
pub fn parse2(parser_state: &mut ParserState) -> (r: Option<ASTNode>)
    requires
        old(parser_state).wf(),
        old(parser_state).pos < old(parser_state).end,
        old(parser_state).tokens@[old(parser_state).pos as int].kind == TokenKind::Question,
    ensures
        final(parser_state).wf(),
        final(parser_state).same_frame(old(parser_state)),
        old(parser_state).pos <= final(parser_state).pos,
        r is Some ==> old(parser_state).pos < final(parser_state).pos,
        r is Some ==> r->0 is If,
        forall|k: Seq<char>| #[trigger] old(parser_state).global_var_map@.contains_key(k) ==> final(parser_state).global_var_map@.contains_key(k),
        final(parser_state).errors@.subrange(0, old(parser_state).errors@.len() as int)
            == old(parser_state).errors@,
        old(parser_state).errors@.len() <= final(parser_state).errors@.len(),
        ({
            let s = *old(parser_state);
            let toks = s.tokens@;
            let p = s.pos as int;
            let b = s.end as int;
            let line = s.line_of(p);
            let errs = final(parser_state).errors@;
            let kept = final(parser_state).pos == s.pos && final(parser_state).global_var_map == s.global_var_map;
            let n = s.errors@.len();
            let q = skip_blank_front(toks, s.input@, p + 1, b);
            let c = paren_close(toks, q + 1, b, 1);
            let k = skip_blank_front(toks, s.input@, c + 1, b);
            let close = brace_close(toks, k + 1, b, 1);
            if !(q < b && toks[q].kind == TokenKind::LSmallB) {
                kept && r is None && errs == s.errors@.push(VarError::MissingConditionOpenParen { line: line as usize })
            } else if c < 0 {
                kept && r is None && errs == s.errors@.push(VarError::MissingConditionCloseParen { line: line as usize })
            } else if condition_of(toks, s.input@, q + 1, c) is Err {
                kept && r is None && errs.len() == n + 1 && (errs[n as int] matches VarError::InvalidCondition { details, line: l } && l == line && Err::<ExprV, Seq<char>>(details@) == condition_of(toks, s.input@, q + 1, c))
            } else if !(k < b && toks[k].kind == TokenKind::LCurlyB) {
                kept && r is None && errs == s.errors@.push(VarError::MissingBlockOpenBrace { line: line as usize })
            } else if close < 0 {
                kept && r is None && errs == s.errors@.push(VarError::UnmatchedClosingBrace { line: line as usize })
            } else {
                r matches Some(ASTNode::If { condition, body }) && Ok::<ExprV, Seq<char>>(expr_view(condition)) == condition_of(toks, s.input@, q + 1, c) && final(parser_state).pos == close + 1
                    && body@.map_values(|x: ASTNode| node_view(x)) == block_spec(toks, s.input@, k + 1, close, s.global_var_map@).nodes
                    && final(parser_state).global_var_map@ == block_spec(toks, s.input@, k + 1, close, s.global_var_map@).map
                    && errs.subrange(n as int, errs.len() as int).map_values(|e: VarError| err_view(e)) == block_spec(toks, s.input@, k + 1, close, s.global_var_map@).errs
            }
        }),
    decreases old(parser_state).end - old(parser_state).pos, 0int,
{
    let start = parser_state.pos;
    let len = parser_state.end;
    let line = parser_state.line_at(start);
    let tokens = parser_state.tokens;
    let mut pos = start + 1;
    while pos < len && is_blank_token(&tokens[pos], parser_state.input)
        invariant
            parser_state.wf(),
            parser_state.tokens == tokens,
            len == parser_state.end,
            start < pos <= len <= tokens@.len(),
            skip_blank_front(tokens@, parser_state.input@, pos as int, len as int) == skip_blank_front(
                tokens@,
                parser_state.input@,
                start + 1,
                len as int,
            ),
            parser_state.pos == old(parser_state).pos,
            parser_state.errors == old(parser_state).errors,
            parser_state.global_var_map == old(parser_state).global_var_map,
            parser_state.same_frame(old(parser_state)),
        decreases len - pos,
    {
        pos += 1;
    }
    let open = pos;
    if pos >= len || tokens[pos].kind != TokenKind::LSmallB {
        parser_state.errors.push(VarError::MissingConditionOpenParen { line });
        return None;
    }
    pos += 1;
    let condition_start = pos;
    let mut condition_end = pos;
    let mut paren_depth: usize = 1;
    proof {
        lemma_paren_close(tokens@, condition_start as int, len as int, 1);
    }
    let mut found = false;
    while !found && condition_end < len
        invariant
            parser_state.wf(),
            parser_state.tokens == tokens,
            len == parser_state.end,
            1 <= condition_start <= condition_end <= len <= tokens@.len(),
            line as int == old(parser_state).line_of(start as int),
            start == old(parser_state).pos,
            condition_start == open + 1,
            open as int == skip_blank_front(tokens@, parser_state.input@, start + 1, len as int),
            open < len,
            tokens@[open as int].kind == TokenKind::LSmallB,
            tokens@ == old(parser_state).tokens@,
            paren_depth >= 1,
            paren_depth <= condition_end - condition_start + 1,
            found ==> condition_end < len && tokens@[condition_end as int].kind == TokenKind::RSmallB
                && paren_depth == 1,
            paren_close(tokens@, condition_end as int, len as int, paren_depth as int) == paren_close(
                tokens@,
                condition_start as int,
                len as int,
                1,
            ),
            parser_state.errors == old(parser_state).errors,
            parser_state.pos == old(parser_state).pos,
            parser_state.same_frame(old(parser_state)),
            parser_state.global_var_map == old(parser_state).global_var_map,
        decreases len - condition_end + if found {
            0int
        } else {
            1int
        },
    {
        let k = tokens[condition_end].kind;
        if k == TokenKind::RSmallB && paren_depth == 1 {
            found = true;
        } else {
            if k == TokenKind::LSmallB {
                paren_depth += 1;
            } else if k == TokenKind::RSmallB {
                paren_depth -= 1;
            } else if k == TokenKind::Newline {
                parser_state.errors.push(VarError::MissingConditionCloseParen { line });
                return None;
            }
            condition_end += 1;
        }
    }
    if !found {
        parser_state.errors.push(VarError::MissingConditionCloseParen { line });
        return None;
    }
    assert(paren_close(tokens@, open + 1, len as int, 1) == condition_end);
    let condition = match parse_condition(tokens, condition_start, condition_end, parser_state.input, line) {
        Ok(e) => e,
        Err(details) => {
            parser_state.errors.push(VarError::InvalidCondition { details, line });
            return None;
        },
    };
    pos = condition_end + 1;
    while pos < len && is_blank_token(&tokens[pos], parser_state.input)
        invariant
            parser_state.wf(),
            parser_state.tokens == tokens,
            len == parser_state.end,
            condition_end < pos <= len <= tokens@.len(),
            parser_state.pos == old(parser_state).pos,
            parser_state.errors@.len() == old(parser_state).errors@.len(),
            parser_state.errors == old(parser_state).errors,
            parser_state.global_var_map == old(parser_state).global_var_map,
            parser_state.same_frame(old(parser_state)),
            skip_blank_front(tokens@, parser_state.input@, pos as int, len as int) == skip_blank_front(
                tokens@,
                parser_state.input@,
                condition_end + 1,
                len as int,
            ),
        decreases len - pos,
    {
        pos += 1;
    }
    if pos >= len || tokens[pos].kind != TokenKind::LCurlyB {
        parser_state.errors.push(VarError::MissingBlockOpenBrace { line });
        return None;
    }
    pos += 1;
    let body_start = pos;
    let mut depth: usize = 1;
    proof {
        lemma_brace_close(tokens@, body_start as int, len as int, 1);
    }
    let mut found = false;
    while !found && pos < len
        invariant
            parser_state.wf(),
            parser_state.tokens == tokens,
            len == parser_state.end,
            1 <= body_start <= pos <= len <= tokens@.len(),
            depth >= 1,
            depth <= pos - body_start + 1,
            found ==> pos < len && tokens@[pos as int].kind == TokenKind::RCurlyB && depth == 1,
            brace_close(tokens@, pos as int, len as int, depth as int) == brace_close(
                tokens@,
                body_start as int,
                len as int,
                1,
            ),
            parser_state.errors == old(parser_state).errors,
            parser_state.pos == old(parser_state).pos,
            parser_state.same_frame(old(parser_state)),
            parser_state.global_var_map == old(parser_state).global_var_map,
        decreases len - pos + if found {
            0int
        } else {
            1int
        },
    {
        let k = tokens[pos].kind;
        if k == TokenKind::RCurlyB && depth == 1 {
            found = true;
        } else {
            if k == TokenKind::LCurlyB {
                depth += 1;
            } else if k == TokenKind::RCurlyB {
                depth -= 1;
            }
            pos += 1;
        }
    }
    if !found {
        parser_state.errors.push(VarError::UnmatchedClosingBrace { line });
        return None;
    }
    let close = pos;
    let ghost e0 = parser_state.errors@;
    parser_state.end = close;
    parser_state.pos = body_start;
    let mut body: Vec<ASTNode> = Vec::new();
    while parser_state.pos < parser_state.end
        invariant
            parser_state.wf(),
            parser_state.tokens == tokens,
            parser_state.input == old(parser_state).input,
            parser_state.end == close,
            start < body_start <= parser_state.pos <= close < len,
            len == old(parser_state).end,
            old(parser_state).pos == start,
            parser_state.errors@.subrange(0, e0.len() as int) == e0,
            e0.len() <= parser_state.errors@.len(),
            forall|k: Seq<char>| #[trigger] old(parser_state).global_var_map@.contains_key(k) ==> parser_state.global_var_map@.contains_key(k),
            ({
                let bb = block_spec(tokens@, parser_state.input@, body_start as int, close as int, old(parser_state).global_var_map@);
                let rr = block_spec(tokens@, parser_state.input@, parser_state.pos as int, close as int, parser_state.global_var_map@);
                &&& body@.map_values(|x: ASTNode| node_view(x)) + rr.nodes == bb.nodes
                &&& rr.map == bb.map
                &&& parser_state.errors@.subrange(e0.len() as int, parser_state.errors@.len() as int).map_values(|e: VarError| err_view(e)) + rr.errs == bb.errs
            }),
        decreases close - parser_state.pos,
    {
        let ghost before = parser_state.errors@;
        let ghost bn = body@;
        let ghost m_at = parser_state.global_var_map@;
        let at = parser_state.pos;
        match parser_state.parse_statement() {
            Some(stmt) => body.push(stmt),
            None => {
                if parser_state.pos == at {
                    parser_state.pos += 1;
                }
            },
        }
        proof {
            assert(parser_state.errors@.subrange(0, e0.len() as int) =~= before.subrange(0, e0.len() as int));
            let sr = stmt_spec(tokens@, parser_state.input@, at as int, close as int, m_at);
            let e_all = parser_state.errors@;
            assert(e_all.subrange(e0.len() as int, e_all.len() as int) =~= before.subrange(e0.len() as int, before.len() as int) + e_all.subrange(before.len() as int, e_all.len() as int));
            assert(e_all.subrange(e0.len() as int, e_all.len() as int).map_values(|e: VarError| err_view(e)) =~= before.subrange(e0.len() as int, before.len() as int).map_values(|e: VarError| err_view(e)) + e_all.subrange(before.len() as int, e_all.len() as int).map_values(|e: VarError| err_view(e)));
            if sr.node is Some {
                assert(body@.map_values(|x: ASTNode| node_view(x)) =~= bn.map_values(|x: ASTNode| node_view(x)).push(sr.node->0));
            } else {
                assert(body@ == bn);
            }
        }
    }
    proof {
        let rr = block_spec(tokens@, parser_state.input@, parser_state.pos as int, close as int, parser_state.global_var_map@);
        assert(rr.nodes =~= Seq::<NodeV>::empty());
        assert(rr.errs =~= Seq::<ErrV>::empty());
    }
    let ghost m_end = parser_state.global_var_map@;
    parser_state.end = len;
    parser_state.pos = close + 1;
    let r = ASTNode::If { condition, body };
    proof {
        assert(parser_state.errors@.subrange(old(parser_state).errors@.len() as int, parser_state.errors@.len() as int) == parser_state.errors@.subrange(e0.len() as int, parser_state.errors@.len() as int));
    }
    Some(r)
}


/// The total length of the first `n` tokens of `toks`.
pub open spec fn span_total(toks: Seq<Token>, n: int) -> int
    decreases n,
{
    if n <= 0 {
        0
    } else {
        span_total(toks, n - 1) + (toks[n - 1].end - toks[n - 1].start)
    }
}

impl<'a> ParserState<'a> {
    /// The total length of the tokens before the cursor, plus the start of the token at the
    /// cursor, plus `global_pos`; `usize::MAX` when that does not fit.
    pub fn get_global_pos(&self) -> (r: usize)
        requires
            self.wf(),
        ensures
            r as int == vstd::math::min(
                span_total(self.tokens@, self.pos as int) + (if self.pos < self.tokens@.len() {
                    self.tokens@[self.pos as int].start as int
                } else {
                    0int
                }) + self.global_pos,
                usize::MAX as int,
            ),
    {
        let mut global_pos: usize = 0;
        let mut i: usize = 0;
        while i < self.pos
            invariant
                self.wf(),
                i <= self.pos,
                global_pos as int == vstd::math::min(span_total(self.tokens@, i as int), usize::MAX as int),
                span_total(self.tokens@, i as int) >= 0,
            decreases self.pos - i,
        {
            let t = &self.tokens[i];
            global_pos = global_pos.saturating_add(t.end - t.start);
            i += 1;
        }
        if self.pos < self.tokens.len() {
            global_pos = global_pos.saturating_add(self.tokens[self.pos].start);
        }
        global_pos.saturating_add(self.global_pos)
    }
}

impl AST {
    /// Parses a whole program (see `block_spec`). Newlines between statements are skipped;
    /// where no statement can be read, parsing goes on one token further. Returns
    /// the program, the symbol table and the errors in the order found.
    pub fn parse(tokens: &[Token], input: &str) -> (r: (AST, VarMap, Vec<VarError>))
        requires
            tokens_fit(tokens@, input@.len() as int),
            input@.len() < usize::MAX,
        ensures
            forall|i: int|
                0 <= i < r.0.nodes().len() ==> (#[trigger] r.0.nodes()[i] matches ASTNode::VarDeclaration { name, .. } ==> r.1@.contains_key(name@)),
            ({
                let bs = block_spec(tokens@, input@, 0, tokens@.len() as int, Map::empty());
                &&& r.0.nodes().map_values(|x: ASTNode| node_view(x)) == bs.nodes
                &&& r.1@ == bs.map
                &&& r.2@.map_values(|e: VarError| err_view(e)) == bs.errs
            }),
    {
        let chars = chars_of(input);
        let mut nodes: Vec<ASTNode> = Vec::new();
        let mut state = ParserState {
            tokens,
            input: chars.as_slice(),
            pos: 0,
            end: tokens.len(),
            global_var_map: VarMap::new(),
            errors: Vec::new(),
            global_pos: 0,
        };
        assert(nodes@.map_values(|x: ASTNode| node_view(x)) =~= Seq::<NodeV>::empty());
        assert(state.errors@.map_values(|e: VarError| err_view(e)) =~= Seq::<ErrV>::empty());
        while state.pos < state.end
            invariant
                state.wf(),
                state.tokens == tokens,
                state.end == tokens@.len(),
                forall|i: int|
                    0 <= i < nodes@.len() ==> (#[trigger] nodes@[i] matches ASTNode::VarDeclaration { name, .. } ==> state.global_var_map@.contains_key(name@)),
                state.input@ == input@,
                ({
                    let bb = block_spec(tokens@, input@, 0, tokens@.len() as int, Map::empty());
                    let rr = block_spec(tokens@, input@, state.pos as int, tokens@.len() as int, state.global_var_map@);
                    &&& nodes@.map_values(|x: ASTNode| node_view(x)) + rr.nodes == bb.nodes
                    &&& rr.map == bb.map
                    &&& state.errors@.map_values(|e: VarError| err_view(e)) + rr.errs == bb.errs
                }),
            decreases state.end - state.pos,
        {
            let ghost before = state.errors@;
            let ghost bn = nodes@;
            let ghost m_at = state.global_var_map@;
            let before_pos = state.pos;
            if state.tokens[state.pos].kind == TokenKind::Newline {
                proof {
                    let sr = stmt_spec(tokens@, input@, before_pos as int, tokens@.len() as int, m_at);
                    assert(skip_blank_front(tokens@, input@, before_pos as int, tokens@.len() as int) == before_pos);
                    assert(sr.node is None && sr.pos == before_pos && sr.map == m_at && sr.errs == Seq::<ErrV>::empty());
                    assert(Seq::<ErrV>::empty() + block_spec(tokens@, input@, before_pos + 1, tokens@.len() as int, m_at).errs == block_spec(tokens@, input@, before_pos + 1, tokens@.len() as int, m_at).errs);
                    assert(Seq::<NodeV>::empty() + block_spec(tokens@, input@, before_pos + 1, tokens@.len() as int, m_at).nodes == block_spec(tokens@, input@, before_pos + 1, tokens@.len() as int, m_at).nodes);
                }
                state.pos += 1;
            } else {
                match state.parse_statement() {
                    Some(stmt) => nodes.push(stmt),
                    None => {
                        if state.pos == before_pos {
                            state.pos += 1;
                        }
                    },
                }
                proof {
                    let sr = stmt_spec(tokens@, input@, before_pos as int, tokens@.len() as int, m_at);
                    let e_all = state.errors@;
                    assert(e_all =~= before + e_all.subrange(before.len() as int, e_all.len() as int));
                    assert(e_all.map_values(|e: VarError| err_view(e)) =~= before.map_values(|e: VarError| err_view(e)) + e_all.subrange(before.len() as int, e_all.len() as int).map_values(|e: VarError| err_view(e)));
                    if sr.node is Some {
                        assert(nodes@.map_values(|x: ASTNode| node_view(x)) =~= bn.map_values(|x: ASTNode| node_view(x)).push(sr.node->0));
                    } else {
                        assert(nodes@ == bn);
                    }
                }
            }
        }
        proof {
            let rr = block_spec(tokens@, input@, state.pos as int, tokens@.len() as int, state.global_var_map@);
            assert(rr.nodes =~= Seq::<NodeV>::empty());
            assert(rr.errs =~= Seq::<ErrV>::empty());
            assert(nodes@.map_values(|x: ASTNode| node_view(x)) =~= nodes@.map_values(|x: ASTNode| node_view(x)) + rr.nodes);
            assert(state.errors@.map_values(|e: VarError| err_view(e)) =~= state.errors@.map_values(|e: VarError| err_view(e)) + rr.errs);
        }
        (AST::Program(nodes), state.global_var_map, state.errors)
    }
}

/// The program, the symbol table and the errors of a source text.
pub open spec fn parse_spec(input: Seq<char>) -> BlockRes {
    block_spec(lex(input), input, 0, lex(input).len() as int, Map::empty())
}

/// Cuts `input` into tokens and parses them (see `AST::parse`).
pub fn parse_source(input: &str) -> (r: (AST, VarMap, Vec<VarError>))
    requires
        input@.len() < usize::MAX,
    ensures
        forall|i: int|
            0 <= i < r.0.nodes().len() ==> (#[trigger] r.0.nodes()[i] matches ASTNode::VarDeclaration { name, .. } ==> r.1@.contains_key(name@)),
        ({
            let bs = parse_spec(input@);
            &&& r.0.nodes().map_values(|x: ASTNode| node_view(x)) == bs.nodes
            &&& r.1@ == bs.map
            &&& r.2@.map_values(|e: VarError| err_view(e)) == bs.errs
        }),
{
    let mut tokenizer = Tokenizer::new(input);
    tokenizer.tokenize();
    proof {
        lemma_tokens_from(input@, 0);
    }
    AST::parse(tokenizer.tokens.as_slice(), input)
}

} // verus!
