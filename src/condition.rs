use vstd::prelude::*;

use crate::ast::{expr_view, ComparisonOperator, ExprV, Expression, LogicalOperator};
use crate::lexeme::{blank_token, get_lexeme, is_blank_token, is_numeric, is_numeric_text, lexeme, tokens_fit};
use crate::numtext::{dec, decimal};
use crate::token::{Token, TokenKind};

verus! {

/// A one-token operand: a name, or a literal when it is a number or anything else.
pub open spec fn single_operand(input: Seq<char>, t: Token) -> ExprV {
    if t.kind == TokenKind::Identifier && !is_numeric(lexeme(input, t)) {
        ExprV::Identifier(lexeme(input, t))
    } else {
        ExprV::Literal(lexeme(input, t))
    }
}

/// The first position of `[a, b)` that holds no blank token, or `b`.
pub open spec fn skip_blank_front(toks: Seq<Token>, input: Seq<char>, a: int, b: int) -> int
    decreases b - a,
{
    if a < b && blank_token(input, toks[a]) {
        skip_blank_front(toks, input, a + 1, b)
    } else {
        a
    }
}

/// The end of `[a, b)` once the trailing blank tokens are dropped.
pub open spec fn skip_blank_back(toks: Seq<Token>, input: Seq<char>, a: int, b: int) -> int
    decreases b - a,
{
    if b > a && blank_token(input, toks[b - 1]) {
        skip_blank_back(toks, input, a, b - 1)
    } else {
        b
    }
}

pub proof fn lemma_skip_blank(toks: Seq<Token>, input: Seq<char>, a: int, b: int)
    requires
        a <= b,
    ensures
        a <= skip_blank_front(toks, input, a, b) <= b,
        a <= skip_blank_back(toks, input, a, b) <= b,
    decreases b - a,
{
    if a < b {
        lemma_skip_blank(toks, input, a + 1, b);
        lemma_skip_blank(toks, input, a, b - 1);
    }
}

/// Skipping blank tokens a second time moves no further.
pub proof fn lemma_skip_idem(toks: Seq<Token>, input: Seq<char>, a: int, b: int)
    ensures
        skip_blank_front(toks, input, skip_blank_front(toks, input, a, b), b) == skip_blank_front(
            toks,
            input,
            a,
            b,
        ),
    decreases b - a,
{
    if a < b && blank_token(input, toks[a]) {
        lemma_skip_idem(toks, input, a + 1, b);
    }
}

/// The first string literal token of `[a, b)`, or `b`.
pub open spec fn first_string(toks: Seq<Token>, a: int, b: int) -> int
    decreases b - a,
{
    if a >= b {
        b
    } else if toks[a].kind == TokenKind::StringLiteral {
        a
    } else {
        first_string(toks, a + 1, b)
    }
}

/// The texts of the tokens `[a, b)`, concatenated.
pub open spec fn joined(toks: Seq<Token>, input: Seq<char>, a: int, b: int) -> Seq<char>
    decreases b - a,
{
    if b <= a {
        Seq::empty()
    } else {
        joined(toks, input, a, b - 1) + lexeme(input, toks[b - 1])
    }
}

/// The operand that the tokens `[a, b)` make.
pub open spec fn operand_of(toks: Seq<Token>, input: Seq<char>, a: int, b: int) -> Option<ExprV> {
    if a >= b {
        None
    } else if b - a == 1 {
        Some(single_operand(input, toks[a]))
    } else {
        let x = skip_blank_front(toks, input, a, b);
        let y = skip_blank_back(toks, input, x, b);
        if x >= y {
            None
        } else if y - x == 1 {
            Some(single_operand(input, toks[x]))
        } else if first_string(toks, x, y) < y {
            Some(ExprV::Literal(lexeme(input, toks[first_string(toks, x, y)])))
        } else {
            Some(ExprV::Literal(joined(toks, input, x, y)))
        }
    }
}

pub open spec fn is_logical(k: TokenKind) -> bool {
    k == TokenKind::And || k == TokenKind::Or
}

pub open spec fn is_comparison(k: TokenKind) -> bool {
    k == TokenKind::Equal || k == TokenKind::NotEqual || k == TokenKind::LessThan || k
        == TokenKind::LessEqual || k == TokenKind::Greater || k == TokenKind::GreaterEqual
}

/// The first position of `[a, b)` whose token satisfies `p`, or `b`.
pub open spec fn first_logical(toks: Seq<Token>, a: int, b: int) -> int
    decreases b - a,
{
    if a >= b {
        b
    } else if is_logical(toks[a].kind) {
        a
    } else {
        first_logical(toks, a + 1, b)
    }
}

/// The first position of `[a, b)` that holds a comparison operator, or `b`.
pub open spec fn first_comparison(toks: Seq<Token>, a: int, b: int) -> int
    decreases b - a,
{
    if a >= b {
        b
    } else if is_comparison(toks[a].kind) {
        a
    } else {
        first_comparison(toks, a + 1, b)
    }
}

proof fn lemma_first_logical(toks: Seq<Token>, a: int, b: int)
    requires
        a <= b,
    ensures
        a <= first_logical(toks, a, b) <= b,
        first_logical(toks, a, b) < b ==> is_logical(toks[first_logical(toks, a, b)].kind),
        forall|k: int| a <= k < first_logical(toks, a, b) ==> !is_logical(#[trigger] toks[k].kind),
    decreases b - a,
{
    if a < b && !is_logical(toks[a].kind) {
        lemma_first_logical(toks, a + 1, b);
    }
}

proof fn lemma_first_comparison(toks: Seq<Token>, a: int, b: int)
    requires
        a <= b,
    ensures
        a <= first_comparison(toks, a, b) <= b,
        first_comparison(toks, a, b) < b ==> is_comparison(toks[first_comparison(toks, a, b)].kind),
        forall|k: int|
            a <= k < first_comparison(toks, a, b) ==> !is_comparison(#[trigger] toks[k].kind),
    decreases b - a,
{
    if a < b && !is_comparison(toks[a].kind) {
        lemma_first_comparison(toks, a + 1, b);
    }
}

pub open spec fn comparison_of(k: TokenKind) -> ComparisonOperator {
    if k == TokenKind::Equal {
        ComparisonOperator::Equal
    } else if k == TokenKind::NotEqual {
        ComparisonOperator::NotEqual
    } else if k == TokenKind::LessThan {
        ComparisonOperator::LessThan
    } else if k == TokenKind::LessEqual {
        ComparisonOperator::LessThanEqual
    } else if k == TokenKind::Greater {
        ComparisonOperator::GreaterThan
    } else {
        ComparisonOperator::GreaterThanEqual
    }
}

/// The condition that the tokens `[a, b)` make, or why they make none. The first `&&` or
/// `||` from the left splits the condition; else the first comparison does; else the tokens
/// are one operand.
pub open spec fn condition_of(toks: Seq<Token>, input: Seq<char>, a: int, b: int) -> Result<
    ExprV,
    Seq<char>,
>
    decreases b - a,
    via condition_of_decreases
{
    if a >= b {
        Err("Empty condition"@)
    } else if first_logical(toks, a, b) < b {
        let i = first_logical(toks, a, b);
        let and = toks[i].kind == TokenKind::And;
        match condition_of(toks, input, a, i) {
            Err(e) => Err(
                if and {
                    "Invalid left side of AND: "@
                } else {
                    "Invalid left side of OR: "@
                } + e,
            ),
            Ok(l) => match condition_of(toks, input, i + 1, b) {
                Err(e) => Err(
                    if and {
                        "Invalid right side of AND: "@
                    } else {
                        "Invalid right side of OR: "@
                    } + e,
                ),
                Ok(r) => Ok(
                    ExprV::LogicalOp {
                        left: Box::new(l),
                        operator: if and {
                            LogicalOperator::And
                        } else {
                            LogicalOperator::Or
                        },
                        right: Box::new(r),
                    },
                ),
            },
        }
    } else if first_comparison(toks, a, b) < b {
        let j = first_comparison(toks, a, b);
        if a < j && j < b - 1 {
            match operand_of(toks, input, a, j) {
                None => Err("Invalid left operand at position "@ + dec(j as nat)),
                Some(l) => match operand_of(toks, input, j + 1, b) {
                    None => Err("Invalid right operand at position "@ + dec(j as nat)),
                    Some(r) => Ok(
                        ExprV::BinaryOp {
                            left: Box::new(l),
                            operator: comparison_of(toks[j].kind),
                            right: Box::new(r),
                        },
                    ),
                },
            }
        } else {
            Err("Comparison operator at position "@ + dec(j as nat) + " is missing operands"@)
        }
    } else {
        match operand_of(toks, input, a, b) {
            Some(e) => Ok(e),
            None => Err("Invalid condition expression"@),
        }
    }
}

#[via_fn]
proof fn condition_of_decreases(toks: Seq<Token>, input: Seq<char>, a: int, b: int) {
    if a < b {
        lemma_first_logical(toks, a, b);
    }
}

/// Whether `r` is the result that `spec` describes.
pub open spec fn result_matches(r: Result<Expression, String>, spec: Result<ExprV, Seq<char>>) -> bool {
    match (r, spec) {
        (Ok(e), Ok(v)) => expr_view(e) == v,
        (Err(m), Err(s)) => m@ == s,
        _ => false,
    }
}

fn single(token: &Token, input: &[char]) -> (r: Expression)
    requires
        token.start <= token.end <= input@.len(),
    ensures
        expr_view(r) == single_operand(input@, *token),
{
    let lexeme = get_lexeme(token, input);
    if token.kind == TokenKind::Identifier && !is_numeric_text(input, token.start, token.end) {
        Expression::Identifier(lexeme)
    } else {
        Expression::Literal(lexeme)
    }
}

/// Parses the tokens `[start, end)` as an operand (see `operand_of`).
pub fn parse_operand(tokens: &[Token], start: usize, end: usize, input: &[char]) -> (r: Option<
    Expression,
>)
    requires
        end <= tokens@.len(),
        tokens_fit(tokens@, input@.len() as int),
    ensures
        r matches Some(e) ==> operand_of(tokens@, input@, start as int, end as int) == Some(
            expr_view(e),
        ),
        r is None ==> operand_of(tokens@, input@, start as int, end as int) is None,
{
    if start >= end {
        return None;
    }
    if end - start == 1 {
        return Some(single(&tokens[start], input));
    }
    let mut real_start = start;
    while real_start < end && is_blank_token(&tokens[real_start], input)
        invariant
            start <= real_start <= end <= tokens@.len(),
            tokens_fit(tokens@, input@.len() as int),
            skip_blank_front(tokens@, input@, real_start as int, end as int) == skip_blank_front(
                tokens@,
                input@,
                start as int,
                end as int,
            ),
        decreases end - real_start,
    {
        real_start += 1;
    }
    let mut real_end = end;
    while real_end > real_start && is_blank_token(&tokens[real_end - 1], input)
        invariant
            start <= real_start <= real_end <= end <= tokens@.len(),
            tokens_fit(tokens@, input@.len() as int),
            skip_blank_back(tokens@, input@, real_start as int, real_end as int) == skip_blank_back(
                tokens@,
                input@,
                real_start as int,
                end as int,
            ),
        decreases real_end - real_start,
    {
        real_end -= 1;
    }
    if real_start >= real_end {
        return None;
    }
    if real_end - real_start == 1 {
        return Some(single(&tokens[real_start], input));
    }
    assert(skip_blank_front(tokens@, input@, real_start as int, end as int) == real_start);
    assert(skip_blank_back(tokens@, input@, real_start as int, real_end as int) == real_end);
    let ghost x = skip_blank_front(tokens@, input@, start as int, end as int);
    let ghost y = skip_blank_back(tokens@, input@, x, end as int);
    assert(x == real_start && y == real_end);
    let mut i = real_start;
    while i < real_end
        invariant
            real_start <= i <= real_end <= tokens@.len(),
            tokens_fit(tokens@, input@.len() as int),
            x == real_start && y == real_end && real_end - real_start > 1 && end - start > 1,
            x == skip_blank_front(tokens@, input@, start as int, end as int),
            y == skip_blank_back(tokens@, input@, x, end as int),
            first_string(tokens@, i as int, real_end as int) == first_string(
                tokens@,
                real_start as int,
                real_end as int,
            ),
        decreases real_end - i,
    {
        if tokens[i].kind == TokenKind::StringLiteral {
            return Some(Expression::Literal(get_lexeme(&tokens[i], input)));
        }
        i += 1;
    }
    let mut value = String::new();
    let mut k = real_start;
    assert(value@ =~= joined(tokens@, input@, real_start as int, real_start as int));
    while k < real_end
        invariant
            real_start <= k <= real_end <= tokens@.len(),
            tokens_fit(tokens@, input@.len() as int),
            x == real_start && y == real_end && real_end - real_start > 1 && end - start > 1,
            x == skip_blank_front(tokens@, input@, start as int, end as int),
            y == skip_blank_back(tokens@, input@, x, end as int),
            first_string(tokens@, x, y) == y,
            value@ == joined(tokens@, input@, real_start as int, k as int),
        decreases real_end - k,
    {
        let piece = get_lexeme(&tokens[k], input);
        value.append(piece.as_str());
        k += 1;
    }
    Some(Expression::Literal(value))
}

fn comparison(kind: TokenKind) -> (r: ComparisonOperator)
    ensures
        r == comparison_of(kind),
{
    match kind {
        TokenKind::Equal => ComparisonOperator::Equal,
        TokenKind::NotEqual => ComparisonOperator::NotEqual,
        TokenKind::LessThan => ComparisonOperator::LessThan,
        TokenKind::LessEqual => ComparisonOperator::LessThanEqual,
        TokenKind::Greater => ComparisonOperator::GreaterThan,
        _ => ComparisonOperator::GreaterThanEqual,
    }
}

fn prefixed(prefix: &str, s: &str) -> (r: String)
    ensures
        r@ == prefix@ + s@,
{
    let mut r = String::new();
    r.append(prefix);
    r.append(s);
    r
}

/// Parses the tokens `[start, end)` as a condition (see `condition_of`).
pub fn parse_condition(tokens: &[Token], start: usize, end: usize, input: &[char], line: usize) -> (r: Result<
    Expression,
    String,
>)
    requires
        end <= tokens@.len(),
        tokens_fit(tokens@, input@.len() as int),
    ensures
        result_matches(r, condition_of(tokens@, input@, start as int, end as int)),
    decreases end - start,
{
    if start >= end {
        return Err(String::from_str("Empty condition"));
    }
    let mut i = start;
    while i < end && !(tokens[i].kind == TokenKind::And || tokens[i].kind == TokenKind::Or)
        invariant
            start <= i <= end <= tokens@.len(),
            first_logical(tokens@, i as int, end as int) == first_logical(
                tokens@,
                start as int,
                end as int,
            ),
        decreases end - i,
    {
        i += 1;
    }
    if i < end {
        let and = tokens[i].kind == TokenKind::And;
        let left = match parse_condition(tokens, start, i, input, line) {
            Ok(l) => l,
            Err(e) => {
                return Err(
                    if and {
                        prefixed("Invalid left side of AND: ", e.as_str())
                    } else {
                        prefixed("Invalid left side of OR: ", e.as_str())
                    },
                );
            },
        };
        let right = match parse_condition(tokens, i + 1, end, input, line) {
            Ok(r) => r,
            Err(e) => {
                return Err(
                    if and {
                        prefixed("Invalid right side of AND: ", e.as_str())
                    } else {
                        prefixed("Invalid right side of OR: ", e.as_str())
                    },
                );
            },
        };
        return Ok(
            Expression::LogicalOp {
                left: Box::new(left),
                operator: if and {
                    LogicalOperator::And
                } else {
                    LogicalOperator::Or
                },
                right: Box::new(right),
            },
        );
    }
    let mut j = start;
    while j < end && !(tokens[j].kind == TokenKind::Equal || tokens[j].kind == TokenKind::NotEqual
        || tokens[j].kind == TokenKind::LessThan || tokens[j].kind == TokenKind::LessEqual
        || tokens[j].kind == TokenKind::Greater || tokens[j].kind == TokenKind::GreaterEqual)
        invariant
            start <= j <= end <= tokens@.len(),
            first_comparison(tokens@, j as int, end as int) == first_comparison(
                tokens@,
                start as int,
                end as int,
            ),
        decreases end - j,
    {
        j += 1;
    }
    if j < end {
        if j > start && j < end - 1 {
            let left = match parse_operand(tokens, start, j, input) {
                Some(l) => l,
                None => {
                    let d = decimal(j);
                    return Err(prefixed("Invalid left operand at position ", d.as_str()));
                },
            };
            let right = match parse_operand(tokens, j + 1, end, input) {
                Some(r) => r,
                None => {
                    let d = decimal(j);
                    return Err(prefixed("Invalid right operand at position ", d.as_str()));
                },
            };
            return Ok(
                Expression::BinaryOp {
                    left: Box::new(left),
                    operator: comparison(tokens[j].kind),
                    right: Box::new(right),
                },
            );
        } else {
            let d = decimal(j);
            let mut m = prefixed("Comparison operator at position ", d.as_str());
            m.append(" is missing operands");
            return Err(m);
        }
    }
    match parse_operand(tokens, start, end, input) {
        Some(e) => Ok(e),
        None => Err(String::from_str("Invalid condition expression")),
    }
}

} // verus!
