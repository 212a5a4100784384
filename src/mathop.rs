use vstd::prelude::*;

use crate::ast::{node_view, ASTNode, ExprV, Expression, MathOperator, NodeV};
use crate::lexeme::{blank_token, get_lexeme, is_blank_token, lexeme, tokens_fit};
use crate::token::{Token, TokenKind};

verus! {

/// The first position of `[a, b)` that holds no `Unknown` token, or `b`.
pub open spec fn skip_unknown(toks: Seq<Token>, a: int, b: int) -> int
    decreases b - a,
{
    if a < b && toks[a].kind == TokenKind::Unknown {
        skip_unknown(toks, a + 1, b)
    } else {
        a
    }
}

/// The first position of `[a, b)` that holds a newline, or `b`.
pub open spec fn newline_at(toks: Seq<Token>, a: int, b: int) -> int
    decreases b - a,
{
    if a < b && toks[a].kind != TokenKind::Newline {
        newline_at(toks, a + 1, b)
    } else {
        a
    }
}

/// The texts of the non-blank tokens of `[a, e)`, in order.
pub open spec fn words(toks: Seq<Token>, input: Seq<char>, a: int, e: int) -> Seq<Seq<char>>
    decreases e - a,
{
    if e <= a {
        Seq::empty()
    } else {
        words(toks, input, a, e - 1) + if blank_token(input, toks[e - 1]) {
            Seq::empty()
        } else {
            seq![lexeme(input, toks[e - 1])]
        }
    }
}

/// The texts `ws` with one space between each two.
pub open spec fn join_spaced(ws: Seq<Seq<char>>) -> Seq<char>
    decreases ws.len(),
{
    if ws.len() == 0 {
        Seq::empty()
    } else if ws.len() == 1 {
        ws[0]
    } else {
        join_spaced(ws.drop_last()) + seq![' '] + ws.last()
    }
}

/// The texts of the non-blank tokens of `[a, e)`, one space apart.
pub open spec fn spaced(toks: Seq<Token>, input: Seq<char>, a: int, e: int) -> Seq<char> {
    join_spaced(words(toks, input, a, e))
}

pub open spec fn math_operator_of(k: TokenKind) -> Option<MathOperator> {
    if k == TokenKind::Plus {
        Some(MathOperator::Add)
    } else if k == TokenKind::Minus {
        Some(MathOperator::Subtract)
    } else if k == TokenKind::Star {
        Some(MathOperator::Multiply)
    } else if k == TokenKind::Slash {
        Some(MathOperator::Divide)
    } else {
        None
    }
}

/// The math statement that the tokens `[a, b)` after a `*` make: a name, an operator, and
/// the rest of the line as the operand (its non-blank tokens, one space apart), `Unknown`
/// tokens skipped between the three.
pub open spec fn math_of(toks: Seq<Token>, input: Seq<char>, a: int, b: int) -> Option<NodeV> {
    let p = skip_unknown(toks, a, b);
    let q = skip_unknown(toks, p + 1, b);
    let r = skip_unknown(toks, q + 1, b);
    if p >= b || toks[p].kind != TokenKind::Identifier || q >= b || math_operator_of(
        toks[q].kind,
    ) is None {
        None
    } else {
        Some(
            NodeV::MathOp {
                name: lexeme(input, toks[p]),
                operator: math_operator_of(toks[q].kind)->0,
                operand: ExprV::Literal(spaced(toks, input, r, newline_at(toks, r, b))),
            },
        )
    }
}

fn skip_unknown_exec(tokens: &[Token], a: usize, b: usize) -> (r: usize)
    requires
        a <= b <= tokens@.len(),
    ensures
        r == skip_unknown(tokens@, a as int, b as int),
        a <= r <= b,
{
    let mut p = a;
    while p < b && tokens[p].kind == TokenKind::Unknown
        invariant
            a <= p <= b <= tokens@.len(),
            skip_unknown(tokens@, p as int, b as int) == skip_unknown(tokens@, a as int, b as int),
        decreases b - p,
    {
        p += 1;
    }
    p
}

/// Parses the tokens `[start, end)` that follow a `*` as a math statement (see `math_of`).
pub fn parse1(tokens: &[Token], start: usize, end: usize, input: &[char]) -> (r: Option<ASTNode>)
    requires
        start <= end <= tokens@.len(),
        tokens_fit(tokens@, input@.len() as int),
    ensures
        r matches Some(n) ==> math_of(tokens@, input@, start as int, end as int) == Some(
            node_view(n),
        ),
        r is None ==> math_of(tokens@, input@, start as int, end as int) is None,
{
    let p = skip_unknown_exec(tokens, start, end);
    if p >= end || tokens[p].kind != TokenKind::Identifier {
        return None;
    }
    let var_name = get_lexeme(&tokens[p], input);
    let q = skip_unknown_exec(tokens, p + 1, end);
    if q >= end {
        return None;
    }
    let math_operator = match tokens[q].kind {
        TokenKind::Plus => MathOperator::Add,
        TokenKind::Minus => MathOperator::Subtract,
        TokenKind::Star => MathOperator::Multiply,
        TokenKind::Slash => MathOperator::Divide,
        _ => {
            return None;
        },
    };
    let r = skip_unknown_exec(tokens, q + 1, end);
    let mut operand_str = String::new();
    let mut started = false;
    let mut pos = r;
    while pos < end && tokens[pos].kind != TokenKind::Newline
        invariant
            r <= pos <= end <= tokens@.len(),
            tokens_fit(tokens@, input@.len() as int),
            newline_at(tokens@, pos as int, end as int) == newline_at(tokens@, r as int, end as int),
            operand_str@ == spaced(tokens@, input@, r as int, pos as int),
            started == (words(tokens@, input@, r as int, pos as int).len() > 0),
        decreases end - pos,
    {
        let ghost ws = words(tokens@, input@, r as int, pos as int);
        if is_blank_token(&tokens[pos], input) {
            assert(words(tokens@, input@, r as int, pos + 1) =~= ws);
        } else {
            let piece = get_lexeme(&tokens[pos], input);
            let ghost ws2 = words(tokens@, input@, r as int, pos + 1);
            assert(ws2 =~= ws.push(piece@));
            assert(ws2.drop_last() =~= ws);
            if started {
                operand_str.append(" ");
                proof {
                    reveal_strlit(" ");
                }
            }
            operand_str.append(piece.as_str());
            assert(operand_str@ =~= spaced(tokens@, input@, r as int, pos + 1));
            started = true;
        }
        pos += 1;
    }
    Some(
        ASTNode::MathOp {
            name: var_name,
            operator: math_operator,
            operand: Expression::Literal(operand_str),
        },
    )
}

} // verus!
