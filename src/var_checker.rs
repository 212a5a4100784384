use vstd::prelude::*;

use crate::ast::{node_view, ASTNode, ExprV, Expression, NodeV, VarType, AST};
use crate::errs::{err_view, ErrV, VarError};
use crate::literals::{is_f64_text, is_i32_text, parses_as_f64, parses_as_i32};
use crate::numtext::{dec, decimal};
use crate::pass1::nodes_view;
use crate::symtab::VarMap;
use crate::text::{chars_of, string_of};

verus! {

/// `s` without the first and last character when it has two or more and both are `'`.
pub open spec fn char_body(s: Seq<char>) -> Seq<char> {
    if s.len() >= 2 && s[0] == '\'' && s.last() == '\'' {
        s.subrange(1, s.len() - 1)
    } else {
        s
    }
}

pub open spec fn quoted(s: Seq<char>, q: char) -> bool {
    s.len() > 0 && s[0] == q && s.last() == q
}

/// How a declared type is written in a message.
pub open spec fn type_text(t: VarType) -> Seq<char> {
    match t {
        VarType::Int => "Int"@,
        VarType::String => "String"@,
        VarType::Float => "Float"@,
        VarType::Char { size } => "Char { size: "@ + dec(size as nat) + " }"@,
    }
}

/// How an initializer is written in a message.
pub open spec fn value_text(e: ExprV) -> Seq<char> {
    match e {
        ExprV::Literal(s) => "Literal(\""@ + s + "\")"@,
        ExprV::Identifier(s) => "Identifier(\""@ + s + "\")"@,
        ExprV::BinaryOp { .. } => "BinaryOp"@,
        ExprV::LogicalOp { .. } => "LogicalOp"@,
    }
}

/// The problem with the initializer `value` of the declaration of `name` as a `t`, if any.
pub open spec fn decl_error(name: Seq<char>, t: VarType, value: ExprV) -> Option<ErrV> {
    match (t, value) {
        (VarType::Int, ExprV::Literal(lit)) => if is_i32_text(lit) {
            None
        } else {
            Some(ErrV::VarTypeMisMatch { var_name: name, expected: "int"@, value: lit, line: 0 })
        },
        (VarType::Float, ExprV::Literal(lit)) => if is_f64_text(lit) {
            None
        } else {
            Some(ErrV::VarTypeMisMatch { var_name: name, expected: "float"@, value: lit, line: 0 })
        },
        (VarType::String, ExprV::Literal(lit)) => if quoted(lit, '"') {
            None
        } else {
            Some(
                ErrV::TypeMismatch {
                    var_name: name,
                    expected: "string literal enclosed in double quotes"@,
                    found: lit,
                    line: 0,
                },
            )
        },
        (VarType::Char { size }, ExprV::Literal(lit)) => if quoted(lit, '\'') {
            if char_body(lit).len() == size {
                None
            } else {
                Some(
                    ErrV::TypeMismatch {
                        var_name: name,
                        expected: "char literal of size "@ + dec(size as nat),
                        found: "char literal of size "@ + dec(char_body(lit).len()),
                        line: 0,
                    },
                )
            }
        } else {
            Some(
                ErrV::TypeMismatch {
                    var_name: name,
                    expected: "char literal enclosed in single quotes"@,
                    found: lit,
                    line: 0,
                },
            )
        },
        _ => Some(
            ErrV::TypeMismatch {
                var_name: name,
                expected: type_text(t),
                found: value_text(value),
                line: 0,
            },
        ),
    }
}

/// The errors of the first `n` statements of `s`, in order.
pub open spec fn decl_errors(s: Seq<NodeV>, n: int) -> Seq<ErrV>
    decreases n,
{
    if n <= 0 {
        Seq::empty()
    } else {
        decl_errors(s, n - 1) + match s[n - 1] {
            NodeV::VarDeclaration { name, var_type, value: Some(v), .. } => match decl_error(
                name,
                var_type,
                v,
            ) {
                Some(e) => seq![e],
                None => Seq::empty(),
            },
            _ => Seq::empty(),
        }
    }
}

/// The symbol table after the first `n` statements of `s`, from `m`: each declaration binds
/// its type, or `Int` when its initializer is wrong.
pub open spec fn checked_map(
    s: Seq<NodeV>,
    n: int,
    m: Map<Seq<char>, (VarType, usize)>,
) -> Map<Seq<char>, (VarType, usize)>
    decreases n,
{
    if n <= 0 {
        m
    } else {
        let prev = checked_map(s, n - 1, m);
        match s[n - 1] {
            NodeV::VarDeclaration { name, var_type, value, .. } => match value {
                Some(v) => if decl_error(name, var_type, v) is Some {
                    prev.insert(name, (VarType::Int, 0usize))
                } else {
                    prev.insert(name, (var_type, 0usize))
                },
                None => prev.insert(name, (var_type, 0usize)),
            },
            _ => prev,
        }
    }
}

fn var_type_text(t: VarType) -> (r: String)
    ensures
        r@ == type_text(t),
{
    match t {
        VarType::Int => String::from_str("Int"),
        VarType::String => String::from_str("String"),
        VarType::Float => String::from_str("Float"),
        VarType::Char { size } => {
            let mut r = String::from_str("Char { size: ");
            let d = decimal(size);
            r.append(d.as_str());
            r.append(" }");
            r
        },
    }
}

fn value_name(e: &Expression) -> (r: String)
    ensures
        r@ == value_text(crate::ast::expr_view(*e)),
{
    match e {
        Expression::Literal(s) => {
            let mut r = String::from_str("Literal(\"");
            r.append(s.as_str());
            r.append("\")");
            r
        },
        Expression::Identifier(s) => {
            let mut r = String::from_str("Identifier(\"");
            r.append(s.as_str());
            r.append("\")");
            r
        },
        Expression::BinaryOp { .. } => String::from_str("BinaryOp"),
        Expression::LogicalOp { .. } => String::from_str("LogicalOp"),
    }
}

/// The problem with one declaration's initializer (see `decl_error`).
fn check_declaration(name: &String, var_type: VarType, value: &Expression) -> (r: Option<VarError>)
    ensures
        match r {
            Some(e) => decl_error(name@, var_type, crate::ast::expr_view(*value)) == Some(err_view(e)),
            None => decl_error(name@, var_type, crate::ast::expr_view(*value)) is None,
        },
{
    let line: usize = 0;
    match (var_type, value) {
        (VarType::Int, Expression::Literal(lit)) => {
            if parses_as_i32(&chars_of(lit.as_str())) {
                None
            } else {
                Some(VarError::VarTypeMisMatch {
                    var_name: name.clone(),
                    expected: String::from_str("int"),
                    value: lit.clone(),
                    line,
                })
            }
        },
        (VarType::Float, Expression::Literal(lit)) => {
            if parses_as_f64(&chars_of(lit.as_str())) {
                None
            } else {
                Some(VarError::VarTypeMisMatch {
                    var_name: name.clone(),
                    expected: String::from_str("float"),
                    value: lit.clone(),
                    line,
                })
            }
        },
        (VarType::String, Expression::Literal(lit)) => {
            let cs = chars_of(lit.as_str());
            if cs.len() > 0 && cs[0] == '"' && cs[cs.len() - 1] == '"' {
                None
            } else {
                Some(VarError::TypeMismatch {
                    var_name: name.clone(),
                    expected: String::from_str("string literal enclosed in double quotes"),
                    found: lit.clone(),
                    line,
                })
            }
        },
        (VarType::Char { size }, Expression::Literal(lit)) => {
            let cs = chars_of(lit.as_str());
            if cs.len() > 0 && cs[0] == '\'' && cs[cs.len() - 1] == '\'' {
                let count: usize = if cs.len() >= 2 {
                    cs.len() - 2
                } else {
                    cs.len()
                };
                assert(char_body(lit@).len() == count);
                if count == size {
                    None
                } else {
                    let mut expected = String::from_str("char literal of size ");
                    let d1 = decimal(size);
                    expected.append(d1.as_str());
                    let mut found = String::from_str("char literal of size ");
                    let d2 = decimal(count);
                    found.append(d2.as_str());
                    Some(VarError::TypeMismatch { var_name: name.clone(), expected, found, line })
                }
            } else {
                Some(VarError::TypeMismatch {
                    var_name: name.clone(),
                    expected: String::from_str("char literal enclosed in single quotes"),
                    found: lit.clone(),
                    line,
                })
            }
        },
        _ => Some(VarError::TypeMismatch {
            var_name: name.clone(),
            expected: var_type_text(var_type),
            found: value_name(value),
            line,
        }),
    }
}

/// Enters each top-level declaration of `ast` in `var_map` and checks its initializer
/// against its type. A declaration with a wrong initializer is entered as an `Int`. Returns
/// the problems found, in order.
pub fn check_variables(ast: &AST, var_map: &mut VarMap) -> (r: Vec<VarError>)
    ensures
        r@.map_values(|e: VarError| err_view(e)) == decl_errors(nodes_view(ast.nodes()), ast.nodes().len() as int),
        final(var_map)@ == checked_map(nodes_view(ast.nodes()), ast.nodes().len() as int, old(var_map)@),
{
    let mut errors: Vec<VarError> = Vec::new();
    let nodes = match ast {
        AST::Program(v) => v,
    };
    let ghost s = nodes_view(nodes@);
    let mut i: usize = 0;
    while i < nodes.len()
        invariant
            i <= nodes@.len(),
            s == nodes_view(nodes@),
            nodes@ == ast.nodes(),
            errors@.map_values(|e: VarError| err_view(e)) == decl_errors(s, i as int),
            var_map@ == checked_map(s, i as int, old(var_map)@),
        decreases nodes@.len() - i,
    {
        proof {
            assert(s[i as int] == node_view(nodes@[i as int]));
        }
        let ghost before = errors@;
        if let ASTNode::VarDeclaration { name, var_type, value, .. } = &nodes[i] {
            var_map.insert(name.clone(), (*var_type, 0));
            match value {
                Some(expr) => {
                    match check_declaration(name, *var_type, expr) {
                        Some(err) => {
                            errors.push(err);
                            var_map.insert(name.clone(), (VarType::Int, 0));
                            assert(errors@.map_values(|e: VarError| err_view(e)) =~= before.map_values(|e: VarError| err_view(e)).push(err_view(err)));
                        },
                        None => {
                            assert(errors@.map_values(|e: VarError| err_view(e)) =~= before.map_values(|e: VarError| err_view(e)) + Seq::<ErrV>::empty());
                        },
                    }
                },
                None => {},
            }
        }
        i += 1;
    }
    errors
}

/// `s` without its first and last character when it has two or more and both are `"`.
pub fn strip_quotes(s: &str) -> (r: String)
    ensures
        r@ == crate::parser::strip_pair(s@, '"'),
{
    let cs = chars_of(s);
    if cs.len() >= 2 && cs[0] == '"' && cs[cs.len() - 1] == '"' {
        string_of(cs.as_slice(), 1, cs.len() - 1)
    } else {
        string_of(cs.as_slice(), 0, cs.len())
    }
}

/// `s` without its first and last character when it has two or more and both are `'`.
pub fn strip_char_quotes(s: &str) -> (r: String)
    ensures
        r@ == char_body(s@),
{
    let cs = chars_of(s);
    if cs.len() >= 2 && cs[0] == '\'' && cs[cs.len() - 1] == '\'' {
        string_of(cs.as_slice(), 1, cs.len() - 1)
    } else {
        string_of(cs.as_slice(), 0, cs.len())
    }
}

} // verus!
