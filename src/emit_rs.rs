use vstd::prelude::*;

use crate::ast::{
    expr_view, node_view, ASTNode, ComparisonOperator, ExprV, Expression, LogicalOperator,
    MathOperator, NodeV, VarType, AST,
};
use crate::emit_c::{c_cmp, c_cond, c_logic, c_op, translate_condition_to_c};
use crate::pass2::{body_assigns, collect_assigned, is_listed_name, listed_name};
use crate::pass1::nodes_view;
use crate::emit_common::{collect_decl_types, decl_types};
use crate::names::NameMap;

verus! {

pub open spec fn rs_type_text(t: VarType) -> Seq<char> {
    match t {
        VarType::Int => "i32"@,
        VarType::String => "String"@,
        VarType::Char { .. } => "char"@,
        VarType::Float => "f64"@,
    }
}

pub open spec fn rs_init(value: Option<ExprV>) -> Seq<char> {
    match value {
        Some(ExprV::Literal(v)) => " = "@ + v,
        Some(ExprV::Identifier(v)) => " = "@ + v,
        _ => Seq::empty(),
    }
}

pub open spec fn rs_target(to_stderr: bool) -> Seq<char> {
    if to_stderr {
        "std::io::stderr().lock()"@
    } else {
        "std::io::stdout().lock()"@
    }
}

/// The text of a plain operand; nothing for a nested condition.
pub open spec fn rs_side(e: ExprV) -> Seq<char> {
    match e {
        ExprV::Literal(v) => v,
        ExprV::Identifier(v) => v,
        _ => Seq::empty(),
    }
}

pub open spec fn rs_operand(e: ExprV) -> Seq<char> {
    match e {
        ExprV::Literal(v) => v,
        ExprV::Identifier(v) => v,
        ExprV::BinaryOp { left, operator, right } => "("@ + rs_side(*left) + " "@ + c_cmp(operator)
            + " "@ + rs_side(*right) + ")"@,
        ExprV::LogicalOp { left, operator, right } => "("@ + rs_side(*left) + " "@ + c_logic(
            operator,
        ) + " "@ + rs_side(*right) + ")"@,
    }
}

pub open spec fn rs_decl(mutable: bool, name: Seq<char>, t: VarType, value: Option<ExprV>) -> Seq<char> {
    "    let "@ + (if mutable {
        "mut "@
    } else {
        ""@
    }) + name + ": "@ + rs_type_text(t) + rs_init(value) + ";\n"@
}

pub open spec fn rs_print(to_stderr: bool, expr: Option<ExprV>) -> Seq<char> {
    match expr {
        Some(ExprV::Literal(v)) => "    writeln!(&mut "@ + rs_target(to_stderr) + ", \""@ + v
            + "\").unwrap();\n"@,
        Some(ExprV::Identifier(v)) => "    writeln!(&mut "@ + rs_target(to_stderr) + ", \"{}\", "@
            + v + ").unwrap();\n"@,
        _ => "    writeln!(&mut "@ + rs_target(to_stderr) + ").unwrap();\n"@,
    }
}

pub open spec fn rs_math(name: Seq<char>, op: MathOperator, operand: ExprV) -> Seq<char> {
    "    "@ + name + " = "@ + name + " "@ + c_op(op) + " "@ + rs_operand(operand) + ";\n"@
}

/// Reading a line into `name`: a string takes it as it is, a number or a character is
/// parsed from it, blanks trimmed.
pub open spec fn rs_input(name: Seq<char>, m: Map<Seq<char>, VarType>) -> Seq<char> {
    if m.contains_key(name) && !(m[name] is String) {
        "    { let mut line = String::new(); std::io::stdin().read_line(&mut line).unwrap(); "@ + name
            + " = line.trim().parse().unwrap(); }\n"@
    } else {
        "    std::io::stdin().read_line(&mut "@ + name + ").unwrap();\n"@
    }
}

/// The Rust code of one statement of the program `all`; a declaration is `mut` when it is
/// mutable or `all` assigns it; a conditional becomes an `if` around its body.
pub open spec fn rs_node(n: NodeV, all: Seq<NodeV>) -> Seq<char>
    decreases n, 0int,
{
    match n {
        NodeV::VarDeclaration { mutable, name, var_type, value } => rs_decl(
            mutable || body_assigns(all, all.len() as int, name),
            name,
            var_type,
            value,
        ),
        NodeV::Input { name } => rs_input(name, decl_types(all, all.len() as int)),
        NodeV::Print { to_stderr, expr } => rs_print(to_stderr, expr),
        NodeV::MathOp { name, operator, operand } => rs_math(name, operator, operand),
        NodeV::If { condition, body } => "    if "@ + c_cond(condition) + " {\n"@ + rs_body(
            body,
            body.len() as int,
            all,
        ) + "    }\n"@,
    }
}

/// The Rust code of the first `k` statements of a conditional's body.
pub open spec fn rs_body(body: Seq<NodeV>, k: int, all: Seq<NodeV>) -> Seq<char>
    decreases body, k,
{
    if k <= 0 || k > body.len() {
        Seq::empty()
    } else {
        rs_body(body, k - 1, all) + rs_node(body[k - 1], all)
    }
}

/// The Rust code of the first `k` statements of `s`.
pub open spec fn rs_nodes(s: Seq<NodeV>, k: int) -> Seq<char>
    decreases k,
{
    if k <= 0 {
        Seq::empty()
    } else {
        rs_nodes(s, k - 1) + rs_node(s[k - 1], s)
    }
}

/// The Rust program of the statements `s`.
pub open spec fn rs_program(s: Seq<NodeV>) -> Seq<char> {
    "use std::io::Write;\n"@ + "fn main() {\n"@ + rs_nodes(s, s.len() as int) + "}\n"@
}

fn side_text(e: &Expression) -> (r: String)
    ensures
        r@ == rs_side(expr_view(*e)),
{
    match e {
        Expression::Literal(v) => v.clone(),
        Expression::Identifier(v) => v.clone(),
        _ => String::new(),
    }
}

fn operand_text(e: &Expression) -> (r: String)
    ensures
        r@ == rs_operand(expr_view(*e)),
{
    match e {
        Expression::Literal(v) => v.clone(),
        Expression::Identifier(v) => v.clone(),
        Expression::BinaryOp { left, operator, right } => {
            let op = match operator {
                ComparisonOperator::Equal => "==",
                ComparisonOperator::NotEqual => "!=",
                ComparisonOperator::LessThan => "<",
                ComparisonOperator::LessThanEqual => "<=",
                ComparisonOperator::GreaterThan => ">",
                ComparisonOperator::GreaterThanEqual => ">=",
            };
            let mut r = String::from_str("(");
            let l = side_text(left);
            let rt = side_text(right);
            r.append(l.as_str());
            r.append(" ");
            r.append(op);
            r.append(" ");
            r.append(rt.as_str());
            r.append(")");
            r
        },
        Expression::LogicalOp { left, operator, right } => {
            let op = match operator {
                LogicalOperator::And => "&&",
                LogicalOperator::Or => "||",
            };
            let mut r = String::from_str("(");
            let l = side_text(left);
            let rt = side_text(right);
            r.append(l.as_str());
            r.append(" ");
            r.append(op);
            r.append(" ");
            r.append(rt.as_str());
            r.append(")");
            r
        },
    }
}

fn emit_rs_decl(code: &mut String, mutable: bool, name: &String, var_type: VarType, value: &Option<Expression>)
    ensures
        final(code)@ == old(code)@ + rs_decl(mutable, name@, var_type, crate::ast::opt_view(*value)),
{
    let ghost c0 = code@;
    code.append("    let ");
    code.append(
        if mutable {
            "mut "
        } else {
            ""
        },
    );
    code.append(name.as_str());
    code.append(": ");
    code.append(
        match var_type {
            VarType::Int => "i32",
            VarType::String => "String",
            VarType::Char { .. } => "char",
            VarType::Float => "f64",
        },
    );
    let ghost c1 = code@;
    match value {
        Some(Expression::Literal(v)) => {
            code.append(" = ");
            code.append(v.as_str());
        },
        Some(Expression::Identifier(v)) => {
            code.append(" = ");
            code.append(v.as_str());
        },
        _ => {},
    }
    assert(code@ == c1 + rs_init(crate::ast::opt_view(*value)));
    code.append(";\n");
}

fn emit_rs_print(code: &mut String, to_stderr: bool, expr: &Option<Expression>)
    ensures
        final(code)@ == old(code)@ + rs_print(to_stderr, crate::ast::opt_view(*expr)),
{
    let t = if to_stderr {
        "std::io::stderr().lock()"
    } else {
        "std::io::stdout().lock()"
    };
    let ghost c0 = code@;
    match expr {
        Some(Expression::Literal(v)) => {
            code.append("    writeln!(&mut ");
            code.append(t);
            code.append(", \"");
            code.append(v.as_str());
            code.append("\").unwrap();\n");
        },
        Some(Expression::Identifier(v)) => {
            code.append("    writeln!(&mut ");
            code.append(t);
            code.append(", \"{}\", ");
            code.append(v.as_str());
            code.append(").unwrap();\n");
        },
        _ => {
            code.append("    writeln!(&mut ");
            code.append(t);
            code.append(").unwrap();\n");
        },
    }
}

fn emit_rs_math(code: &mut String, name: &String, operator: MathOperator, operand: &Expression)
    ensures
        final(code)@ == old(code)@ + rs_math(name@, operator, expr_view(*operand)),
{
    let op = match operator {
        MathOperator::Add => "+",
        MathOperator::Subtract => "-",
        MathOperator::Multiply => "*",
        MathOperator::Divide => "/",
    };
    let arg = operand_text(operand);
    code.append("    ");
    code.append(name.as_str());
    code.append(" = ");
    code.append(name.as_str());
    code.append(" ");
    code.append(op);
    code.append(" ");
    code.append(arg.as_str());
    code.append(";\n");
}

fn emit_rs_input(code: &mut String, name: &String, types: &NameMap<VarType>)
    ensures
        final(code)@ == old(code)@ + rs_input(name@, types@),
{
    let ghost c0 = code@;
    let numeric = match types.get(name) {
        Some(VarType::String) => false,
        Some(_) => true,
        None => false,
    };
    if numeric {
        code.append("    { let mut line = String::new(); std::io::stdin().read_line(&mut line).unwrap(); ");
        code.append(name.as_str());
        code.append(" = line.trim().parse().unwrap(); }\n");
    } else {
        code.append("    std::io::stdin().read_line(&mut ");
        code.append(name.as_str());
        code.append(").unwrap();\n");
    }
}

fn emit_rs_node(code: &mut String, node: &ASTNode, assigned: &Vec<String>, types: &NameMap<VarType>, all: Ghost<Seq<NodeV>>)
    requires
        forall|x: Seq<char>| #[trigger] listed_name(assigned@, x) <==> body_assigns(all@, all@.len() as int, x),
        types@ == decl_types(all@, all@.len() as int),
    ensures
        final(code)@ == old(code)@ + rs_node(node_view(*node), all@),
    decreases node,
{
    match node {
        ASTNode::VarDeclaration { mutable, name, var_type, value } => {
            let m = *mutable || is_listed_name(assigned, name);
            emit_rs_decl(code, m, name, *var_type, value);
        },
        ASTNode::Input { name } => {
            emit_rs_input(code, name, types);
        },
        ASTNode::Print { to_stderr, expr } => {
            emit_rs_print(code, *to_stderr, expr);
        },
        ASTNode::MathOp { name, operator, operand } => {
            emit_rs_math(code, name, *operator, operand);
        },
        ASTNode::If { condition, body } => {
            let ghost c0 = code@;
            code.append("    if ");
            let c = translate_condition_to_c(condition);
            code.append(c.as_str());
            code.append(" {\n");
            let ghost bv = match node_view(*node) {
                NodeV::If { body, .. } => body,
                _ => Seq::empty(),
            };
            let ghost c1 = code@;
            let mut i: usize = 0;
            assert(decreases_to!(*node => *body));
            while i < body.len()
                invariant
                    decreases_to!(*node => *body),
                    i <= body@.len(),
                    bv.len() == body@.len(),
                    forall|j: int| 0 <= j < bv.len() ==> #[trigger] bv[j] == node_view(body@[j]),
                    forall|x: Seq<char>| #[trigger] listed_name(assigned@, x) <==> body_assigns(all@, all@.len() as int, x),
                    types@ == decl_types(all@, all@.len() as int),
                    code@ == c1 + rs_body(bv, i as int, all@),
                decreases body@.len() - i,
            {
                proof {
                    assert(decreases_to!(*body => body[i as int]));
                    assert(bv[i as int] == node_view(body@[i as int]));
                }
                emit_rs_node(code, &body[i], assigned, types, all);
                i += 1;
            }
            code.append("    }\n");
            assert(code@ == c0 + rs_node(node_view(*node), all@)) by {
                assert(c1 == c0 + ("    if "@ + c_cond(expr_view(*condition)) + " {\n"@));
            }
        },
    }
}

/// The Rust program of `ast` (see `rs_program`).
pub fn transpile_rs(ast: &AST) -> (r: String)
    ensures
        r@ == rs_program(nodes_view(ast.nodes())),
{
    let nodes = match ast {
        AST::Program(v) => v,
    };
    let ghost s = nodes_view(nodes@);
    let mut assigned: Vec<String> = Vec::new();
    collect_assigned(nodes, &mut assigned);
    let types = collect_decl_types(nodes);
    let mut code = String::new();
    code.append("use std::io::Write;\n");
    code.append("fn main() {\n");
    let ghost head = code@;
    let mut i: usize = 0;
    while i < nodes.len()
        invariant
            i <= nodes@.len(),
            s == nodes_view(nodes@),
            nodes@ == ast.nodes(),
            head == "use std::io::Write;\n"@ + "fn main() {\n"@,
            code@ == head + rs_nodes(s, i as int),
            forall|x: Seq<char>| #[trigger] listed_name(assigned@, x) <==> body_assigns(s, s.len() as int, x),
            types@ == decl_types(s, s.len() as int),
        decreases nodes@.len() - i,
    {
        proof {
            assert(s[i as int] == node_view(nodes@[i as int]));
        }
        emit_rs_node(&mut code, &nodes[i], &assigned, &types, Ghost(s));
        i += 1;
    }
    code.append("}\n");
    code
}

} // verus!
