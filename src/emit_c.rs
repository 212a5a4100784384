use vstd::prelude::*;

use crate::ast::{
    expr_view, node_view, ASTNode, ComparisonOperator, ExprV, Expression, LogicalOperator,
    MathOperator, NodeV, VarType, AST,
};
use crate::emit_common::{bump, bump_exec, collect_decl_types, decl_types};
use crate::names::NameMap;
use crate::numtext::{dec, decimal};
use crate::pass1::nodes_view;
use crate::text::{chars_of, push_char};

verus! {

pub open spec fn c_type_text(t: VarType) -> Seq<char> {
    match t {
        VarType::Int => "int"@,
        VarType::String => "char*"@,
        VarType::Char { .. } => "char"@,
        VarType::Float => "float"@,
    }
}

/// The `printf` conversion for variable `name`, or `default` when it is not declared.
pub open spec fn c_conv(m: Map<Seq<char>, VarType>, name: Seq<char>, default: Seq<char>) -> Seq<char> {
    if m.contains_key(name) {
        match m[name] {
            VarType::Int => "%d"@,
            VarType::Float => "%f"@,
            VarType::String => "%s"@,
            VarType::Char { .. } => "%c"@,
        }
    } else {
        default
    }
}

pub open spec fn c_init(value: Option<ExprV>) -> Seq<char> {
    match value {
        Some(ExprV::Literal(v)) => " = "@ + v,
        Some(ExprV::Identifier(v)) => " = "@ + v,
        _ => Seq::empty(),
    }
}

pub open spec fn c_decl(name: Seq<char>, t: VarType, value: Option<ExprV>) -> Seq<char> {
    if t is String {
        "    char* "@ + name + " = malloc(256);\n"@ + match value {
            Some(ExprV::Literal(v)) => "    strcpy("@ + name + ", \""@ + v + "\");\n"@,
            Some(ExprV::Identifier(v)) => "    strcpy("@ + name + ", "@ + v + ");\n"@,
            _ => Seq::empty(),
        }
    } else {
        "    "@ + c_type_text(t) + " "@ + name + c_init(value) + ";\n"@
    }
}

pub open spec fn c_read_line(name: Seq<char>) -> Seq<char> {
    "    fgets("@ + name + ", 256, stdin);\n"@ + "    size_t len = strlen("@ + name + ");\n"@
        + "    if(len > 0 && "@ + name + "[len-1] == '\\n') "@ + name + "[len-1] = '\\0';\n"@
}

/// Reading a value into `name`: a number or a character with `scanf`, a string with
/// `fgets`, its newline dropped.
pub open spec fn c_input(name: Seq<char>, m: Map<Seq<char>, VarType>) -> Seq<char> {
    if m.contains_key(name) && m[name] is Int {
        "    scanf(\"%d\", &"@ + name + ");\n"@
    } else if m.contains_key(name) && m[name] is Float {
        "    scanf(\"%f\", &"@ + name + ");\n"@
    } else if m.contains_key(name) && m[name] is Char {
        "    scanf(\" %c\", &"@ + name + ");\n"@
    } else {
        c_read_line(name)
    }
}

pub open spec fn c_target(to_stderr: bool) -> Seq<char> {
    if to_stderr {
        "stderr"@
    } else {
        "stdout"@
    }
}

/// The state of the scan of a print's text: the format so far, the argument list so far,
/// the name being read, and whether the scan is inside braces.
pub struct CScan {
    pub fmt: Seq<char>,
    pub args: Seq<char>,
    pub cur: Seq<char>,
    pub in_var: bool,
}

/// The scan of the first `k` characters of `text`: text outside braces goes to the format,
/// each non-empty `{name}` becomes a conversion and an argument, braces themselves vanish.
pub open spec fn c_scan(text: Seq<char>, m: Map<Seq<char>, VarType>, k: int) -> CScan
    decreases k,
{
    if k <= 0 {
        CScan { fmt: Seq::empty(), args: Seq::empty(), cur: Seq::empty(), in_var: false }
    } else {
        let st = c_scan(text, m, k - 1);
        let c = text[k - 1];
        if c == '{' {
            CScan { fmt: st.fmt, args: st.args, cur: st.cur, in_var: true }
        } else if c == '}' {
            if st.cur.len() > 0 {
                CScan {
                    fmt: st.fmt + c_conv(m, st.cur, "%d"@),
                    args: st.args + ", "@ + st.cur,
                    cur: Seq::empty(),
                    in_var: false,
                }
            } else {
                CScan { fmt: st.fmt, args: st.args, cur: st.cur, in_var: false }
            }
        } else if st.in_var {
            CScan { fmt: st.fmt, args: st.args, cur: st.cur.push(c), in_var: st.in_var }
        } else {
            CScan { fmt: st.fmt.push(c), args: st.args, cur: st.cur, in_var: st.in_var }
        }
    }
}

pub open spec fn c_print(indent: Seq<char>, to_stderr: bool, expr: Option<ExprV>, m: Map<Seq<char>, VarType>) -> Seq<char> {
    let t = c_target(to_stderr);
    match expr {
        Some(ExprV::Literal(text)) => {
            let st = c_scan(text, m, text.len() as int);
            indent + "fprintf("@ + t + ", \""@ + st.fmt + "\""@ + st.args + ");\n"@
        },
        Some(ExprV::Identifier(v)) => indent + "fprintf("@ + t + ", \""@ + c_conv(m, v, "%s"@) + "\", "@ + v + ");\n"@,
        Some(_) => indent + "fprintf("@ + t + ", \"Complex expression\");\n"@,
        None => indent + "fprintf("@ + t + ", \"\");\n"@,
    }
}

pub open spec fn c_op(op: MathOperator) -> Seq<char> {
    match op {
        MathOperator::Add => "+"@,
        MathOperator::Subtract => "-"@,
        MathOperator::Multiply => "*"@,
        MathOperator::Divide => "/"@,
    }
}

/// The C code of a math statement, and the counter for fresh names after it.
pub open spec fn c_math(name: Seq<char>, op: MathOperator, operand: ExprV, ctr: usize) -> (Seq<char>, usize) {
    let (pre, arg, ctr1) = match operand {
        ExprV::Literal(v) => (Seq::<char>::empty(), v, ctr),
        ExprV::Identifier(v) => {
            let u = v + "_"@ + dec(ctr as nat);
            ("    int "@ + u + " = "@ + v + ";\n"@, u, bump(ctr))
        },
        _ => (Seq::<char>::empty(), "0"@, ctr),
    };
    let fresh = name + "_"@ + dec(ctr1 as nat);
    (pre + c_store(name, op, arg, fresh), bump(ctr1))
}

pub open spec fn c_cmp(op: ComparisonOperator) -> Seq<char> {
    match op {
        ComparisonOperator::Equal => "=="@,
        ComparisonOperator::NotEqual => "!="@,
        ComparisonOperator::LessThan => "<"@,
        ComparisonOperator::LessThanEqual => "<="@,
        ComparisonOperator::GreaterThan => ">"@,
        ComparisonOperator::GreaterThanEqual => ">="@,
    }
}

pub open spec fn c_logic(op: LogicalOperator) -> Seq<char> {
    match op {
        LogicalOperator::And => "&&"@,
        LogicalOperator::Or => "||"@,
    }
}

/// A condition in C, each comparison and connective in parentheses.
pub open spec fn c_cond(e: ExprV) -> Seq<char>
    decreases e,
{
    match e {
        ExprV::Literal(v) => v,
        ExprV::Identifier(v) => v,
        ExprV::BinaryOp { left, operator, right } => "("@ + c_cond(*left) + " "@ + c_cmp(operator)
            + " "@ + c_cond(*right) + ")"@,
        ExprV::LogicalOp { left, operator, right } => "("@ + c_cond(*left) + " "@ + c_logic(
            operator,
        ) + " "@ + c_cond(*right) + ")"@,
    }
}

/// The C code of the first `k` statements of a conditional's body, and the counter after
/// them.
pub open spec fn c_body(body: Seq<NodeV>, m: Map<Seq<char>, VarType>, k: int, ctr: usize) -> (Seq<char>, usize)
    decreases body, k,
{
    if k <= 0 || k > body.len() {
        (Seq::empty(), ctr)
    } else {
        let (prev, c1) = c_body(body, m, k - 1, ctr);
        let (code, c2) = c_node(body[k - 1], m, c1);
        (prev + code, c2)
    }
}

/// The C code of a statement, and the counter for fresh names after it.
pub open spec fn c_node(n: NodeV, m: Map<Seq<char>, VarType>, ctr: usize) -> (Seq<char>, usize)
    decreases n, 0int,
{
    match n {
        NodeV::VarDeclaration { name, var_type, value, .. } => (c_decl(name, var_type, value), ctr),
        NodeV::Input { name } => (c_input(name, m), ctr),
        NodeV::Print { to_stderr, expr } => (c_print("    "@, to_stderr, expr, m), ctr),
        NodeV::MathOp { name, operator, operand } => c_math(name, operator, operand, ctr),
        NodeV::If { condition, body } => {
            let (b, c2) = c_body(body, m, body.len() as int, ctr);
            ("    if ("@ + c_cond(condition) + ") {\n"@ + b + "    }\n"@, c2)
        },
    }
}

/// The C code of the first `k` statements of `s`, and the counter after them.
pub open spec fn c_nodes(s: Seq<NodeV>, m: Map<Seq<char>, VarType>, k: int) -> (Seq<char>, usize)
    decreases k,
{
    if k <= 0 {
        (Seq::empty(), 0)
    } else {
        let (prev, ctr) = c_nodes(s, m, k - 1);
        let (code, ctr2) = c_node(s[k - 1], m, ctr);
        (prev + code, ctr2)
    }
}

pub open spec fn c_header() -> Seq<char> {
    "#include <stdio.h>\n"@ + "#include <stdlib.h>\n"@ + "#include <string.h>\n"@ + "\nint main() {\n"@
}

/// The C translation unit of the statements `s`.
pub open spec fn c_program(s: Seq<NodeV>) -> Seq<char> {
    c_header() + c_nodes(s, decl_types(s, s.len() as int), s.len() as int).0 + "    return 0;\n}\n"@
}

fn target_text(to_stderr: bool) -> (r: &'static str)
    ensures
        r@ == c_target(to_stderr),
{
    if to_stderr {
        "stderr"
    } else {
        "stdout"
    }
}

fn conv(m: &NameMap<VarType>, name: &String, default: &'static str) -> (r: &'static str)
    ensures
        r@ == c_conv(m@, name@, default@),
{
    match m.get(name) {
        Some(VarType::Int) => "%d",
        Some(VarType::Float) => "%f",
        Some(VarType::String) => "%s",
        Some(VarType::Char { .. }) => "%c",
        None => default,
    }
}

fn emit_print(code: &mut String, indent: &str, to_stderr: bool, expr: &Option<Expression>, m: &NameMap<VarType>)
    ensures
        final(code)@ == old(code)@ + c_print(indent@, to_stderr, crate::ast::opt_view(*expr), m@),
{
    let t = target_text(to_stderr);
    match expr {
        Some(Expression::Literal(text)) => {
            let cs = chars_of(text.as_str());
            let mut fmt = String::new();
            let mut args = String::new();
            let mut cur = String::new();
            let mut in_var = false;
            let mut k: usize = 0;
            while k < cs.len()
                invariant
                    k <= cs@.len(),
                    cs@ == text@,
                    ({
                        let st = c_scan(text@, m@, k as int);
                        st.fmt == fmt@ && st.args == args@ && st.cur == cur@ && st.in_var == in_var
                    }),
                decreases cs@.len() - k,
            {
                let c = cs[k];
                if c == '{' {
                    in_var = true;
                } else if c == '}' {
                    in_var = false;
                    if !cur.as_str().is_empty() {
                        fmt.append(conv(m, &cur, "%d"));
                        args.append(", ");
                        args.append(cur.as_str());
                        cur = String::new();
                    }
                } else if in_var {
                    push_char(&mut cur, c);
                } else {
                    push_char(&mut fmt, c);
                }
                k += 1;
            }
            code.append(indent);
            code.append("fprintf(");
            code.append(t);
            code.append(", \"");
            code.append(fmt.as_str());
            code.append("\"");
            code.append(args.as_str());
            code.append(");\n");
        },
        Some(Expression::Identifier(v)) => {
            code.append(indent);
            code.append("fprintf(");
            code.append(t);
            code.append(", \"");
            code.append(conv(m, v, "%s"));
            code.append("\", ");
            code.append(v.as_str());
            code.append(");\n");
        },
        Some(_) => {
            code.append(indent);
            code.append("fprintf(");
            code.append(t);
            code.append(", \"Complex expression\");\n");
        },
        None => {
            code.append(indent);
            code.append("fprintf(");
            code.append(t);
            code.append(", \"\");\n");
        },
    }
}

/// Translates a condition to C (see `c_cond`).
pub(crate) fn translate_condition_to_c(expr: &Expression) -> (r: String)
    ensures
        r@ == c_cond(expr_view(*expr)),
    decreases expr,
{
    match expr {
        Expression::Literal(v) => v.clone(),
        Expression::Identifier(v) => v.clone(),
        Expression::BinaryOp { left, operator, right } => {
            let l = translate_condition_to_c(left);
            let rt = translate_condition_to_c(right);
            let op = match operator {
                ComparisonOperator::Equal => "==",
                ComparisonOperator::NotEqual => "!=",
                ComparisonOperator::LessThan => "<",
                ComparisonOperator::LessThanEqual => "<=",
                ComparisonOperator::GreaterThan => ">",
                ComparisonOperator::GreaterThanEqual => ">=",
            };
            let mut r = String::from_str("(");
            r.append(l.as_str());
            r.append(" ");
            r.append(op);
            r.append(" ");
            r.append(rt.as_str());
            r.append(")");
            r
        },
        Expression::LogicalOp { left, operator, right } => {
            let l = translate_condition_to_c(left);
            let rt = translate_condition_to_c(right);
            let op = match operator {
                LogicalOperator::And => "&&",
                LogicalOperator::Or => "||",
            };
            let mut r = String::from_str("(");
            r.append(l.as_str());
            r.append(" ");
            r.append(op);
            r.append(" ");
            r.append(rt.as_str());
            r.append(")");
            r
        },
    }
}

fn emit_decl(code: &mut String, name: &String, var_type: VarType, value: &Option<Expression>)
    ensures
        final(code)@ == old(code)@ + c_decl(name@, var_type, crate::ast::opt_view(*value)),
{
    if let VarType::String = var_type {
        let ghost c0 = code@;
        code.append("    char* ");
        code.append(name.as_str());
        code.append(" = malloc(256);\n");
        let ghost c1 = code@;
        match value {
            Some(Expression::Literal(v)) => {
                code.append("    strcpy(");
                code.append(name.as_str());
                code.append(", \"");
                code.append(v.as_str());
                code.append("\");\n");
                assert(code@ == c1 + ("    strcpy("@ + name@ + ", \""@ + v@ + "\");\n"@));
            },
            Some(Expression::Identifier(v)) => {
                code.append("    strcpy(");
                code.append(name.as_str());
                code.append(", ");
                code.append(v.as_str());
                code.append(");\n");
                assert(code@ == c1 + ("    strcpy("@ + name@ + ", "@ + v@ + ");\n"@));
            },
            _ => {
                assert(code@ == c1 + Seq::<char>::empty());
            },
        }
        assert(c1 == c0 + ("    char* "@ + name@ + " = malloc(256);\n"@));
    } else {
        code.append("    ");
        code.append(
            match var_type {
                VarType::Int => "int",
                VarType::String => "char*",
                VarType::Char { .. } => "char",
                VarType::Float => "float",
            },
        );
        code.append(" ");
        code.append(name.as_str());
        match value {
            Some(Expression::Literal(v)) => {
                code.append(" = ");
                code.append(v.as_str());
            },
            Some(Expression::Identifier(v)) => {
                code.append(" = ");
                code.append(v.as_str());
            },
            _ => {},
        }
        code.append(";\n");
    }
}

fn emit_input(code: &mut String, name: &String, m: &NameMap<VarType>)
    ensures
        final(code)@ == old(code)@ + c_input(name@, m@),
{
    let ghost c0 = code@;
    let fmt = match m.get(name) {
        Some(VarType::Int) => "    scanf(\"%d\", &",
        Some(VarType::Float) => "    scanf(\"%f\", &",
        Some(VarType::Char { .. }) => "    scanf(\" %c\", &",
        _ => "",
    };
    if fmt.is_empty() {
        code.append("    fgets(");
        code.append(name.as_str());
        code.append(", 256, stdin);\n");
        code.append("    size_t len = strlen(");
        code.append(name.as_str());
        code.append(");\n");
        code.append("    if(len > 0 && ");
        code.append(name.as_str());
        code.append("[len-1] == '\\n') ");
        code.append(name.as_str());
        code.append("[len-1] = '\\0';\n");
        assert(code@ == c0 + c_read_line(name@));
        proof {
            reveal_strlit("");
            reveal_strlit("    scanf(\"%d\", &");
            reveal_strlit("    scanf(\"%f\", &");
            reveal_strlit("    scanf(\" %c\", &");
        }
    } else {
        code.append(fmt);
        code.append(name.as_str());
        code.append(");\n");
        proof {
            reveal_strlit("");
        }
    }
}

/// The text that assigns `value` to the fresh name `fresh` and stores it back in `name`.
pub open spec fn c_store(name: Seq<char>, op: MathOperator, arg: Seq<char>, fresh: Seq<char>) -> Seq<char> {
    "    int "@ + fresh + " = "@ + name + " "@ + c_op(op) + " "@ + arg + ";\n"@ + "    "@ + name
        + " = "@ + fresh + ";\n"@
}

fn emit_operand(code: &mut String, operand: &Expression, ctr: usize) -> (r: (String, usize))
    ensures
        ({
            let (pre, arg, ctr1) = match expr_view(*operand) {
                ExprV::Literal(v) => (Seq::<char>::empty(), v, ctr),
                ExprV::Identifier(v) => {
                    let u = v + "_"@ + dec(ctr as nat);
                    ("    int "@ + u + " = "@ + v + ";\n"@, u, bump(ctr))
                },
                _ => (Seq::<char>::empty(), "0"@, ctr),
            };
            final(code)@ == old(code)@ + pre && r.0@ == arg && r.1 == ctr1
        }),
{
    match operand {
        Expression::Literal(v) => {
            assert(code@ == code@ + Seq::<char>::empty());
            (v.clone(), ctr)
        },
        Expression::Identifier(v) => {
            let mut u = v.clone();
            u.append("_");
            let d = decimal(ctr);
            u.append(d.as_str());
            let ghost c0 = code@;
            code.append("    int ");
            code.append(u.as_str());
            code.append(" = ");
            code.append(v.as_str());
            code.append(";\n");
            assert(code@ == c0 + ("    int "@ + u@ + " = "@ + v@ + ";\n"@));
            (u, bump_exec(ctr))
        },
        _ => {
            assert(code@ == code@ + Seq::<char>::empty());
            (String::from_str("0"), ctr)
        },
    }
}

fn emit_store(code: &mut String, name: &String, operator: MathOperator, arg: &String, fresh: &String)
    ensures
        final(code)@ == old(code)@ + c_store(name@, operator, arg@, fresh@),
{
    let op = match operator {
        MathOperator::Add => "+",
        MathOperator::Subtract => "-",
        MathOperator::Multiply => "*",
        MathOperator::Divide => "/",
    };
    let ghost c0 = code@;
    code.append("    int ");
    code.append(fresh.as_str());
    code.append(" = ");
    code.append(name.as_str());
    code.append(" ");
    code.append(op);
    code.append(" ");
    code.append(arg.as_str());
    code.append(";\n");
    code.append("    ");
    code.append(name.as_str());
    code.append(" = ");
    code.append(fresh.as_str());
    code.append(";\n");
    assert(code@ == c0 + c_store(name@, operator, arg@, fresh@));
}

fn emit_math(code: &mut String, name: &String, operator: MathOperator, operand: &Expression, ctr: usize) -> (r: usize)
    ensures
        final(code)@ == old(code)@ + c_math(name@, operator, expr_view(*operand), ctr).0,
        r == c_math(name@, operator, expr_view(*operand), ctr).1,
{
    let ghost c0 = code@;
    let (arg, ctr1) = emit_operand(code, operand, ctr);
    let ghost c1 = code@;
    let mut fresh = name.clone();
    fresh.append("_");
    let d = decimal(ctr1);
    fresh.append(d.as_str());
    emit_store(code, name, operator, &arg, &fresh);
    assert(code@ == c0 + (c1.subrange(c0.len() as int, c1.len() as int) + c_store(name@, operator, arg@, fresh@))) by {
        assert(c1 == c0 + c1.subrange(c0.len() as int, c1.len() as int));
    }
    bump_exec(ctr1)
}

fn emit_node(code: &mut String, node: &ASTNode, m: &NameMap<VarType>, ctr: usize) -> (r: usize)
    ensures
        final(code)@ == old(code)@ + c_node(node_view(*node), m@, ctr).0,
        r == c_node(node_view(*node), m@, ctr).1,
    decreases node,
{
    match node {
        ASTNode::VarDeclaration { name, var_type, value, .. } => {
            emit_decl(code, name, *var_type, value);
            ctr
        },
        ASTNode::Input { name } => {
            emit_input(code, name, m);
            ctr
        },
        ASTNode::Print { to_stderr, expr } => {
            emit_print(code, "    ", *to_stderr, expr, m);
            ctr
        },
        ASTNode::MathOp { name, operator, operand } => emit_math(code, name, *operator, operand, ctr),
        ASTNode::If { condition, body } => {
            let ghost c0 = code@;
            code.append("    if (");
            let c = translate_condition_to_c(condition);
            code.append(c.as_str());
            code.append(") {\n");
            let ghost bv = match node_view(*node) {
                NodeV::If { body, .. } => body,
                _ => Seq::empty(),
            };
            let ghost c1 = code@;
            let mut k = ctr;
            let mut i: usize = 0;
            assert(decreases_to!(*node => *body));
            while i < body.len()
                invariant
                    decreases_to!(*node => *body),
                    i <= body@.len(),
                    bv.len() == body@.len(),
                    forall|j: int| 0 <= j < bv.len() ==> #[trigger] bv[j] == node_view(body@[j]),
                    code@ == c1 + c_body(bv, m@, i as int, ctr).0,
                    k == c_body(bv, m@, i as int, ctr).1,
                decreases body@.len() - i,
            {
                proof {
                    assert(decreases_to!(*body => body[i as int]));
                    assert(bv[i as int] == node_view(body@[i as int]));
                }
                k = emit_node(code, &body[i], m, k);
                i += 1;
            }
            code.append("    }\n");
            assert(code@ == c0 + c_node(node_view(*node), m@, ctr).0) by {
                assert(c1 == c0 + ("    if ("@ + c_cond(expr_view(*condition)) + ") {\n"@));
            }
            k
        },
    }
}

/// The C translation unit of `ast` (see `c_program`): a `main` with typed locals, one
/// `fprintf` per print, one `fgets` per input.
pub fn transpile_c(ast: &AST) -> (r: String)
    ensures
        r@ == c_program(nodes_view(ast.nodes())),
{
    let nodes = match ast {
        AST::Program(v) => v,
    };
    let var_types = collect_decl_types(nodes);
    let ghost s = nodes_view(nodes@);
    let mut code = String::new();
    code.append("#include <stdio.h>\n");
    code.append("#include <stdlib.h>\n");
    code.append("#include <string.h>\n");
    code.append("\nint main() {\n");
    let ghost head = code@;
    let mut ctr: usize = 0;
    let mut i: usize = 0;
    while i < nodes.len()
        invariant
            i <= nodes@.len(),
            s == nodes_view(nodes@),
            nodes@ == ast.nodes(),
            var_types@ == decl_types(s, s.len() as int),
            head == c_header(),
            code@ == head + c_nodes(s, var_types@, i as int).0,
            ctr == c_nodes(s, var_types@, i as int).1,
        decreases nodes@.len() - i,
    {
        proof {
            assert(s[i as int] == node_view(nodes@[i as int]));
        }
        ctr = emit_node(&mut code, &nodes[i], &var_types, ctr);
        i += 1;
    }
    code.append("    return 0;\n}\n");
    code
}

} // verus!
