use vstd::prelude::*;

use crate::ast::{expr_view, node_view, ASTNode, ComparisonOperator, ExprV, Expression, LogicalOperator, MathOperator, NodeV, VarType, AST};
use crate::emit_common::{collect_decl_types, decl_types};
use crate::names::NameMap;
use crate::emit_common::{bump, bump_exec};
use crate::numtext::{dec, decimal};
use crate::pass1::nodes_view;
use crate::text::{chars_of, push_char};

verus! {

pub open spec fn llvm_type_text(t: VarType) -> Seq<char> {
    match t {
        VarType::Int => "i32"@,
        VarType::Float => "double"@,
        VarType::String => "i8*"@,
        VarType::Char { .. } => "i32"@,
    }
}

pub open spec fn llvm_decl(name: Seq<char>, t: VarType, value: Option<ExprV>) -> Seq<char> {
    "  %"@ + name + " = alloca "@ + llvm_type_text(t) + ", align 4\n"@ + match value {
        Some(ExprV::Literal(v)) => "  store "@ + llvm_type_text(t) + " "@ + v + ", "@
            + llvm_type_text(t) + "* %"@ + name + "\n"@,
        _ => Seq::empty(),
    }
}

/// The scan of a print's text: the format so far, the names read, the name being read, and
/// whether the scan is inside braces.
pub struct LScan {
    pub fmt: Seq<char>,
    pub refs: Seq<Seq<char>>,
    pub cur: Seq<char>,
    pub in_var: bool,
}

/// The scan of the first `k` characters of `text`: each non-empty `{name}` becomes `%d`
/// and a reference; braces vanish.
pub open spec fn llvm_scan(text: Seq<char>, k: int) -> LScan
    decreases k,
{
    if k <= 0 {
        LScan { fmt: Seq::empty(), refs: Seq::empty(), cur: Seq::empty(), in_var: false }
    } else {
        let st = llvm_scan(text, k - 1);
        let c = text[k - 1];
        if c == '{' {
            LScan { fmt: st.fmt, refs: st.refs, cur: st.cur, in_var: true }
        } else if c == '}' {
            if st.cur.len() > 0 {
                LScan { fmt: st.fmt + "%d"@, refs: st.refs.push(st.cur), cur: Seq::empty(), in_var: false }
            } else {
                LScan { fmt: st.fmt, refs: st.refs, cur: st.cur, in_var: false }
            }
        } else if st.in_var {
            LScan { fmt: st.fmt, refs: st.refs, cur: st.cur.push(c), in_var: st.in_var }
        } else {
            LScan { fmt: st.fmt.push(c), refs: st.refs, cur: st.cur, in_var: st.in_var }
        }
    }
}

/// The first `k` characters of `s`, each newline written `\0A`.
pub open spec fn llvm_escape(s: Seq<char>, k: int) -> Seq<char>
    decreases k,
{
    if k <= 0 {
        Seq::empty()
    } else {
        llvm_escape(s, k - 1) + if s[k - 1] == '\n' {
            "\\0A"@
        } else {
            seq![s[k - 1]]
        }
    }
}

/// The number of bytes of the UTF-8 encoding of `c`.
pub open spec fn utf8_width(c: char) -> int {
    if (c as u32) < 0x80 {
        1
    } else if (c as u32) < 0x800 {
        2
    } else if (c as u32) < 0x10000 {
        3
    } else {
        4
    }
}

/// The number of bytes of the UTF-8 encoding of the first `k` characters of `s`, staying at
/// `usize::MAX`.
pub open spec fn utf8_len(s: Seq<char>, k: int) -> usize
    decreases k,
{
    if k <= 0 {
        0
    } else {
        let n = utf8_len(s, k - 1) + utf8_width(s[k - 1]);
        if n <= usize::MAX {
            n as usize
        } else {
            usize::MAX
        }
    }
}

/// The loads of the referenced variables `refs[..k]` into fresh names counted from `tc`, the
/// printf arguments they give, and the counter after them.
pub open spec fn llvm_loads(refs: Seq<Seq<char>>, tc: usize, k: int) -> (Seq<char>, Seq<char>, usize)
    decreases k,
{
    if k <= 0 {
        (Seq::empty(), Seq::empty(), tc)
    } else {
        let (loads, args, t) = llvm_loads(refs, tc, k - 1);
        let v = refs[k - 1];
        let u = v + "_"@ + dec(t as nat);
        (loads + "  %"@ + u + " = load i32, i32* %"@ + v + ", align 4\n"@, args + ", i32 %"@ + u, bump(t))
    }
}

/// The emitter's state: the global string table, the body of `main`, and the two counters.
pub struct LState {
    pub globals: Seq<char>,
    pub main: Seq<char>,
    pub sc: usize,
    pub tc: usize,
}

pub open spec fn llvm_print(st: LState, text: Seq<char>, to_stderr: bool) -> LState {
    let sc = llvm_scan(text, text.len() as int);
    let esc = llvm_escape(sc.fmt, sc.fmt.len() as int).push('\0');
    let n = dec(utf8_len(esc, esc.len() as int) as nat);
    let label = "str"@ + dec(st.sc as nat);
    let (loads, args, tc2) = llvm_loads(sc.refs, st.tc, sc.refs.len() as int);
    LState {
        globals: st.globals + "@"@ + label + " = private unnamed_addr constant ["@ + n + " x i8] c\""@
            + esc + "\", align 1\n"@,
        main: st.main + loads + "  call i32 (i32, i8*, ...) @dprintf(i32 "@ + (if to_stderr {
            "2"@
        } else {
            "1"@
        }) + ", i8* getelementptr inbounds (["@ + n
            + " x i8], ["@ + n + " x i8]* @"@ + label + ", i32 0, i32 0) "@ + args + ")\n"@,
        sc: bump(st.sc),
        tc: tc2,
    }
}

pub open spec fn llvm_op(op: MathOperator) -> Seq<char> {
    match op {
        MathOperator::Add => "add"@,
        MathOperator::Subtract => "sub"@,
        MathOperator::Multiply => "mul"@,
        MathOperator::Divide => "sdiv"@,
    }
}

/// The load that an operand needs, its text, and the counter after it.
pub open spec fn llvm_operand(operand: ExprV, tc: usize) -> (Seq<char>, Seq<char>, usize) {
    match operand {
        ExprV::Literal(v) => (Seq::<char>::empty(), v, tc),
        ExprV::Identifier(v) => {
            let u = v + "_"@ + dec(tc as nat);
            ("  %"@ + u + " = load i32, i32* %"@ + v + ", align 4\n"@, "%"@ + u, bump(tc))
        },
        _ => (Seq::<char>::empty(), "0"@, tc),
    }
}

pub open spec fn llvm_store(name: Seq<char>, op: MathOperator, arg: Seq<char>, load: Seq<char>, fresh: Seq<char>) -> Seq<char> {
    "  %"@ + load + " = load i32, i32* %"@ + name + ", align 4\n"@ + "  %"@ + fresh + " = "@
        + llvm_op(op) + " i32 %"@ + load + ", "@ + arg + "\n"@ + "  store i32 %"@ + fresh
        + ", i32* %"@ + name + "\n"@
}

pub open spec fn llvm_math(st: LState, name: Seq<char>, op: MathOperator, operand: ExprV) -> LState {
    let (pre, arg, t0) = llvm_operand(operand, st.tc);
    let t1 = if operand is Identifier { bump(st.tc) } else { st.tc };
    let load = name + "_"@ + dec(t1 as nat);
    let fresh = name + "_"@ + dec(bump(t1) as nat);
    LState {
        globals: st.globals,
        main: st.main + pre + llvm_store(name, op, arg, load, fresh),
        sc: st.sc,
        tc: bump(bump(t1)),
    }
}

pub open spec fn llvm_pred(op: ComparisonOperator) -> Seq<char> {
    match op {
        ComparisonOperator::Equal => "eq"@,
        ComparisonOperator::NotEqual => "ne"@,
        ComparisonOperator::LessThan => "slt"@,
        ComparisonOperator::LessThanEqual => "sle"@,
        ComparisonOperator::GreaterThan => "sgt"@,
        ComparisonOperator::GreaterThanEqual => "sge"@,
    }
}

/// A plain operand as an `i32`: the load it needs, its value, and the counter after it.
pub open spec fn llvm_load(e: ExprV, tc: usize) -> (Seq<char>, Seq<char>, usize) {
    match e {
        ExprV::Identifier(v) => {
            let u = v + "_"@ + dec(tc as nat);
            ("  %"@ + u + " = load i32, i32* %"@ + v + ", align 4\n"@, "%"@ + u, bump(tc))
        },
        ExprV::Literal(v) => (Seq::empty(), v, tc),
        _ => (Seq::empty(), "0"@, tc),
    }
}

/// The instruction `n = op v1, v2`.
pub open spec fn llvm_line(n: Seq<char>, op: Seq<char>, v1: Seq<char>, v2: Seq<char>) -> Seq<char> {
    "  "@ + n + " = "@ + op + " "@ + v1 + ", "@ + v2 + "\n"@
}

/// An operand of a comparison as an `i32`; a nested condition counts as 1 or 0.
pub open spec fn llvm_value(e: ExprV, tc: usize) -> (Seq<char>, Seq<char>, usize)
    decreases e, 1int,
{
    match e {
        ExprV::Literal(_) | ExprV::Identifier(_) => llvm_load(e, tc),
        _ => {
            let (c, n, t1) = llvm_truth(e, tc);
            let z = "%cond_"@ + dec(t1 as nat);
            (c + "  "@ + z + " = zext i1 "@ + n + " to i32\n"@, z, bump(t1))
        },
    }
}

/// The code that computes condition `e` as an `i1`, its name, and the counter after it; a
/// plain operand holds when it is not 0.
pub open spec fn llvm_truth(e: ExprV, tc: usize) -> (Seq<char>, Seq<char>, usize)
    decreases e, 0int,
{
    match e {
        ExprV::BinaryOp { left, operator, right } => {
            let (c1, v1, t1) = llvm_value(*left, tc);
            let (c2, v2, t2) = llvm_value(*right, t1);
            let n = "%cond_"@ + dec(t2 as nat);
            (c1 + c2 + llvm_line(n, "icmp "@ + llvm_pred(operator) + " i32"@, v1, v2), n, bump(t2))
        },
        ExprV::LogicalOp { left, operator, right } => {
            let (c1, v1, t1) = llvm_truth(*left, tc);
            let (c2, v2, t2) = llvm_truth(*right, t1);
            let n = "%cond_"@ + dec(t2 as nat);
            (c1 + c2 + llvm_line(n, (if operator is And { "and"@ } else { "or"@ }) + " i1"@, v1, v2), n, bump(t2))
        },
        _ => {
            let (c, v, t1) = llvm_load(e, tc);
            let n = "%cond_"@ + dec(t1 as nat);
            (c + "  "@ + n + " = icmp ne i32 "@ + v + ", 0\n"@, n, bump(t1))
        },
    }
}

/// Reading a number into variable `name` of type `t` (from `types`); text cannot be read.
pub open spec fn llvm_input(name: Seq<char>, types: Map<Seq<char>, VarType>, tc: usize) -> (Seq<char>, usize) {
    let r = "  %in_"@ + dec(tc as nat) + " = call i32 (i8*, ...) @scanf(i8* getelementptr inbounds (["@;
    if types.contains_key(name) && types[name] is String {
        ("  ; reading text into '"@ + name + "' is not supported\n"@, tc)
    } else if types.contains_key(name) && types[name] is Float {
        (r + "4 x i8], [4 x i8]* @fmt_float, i32 0, i32 0), double* %"@ + name + ")\n"@, bump(tc))
    } else {
        (r + "3 x i8], [3 x i8]* @fmt_int, i32 0, i32 0), i32* %"@ + name + ")\n"@, bump(tc))
    }
}

pub open spec fn llvm_node(st: LState, n: NodeV, types: Map<Seq<char>, VarType>) -> LState
    decreases n, 0int,
{
    match n {
        NodeV::VarDeclaration { name, var_type, value, .. } => LState {
            globals: st.globals,
            main: st.main + llvm_decl(name, var_type, value),
            sc: st.sc,
            tc: st.tc,
        },
        NodeV::Print { expr: Some(ExprV::Literal(text)), to_stderr } => llvm_print(st, text, to_stderr),
        NodeV::MathOp { name, operator, operand } => llvm_math(st, name, operator, operand),
        NodeV::Input { name } => {
            let (c, t) = llvm_input(name, types, st.tc);
            LState { globals: st.globals, main: st.main + c, sc: st.sc, tc: t }
        },
        NodeV::If { condition, body } => {
            let (c, v, t1) = llvm_truth(condition, st.tc);
            let l = dec(t1 as nat);
            let st1 = LState {
                globals: st.globals,
                main: st.main + c + "  br i1 "@ + v + ", label %then_"@ + l + ", label %endif_"@ + l + "\n"@ + "then_"@ + l + ":\n"@,
                sc: st.sc,
                tc: bump(t1),
            };
            let st2 = llvm_body(st1, body, body.len() as int, types);
            LState {
                globals: st2.globals,
                main: st2.main + "  br label %endif_"@ + l + "\n"@ + "endif_"@ + l + ":\n"@,
                sc: st2.sc,
                tc: st2.tc,
            }
        },
        _ => st,
    }
}

/// The first `k` statements of a conditional's body, emitted after `st`.
pub open spec fn llvm_body(st: LState, body: Seq<NodeV>, k: int, types: Map<Seq<char>, VarType>) -> LState
    decreases body, k,
{
    if k <= 0 || k > body.len() {
        st
    } else {
        llvm_node(llvm_body(st, body, k - 1, types), body[k - 1], types)
    }
}

pub open spec fn llvm_globals_head() -> Seq<char> {
    "declare i32 @dprintf(i32, i8*, ...)\ndeclare i32 @scanf(i8*, ...)\n@fmt_int = private unnamed_addr constant [3 x i8] c\"%d\\00\", align 1\n@fmt_float = private unnamed_addr constant [4 x i8] c\"%lf\\00\", align 1\n"@
}

pub open spec fn llvm_nodes(s: Seq<NodeV>, k: int, types: Map<Seq<char>, VarType>) -> LState
    decreases k,
{
    if k <= 0 {
        LState { globals: llvm_globals_head(), main: "define i32 @main() {\n"@, sc: 0, tc: 0 }
    } else {
        llvm_node(llvm_nodes(s, k - 1, types), s[k - 1], types)
    }
}

/// The LLVM module of the statements `s`: the string constants, then `main`.
pub open spec fn llvm_program(s: Seq<NodeV>) -> Seq<char> {
    let st = llvm_nodes(s, s.len() as int, decl_types(s, s.len() as int));
    st.globals + "\n"@ + st.main + "  ret i32 0\n"@ + "}\n"@
}

fn width(c: char) -> (r: usize)
    ensures
        r == utf8_width(c),
{
    if (c as u32) < 0x80 {
        1
    } else if (c as u32) < 0x800 {
        2
    } else if (c as u32) < 0x10000 {
        3
    } else {
        4
    }
}

pub fn byte_len_of(s: &Vec<char>) -> (r: usize)
    ensures
        r == utf8_len(s@, s@.len() as int),
{
    let mut n: usize = 0;
    let mut i: usize = 0;
    while i < s.len()
        invariant
            i <= s@.len(),
            n == utf8_len(s@, i as int),
        decreases s@.len() - i,
    {
        n = n.saturating_add(width(s[i]));
        i += 1;
    }
    n
}

/// Scans a print's text (see `llvm_scan`), then escapes the format and ends it with a NUL.
fn scan_text(text: &String) -> (r: (Vec<char>, Vec<String>))
    ensures
        ({
            let sc = llvm_scan(text@, text@.len() as int);
            r.0@ == llvm_escape(sc.fmt, sc.fmt.len() as int).push('\0') && r.1@.map_values(|x: String| x@) == sc.refs
        }),
{
    let cs = chars_of(text.as_str());
    let mut fmt: Vec<char> = Vec::new();
    let mut refs: Vec<String> = Vec::new();
    let mut cur = String::new();
    let mut in_var = false;
    let mut k: usize = 0;
    while k < cs.len()
        invariant
            k <= cs@.len(),
            cs@ == text@,
            ({
                let st = llvm_scan(text@, k as int);
                st.fmt == fmt@ && st.refs == refs@.map_values(|x: String| x@) && st.cur == cur@ && st.in_var == in_var
            }),
        decreases cs@.len() - k,
    {
        let c = cs[k];
        if c == '{' {
            in_var = true;
        } else if c == '}' {
            in_var = false;
            if !cur.as_str().is_empty() {
                proof {
                    reveal_strlit("%d");
                }
                fmt.push('%');
                fmt.push('d');
                let ghost r0 = refs@;
                refs.push(cur);
                assert(refs@.map_values(|x: String| x@) =~= r0.map_values(|x: String| x@).push(cur@));
                cur = String::new();
            }
        } else if in_var {
            push_char(&mut cur, c);
        } else {
            fmt.push(c);
        }
        k += 1;
    }
    let ghost f = fmt@;
    let mut esc: Vec<char> = Vec::new();
    let mut j: usize = 0;
    while j < fmt.len()
        invariant
            j <= fmt@.len(),
            esc@ == llvm_escape(fmt@, j as int),
        decreases fmt@.len() - j,
    {
        if fmt[j] == '\n' {
            proof {
                reveal_strlit("\\0A");
            }
            esc.push('\\');
            esc.push('0');
            esc.push('A');
            assert(esc@ =~= llvm_escape(fmt@, j + 1));
        } else {
            esc.push(fmt[j]);
        }
        j += 1;
    }
    esc.push('\0');
    (esc, refs)
}

fn append_chars(code: &mut String, v: &Vec<char>)
    ensures
        final(code)@ == old(code)@ + v@,
{
    let mut i: usize = 0;
    while i < v.len()
        invariant
            i <= v@.len(),
            code@ == old(code)@ + v@.subrange(0, i as int),
        decreases v@.len() - i,
    {
        push_char(code, v[i]);
        assert(v@.subrange(0, i + 1) == v@.subrange(0, i as int).push(v@[i as int]));
        i += 1;
    }
    assert(v@.subrange(0, v@.len() as int) == v@);
}

fn emit_print(globals: &mut String, main: &mut String, sc: usize, tc: usize, text: &String, to_stderr: bool) -> (r: (usize, usize))
    ensures
        ({
            let st = LState { globals: old(globals)@, main: old(main)@, sc, tc };
            let nx = llvm_print(st, text@, to_stderr);
            final(globals)@ == nx.globals && final(main)@ == nx.main && r.0 == nx.sc && r.1 == nx.tc
        }),
{
    let (esc, refs) = scan_text(text);
    let n = decimal(byte_len_of(&esc));
    let mut label = String::from_str("str");
    let d = decimal(sc);
    label.append(d.as_str());
    globals.append("@");
    globals.append(label.as_str());
    globals.append(" = private unnamed_addr constant [");
    globals.append(n.as_str());
    globals.append(" x i8] c\"");
    append_chars(globals, &esc);
    globals.append("\", align 1\n");
    let mut args = String::new();
    let mut t = tc;
    let mut k: usize = 0;
    let ghost m0 = main@;
    let ghost rv = refs@.map_values(|x: String| x@);
    while k < refs.len()
        invariant
            k <= refs@.len(),
            rv == refs@.map_values(|x: String| x@),
            ({
                let (loads, a, t2) = llvm_loads(rv, tc, k as int);
                main@ == m0 + loads && args@ == a && t == t2
            }),
        decreases refs@.len() - k,
    {
        let v = &refs[k];
        let mut u = v.clone();
        u.append("_");
        let dt = decimal(t);
        u.append(dt.as_str());
        t = bump_exec(t);
        args.append(", i32 %");
        args.append(u.as_str());
        main.append("  %");
        main.append(u.as_str());
        main.append(" = load i32, i32* %");
        main.append(v.as_str());
        main.append(", align 4\n");
        k += 1;
    }
    main.append("  call i32 (i32, i8*, ...) @dprintf(i32 ");
    main.append(if to_stderr {
        "2"
    } else {
        "1"
    });
    main.append(", i8* getelementptr inbounds ([");
    main.append(n.as_str());
    main.append(" x i8], [");
    main.append(n.as_str());
    main.append(" x i8]* @");
    main.append(label.as_str());
    main.append(", i32 0, i32 0) ");
    main.append(args.as_str());
    main.append(")\n");
    (bump_exec(sc), t)
}

fn emit_operand(main: &mut String, tc: usize, operand: &Expression) -> (r: String)
    ensures
        final(main)@ == old(main)@ + llvm_operand(expr_view(*operand), tc).0,
        r@ == llvm_operand(expr_view(*operand), tc).1,
{
    match operand {
        Expression::Literal(v) => {
            assert(main@ == main@ + Seq::<char>::empty());
            v.clone()
        },
        Expression::Identifier(v) => {
            let mut u = v.clone();
            u.append("_");
            let d = decimal(tc);
            u.append(d.as_str());
            let ghost m0 = main@;
            main.append("  %");
            main.append(u.as_str());
            main.append(" = load i32, i32* %");
            main.append(v.as_str());
            main.append(", align 4\n");
            assert(main@ == m0 + ("  %"@ + u@ + " = load i32, i32* %"@ + v@ + ", align 4\n"@));
            let mut a = String::from_str("%");
            a.append(u.as_str());
            a
        },
        _ => {
            assert(main@ == main@ + Seq::<char>::empty());
            String::from_str("0")
        },
    }
}

fn emit_store(main: &mut String, name: &String, operator: MathOperator, arg: &String, load: &String, fresh: &String)
    ensures
        final(main)@ == old(main)@ + llvm_store(name@, operator, arg@, load@, fresh@),
{
    let op = match operator {
        MathOperator::Add => "add",
        MathOperator::Subtract => "sub",
        MathOperator::Multiply => "mul",
        MathOperator::Divide => "sdiv",
    };
    let ghost m0 = main@;
    main.append("  %");
    main.append(load.as_str());
    main.append(" = load i32, i32* %");
    main.append(name.as_str());
    main.append(", align 4\n");
    main.append("  %");
    main.append(fresh.as_str());
    main.append(" = ");
    main.append(op);
    main.append(" i32 %");
    main.append(load.as_str());
    main.append(", ");
    main.append(arg.as_str());
    main.append("\n");
    main.append("  store i32 %");
    main.append(fresh.as_str());
    main.append(", i32* %");
    main.append(name.as_str());
    main.append("\n");
    assert(main@ == m0 + llvm_store(name@, operator, arg@, load@, fresh@));
}

fn emit_math(main: &mut String, tc: usize, name: &String, operator: MathOperator, operand: &Expression) -> (r: usize)
    ensures
        ({
            let st = LState { globals: Seq::empty(), main: old(main)@, sc: 0, tc };
            let nx = llvm_math(st, name@, operator, expr_view(*operand));
            final(main)@ == nx.main && r == nx.tc
        }),
{
    let ghost m0 = main@;
    let arg = emit_operand(main, tc, operand);
    let ghost m1 = main@;
    let t = match operand {
        Expression::Identifier(_) => bump_exec(tc),
        _ => tc,
    };
    let mut load = name.clone();
    load.append("_");
    let d1 = decimal(t);
    load.append(d1.as_str());
    let t2 = bump_exec(t);
    let mut fresh = name.clone();
    fresh.append("_");
    let d2 = decimal(t2);
    fresh.append(d2.as_str());
    emit_store(main, name, operator, &arg, &load, &fresh);
    assert(main@ == m0 + (m1.subrange(m0.len() as int, m1.len() as int) + llvm_store(name@, operator, arg@, load@, fresh@))) by {
        assert(m1 == m0 + m1.subrange(m0.len() as int, m1.len() as int));
    }
    bump_exec(t2)
}

fn emit_decl(main: &mut String, name: &String, var_type: VarType, value: &Option<Expression>)
    ensures
        final(main)@ == old(main)@ + llvm_decl(name@, var_type, crate::ast::opt_view(*value)),
{
    let ty = match var_type {
        VarType::Int => "i32",
        VarType::Float => "double",
        VarType::String => "i8*",
        VarType::Char { .. } => "i32",
    };
    assert(ty@ == llvm_type_text(var_type));
    let ghost m0 = main@;
    main.append("  %");
    main.append(name.as_str());
    main.append(" = alloca ");
    main.append(ty);
    main.append(", align 4\n");
    let ghost m1 = main@;
    assert(m1 == m0 + ("  %"@ + name@ + " = alloca "@ + llvm_type_text(var_type) + ", align 4\n"@));
    if let Some(Expression::Literal(v)) = value {
        main.append("  store ");
        main.append(ty);
        main.append(" ");
        main.append(v.as_str());
        main.append(", ");
        main.append(ty);
        main.append("* %");
        main.append(name.as_str());
        main.append("\n");
        assert(main@ == m1 + ("  store "@ + llvm_type_text(var_type) + " "@ + v@ + ", "@
            + llvm_type_text(var_type) + "* %"@ + name@ + "\n"@));
    } else {
        assert(main@ == main@ + Seq::<char>::empty());
    }
    assert(main@ == m0 + llvm_decl(name@, var_type, crate::ast::opt_view(*value)));
}

fn emit_load(main: &mut String, e: &Expression, tc: usize) -> (r: (String, usize))
    ensures
        final(main)@ == old(main)@ + llvm_load(expr_view(*e), tc).0,
        r.0@ == llvm_load(expr_view(*e), tc).1,
        r.1 == llvm_load(expr_view(*e), tc).2,
{
    let ghost m0 = main@;
    match e {
        Expression::Identifier(v) => {
            let mut u = v.clone();
            u.append("_");
            let d = decimal(tc);
            u.append(d.as_str());
            main.append("  %");
            main.append(u.as_str());
            main.append(" = load i32, i32* %");
            main.append(v.as_str());
            main.append(", align 4\n");
            assert(main@ == m0 + ("  %"@ + u@ + " = load i32, i32* %"@ + v@ + ", align 4\n"@));
            let mut a = String::from_str("%");
            a.append(u.as_str());
            (a, bump_exec(tc))
        },
        Expression::Literal(v) => {
            assert(main@ == m0 + Seq::<char>::empty());
            (v.clone(), tc)
        },
        _ => {
            assert(main@ == m0 + Seq::<char>::empty());
            (String::from_str("0"), tc)
        },
    }
}

fn cond_name(t: usize) -> (r: String)
    ensures
        r@ == "%cond_"@ + dec(t as nat),
{
    let mut n = String::from_str("%cond_");
    let d = decimal(t);
    n.append(d.as_str());
    n
}

fn emit_value(main: &mut String, e: &Expression, tc: usize) -> (r: (String, usize))
    ensures
        final(main)@ == old(main)@ + llvm_value(expr_view(*e), tc).0,
        r.0@ == llvm_value(expr_view(*e), tc).1,
        r.1 == llvm_value(expr_view(*e), tc).2,
    decreases e, 2int,
{
    match e {
        Expression::Literal(_) | Expression::Identifier(_) => emit_load(main, e, tc),
        _ => {
            let ghost m0 = main@;
            let (n, t1) = emit_truth(main, e, tc);
            let ghost m1 = main@;
            let z = cond_name(t1);
            main.append("  ");
            main.append(z.as_str());
            main.append(" = zext i1 ");
            main.append(n.as_str());
            main.append(" to i32\n");
            assert(main@ == m0 + (m1.subrange(m0.len() as int, m1.len() as int) + ("  "@ + z@ + " = zext i1 "@ + n@ + " to i32\n"@))) by {
                assert(m1 == m0 + m1.subrange(m0.len() as int, m1.len() as int));
            }
            (z, bump_exec(t1))
        },
    }
}

fn emit_line(main: &mut String, n: &String, op: &String, v1: &String, v2: &String)
    ensures
        final(main)@ == old(main)@ + llvm_line(n@, op@, v1@, v2@),
{
    let ghost m0 = main@;
    main.append("  ");
    main.append(n.as_str());
    main.append(" = ");
    main.append(op.as_str());
    main.append(" ");
    main.append(v1.as_str());
    main.append(", ");
    main.append(v2.as_str());
    main.append("\n");
    assert(main@ == m0 + llvm_line(n@, op@, v1@, v2@));
}

fn emit_truth_compare(main: &mut String, e: &Expression, tc: usize) -> (r: (String, usize))
    requires
        e is BinaryOp,
    ensures
        final(main)@ == old(main)@ + llvm_truth(expr_view(*e), tc).0,
        r.0@ == llvm_truth(expr_view(*e), tc).1,
        r.1 == llvm_truth(expr_view(*e), tc).2,
    decreases e, 0int,
{
    if let Expression::BinaryOp { left, operator, right } = e {
        let ghost m0 = main@;
        let (v1, t1) = emit_value(main, left, tc);
        let ghost m1 = main@;
        let (v2, t2) = emit_value(main, right, t1);
        let ghost m2 = main@;
        let n = cond_name(t2);
        let mut op = String::from_str("icmp ");
        op.append(
            match operator {
                ComparisonOperator::Equal => "eq",
                ComparisonOperator::NotEqual => "ne",
                ComparisonOperator::LessThan => "slt",
                ComparisonOperator::LessThanEqual => "sle",
                ComparisonOperator::GreaterThan => "sgt",
                ComparisonOperator::GreaterThanEqual => "sge",
            },
        );
        op.append(" i32");
        emit_line(main, &n, &op, &v1, &v2);
        assert(main@ == m0 + llvm_truth(expr_view(*e), tc).0) by {
            assert(m1 == m0 + llvm_value(expr_view(**left), tc).0);
            assert(m2 == m1 + llvm_value(expr_view(**right), t1).0);
        }
        (n, bump_exec(t2))
    } else {
        (String::new(), tc)
    }
}

fn emit_truth_connect(main: &mut String, e: &Expression, tc: usize) -> (r: (String, usize))
    requires
        e is LogicalOp,
    ensures
        final(main)@ == old(main)@ + llvm_truth(expr_view(*e), tc).0,
        r.0@ == llvm_truth(expr_view(*e), tc).1,
        r.1 == llvm_truth(expr_view(*e), tc).2,
    decreases e, 0int,
{
    if let Expression::LogicalOp { left, operator, right } = e {
        let ghost m0 = main@;
        let (v1, t1) = emit_truth(main, left, tc);
        let ghost m1 = main@;
        let (v2, t2) = emit_truth(main, right, t1);
        let ghost m2 = main@;
        let n = cond_name(t2);
        let mut op = String::from_str(
            match operator {
                LogicalOperator::And => "and",
                LogicalOperator::Or => "or",
            },
        );
        op.append(" i1");
        emit_line(main, &n, &op, &v1, &v2);
        assert(main@ == m0 + llvm_truth(expr_view(*e), tc).0) by {
            assert(m1 == m0 + llvm_truth(expr_view(**left), tc).0);
            assert(m2 == m1 + llvm_truth(expr_view(**right), t1).0);
        }
        (n, bump_exec(t2))
    } else {
        (String::new(), tc)
    }
}

fn emit_truth(main: &mut String, e: &Expression, tc: usize) -> (r: (String, usize))
    ensures
        final(main)@ == old(main)@ + llvm_truth(expr_view(*e), tc).0,
        r.0@ == llvm_truth(expr_view(*e), tc).1,
        r.1 == llvm_truth(expr_view(*e), tc).2,
    decreases e, 1int,
{
    match e {
        Expression::BinaryOp { .. } => emit_truth_compare(main, e, tc),
        Expression::LogicalOp { .. } => emit_truth_connect(main, e, tc),
        _ => {
            let ghost m0 = main@;
            let (v, t1) = emit_load(main, e, tc);
            let ghost m1 = main@;
            let n = cond_name(t1);
            main.append("  ");
            main.append(n.as_str());
            main.append(" = icmp ne i32 ");
            main.append(v.as_str());
            main.append(", 0\n");
            assert(main@ == m0 + llvm_truth(expr_view(*e), tc).0) by {
                assert(m1 == m0 + llvm_load(expr_view(*e), tc).0);
            }
            (n, bump_exec(t1))
        },
    }
}

fn emit_input(main: &mut String, name: &String, types: &NameMap<VarType>, tc: usize) -> (r: usize)
    ensures
        final(main)@ == old(main)@ + llvm_input(name@, types@, tc).0,
        r == llvm_input(name@, types@, tc).1,
{
    let ghost m0 = main@;
    let t = types.get(name);
    if let Some(VarType::String) = t {
        main.append("  ; reading text into '");
        main.append(name.as_str());
        main.append("' is not supported\n");
        assert(main@ == m0 + ("  ; reading text into '"@ + name@ + "' is not supported\n"@));
        return tc;
    }
    main.append("  %in_");
    let d = decimal(tc);
    main.append(d.as_str());
    main.append(" = call i32 (i8*, ...) @scanf(i8* getelementptr inbounds ([");
    let ghost m1 = main@;
    assert(m1 == m0 + ("  %in_"@ + dec(tc as nat) + " = call i32 (i8*, ...) @scanf(i8* getelementptr inbounds (["@));
    if let Some(VarType::Float) = t {
        main.append("4 x i8], [4 x i8]* @fmt_float, i32 0, i32 0), double* %");
        main.append(name.as_str());
        main.append(")\n");
        assert(main@ == m1 + ("4 x i8], [4 x i8]* @fmt_float, i32 0, i32 0), double* %"@ + name@ + ")\n"@));
    } else {
        main.append("3 x i8], [3 x i8]* @fmt_int, i32 0, i32 0), i32* %");
        main.append(name.as_str());
        main.append(")\n");
        assert(main@ == m1 + ("3 x i8], [3 x i8]* @fmt_int, i32 0, i32 0), i32* %"@ + name@ + ")\n"@));
    }
    bump_exec(tc)
}

fn emit_llvm_node(globals: &mut String, main: &mut String, sc: usize, tc: usize, node: &ASTNode, types: &NameMap<VarType>) -> (r: (usize, usize))
    ensures
        ({
            let nx = llvm_node(LState { globals: old(globals)@, main: old(main)@, sc, tc }, node_view(*node), types@);
            final(globals)@ == nx.globals && final(main)@ == nx.main && r.0 == nx.sc && r.1 == nx.tc
        }),
    decreases node,
{
    match node {
        ASTNode::VarDeclaration { name, var_type, value, .. } => {
            emit_decl(main, name, *var_type, value);
            (sc, tc)
        },
        ASTNode::Print { expr: Some(Expression::Literal(text)), to_stderr } => emit_print(globals, main, sc, tc, text, *to_stderr),
        ASTNode::MathOp { name, operator, operand } => (sc, emit_math(main, tc, name, *operator, operand)),
        ASTNode::Input { name } => (sc, emit_input(main, name, types, tc)),
        ASTNode::If { condition, body } => {
            let ghost m0 = main@;
            let (v, t1) = emit_truth(main, condition, tc);
            let l = decimal(t1);
            let ghost m1 = main@;
            main.append("  br i1 ");
            main.append(v.as_str());
            main.append(", label %then_");
            main.append(l.as_str());
            main.append(", label %endif_");
            main.append(l.as_str());
            main.append("\n");
            main.append("then_");
            main.append(l.as_str());
            main.append(":\n");
            let ghost bv = match node_view(*node) {
                NodeV::If { body, .. } => body,
                _ => Seq::empty(),
            };
            let ghost st1 = LState { globals: globals@, main: main@, sc, tc: bump(t1) };
            assert(st1.main == m0 + llvm_truth(expr_view(*condition), tc).0 + "  br i1 "@ + v@ + ", label %then_"@ + l@ + ", label %endif_"@ + l@ + "\n"@ + "then_"@ + l@ + ":\n"@) by {
                assert(m1 == m0 + llvm_truth(expr_view(*condition), tc).0);
            }
            let mut a = sc;
            let mut b = bump_exec(t1);
            let mut i: usize = 0;
            assert(decreases_to!(*node => *body));
            while i < body.len()
                invariant
                    decreases_to!(*node => *body),
                    i <= body@.len(),
                    bv.len() == body@.len(),
                    forall|j: int| 0 <= j < bv.len() ==> #[trigger] bv[j] == node_view(body@[j]),
                    llvm_body(st1, bv, i as int, types@) == (LState { globals: globals@, main: main@, sc: a, tc: b }),
                decreases body@.len() - i,
            {
                proof {
                    assert(decreases_to!(*body => body[i as int]));
                    assert(bv[i as int] == node_view(body@[i as int]));
                }
                let (x, y) = emit_llvm_node(globals, main, a, b, &body[i], types);
                a = x;
                b = y;
                i += 1;
            }
            main.append("  br label %endif_");
            main.append(l.as_str());
            main.append("\n");
            main.append("endif_");
            main.append(l.as_str());
            main.append(":\n");
            (a, b)
        },
        _ => (sc, tc),
    }
}

/// The LLVM module of `ast` (see `llvm_program`): a global string table, then `main` with one
/// `alloca` per declaration, one `dprintf` to standard output or error per literal print, and load, operate, store per
/// math statement.
pub fn transpile_llvm(ast: &AST) -> (r: String)
    ensures
        r@ == llvm_program(nodes_view(ast.nodes())),
{
    let nodes = match ast {
        AST::Program(v) => v,
    };
    let ghost s = nodes_view(nodes@);
    let types = collect_decl_types(nodes);
    let mut globals = String::from_str("declare i32 @dprintf(i32, i8*, ...)\ndeclare i32 @scanf(i8*, ...)\n@fmt_int = private unnamed_addr constant [3 x i8] c\"%d\\00\", align 1\n@fmt_float = private unnamed_addr constant [4 x i8] c\"%lf\\00\", align 1\n");
    let mut main = String::from_str("define i32 @main() {\n");
    let mut sc: usize = 0;
    let mut tc: usize = 0;
    let mut i: usize = 0;
    while i < nodes.len()
        invariant
            i <= nodes@.len(),
            s == nodes_view(nodes@),
            nodes@ == ast.nodes(),
            types@ == decl_types(s, s.len() as int),
            llvm_nodes(s, i as int, types@) == (LState { globals: globals@, main: main@, sc, tc }),
        decreases nodes@.len() - i,
    {
        proof {
            assert(s[i as int] == node_view(nodes@[i as int]));
        }
        let (a, b) = emit_llvm_node(&mut globals, &mut main, sc, tc, &nodes[i], &types);
        sc = a;
        tc = b;
        i += 1;
    }
    let mut out = globals;
    out.append("\n");
    out.append(main.as_str());
    out.append("  ret i32 0\n");
    out.append("}\n");
    out
}

} // verus!
