use vstd::prelude::*;

use crate::ast::{expr_view, node_view, opt_view, ASTNode, ExprV, Expression, NodeV, AST};
use crate::names::NameMap;
use crate::pass1::{declares, fuse_from, lemma_fuse_keeps, lemma_fusion_idempotent, live_prefix, nodes_view, optimize_pass1, pass1_nodes};
use crate::placeholders::{close_at, inline_text, lemma_close_at, replace_placeholders, replaced, text_map};

verus! {

/// Whether statement `n` assigns `x`: as the target of an input or a math statement,
/// nested blocks included.
pub open spec fn node_assigns(n: NodeV, x: Seq<char>) -> bool
    decreases n, 0int,
{
    match n {
        NodeV::Input { name } => name == x,
        NodeV::MathOp { name, .. } => name == x,
        NodeV::If { body, .. } => body_assigns(body, body.len() as int, x),
        _ => false,
    }
}

/// Whether one of the first `k` statements of `body` assigns `x`.
pub open spec fn body_assigns(body: Seq<NodeV>, k: int, x: Seq<char>) -> bool
    decreases body, k,
{
    if k <= 0 || k > body.len() {
        false
    } else {
        body_assigns(body, k - 1, x) || node_assigns(body[k - 1], x)
    }
}

/// The constants of the first `n` statements of `s`: each immutable variable declared with
/// a literal and never assigned in `s`, bound to the literal's text; a later declaration
/// wins.
pub open spec fn inline_map_of(s: Seq<NodeV>, n: int) -> Map<Seq<char>, Seq<char>>
    decreases n,
{
    if n <= 0 {
        Map::empty()
    } else {
        let m = inline_map_of(s, n - 1);
        match s[n - 1] {
            NodeV::VarDeclaration { mutable, name, value: Some(ExprV::Literal(t)), .. } => {
                if mutable || body_assigns(s, s.len() as int, name) {
                    m
                } else {
                    m.insert(name, t)
                }
            },
            _ => m,
        }
    }
}

/// Whether `x` is one of `v`.
pub open spec fn listed_name(v: Seq<String>, x: Seq<char>) -> bool {
    exists|j: int| 0 <= j < v.len() && (#[trigger] v[j])@ == x
}

fn add_target(name: &String, out: &mut Vec<String>)
    ensures
        forall|x: Seq<char>| #[trigger] listed_name(final(out)@, x) <==> (listed_name(old(out)@, x) || x == name@),
{
    out.push(name.clone());
    proof {
        assert forall|x: Seq<char>| #[trigger] listed_name(out@, x) <==> (listed_name(old(out)@, x) || x == name@) by {
            if listed_name(old(out)@, x) {
                let j = choose|j: int| 0 <= j < old(out)@.len() && (#[trigger] old(out)@[j])@ == x;
                assert(out@[j] == old(out)@[j]);
            }
            if listed_name(out@, x) {
                let j = choose|j: int| 0 <= j < out@.len() && (#[trigger] out@[j])@ == x;
                if j < old(out)@.len() {
                    assert(old(out)@[j] == out@[j]);
                }
            }
            if x == name@ {
                assert(out@[out@.len() - 1]@ == x);
            }
        }
    }
}

/// Adds to `out` the names that `nodes` assign.
pub(crate) fn collect_assigned(nodes: &Vec<ASTNode>, out: &mut Vec<String>)
    ensures
        forall|x: Seq<char>| #[trigger] listed_name(final(out)@, x) <==> (listed_name(old(out)@, x)
            || body_assigns(nodes_view(nodes@), nodes@.len() as int, x)),
    decreases nodes,
{
    let ghost s = nodes_view(nodes@);
    let mut i: usize = 0;
    while i < nodes.len()
        invariant
            i <= nodes@.len(),
            s == nodes_view(nodes@),
            forall|x: Seq<char>| #[trigger] listed_name(out@, x) <==> (listed_name(old(out)@, x)
                || body_assigns(s, i as int, x)),
        decreases nodes@.len() - i,
    {
        let ghost prev = out@;
        proof {
            assert(decreases_to!(*nodes => nodes[i as int]));
            assert(s[i as int] == node_view(nodes@[i as int]));
        }
        match &nodes[i] {
            ASTNode::Input { name } => add_target(name, out),
            ASTNode::MathOp { name, .. } => add_target(name, out),
            ASTNode::If { body, .. } => {
                proof {
                    assert(decreases_to!(nodes[i as int] => *body));
                }
                collect_assigned(body, out);
                proof {
                    let nv = node_view(nodes@[i as int]);
                    assert(nodes_view(body@) =~= match nv {
                        NodeV::If { body, .. } => body,
                        _ => Seq::empty(),
                    });
                }
            },
            _ => {},
        }
        proof {
            assert forall|x: Seq<char>| #[trigger] listed_name(out@, x) <==> (listed_name(prev, x)
                || node_assigns(s[i as int], x)) by {
            }
            assert forall|x: Seq<char>| #[trigger] listed_name(out@, x) <==> (listed_name(old(out)@, x)
                || body_assigns(s, i + 1, x)) by {
                assert(listed_name(prev, x) <==> (listed_name(old(out)@, x) || body_assigns(s, i as int, x)));
                assert(body_assigns(s, i + 1, x) == (body_assigns(s, i as int, x) || node_assigns(s[i as int], x)));
            }
        }
        i += 1;
    }
}

/// `e` with each constant replaced by its text: a bare name becomes a literal, and the
/// placeholders of a literal are filled in.
pub open spec fn inline_e(e: ExprV, m: Map<Seq<char>, Seq<char>>) -> ExprV
    decreases e,
{
    match e {
        ExprV::Identifier(id) => if m.contains_key(id) {
            ExprV::Literal(m[id])
        } else {
            ExprV::Identifier(id)
        },
        ExprV::Literal(t) => ExprV::Literal(replaced(t, m)),
        ExprV::BinaryOp { left, operator, right } => ExprV::BinaryOp {
            left: Box::new(inline_e(*left, m)),
            operator,
            right: Box::new(inline_e(*right, m)),
        },
        ExprV::LogicalOp { left, operator, right } => ExprV::LogicalOp {
            left: Box::new(inline_e(*left, m)),
            operator,
            right: Box::new(inline_e(*right, m)),
        },
    }
}

pub open spec fn inline_opt(e: Option<ExprV>, m: Map<Seq<char>, Seq<char>>) -> Option<ExprV> {
    match e {
        Some(e) => Some(inline_e(e, m)),
        None => None,
    }
}

/// Statement `n` with its expressions inlined, nested blocks included.
pub open spec fn inline_n(n: NodeV, m: Map<Seq<char>, Seq<char>>) -> NodeV
    decreases n,
    via inline_n_decreases
{
    match n {
        NodeV::VarDeclaration { mutable, name, var_type, value } => NodeV::VarDeclaration {
            mutable,
            name,
            var_type,
            value: inline_opt(value, m),
        },
        NodeV::Input { name } => NodeV::Input { name },
        NodeV::Print { to_stderr, expr } => NodeV::Print { to_stderr, expr: inline_opt(expr, m) },
        NodeV::MathOp { name, operator, operand } => NodeV::MathOp {
            name,
            operator,
            operand: inline_e(operand, m),
        },
        NodeV::If { condition, body } => NodeV::If {
            condition: inline_e(condition, m),
            body: Seq::new(
                body.len(),
                |i: int|
                    if 0 <= i < body.len() {
                        inline_n(body[i], m)
                    } else {
                        NodeV::Input { name: Seq::empty() }
                    },
            ),
        },
    }
}

#[via_fn]
proof fn inline_n_decreases(n: NodeV, m: Map<Seq<char>, Seq<char>>) {
    match n {
        NodeV::If { condition, body } => {
            assert forall|i: int| 0 <= i < body.len() implies decreases_to!(n => body[i]) by {
                assert(decreases_to!(body => body[i]));
            }
        },
        _ => {},
    }
}

/// What the second pass makes of the statements `s`: constants inlined everywhere, then
/// the first pass.
pub open spec fn pass2_nodes(s: Seq<NodeV>) -> Seq<NodeV> {
    let m = inline_map_of(s, s.len() as int);
    pass1_nodes(s.map_values(|n: NodeV| inline_n(n, m)))
}

pub(crate) fn is_listed_name(v: &Vec<String>, name: &String) -> (r: bool)
    ensures
        r == listed_name(v@, name@),
{
    let mut j: usize = 0;
    while j < v.len()
        invariant
            j <= v@.len(),
            forall|k: int| 0 <= k < j ==> (#[trigger] v@[k])@ != name@,
        decreases v@.len() - j,
    {
        if v[j] == *name {
            return true;
        }
        j += 1;
    }
    false
}

/// The constants of `ast` (see `inline_map_of`).
fn build_inline_map(ast: &AST) -> (r: NameMap<String>)
    ensures
        text_map(r@) == inline_map_of(nodes_view(ast.nodes()), ast.nodes().len() as int),
{
    let mut map: NameMap<String> = NameMap::new();
    let nodes = match ast {
        AST::Program(v) => v,
    };
    let ghost s = nodes_view(nodes@);
    let mut assigned: Vec<String> = Vec::new();
    collect_assigned(nodes, &mut assigned);
    let mut i: usize = 0;
    assert(text_map(map@) =~= Map::<Seq<char>, Seq<char>>::empty());
    while i < nodes.len()
        invariant
            i <= nodes@.len(),
            s == nodes_view(nodes@),
            nodes@ == ast.nodes(),
            text_map(map@) == inline_map_of(s, i as int),
            forall|x: Seq<char>| #[trigger] listed_name(assigned@, x) <==> body_assigns(s, s.len() as int, x),
        decreases nodes@.len() - i,
    {
        proof {
            assert(s[i as int] == node_view(nodes@[i as int]));
        }
        if let ASTNode::VarDeclaration { mutable, name, value, .. } = &nodes[i] {
            if !*mutable && !is_listed_name(&assigned, name) {
                if let Some(Expression::Literal(lit)) = value {
                    let ghost before = map@;
                    map.insert(name.clone(), lit.clone());
                    assert(text_map(map@) =~= text_map(before).insert(name@, lit@));
                }
            }
        }
        i += 1;
    }
    map
}

/// `expr` with the constants of `inline_map` inlined.
fn inline_expr(expr: &Expression, inline_map: &NameMap<String>) -> (r: Expression)
    ensures
        expr_view(r) == inline_e(expr_view(*expr), text_map(inline_map@)),
    decreases expr,
{
    match expr {
        Expression::Identifier(id) => match inline_map.get(id) {
            Some(s) => Expression::Literal(s.clone()),
            None => Expression::Identifier(id.clone()),
        },
        Expression::Literal(lit) => Expression::Literal(replace_placeholders(lit.as_str(), inline_map)),
        Expression::BinaryOp { left, operator, right } => Expression::BinaryOp {
            left: Box::new(inline_expr(left, inline_map)),
            operator: *operator,
            right: Box::new(inline_expr(right, inline_map)),
        },
        Expression::LogicalOp { left, operator, right } => Expression::LogicalOp {
            left: Box::new(inline_expr(left, inline_map)),
            operator: *operator,
            right: Box::new(inline_expr(right, inline_map)),
        },
    }
}

fn inline_opt_expr(expr: &Option<Expression>, inline_map: &NameMap<String>) -> (r: Option<Expression>)
    ensures
        opt_view(r) == inline_opt(opt_view(*expr), text_map(inline_map@)),
{
    match expr {
        Some(e) => Some(inline_expr(e, inline_map)),
        None => None,
    }
}

/// `node` with the constants of `inline_map` inlined, nested blocks included.
fn inline_node(node: &ASTNode, inline_map: &NameMap<String>) -> (r: ASTNode)
    ensures
        node_view(r) == inline_n(node_view(*node), text_map(inline_map@)),
    decreases node,
{
    match node {
        ASTNode::If { condition, body } => {
            let new_condition = inline_expr(condition, inline_map);
            let mut new_body: Vec<ASTNode> = Vec::new();
            let mut i: usize = 0;
            assert(decreases_to!(*node => *body));
            while i < body.len()
                invariant
                    decreases_to!(*node => *body),
                    i <= body@.len(),
                    new_body@.len() == i,
                    forall|j: int|
                        0 <= j < i ==> node_view(#[trigger] new_body@[j]) == inline_n(
                            node_view(body@[j]),
                            text_map(inline_map@),
                        ),
                decreases body@.len() - i,
            {
                proof {
                    assert(decreases_to!(*body => body[i as int]));
                }
                new_body.push(inline_node(&body[i], inline_map));
                i += 1;
            }
            let r = ASTNode::If { condition: new_condition, body: new_body };
            proof {
                if let NodeV::If { body: b1, .. } = node_view(r) {
                    if let NodeV::If { body: b2, .. } = inline_n(node_view(*node), text_map(inline_map@)) {
                        assert(b1 =~= b2);
                    }
                }
            }
            r
        },
        ASTNode::VarDeclaration { mutable, name, var_type, value } => {
            let v = inline_opt_expr(value, inline_map);
            ASTNode::VarDeclaration {
                mutable: *mutable,
                name: name.clone(),
                var_type: *var_type,
                value: v,
            }
        },
        ASTNode::Input { name } => ASTNode::Input { name: name.clone() },
        ASTNode::Print { to_stderr, expr } => {
            let e = inline_opt_expr(expr, inline_map);
            ASTNode::Print { to_stderr: *to_stderr, expr: e }
        },
        ASTNode::MathOp { name, operator, operand } => ASTNode::MathOp {
            name: name.clone(),
            operator: *operator,
            operand: inline_expr(operand, inline_map),
        },
    }
}

/// Constant inlining over the whole program, followed by the first pass.
pub fn pass2(ast: AST) -> (r: AST)
    ensures
        nodes_view(r.nodes()) == pass2_nodes(nodes_view(ast.nodes())),
{
    let inline_map = build_inline_map(&ast);
    let nodes = match &ast {
        AST::Program(v) => v,
    };
    let ghost s = nodes_view(nodes@);
    let ghost m = inline_map_of(s, s.len() as int);
    let mut new_nodes: Vec<ASTNode> = Vec::new();
    let mut i: usize = 0;
    while i < nodes.len()
        invariant
            i <= nodes@.len(),
            s == nodes_view(nodes@),
            m == text_map(inline_map@),
            new_nodes@.len() == i,
            forall|j: int| 0 <= j < i ==> node_view(#[trigger] new_nodes@[j]) == inline_n(s[j], m),
        decreases nodes@.len() - i,
    {
        new_nodes.push(inline_node(&nodes[i], &inline_map));
        i += 1;
    }
    let mut out = AST::Program(new_nodes);
    assert(nodes_view(out.nodes()) =~= s.map_values(|n: NodeV| inline_n(n, m)));
    optimize_pass1(&mut out);
    out
}

} // verus!

verus! {

proof fn lemma_inline_text_empty(t: Seq<char>, i: int)
    requires
        0 <= i <= t.len(),
    ensures
        inline_text(t, Map::empty(), i) == t.subrange(i, t.len() as int),
    decreases t.len() - i,
{
    if i < t.len() {
        if t[i] == '{' {
            if i > 0 && t[i - 1] == '\\' {
                lemma_inline_text_empty(t, i + 1);
                assert(t.subrange(i, t.len() as int) =~= seq!['{'] + t.subrange(i + 1, t.len() as int));
            } else {
                lemma_close_at(t, i + 1);
                let c = close_at(t, i + 1);
                if c < t.len() {
                    lemma_inline_text_empty(t, c + 1);
                    assert(t.subrange(i, t.len() as int) =~= seq!['{'] + t.subrange(i + 1, c) + seq!['}']
                        + t.subrange(c + 1, t.len() as int));
                }
            }
        } else {
            lemma_inline_text_empty(t, i + 1);
            assert(t.subrange(i, t.len() as int) =~= seq![t[i]] + t.subrange(i + 1, t.len() as int));
        }
    } else {
        assert(t.subrange(i, t.len() as int) =~= Seq::<char>::empty());
    }
}

proof fn lemma_inline_e_empty(e: ExprV)
    ensures
        inline_e(e, Map::empty()) == e,
    decreases e,
{
    match e {
        ExprV::Literal(t) => {
            lemma_inline_text_empty(t, 0);
            assert(t.subrange(0, t.len() as int) == t);
        },
        ExprV::Identifier(_) => {},
        ExprV::BinaryOp { left, right, .. } => {
            lemma_inline_e_empty(*left);
            lemma_inline_e_empty(*right);
        },
        ExprV::LogicalOp { left, right, .. } => {
            lemma_inline_e_empty(*left);
            lemma_inline_e_empty(*right);
        },
    }
}

proof fn lemma_inline_n_empty(n: NodeV)
    ensures
        inline_n(n, Map::empty()) == n,
    decreases n,
{
    match n {
        NodeV::VarDeclaration { value, .. } => {
            if let Some(e) = value {
                lemma_inline_e_empty(e);
            }
        },
        NodeV::Print { expr, .. } => {
            if let Some(e) = expr {
                lemma_inline_e_empty(e);
            }
        },
        NodeV::MathOp { operand, .. } => {
            lemma_inline_e_empty(operand);
        },
        NodeV::If { condition, body } => {
            lemma_inline_e_empty(condition);
            assert forall|i: int| 0 <= i < body.len() implies inline_n(body[i], Map::empty()) == body[i] by {
                assert(decreases_to!(n => body[i])) by {
                    assert(decreases_to!(body => body[i]));
                }
                lemma_inline_n_empty(body[i]);
            }
            if let NodeV::If { body: b2, .. } = inline_n(n, Map::empty()) {
                assert(b2 =~= body);
            }
        },
        NodeV::Input { .. } => {},
    }
}

/// Whether no top-level statement of `s` is a declaration.
pub open spec fn no_declarations(s: Seq<NodeV>) -> bool {
    forall|i: int| 0 <= i < s.len() ==> !(#[trigger] s[i] is VarDeclaration)
}

proof fn lemma_no_constants(s: Seq<NodeV>, n: int)
    requires
        no_declarations(s),
        0 <= n <= s.len(),
    ensures
        inline_map_of(s, n) == Map::<Seq<char>, Seq<char>>::empty(),
    decreases n,
{
    if n > 0 {
        lemma_no_constants(s, n - 1);
        assert(!(s[n - 1] is VarDeclaration));
    }
}

proof fn lemma_live_keeps_all(s: Seq<NodeV>, n: int)
    requires
        no_declarations(s),
        0 <= n <= s.len(),
    ensures
        live_prefix(s, s, n) == s.subrange(0, n),
    decreases n,
{
    if n > 0 {
        lemma_live_keeps_all(s, n - 1);
        assert(!(s[n - 1] is VarDeclaration));
        assert(s.subrange(0, n) =~= s.subrange(0, n - 1) + seq![s[n - 1]]);
    } else {
        assert(s.subrange(0, 0) =~= Seq::<NodeV>::empty());
    }
}

/// Without declarations the second pass is print fusion alone.
proof fn lemma_pass2_plain(s: Seq<NodeV>)
    requires
        no_declarations(s),
    ensures
        pass2_nodes(s) == fuse_from(s, 0),
        no_declarations(pass2_nodes(s)),
{
    lemma_no_constants(s, s.len() as int);
    assert forall|i: int| 0 <= i < s.len() implies inline_n(s[i], Map::empty()) == s[i] by {
        lemma_inline_n_empty(s[i]);
    }
    assert(s.map_values(|n: NodeV| inline_n(n, Map::empty())) =~= s);
    lemma_live_keeps_all(s, s.len() as int);
    assert(s.subrange(0, s.len() as int) == s);
    let o = fuse_from(s, 0);
    assert forall|j: int| 0 <= j < o.len() implies !(#[trigger] o[j] is VarDeclaration) by {
        if o[j] is VarDeclaration {
            let x = o[j]->VarDeclaration_name;
            assert forall|k: int| 0 <= k < s.len() implies !declares(#[trigger] s[k], x) by {
                assert(!(s[k] is VarDeclaration));
            }
            lemma_fuse_keeps(s, 0, x);
            assert(declares(o[j], x));
        }
    }
}

/// For a program without declarations, running the second pass twice gives what running it
/// once gives.
pub proof fn lemma_pass2_idempotent_without_declarations(s: Seq<NodeV>)
    requires
        no_declarations(s),
    ensures
        pass2_nodes(pass2_nodes(s)) == pass2_nodes(s),
{
    lemma_pass2_plain(s);
    let o = pass2_nodes(s);
    lemma_pass2_plain(o);
    lemma_fusion_idempotent(s);
}

} // verus!
