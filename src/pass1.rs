use vstd::prelude::*;

use crate::ast::{copy_node, expr_view, node_view, ASTNode, ExprV, Expression, NodeV, AST};
use crate::placeholders::{placeholder_names, placeholders, strip_space};
use crate::text::{chars_of, string_of};

verus! {

/// Whether expression `e` refers to the variable `x`, directly or through a placeholder.
pub open spec fn expr_uses(e: ExprV, x: Seq<char>) -> bool
    decreases e,
{
    match e {
        ExprV::Literal(s) => placeholder_names(s, 0).contains(x),
        ExprV::Identifier(n) => n == x,
        ExprV::BinaryOp { left, right, .. } => expr_uses(*left, x) || expr_uses(*right, x),
        ExprV::LogicalOp { left, right, .. } => expr_uses(*left, x) || expr_uses(*right, x),
    }
}

pub open spec fn opt_uses(e: Option<ExprV>, x: Seq<char>) -> bool {
    match e {
        Some(e) => expr_uses(e, x),
        None => false,
    }
}

/// Whether statement `n` refers to the variable `x`: as an input or math target, or in any
/// expression, nested blocks included.
pub open spec fn node_uses(n: NodeV, x: Seq<char>) -> bool
    decreases n, 0int,
{
    match n {
        NodeV::Input { name } => name == x,
        NodeV::Print { expr, .. } => opt_uses(expr, x),
        NodeV::VarDeclaration { value, .. } => opt_uses(value, x),
        NodeV::MathOp { name, operand, .. } => name == x || expr_uses(operand, x),
        NodeV::If { condition, body } => expr_uses(condition, x) || body_uses(body, body.len() as int, x),
    }
}

/// Whether one of the first `k` statements of the block `body` refers to `x`.
pub open spec fn body_uses(body: Seq<NodeV>, k: int, x: Seq<char>) -> bool
    decreases body, k,
{
    if k <= 0 || k > body.len() {
        false
    } else {
        body_uses(body, k - 1, x) || node_uses(body[k - 1], x)
    }
}

/// Whether one of the first `n` statements of `s` refers to `x`.
pub open spec fn some_uses(s: Seq<NodeV>, n: int, x: Seq<char>) -> bool {
    exists|i: int| 0 <= i < n && #[trigger] node_uses(s[i], x)
}

/// Whether some statement of `s` refers to `x`.
pub open spec fn prog_uses(s: Seq<NodeV>, x: Seq<char>) -> bool {
    some_uses(s, s.len() as int, x)
}

proof fn lemma_body_uses(body: Seq<NodeV>, k: int, x: Seq<char>)
    requires
        0 <= k <= body.len(),
    ensures
        body_uses(body, k, x) == some_uses(body, k, x),
    decreases k,
{
    if k > 0 {
        lemma_body_uses(body, k - 1, x);
        lemma_some_uses_step(body, k - 1, x);
    } else {
        assert(!some_uses(body, 0, x));
    }
}

proof fn lemma_some_uses_step(s: Seq<NodeV>, n: int, x: Seq<char>)
    requires
        0 <= n < s.len(),
    ensures
        some_uses(s, n + 1, x) == (some_uses(s, n, x) || node_uses(s[n], x)),
{
    if some_uses(s, n + 1, x) {
        let k = choose|k: int| 0 <= k < n + 1 && #[trigger] node_uses(s[k], x);
        if k < n {
            assert(some_uses(s, n, x));
        }
    }
    if node_uses(s[n], x) {
        assert(0 <= n < n + 1 && node_uses(s[n], x));
    }
    if some_uses(s, n, x) {
        let k = choose|k: int| 0 <= k < n && #[trigger] node_uses(s[k], x);
        assert(0 <= k < n + 1 && node_uses(s[k], x));
    }
}

pub open spec fn nodes_view(s: Seq<ASTNode>) -> Seq<NodeV> {
    s.map_values(|n: ASTNode| node_view(n))
}

/// Whether `x` is one of the names in `v`.
pub open spec fn listed(v: Seq<String>, x: Seq<char>) -> bool {
    exists|j: int| 0 <= j < v.len() && (#[trigger] v[j])@ == x
}

/// Whether liveness keeps `n`: a declaration stays only if `all` refers to its name.
pub open spec fn kept(n: NodeV, all: Seq<NodeV>) -> bool {
    match n {
        NodeV::VarDeclaration { name, .. } => prog_uses(all, name),
        _ => true,
    }
}

/// The first `n` statements of `s` that liveness keeps, in order.
pub open spec fn live_prefix(s: Seq<NodeV>, all: Seq<NodeV>, n: int) -> Seq<NodeV>
    decreases n,
{
    if n <= 0 {
        Seq::empty()
    } else {
        live_prefix(s, all, n - 1) + if kept(s[n - 1], all) {
            seq![s[n - 1]]
        } else {
            Seq::empty()
        }
    }
}

pub open spec fn is_print_on(n: NodeV, f: bool) -> bool {
    n matches NodeV::Print { to_stderr, .. } && to_stderr == f
}

/// The end of the run of prints to the same stream `f` that starts at `i`.
pub open spec fn run_end(s: Seq<NodeV>, i: int, f: bool) -> int
    decreases s.len() - i,
{
    if 0 <= i < s.len() && is_print_on(s[i], f) {
        run_end(s, i + 1, f)
    } else {
        i
    }
}

proof fn lemma_run_end(s: Seq<NodeV>, i: int, f: bool)
    requires
        0 <= i <= s.len(),
    ensures
        i <= run_end(s, i, f) <= s.len(),
        forall|k: int| i <= k < run_end(s, i, f) ==> is_print_on(#[trigger] s[k], f),
        run_end(s, i, f) < s.len() ==> !is_print_on(s[run_end(s, i, f)], f),
    decreases s.len() - i,
{
    if i < s.len() && is_print_on(s[i], f) {
        lemma_run_end(s, i + 1, f);
    }
}

/// The text a print contributes to a fused print; no expression contributes nothing.
pub open spec fn print_text(n: NodeV) -> Seq<char> {
    match n {
        NodeV::Print { expr: Some(ExprV::Literal(t)), .. } => t,
        NodeV::Print { expr: Some(ExprV::Identifier(t)), .. } => t,
        _ => Seq::empty(),
    }
}

/// The texts of the prints `s[i..j]`, concatenated in order.
pub open spec fn run_text(s: Seq<NodeV>, i: int, j: int) -> Seq<char>
    decreases j - i,
{
    if j <= i {
        Seq::empty()
    } else {
        run_text(s, i, j - 1) + print_text(s[j - 1])
    }
}

/// The print that a run `s[i..j]` of prints to stream `f` fuses into.
pub open spec fn fused(s: Seq<NodeV>, i: int, j: int, f: bool) -> NodeV {
    NodeV::Print { to_stderr: f, expr: Some(ExprV::Literal(strip_space(run_text(s, i, j)))) }
}

/// `s` from `i` on, each maximal run of two or more prints to one stream fused into one
/// print; a print alone stays as it is.
pub open spec fn fuse_from(s: Seq<NodeV>, i: int) -> Seq<NodeV>
    decreases s.len() - i,
    via fuse_from_decreases
{
    if i < 0 || i >= s.len() {
        Seq::empty()
    } else if let NodeV::Print { to_stderr, .. } = s[i] {
        let j = run_end(s, i + 1, to_stderr);
        if j == i + 1 {
            seq![s[i]] + fuse_from(s, j)
        } else {
            seq![fused(s, i, j, to_stderr)] + fuse_from(s, j)
        }
    } else {
        seq![s[i]] + fuse_from(s, i + 1)
    }
}

#[via_fn]
proof fn fuse_from_decreases(s: Seq<NodeV>, i: int) {
    if 0 <= i < s.len() {
        if let NodeV::Print { to_stderr, .. } = s[i] {
            lemma_run_end(s, i + 1, to_stderr);
        }
    }
}

/// What the first pass makes of the statements `s`.
pub open spec fn pass1_nodes(s: Seq<NodeV>) -> Seq<NodeV> {
    fuse_from(live_prefix(s, s, s.len() as int), 0)
}

/// Adds `name` to `used`.
fn add_name(name: &String, used: &mut Vec<String>)
    ensures
        forall|x: Seq<char>| #[trigger] listed(final(used)@, x) <==> (listed(old(used)@, x) || x == name@),
{
    used.push(name.clone());
    proof {
        assert forall|x: Seq<char>| listed(used@, x) <==> (listed(old(used)@, x) || x == name@) by {
            if listed(old(used)@, x) {
                let j = choose|j: int| 0 <= j < old(used)@.len() && (#[trigger] old(used)@[j])@ == x;
                assert(used@[j] == old(used)@[j]);
            }
            if listed(used@, x) {
                let j = choose|j: int| 0 <= j < used@.len() && (#[trigger] used@[j])@ == x;
                if j < old(used)@.len() {
                    assert(old(used)@[j] == used@[j]);
                }
            }
            if x == name@ {
                assert(used@[used@.len() - 1]@ == x);
            }
        }
    }
}

/// Adds to `used` the names that `expr` refers to.
fn collect_used_vars_in_expression(expr: &Expression, used: &mut Vec<String>)
    ensures
        forall|x: Seq<char>|
            #[trigger] listed(final(used)@, x) <==> (listed(old(used)@, x) || expr_uses(expr_view(*expr), x)),
    decreases expr,
{
    match expr {
        Expression::Identifier(name) => {
            add_name(name, used);
        },
        Expression::Literal(lit) => {
            let names = placeholders(lit);
            let ghost ph = placeholder_names(lit@, 0);
            let mut k: usize = 0;
            while k < names.len()
                invariant
                    k <= names@.len(),
                    names@.map_values(|x: String| x@) == ph,
                    ph == placeholder_names(lit@, 0),
                    *expr == Expression::Literal(*lit),
                    forall|x: Seq<char>|
                        listed(used@, x) <==> (listed(old(used)@, x) || exists|q: int|
                            0 <= q < k && #[trigger] ph[q] == x),
                decreases names@.len() - k,
            {
                let ghost prev = used@;
                let ghost nm = names@[k as int]@;
                add_name(&names[k], used);
                proof {
                    assert(ph[k as int] == nm);
                    assert forall|x: Seq<char>| listed(used@, x) <==> (listed(old(used)@, x)
                        || exists|q: int| 0 <= q < k + 1 && #[trigger] ph[q] == x) by {
                        if x == nm {
                            assert(0 <= k < k + 1 && ph[k as int] == x);
                        }
                        if exists|q: int| 0 <= q < k + 1 && #[trigger] ph[q] == x {
                            let q = choose|q: int| 0 <= q < k + 1 && #[trigger] ph[q] == x;
                            if q < k {
                                assert(listed(prev, x));
                            }
                        }
                    }
                }
                k += 1;
            }
            proof {
                assert(names@.len() == ph.len());
                assert forall|x: Seq<char>| ph.contains(x) <==> exists|q: int|
                    0 <= q < ph.len() && #[trigger] ph[q] == x by {
                    if ph.contains(x) {
                        let q = choose|q: int| 0 <= q < ph.len() && ph[q] == x;
                        assert(ph[q] == x);
                    }
                }
            }
        },
        Expression::BinaryOp { left, right, .. } => {
            collect_used_vars_in_expression(left, used);
            collect_used_vars_in_expression(right, used);
        },
        Expression::LogicalOp { left, right, .. } => {
            collect_used_vars_in_expression(left, used);
            collect_used_vars_in_expression(right, used);
        },
    }
}

/// Adds to `used` the names that `node` refers to.
fn collect_used_vars_in_node(node: &ASTNode, used: &mut Vec<String>)
    ensures
        forall|x: Seq<char>|
            #[trigger] listed(final(used)@, x) <==> (listed(old(used)@, x) || node_uses(node_view(*node), x)),
    decreases node,
{
    match node {
        ASTNode::Input { name } => {
            add_name(name, used);
        },
        ASTNode::Print { expr, .. } => {
            if let Some(e) = expr {
                collect_used_vars_in_expression(e, used);
            }
        },
        ASTNode::VarDeclaration { value, .. } => {
            if let Some(e) = value {
                collect_used_vars_in_expression(e, used);
            }
        },
        ASTNode::MathOp { name, operand, .. } => {
            add_name(name, used);
            collect_used_vars_in_expression(operand, used);
        },
        ASTNode::If { condition, body } => {
            collect_used_vars_in_expression(condition, used);
            let ghost after_cond = used@;
            let ghost bv = match node_view(*node) {
                NodeV::If { body, .. } => body,
                _ => Seq::empty(),
            };
            let mut i: usize = 0;
            assert(decreases_to!(*node => *body));
            while i < body.len()
                invariant
                    decreases_to!(*node => *body),
                    i <= body@.len(),
                    bv == match node_view(*node) {
                        NodeV::If { body, .. } => body,
                        _ => Seq::empty(),
                    },
                    bv.len() == body@.len(),
                    forall|j: int| 0 <= j < bv.len() ==> #[trigger] bv[j] == node_view(body@[j]),
                    forall|x: Seq<char>|
                        #[trigger] listed(used@, x) <==> (listed(after_cond, x) || some_uses(
                            bv,
                            i as int,
                            x,
                        )),
                decreases body@.len() - i,
            {
                proof {
                    assert(decreases_to!(*body => body[i as int]));
                }
                let ghost prev = used@;
                collect_used_vars_in_node(&body[i], used);
                proof {
                    assert(bv[i as int] == node_view(body@[i as int]));
                    assert forall|x: Seq<char>| #[trigger] listed(used@, x) <==> (listed(after_cond, x)
                        || some_uses(bv, i + 1, x)) by {
                        lemma_some_uses_step(bv, i as int, x);
                        assert(listed(prev, x) <==> (listed(after_cond, x) || some_uses(bv, i as int, x)));
                    }
                }
                i += 1;
            }
            proof {
                assert forall|x: Seq<char>| #[trigger] listed(used@, x) <==> (listed(old(used)@, x)
                    || node_uses(node_view(*node), x)) by {
                    assert(listed(after_cond, x) <==> (listed(old(used)@, x) || expr_uses(
                        expr_view(*condition),
                        x,
                    )));
                    assert(listed(used@, x) <==> (listed(after_cond, x) || some_uses(
                        bv,
                        bv.len() as int,
                        x,
                    )));
                    let nv = node_view(*node);
                    assert(nv == NodeV::If { condition: expr_view(*condition), body: bv });
                    lemma_body_uses(bv, bv.len() as int, x);
                    assert(node_uses(nv, x) <==> (expr_uses(expr_view(*condition), x)
                        || some_uses(bv, bv.len() as int, x)));
                }
            }
        },
    }
}

/// The names that some statement of `ast` refers to.
fn collect_used_vars(ast: &AST) -> (r: Vec<String>)
    ensures
        forall|x: Seq<char>| listed(r@, x) <==> prog_uses(nodes_view(ast.nodes()), x),
{
    let mut used: Vec<String> = Vec::new();
    let nodes = match ast {
        AST::Program(v) => v,
    };
    let ghost s = nodes_view(nodes@);
    let mut i: usize = 0;
    while i < nodes.len()
        invariant
            i <= nodes@.len(),
            s == nodes_view(nodes@),
            nodes@ == ast.nodes(),
            forall|x: Seq<char>| #[trigger] listed(used@, x) <==> some_uses(s, i as int, x),
        decreases nodes@.len() - i,
    {
        let ghost prev = used@;
        collect_used_vars_in_node(&nodes[i], &mut used);
        proof {
            assert(s[i as int] == node_view(nodes@[i as int]));
            assert forall|x: Seq<char>| #[trigger] listed(used@, x) <==> some_uses(s, i + 1, x) by {
                lemma_some_uses_step(s, i as int, x);
                assert(listed(prev, x) <==> some_uses(s, i as int, x));
            }
        }
        i += 1;
    }
    used
}

/// Whether `name` is one of `used`.
fn is_listed(used: &Vec<String>, name: &String) -> (r: bool)
    ensures
        r == listed(used@, name@),
{
    let mut j: usize = 0;
    while j < used.len()
        invariant
            j <= used@.len(),
            forall|k: int| 0 <= k < j ==> (#[trigger] used@[k])@ != name@,
        decreases used@.len() - j,
    {
        if used[j] == *name {
            return true;
        }
        j += 1;
    }
    false
}

/// The text of a print's expression: a literal's or an identifier's text, else nothing.
fn expr_to_string(expr: &Expression) -> (r: String)
    ensures
        r@ == print_text(NodeV::Print { to_stderr: false, expr: Some(expr_view(*expr)) }),
{
    match expr {
        Expression::Literal(s) => s.clone(),
        Expression::Identifier(s) => s.clone(),
        _ => String::new(),
    }
}

/// Dead-declaration removal, then fusion of each run of prints to one stream into one print.
pub fn optimize_pass1(ast: &mut AST)
    ensures
        nodes_view(final(ast).nodes()) == pass1_nodes(nodes_view(old(ast).nodes())),
{
    let used = collect_used_vars(ast);
    let nodes = match ast {
        AST::Program(v) => v,
    };
    let ghost all = nodes_view(nodes@);
    // liveness
    let mut live: Vec<ASTNode> = Vec::new();
    let mut i: usize = 0;
    while i < nodes.len()
        invariant
            i <= nodes@.len(),
            all == nodes_view(nodes@),
            forall|x: Seq<char>| listed(used@, x) <==> prog_uses(all, x),
            nodes_view(live@) == live_prefix(all, all, i as int),
        decreases nodes@.len() - i,
    {
        let keep = match &nodes[i] {
            ASTNode::VarDeclaration { name, .. } => is_listed(&used, name),
            _ => true,
        };
        let ghost prev = live@;
        if keep {
            live.push(copy_node(&nodes[i]));
            assert(nodes_view(live@) == nodes_view(prev) + seq![all[i as int]]);
        } else {
            assert(nodes_view(live@) == nodes_view(prev) + Seq::<NodeV>::empty());
        }
        i += 1;
    }
    // fusion
    let ghost k = nodes_view(live@);
    let mut optimized: Vec<ASTNode> = Vec::new();
    let mut i: usize = 0;
    while i < live.len()
        invariant
            i <= live@.len(),
            k == nodes_view(live@),
            nodes_view(optimized@) + fuse_from(k, i as int) == fuse_from(k, 0),
        decreases live@.len() - i,
    {
        let ghost prev = optimized@;
        proof {
            assert(k[i as int] == node_view(live@[i as int]));
        }
        if let ASTNode::Print { to_stderr, expr } = &live[i] {
            let f = *to_stderr;
            let mut text: Vec<char> = match expr {
                Some(e) => {
                    let t = expr_to_string(e);
                    chars_of(t.as_str())
                },
                None => Vec::new(),
            };
            assert(run_text(k, i as int, i as int) == Seq::<char>::empty());
            assert(run_text(k, i as int, i + 1) =~= print_text(k[i as int]));
            assert(text@ == run_text(k, i as int, i + 1));
            let mut j = i + 1;
            let mut go = true;
            while go && j < live.len()
                invariant
                    i < j <= live@.len(),
                    k == nodes_view(live@),
                    is_print_on(k[i as int], f),
                    text@ == run_text(k, i as int, j as int),
                    run_end(k, j as int, f) == run_end(k, i + 1, f),
                    !go ==> j < live@.len() && !is_print_on(k[j as int], f),
                decreases live@.len() - j + if go {
                    1int
                } else {
                    0int
                },
            {
                proof {
                    assert(k[j as int] == node_view(live@[j as int]));
                }
                go = false;
                if let ASTNode::Print { to_stderr: t, expr: e } = &live[j] {
                    if *t == f {
                        let piece: Vec<char> = match e {
                            Some(x) => {
                                let ts = expr_to_string(x);
                                chars_of(ts.as_str())
                            },
                            None => Vec::new(),
                        };
                        let mut q: usize = 0;
                        let ghost t0 = text@;
                        while q < piece.len()
                            invariant
                                q <= piece@.len(),
                                text@ == t0 + piece@.subrange(0, q as int),
                            decreases piece@.len() - q,
                        {
                            text.push(piece[q]);
                            assert(piece@.subrange(0, q + 1) == piece@.subrange(0, q as int).push(piece@[q as int]));
                            q += 1;
                        }
                        assert(piece@.subrange(0, piece@.len() as int) == piece@);
                        j += 1;
                        go = true;
                    }
                }
            }
            if j == i + 1 {
                optimized.push(copy_node(&live[i]));
                proof {
                    assert(run_end(k, j as int, f) == j);
                    assert(nodes_view(optimized@) == nodes_view(prev) + seq![k[i as int]]);
                }
            } else {
                let combined = if text.len() > 0 && text[0] == ' ' {
                    string_of(text.as_slice(), 1, text.len())
                } else {
                    string_of(text.as_slice(), 0, text.len())
                };
                let node = ASTNode::Print { to_stderr: f, expr: Some(Expression::Literal(combined)) };
                optimized.push(node);
                proof {
                    assert(combined@ =~= strip_space(text@));
                    assert(run_end(k, j as int, f) == j);
                    assert(node_view(node) == fused(k, i as int, j as int, f));
                    assert(nodes_view(optimized@) == nodes_view(prev) + seq![fused(k, i as int, j as int, f)]);
                }
            }
            i = j;
        } else {
            optimized.push(copy_node(&live[i]));
            assert(nodes_view(optimized@) == nodes_view(prev) + seq![k[i as int]]);
            i += 1;
        }
    }
    assert(fuse_from(k, i as int) == Seq::<NodeV>::empty());
    assert(nodes_view(optimized@) == nodes_view(optimized@) + fuse_from(k, i as int));
    *ast = AST::Program(optimized);
}

} // verus!

verus! {

pub open spec fn declares(n: NodeV, x: Seq<char>) -> bool {
    n matches NodeV::VarDeclaration { name, .. } && name == x
}

proof fn lemma_live_prefix_drops(s: Seq<NodeV>, all: Seq<NodeV>, n: int, x: Seq<char>)
    requires
        0 <= n <= s.len(),
        !prog_uses(all, x),
    ensures
        forall|j: int|
            0 <= j < live_prefix(s, all, n).len() ==> !declares(
                #[trigger] live_prefix(s, all, n)[j],
                x,
            ),
    decreases n,
{
    if n > 0 {
        lemma_live_prefix_drops(s, all, n - 1, x);
        let p = live_prefix(s, all, n - 1);
        let q = live_prefix(s, all, n);
        assert forall|j: int| 0 <= j < q.len() implies !declares(#[trigger] q[j], x) by {
            if j < p.len() {
                assert(q[j] == p[j]);
            }
        }
    }
}

pub proof fn lemma_fuse_keeps(s: Seq<NodeV>, i: int, x: Seq<char>)
    requires
        0 <= i <= s.len(),
        forall|j: int| 0 <= j < s.len() ==> !declares(#[trigger] s[j], x),
    ensures
        forall|j: int|
            0 <= j < fuse_from(s, i).len() ==> !declares(#[trigger] fuse_from(s, i)[j], x),
    decreases s.len() - i,
{
    if i < s.len() {
        let r = fuse_from(s, i);
        if let NodeV::Print { to_stderr, .. } = s[i] {
            let e = run_end(s, i + 1, to_stderr);
            lemma_run_end(s, i + 1, to_stderr);
            lemma_fuse_keeps(s, e, x);
            assert forall|j: int| 0 <= j < r.len() implies !declares(#[trigger] r[j], x) by {
                if j > 0 {
                    assert(r[j] == fuse_from(s, e)[j - 1]);
                }
            }
        } else {
            lemma_fuse_keeps(s, i + 1, x);
            assert forall|j: int| 0 <= j < r.len() implies !declares(#[trigger] r[j], x) by {
                if j > 0 {
                    assert(r[j] == fuse_from(s, i + 1)[j - 1]);
                }
            }
        }
    }
}

/// A variable that no statement refers to (as an input or math target, in an expression,
/// or in a placeholder) has no declaration left after the first pass.
pub proof fn lemma_unused_declaration_removed(s: Seq<NodeV>, x: Seq<char>)
    requires
        !prog_uses(s, x),
    ensures
        forall|j: int| 0 <= j < pass1_nodes(s).len() ==> !declares(#[trigger] pass1_nodes(s)[j], x),
{
    lemma_live_prefix_drops(s, s, s.len() as int, x);
    lemma_fuse_keeps(live_prefix(s, s, s.len() as int), 0, x);
}

proof fn lemma_live_prefix_all_prints(s: Seq<NodeV>, n: int, f: bool)
    requires
        0 <= n <= s.len(),
        forall|j: int| 0 <= j < s.len() ==> is_print_on(#[trigger] s[j], f),
    ensures
        live_prefix(s, s, n) == s.subrange(0, n),
    decreases n,
{
    if n > 0 {
        lemma_live_prefix_all_prints(s, n - 1, f);
        assert(s.subrange(0, n) == s.subrange(0, n - 1) + seq![s[n - 1]]);
    } else {
        assert(s.subrange(0, 0) == Seq::<NodeV>::empty());
    }
}

/// N >= 2 consecutive prints to one stream, with nothing between them, come out of the first
/// pass as exactly one print to that stream, whose text is their texts concatenated in
/// order, without one leading space.
pub proof fn lemma_prints_fuse(s: Seq<NodeV>, f: bool)
    requires
        s.len() >= 2,
        forall|j: int| 0 <= j < s.len() ==> is_print_on(#[trigger] s[j], f),
    ensures
        pass1_nodes(s).len() == 1,
        pass1_nodes(s)[0] == (NodeV::Print {
            to_stderr: f,
            expr: Some(ExprV::Literal(strip_space(run_text(s, 0, s.len() as int)))),
        }),
{
    lemma_live_prefix_all_prints(s, s.len() as int, f);
    assert(s.subrange(0, s.len() as int) == s);
    lemma_run_end(s, 1, f);
    let e = run_end(s, 1, f);
    if e < s.len() {
        assert(is_print_on(s[e], f));
    }
    assert(e == s.len());
    assert(fuse_from(s, e) == Seq::<NodeV>::empty());
    assert(pass1_nodes(s) == seq![fused(s, 0, e, f)] + fuse_from(s, e));
}

} // verus!

verus! {

/// Whether `a` and `b` are prints to the same stream.
pub open spec fn same_stream_prints(a: NodeV, b: NodeV) -> bool {
    a matches NodeV::Print { to_stderr: f, .. } && b matches NodeV::Print { to_stderr: g, .. } && f == g
}

proof fn lemma_fuse_head(s: Seq<NodeV>, i: int)
    requires
        0 <= i < s.len(),
    ensures
        fuse_from(s, i).len() > 0,
        s[i] matches NodeV::Print { to_stderr: f, .. } ==> (fuse_from(s, i)[0] matches NodeV::Print {
            to_stderr: g,
            ..
        } && g == f),
        !(s[i] is Print) ==> fuse_from(s, i)[0] == s[i],
{
}

proof fn lemma_fuse_no_adjacent(s: Seq<NodeV>, i: int)
    requires
        0 <= i <= s.len(),
    ensures
        forall|k: int|
            0 <= k < fuse_from(s, i).len() - 1 ==> !same_stream_prints(
                #[trigger] fuse_from(s, i)[k],
                fuse_from(s, i)[k + 1],
            ),
    decreases s.len() - i,
{
    if i < s.len() {
        let out = fuse_from(s, i);
        if let NodeV::Print { to_stderr, .. } = s[i] {
            let j = run_end(s, i + 1, to_stderr);
            lemma_run_end(s, i + 1, to_stderr);
            lemma_fuse_no_adjacent(s, j);
            let rest = fuse_from(s, j);
            let h = if j == i + 1 {
                s[i]
            } else {
                fused(s, i, j, to_stderr)
            };
            assert(out == seq![h] + rest);
            assert forall|k: int| 0 <= k < out.len() - 1 implies !same_stream_prints(
                #[trigger] out[k],
                out[k + 1],
            ) by {
                if k == 0 {
                    lemma_fuse_head(s, j);
                    assert(out[1] == rest[0]);
                } else {
                    assert(out[k] == rest[k - 1]);
                    assert(out[k + 1] == rest[k]);
                }
            }
        } else {
            lemma_fuse_no_adjacent(s, i + 1);
            let rest = fuse_from(s, i + 1);
            assert(out == seq![s[i]] + rest);
            assert forall|k: int| 0 <= k < out.len() - 1 implies !same_stream_prints(
                #[trigger] out[k],
                out[k + 1],
            ) by {
                if k > 0 {
                    assert(out[k] == rest[k - 1]);
                    assert(out[k + 1] == rest[k]);
                }
            }
        }
    }
}

/// After the first pass no two neighbouring statements are prints to the same stream: each
/// run of such prints has become one print.
pub proof fn lemma_no_adjacent_prints(s: Seq<NodeV>)
    ensures
        forall|k: int|
            0 <= k < pass1_nodes(s).len() - 1 ==> !same_stream_prints(
                #[trigger] pass1_nodes(s)[k],
                pass1_nodes(s)[k + 1],
            ),
{
    lemma_fuse_no_adjacent(live_prefix(s, s, s.len() as int), 0);
}

} // verus!

verus! {

proof fn lemma_fuse_identity(o: Seq<NodeV>, i: int)
    requires
        0 <= i <= o.len(),
        forall|k: int| 0 <= k < o.len() - 1 ==> !same_stream_prints(#[trigger] o[k], o[k + 1]),
    ensures
        fuse_from(o, i) == o.subrange(i, o.len() as int),
    decreases o.len() - i,
{
    if i < o.len() {
        lemma_fuse_identity(o, i + 1);
        if let NodeV::Print { to_stderr, .. } = o[i] {
            if i + 1 < o.len() {
                assert(!same_stream_prints(o[i], o[i + 1]));
                assert(!is_print_on(o[i + 1], to_stderr));
            }
            assert(run_end(o, i + 1, to_stderr) == i + 1);
        }
        assert(o.subrange(i, o.len() as int) == seq![o[i]] + o.subrange(i + 1, o.len() as int));
    } else {
        assert(o.subrange(i, o.len() as int) == Seq::<NodeV>::empty());
    }
}

/// Fusing prints a second time changes nothing: after fusion no two neighbouring
/// statements are prints to the same stream.
pub proof fn lemma_fusion_idempotent(s: Seq<NodeV>)
    ensures
        fuse_from(fuse_from(s, 0), 0) == fuse_from(s, 0),
{
    lemma_fuse_no_adjacent(s, 0);
    let o = fuse_from(s, 0);
    lemma_fuse_identity(o, 0);
    assert(o.subrange(0, o.len() as int) == o);
}

} // verus!

verus! {

proof fn lemma_fuse_reaches(k: Seq<NodeV>, p: int, i: int, f: bool)
    requires
        0 <= p <= i < k.len(),
        is_print_on(k[i], f),
        i == 0 || !is_print_on(k[i - 1], f),
    ensures
        exists|pre: Seq<NodeV>| fuse_from(k, p) == pre + fuse_from(k, i),
    decreases i - p,
{
    if p == i {
        assert(fuse_from(k, p) == Seq::<NodeV>::empty() + fuse_from(k, i));
    } else {
        if let NodeV::Print { to_stderr: g, .. } = k[p] {
            lemma_run_end(k, p + 1, g);
            let re = run_end(k, p + 1, g);
            if re > i {
                assert(is_print_on(k[i], g));
                assert(is_print_on(k[i - 1], g)) by {
                    if i - 1 > p {
                        assert(p + 1 <= i - 1 < re);
                    }
                }
            }
            lemma_fuse_reaches(k, re, i, f);
            let pre2 = choose|pre: Seq<NodeV>| fuse_from(k, re) == pre + fuse_from(k, i);
            let h = if re == p + 1 {
                k[p]
            } else {
                fused(k, p, re, g)
            };
            assert(fuse_from(k, p) == seq![h] + fuse_from(k, re));
            assert(fuse_from(k, p) == (seq![h] + pre2) + fuse_from(k, i));
        } else {
            lemma_fuse_reaches(k, p + 1, i, f);
            let pre2 = choose|pre: Seq<NodeV>| fuse_from(k, p + 1) == pre + fuse_from(k, i);
            assert(fuse_from(k, p) == seq![k[p]] + fuse_from(k, p + 1));
            assert(fuse_from(k, p) == (seq![k[p]] + pre2) + fuse_from(k, i));
        }
    }
}

/// The statements that liveness keeps in `s`.
pub open spec fn live_nodes(s: Seq<NodeV>) -> Seq<NodeV> {
    live_prefix(s, s, s.len() as int)
}

/// A maximal run `[i, j)` of two or more neighbouring prints to stream `f`, among the
/// statements that liveness keeps, comes out of the first pass as exactly one print in its
/// place: to stream `f`, with the runs' texts concatenated in order, without one leading
/// space. What stands before it and after it is fused on its own.
pub proof fn lemma_run_fuses_in_place(s: Seq<NodeV>, i: int, j: int, f: bool)
    requires
        0 <= i < live_nodes(s).len(),
        is_print_on(live_nodes(s)[i], f),
        i == 0 || !is_print_on(live_nodes(s)[i - 1], f),
        j == run_end(live_nodes(s), i + 1, f),
        j >= i + 2,
    ensures
        exists|pre: Seq<NodeV>|
            pass1_nodes(s) == pre + seq![
                NodeV::Print {
                    to_stderr: f,
                    expr: Some(ExprV::Literal(strip_space(run_text(live_nodes(s), i, j)))),
                },
            ] + fuse_from(live_nodes(s), j),
{
    let k = live_nodes(s);
    lemma_fuse_reaches(k, 0, i, f);
    let pre = choose|pre: Seq<NodeV>| fuse_from(k, 0) == pre + fuse_from(k, i);
    assert(fuse_from(k, i) == seq![fused(k, i, j, f)] + fuse_from(k, j));
    assert(pass1_nodes(s) == pre + seq![fused(k, i, j, f)] + fuse_from(k, j));
}

} // verus!
