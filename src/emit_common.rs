use vstd::prelude::*;

use crate::ast::{node_view, ASTNode, NodeV, VarType};
use crate::names::NameMap;
use crate::pass1::nodes_view;

verus! {

/// The declared type of each variable of the first `n` statements of `s`; a later
/// declaration wins.
pub open spec fn decl_types(s: Seq<NodeV>, n: int) -> Map<Seq<char>, VarType>
    decreases n,
{
    if n <= 0 {
        Map::empty()
    } else {
        match s[n - 1] {
            NodeV::VarDeclaration { name, var_type, .. } => decl_types(s, n - 1).insert(
                name,
                var_type,
            ),
            _ => decl_types(s, n - 1),
        }
    }
}

/// The declared types of the top-level declarations of `nodes`.
pub fn collect_decl_types(nodes: &Vec<ASTNode>) -> (r: NameMap<VarType>)
    ensures
        r@ == decl_types(nodes_view(nodes@), nodes@.len() as int),
{
    let mut m: NameMap<VarType> = NameMap::new();
    let ghost s = nodes_view(nodes@);
    let mut i: usize = 0;
    while i < nodes.len()
        invariant
            i <= nodes@.len(),
            s == nodes_view(nodes@),
            m@ == decl_types(s, i as int),
        decreases nodes@.len() - i,
    {
        proof {
            assert(s[i as int] == node_view(nodes@[i as int]));
        }
        if let ASTNode::VarDeclaration { name, var_type, .. } = &nodes[i] {
            m.insert(name.clone(), *var_type);
        }
        i += 1;
    }
    m
}

/// `c + 1`, staying at `usize::MAX`.
pub open spec fn bump(c: usize) -> usize {
    if c < usize::MAX {
        (c + 1) as usize
    } else {
        c
    }
}

pub fn bump_exec(c: usize) -> (r: usize)
    ensures
        r == bump(c),
{
    c.saturating_add(1)
}

} // verus!
