use vstd::prelude::*;

use crate::ast::{NodeV, AST};
use crate::emit_c::{c_program, transpile_c};
use crate::emit_llvm::{llvm_program, transpile_llvm};
use crate::emit_lx::{lx_program, transpile_lx8664};
use crate::emit_rs::{rs_program, transpile_rs};
use crate::errs::VarError;
use crate::pass1::{nodes_view, optimize_pass1, pass1_nodes};
use crate::pass2::{pass2, pass2_nodes};
use crate::parser::{parse_source, parse_spec};
use crate::ast::{node_view, ASTNode};
use crate::errs::err_view;

verus! {

/// An output format.
#[derive(Debug, Clone, Copy, PartialEq, Eq, Structural)]
pub enum Target {
    /// A Rust program.
    Rust,
    /// A C translation unit.
    C,
    /// An LLVM IR module.
    Llvm,
    /// x86-64 Linux assembly.
    Lx8664,
}

/// The text that target `t` makes of the statements `s`.
pub open spec fn emitted(t: Target, s: Seq<NodeV>) -> Seq<char> {
    match t {
        Target::Rust => rs_program(s),
        Target::C => c_program(s),
        Target::Llvm => llvm_program(s),
        Target::Lx8664 => lx_program(s),
    }
}

/// What the optimizer makes of the statements `s`: the first pass, then the second.
pub open spec fn optimized(s: Seq<NodeV>) -> Seq<NodeV> {
    pass2_nodes(pass1_nodes(s))
}

/// The target that `name` names: `rs` or `rust`, `c` or `C`, `llvm` or `LLVM`, `lx8664` or
/// `LX8664`.
pub fn target_from_name(name: &str) -> (r: Option<Target>)
    ensures
        r == (if name@ == "rs"@ || name@ == "rust"@ {
            Some(Target::Rust)
        } else if name@ == "c"@ || name@ == "C"@ {
            Some(Target::C)
        } else if name@ == "llvm"@ || name@ == "LLVM"@ {
            Some(Target::Llvm)
        } else if name@ == "lx8664"@ || name@ == "LX8664"@ {
            Some(Target::Lx8664)
        } else {
            None
        }),
{
    let n = String::from_str(name);
    if n == String::from_str("rs") || n == String::from_str("rust") {
        Some(Target::Rust)
    } else if n == String::from_str("c") || n == String::from_str("C") {
        Some(Target::C)
    } else if n == String::from_str("llvm") || n == String::from_str("LLVM") {
        Some(Target::Llvm)
    } else if n == String::from_str("lx8664") || n == String::from_str("LX8664") {
        Some(Target::Lx8664)
    } else {
        None
    }
}

/// The text that `target` makes of `ast`.
pub fn emit(ast: &AST, target: Target) -> (r: String)
    ensures
        r@ == emitted(target, nodes_view(ast.nodes())),
{
    match target {
        Target::Rust => transpile_rs(ast),
        Target::C => transpile_c(ast),
        Target::Llvm => transpile_llvm(ast),
        Target::Lx8664 => transpile_lx8664(ast),
    }
}

/// The end of a compilation once the program is parsed: the errors, when there are any, and
/// no output; else the optimized program in `target`.
pub fn compile_parsed(ast: AST, errors: Vec<VarError>, target: Target) -> (r: Result<String, Vec<VarError>>)
    ensures
        errors@.len() > 0 ==> (r matches Err(e) && e@ == errors@),
        errors@.len() == 0 ==> (r matches Ok(t) && t@ == emitted(
            target,
            optimized(nodes_view(ast.nodes())),
        )),
{
    if errors.len() > 0 {
        return Err(errors);
    }
    let mut ast = ast;
    optimize_pass1(&mut ast);
    let ast = pass2(ast);
    Ok(emit(&ast, target))
}

/// Compiles `source` to `target`: the errors that parsing finds (see `parse_spec`), with no
/// output, or, when there are none, the optimized program in `target`.
pub fn compile(source: &str, target: Target) -> (r: Result<String, Vec<VarError>>)
    requires
        source@.len() < usize::MAX,
    ensures
        (r is Err) <==> parse_spec(source@).errs.len() > 0,
        r matches Err(e) ==> e@.map_values(|x: VarError| err_view(x)) == parse_spec(source@).errs,
        r matches Ok(t) ==> t@ == emitted(target, optimized(parse_spec(source@).nodes)),
{
    let (ast, _var_map, errors) = parse_source(source);
    proof {
        assert(nodes_view(ast.nodes()) == ast.nodes().map_values(|x: ASTNode| node_view(x)));
        assert(errors@.map_values(|x: VarError| err_view(x)).len() == errors@.len());
    }
    compile_parsed(ast, errors, target)
}

} // verus!
