use vstd::prelude::*;

use crate::ast::VarType;
use crate::names::NameMap;

verus! {

/// The symbol table: each declared name with its type and a declaration index.
pub type VarMap = NameMap<(VarType, usize)>;

} // verus!
