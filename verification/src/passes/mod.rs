//! The rewrite passes that run on an expression before code is generated:
//! constant folding first, then strength reduction.

use vstd::prelude::*;
use crate::types::Expr;

pub mod constant_folding;
pub mod shift_replacement;

verus! {

/// Both passes in their order: the tree is folded, and what is left is
/// reduced.
pub fn optimize(e: Expr) -> (out: Expr)
    ensures
        out == shift_replacement::reduce(constant_folding::fold(e)),
{
    shift_replacement::reduce_tree(constant_folding::fold_tree(e))
}

} // verus!
