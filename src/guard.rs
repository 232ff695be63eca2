//! The precondition on expressions moved into synthesized code.
use vstd::prelude::*;

use crate::ast::Expr;

verus! {

/// `e` is a redundant grouping wrapper or a type-only construct, which an
/// earlier pass must already have removed.
pub open spec fn is_wrapper_or_type_syntax(e: Expr) -> bool {
    match e {
        Expr::Paren(_) => true,
        Expr::TsOnly(_) => true,
        _ => false,
    }
}

/// Tells whether `e` is a grouping wrapper or a type-only construct.
pub fn is_parenthesis_or_typescript_syntax(e: &Expr) -> (r: bool)
    ensures
        r == is_wrapper_or_type_syntax(*e),
{
    match e {
        Expr::Paren(_) => true,
        Expr::TsOnly(_) => true,
        _ => false,
    }
}

/// The pass-ordering contract, checked by Verus at every call site: the
/// expression is neither a grouping wrapper nor type-only syntax.
pub fn assert_expr_neither_parenthesis_nor_typescript_syntax(e: &Expr)
    requires
        !is_wrapper_or_type_syntax(*e),
{
    proof {
        assert(!is_wrapper_or_type_syntax(*e));
    }
}

} // verus!
