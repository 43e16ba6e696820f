use vstd::prelude::*;
use crate::syntax::Expr;

verus! {

/// A walk over an expression that carries state from node to node.
pub trait MutVisitor {
    type E;

    fn visit_expression(&mut self, expr: &Expr) -> Self::E;
}

/// A walk over an expression that changes no state.
pub trait Visitor {
    type E;

    fn visit_expression(&self, expr: &Expr) -> Self::E;
}

} // verus!
