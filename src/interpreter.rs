use vstd::prelude::*;
use crate::syntax::Expr;
use crate::visit::MutVisitor;

verus! {

/// The values an evaluation yields. A number is held as its decimal text.
pub enum Types {
    Number(String),
}

/// The evaluator. No expression is evaluated yet: every walk reports an error,
/// after it has walked the children.
pub struct Interpreter {}

impl MutVisitor for Interpreter {
    type E = Result<Types, String>;

    fn visit_expression(&mut self, expr: &Expr) -> (r: Result<Types, String>)
        ensures
            r matches Err(msg) && msg@ == "error"@,
        decreases expr,
    {
        match expr {
            Expr::Binary(b) => {
                let right = self.visit_expression(&b.right);
                if let Err(e) = right {
                    return Err(e);
                }
                let left = self.visit_expression(&b.left);
                if let Err(e) = left {
                    return Err(e);
                }
            },
            Expr::Unary(u) => {
                let right = self.visit_expression(&u.right);
                if let Err(e) = right {
                    return Err(e);
                }
            },
            Expr::Literal(_) => {},
            Expr::Grouping(g) => {
                let inner = self.visit_expression(&g.expression);
                if let Err(e) = inner {
                    return Err(e);
                }
            },
        }
        Err(String::from_str("error"))
    }
}

} // verus!
