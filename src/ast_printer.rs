use vstd::prelude::*;
use crate::syntax::{Expr, ExprModel, LiteralModel, LiteralValue};
use crate::token::kind_text;
use crate::visit::Visitor;

verus! {

/// The display form of a literal value.
pub open spec fn literal_text(v: LiteralModel) -> Seq<char> {
    match v {
        LiteralModel::Number(s) => s,
        LiteralModel::LoxString(s) => "\""@ + s + "\""@,
        LiteralModel::Bool(b) => if b { "true"@ } else { "false"@ },
        LiteralModel::Nil => "None"@,
    }
}

/// The fully parenthesized form of an expression.
pub open spec fn print_text(e: ExprModel) -> Seq<char>
    decreases e,
{
    match e {
        ExprModel::Binary(l, op, r) => "(Binary "@ + kind_text(op.kind) + " "@ + print_text(*l)
            + " "@ + print_text(*r) + ")"@,
        ExprModel::Unary(op, r) => "(Unary "@ + kind_text(op.kind) + " "@ + print_text(*r) + ")"@,
        ExprModel::Grouping(g) => "(Grouping "@ + print_text(*g) + ")"@,
        ExprModel::Literal(v) => "(Literal "@ + literal_text(v) + ")"@,
    }
}

/// The display form of a literal value.
pub fn literal_string(v: &LiteralValue) -> (r: String)
    ensures
        r@ == literal_text(v@),
{
    match v {
        LiteralValue::Number(s) => s.clone(),
        LiteralValue::LoxString(s) => {
            let mut out = String::from_str("\"");
            out.append(s.as_str());
            out.append("\"");
            out
        },
        LiteralValue::Bool(b) => if *b {
            String::from_str("true")
        } else {
            String::from_str("false")
        },
        LiteralValue::Nil => String::from_str("None"),
    }
}

/// The fully parenthesized form of `expr`.
pub fn print_expr(expr: &Expr) -> (r: String)
    ensures
        r@ == print_text(expr@),
    decreases expr,
{
    match expr {
        Expr::Binary(b) => {
            let mut out = String::from_str("(Binary ");
            out.append(b.operator.token_type.text().as_str());
            out.append(" ");
            out.append(print_expr(&b.left).as_str());
            out.append(" ");
            out.append(print_expr(&b.right).as_str());
            out.append(")");
            out
        },
        Expr::Unary(u) => {
            let mut out = String::from_str("(Unary ");
            out.append(u.operator.token_type.text().as_str());
            out.append(" ");
            out.append(print_expr(&u.right).as_str());
            out.append(")");
            out
        },
        Expr::Grouping(g) => {
            let mut out = String::from_str("(Grouping ");
            out.append(print_expr(&g.expression).as_str());
            out.append(")");
            out
        },
        Expr::Literal(v) => {
            let mut out = String::from_str("(Literal ");
            out.append(literal_string(v).as_str());
            out.append(")");
            out
        },
    }
}

/// Renders expressions in their fully parenthesized form.
pub struct ASTStringVisitor<'a> {
    pub expressions: &'a [Expr],
}

/// The rendering of each expression of `es`, one after another.
pub open spec fn print_all(es: Seq<Expr>) -> Seq<char>
    decreases es.len(),
{
    if es.len() == 0 {
        Seq::empty()
    } else {
        print_all(es.drop_last()) + print_text(es.last()@)
    }
}

impl<'a> ASTStringVisitor<'a> {
    /// The rendering of every expression, one after another.
    pub fn render(&self) -> (r: String)
        ensures
            r@ == print_all(self.expressions@),
    {
        let mut out = String::new();
        let mut i: usize = 0;
        while i < self.expressions.len()
            invariant
                i <= self.expressions@.len(),
                out@ == print_all(self.expressions@.subrange(0, i as int)),
            decreases self.expressions@.len() - i,
        {
            let ghost before = out@;
            out.append(print_expr(&self.expressions[i]).as_str());
            assert(self.expressions@.subrange(0, i + 1).drop_last() =~= self.expressions@.subrange(
                0,
                i as int,
            ));
            i = i + 1;
        }
        assert(self.expressions@.subrange(0, i as int) =~= self.expressions@);
        out
    }
}

impl<'a> Visitor for ASTStringVisitor<'a> {
    type E = String;

    fn visit_expression(&self, expr: &Expr) -> (r: String)
        ensures
            r@ == print_text(expr@),
    {
        print_expr(expr)
    }
}

impl Expr {
    /// The fully parenthesized form of this expression.
    pub fn render(&self) -> (r: String)
        ensures
            r@ == print_text(self@),
    {
        print_expr(self)
    }
}

} // verus!
