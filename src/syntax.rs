use vstd::prelude::*;
use crate::token::{Token, TokenView};

verus! {

/// The prefix operators.
#[derive(Debug, Clone, Copy, PartialEq, Eq)]
pub enum UnaryOperator {
    Bang,
    Minus,
}

/// The infix operators.
#[derive(Debug, Clone, Copy, PartialEq, Eq)]
pub enum BinaryOperator {
    Minus,
    Plus,
    Slash,
    Star,
    Equal,
    NotEqual,
    Less,
    LessEqual,
    Greater,
    GreaterEqual,
}

#[derive(Debug, PartialEq)]
pub struct BinaryExpr {
    pub left: Box<Expr>,
    pub operator: Token,
    pub right: Box<Expr>,
}

#[derive(Debug, PartialEq)]
pub struct Grouping {
    pub expression: Box<Expr>,
}

#[derive(Debug, PartialEq)]
pub struct UnaryExpr {
    pub operator: Token,
    pub right: Box<Expr>,
}

/// A literal value. A number is held as its canonical decimal text.
#[derive(Debug, PartialEq)]
pub enum LiteralValue {
    Number(String),
    LoxString(String),
    Bool(bool),
    Nil,
}

/// The model of a `LiteralValue`.
pub enum LiteralModel {
    Number(Seq<char>),
    LoxString(Seq<char>),
    Bool(bool),
    Nil,
}

impl View for LiteralValue {
    type V = LiteralModel;

    open spec fn view(&self) -> LiteralModel {
        match self {
            LiteralValue::Number(s) => LiteralModel::Number(s@),
            LiteralValue::LoxString(s) => LiteralModel::LoxString(s@),
            LiteralValue::Bool(b) => LiteralModel::Bool(*b),
            LiteralValue::Nil => LiteralModel::Nil,
        }
    }
}

impl LiteralValue {
    /// A number literal from its decimal text.
    pub fn number(text: String) -> (r: LiteralValue)
        ensures
            r@ == LiteralModel::Number(text@),
    {
        LiteralValue::Number(text)
    }
}

impl From<String> for LiteralValue {
    fn from(value: String) -> (r: LiteralValue) {
        LiteralValue::LoxString(value)
    }
}

impl vstd::std_specs::convert::FromSpecImpl<String> for LiteralValue {
    open spec fn obeys_from_spec() -> bool {
        true
    }

    open spec fn from_spec(v: String) -> LiteralValue {
        LiteralValue::LoxString(v)
    }
}

impl From<bool> for LiteralValue {
    fn from(value: bool) -> (r: LiteralValue) {
        LiteralValue::Bool(value)
    }
}

impl vstd::std_specs::convert::FromSpecImpl<bool> for LiteralValue {
    open spec fn obeys_from_spec() -> bool {
        true
    }

    open spec fn from_spec(v: bool) -> LiteralValue {
        LiteralValue::Bool(v)
    }
}

/// An expression.
#[derive(Debug, PartialEq)]
pub enum Expr {
    Binary(BinaryExpr),
    Grouping(Grouping),
    Literal(LiteralValue),
    Unary(UnaryExpr),
}

/// The model of an `Expr`: a finite tree.
pub enum ExprModel {
    Binary(Box<ExprModel>, TokenView, Box<ExprModel>),
    Grouping(Box<ExprModel>),
    Literal(LiteralModel),
    Unary(TokenView, Box<ExprModel>),
}

pub open spec fn expr_model(e: &Expr) -> ExprModel
    decreases e,
{
    match e {
        Expr::Binary(b) => ExprModel::Binary(
            Box::new(expr_model(&*b.left)),
            b.operator@,
            Box::new(expr_model(&*b.right)),
        ),
        Expr::Grouping(g) => ExprModel::Grouping(Box::new(expr_model(&*g.expression))),
        Expr::Literal(v) => ExprModel::Literal(v@),
        Expr::Unary(u) => ExprModel::Unary(u.operator@, Box::new(expr_model(&*u.right))),
    }
}

impl View for Expr {
    type V = ExprModel;

    open spec fn view(&self) -> ExprModel {
        expr_model(self)
    }
}

impl Expr {
    pub fn binary(left: Expr, operator: Token, right: Expr) -> (r: Expr)
        ensures
            r@ == ExprModel::Binary(Box::new(left@), operator@, Box::new(right@)),
    {
        Expr::Binary(BinaryExpr { left: Box::new(left), operator, right: Box::new(right) })
    }

    pub fn unary(operator: Token, right: Expr) -> (r: Expr)
        ensures
            r@ == ExprModel::Unary(operator@, Box::new(right@)),
    {
        Expr::Unary(UnaryExpr { operator, right: Box::new(right) })
    }

    pub fn grouping(expression: Expr) -> (r: Expr)
        ensures
            r@ == ExprModel::Grouping(Box::new(expression@)),
    {
        Expr::Grouping(Grouping { expression: Box::new(expression) })
    }

    pub fn literal(value: LiteralValue) -> (r: Expr)
        ensures
            r@ == ExprModel::Literal(value@),
    {
        Expr::Literal(value)
    }
}

} // verus!
