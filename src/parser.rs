use vstd::prelude::*;
use crate::scanner::token_views;
use crate::syntax::{Expr, ExprModel, LiteralModel, LiteralValue};
use crate::text::{decimal, decimal_text};
use crate::token::{kind_name, Token, TokenKind, TokenType, TokenView};

verus! {

/// A syntax error.
#[derive(Debug, PartialEq)]
pub enum ParserError {
    /// The line where `)` was expected, and the line of the `(`.
    UnterminatedParentheses(usize, usize),
    NonPrimaryToken(Token),
    EmptyPrimary(usize),
    EmptyExpression(usize),
}

pub type ExprResult = Result<Expr, ParserError>;

/// The model of a `ParserError`.
pub enum ParseErrorView {
    UnterminatedParentheses(nat, nat),
    NonPrimaryToken(TokenView),
    EmptyPrimary(nat),
    EmptyExpression(nat),
}

impl View for ParserError {
    type V = ParseErrorView;

    open spec fn view(&self) -> ParseErrorView {
        match self {
            ParserError::UnterminatedParentheses(r, l) => ParseErrorView::UnterminatedParentheses(
                *r as nat,
                *l as nat,
            ),
            ParserError::NonPrimaryToken(t) => ParseErrorView::NonPrimaryToken(t@),
            ParserError::EmptyPrimary(l) => ParseErrorView::EmptyPrimary(*l as nat),
            ParserError::EmptyExpression(l) => ParseErrorView::EmptyExpression(*l as nat),
        }
    }
}

pub open spec fn parse_error_line(e: ParseErrorView) -> nat {
    match e {
        ParseErrorView::UnterminatedParentheses(l, _) => l,
        ParseErrorView::NonPrimaryToken(t) => t.line,
        ParseErrorView::EmptyPrimary(l) => l,
        ParseErrorView::EmptyExpression(l) => l,
    }
}

/// The one-line diagnostic for a syntax error.
pub open spec fn parse_error_message(e: ParseErrorView) -> Seq<char> {
    match e {
        ParseErrorView::UnterminatedParentheses(r, l) =>
            "Parser Error: Expecting terminating parentheses at line "@ + decimal_text(r)
                + ", unterminated parentheses located at line "@ + decimal_text(l),
        ParseErrorView::NonPrimaryToken(t) => "Parser Error: Unsupported token "@ + kind_name(
            t.kind,
        ) + " at line "@ + decimal_text(t.line),
        ParseErrorView::EmptyPrimary(l) => "Parser Error: Expecting a token here at line "@
            + decimal_text(l) + ", none found."@,
        ParseErrorView::EmptyExpression(l) => "Parser Error: Empty expressions are illegal, found at line "@
            + decimal_text(l),
    }
}

impl ParserError {
    pub fn line(&self) -> (r: usize)
        ensures
            r == parse_error_line(self@),
    {
        match self {
            ParserError::UnterminatedParentheses(line, _) => *line,
            ParserError::NonPrimaryToken(token) => token.line,
            ParserError::EmptyPrimary(line) => *line,
            ParserError::EmptyExpression(line) => *line,
        }
    }

    /// The one-line diagnostic for this error.
    pub fn message(&self) -> (r: String)
        ensures
            r@ == parse_error_message(self@),
    {
        match self {
            ParserError::UnterminatedParentheses(r_line, l_line) => {
                let mut s = String::from_str(
                    "Parser Error: Expecting terminating parentheses at line ",
                );
                s.append(decimal(*r_line).as_str());
                s.append(", unterminated parentheses located at line ");
                s.append(decimal(*l_line).as_str());
                s
            },
            ParserError::NonPrimaryToken(token) => {
                let mut s = String::from_str("Parser Error: Unsupported token ");
                s.append(token.token_type.name().as_str());
                s.append(" at line ");
                s.append(decimal(token.line).as_str());
                s
            },
            ParserError::EmptyPrimary(line) => {
                let mut s = String::from_str("Parser Error: Expecting a token here at line ");
                s.append(decimal(*line).as_str());
                s.append(", none found.");
                s
            },
            ParserError::EmptyExpression(line) => {
                let mut s = String::from_str(
                    "Parser Error: Empty expressions are illegal, found at line ",
                );
                s.append(decimal(*line).as_str());
                s
            },
        }
    }
}

/// The grammar's rules, from the loosest binding to the tightest.
#[derive(Clone, Copy, PartialEq, Eq)]
pub enum Rule {
    Equality,
    Comparison,
    Term,
    Factor,
    Unary,
    Primary,
}

pub open spec fn rank(r: Rule) -> nat {
    match r {
        Rule::Equality => 5,
        Rule::Comparison => 4,
        Rule::Term => 3,
        Rule::Factor => 2,
        Rule::Unary => 1,
        Rule::Primary => 0,
    }
}

/// Whether `r` is a left-associative binary level.
pub open spec fn is_binary_rule(r: Rule) -> bool {
    r is Equality || r is Comparison || r is Term || r is Factor
}

/// The rule that parses the operands of a binary level.
pub open spec fn operand_rule(r: Rule) -> Rule {
    match r {
        Rule::Equality => Rule::Comparison,
        Rule::Comparison => Rule::Term,
        Rule::Term => Rule::Factor,
        _ => Rule::Unary,
    }
}

/// Whether `k` is an operator of the binary level `r`.
pub open spec fn is_level_operator(r: Rule, k: TokenKind) -> bool {
    match r {
        Rule::Equality => k is BangEqual || k is EqualEqual,
        Rule::Comparison => k is Greater || k is GreaterEqual || k is Less || k is LessEqual,
        Rule::Term => k is Minus || k is Plus,
        Rule::Factor => k is Slash || k is Star,
        _ => false,
    }
}

/// Whether `k` is a prefix operator.
pub open spec fn is_unary_operator(k: TokenKind) -> bool {
    k is Bang || k is Minus
}

/// What a parse step yields: the result, the next position, and the line of
/// the last token looked at.
pub type Step = (Result<ExprModel, ParseErrorView>, int, nat);

pub open spec fn lit(v: LiteralModel) -> ExprModel {
    ExprModel::Literal(v)
}

/// Parses rule `r` from position `pos` of `toks`, where `prev` is the line of
/// the last token looked at.
pub open spec fn parse_rule(toks: Seq<TokenView>, pos: int, prev: nat, r: Rule) -> Step
    decreases toks.len() - pos, 2 * rank(r) + 1,
{
    if pos < 0 || pos > toks.len() {
        (Err(ParseErrorView::EmptyPrimary(prev)), pos, prev)
    } else if is_binary_rule(r) {
        let (res, mid, mid_line) = parse_rule(toks, pos, prev, operand_rule(r));
        match res {
            Err(e) => (Err(e), mid, mid_line),
            Ok(left) => if pos <= mid <= toks.len() {
                binary_tail(toks, mid, mid_line, r, left)
            } else {
                (Ok(left), mid, mid_line)
            },
        }
    } else if r is Unary && pos < toks.len() && is_unary_operator(toks[pos].kind) {
        let op = toks[pos];
        let (res, mid, mid_line) = parse_rule(toks, pos + 1, op.line, Rule::Unary);
        match res {
            Err(e) => (Err(e), mid, mid_line),
            Ok(right) => (Ok(ExprModel::Unary(op, Box::new(right))), mid, mid_line),
        }
    } else if pos >= toks.len() {
        (Err(ParseErrorView::EmptyPrimary(prev)), pos, prev)
    } else {
        let t = toks[pos];
        match t.kind {
            TokenKind::LeftParen => {
                let (res, mid, mid_line) = parse_rule(toks, pos + 1, t.line, Rule::Equality);
                match res {
                    Err(e) => (
                        Err(
                            match e {
                                ParseErrorView::NonPrimaryToken(t2) => if t2.kind is RightParen {
                                    ParseErrorView::EmptyExpression(t2.line)
                                } else {
                                    e
                                },
                                _ => e,
                            },
                        ),
                        mid,
                        mid_line,
                    ),
                    Ok(inner) => if 0 <= mid < toks.len() {
                        if toks[mid].kind is RightParen {
                            (Ok(ExprModel::Grouping(Box::new(inner))), mid + 1, mid_line)
                        } else {
                            (
                                Err(ParseErrorView::UnterminatedParentheses(mid_line, t.line)),
                                mid + 1,
                                mid_line,
                            )
                        }
                    } else {
                        (Err(ParseErrorView::UnterminatedParentheses(mid_line, t.line)), mid, mid_line)
                    },
                }
            },
            TokenKind::False => (Ok(lit(LiteralModel::Bool(false))), pos + 1, t.line),
            TokenKind::True => (Ok(lit(LiteralModel::Bool(true))), pos + 1, t.line),
            TokenKind::Nil => (Ok(lit(LiteralModel::Nil)), pos + 1, t.line),
            TokenKind::Number(s) => (Ok(lit(LiteralModel::Number(s))), pos + 1, t.line),
            TokenKind::LoxString(s) => (Ok(lit(LiteralModel::LoxString(s))), pos + 1, t.line),
            _ => (Err(ParseErrorView::NonPrimaryToken(t)), pos, t.line),
        }
    }
}

/// Continues the binary level `r` after its operand `left`, which ends at `pos`.
pub open spec fn binary_tail(toks: Seq<TokenView>, pos: int, prev: nat, r: Rule, left: ExprModel) -> Step
    decreases toks.len() - pos, 2 * rank(r),
{
    if 0 <= pos < toks.len() && is_binary_rule(r) && is_level_operator(r, toks[pos].kind) {
        let op = toks[pos];
        let (res, end, end_line) = parse_rule(toks, pos + 1, op.line, operand_rule(r));
        match res {
            Err(e) => (Err(e), end, end_line),
            Ok(right) => {
                let e = ExprModel::Binary(Box::new(left), op, Box::new(right));
                if pos < end <= toks.len() {
                    binary_tail(toks, end, end_line, r, e)
                } else {
                    (Ok(e), end, end_line)
                }
            },
        }
    } else {
        (Ok(left), pos, prev)
    }
}

/// The result of parsing one expression from the start of `toks`.
pub open spec fn parse_spec(toks: Seq<TokenView>) -> Result<ExprModel, ParseErrorView> {
    parse_rule(toks, 0, 0, Rule::Equality).0
}

/// The model of a parse result.
pub open spec fn presult(r: &ExprResult) -> Result<ExprModel, ParseErrorView> {
    match r {
        Ok(e) => Ok(e@),
        Err(e) => Err(e@),
    }
}

/// Whether a token of kind `k` may begin a statement.
pub open spec fn is_statement_start(k: TokenKind) -> bool {
    k is Class || k is Fun || k is Var || k is For || k is If || k is While || k is Print
        || k is Return
}

/// The first position from `i` on that holds a token which may begin a
/// statement, or the end.
pub open spec fn sync_from(toks: Seq<TokenView>, i: int) -> int
    decreases toks.len() - i,
{
    if i < 0 || i >= toks.len() || is_statement_start(toks[i].kind) {
        i
    } else {
        sync_from(toks, i + 1)
    }
}

fn is_operator_of(r: Rule, k: &TokenType) -> (b: bool)
    ensures
        b == is_level_operator(r, k@),
{
    match r {
        Rule::Equality => match k {
            TokenType::BangEqual | TokenType::EqualEqual => true,
            _ => false,
        },
        Rule::Comparison => match k {
            TokenType::Greater | TokenType::GreaterEqual | TokenType::Less
            | TokenType::LessEqual => true,
            _ => false,
        },
        Rule::Term => match k {
            TokenType::Minus | TokenType::Plus => true,
            _ => false,
        },
        Rule::Factor => match k {
            TokenType::Slash | TokenType::Star => true,
            _ => false,
        },
        _ => false,
    }
}

fn starts_statement(k: &TokenType) -> (b: bool)
    ensures
        b == is_statement_start(k@),
{
    match k {
        TokenType::Class | TokenType::Fun | TokenType::Var | TokenType::For | TokenType::If
        | TokenType::While | TokenType::Print | TokenType::Return => true,
        _ => false,
    }
}

/// A recursive-descent parser over a finite token sequence.
pub struct Parser {
    tokens: Vec<Token>,
    pos: usize,
    prev_token_line: usize,
}

impl Parser {
    /// The tokens.
    pub closed spec fn toks(&self) -> Seq<TokenView> {
        token_views(self.tokens@)
    }

    /// The position of the next token.
    pub closed spec fn position(&self) -> int {
        self.pos as int
    }

    /// The line of the last token looked at (0 before any).
    pub closed spec fn prev_line(&self) -> nat {
        self.prev_token_line as nat
    }

    pub closed spec fn wf(&self) -> bool {
        self.pos <= self.tokens@.len()
    }

    pub fn new(tokens: Vec<Token>) -> (r: Parser)
        ensures
            r.wf(),
            r.toks() == token_views(tokens@),
            r.position() == 0,
            r.prev_line() == 0,
    {
        Parser { tokens, pos: 0, prev_token_line: 0 }
    }

    /// Parses one expression.
    pub fn parse(&mut self) -> (r: ExprResult)
        requires
            old(self).wf(),
        ensures
            final(self).wf(),
            0 <= final(self).position() <= final(self).toks().len(),
            final(self).toks() == old(self).toks(),
            old(self).position() <= final(self).position(),
            (presult(&r), final(self).position(), final(self).prev_line()) == parse_rule(
                old(self).toks(),
                old(self).position(),
                old(self).prev_line(),
                Rule::Equality,
            ),
    {
        self.expression()
    }

    /// One binary level: operands of the next level, joined to the left by
    /// this level's operators.
    fn binary_expr_generator(&mut self, rule: Rule) -> (r: ExprResult)
        requires
            old(self).wf(),
            is_binary_rule(rule),
        ensures
            final(self).wf(),
            final(self).toks() == old(self).toks(),
            final(self).tokens@ == old(self).tokens@,
            old(self).position() <= final(self).position(),
            (presult(&r), final(self).position(), final(self).prev_line()) == parse_rule(
                old(self).toks(),
                old(self).position(),
                old(self).prev_line(),
                rule,
            ),
        decreases old(self).tokens@.len() - old(self).pos, 3 * rank(rule) + 1,
    {
        let ghost toks = self.toks();
        let ghost pos0 = self.pos as int;
        let ghost prev0 = self.prev_token_line as nat;
        let first = self.operand(rule);
        let mut expr = match first {
            Ok(e) => e,
            Err(e) => {
                return Err(e);
            },
        };
        while self.pos < self.tokens.len() && is_operator_of(
            rule,
            &self.tokens[self.pos].token_type,
        )
            invariant
                self.wf(),
                self.tokens@ == old(self).tokens@,
                self.toks() == toks,
                pos0 == old(self).pos,
                prev0 == old(self).prev_token_line,
                toks == old(self).toks(),
                pos0 <= self.pos,
                is_binary_rule(rule),
                parse_rule(toks, pos0, prev0, rule) == binary_tail(
                    toks,
                    self.pos as int,
                    self.prev_token_line as nat,
                    rule,
                    expr@,
                ),
            decreases toks.len() - self.pos,
        {
            self.prev_token_line = self.tokens[self.pos].line;
            let operator = self.tokens[self.pos].duplicate();
            self.pos = self.pos + 1;
            let right = match self.operand(rule) {
                Ok(e) => e,
                Err(e) => {
                    return Err(e);
                },
            };
            expr = Expr::binary(expr, operator, right);
        }
        Ok(expr)
    }

    /// The operand rule of a binary level.
    fn operand(&mut self, rule: Rule) -> (r: ExprResult)
        requires
            old(self).wf(),
            is_binary_rule(rule),
        ensures
            final(self).wf(),
            final(self).toks() == old(self).toks(),
            final(self).tokens@ == old(self).tokens@,
            old(self).position() <= final(self).position(),
            (presult(&r), final(self).position(), final(self).prev_line()) == parse_rule(
                old(self).toks(),
                old(self).position(),
                old(self).prev_line(),
                operand_rule(rule),
            ),
        decreases old(self).tokens@.len() - old(self).pos, 3 * rank(rule),
    {
        match rule {
            Rule::Equality => self.comparison(),
            Rule::Comparison => self.term(),
            Rule::Term => self.factor(),
            _ => self.unary(),
        }
    }

    fn expression(&mut self) -> (r: ExprResult)
        requires
            old(self).wf(),
        ensures
            final(self).wf(),
            final(self).toks() == old(self).toks(),
            final(self).tokens@ == old(self).tokens@,
            old(self).position() <= final(self).position(),
            (presult(&r), final(self).position(), final(self).prev_line()) == parse_rule(
                old(self).toks(),
                old(self).position(),
                old(self).prev_line(),
                Rule::Equality,
            ),
        decreases old(self).tokens@.len() - old(self).pos, 18nat,
    {
        self.equality()
    }

    fn equality(&mut self) -> (r: ExprResult)
        requires
            old(self).wf(),
        ensures
            final(self).wf(),
            final(self).toks() == old(self).toks(),
            final(self).tokens@ == old(self).tokens@,
            old(self).position() <= final(self).position(),
            (presult(&r), final(self).position(), final(self).prev_line()) == parse_rule(
                old(self).toks(),
                old(self).position(),
                old(self).prev_line(),
                Rule::Equality,
            ),
        decreases old(self).tokens@.len() - old(self).pos, 17nat,
    {
        self.binary_expr_generator(Rule::Equality)
    }

    fn comparison(&mut self) -> (r: ExprResult)
        requires
            old(self).wf(),
        ensures
            final(self).wf(),
            final(self).toks() == old(self).toks(),
            final(self).tokens@ == old(self).tokens@,
            old(self).position() <= final(self).position(),
            (presult(&r), final(self).position(), final(self).prev_line()) == parse_rule(
                old(self).toks(),
                old(self).position(),
                old(self).prev_line(),
                Rule::Comparison,
            ),
        decreases old(self).tokens@.len() - old(self).pos, 14nat,
    {
        self.binary_expr_generator(Rule::Comparison)
    }

    fn term(&mut self) -> (r: ExprResult)
        requires
            old(self).wf(),
        ensures
            final(self).wf(),
            final(self).toks() == old(self).toks(),
            final(self).tokens@ == old(self).tokens@,
            old(self).position() <= final(self).position(),
            (presult(&r), final(self).position(), final(self).prev_line()) == parse_rule(
                old(self).toks(),
                old(self).position(),
                old(self).prev_line(),
                Rule::Term,
            ),
        decreases old(self).tokens@.len() - old(self).pos, 11nat,
    {
        self.binary_expr_generator(Rule::Term)
    }

    fn factor(&mut self) -> (r: ExprResult)
        requires
            old(self).wf(),
        ensures
            final(self).wf(),
            final(self).toks() == old(self).toks(),
            final(self).tokens@ == old(self).tokens@,
            old(self).position() <= final(self).position(),
            (presult(&r), final(self).position(), final(self).prev_line()) == parse_rule(
                old(self).toks(),
                old(self).position(),
                old(self).prev_line(),
                Rule::Factor,
            ),
        decreases old(self).tokens@.len() - old(self).pos, 8nat,
    {
        self.binary_expr_generator(Rule::Factor)
    }

    fn unary(&mut self) -> (r: ExprResult)
        requires
            old(self).wf(),
        ensures
            final(self).wf(),
            final(self).toks() == old(self).toks(),
            final(self).tokens@ == old(self).tokens@,
            old(self).position() <= final(self).position(),
            (presult(&r), final(self).position(), final(self).prev_line()) == parse_rule(
                old(self).toks(),
                old(self).position(),
                old(self).prev_line(),
                Rule::Unary,
            ),
        decreases old(self).tokens@.len() - old(self).pos, 5nat,
    {
        if self.pos < self.tokens.len() && match self.tokens[self.pos].token_type {
            TokenType::Bang | TokenType::Minus => true,
            _ => false,
        } {
            self.prev_token_line = self.tokens[self.pos].line;
            let operator = self.tokens[self.pos].duplicate();
            self.pos = self.pos + 1;
            match self.unary() {
                Ok(right) => Ok(Expr::unary(operator, right)),
                Err(e) => Err(e),
            }
        } else {
            self.primary()
        }
    }

    fn primary(&mut self) -> (r: ExprResult)
        requires
            old(self).wf(),
        ensures
            final(self).wf(),
            final(self).toks() == old(self).toks(),
            final(self).tokens@ == old(self).tokens@,
            old(self).position() <= final(self).position(),
            (presult(&r), final(self).position(), final(self).prev_line()) == parse_rule(
                old(self).toks(),
                old(self).position(),
                old(self).prev_line(),
                Rule::Primary,
            ),
        decreases old(self).tokens@.len() - old(self).pos, 2nat,
    {
        if self.pos >= self.tokens.len() {
            return Err(ParserError::EmptyPrimary(self.prev_token_line));
        }
        let line = self.tokens[self.pos].line;
        self.prev_token_line = line;
        match &self.tokens[self.pos].token_type {
            TokenType::LeftParen => {
                self.pos = self.pos + 1;
                let inner = match self.expression() {
                    Ok(e) => e,
                    Err(ParserError::NonPrimaryToken(t)) => {
                        return match t.token_type {
                            TokenType::RightParen => Err(ParserError::EmptyExpression(t.line)),
                            _ => Err(ParserError::NonPrimaryToken(t)),
                        };
                    },
                    Err(e) => {
                        return Err(e);
                    },
                };
                if self.pos < self.tokens.len() {
                    let closed = match self.tokens[self.pos].token_type {
                        TokenType::RightParen => true,
                        _ => false,
                    };
                    self.pos = self.pos + 1;
                    if closed {
                        Ok(Expr::grouping(inner))
                    } else {
                        Err(ParserError::UnterminatedParentheses(self.prev_token_line, line))
                    }
                } else {
                    Err(ParserError::UnterminatedParentheses(self.prev_token_line, line))
                }
            },
            TokenType::False => self.consume_and_cast_literal(LiteralValue::from(false)),
            TokenType::True => self.consume_and_cast_literal(LiteralValue::from(true)),
            TokenType::Nil => self.consume_and_cast_literal(LiteralValue::Nil),
            TokenType::Number(text) => {
                let value = LiteralValue::number(text.clone());
                self.consume_and_cast_literal(value)
            },
            TokenType::LoxString(text) => {
                let value = LiteralValue::from(text.clone());
                self.consume_and_cast_literal(value)
            },
            _ => Err(ParserError::NonPrimaryToken(self.tokens[self.pos].duplicate())),
        }
    }

    /// Consumes the current token and yields the literal `literal_value`.
    fn consume_and_cast_literal(&mut self, literal_value: LiteralValue) -> (r: ExprResult)
        requires
            old(self).wf(),
            old(self).position() < old(self).toks().len(),
            old(self).pos < usize::MAX,
        ensures
            final(self).wf(),
            final(self).toks() == old(self).toks(),
            final(self).tokens@ == old(self).tokens@,
            final(self).position() == old(self).position() + 1,
            final(self).prev_line() == old(self).prev_line(),
            presult(&r) == Ok::<ExprModel, ParseErrorView>(ExprModel::Literal(literal_value@)),
    {
        self.pos = self.pos + 1;
        Ok(Expr::literal(literal_value))
    }

    /// Discards the current token, then every token up to the next one that
    /// may begin a statement, or to the end.
    pub fn synchronize(&mut self)
        requires
            old(self).wf(),
        ensures
            final(self).wf(),
            0 <= final(self).position() <= final(self).toks().len(),
            final(self).toks() == old(self).toks(),
            final(self).prev_line() == old(self).prev_line(),
            final(self).position() == if old(self).position() < old(self).toks().len() {
                sync_from(old(self).toks(), old(self).position() + 1)
            } else {
                old(self).position()
            },
    {
        if self.pos >= self.tokens.len() {
            return;
        }
        self.pos = self.pos + 1;
        while self.pos < self.tokens.len() && !starts_statement(&self.tokens[self.pos].token_type)
            invariant
                self.wf(),
                self.tokens@ == old(self).tokens@,
                self.prev_token_line == old(self).prev_token_line,
                old(self).pos < self.pos,
                sync_from(self.toks(), old(self).pos + 1) == sync_from(self.toks(), self.pos as int),
            decreases self.tokens@.len() - self.pos,
        {
            self.pos = self.pos + 1;
        }
    }
}

/// Parses one expression from the start of `tokens`.
pub fn parse_tokens(tokens: Vec<Token>) -> (r: ExprResult)
    ensures
        presult(&r) == parse_spec(token_views(tokens@)),
{
    let mut parser = Parser::new(tokens);
    parser.parse()
}

/// Parsing is deterministic: two parses of one token sequence that meet
/// `parse_tokens`'s contract give the same tree, or the same error.
pub proof fn parse_is_deterministic(toks: Seq<TokenView>, r1: ExprResult, r2: ExprResult)
    requires
        presult(&r1) == parse_spec(toks),
        presult(&r2) == parse_spec(toks),
    ensures
        presult(&r1) == presult(&r2),
{
}

/// Whether `k` is one of the infix operators of the grammar.
pub open spec fn is_binary_operator(k: TokenKind) -> bool {
    is_level_operator(Rule::Equality, k) || is_level_operator(Rule::Comparison, k)
        || is_level_operator(Rule::Term, k) || is_level_operator(Rule::Factor, k)
}

/// Whether every operator in `e` is legal where it stands: an infix operator
/// in each binary node, `!` or `-` in each unary node.
pub open spec fn operators_legal(e: ExprModel) -> bool
    decreases e,
{
    match e {
        ExprModel::Binary(l, op, r) => is_binary_operator(op.kind) && operators_legal(*l)
            && operators_legal(*r),
        ExprModel::Unary(op, r) => is_unary_operator(op.kind) && operators_legal(*r),
        ExprModel::Grouping(g) => operators_legal(*g),
        ExprModel::Literal(_) => true,
    }
}

proof fn lemma_rule_legal(toks: Seq<TokenView>, pos: int, prev: nat, r: Rule)
    ensures
        parse_rule(toks, pos, prev, r).0 matches Ok(e) ==> operators_legal(e),
    decreases toks.len() - pos, 2 * rank(r) + 1,
{
    if pos < 0 || pos > toks.len() {
    } else if is_binary_rule(r) {
        lemma_rule_legal(toks, pos, prev, operand_rule(r));
        let (res, mid, mid_line) = parse_rule(toks, pos, prev, operand_rule(r));
        if let Ok(left) = res {
            if pos <= mid <= toks.len() {
                lemma_tail_legal(toks, mid, mid_line, r, left);
            }
        }
    } else if r is Unary && pos < toks.len() && is_unary_operator(toks[pos].kind) {
        lemma_rule_legal(toks, pos + 1, toks[pos].line, Rule::Unary);
    } else if pos >= toks.len() {
    } else if toks[pos].kind is LeftParen {
        lemma_rule_legal(toks, pos + 1, toks[pos].line, Rule::Equality);
    }
}

proof fn lemma_tail_legal(toks: Seq<TokenView>, pos: int, prev: nat, r: Rule, left: ExprModel)
    requires
        operators_legal(left),
    ensures
        binary_tail(toks, pos, prev, r, left).0 matches Ok(e) ==> operators_legal(e),
    decreases toks.len() - pos, 2 * rank(r),
{
    if 0 <= pos < toks.len() && is_binary_rule(r) && is_level_operator(r, toks[pos].kind) {
        let op = toks[pos];
        lemma_rule_legal(toks, pos + 1, op.line, operand_rule(r));
        let (res, end, end_line) = parse_rule(toks, pos + 1, op.line, operand_rule(r));
        if let Ok(right) = res {
            let e = ExprModel::Binary(Box::new(left), op, Box::new(right));
            if pos < end <= toks.len() {
                lemma_tail_legal(toks, end, end_line, r, e);
            }
        }
    }
}

/// Every tree the parser builds has, in each binary node, an infix operator,
/// and in each unary node, `!` or `-`.
pub proof fn parsed_operators_are_legal(toks: Seq<TokenView>)
    ensures
        parse_spec(toks) matches Ok(e) ==> operators_legal(e),
{
    lemma_rule_legal(toks, 0, 0, Rule::Equality);
}

} // verus!
