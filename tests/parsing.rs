use rlox::ast_printer::ASTStringVisitor;
use rlox::interpreter::Interpreter;
use rlox::lox::Lox;
use rlox::parser::{parse_tokens, Parser, ParserError};
use rlox::scanner::scan_all;
use rlox::syntax::{Expr, LiteralValue};
use rlox::token::{Token, TokenType};
use rlox::visit::{MutVisitor, Visitor};

fn parse(source: &str) -> Result<Expr, ParserError> {
    parse_tokens(scan_all(source).expect("no lexical error"))
}

fn printed(source: &str) -> String {
    parse(source).expect("no syntax error").render()
}

#[test]
fn multiplication_binds_tighter() {
    assert_eq!(
        printed("1 + 2 * 3"),
        "(Binary + (Literal 1) (Binary * (Literal 2) (Literal 3)))"
    );
}

#[test]
fn subtraction_is_left_associative() {
    assert_eq!(
        printed("1 - 2 - 3"),
        "(Binary - (Binary - (Literal 1) (Literal 2)) (Literal 3))"
    );
}

#[test]
fn grouping_is_preserved() {
    assert_eq!(
        printed("(1 + 2) * 3"),
        "(Binary * (Grouping (Binary + (Literal 1) (Literal 2))) (Literal 3))"
    );
    assert_ne!(printed("(1 + 2) * 3"), printed("1 + 2 * 3"));
}

#[test]
fn printer_canonical_form() {
    assert_eq!(
        printed("-123 * (\"string literal\")"),
        "(Binary * (Unary - (Literal 123)) (Grouping (Literal \"string literal\")))"
    );
}

#[test]
fn equality_and_comparison_levels() {
    assert_eq!(
        printed("1 < 2 == true"),
        "(Binary == (Binary < (Literal 1) (Literal 2)) (Literal true))"
    );
    assert_eq!(
        printed("1 >= 2 != nil"),
        "(Binary != (Binary >= (Literal 1) (Literal 2)) (Literal None))"
    );
    assert_eq!(
        printed("8 / 4 / 2"),
        "(Binary / (Binary / (Literal 8) (Literal 4)) (Literal 2))"
    );
}

#[test]
fn unary_is_right_recursive() {
    assert_eq!(printed("--1"), "(Unary - (Unary - (Literal 1)))");
    assert_eq!(printed("!false"), "(Unary ! (Literal false))");
}

#[test]
fn unmatched_parenthesis() {
    assert_eq!(parse("(1 + 2"), Err(ParserError::UnterminatedParentheses(1, 1)));
    assert_eq!(parse("(\n1 2"), Err(ParserError::UnterminatedParentheses(2, 1)));
}

#[test]
fn empty_group_is_rejected() {
    assert_eq!(parse("()"), Err(ParserError::EmptyExpression(1)));
    assert_eq!(parse("\n(1 + )"), Err(ParserError::EmptyExpression(2)));
}

#[test]
fn non_primary_token() {
    assert_eq!(
        parse("1 +"),
        Err(ParserError::NonPrimaryToken(Token::new(TokenType::Eof, 1)))
    );
    assert_eq!(
        parse("var"),
        Err(ParserError::NonPrimaryToken(Token::new(TokenType::Var, 1)))
    );
}

#[test]
fn exhausted_tokens() {
    assert_eq!(parse_tokens(Vec::new()), Err(ParserError::EmptyPrimary(0)));
    assert_eq!(
        parse_tokens(vec![Token::new(TokenType::Minus, 4)]),
        Err(ParserError::EmptyPrimary(4))
    );
}

#[test]
fn parsing_twice_gives_the_same_tree() {
    let tokens = "1 + 2 * (3 - 4)";
    assert_eq!(printed(tokens), printed(tokens));
    assert_eq!(parse("(1"), parse("(1"));
}

#[test]
fn parser_error_lines_and_messages() {
    let e = ParserError::UnterminatedParentheses(3, 1);
    assert_eq!(e.line(), 3);
    assert_eq!(
        e.message(),
        "Parser Error: Expecting terminating parentheses at line 3, unterminated parentheses located at line 1"
    );
    let e = ParserError::NonPrimaryToken(Token::new(TokenType::RightParen, 2));
    assert_eq!(e.line(), 2);
    assert_eq!(e.message(), "Parser Error: Unsupported token RightParen at line 2");
    assert_eq!(
        ParserError::EmptyPrimary(5).message(),
        "Parser Error: Expecting a token here at line 5, none found."
    );
    assert_eq!(
        ParserError::EmptyExpression(6).message(),
        "Parser Error: Empty expressions are illegal, found at line 6"
    );
}

#[test]
fn synchronize_skips_to_a_statement_keyword() {
    let tokens = scan_all("1 2 3 var x").unwrap();
    let mut parser = Parser::new(tokens);
    parser.synchronize();
    assert_eq!(
        parser.parse(),
        Err(ParserError::NonPrimaryToken(Token::new(TokenType::Var, 1)))
    );
}

#[test]
fn synchronize_stops_at_the_end() {
    let tokens = scan_all("1 2").unwrap();
    let mut parser = Parser::new(tokens);
    parser.synchronize();
    parser.synchronize();
    assert_eq!(parser.parse(), Err(ParserError::EmptyPrimary(0)));
}

#[test]
fn visitor_renders_each_expression() {
    let exprs = vec![
        Expr::literal(LiteralValue::from(true)),
        Expr::grouping(Expr::literal(LiteralValue::from("s".to_string()))),
    ];
    let visitor = ASTStringVisitor { expressions: &exprs };
    assert_eq!(visitor.render(), "(Literal true)(Grouping (Literal \"s\"))");
    assert_eq!(visitor.visit_expression(&exprs[0]), "(Literal true)");
}

#[test]
fn built_tree_prints_like_parsed_tree() {
    let e = Expr::binary(
        Expr::unary(
            Token::new(TokenType::Minus, 1),
            Expr::literal(LiteralValue::number("123".to_string())),
        ),
        Token::new(TokenType::Star, 1),
        Expr::grouping(Expr::literal(LiteralValue::from("string literal".to_string()))),
    );
    assert_eq!(e.render(), printed("-123 * (\"string literal\")"));
}

#[test]
fn interpreter_reports_unsupported_evaluation() {
    let mut interpreter = Interpreter {};
    let e = parse("1 + 2").unwrap();
    match interpreter.visit_expression(&e) {
        Err(msg) => assert_eq!(msg, "error"),
        Ok(_) => panic!("evaluation is not supported"),
    }
}

#[test]
fn session_reports_lexical_errors() {
    let mut lox = Lox::new();
    assert!(!lox.has_error());
    let (tokens, reports) = lox.run("1 @");
    assert!(tokens.is_empty());
    assert_eq!(
        reports,
        vec!["[line 1] Error: Scanner Error: Unrecognised character @ at line 1".to_string()]
    );
    assert!(lox.has_error());
    lox.reset();
    let (tokens, reports) = lox.run("1");
    assert_eq!(tokens.len(), 2);
    assert!(reports.is_empty());
    assert!(!lox.has_error());
}

#[test]
fn session_report_line() {
    let mut lox = Lox::new();
    assert_eq!(lox.report(10, "boom".to_string()), "[line 10] Error: boom");
    assert!(lox.has_error());
}

#[test]
fn operators_in_tree_are_legal_for_their_node() {
    match parse("-1 * 2").unwrap() {
        Expr::Binary(b) => {
            assert_eq!(b.operator.token_type, TokenType::Star);
            match *b.left {
                Expr::Unary(u) => assert_eq!(u.operator.token_type, TokenType::Minus),
                _ => panic!("unary operand expected"),
            }
        }
        _ => panic!("binary expression expected"),
    }
}
