use rlox::scanner::{scan_all, Scanner, ScannerError};
use rlox::token::{Token, TokenType};

fn tok(token_type: TokenType, line: usize) -> Token {
    Token::new(token_type, line)
}

fn number(text: &str) -> TokenType {
    TokenType::Number(text.to_string())
}

#[test]
fn empty_source_yields_only_eof() {
    assert_eq!(scan_all(""), Ok(vec![tok(TokenType::Eof, 1)]));
}

#[test]
fn bang_equal_is_one_token() {
    assert_eq!(
        scan_all("!="),
        Ok(vec![tok(TokenType::BangEqual, 1), tok(TokenType::Eof, 1)])
    );
}

#[test]
fn bang_space_equal_is_two_tokens() {
    assert_eq!(
        scan_all("! ="),
        Ok(vec![
            tok(TokenType::Bang, 1),
            tok(TokenType::Equal, 1),
            tok(TokenType::Eof, 1)
        ])
    );
}

#[test]
fn two_character_operators() {
    assert_eq!(
        scan_all("== <= >= < > ="),
        Ok(vec![
            tok(TokenType::EqualEqual, 1),
            tok(TokenType::LessEqual, 1),
            tok(TokenType::GreaterEqual, 1),
            tok(TokenType::Less, 1),
            tok(TokenType::Greater, 1),
            tok(TokenType::Equal, 1),
            tok(TokenType::Eof, 1)
        ])
    );
}

#[test]
fn punctuation_tokens() {
    assert_eq!(
        scan_all("(){},.-+;*/"),
        Ok(vec![
            tok(TokenType::LeftParen, 1),
            tok(TokenType::RightParen, 1),
            tok(TokenType::LeftBrace, 1),
            tok(TokenType::RightBrace, 1),
            tok(TokenType::Comma, 1),
            tok(TokenType::Dot, 1),
            tok(TokenType::Minus, 1),
            tok(TokenType::Plus, 1),
            tok(TokenType::Semicolon, 1),
            tok(TokenType::Star, 1),
            tok(TokenType::Slash, 1),
            tok(TokenType::Eof, 1)
        ])
    );
}

#[test]
fn unterminated_string_is_one_error_at_its_start_line() {
    assert_eq!(scan_all("\"abc"), Err(vec![ScannerError::UnterminatedString(1)]));
    assert_eq!(scan_all("\n\n\"abc\ndef"), Err(vec![ScannerError::UnterminatedString(3)]));
}

#[test]
fn string_literal_keeps_newlines_and_counts_lines() {
    assert_eq!(
        scan_all("\"a\nb\" 1"),
        Ok(vec![
            tok(TokenType::LoxString("a\nb".to_string()), 2),
            tok(number("1"), 2),
            tok(TokenType::Eof, 2)
        ])
    );
}

#[test]
fn orchard_is_an_identifier() {
    assert_eq!(
        scan_all("orchard"),
        Ok(vec![
            tok(TokenType::Identifier("orchard".to_string()), 1),
            tok(TokenType::Eof, 1)
        ])
    );
}

#[test]
fn keywords_are_recognised() {
    assert_eq!(
        scan_all("or and nil true false class _x1"),
        Ok(vec![
            tok(TokenType::Or, 1),
            tok(TokenType::And, 1),
            tok(TokenType::Nil, 1),
            tok(TokenType::True, 1),
            tok(TokenType::False, 1),
            tok(TokenType::Class, 1),
            tok(TokenType::Identifier("_x1".to_string()), 1),
            tok(TokenType::Eof, 1)
        ])
    );
}

#[test]
fn comments_are_skipped_and_lines_counted() {
    assert_eq!(
        scan_all("// note\n1 // trailing"),
        Ok(vec![tok(number("1"), 2), tok(TokenType::Eof, 2)])
    );
}

#[test]
fn numbers_are_held_in_canonical_form() {
    assert_eq!(
        scan_all("1.50 007 0.0 12. 1e05 2E0 3.25"),
        Ok(vec![
            tok(number("1.5"), 1),
            tok(number("7"), 1),
            tok(number("0"), 1),
            tok(number("12"), 1),
            tok(number("1e5"), 1),
            tok(number("2"), 1),
            tok(number("3.25"), 1),
            tok(TokenType::Eof, 1)
        ])
    );
}

#[test]
fn number_followed_by_letters_fails_whole() {
    assert_eq!(
        scan_all("123abc"),
        Err(vec![ScannerError::UnparseableDigit("123abc".to_string(), 1)])
    );
    assert_eq!(
        scan_all("1.2.3"),
        Err(vec![ScannerError::UnparseableDigit("1.2.3".to_string(), 1)])
    );
}

#[test]
fn number_stops_at_punctuation() {
    assert_eq!(
        scan_all("2)"),
        Ok(vec![
            tok(number("2"), 1),
            tok(TokenType::RightParen, 1),
            tok(TokenType::Eof, 1)
        ])
    );
}

#[test]
fn every_lexical_error_is_reported() {
    assert_eq!(
        scan_all("@ 1\n#"),
        Err(vec![
            ScannerError::UnknownCharacter('@', 1),
            ScannerError::UnknownCharacter('#', 2)
        ])
    );
}

#[test]
fn scanning_twice_gives_the_same_tokens() {
    let source = "(1 + 2) * -3 != \"x\" // done";
    assert_eq!(scan_all(source), scan_all(source));
}

#[test]
fn scanner_object_scans_like_scan_all() {
    let mut scanner = Scanner::new("1 + 2");
    assert_eq!(scanner.scan_tokens(), scan_all("1 + 2"));
}

#[test]
fn scanner_error_lines_and_messages() {
    let e = ScannerError::UnknownCharacter('@', 3);
    assert_eq!(e.line(), 3);
    assert_eq!(e.message(), "Scanner Error: Unrecognised character @ at line 3");
    let e = ScannerError::UnterminatedString(12);
    assert_eq!(e.line(), 12);
    assert_eq!(e.message(), "Scanner Error: Unterminated string at line 12");
    let e = ScannerError::UnparseableDigit("1x".to_string(), 7);
    assert_eq!(e.line(), 7);
    assert_eq!(e.message(), "Scanner Error: Unparseable digit 1x at line 7");
}

#[test]
fn keyword_table_has_fifteen_words() {
    let keywords = Scanner::get_keywords();
    assert_eq!(keywords.len(), 15);
    assert_eq!(keywords[0], ("or".to_string(), TokenType::Or));
    assert_eq!(keywords[14], ("nil".to_string(), TokenType::Nil));
}

#[test]
fn token_kind_display_forms() {
    assert_eq!(TokenType::GreaterEqual.text(), ">=");
    assert_eq!(TokenType::BangEqual.text(), "!=");
    assert_eq!(TokenType::And.text(), "AND");
    assert_eq!(TokenType::Identifier("x".to_string()).text(), "x");
    assert_eq!(TokenType::Eof.text(), "EOF");
}

#[test]
fn unicode_letters_and_spaces() {
    assert_eq!(
        scan_all("\u{00e9}t\u{00e9}\u{00a0}1"),
        Ok(vec![
            tok(TokenType::Identifier("\u{00e9}t\u{00e9}".to_string()), 1),
            tok(number("1"), 1),
            tok(TokenType::Eof, 1)
        ])
    );
}

#[test]
fn token_lines_never_decrease_and_one_eof_ends() {
    let tokens = scan_all("1\n\"a\nb\" +\n\n// c\nx").unwrap();
    let lines: Vec<usize> = tokens.iter().map(|t| t.line).collect();
    assert_eq!(lines, vec![1, 3, 3, 6, 6]);
    let eofs = tokens.iter().filter(|t| t.token_type == TokenType::Eof).count();
    assert_eq!(eofs, 1);
    assert_eq!(tokens.last().unwrap().token_type, TokenType::Eof);
}

#[test]
fn scan_token_on_a_fresh_scanner() {
    let mut sc = Scanner::new("x");
    assert_eq!(sc.scan_token('('), Ok(tok(TokenType::LeftParen, 1)));
    assert_eq!(sc.scan_token('@'), Err(ScannerError::UnknownCharacter('@', 1)));
    assert_eq!(sc.scan_token('/'), Ok(tok(TokenType::Slash, 1)));
    assert_eq!(sc.scan_tokens(), scan_all("x"));
}

#[test]
fn parse_number_on_a_fresh_scanner() {
    let mut sc = Scanner::new(".5 x");
    assert_eq!(sc.parse_number('2'), Ok(tok(number("2.5"), 1)));
    assert_eq!(sc.scan_tokens(), scan_all(" x"));
    let mut sc = Scanner::new(") * 3");
    assert_eq!(sc.parse_number('2'), Ok(tok(number("2"), 1)));
    assert_eq!(sc.scan_tokens(), scan_all(") * 3"));
}

#[test]
fn parse_identifier_on_a_fresh_scanner() {
    let mut sc = Scanner::new("r+x");
    assert_eq!(sc.parse_identifier('o'), Ok(tok(TokenType::Or, 1)));
    assert_eq!(sc.scan_tokens(), scan_all("+x"));
}

#[test]
fn parse_string_on_a_fresh_scanner() {
    let mut sc = Scanner::new("abc\" x");
    assert_eq!(sc.parse_string(), Ok(tok(TokenType::LoxString("abc".to_string()), 1)));
    assert_eq!(sc.scan_tokens(), scan_all(" x"));
    let mut sc = Scanner::new("a\nbc");
    assert_eq!(sc.parse_string(), Err(ScannerError::UnterminatedString(1)));
}

#[test]
fn skip_comments_and_scan_operator_look_one_ahead() {
    let mut sc = Scanner::new("/ note\n1");
    assert!(sc.skip_comments('/'));
    assert_eq!(sc.scan_tokens(), Ok(vec![tok(number("1"), 2), tok(TokenType::Eof, 2)]));
    let mut sc = Scanner::new("x");
    assert!(!sc.skip_comments('/'));
    let mut sc = Scanner::new("=1");
    assert_eq!(
        sc.scan_operator(TokenType::Less, TokenType::LessEqual),
        tok(TokenType::LessEqual, 1)
    );
    assert_eq!(
        sc.scan_operator(TokenType::Less, TokenType::LessEqual),
        tok(TokenType::Less, 1)
    );
}
