use lox::error::{ErrorLoc, ParseError};
use lox::scanner::Scanner;
use lox::token::TokenType;

#[test]
fn test_scanner() {
    let input = String::from("+-.,({;*})>>===!!==<<=/");

    let mut scanner = Scanner::new(input);

    assert_eq!(TokenType::Plus, scanner.scan_token().unwrap().token_type);
    assert_eq!(TokenType::Minus, scanner.scan_token().unwrap().token_type);
    assert_eq!(TokenType::Dot, scanner.scan_token().unwrap().token_type);
    assert_eq!(TokenType::Comma, scanner.scan_token().unwrap().token_type);
    assert_eq!(TokenType::LeftParen, scanner.scan_token().unwrap().token_type);
    assert_eq!(TokenType::LeftBrace, scanner.scan_token().unwrap().token_type);
    assert_eq!(TokenType::Semicolon, scanner.scan_token().unwrap().token_type);
    assert_eq!(TokenType::Star, scanner.scan_token().unwrap().token_type);
    assert_eq!(TokenType::RightBrace, scanner.scan_token().unwrap().token_type);
    assert_eq!(TokenType::RightParen, scanner.scan_token().unwrap().token_type);
    assert_eq!(TokenType::Greater, scanner.scan_token().unwrap().token_type);
    assert_eq!(TokenType::GreaterEqual, scanner.scan_token().unwrap().token_type);
    assert_eq!(TokenType::EqualEqual, scanner.scan_token().unwrap().token_type);
    assert_eq!(TokenType::Bang, scanner.scan_token().unwrap().token_type);
    assert_eq!(TokenType::BangEqual, scanner.scan_token().unwrap().token_type);
    assert_eq!(TokenType::Equal, scanner.scan_token().unwrap().token_type);
    assert_eq!(TokenType::Less, scanner.scan_token().unwrap().token_type);
    assert_eq!(TokenType::LessEqual, scanner.scan_token().unwrap().token_type);
    assert_eq!(TokenType::Slash, scanner.scan_token().unwrap().token_type);
    assert_eq!(TokenType::Eof, scanner.scan_token().unwrap().token_type);
}

#[test]
fn end_of_input_repeats() {
    let mut scanner = Scanner::new(String::from("  // only a comment"));
    for _ in 0..3 {
        let t = scanner.scan_token().unwrap();
        assert_eq!(TokenType::Eof, t.token_type);
        assert_eq!("", t.lexeme);
    }
}

#[test]
fn keywords_match_exactly() {
    let mut scanner = Scanner::new(String::from("and andy while_true var print nil"));
    let expected = [
        (TokenType::And, "and"),
        (TokenType::Identifier, "andy"),
        (TokenType::Identifier, "while_true"),
        (TokenType::Var, "var"),
        (TokenType::Print, "print"),
        (TokenType::Nil, "nil"),
        (TokenType::Eof, ""),
    ];
    for (tt, lexeme) in expected {
        let t = scanner.scan_token().unwrap();
        assert_eq!(tt, t.token_type);
        assert_eq!(lexeme, t.lexeme);
    }
}

#[test]
fn numbers_leave_a_trailing_dot() {
    let mut scanner = Scanner::new(String::from("12.5 7. 3"));
    let t = scanner.scan_token().unwrap();
    assert_eq!((TokenType::Number, "12.5"), (t.token_type, t.lexeme.as_str()));
    let t = scanner.scan_token().unwrap();
    assert_eq!((TokenType::Number, "7"), (t.token_type, t.lexeme.as_str()));
    let t = scanner.scan_token().unwrap();
    assert_eq!((TokenType::Dot, "."), (t.token_type, t.lexeme.as_str()));
    let t = scanner.scan_token().unwrap();
    assert_eq!((TokenType::Number, "3"), (t.token_type, t.lexeme.as_str()));
}

#[test]
fn strings_span_lines() {
    let mut scanner = Scanner::new(String::from("\"abc\n123\" x"));
    let t = scanner.scan_token().unwrap();
    assert_eq!(TokenType::String, t.token_type);
    assert_eq!("\"abc\n123\"", t.lexeme);
    assert_eq!(2, t.line);
    let t = scanner.scan_token().unwrap();
    assert_eq!(TokenType::Identifier, t.token_type);
    assert_eq!(2, t.line);
}

#[test]
fn newlines_count_lines() {
    let mut scanner = Scanner::new(String::from("\n\n\n;"));
    let t = scanner.scan_token().unwrap();
    assert_eq!(TokenType::Semicolon, t.token_type);
    assert_eq!(4, t.line);
}

#[test]
fn unterminated_string_is_an_error() {
    let mut scanner = Scanner::new(String::from("x \"abc"));
    assert_eq!(TokenType::Identifier, scanner.scan_token().unwrap().token_type);
    let e = scanner.scan_token().unwrap_err();
    assert_eq!(ParseError::UnterminatedString(ErrorLoc { line: 1, at: 2 }), e);
    assert_eq!(TokenType::Eof, scanner.scan_token().unwrap().token_type);
}

#[test]
fn unexpected_character_is_an_error() {
    let mut scanner = Scanner::new(String::from("@1"));
    let e = scanner.scan_token().unwrap_err();
    assert_eq!(ParseError::UnexpectedCharacter(ErrorLoc { line: 1, at: 0 }), e);
    assert_eq!(TokenType::Number, scanner.scan_token().unwrap().token_type);
}
