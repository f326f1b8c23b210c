use lox::parse::{parse_rule, ParseFn, Parser, Precedence};
use lox::token::TokenType;

#[test]
fn precedence() {
    assert!(Precedence::Assignment <= Precedence::Term);
}

#[test]
fn next_precedence_climbs_one_level() {
    assert_eq!(Precedence::Factor, Precedence::Term.next());
    assert_eq!(Precedence::Assignment, Precedence::Lowest.next());
    assert_eq!(Precedence::Primary, Precedence::Primary.next());
    assert_eq!(7, Precedence::Factor.level());
}

#[test]
fn rule_table() {
    let minus = parse_rule(&TokenType::Minus);
    assert_eq!(ParseFn::Unary, minus.prefix);
    assert_eq!(ParseFn::Binary, minus.infix);
    assert_eq!(Precedence::Term, minus.precedence);
    let ident = parse_rule(&TokenType::Identifier);
    assert_eq!(ParseFn::Variable, ident.prefix);
    assert_eq!(ParseFn::Absent, ident.infix);
    let eof = parse_rule(&TokenType::Eof);
    assert_eq!(Precedence::Lowest, eof.precedence);
    assert_eq!(Precedence::Comparison, parse_rule(&TokenType::LessEqual).precedence);
}

#[test]
fn parser_advance_shifts_lookahead() {
    let mut p = Parser::new();
    assert!(p.current.is_none() && !p.had_error && !p.panic_mode);
    p.advance();
    assert!(p.previous.is_none() && p.current.is_none());
}

#[test]
fn category_display_text() {
    assert_eq!("(", TokenType::LeftParen.text());
    assert_eq!("[", TokenType::LeftBrace.text());
    assert_eq!(">=", TokenType::GreaterEqual.text());
    assert_eq!("IDENTIFIER", TokenType::Identifier.text());
    assert_eq!("while", TokenType::While.text());
    assert_eq!("EOF", TokenType::Eof.text());
}
