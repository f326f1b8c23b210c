//! The static table of parse rules that drives precedence climbing, and the
//! parser's two-token lookahead state.
use vstd::prelude::*;

use crate::token::{Token, TokenType};

verus! {

/// Binding strength, from loosest to tightest.
#[derive(Clone, Copy, Debug, PartialEq, Eq, Structural, PartialOrd, Ord)]
pub enum Precedence {
    Lowest,
    Assignment,
    Or,
    And,
    Equality,
    Comparison,
    Term,
    Factor,
    Unary,
    Call,
    Primary,
}

impl Precedence {
    /// The position of this level in the order, loosest first.
    pub open spec fn rank(self) -> nat {
        match self {
            Precedence::Lowest => 0,
            Precedence::Assignment => 1,
            Precedence::Or => 2,
            Precedence::And => 3,
            Precedence::Equality => 4,
            Precedence::Comparison => 5,
            Precedence::Term => 6,
            Precedence::Factor => 7,
            Precedence::Unary => 8,
            Precedence::Call => 9,
            Precedence::Primary => 10,
        }
    }

    /// The position of this level in the order, loosest first.
    pub fn level(&self) -> (r: u8)
        ensures
            r == self.rank(),
    {
        match self {
            Precedence::Lowest => 0,
            Precedence::Assignment => 1,
            Precedence::Or => 2,
            Precedence::And => 3,
            Precedence::Equality => 4,
            Precedence::Comparison => 5,
            Precedence::Term => 6,
            Precedence::Factor => 7,
            Precedence::Unary => 8,
            Precedence::Call => 9,
            Precedence::Primary => 10,
        }
    }

    /// The next tighter level; the tightest level is its own successor.
    pub open spec fn succ(self) -> Precedence {
        match self {
            Precedence::Lowest => Precedence::Assignment,
            Precedence::Assignment => Precedence::Or,
            Precedence::Or => Precedence::And,
            Precedence::And => Precedence::Equality,
            Precedence::Equality => Precedence::Comparison,
            Precedence::Comparison => Precedence::Term,
            Precedence::Term => Precedence::Factor,
            Precedence::Factor => Precedence::Unary,
            Precedence::Unary => Precedence::Call,
            Precedence::Call => Precedence::Primary,
            Precedence::Primary => Precedence::Primary,
        }
    }

    /// The next tighter level; the tightest level is its own successor.
    pub fn next(&self) -> (r: Precedence)
        ensures
            r == self.succ(),
            self.rank() < 10 ==> r.rank() == self.rank() + 1,
            self.rank() == 10 ==> r == Precedence::Primary,
    {
        match self {
            Precedence::Lowest => Precedence::Assignment,
            Precedence::Assignment => Precedence::Or,
            Precedence::Or => Precedence::And,
            Precedence::And => Precedence::Equality,
            Precedence::Equality => Precedence::Comparison,
            Precedence::Comparison => Precedence::Term,
            Precedence::Term => Precedence::Factor,
            Precedence::Factor => Precedence::Unary,
            Precedence::Unary => Precedence::Call,
            Precedence::Call => Precedence::Primary,
            Precedence::Primary => Precedence::Primary,
        }
    }
}

/// The parser's lookahead: the token being looked at, the one just consumed,
/// whether any error was recorded, and whether diagnostics are suppressed
/// until the next statement boundary.
#[derive(Debug)]
pub struct Parser {
    pub current: Option<Token>,
    pub previous: Option<Token>,
    pub had_error: bool,
    pub panic_mode: bool,
}

impl Parser {
    pub fn new() -> (r: Parser)
        ensures
            r.current is None,
            r.previous is None,
            !r.had_error,
            !r.panic_mode,
    {
        Parser { current: None, previous: None, had_error: false, panic_mode: false }
    }

    /// Shifts the lookahead: the current token becomes the previous one and
    /// the current slot is left empty for the next scanned token.
    pub fn advance(&mut self)
        ensures
            final(self).previous == old(self).current,
            final(self).current is None,
            final(self).had_error == old(self).had_error,
            final(self).panic_mode == old(self).panic_mode,
    {
        self.previous = self.current.take();
    }
}

/// What the compiler does on meeting a token in prefix or infix position.
#[derive(Clone, Copy, Debug, PartialEq, Eq, Structural)]
pub enum ParseFn {
    Binary,
    Grouping,
    Unary,
    Number,
    Literal,
    String,
    Variable,
    Absent,
}

/// The prefix action, infix action and infix binding strength of one token
/// category.
#[derive(Clone, Copy, Debug, PartialEq, Eq, Structural)]
pub struct ParseRule {
    pub prefix: ParseFn,
    pub infix: ParseFn,
    pub precedence: Precedence,
}

pub open spec fn prefix_of(t: TokenType) -> ParseFn {
    match t {
        TokenType::LeftParen => ParseFn::Grouping,
        TokenType::Minus | TokenType::Bang => ParseFn::Unary,
        TokenType::String => ParseFn::String,
        TokenType::Number => ParseFn::Number,
        TokenType::False | TokenType::Nil | TokenType::True => ParseFn::Literal,
        TokenType::Identifier => ParseFn::Variable,
        _ => ParseFn::Absent,
    }
}

pub open spec fn precedence_of(t: TokenType) -> Precedence {
    match t {
        TokenType::Minus | TokenType::Plus => Precedence::Term,
        TokenType::Slash | TokenType::Star => Precedence::Factor,
        TokenType::BangEqual | TokenType::EqualEqual => Precedence::Equality,
        TokenType::Greater | TokenType::GreaterEqual | TokenType::Less
        | TokenType::LessEqual => Precedence::Comparison,
        _ => Precedence::Lowest,
    }
}

/// Exactly the binary operators have an infix action.
pub open spec fn infix_of(t: TokenType) -> ParseFn {
    if precedence_of(t) == Precedence::Lowest {
        ParseFn::Absent
    } else {
        ParseFn::Binary
    }
}

/// The parse rule of a token category.
pub fn parse_rule(tt: &TokenType) -> (r: ParseRule)
    ensures
        r.prefix == prefix_of(*tt),
        r.infix == infix_of(*tt),
        r.precedence == precedence_of(*tt),
{
    match tt {
        TokenType::LeftParen => ParseRule {
            prefix: ParseFn::Grouping,
            infix: ParseFn::Absent,
            precedence: Precedence::Lowest,
        },
        TokenType::RightParen => ParseRule {
            prefix: ParseFn::Absent,
            infix: ParseFn::Absent,
            precedence: Precedence::Lowest,
        },
        TokenType::LeftBrace => ParseRule {
            prefix: ParseFn::Absent,
            infix: ParseFn::Absent,
            precedence: Precedence::Lowest,
        },
        TokenType::RightBrace => ParseRule {
            prefix: ParseFn::Absent,
            infix: ParseFn::Absent,
            precedence: Precedence::Lowest,
        },
        TokenType::Comma => ParseRule {
            prefix: ParseFn::Absent,
            infix: ParseFn::Absent,
            precedence: Precedence::Lowest,
        },
        TokenType::Dot => ParseRule {
            prefix: ParseFn::Absent,
            infix: ParseFn::Absent,
            precedence: Precedence::Lowest,
        },
        TokenType::Minus => ParseRule {
            prefix: ParseFn::Unary,
            infix: ParseFn::Binary,
            precedence: Precedence::Term,
        },
        TokenType::Plus => ParseRule {
            prefix: ParseFn::Absent,
            infix: ParseFn::Binary,
            precedence: Precedence::Term,
        },
        TokenType::Semicolon => ParseRule {
            prefix: ParseFn::Absent,
            infix: ParseFn::Absent,
            precedence: Precedence::Lowest,
        },
        TokenType::Slash => ParseRule {
            prefix: ParseFn::Absent,
            infix: ParseFn::Binary,
            precedence: Precedence::Factor,
        },
        TokenType::Star => ParseRule {
            prefix: ParseFn::Absent,
            infix: ParseFn::Binary,
            precedence: Precedence::Factor,
        },
        TokenType::Bang => ParseRule {
            prefix: ParseFn::Unary,
            infix: ParseFn::Absent,
            precedence: Precedence::Lowest,
        },
        TokenType::BangEqual => ParseRule {
            prefix: ParseFn::Absent,
            infix: ParseFn::Binary,
            precedence: Precedence::Equality,
        },
        TokenType::Equal => ParseRule {
            prefix: ParseFn::Absent,
            infix: ParseFn::Absent,
            precedence: Precedence::Lowest,
        },
        TokenType::EqualEqual => ParseRule {
            prefix: ParseFn::Absent,
            infix: ParseFn::Binary,
            precedence: Precedence::Equality,
        },
        TokenType::Greater => ParseRule {
            prefix: ParseFn::Absent,
            infix: ParseFn::Binary,
            precedence: Precedence::Comparison,
        },
        TokenType::GreaterEqual => ParseRule {
            prefix: ParseFn::Absent,
            infix: ParseFn::Binary,
            precedence: Precedence::Comparison,
        },
        TokenType::Less => ParseRule {
            prefix: ParseFn::Absent,
            infix: ParseFn::Binary,
            precedence: Precedence::Comparison,
        },
        TokenType::LessEqual => ParseRule {
            prefix: ParseFn::Absent,
            infix: ParseFn::Binary,
            precedence: Precedence::Comparison,
        },
        TokenType::Identifier => ParseRule {
            prefix: ParseFn::Variable,
            infix: ParseFn::Absent,
            precedence: Precedence::Lowest,
        },
        TokenType::String => ParseRule {
            prefix: ParseFn::String,
            infix: ParseFn::Absent,
            precedence: Precedence::Lowest,
        },
        TokenType::Number => ParseRule {
            prefix: ParseFn::Number,
            infix: ParseFn::Absent,
            precedence: Precedence::Lowest,
        },
        TokenType::And => ParseRule {
            prefix: ParseFn::Absent,
            infix: ParseFn::Absent,
            precedence: Precedence::Lowest,
        },
        TokenType::Class => ParseRule {
            prefix: ParseFn::Absent,
            infix: ParseFn::Absent,
            precedence: Precedence::Lowest,
        },
        TokenType::Else => ParseRule {
            prefix: ParseFn::Absent,
            infix: ParseFn::Absent,
            precedence: Precedence::Lowest,
        },
        TokenType::False => ParseRule {
            prefix: ParseFn::Literal,
            infix: ParseFn::Absent,
            precedence: Precedence::Lowest,
        },
        TokenType::Fun => ParseRule {
            prefix: ParseFn::Absent,
            infix: ParseFn::Absent,
            precedence: Precedence::Lowest,
        },
        TokenType::For => ParseRule {
            prefix: ParseFn::Absent,
            infix: ParseFn::Absent,
            precedence: Precedence::Lowest,
        },
        TokenType::If => ParseRule {
            prefix: ParseFn::Absent,
            infix: ParseFn::Absent,
            precedence: Precedence::Lowest,
        },
        TokenType::Nil => ParseRule {
            prefix: ParseFn::Literal,
            infix: ParseFn::Absent,
            precedence: Precedence::Lowest,
        },
        TokenType::Or => ParseRule {
            prefix: ParseFn::Absent,
            infix: ParseFn::Absent,
            precedence: Precedence::Lowest,
        },
        TokenType::Print => ParseRule {
            prefix: ParseFn::Absent,
            infix: ParseFn::Absent,
            precedence: Precedence::Lowest,
        },
        TokenType::Return => ParseRule {
            prefix: ParseFn::Absent,
            infix: ParseFn::Absent,
            precedence: Precedence::Lowest,
        },
        TokenType::Super => ParseRule {
            prefix: ParseFn::Absent,
            infix: ParseFn::Absent,
            precedence: Precedence::Lowest,
        },
        TokenType::This => ParseRule {
            prefix: ParseFn::Absent,
            infix: ParseFn::Absent,
            precedence: Precedence::Lowest,
        },
        TokenType::True => ParseRule {
            prefix: ParseFn::Literal,
            infix: ParseFn::Absent,
            precedence: Precedence::Lowest,
        },
        TokenType::Var => ParseRule {
            prefix: ParseFn::Absent,
            infix: ParseFn::Absent,
            precedence: Precedence::Lowest,
        },
        TokenType::While => ParseRule {
            prefix: ParseFn::Absent,
            infix: ParseFn::Absent,
            precedence: Precedence::Lowest,
        },
        TokenType::Eof => ParseRule {
            prefix: ParseFn::Absent,
            infix: ParseFn::Absent,
            precedence: Precedence::Lowest,
        },
    }
}

} // verus!
