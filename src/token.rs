//! Tokens: the lexical categories of the language, and one scanned token.
use vstd::prelude::*;

use crate::text::same_chars;

verus! {

/// The lexical category of a token.
#[derive(Clone, Copy, Debug, PartialEq, Eq, Structural)]
pub enum TokenType {
    // Single-character tokens
    LeftParen,
    RightParen,
    LeftBrace,
    RightBrace,
    Comma,
    Dot,
    Minus,
    Plus,
    Semicolon,
    Slash,
    Star,
    // One or two character tokens
    Bang,
    BangEqual,
    Equal,
    EqualEqual,
    Greater,
    GreaterEqual,
    Less,
    LessEqual,
    // Literals
    Identifier,
    String,
    Number,
    // Keywords
    And,
    Class,
    Else,
    False,
    Fun,
    For,
    If,
    Nil,
    Or,
    Print,
    Return,
    Super,
    This,
    True,
    Var,
    While,
    Eof,
}

impl TokenType {
    /// The display text of a category: the punctuation itself, the keyword,
    /// or the category's name in capitals.
    pub open spec fn display(self) -> Seq<char> {
        match self {
            TokenType::LeftParen => seq!['('],
            TokenType::RightParen => seq![')'],
            TokenType::LeftBrace => seq!['['],
            TokenType::RightBrace => seq![']'],
            TokenType::Comma => seq![','],
            TokenType::Dot => seq!['.'],
            TokenType::Minus => seq!['-'],
            TokenType::Plus => seq!['+'],
            TokenType::Semicolon => seq![';'],
            TokenType::Slash => seq!['/'],
            TokenType::Star => seq!['*'],
            TokenType::Bang => seq!['!'],
            TokenType::BangEqual => seq!['!', '='],
            TokenType::Equal => seq!['='],
            TokenType::EqualEqual => seq!['=', '='],
            TokenType::Greater => seq!['>'],
            TokenType::GreaterEqual => seq!['>', '='],
            TokenType::Less => seq!['<'],
            TokenType::LessEqual => seq!['<', '='],
            TokenType::Identifier => seq!['I', 'D', 'E', 'N', 'T', 'I', 'F', 'I', 'E', 'R'],
            TokenType::String => seq!['S', 'T', 'R', 'I', 'N', 'G'],
            TokenType::Number => seq!['N', 'U', 'M', 'B', 'E', 'R'],
            TokenType::And => seq!['a', 'n', 'd'],
            TokenType::Class => seq!['c', 'l', 'a', 's', 's'],
            TokenType::Else => seq!['e', 'l', 's', 'e'],
            TokenType::False => seq!['f', 'a', 'l', 's', 'e'],
            TokenType::Fun => seq!['f', 'u', 'n'],
            TokenType::For => seq!['f', 'o', 'r'],
            TokenType::If => seq!['i', 'f'],
            TokenType::Nil => seq!['n', 'i', 'l'],
            TokenType::Or => seq!['o', 'r'],
            TokenType::Print => seq!['p', 'r', 'i', 'n', 't'],
            TokenType::Return => seq!['r', 'e', 't', 'u', 'r', 'n'],
            TokenType::Super => seq!['s', 'u', 'p', 'e', 'r'],
            TokenType::This => seq!['t', 'h', 'i', 's'],
            TokenType::True => seq!['t', 'r', 'u', 'e'],
            TokenType::Var => seq!['v', 'a', 'r'],
            TokenType::While => seq!['w', 'h', 'i', 'l', 'e'],
            TokenType::Eof => seq!['E', 'O', 'F'],
        }
    }

    /// The display text of this category.
    pub fn text(&self) -> (r: &'static str)
        ensures
            r@ == self.display(),
    {
        match self {
            TokenType::LeftParen => {
                proof {
                    reveal_strlit("(");
                }
                "("
            },
            TokenType::RightParen => {
                proof {
                    reveal_strlit(")");
                }
                ")"
            },
            TokenType::LeftBrace => {
                proof {
                    reveal_strlit("[");
                }
                "["
            },
            TokenType::RightBrace => {
                proof {
                    reveal_strlit("]");
                }
                "]"
            },
            TokenType::Comma => {
                proof {
                    reveal_strlit(",");
                }
                ","
            },
            TokenType::Dot => {
                proof {
                    reveal_strlit(".");
                }
                "."
            },
            TokenType::Minus => {
                proof {
                    reveal_strlit("-");
                }
                "-"
            },
            TokenType::Plus => {
                proof {
                    reveal_strlit("+");
                }
                "+"
            },
            TokenType::Semicolon => {
                proof {
                    reveal_strlit(";");
                }
                ";"
            },
            TokenType::Slash => {
                proof {
                    reveal_strlit("/");
                }
                "/"
            },
            TokenType::Star => {
                proof {
                    reveal_strlit("*");
                }
                "*"
            },
            TokenType::Bang => {
                proof {
                    reveal_strlit("!");
                }
                "!"
            },
            TokenType::BangEqual => {
                proof {
                    reveal_strlit("!=");
                }
                "!="
            },
            TokenType::Equal => {
                proof {
                    reveal_strlit("=");
                }
                "="
            },
            TokenType::EqualEqual => {
                proof {
                    reveal_strlit("==");
                }
                "=="
            },
            TokenType::Greater => {
                proof {
                    reveal_strlit(">");
                }
                ">"
            },
            TokenType::GreaterEqual => {
                proof {
                    reveal_strlit(">=");
                }
                ">="
            },
            TokenType::Less => {
                proof {
                    reveal_strlit("<");
                }
                "<"
            },
            TokenType::LessEqual => {
                proof {
                    reveal_strlit("<=");
                }
                "<="
            },
            TokenType::Identifier => {
                proof {
                    reveal_strlit("IDENTIFIER");
                }
                "IDENTIFIER"
            },
            TokenType::String => {
                proof {
                    reveal_strlit("STRING");
                }
                "STRING"
            },
            TokenType::Number => {
                proof {
                    reveal_strlit("NUMBER");
                }
                "NUMBER"
            },
            TokenType::And => {
                proof {
                    reveal_strlit("and");
                }
                "and"
            },
            TokenType::Class => {
                proof {
                    reveal_strlit("class");
                }
                "class"
            },
            TokenType::Else => {
                proof {
                    reveal_strlit("else");
                }
                "else"
            },
            TokenType::False => {
                proof {
                    reveal_strlit("false");
                }
                "false"
            },
            TokenType::Fun => {
                proof {
                    reveal_strlit("fun");
                }
                "fun"
            },
            TokenType::For => {
                proof {
                    reveal_strlit("for");
                }
                "for"
            },
            TokenType::If => {
                proof {
                    reveal_strlit("if");
                }
                "if"
            },
            TokenType::Nil => {
                proof {
                    reveal_strlit("nil");
                }
                "nil"
            },
            TokenType::Or => {
                proof {
                    reveal_strlit("or");
                }
                "or"
            },
            TokenType::Print => {
                proof {
                    reveal_strlit("print");
                }
                "print"
            },
            TokenType::Return => {
                proof {
                    reveal_strlit("return");
                }
                "return"
            },
            TokenType::Super => {
                proof {
                    reveal_strlit("super");
                }
                "super"
            },
            TokenType::This => {
                proof {
                    reveal_strlit("this");
                }
                "this"
            },
            TokenType::True => {
                proof {
                    reveal_strlit("true");
                }
                "true"
            },
            TokenType::Var => {
                proof {
                    reveal_strlit("var");
                }
                "var"
            },
            TokenType::While => {
                proof {
                    reveal_strlit("while");
                }
                "while"
            },
            TokenType::Eof => {
                proof {
                    reveal_strlit("EOF");
                }
                "EOF"
            },
        }
    }
}

/// One scanned token: its category, the exact source text it covers, and
/// the 1-based line it was found on.
#[derive(Debug)]
pub struct Token {
    pub token_type: TokenType,
    pub lexeme: String,
    pub line: usize,
}

impl Token {
    pub fn new(token_type: TokenType, lexeme: String, line: usize) -> (r: Token)
        ensures
            r.token_type == token_type,
            r.lexeme == lexeme,
            r.line == line,
    {
        Token { token_type, lexeme, line }
    }

    /// An independent copy of this token.
    pub fn duplicate(&self) -> (r: Token)
        ensures
            r == *self,
    {
        Token { token_type: self.token_type, lexeme: self.lexeme.clone(), line: self.line }
    }
}

/// The keyword spelled exactly by `s`, if any.
pub open spec fn keyword_of(s: Seq<char>) -> Option<TokenType> {
    if s == seq!['a', 'n', 'd'] {
        Some(TokenType::And)
    } else if s == seq!['c', 'l', 'a', 's', 's'] {
        Some(TokenType::Class)
    } else if s == seq!['e', 'l', 's', 'e'] {
        Some(TokenType::Else)
    } else if s == seq!['f', 'a', 'l', 's', 'e'] {
        Some(TokenType::False)
    } else if s == seq!['f', 'o', 'r'] {
        Some(TokenType::For)
    } else if s == seq!['f', 'u', 'n'] {
        Some(TokenType::Fun)
    } else if s == seq!['i', 'f'] {
        Some(TokenType::If)
    } else if s == seq!['n', 'i', 'l'] {
        Some(TokenType::Nil)
    } else if s == seq!['o', 'r'] {
        Some(TokenType::Or)
    } else if s == seq!['p', 'r', 'i', 'n', 't'] {
        Some(TokenType::Print)
    } else if s == seq!['r', 'e', 't', 'u', 'r', 'n'] {
        Some(TokenType::Return)
    } else if s == seq!['s', 'u', 'p', 'e', 'r'] {
        Some(TokenType::Super)
    } else if s == seq!['t', 'h', 'i', 's'] {
        Some(TokenType::This)
    } else if s == seq!['t', 'r', 'u', 'e'] {
        Some(TokenType::True)
    } else if s == seq!['v', 'a', 'r'] {
        Some(TokenType::Var)
    } else if s == seq!['w', 'h', 'i', 'l', 'e'] {
        Some(TokenType::While)
    } else {
        None
    }
}

/// Whether `t` is one of the reserved words.
pub open spec fn is_keyword(t: TokenType) -> bool {
    match t {
        TokenType::And | TokenType::Class | TokenType::Else | TokenType::False
        | TokenType::For | TokenType::Fun | TokenType::If | TokenType::Nil | TokenType::Or
        | TokenType::Print | TokenType::Return | TokenType::Super | TokenType::This
        | TokenType::True | TokenType::Var | TokenType::While => true,
        _ => false,
    }
}

/// Looks the exact text of an identifier up in the keyword table; there is
/// no prefix matching.
pub fn keyword_type(text: &Vec<char>) -> (r: Option<TokenType>)
    ensures
        r == keyword_of(text@),
        r matches Some(t) ==> is_keyword(t),
{
    let words: Vec<(Vec<char>, TokenType)> = vec![
        (vec!['a', 'n', 'd'], TokenType::And),
        (vec!['c', 'l', 'a', 's', 's'], TokenType::Class),
        (vec!['e', 'l', 's', 'e'], TokenType::Else),
        (vec!['f', 'a', 'l', 's', 'e'], TokenType::False),
        (vec!['f', 'o', 'r'], TokenType::For),
        (vec!['f', 'u', 'n'], TokenType::Fun),
        (vec!['i', 'f'], TokenType::If),
        (vec!['n', 'i', 'l'], TokenType::Nil),
        (vec!['o', 'r'], TokenType::Or),
        (vec!['p', 'r', 'i', 'n', 't'], TokenType::Print),
        (vec!['r', 'e', 't', 'u', 'r', 'n'], TokenType::Return),
        (vec!['s', 'u', 'p', 'e', 'r'], TokenType::Super),
        (vec!['t', 'h', 'i', 's'], TokenType::This),
        (vec!['t', 'r', 'u', 'e'], TokenType::True),
        (vec!['v', 'a', 'r'], TokenType::Var),
        (vec!['w', 'h', 'i', 'l', 'e'], TokenType::While),
    ];
    assert(words@.len() == 16);
    let mut i: usize = 0;
    while i < words.len()
        invariant
            words@.len() == 16,
            i <= 16,
            words@[0].0@ == seq!['a', 'n', 'd'] && words@[0].1 == TokenType::And,
            words@[1].0@ == seq!['c', 'l', 'a', 's', 's'] && words@[1].1 == TokenType::Class,
            words@[2].0@ == seq!['e', 'l', 's', 'e'] && words@[2].1 == TokenType::Else,
            words@[3].0@ == seq!['f', 'a', 'l', 's', 'e'] && words@[3].1 == TokenType::False,
            words@[4].0@ == seq!['f', 'o', 'r'] && words@[4].1 == TokenType::For,
            words@[5].0@ == seq!['f', 'u', 'n'] && words@[5].1 == TokenType::Fun,
            words@[6].0@ == seq!['i', 'f'] && words@[6].1 == TokenType::If,
            words@[7].0@ == seq!['n', 'i', 'l'] && words@[7].1 == TokenType::Nil,
            words@[8].0@ == seq!['o', 'r'] && words@[8].1 == TokenType::Or,
            words@[9].0@ == seq!['p', 'r', 'i', 'n', 't'] && words@[9].1 == TokenType::Print,
            words@[10].0@ == seq!['r', 'e', 't', 'u', 'r', 'n'] && words@[10].1
                == TokenType::Return,
            words@[11].0@ == seq!['s', 'u', 'p', 'e', 'r'] && words@[11].1 == TokenType::Super,
            words@[12].0@ == seq!['t', 'h', 'i', 's'] && words@[12].1 == TokenType::This,
            words@[13].0@ == seq!['t', 'r', 'u', 'e'] && words@[13].1 == TokenType::True,
            words@[14].0@ == seq!['v', 'a', 'r'] && words@[14].1 == TokenType::Var,
            words@[15].0@ == seq!['w', 'h', 'i', 'l', 'e'] && words@[15].1 == TokenType::While,
            forall|j: int| 0 <= j < i ==> text@ != #[trigger] words@[j].0@,
        decreases 16 - i,
    {
        if same_chars(text, &words[i].0) {
            return Some(words[i].1);
        }
        i += 1;
    }
    assert(forall|j: int| 0 <= j < 16 ==> text@ != #[trigger] words@[j].0@);
    None
}

} // verus!
