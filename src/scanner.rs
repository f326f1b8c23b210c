//! The scanner: turns source text into tokens, one at a time, on demand.
use vstd::prelude::*;

use crate::error::{CompileErrorKind, Diagnostic, ErrorLoc, ParseError};
use crate::text::{chars_of, copy_range, string_from_chars};
use crate::token::{keyword_of, keyword_type, Token, TokenType};

verus! {

pub open spec fn is_digit(c: char) -> bool {
    '0' <= c && c <= '9'
}

/// A character that may start an identifier.
pub open spec fn is_alpha(c: char) -> bool {
    ('a' <= c && c <= 'z') || ('A' <= c && c <= 'Z') || c == '_'
}

/// The token of a one-character lexeme that never extends to two.
pub open spec fn single_char_type(c: char) -> Option<TokenType> {
    if c == '(' {
        Some(TokenType::LeftParen)
    } else if c == ')' {
        Some(TokenType::RightParen)
    } else if c == '{' {
        Some(TokenType::LeftBrace)
    } else if c == '}' {
        Some(TokenType::RightBrace)
    } else if c == ',' {
        Some(TokenType::Comma)
    } else if c == '.' {
        Some(TokenType::Dot)
    } else if c == '-' {
        Some(TokenType::Minus)
    } else if c == '+' {
        Some(TokenType::Plus)
    } else if c == ';' {
        Some(TokenType::Semicolon)
    } else if c == '*' {
        Some(TokenType::Star)
    } else if c == '/' {
        Some(TokenType::Slash)
    } else {
        None
    }
}

/// The category of a lexeme, decided by its first character (and, for
/// `! = < >`, by whether `=` follows it); `None` for text that starts no
/// token.
pub open spec fn lexeme_type(s: Seq<char>) -> Option<TokenType> {
    if s.len() == 0 {
        Some(TokenType::Eof)
    } else if s[0] == '"' {
        Some(TokenType::String)
    } else if is_digit(s[0]) {
        Some(TokenType::Number)
    } else if is_alpha(s[0]) {
        match keyword_of(s) {
            Some(t) => Some(t),
            None => Some(TokenType::Identifier),
        }
    } else if s[0] == '!' {
        Some(if s.len() > 1 { TokenType::BangEqual } else { TokenType::Bang })
    } else if s[0] == '=' {
        Some(if s.len() > 1 { TokenType::EqualEqual } else { TokenType::Equal })
    } else if s[0] == '<' {
        Some(if s.len() > 1 { TokenType::LessEqual } else { TokenType::Less })
    } else if s[0] == '>' {
        Some(if s.len() > 1 { TokenType::GreaterEqual } else { TokenType::Greater })
    } else {
        single_char_type(s[0])
    }
}

/// Whitespace that separates tokens (a newline included).
pub open spec fn is_blank(c: char) -> bool {
    c == ' ' || c == '\r' || c == '\t' || c == '\n'
}

pub open spec fn digit_at(c: Seq<char>, i: int) -> bool {
    0 <= i < c.len() && is_digit(c[i])
}

/// A character that may continue an identifier.
pub open spec fn ident_at(c: Seq<char>, i: int) -> bool {
    0 <= i < c.len() && (is_alpha(c[i]) || is_digit(c[i]))
}

pub open spec fn digits(c: Seq<char>, from: int, to: int) -> bool {
    forall|i: int| from <= i < to ==> digit_at(c, i)
}

/// A number starting at `s` ends at `e`: a maximal run of digits, followed,
/// only where a digit comes after the dot, by a dot and a maximal run of
/// digits.
pub open spec fn number_ends(c: Seq<char>, s: int, e: int) -> bool {
    &&& !digit_at(c, e)
    &&& {
        ||| (digits(c, s, e) && !(0 <= e < c.len() && c[e] == '.' && digit_at(c, e + 1)))
        ||| exists|m: int| s < m && m + 1 < e && c[m] == '.' && digits(c, s, m) && digits(c, m + 1, e)
    }
}

/// Scanning a token that starts at `s` stops exactly at `e`: each kind of
/// token takes the longest text it can.
pub open spec fn token_ends(c: Seq<char>, s: int, e: int) -> bool {
    let f = c[s];
    if f == '"' {
        &&& e >= s + 2
        &&& c[e - 1] == '"'
        &&& forall|i: int| s < i < e - 1 ==> c[i] != '"'
    } else if is_digit(f) {
        number_ends(c, s, e)
    } else if is_alpha(f) {
        &&& forall|i: int| s <= i < e ==> ident_at(c, i)
        &&& !ident_at(c, e)
    } else if f == '!' || f == '=' || f == '<' || f == '>' {
        if 0 <= s + 1 < c.len() && c[s + 1] == '=' {
            e == s + 2
        } else {
            e == s + 1
        }
    } else {
        e == s + 1
    }
}

/// The first position at or after `i` that holds a newline, or the end.
pub open spec fn line_end(c: Seq<char>, i: int) -> int
    decreases c.len() - i,
{
    if i >= c.len() || c[i] == '\n' {
        i
    } else {
        line_end(c, i + 1)
    }
}

/// Whether `c[i]` and `c[i + 1]` open a `//` comment.
pub open spec fn comment_at(c: Seq<char>, i: int) -> bool {
    0 <= i && i + 1 < c.len() && c[i] == '/' && c[i + 1] == '/'
}

/// The text from `from` to `to` is blanks and `//` comments, each comment
/// running up to the end of its line.
pub open spec fn skips(c: Seq<char>, from: int, to: int) -> bool
    decreases to - from,
{
    if from >= to {
        from == to
    } else if is_blank(c[from]) {
        skips(c, from + 1, to)
    } else if comment_at(c, from) && from < line_end(c, from + 2) <= to {
        skips(c, line_end(c, from + 2), to)
    } else {
        false
    }
}

/// How many newlines `c[a..b]` holds.
pub open spec fn newlines(c: Seq<char>, a: int, b: int) -> int
    decreases b - a,
{
    if b <= a {
        0
    } else {
        newlines(c, a, b - 1) + if c[b - 1] == '\n' {
            1int
        } else {
            0
        }
    }
}

proof fn lemma_newlines_split(c: Seq<char>, a: int, b: int, e: int)
    requires
        a <= b <= e,
    ensures
        newlines(c, a, e) == newlines(c, a, b) + newlines(c, b, e),
    decreases e - b,
{
    if b < e {
        lemma_newlines_split(c, a, b, e - 1);
    }
}

proof fn lemma_line_end_bounds(c: Seq<char>, i: int)
    requires
        0 <= i <= c.len(),
    ensures
        i <= line_end(c, i) <= c.len(),
        line_end(c, i) < c.len() ==> c[line_end(c, i)] == '\n',
    decreases c.len() - i,
{
    if i < c.len() && c[i] != '\n' {
        lemma_line_end_bounds(c, i + 1);
    }
}

proof fn lemma_skips_blank(c: Seq<char>, a: int, b: int)
    requires
        0 <= a <= b < c.len(),
        skips(c, a, b),
        is_blank(c[b]),
    ensures
        skips(c, a, b + 1),
    decreases b - a,
{
    if a < b {
        if is_blank(c[a]) {
            lemma_skips_blank(c, a + 1, b);
        } else {
            lemma_skips_blank(c, line_end(c, a + 2), b);
        }
    } else {
        assert(skips(c, b + 1, b + 1));
    }
}

proof fn lemma_skips_comment(c: Seq<char>, a: int, b: int)
    requires
        0 <= a <= b,
        b + 2 <= c.len(),
        skips(c, a, b),
        comment_at(c, b),
    ensures
        skips(c, a, line_end(c, b + 2)),
    decreases b - a,
{
    lemma_line_end_bounds(c, b + 2);
    if a < b {
        if is_blank(c[a]) {
            lemma_skips_comment(c, a + 1, b);
        } else {
            lemma_line_end_bounds(c, a + 2);
            lemma_skips_comment(c, line_end(c, a + 2), b);
        }
    } else {
        assert(skips(c, line_end(c, b + 2), line_end(c, b + 2)));
    }
}

fn digit(c: char) -> (r: bool)
    ensures
        r == is_digit(c),
{
    '0' <= c && c <= '9'
}

fn alpha(c: char) -> (r: bool)
    ensures
        r == is_alpha(c),
{
    ('a' <= c && c <= 'z') || ('A' <= c && c <= 'Z') || c == '_'
}

/// One scan from position `from` on line `line0`: it gives `r`, the token
/// (or error) found at `start..end`, and leaves the scanner on line `line1`.
pub open spec fn scans(
    c: Seq<char>,
    from: int,
    line0: int,
    r: Result<Token, ParseError>,
    start: int,
    end: int,
    line1: int,
) -> bool {
    &&& from <= start <= end
    // the line advances by the newlines read
    &&& line1 == line0 + newlines(c, from, end)
    // blanks and comments are skipped, up to the first character that is neither
    &&& skips(c, from, start)
    &&& start < c.len() ==> !is_blank(c[start]) && !comment_at(c, start)
    // the end of the input, and only there, gives the end-of-input token
    &&& (start == c.len()) <==> (r matches Ok(t) && t.token_type == TokenType::Eof)
    &&& start == c.len() ==> end == start
    &&& start < c.len() ==> start < end
    &&& r matches Ok(t) ==> {
        &&& t.lexeme@ == c.subrange(start, end)
        &&& lexeme_type(t.lexeme@) == Some(t.token_type)
        &&& t.line == line1
        &&& t.token_type == TokenType::String ==> t.lexeme@.len() >= 2 && t.lexeme@.last()
            == '"'
        &&& t.token_type != TokenType::Eof ==> token_ends(c, start, end)
    }
    &&& r matches Err(ParseError::UnterminatedString(loc)) ==> {
        &&& end == c.len()
        &&& c[start] == '"'
        &&& forall|i: int| start < i < c.len() ==> c[i] != '"'
        &&& loc.at == start
        &&& loc.line == line1
    }
    &&& r matches Err(ParseError::UnexpectedCharacter(loc)) ==> {
        &&& end == start + 1
        &&& lexeme_type(seq![c[start]]) is None
        &&& loc.at == start
        &&& loc.line == line1
    }
    &&& r matches Err(e) ==> (e is UnterminatedString || e is UnexpectedCharacter)
}

/// A whole scan of a source: each item is what one scan gives, each scan
/// starting where the one before it stopped, on the first line from the
/// start of the text, up to the end-of-input token, which only the last
/// item is.
pub ghost struct Lexing {
    pub items: Seq<Result<Token, ParseError>>,
    pub starts: Seq<int>,
    pub ends: Seq<int>,
    pub lines: Seq<int>,
}

impl Lexing {
    pub open spec fn from(self, i: int) -> int {
        if i == 0 {
            0
        } else {
            self.ends[i - 1]
        }
    }

    pub open spec fn line_before(self, i: int) -> int {
        if i == 0 {
            1
        } else {
            self.lines[i - 1]
        }
    }

    /// Whether no scan failed.
    pub open spec fn clean(self) -> bool {
        forall|i: int| 0 <= i < self.items.len() ==> self.items[i] is Ok
    }

    /// The tokens of a clean scan.
    pub open spec fn tokens(self) -> Seq<Token> {
        self.items.map_values(|r: Result<Token, ParseError>| r->Ok_0)
    }
}

pub open spec fn is_eof(r: Result<Token, ParseError>) -> bool {
    r matches Ok(t) && t.token_type == TokenType::Eof
}

pub open spec fn lexed(c: Seq<char>, lx: Lexing) -> bool {
    let m = lx.items.len();
    &&& m >= 1
    &&& lx.starts.len() == m && lx.ends.len() == m && lx.lines.len() == m
    &&& forall|i: int|
        0 <= i < m ==> #[trigger] scans(
            c,
            lx.from(i),
            lx.line_before(i),
            lx.items[i],
            lx.starts[i],
            lx.ends[i],
            lx.lines[i],
        )
    &&& is_eof(lx.items[m - 1])
    &&& forall|i: int| 0 <= i < m - 1 ==> !is_eof(#[trigger] lx.items[i])
}

/// Scans source text on demand. `start` is where the token being scanned
/// begins, `current` the next character to read, `line` the current line.
#[derive(Debug)]
pub struct Scanner {
    pub source: Vec<char>,
    pub start: usize,
    pub current: usize,
    pub line: usize,
}

impl Scanner {
    /// The source text, as characters.
    pub open spec fn chars(&self) -> Seq<char> {
        self.source@
    }

    pub open spec fn wf(&self) -> bool {
        &&& self.start <= self.current <= self.chars().len()
        &&& self.chars().len() < usize::MAX
        &&& 1 <= self.line <= self.current + 1
    }

    /// How many characters are still to be read.
    pub open spec fn remaining(&self) -> nat {
        (self.chars().len() - self.current) as nat
    }

    pub fn new(source: String) -> (r: Scanner)
        requires
            source@.len() < usize::MAX,
        ensures
            r.wf(),
            r.chars() == source@,
            r.start == 0,
            r.current == 0,
            r.line == 1,
    {
        Scanner { source: chars_of(&source), start: 0, current: 0, line: 1 }
    }

    /// Scans the next token. Whitespace and `//` comments before it are
    /// skipped. At the end of the input this returns an end-of-input token,
    /// again on every further call.
    pub fn scan_token(&mut self) -> (r: Result<Token, ParseError>)
        requires
            old(self).wf(),
        ensures
            final(self).wf(),
            final(self).chars() == old(self).chars(),
            scans(
                final(self).chars(),
                old(self).current as int,
                old(self).line as int,
                r,
                final(self).start as int,
                final(self).current as int,
                final(self).line as int,
            ),
    {
        self.skip_whitespace();
        self.start = self.current;
        let ghost first = self.current as int;
        let r = match self.next() {
            None => Ok(self.make_token(TokenType::Eof)),
            Some(c) => {
                if c == '(' {
                    Ok(self.make_token(TokenType::LeftParen))
                } else if c == ')' {
                    Ok(self.make_token(TokenType::RightParen))
                } else if c == '{' {
                    Ok(self.make_token(TokenType::LeftBrace))
                } else if c == '}' {
                    Ok(self.make_token(TokenType::RightBrace))
                } else if c == ',' {
                    Ok(self.make_token(TokenType::Comma))
                } else if c == '.' {
                    Ok(self.make_token(TokenType::Dot))
                } else if c == '-' {
                    Ok(self.make_token(TokenType::Minus))
                } else if c == '+' {
                    Ok(self.make_token(TokenType::Plus))
                } else if c == ';' {
                    Ok(self.make_token(TokenType::Semicolon))
                } else if c == '*' {
                    Ok(self.make_token(TokenType::Star))
                } else if c == '/' {
                    Ok(self.make_token(TokenType::Slash))
                } else if c == '!' {
                    let t = if self.next_is('=') {
                        TokenType::BangEqual
                    } else {
                        TokenType::Bang
                    };
                    Ok(self.make_token(t))
                } else if c == '=' {
                    let t = if self.next_is('=') {
                        TokenType::EqualEqual
                    } else {
                        TokenType::Equal
                    };
                    Ok(self.make_token(t))
                } else if c == '<' {
                    let t = if self.next_is('=') {
                        TokenType::LessEqual
                    } else {
                        TokenType::Less
                    };
                    Ok(self.make_token(t))
                } else if c == '>' {
                    let t = if self.next_is('=') {
                        TokenType::GreaterEqual
                    } else {
                        TokenType::Greater
                    };
                    Ok(self.make_token(t))
                } else if c == '"' {
                    self.string()
                } else if digit(c) {
                    Ok(self.number())
                } else if alpha(c) {
                    Ok(self.identifier())
                } else {
                    Err(ParseError::UnexpectedCharacter(ErrorLoc { line: self.line, at: self.start }))
                }
            },
        };
        proof {
            let c = self.chars();
            if self.current > first {
                assert(newlines(c, first, first) == 0);
                assert(newlines(c, first, first + 1) == 0);
                lemma_newlines_split(c, first, first + 1, self.current as int);
            }
            lemma_newlines_split(c, old(self).current as int, first, self.current as int);
        }
        r
    }

    /// Skips blanks, counting newlines, and `//` comments up to the end of
    /// their line.
    fn skip_whitespace(&mut self)
        requires
            old(self).wf(),
        ensures
            final(self).wf(),
            final(self).chars() == old(self).chars(),
            final(self).start == old(self).start,
            old(self).current <= final(self).current,
            final(self).line == old(self).line + newlines(
                final(self).chars(),
                old(self).current as int,
                final(self).current as int,
            ),
            skips(final(self).chars(), old(self).current as int, final(self).current as int),
            final(self).current < final(self).chars().len() ==> {
                let c = final(self).chars()[final(self).current as int];
                !is_blank(c) && !comment_at(final(self).chars(), final(self).current as int)
            },
    {
        loop
            invariant_except_break
                self.wf(),
                self.chars() == old(self).chars(),
                self.start == old(self).start,
                old(self).current <= self.current,
                self.line == old(self).line + newlines(
                    self.chars(),
                    old(self).current as int,
                    self.current as int,
                ),
                skips(self.chars(), old(self).current as int, self.current as int),
            ensures
                self.wf(),
                self.chars() == old(self).chars(),
                self.start == old(self).start,
                old(self).current <= self.current,
                self.line == old(self).line + newlines(
                    self.chars(),
                    old(self).current as int,
                    self.current as int,
                ),
                skips(self.chars(), old(self).current as int, self.current as int),
                self.current < self.chars().len() ==> {
                    let c = self.chars()[self.current as int];
                    !is_blank(c) && !comment_at(self.chars(), self.current as int)
                },
            decreases self.remaining(),
        {
            match self.peek() {
                None => return,
                Some(c) => {
                    if c == ' ' || c == '\r' || c == '\t' {
                        proof {
                            lemma_skips_blank(self.chars(), old(self).current as int, self.current as int);
                        }
                        self.current += 1;
                    } else if c == '\n' {
                        proof {
                            lemma_skips_blank(self.chars(), old(self).current as int, self.current as int);
                        }
                        self.line += 1;
                        self.current += 1;
                    } else if c == '/' && self.peek_next() == Some('/') {
                        let ghost b = self.current as int;
                        proof {
                            lemma_skips_comment(self.chars(), old(self).current as int, b);
                        }
                        self.current += 2;
                        assert(newlines(self.chars(), old(self).current as int, b + 1) == newlines(
                            self.chars(),
                            old(self).current as int,
                            b,
                        ));
                        let after_slashes = self.current;
                        while self.current < self.source.len() && self.source[self.current]
                            != '\n'
                            invariant
                                self.wf(),
                                self.chars() == old(self).chars(),
                                self.start == old(self).start,
                                old(self).current <= self.current,
                                self.line == old(self).line + newlines(
                                    self.chars(),
                                    old(self).current as int,
                                    self.current as int,
                                ),
                                after_slashes <= self.current,
                                line_end(self.chars(), self.current as int) == line_end(self.chars(), b + 2),
                                skips(self.chars(), old(self).current as int, line_end(self.chars(), b + 2)),
                            decreases self.remaining(),
                        {
                            self.current += 1;
                        }
                    } else {
                        return;
                    }
                },
            }
        }
    }

    /// The token of category `t` covering `start..current`.
    fn make_token(&self, t: TokenType) -> (r: Token)
        requires
            self.wf(),
        ensures
            r.token_type == t,
            r.lexeme@ == self.chars().subrange(self.start as int, self.current as int),
            r.line == self.line,
    {
        let text = copy_range(&self.source, self.start, self.current);
        Token::new(t, string_from_chars(&text), self.line)
    }

    /// The rest of a string literal whose opening quote has been read; it may
    /// span lines.
    fn string(&mut self) -> (r: Result<Token, ParseError>)
        requires
            old(self).wf(),
            old(self).current == old(self).start + 1,
            old(self).chars()[old(self).start as int] == '"',
        ensures
            final(self).wf(),
            final(self).chars() == old(self).chars(),
            final(self).start == old(self).start,
            final(self).line == old(self).line + newlines(
                final(self).chars(),
                old(self).current as int,
                final(self).current as int,
            ),
            final(self).current > final(self).start,
            r matches Ok(t) ==> {
                &&& t.token_type == TokenType::String
                &&& t.lexeme@ == final(self).chars().subrange(
                    final(self).start as int,
                    final(self).current as int,
                )
                &&& t.line == final(self).line
                &&& t.lexeme@.len() >= 2
                &&& t.lexeme@.last() == '"'
                &&& token_ends(final(self).chars(), final(self).start as int, final(self).current as int)
            },
            r matches Err(e) ==> e == ParseError::UnterminatedString(
                ErrorLoc { line: final(self).line, at: final(self).start },
            ) && final(self).current == final(self).chars().len() && forall|i: int|
                final(self).start < i < final(self).chars().len() ==> final(self).chars()[i] != '"',
    {
        while self.current < self.source.len() && self.source[self.current] != '"'
            invariant
                self.wf(),
                self.chars() == old(self).chars(),
                self.start == old(self).start,
                self.current >= old(self).current,
                self.line == old(self).line + newlines(
                    self.chars(),
                    old(self).current as int,
                    self.current as int,
                ),
                self.current > self.start,
                forall|i: int| self.start < i < self.current ==> self.chars()[i] != '"',
            decreases self.remaining(),
        {
            if self.source[self.current] == '\n' {
                self.line += 1;
            }
            self.current += 1;
        }
        if self.current >= self.source.len() {
            return Err(ParseError::UnterminatedString(ErrorLoc { line: self.line, at: self.start }));
        }
        self.current += 1;
        Ok(self.make_token(TokenType::String))
    }

    /// The rest of a number: digits, then a fraction only where a digit
    /// follows the dot.
    fn number(&mut self) -> (r: Token)
        requires
            old(self).wf(),
            old(self).current == old(self).start + 1,
            is_digit(old(self).chars()[old(self).start as int]),
        ensures
            final(self).wf(),
            final(self).chars() == old(self).chars(),
            final(self).start == old(self).start,
            final(self).line == old(self).line,
            final(self).current > final(self).start,
            r.token_type == TokenType::Number,
            r.lexeme@ == final(self).chars().subrange(
                final(self).start as int,
                final(self).current as int,
            ),
            r.line == final(self).line,
            number_ends(final(self).chars(), final(self).start as int, final(self).current as int),
            newlines(final(self).chars(), old(self).current as int, final(self).current as int) == 0,
    {
        while self.current < self.source.len() && digit(self.source[self.current])
            invariant
                self.wf(),
                self.chars() == old(self).chars(),
                self.start == old(self).start,
                self.line == old(self).line,
                self.current > self.start,
                digits(self.chars(), self.start as int, self.current as int),
                newlines(self.chars(), old(self).current as int, self.current as int) == 0,
                self.current >= old(self).current,
            decreases self.remaining(),
        {
            self.current += 1;
        }
        if self.current + 1 < self.source.len() && self.source[self.current] == '.' && digit(
            self.source[self.current + 1],
        ) {
            let ghost m = self.current as int;
            self.current += 1;
            while self.current < self.source.len() && digit(self.source[self.current])
                invariant
                    self.wf(),
                    self.chars() == old(self).chars(),
                    self.start == old(self).start,
                    self.line == old(self).line,
                    self.current > self.start,
                    self.start < m && m + 1 <= self.current,
                    self.chars()[m] == '.',
                    digits(self.chars(), self.start as int, m),
                    digits(self.chars(), m + 1, self.current as int),
                    digit_at(self.chars(), m + 1),
                    newlines(self.chars(), old(self).current as int, self.current as int) == 0,
                    self.current >= old(self).current,
                decreases self.remaining(),
            {
                self.current += 1;
            }
            assert(m + 1 < self.current);
        }
        self.make_token(TokenType::Number)
    }

    /// The rest of an identifier or keyword: a maximal run of letters,
    /// digits and underscores, then an exact lookup in the keyword table.
    fn identifier(&mut self) -> (r: Token)
        requires
            old(self).wf(),
            old(self).current == old(self).start + 1,
            is_alpha(old(self).chars()[old(self).start as int]),
        ensures
            final(self).wf(),
            final(self).chars() == old(self).chars(),
            final(self).start == old(self).start,
            final(self).line == old(self).line,
            final(self).current > final(self).start,
            lexeme_type(r.lexeme@) == Some(r.token_type),
            r.lexeme@ == final(self).chars().subrange(
                final(self).start as int,
                final(self).current as int,
            ),
            r.line == final(self).line,
            forall|i: int| final(self).start <= i < final(self).current ==> ident_at(final(self).chars(), i),
            !ident_at(final(self).chars(), final(self).current as int),
            newlines(final(self).chars(), old(self).current as int, final(self).current as int) == 0,
    {
        while self.current < self.source.len() && (alpha(self.source[self.current]) || digit(
            self.source[self.current],
        ))
            invariant
                self.wf(),
                self.chars() == old(self).chars(),
                self.start == old(self).start,
                self.line == old(self).line,
                self.current > self.start,
                forall|i: int| self.start <= i < self.current ==> ident_at(self.chars(), i),
                newlines(self.chars(), old(self).current as int, self.current as int) == 0,
                self.current >= old(self).current,
            decreases self.remaining(),
        {
            self.current += 1;
        }
        let text = copy_range(&self.source, self.start, self.current);
        let t = match keyword_type(&text) {
            Some(k) => k,
            None => TokenType::Identifier,
        };
        self.make_token(t)
    }

    /// Reads one character, if any is left.
    fn next(&mut self) -> (r: Option<char>)
        requires
            old(self).wf(),
        ensures
            final(self).wf(),
            final(self).chars() == old(self).chars(),
            final(self).start == old(self).start,
            final(self).line == old(self).line,
            old(self).current < old(self).chars().len() ==> final(self).current == old(self).current
                + 1 && r == Some(old(self).chars()[old(self).current as int]),
            old(self).current == old(self).chars().len() ==> final(self).current == old(self).current
                && r is None,
    {
        if self.current < self.source.len() {
            self.current += 1;
            Some(self.source[self.current - 1])
        } else {
            None
        }
    }

    fn peek(&self) -> (r: Option<char>)
        requires
            self.wf(),
        ensures
            r == if self.current < self.chars().len() {
                Some(self.chars()[self.current as int])
            } else {
                None::<char>
            },
    {
        if self.current < self.source.len() {
            Some(self.source[self.current])
        } else {
            None
        }
    }

    fn peek_next(&self) -> (r: Option<char>)
        requires
            self.wf(),
        ensures
            r == if self.current + 1 < self.chars().len() {
                Some(self.chars()[self.current + 1])
            } else {
                None::<char>
            },
    {
        if self.current + 1 < self.source.len() {
            Some(self.source[self.current + 1])
        } else {
            None
        }
    }

    /// Reads the next character only if it is `c`.
    fn next_is(&mut self, c: char) -> (r: bool)
        requires
            old(self).wf(),
        ensures
            final(self).wf(),
            final(self).chars() == old(self).chars(),
            final(self).start == old(self).start,
            final(self).line == old(self).line,
            r == (old(self).current < old(self).chars().len() && old(self).chars()[old(
                self,
            ).current as int] == c),
            c != '\n' ==> newlines(
                final(self).chars(),
                old(self).current as int,
                final(self).current as int,
            ) == 0,
            final(self).current == old(self).current + if r {
                1int
            } else {
                0
            },
    {
        proof {
            assert(newlines(self.chars(), self.current as int, self.current as int) == 0);
        }
        if self.peek() == Some(c) {
            self.current += 1;
            true
        } else {
            false
        }
    }
}

/// `r` is what scanning `c` as `lx` gives: its tokens where the scan is
/// clean, diagnostics otherwise.
pub open spec fn scanned_as(c: Seq<char>, lx: Lexing, r: Result<Vec<Token>, Vec<Diagnostic>>) -> bool {
    &&& lexed(c, lx)
    &&& lx.clean() <==> r is Ok
    &&& r matches Ok(t) ==> t@ == lx.tokens()
    &&& r matches Err(d) ==> d@.len() > 0
}

/// Scans the whole source. A clean scan gives its tokens, the last of them
/// the end of input; a scan that fails anywhere gives one diagnostic for
/// each failure.
pub fn scan_all(source: String) -> (r: Result<Vec<Token>, Vec<Diagnostic>>)
    requires
        source@.len() < usize::MAX,
    ensures
        exists|lx: Lexing| #[trigger] scanned_as(source@, lx, r),
{
    let ghost c = source@;
    let mut sc = Scanner::new(source);
    let mut toks: Vec<Token> = Vec::new();
    let mut diags: Vec<Diagnostic> = Vec::new();
    let ghost mut lx = Lexing {
        items: Seq::empty(),
        starts: Seq::empty(),
        ends: Seq::empty(),
        lines: Seq::empty(),
    };
    loop
        invariant
            sc.wf(),
            sc.chars() == c,
            c == source@,
            lx.starts.len() == lx.items.len() && lx.ends.len() == lx.items.len()
                && lx.lines.len() == lx.items.len(),
            forall|i: int|
                0 <= i < lx.items.len() ==> #[trigger] scans(
                    c,
                    lx.from(i),
                    lx.line_before(i),
                    lx.items[i],
                    lx.starts[i],
                    lx.ends[i],
                    lx.lines[i],
                ),
            forall|i: int| 0 <= i < lx.items.len() ==> !is_eof(#[trigger] lx.items[i]),
            sc.current == lx.from(lx.items.len() as int),
            sc.line == lx.line_before(lx.items.len() as int),
            diags@.len() == 0 <==> lx.clean(),
            lx.clean() ==> toks@ == lx.tokens(),
        decreases sc.remaining(),
    {
        let ghost before = lx;
        let r = sc.scan_token();
        let ghost item = r;
        proof {
            lx = Lexing {
                items: lx.items.push(item),
                starts: lx.starts.push(sc.start as int),
                ends: lx.ends.push(sc.current as int),
                lines: lx.lines.push(sc.line as int),
            };
            let m = before.items.len() as int;
            assert(lx.from(m) == before.from(m));
            assert(lx.line_before(m) == before.line_before(m));
            assert forall|i: int| 0 <= i < lx.items.len() implies #[trigger] scans(
                c,
                lx.from(i),
                lx.line_before(i),
                lx.items[i],
                lx.starts[i],
                lx.ends[i],
                lx.lines[i],
            ) by {
                if i < m {
                    assert(lx.from(i) == before.from(i));
                    assert(lx.line_before(i) == before.line_before(i));
                    assert(lx.items[i] == before.items[i]);
                }
            }
        }
        match r {
            Ok(t) => {
                proof {
                    let m = before.items.len() as int;
                    assert(lx.items[m] is Ok);
                    if before.clean() {
                        assert forall|i: int| 0 <= i < lx.items.len() implies lx.items[i] is Ok by {
                            if i < m {
                                assert(lx.items[i] == before.items[i]);
                            }
                        }
                    } else {
                        let j = choose|j: int| 0 <= j < before.items.len() && !(before.items[j] is Ok);
                        assert(lx.items[j] == before.items[j]);
                    }
                }
                let eof = t.token_type == TokenType::Eof;
                if diags.len() == 0 {
                    toks.push(t);
                    proof {
                        assert(lx.tokens() =~= before.tokens().push(item->Ok_0));
                    }
                }
                if eof {
                    proof {
                        assert(lexed(c, lx));
                    }
                    if diags.len() == 0 {
                        let r: Result<Vec<Token>, Vec<Diagnostic>> = Ok(toks);
                        assert(scanned_as(c, lx, r));
                        return r;
                    } else {
                        let r: Result<Vec<Token>, Vec<Diagnostic>> = Err(diags);
                        assert(scanned_as(c, lx, r));
                        return r;
                    }
                }
                assert(forall|i: int| 0 <= i < lx.items.len() ==> !is_eof(#[trigger] lx.items[i]));
            },
            Err(e) => {
                let kind = match e {
                    ParseError::UnterminatedString(_) => CompileErrorKind::UnterminatedString,
                    _ => CompileErrorKind::UnexpectedCharacter,
                };
                let text = copy_range(&sc.source, sc.start, sc.current);
                diags.push(Diagnostic { line: sc.line, at: Some(string_from_chars(&text)), kind });
                assert(!(lx.items[before.items.len() as int] is Ok));
                assert(!lx.clean());
            },
        }
    }
}

} // verus!
