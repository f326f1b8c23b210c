//! The compiler: a precedence-climbing parser over the scanned tokens that
//! emits bytecode straight into a chunk, recovering from errors at
//! statement boundaries. The code it emits is stated exactly by the spec
//! functions below, which read the grammar off the tokens.
use vstd::prelude::*;

use crate::chunk::{
    byte_of, has_operand, lemma_opcode_round_trip, lemma_valid_code_append,
    lemma_valid_code_more_constants, valid_code, Chunk, OpCode, Value, ValueModel, MAX_CONSTANTS,
};
use crate::error::{CompileErrorKind, Diagnostic};
use crate::parse::{parse_rule, precedence_of, prefix_of, ParseFn, Parser, Precedence};
use crate::scanner::{is_eof, lexed, scan_all, scanned_as, Lexing};
use crate::text::{chars_of, copy_range, string_from_chars};
use crate::token::{Token, TokenType};

verus! {

/// How deeply expressions may nest before compilation gives up on them.
pub const MAX_NESTING: usize = 256;

/// Where compilation stands: the index of the lookahead token, the code
/// written, the constant pool, and how many number values were used.
pub ghost struct Emit {
    pub pos: int,
    pub code: Seq<u8>,
    pub pool: Seq<ValueModel>,
    pub used: int,
}

impl Emit {
    pub open spec fn at(self, pos: int) -> Emit {
        Emit { pos, code: self.code, pool: self.pool, used: self.used }
    }

    pub open spec fn op(self, op: OpCode) -> Emit {
        Emit { pos: self.pos, code: self.code.push(byte_of(op)), pool: self.pool, used: self.used }
    }

    pub open spec fn op_with(self, op: OpCode, k: int) -> Emit {
        Emit {
            pos: self.pos,
            code: self.code.push(byte_of(op)).push(k as u8),
            pool: self.pool,
            used: self.used,
        }
    }
}

/// Nothing read, nothing written.
pub open spec fn start() -> Emit {
    Emit { pos: 0, code: Seq::empty(), pool: Seq::empty(), used: 0 }
}

/// A token stream as the scanner gives it: the end-of-input token last, and
/// only there.
pub open spec fn token_stream(t: Seq<Token>) -> bool {
    &&& t.len() >= 1
    &&& t.last().token_type == TokenType::Eof
    &&& forall|i: int| 0 <= i < t.len() - 1 ==> #[trigger] t[i].token_type != TokenType::Eof
}

/// The category of token `i`; past the end, the end of input.
pub open spec fn kind(t: Seq<Token>, i: int) -> TokenType {
    if 0 <= i < t.len() {
        t[i].token_type
    } else {
        TokenType::Eof
    }
}

/// Adds a constant to the pool; a full pool is an error.
pub open spec fn add_constant(st: Emit, v: ValueModel) -> Result<Emit, CompileErrorKind> {
    if st.pool.len() >= MAX_CONSTANTS {
        Err(CompileErrorKind::TooManyConstants)
    } else {
        Ok(Emit { pos: st.pos, code: st.code, pool: st.pool.push(v), used: st.used })
    }
}

/// Adds a constant and the instruction that loads it.
pub open spec fn load_constant(st: Emit, v: ValueModel) -> Result<Emit, CompileErrorKind> {
    match add_constant(st, v) {
        Ok(s) => Ok(s.op_with(OpCode::Constant, st.pool.len() as int)),
        Err(k) => Err(k),
    }
}

/// A number literal takes the next of the supplied values.
pub open spec fn number_code(n: Seq<u64>, st: Emit) -> Result<Emit, CompileErrorKind> {
    if 0 <= st.used < n.len() {
        load_constant(
            Emit { pos: st.pos, code: st.code, pool: st.pool, used: st.used + 1 },
            ValueModel::Number(n[st.used]),
        )
    } else {
        Err(CompileErrorKind::MissingNumberValue)
    }
}

/// A string literal's lexeme without its quotes.
pub open spec fn string_contents(s: Seq<char>) -> Seq<char> {
    if s.len() >= 2 {
        s.subrange(1, s.len() - 1)
    } else {
        Seq::empty()
    }
}

pub open spec fn literal_op(tt: TokenType) -> OpCode {
    if tt == TokenType::False {
        OpCode::False
    } else if tt == TokenType::Nil {
        OpCode::Nil
    } else {
        OpCode::True
    }
}

/// The instructions of a binary operator: `!=`, `>=` and `<=` are the
/// negations of `==`, `<` and `>`.
pub open spec fn binary_ops(s: Emit, tt: TokenType) -> Emit {
    match tt {
        TokenType::Plus => s.op(OpCode::Add),
        TokenType::Minus => s.op(OpCode::Subtract),
        TokenType::Star => s.op(OpCode::Multiply),
        TokenType::Slash => s.op(OpCode::Divide),
        TokenType::BangEqual => s.op(OpCode::Equal).op(OpCode::Not),
        TokenType::EqualEqual => s.op(OpCode::Equal),
        TokenType::Greater => s.op(OpCode::Greater),
        TokenType::GreaterEqual => s.op(OpCode::Less).op(OpCode::Not),
        TokenType::Less => s.op(OpCode::Less),
        _ => s.op(OpCode::Greater).op(OpCode::Not),
    }
}

/// An expression whose operators bind at least as tightly as `p`, from the
/// token at `st.pos`: its prefix part, then every infix operator that binds
/// tightly enough, each operand before its operator (postfix order).
/// `Err` gives the first error.
pub open spec fn precedence_code(
    t: Seq<Token>,
    n: Seq<u64>,
    st: Emit,
    p: Precedence,
    depth: int,
) -> Result<Emit, CompileErrorKind>
    decreases depth, t.len() - st.pos, 4int,
{
    if depth <= 0 {
        Err(CompileErrorKind::TooDeeplyNested)
    } else if !(0 <= st.pos < t.len()) {
        Err(CompileErrorKind::ExpectExpression)
    } else {
        let can_assign = p.rank() <= 1;
        match prefix_code(t, n, st.at(st.pos + 1), st.pos, can_assign, depth) {
            Err(k) => Err(k),
            Ok(s2) => if st.pos < s2.pos <= t.len() {
                match infix_code(t, n, s2, p, depth) {
                    Err(k) => Err(k),
                    Ok(s3) => if can_assign && kind(t, s3.pos) == TokenType::Equal {
                        Err(CompileErrorKind::InvalidAssignmentTarget)
                    } else {
                        Ok(s3)
                    },
                }
            } else {
                Err(CompileErrorKind::ExpectExpression)
            },
        }
    }
}

/// The prefix part of an expression, whose first token `tok` was just
/// consumed.
pub open spec fn prefix_code(
    t: Seq<Token>,
    n: Seq<u64>,
    st: Emit,
    tok: int,
    can_assign: bool,
    depth: int,
) -> Result<Emit, CompileErrorKind>
    decreases depth, t.len() - st.pos, 3int,
{
    if depth <= 0 || !(0 <= tok < t.len()) {
        Err(CompileErrorKind::TooDeeplyNested)
    } else {
        let tt = t[tok].token_type;
        match prefix_of(tt) {
            ParseFn::Number => number_code(n, st),
            ParseFn::String => load_constant(
                st,
                ValueModel::Str(string_contents(t[tok].lexeme@)),
            ),
            ParseFn::Literal => Ok(st.op(literal_op(tt))),
            ParseFn::Variable => match add_constant(st, ValueModel::Str(t[tok].lexeme@)) {
                Err(k) => Err(k),
                Ok(s1) => if can_assign && kind(t, s1.pos) == TokenType::Equal {
                    match precedence_code(
                        t,
                        n,
                        s1.at(s1.pos + 1),
                        Precedence::Assignment,
                        depth - 1,
                    ) {
                        Ok(s2) => Ok(s2.op_with(OpCode::SetGlobal, st.pool.len() as int)),
                        Err(k) => Err(k),
                    }
                } else {
                    Ok(s1.op_with(OpCode::GetGlobal, st.pool.len() as int))
                },
            },
            ParseFn::Unary => match precedence_code(t, n, st, Precedence::Unary, depth - 1) {
                Ok(s) => Ok(
                    s.op(
                        if tt == TokenType::Minus {
                            OpCode::Negate
                        } else {
                            OpCode::Not
                        },
                    ),
                ),
                Err(k) => Err(k),
            },
            ParseFn::Grouping => match precedence_code(
                t,
                n,
                st,
                Precedence::Assignment,
                depth - 1,
            ) {
                Ok(s) => if kind(t, s.pos) == TokenType::RightParen {
                    Ok(s.at(s.pos + 1))
                } else {
                    Err(CompileErrorKind::ExpectRightParen)
                },
                Err(k) => Err(k),
            },
            _ => Err(CompileErrorKind::ExpectExpression),
        }
    }
}

/// Every infix operator, from `st.pos` on, that binds at least as tightly
/// as `p`; operators of equal precedence associate to the left.
pub open spec fn infix_code(
    t: Seq<Token>,
    n: Seq<u64>,
    st: Emit,
    p: Precedence,
    depth: int,
) -> Result<Emit, CompileErrorKind>
    decreases depth, t.len() - st.pos, 2int,
{
    if !(0 <= st.pos < t.len()) {
        Ok(st)
    } else if p.rank() > precedence_of(t[st.pos].token_type).rank() {
        Ok(st)
    } else {
        match binary_code(t, n, st.at(st.pos + 1), t[st.pos].token_type, depth) {
            Err(k) => Err(k),
            Ok(s) => if st.pos < s.pos <= t.len() {
                infix_code(t, n, s, p, depth)
            } else {
                Err(CompileErrorKind::ExpectExpression)
            },
        }
    }
}

/// The right operand of a binary operator `tt`, one level tighter than the
/// operator, then the operator's instructions.
pub open spec fn binary_code(
    t: Seq<Token>,
    n: Seq<u64>,
    st: Emit,
    tt: TokenType,
    depth: int,
) -> Result<Emit, CompileErrorKind>
    decreases depth, t.len() - st.pos, 1int,
{
    if depth <= 0 {
        Err(CompileErrorKind::TooDeeplyNested)
    } else {
        match precedence_code(t, n, st, precedence_of(tt).succ(), depth - 1) {
            Ok(s) => Ok(binary_ops(s, tt)),
            Err(k) => Err(k),
        }
    }
}

/// An expression at the loosest level.
pub open spec fn expression_code(
    t: Seq<Token>,
    n: Seq<u64>,
    st: Emit,
    depth: int,
) -> Result<Emit, CompileErrorKind> {
    precedence_code(t, n, st, Precedence::Assignment, depth)
}

/// A token of category `tt` must come next.
pub open spec fn expect(t: Seq<Token>, st: Emit, tt: TokenType, k: CompileErrorKind) -> Result<
    Emit,
    CompileErrorKind,
> {
    if kind(t, st.pos) == tt {
        Ok(st.at(st.pos + 1))
    } else {
        Err(k)
    }
}

/// An expression, `;`, then `op`, which takes its value off the stack.
pub open spec fn statement_tail(t: Seq<Token>, n: Seq<u64>, st: Emit, op: OpCode) -> Result<
    Emit,
    CompileErrorKind,
> {
    match expression_code(t, n, st, MAX_NESTING as int) {
        Err(k) => Err(k),
        Ok(s) => match expect(t, s, TokenType::Semicolon, CompileErrorKind::ExpectSemicolonAfterValue) {
            Ok(s2) => Ok(s2.op(op)),
            Err(k) => Err(k),
        },
    }
}

/// A print statement or an expression statement.
pub open spec fn statement_code(t: Seq<Token>, n: Seq<u64>, st: Emit) -> Result<Emit, CompileErrorKind> {
    if kind(t, st.pos) == TokenType::Print {
        statement_tail(t, n, st.at(st.pos + 1), OpCode::Print)
    } else {
        statement_tail(t, n, st, OpCode::Pop)
    }
}

/// `var` name [`=` expression] `;`, from just after `var`: the value (nil
/// without an initializer), then the definition of the name.
pub open spec fn var_code(t: Seq<Token>, n: Seq<u64>, st: Emit) -> Result<Emit, CompileErrorKind> {
    if kind(t, st.pos) != TokenType::Identifier {
        Err(CompileErrorKind::ExpectVariableName)
    } else {
        match add_constant(st.at(st.pos + 1), ValueModel::Str(t[st.pos].lexeme@)) {
            Err(k) => Err(k),
            Ok(s1) => {
                let value = if kind(t, s1.pos) == TokenType::Equal {
                    expression_code(t, n, s1.at(s1.pos + 1), MAX_NESTING as int)
                } else {
                    Ok(s1.op(OpCode::Nil))
                };
                match value {
                    Err(k) => Err(k),
                    Ok(s2) => match expect(
                        t,
                        s2,
                        TokenType::Semicolon,
                        CompileErrorKind::ExpectSemicolonAfterVariable,
                    ) {
                        Ok(s3) => Ok(s3.op_with(OpCode::DefineGlobal, st.pool.len() as int)),
                        Err(k) => Err(k),
                    },
                }
            },
        }
    }
}

pub open spec fn declaration_code(t: Seq<Token>, n: Seq<u64>, st: Emit) -> Result<
    Emit,
    CompileErrorKind,
> {
    if kind(t, st.pos) == TokenType::Var {
        var_code(t, n, st.at(st.pos + 1))
    } else {
        statement_code(t, n, st)
    }
}

/// Declarations up to the end of input.
pub open spec fn declarations_code(t: Seq<Token>, n: Seq<u64>, st: Emit) -> Result<
    Emit,
    CompileErrorKind,
>
    decreases t.len() - st.pos,
{
    if !(0 <= st.pos < t.len()) {
        Err(CompileErrorKind::ExpectExpression)
    } else if t[st.pos].token_type == TokenType::Eof {
        Ok(st)
    } else {
        match declaration_code(t, n, st) {
            Ok(s) => if st.pos < s.pos {
                declarations_code(t, n, s)
            } else {
                Err(CompileErrorKind::ExpectExpression)
            },
            Err(k) => Err(k),
        }
    }
}

/// What a program compiles to: its declarations, then a return; or the
/// first error.
pub open spec fn program_code(t: Seq<Token>, n: Seq<u64>) -> Result<Emit, CompileErrorKind> {
    match declarations_code(t, n, start()) {
        Ok(s) => Ok(s.op(OpCode::Return)),
        Err(k) => Err(k),
    }
}

/// What a single expression, the whole of the tokens, compiles to: its code,
/// then a return; or the first error.
pub open spec fn whole_expression_code(t: Seq<Token>, n: Seq<u64>) -> Result<
    Emit,
    CompileErrorKind,
> {
    match expression_code(t, n, start(), MAX_NESTING as int) {
        Ok(s) => if kind(t, s.pos) == TokenType::Eof {
            Ok(s.op(OpCode::Return))
        } else {
            Err(CompileErrorKind::ExpectEndOfExpression)
        },
        Err(k) => Err(k),
    }
}

/// The pool of a chunk, with each value taken as its model.
pub open spec fn pool_of(c: &Chunk) -> Seq<ValueModel> {
    c.constants.view().map_values(|v: Value| v.model())
}

/// `r` is the outcome `e` prescribes: the chunk holding exactly that code
/// and pool, or diagnostics whose first one reports that error.
pub open spec fn delivers(r: &Result<Chunk, Vec<Diagnostic>>, e: Result<Emit, CompileErrorKind>) -> bool {
    match e {
        Ok(s) => r matches Ok(c) && c.code@ == s.code && pool_of(&c) == s.pool && c.valid(),
        Err(k) => r matches Err(d) && d@.len() > 0 && d@[0].kind == k,
    }
}

/// Where error recovery resumes: just after a `;`, or at a token that
/// starts a declaration or statement, or at the end of input.
pub open spec fn boundary(t: Seq<Token>, i: int) -> bool {
    ||| (i > 0 && kind(t, i - 1) == TokenType::Semicolon)
    ||| match kind(t, i) {
        TokenType::Eof | TokenType::Class | TokenType::Fun | TokenType::Var | TokenType::For
        | TokenType::If | TokenType::While | TokenType::Print | TokenType::Return => true,
        _ => false,
    }
}

/// The state of one compilation: lookahead, the tokens, the chunk being
/// written, the diagnostics recorded so far, and the values of the number
/// literals in source order.
struct Compiler {
    parser: Parser,
    tokens: Vec<Token>,
    pos: usize,
    compiling_chunk: Chunk,
    diagnostics: Vec<Diagnostic>,
    numbers: Vec<u64>,
    next_number: usize,
}

impl Compiler {
    spec fn inv(&self) -> bool {
        &&& token_stream(self.tokens@)
        &&& self.pos < self.tokens@.len()
        &&& self.parser.current is Some
        &&& self.parser.previous is Some
        &&& self.compiling_chunk.valid()
        &&& self.parser.had_error == (self.diagnostics@.len() > 0)
        &&& self.parser.panic_mode ==> self.parser.had_error
        &&& self.next_number <= self.numbers@.len()
    }

    spec fn st(&self) -> Emit {
        Emit {
            pos: self.pos as int,
            code: self.compiling_chunk.code@,
            pool: pool_of(&self.compiling_chunk),
            used: self.next_number as int,
        }
    }

    spec fn current_type(&self) -> TokenType {
        self.tokens@[self.pos as int].token_type
    }

    /// `next` is a later state of the same compilation.
    spec fn leads_to(&self, next: &Compiler) -> bool {
        &&& next.inv()
        &&& next.tokens == self.tokens
        &&& next.numbers == self.numbers
        &&& self.pos <= next.pos
        &&& self.compiling_chunk.constants.view().len() <= next.compiling_chunk.constants.view().len()
        &&& self.parser.had_error ==> next.parser.had_error
        &&& self.parser.had_error ==> next.diagnostics@[0].kind == self.diagnostics@[0].kind
    }

    /// Unless an error was recorded before, the step from this state to
    /// `next` is what `r` prescribes: its state where it is `Ok`, its error
    /// as the first diagnostic where it is `Err`.
    spec fn follows(&self, next: &Compiler, r: Result<Emit, CompileErrorKind>) -> bool {
        !self.parser.had_error ==> match r {
            Ok(s) => !next.parser.had_error && next.st() == s,
            Err(k) => next.parser.had_error && next.diagnostics@[0].kind == k,
        }
    }

    fn new(tokens: Vec<Token>, numbers: Vec<u64>) -> (r: Compiler)
        requires
            token_stream(tokens@),
        ensures
            r.inv(),
            !r.parser.had_error,
            r.st() == start(),
            r.tokens == tokens,
            r.numbers == numbers,
    {
        let mut parser = Parser::new();
        parser.current = Some(tokens[0].duplicate());
        parser.previous = Some(tokens[0].duplicate());
        let c = Compiler {
            parser,
            tokens,
            pos: 0,
            compiling_chunk: Chunk::new(),
            diagnostics: Vec::new(),
            numbers,
            next_number: 0,
        };
        assert(c.st().pool =~= Seq::<ValueModel>::empty());
        assert(c.st().code =~= Seq::<u8>::empty());
        c
    }

    fn current_type_exec(&self) -> (r: TokenType)
        requires
            self.inv(),
        ensures
            r == self.current_type(),
    {
        self.tokens[self.pos].token_type
    }

    fn previous_line(&self) -> usize {
        match &self.parser.previous {
            Some(t) => t.line,
            None => 0,
        }
    }

    /// Records a diagnostic unless one is already being reported for the
    /// current statement.
    fn report(&mut self, line: usize, at: Option<String>, kind: CompileErrorKind)
        requires
            old(self).inv(),
        ensures
            old(self).leads_to(final(self)),
            old(self).follows(final(self), Err(kind)),
            final(self).parser.had_error,
            final(self).parser.panic_mode,
            final(self).pos == old(self).pos,
            final(self).compiling_chunk == old(self).compiling_chunk,
            final(self).next_number == old(self).next_number,
    {
        if self.parser.panic_mode {
            return;
        }
        self.parser.panic_mode = true;
        self.parser.had_error = true;
        self.diagnostics.push(Diagnostic { line, at, kind });
    }

    fn error_at(&mut self, token: &Token, kind: CompileErrorKind)
        requires
            old(self).inv(),
        ensures
            old(self).leads_to(final(self)),
            old(self).follows(final(self), Err(kind)),
            final(self).parser.had_error,
            final(self).pos == old(self).pos,
            final(self).compiling_chunk == old(self).compiling_chunk,
            final(self).next_number == old(self).next_number,
    {
        let at = if token.token_type == TokenType::Eof {
            None
        } else {
            Some(token.lexeme.clone())
        };
        self.report(token.line, at, kind);
    }

    /// Reports at the token just consumed.
    fn error(&mut self, kind: CompileErrorKind)
        requires
            old(self).inv(),
        ensures
            old(self).leads_to(final(self)),
            old(self).follows(final(self), Err(kind)),
            final(self).parser.had_error,
            final(self).pos == old(self).pos,
            final(self).compiling_chunk == old(self).compiling_chunk,
            final(self).next_number == old(self).next_number,
    {
        let token = match &self.parser.previous {
            Some(t) => t.duplicate(),
            None => Token::new(TokenType::Eof, String::new(), 0),
        };
        self.error_at(&token, kind);
    }

    /// Reports at the lookahead token.
    fn error_at_current(&mut self, kind: CompileErrorKind)
        requires
            old(self).inv(),
        ensures
            old(self).leads_to(final(self)),
            old(self).follows(final(self), Err(kind)),
            final(self).parser.had_error,
            final(self).pos == old(self).pos,
            final(self).compiling_chunk == old(self).compiling_chunk,
            final(self).next_number == old(self).next_number,
    {
        let token = self.tokens[self.pos].duplicate();
        self.error_at(&token, kind);
    }

    /// Moves to the next token; at the end of input the lookahead stays.
    fn advance(&mut self)
        requires
            old(self).inv(),
        ensures
            old(self).leads_to(final(self)),
            final(self).pos == if old(self).current_type() != TokenType::Eof {
                old(self).pos + 1
            } else {
                old(self).pos as int
            },
            final(self).compiling_chunk == old(self).compiling_chunk,
            final(self).next_number == old(self).next_number,
            final(self).parser.had_error == old(self).parser.had_error,
            final(self).parser.panic_mode == old(self).parser.panic_mode,
            final(self).diagnostics == old(self).diagnostics,
    {
        let len = self.tokens.len();
        if self.tokens[self.pos].token_type != TokenType::Eof {
            assert(self.pos < len - 1);
            self.pos = self.pos + 1;
        }
        self.parser.advance();
        self.parser.current = Some(self.tokens[self.pos].duplicate());
    }

    /// Consumes the lookahead if it has category `tt`; otherwise reports.
    fn consume(&mut self, tt: TokenType, kind: CompileErrorKind)
        requires
            old(self).inv(),
        ensures
            old(self).leads_to(final(self)),
            tt != TokenType::Eof ==> old(self).follows(
                final(self),
                expect(old(self).tokens@, old(self).st(), tt, kind),
            ),
            tt == TokenType::Eof ==> old(self).follows(
                final(self),
                if old(self).current_type() == tt {
                    Ok(old(self).st())
                } else {
                    Err(kind)
                },
            ),
            final(self).compiling_chunk == old(self).compiling_chunk,
            final(self).next_number == old(self).next_number,
    {
        if self.current_type_exec() == tt {
            self.advance();
        } else {
            self.error_at_current(kind);
        }
    }

    /// Consumes the lookahead only if it has category `tt`.
    fn current_token_type_is(&mut self, tt: TokenType) -> (r: bool)
        requires
            old(self).inv(),
        ensures
            old(self).leads_to(final(self)),
            r == (old(self).current_type() == tt),
            r && tt != TokenType::Eof ==> final(self).st() == old(self).st().at(old(self).pos + 1),
            !r ==> final(self).st() == old(self).st(),
            tt == TokenType::Eof ==> final(self).st() == old(self).st(),
            final(self).parser.had_error == old(self).parser.had_error,
            final(self).diagnostics == old(self).diagnostics,
            final(self).parser.panic_mode == old(self).parser.panic_mode,
            final(self).compiling_chunk == old(self).compiling_chunk,
    {
        if self.current_type_exec() == tt {
            self.advance();
            true
        } else {
            false
        }
    }

    /// Appends a one-byte instruction.
    fn emit_op(&mut self, op: OpCode)
        requires
            old(self).inv(),
            !has_operand(op),
        ensures
            old(self).leads_to(final(self)),
            final(self).st() == old(self).st().op(op),
            final(self).parser.had_error == old(self).parser.had_error,
            final(self).diagnostics == old(self).diagnostics,
    {
        let line = self.previous_line();
        proof {
            let one = seq![byte_of(op)];
            let n = self.compiling_chunk.constants.view().len();
            lemma_opcode_round_trip(op);
            assert(one.subrange(1, 1) =~= Seq::<u8>::empty());
            assert(valid_code(Seq::<u8>::empty(), n));
            assert(valid_code(one, n));
            lemma_valid_code_append(self.compiling_chunk.code@, one, n);
            assert(self.compiling_chunk.code@ + one =~= self.compiling_chunk.code@.push(
                byte_of(op),
            ));
        }
        self.compiling_chunk.write(op.to_byte(), line);
    }

    /// Appends an instruction with a constant-pool operand.
    fn emit_op_with(&mut self, op: OpCode, operand: u8)
        requires
            old(self).inv(),
            has_operand(op),
            operand < old(self).compiling_chunk.constants.view().len(),
        ensures
            old(self).leads_to(final(self)),
            final(self).st() == old(self).st().op_with(op, operand as int),
            final(self).parser.had_error == old(self).parser.had_error,
            final(self).diagnostics == old(self).diagnostics,
    {
        let line = self.previous_line();
        proof {
            let two = seq![byte_of(op), operand];
            let n = self.compiling_chunk.constants.view().len();
            lemma_opcode_round_trip(op);
            assert(two.subrange(2, 2) =~= Seq::<u8>::empty());
            assert(valid_code(Seq::<u8>::empty(), n));
            assert(valid_code(two, n));
            lemma_valid_code_append(self.compiling_chunk.code@, two, n);
            assert(self.compiling_chunk.code@ + two =~= self.compiling_chunk.code@.push(
                byte_of(op),
            ).push(operand));
        }
        self.compiling_chunk.write(op.to_byte(), line);
        self.compiling_chunk.write(operand, line);
    }

    /// Adds a constant to the pool, reporting a full pool.
    fn make_constant(&mut self, value: Value) -> (r: Option<u8>)
        requires
            old(self).inv(),
        ensures
            old(self).leads_to(final(self)),
            old(self).follows(final(self), add_constant(old(self).st(), value.model())),
            r matches Some(i) ==> i < final(self).compiling_chunk.constants.view().len() && i
                == old(self).st().pool.len(),
            r is None ==> final(self).parser.had_error,
            final(self).pos == old(self).pos,
    {
        let ghost n = self.compiling_chunk.constants.view().len();
        let ghost old_pool = pool_of(&self.compiling_chunk);
        let ghost m = value.model();
        match self.compiling_chunk.add_constant(value) {
            Ok(i) => {
                proof {
                    lemma_valid_code_more_constants(self.compiling_chunk.code@, n, n + 1);
                    assert(pool_of(&self.compiling_chunk) =~= old_pool.push(m));
                }
                Some(i)
            },
            Err(_) => {
                self.error(CompileErrorKind::TooManyConstants);
                None
            },
        }
    }

    fn emit_constant(&mut self, value: Value)
        requires
            old(self).inv(),
        ensures
            old(self).leads_to(final(self)),
            old(self).follows(final(self), load_constant(old(self).st(), value.model())),
    {
        match self.make_constant(value) {
            Some(i) => self.emit_op_with(OpCode::Constant, i),
            None => {},
        }
    }

    /// A number literal: its value is the next of the supplied numbers.
    fn number(&mut self)
        requires
            old(self).inv(),
        ensures
            old(self).leads_to(final(self)),
            old(self).follows(final(self), number_code(old(self).numbers@, old(self).st())),
    {
        if self.next_number < self.numbers.len() {
            let bits = self.numbers[self.next_number];
            self.next_number = self.next_number + 1;
            self.emit_constant(Value::Number(bits));
        } else {
            self.error(CompileErrorKind::MissingNumberValue);
        }
    }

    /// A string literal: its lexeme without the surrounding quotes.
    fn string(&mut self, tok: usize)
        requires
            old(self).inv(),
            tok < old(self).tokens@.len(),
        ensures
            old(self).leads_to(final(self)),
            old(self).follows(
                final(self),
                load_constant(
                    old(self).st(),
                    ValueModel::Str(string_contents(old(self).tokens@[tok as int].lexeme@)),
                ),
            ),
    {
        let text = chars_of(&self.tokens[tok].lexeme);
        let contents = if text.len() >= 2 {
            copy_range(&text, 1, text.len() - 1)
        } else {
            Vec::new()
        };
        self.emit_constant(Value::from_string(string_from_chars(&contents)));
    }

    /// A global read, or, where assignment is allowed and `=` follows, a
    /// global assignment.
    fn variable(&mut self, tok: usize, can_assign: bool, depth: usize)
        requires
            old(self).inv(),
            depth > 0,
            tok < old(self).tokens@.len(),
            prefix_of(old(self).tokens@[tok as int].token_type) == ParseFn::Variable,
        ensures
            old(self).leads_to(final(self)),
            old(self).follows(
                final(self),
                prefix_code(
                    old(self).tokens@,
                    old(self).numbers@,
                    old(self).st(),
                    tok as int,
                    can_assign,
                    depth as int,
                ),
            ),
        decreases depth, 1int,
    {
        let name = self.tokens[tok].lexeme.clone();
        let arg = self.make_constant(Value::from_string(name));
        if can_assign && self.current_token_type_is(TokenType::Equal) {
            self.parse_precedence(Precedence::Assignment, depth - 1);
            match arg {
                Some(i) => self.emit_op_with(OpCode::SetGlobal, i),
                None => {},
            }
        } else {
            match arg {
                Some(i) => self.emit_op_with(OpCode::GetGlobal, i),
                None => {},
            }
        }
    }

    fn grouping(&mut self, tok: usize, depth: usize)
        requires
            old(self).inv(),
            depth > 0,
            tok < old(self).tokens@.len(),
            prefix_of(old(self).tokens@[tok as int].token_type) == ParseFn::Grouping,
        ensures
            old(self).leads_to(final(self)),
            old(self).follows(
                final(self),
                prefix_code(
                    old(self).tokens@,
                    old(self).numbers@,
                    old(self).st(),
                    tok as int,
                    false,
                    depth as int,
                ),
            ),
        decreases depth, 1int,
    {
        self.parse_precedence(Precedence::Assignment, depth - 1);
        self.consume(TokenType::RightParen, CompileErrorKind::ExpectRightParen);
    }

    fn unary(&mut self, tok: usize, depth: usize)
        requires
            old(self).inv(),
            depth > 0,
            tok < old(self).tokens@.len(),
            prefix_of(old(self).tokens@[tok as int].token_type) == ParseFn::Unary,
        ensures
            old(self).leads_to(final(self)),
            old(self).follows(
                final(self),
                prefix_code(
                    old(self).tokens@,
                    old(self).numbers@,
                    old(self).st(),
                    tok as int,
                    false,
                    depth as int,
                ),
            ),
        decreases depth, 1int,
    {
        let operator_type = self.tokens[tok].token_type;
        self.parse_precedence(Precedence::Unary, depth - 1);
        let op = if operator_type == TokenType::Minus {
            OpCode::Negate
        } else {
            OpCode::Not
        };
        self.emit_op(op);
    }

    /// The right operand of a binary operator, parsed one level tighter so
    /// that operators of equal precedence associate to the left, then the
    /// operator itself. The left operand is already on the stack.
    fn binary(&mut self, operator_type: TokenType, depth: usize)
        requires
            old(self).inv(),
            depth > 0,
            precedence_of(operator_type) != Precedence::Lowest,
        ensures
            old(self).leads_to(final(self)),
            old(self).follows(
                final(self),
                binary_code(
                    old(self).tokens@,
                    old(self).numbers@,
                    old(self).st(),
                    operator_type,
                    depth as int,
                ),
            ),
        decreases depth, 1int,
    {
        let rule = parse_rule(&operator_type);
        let operand_precedence = rule.precedence.next();
        self.parse_precedence(operand_precedence, depth - 1);
        let (first, second) = match operator_type {
            TokenType::Plus => (OpCode::Add, None),
            TokenType::Minus => (OpCode::Subtract, None),
            TokenType::Star => (OpCode::Multiply, None),
            TokenType::Slash => (OpCode::Divide, None),
            TokenType::BangEqual => (OpCode::Equal, Some(OpCode::Not)),
            TokenType::EqualEqual => (OpCode::Equal, None),
            TokenType::Greater => (OpCode::Greater, None),
            TokenType::GreaterEqual => (OpCode::Less, Some(OpCode::Not)),
            TokenType::Less => (OpCode::Less, None),
            _ => (OpCode::Greater, Some(OpCode::Not)),
        };
        self.emit_op(first);
        match second {
            Some(op) => self.emit_op(op),
            None => {},
        }
    }

    fn expression(&mut self, depth: usize)
        requires
            old(self).inv(),
        ensures
            old(self).leads_to(final(self)),
            old(self).follows(
                final(self),
                expression_code(old(self).tokens@, old(self).numbers@, old(self).st(), depth as int),
            ),
            old(self).current_type() != TokenType::Eof ==> final(self).pos > old(self).pos,
    {
        self.parse_precedence(Precedence::Assignment, depth);
    }

    /// Parses an expression whose operators bind at least as tightly as
    /// `precedence`: the prefix action of the next token, then every infix
    /// operator that binds tightly enough.
    fn parse_precedence(&mut self, precedence: Precedence, depth: usize)
        requires
            old(self).inv(),
            precedence.rank() >= 1,
        ensures
            old(self).leads_to(final(self)),
            old(self).follows(
                final(self),
                precedence_code(
                    old(self).tokens@,
                    old(self).numbers@,
                    old(self).st(),
                    precedence,
                    depth as int,
                ),
            ),
            old(self).current_type() != TokenType::Eof ==> final(self).pos > old(self).pos,
        decreases depth, 2int,
    {
        let tok = self.pos;
        let tt = self.tokens[tok].token_type;
        self.advance();
        if depth == 0 {
            self.error(CompileErrorKind::TooDeeplyNested);
            return;
        }
        let can_assign = precedence.level() <= 1;
        let prefix_rule = parse_rule(&tt);
        match prefix_rule.prefix {
            ParseFn::Number => self.number(),
            ParseFn::Literal => self.emit_op(literal_op_exec(tt)),
            ParseFn::String => self.string(tok),
            ParseFn::Variable => self.variable(tok, can_assign, depth),
            ParseFn::Unary => self.unary(tok, depth),
            ParseFn::Grouping => self.grouping(tok, depth),
            _ => {
                self.error(CompileErrorKind::ExpectExpression);
                return;
            },
        }
        let ghost s2 = *self;
        let ghost t = s2.tokens@;
        let ghost n = s2.numbers@;
        loop
            invariant_except_break
                old(self).leads_to(self),
                s2.leads_to(self),
                self.tokens@ == t,
                self.numbers@ == n,
                self.inv(),
                precedence.rank() >= 1,
                depth > 0,
                !s2.parser.had_error ==> s2.follows(self, Ok(self.st())) || self.parser.had_error,
                !s2.parser.had_error && !self.parser.had_error ==> infix_code(
                    t,
                    n,
                    self.st(),
                    precedence,
                    depth as int,
                )
                    == infix_code(t, n, s2.st(), precedence, depth as int),
                !s2.parser.had_error && self.parser.had_error ==> infix_code(
                    t,
                    n,
                    s2.st(),
                    precedence,
                    depth as int,
                )
                    == Err::<Emit, CompileErrorKind>(self.diagnostics@[0].kind),
            ensures
                old(self).leads_to(self),
                s2.leads_to(self),
                !s2.parser.had_error && !self.parser.had_error ==> infix_code(
                    t,
                    n,
                    s2.st(),
                    precedence,
                    depth as int,
                )
                    == Ok::<Emit, CompileErrorKind>(self.st()),
                !s2.parser.had_error && self.parser.had_error ==> infix_code(
                    t,
                    n,
                    s2.st(),
                    precedence,
                    depth as int,
                )
                    == Err::<Emit, CompileErrorKind>(self.diagnostics@[0].kind),
            decreases self.tokens@.len() - self.pos,
        {
            let op = self.current_type_exec();
            let rule = parse_rule(&op);
            if precedence.level() > rule.precedence.level() {
                assert(infix_code(t, n, self.st(), precedence, depth as int) == Ok::<
                    Emit,
                    CompileErrorKind,
                >(self.st()));
                break ;
            }
            let ghost before = *self;
            self.advance();
            let ghost after = *self;
            self.binary(op, depth);
            proof {
                assert(after.st() == before.st().at(before.pos + 1));
                if !before.parser.had_error {
                    assert(infix_code(t, n, before.st(), precedence, depth as int) == match binary_code(
                        t,
                        n,
                        before.st().at(before.pos + 1),
                        op,
                        depth as int,
                    ) {
                        Err(k) => Err(k),
                        Ok(s) => if before.pos < s.pos <= t.len() {
                            infix_code(t, n, s, precedence, depth as int)
                        } else {
                            Err(CompileErrorKind::ExpectExpression)
                        },
                    });
                }
            }
        }
        if can_assign && self.current_token_type_is(TokenType::Equal) {
            self.error(CompileErrorKind::InvalidAssignmentTarget);
        }
    }

    fn emit_return(&mut self)
        requires
            old(self).inv(),
        ensures
            old(self).leads_to(final(self)),
            final(self).st() == old(self).st().op(OpCode::Return),
            final(self).parser.had_error == old(self).parser.had_error,
            final(self).diagnostics == old(self).diagnostics,
    {
        self.emit_op(OpCode::Return);
    }

    /// Discards tokens up to a statement boundary: just after a `;`, or
    /// before a token that starts a declaration or statement, or at the end.
    fn synchronize(&mut self)
        requires
            old(self).inv(),
        ensures
            old(self).leads_to(final(self)),
            !final(self).parser.panic_mode,
            boundary(final(self).tokens@, final(self).pos as int),
            forall|i: int| old(self).pos <= i < final(self).pos ==> !boundary(old(self).tokens@, i),
            final(self).compiling_chunk == old(self).compiling_chunk,
            final(self).next_number == old(self).next_number,
            final(self).parser.had_error == old(self).parser.had_error,
            final(self).diagnostics == old(self).diagnostics,
    {
        self.parser.panic_mode = false;
        loop
            invariant
                old(self).pos <= self.pos,
                self.inv(),
                self.tokens == old(self).tokens,
                self.numbers == old(self).numbers,
                !self.parser.panic_mode,
                forall|i: int| old(self).pos <= i < self.pos ==> !boundary(old(self).tokens@, i),
                self.compiling_chunk == old(self).compiling_chunk,
                self.next_number == old(self).next_number,
                self.parser.had_error == old(self).parser.had_error,
                self.diagnostics == old(self).diagnostics,
            decreases self.tokens@.len() - self.pos,
        {
            if self.pos > 0 && self.tokens[self.pos - 1].token_type == TokenType::Semicolon {
                return;
            }
            match self.current_type_exec() {
                TokenType::Eof | TokenType::Class | TokenType::Fun | TokenType::Var
                | TokenType::For | TokenType::If | TokenType::While | TokenType::Print
                | TokenType::Return => return,
                _ => {},
            }
            self.advance();
        }
    }

    /// `var` name [`=` expression] `;`, the `var` already consumed.
    fn var_declaration(&mut self)
        requires
            old(self).inv(),
        ensures
            old(self).leads_to(final(self)),
            old(self).follows(final(self), var_code(old(self).tokens@, old(self).numbers@, old(self).st())),
    {
        let global = self.parse_variable();
        if self.current_token_type_is(TokenType::Equal) {
            self.expression(MAX_NESTING);
        } else {
            self.emit_op(OpCode::Nil);
        }
        self.consume(TokenType::Semicolon, CompileErrorKind::ExpectSemicolonAfterVariable);
        match global {
            Some(i) => self.define_variable(i),
            None => {},
        }
    }

    /// The name of a variable being declared, added to the constant pool.
    fn parse_variable(&mut self) -> (r: Option<u8>)
        requires
            old(self).inv(),
        ensures
            old(self).leads_to(final(self)),
            old(self).follows(
                final(self),
                if old(self).current_type() != TokenType::Identifier {
                    Err(CompileErrorKind::ExpectVariableName)
                } else {
                    add_constant(
                        old(self).st().at(old(self).pos + 1),
                        ValueModel::Str(old(self).tokens@[old(self).pos as int].lexeme@),
                    )
                },
            ),
            r matches Some(i) ==> i < final(self).compiling_chunk.constants.view().len() && i
                == old(self).st().pool.len(),
            r is None ==> final(self).parser.had_error,
    {
        if self.current_type_exec() != TokenType::Identifier {
            self.error_at_current(CompileErrorKind::ExpectVariableName);
            return None;
        }
        let tok = self.pos;
        self.advance();
        let name = self.tokens[tok].lexeme.clone();
        self.make_constant(Value::from_string(name))
    }

    fn define_variable(&mut self, global: u8)
        requires
            old(self).inv(),
            global < old(self).compiling_chunk.constants.view().len(),
        ensures
            old(self).leads_to(final(self)),
            final(self).st() == old(self).st().op_with(OpCode::DefineGlobal, global as int),
            final(self).parser.had_error == old(self).parser.had_error,
            final(self).diagnostics == old(self).diagnostics,
    {
        self.emit_op_with(OpCode::DefineGlobal, global);
    }

    /// One declaration; after an error, tokens are skipped to the next
    /// statement boundary.
    fn declaration(&mut self)
        requires
            old(self).inv(),
        ensures
            old(self).leads_to(final(self)),
            old(self).follows(
                final(self),
                declaration_code(old(self).tokens@, old(self).numbers@, old(self).st()),
            ),
            old(self).current_type() != TokenType::Eof ==> final(self).pos > old(self).pos,
    {
        if self.current_token_type_is(TokenType::Var) {
            self.var_declaration();
        } else {
            self.statement();
        }
        if self.parser.panic_mode {
            self.synchronize();
        }
    }

    fn statement(&mut self)
        requires
            old(self).inv(),
        ensures
            old(self).leads_to(final(self)),
            old(self).follows(
                final(self),
                statement_code(old(self).tokens@, old(self).numbers@, old(self).st()),
            ),
            old(self).current_type() != TokenType::Eof ==> final(self).pos > old(self).pos,
    {
        if self.current_token_type_is(TokenType::Print) {
            self.statement_tail(OpCode::Print);
        } else {
            self.statement_tail(OpCode::Pop);
        }
    }

    /// An expression, `;`, then `op`, which takes the value off the stack:
    /// the statement leaves the stack as deep as it found it.
    fn statement_tail(&mut self, op: OpCode)
        requires
            old(self).inv(),
            op == OpCode::Print || op == OpCode::Pop,
        ensures
            old(self).leads_to(final(self)),
            old(self).follows(
                final(self),
                statement_tail(old(self).tokens@, old(self).numbers@, old(self).st(), op),
            ),
            old(self).current_type() != TokenType::Eof ==> final(self).pos > old(self).pos,
    {
        self.expression(MAX_NESTING);
        self.consume(TokenType::Semicolon, CompileErrorKind::ExpectSemicolonAfterValue);
        self.emit_op(op);
    }

    /// The chunk, where no error was recorded; the diagnostics otherwise.
    fn finish(self) -> (r: Result<Chunk, Vec<Diagnostic>>)
        requires
            self.inv(),
        ensures
            !self.parser.had_error ==> (r matches Ok(c) && c.code@ == self.st().code && pool_of(&c)
                == self.st().pool && c.valid()),
            self.parser.had_error ==> (r matches Err(d) && d@ == self.diagnostics@),
    {
        if self.parser.had_error {
            Err(self.diagnostics)
        } else {
            Ok(self.compiling_chunk)
        }
    }
}

fn literal_op_exec(tt: TokenType) -> (r: OpCode)
    ensures
        r == literal_op(tt),
        !has_operand(r),
{
    if tt == TokenType::False {
        OpCode::False
    } else if tt == TokenType::Nil {
        OpCode::Nil
    } else {
        OpCode::True
    }
}

/// The tokens of a clean scan form a token stream.
proof fn lemma_clean_scan_is_stream(c: Seq<char>, lx: Lexing)
    requires
        lexed(c, lx),
        lx.clean(),
    ensures
        token_stream(lx.tokens()),
{
    let t = lx.tokens();
    let m = lx.items.len();
    assert(t.len() == m);
    assert(lx.items[m - 1] is Ok);
    assert forall|i: int| 0 <= i < t.len() - 1 implies #[trigger] t[i].token_type
        != TokenType::Eof by {
        assert(lx.items[i] is Ok);
        assert(!is_eof(lx.items[i]));
    }
}

/// `r` is what compiling a source whose scan is `lx` gives, where `e` is
/// what its tokens compile to: diagnostics where the scan failed, the
/// outcome `e` prescribes where it was clean.
pub open spec fn compiles_to(
    c: Seq<char>,
    lx: Lexing,
    r: &Result<Chunk, Vec<Diagnostic>>,
    e: Result<Emit, CompileErrorKind>,
) -> bool {
    &&& lexed(c, lx)
    &&& !lx.clean() ==> (r matches Err(d) && d@.len() > 0)
    &&& lx.clean() ==> delivers(r, e)
}

/// Compiles a stream of tokens, a program: exactly the code and constants
/// `program_code` gives, or, where it gives an error, diagnostics that
/// report that error first. `numbers` holds the values (as IEEE-754 bits)
/// of the number literals, in order.
pub fn compile_tokens(tokens: Vec<Token>, numbers: Vec<u64>) -> (r: Result<Chunk, Vec<Diagnostic>>)
    requires
        token_stream(tokens@),
    ensures
        delivers(&r, program_code(tokens@, numbers@)),
{
    let ghost t = tokens@;
    let ghost n = numbers@;
    let mut compiler = Compiler::new(tokens, numbers);
    let ghost s0 = compiler;
    while !compiler.current_token_type_is(TokenType::Eof)
        invariant
            compiler.inv(),
            compiler.tokens@ == t,
            compiler.numbers@ == n,
            !compiler.parser.had_error ==> declarations_code(t, n, compiler.st())
                == declarations_code(t, n, start()),
            compiler.parser.had_error ==> declarations_code(t, n, start()) == Err::<
                Emit,
                CompileErrorKind,
            >(compiler.diagnostics@[0].kind),
        decreases t.len() - compiler.pos,
    {
        let ghost before = compiler;
        compiler.declaration();
        proof {
            assert(before.current_type() != TokenType::Eof);
        }
    }
    compiler.emit_return();
    compiler.finish()
}

/// Compiles a program, a sequence of declarations, into a chunk that ends
/// with a return: the source is scanned whole, then its tokens compiled as
/// `compile_tokens` states. A source the scanner rejects anywhere yields
/// diagnostics and no chunk. `numbers` holds the values of the program's
/// number literals in source order, as `number_literals` lists them.
pub fn compile(source: String, numbers: Vec<u64>) -> (r: Result<Chunk, Vec<Diagnostic>>)
    requires
        source@.len() < usize::MAX,
    ensures
        exists|lx: Lexing| #[trigger] compiles_to(source@, lx, &r, program_code(lx.tokens(), numbers@)),
{
    let ghost c = source@;
    let ghost n = numbers@;
    let scanned = scan_all(source);
    let ghost lx = choose|lx: Lexing| scanned_as(c, lx, scanned);
    match scanned {
        Err(d) => {
            let r = Err(d);
            assert(compiles_to(c, lx, &r, program_code(lx.tokens(), n)));
            r
        },
        Ok(tokens) => {
            proof {
                lemma_clean_scan_is_stream(c, lx);
            }
            let r = compile_tokens(tokens, numbers);
            assert(compiles_to(c, lx, &r, program_code(lx.tokens(), n)));
            r
        },
    }
}

/// Compiles a single expression, which must make up the whole source, into
/// a chunk that evaluates it, leaves its value on the stack, and returns:
/// exactly what `whole_expression_code` gives for the source's tokens.
pub fn compile_expression(source: String, numbers: Vec<u64>) -> (r: Result<
    Chunk,
    Vec<Diagnostic>,
>)
    requires
        source@.len() < usize::MAX,
    ensures
        exists|lx: Lexing|
            #[trigger] compiles_to(source@, lx, &r, whole_expression_code(lx.tokens(), numbers@)),
{
    let ghost c = source@;
    let ghost n = numbers@;
    let scanned = scan_all(source);
    let ghost lx = choose|lx: Lexing| scanned_as(c, lx, scanned);
    match scanned {
        Err(d) => {
            let r = Err(d);
            assert(compiles_to(c, lx, &r, whole_expression_code(lx.tokens(), n)));
            r
        },
        Ok(tokens) => {
            proof {
                lemma_clean_scan_is_stream(c, lx);
            }
            let mut compiler = Compiler::new(tokens, numbers);
            compiler.expression(MAX_NESTING);
            compiler.consume(TokenType::Eof, CompileErrorKind::ExpectEndOfExpression);
            compiler.emit_return();
            let r = compiler.finish();
            assert(compiles_to(c, lx, &r, whole_expression_code(lx.tokens(), n)));
            r
        },
    }
}

/// The lexemes of the number tokens of `t`, in order.
pub open spec fn number_lexemes(t: Seq<Token>) -> Seq<Seq<char>>
    decreases t.len(),
{
    if t.len() == 0 {
        Seq::empty()
    } else {
        let rest = number_lexemes(t.drop_last());
        if t.last().token_type == TokenType::Number {
            rest.push(t.last().lexeme@)
        } else {
            rest
        }
    }
}

/// The lexemes of the number literals of `source`, in source order: the
/// texts whose values `compile` expects. A source the scanner rejects has
/// none.
pub fn number_literals(source: String) -> (r: Vec<String>)
    requires
        source@.len() < usize::MAX,
    ensures
        exists|lx: Lexing|
            #[trigger] lexed(source@, lx) && (lx.clean() ==> r@.map_values(|s: String| s@)
                == number_lexemes(lx.tokens())) && (!lx.clean() ==> r@.len() == 0),
{
    let ghost c = source@;
    let scanned = scan_all(source);
    let ghost lx = choose|lx: Lexing| scanned_as(c, lx, scanned);
    let mut found: Vec<String> = Vec::new();
    match scanned {
        Err(_) => {
            assert(lexed(c, lx) && (lx.clean() ==> found@.map_values(|s: String| s@)
                == number_lexemes(lx.tokens())) && (!lx.clean() ==> found@.len() == 0));
        },
        Ok(tokens) => {
            let ghost t = tokens@;
            let mut i: usize = 0;
            while i < tokens.len()
                invariant
                    i <= tokens@.len(),
                    tokens@ == t,
                    found@.map_values(|s: String| s@) == number_lexemes(t.subrange(0, i as int)),
                decreases tokens@.len() - i,
            {
                let ghost before = found@.map_values(|s: String| s@);
                if tokens[i].token_type == TokenType::Number {
                    found.push(tokens[i].lexeme.clone());
                    assert(found@.map_values(|s: String| s@) =~= before.push(t[i as int].lexeme@));
                }
                assert(t.subrange(0, i + 1).drop_last() =~= t.subrange(0, i as int));
                i += 1;
            }
            assert(t.subrange(0, t.len() as int) =~= t);
            assert(lexed(c, lx) && (lx.clean() ==> found@.map_values(|s: String| s@)
                == number_lexemes(lx.tokens())) && (!lx.clean() ==> found@.len() == 0));
        },
    }
    found
}

} // verus!
