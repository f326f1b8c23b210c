//! The error types of each stage: scanning, chunk decoding, value operations,
//! compilation and execution.
use vstd::prelude::*;

use crate::chunk::BinaryOp;
use crate::token::TokenType;

verus! {

/// Where in the source a lexical error was found: its line and the character
/// offset at which the offending token started.
#[derive(Clone, Copy, Debug, PartialEq, Eq, Structural)]
pub struct ErrorLoc {
    pub line: usize,
    pub at: usize,
}

/// A lexical error.
#[derive(Clone, Copy, Debug, PartialEq, Eq, Structural)]
pub enum ParseError {
    ExpectedToken(TokenType),
    UnterminatedString(ErrorLoc),
    UnexpectedCharacter(ErrorLoc),
    UnknownTokenType,
}

/// A byte stream that does not decode as an instruction.
#[derive(Clone, Copy, Debug, PartialEq, Eq, Structural)]
pub enum ChunkError {
    /// The byte at an instruction boundary names no opcode.
    UnknownOpCode(u8),
    /// An instruction that takes a one-byte operand ends the code.
    MissingOperand(usize),
    /// The constant pool already holds its maximum of entries.
    TooManyConstants,
}

/// A value operation applied to operands of the wrong kinds.
#[derive(Clone, Copy, Debug, PartialEq, Eq, Structural)]
pub enum EvaluationError {
    /// An ordering comparison on operands that are not both numbers.
    Comparision(BinaryOp),
    /// Negation of an operand that is not a number.
    Negation,
    /// Arithmetic on operands that are neither two numbers nor, for `+`,
    /// two strings.
    Arithmatic(BinaryOp),
}

/// A fault that aborts a run of the machine.
#[derive(Debug)]
pub enum RuntimeError {
    /// A global was read or assigned before it was defined.
    UndefinedVariable(String),
    /// An operator was applied to operands of the wrong kinds.
    Evaluation(EvaluationError),
    /// The code does not decode; the chunk is corrupt.
    Chunk(ChunkError),
    /// An instruction's constant operand does not name a usable constant;
    /// the chunk is corrupt.
    BadConstant(u8),
    /// An instruction found fewer operands on the stack than it needs.
    StackUnderflow,
    /// A push would take the stack past its maximum depth.
    StackOverflow,
    /// The instruction pointer ran past the end of the code.
    EndOfCode,
}

/// What a compile diagnostic reports.
#[derive(Clone, Copy, Debug, PartialEq, Eq, Structural)]
pub enum CompileErrorKind {
    ExpectExpression,
    ExpectSemicolonAfterValue,
    ExpectSemicolonAfterVariable,
    ExpectVariableName,
    ExpectRightParen,
    ExpectEndOfExpression,
    InvalidAssignmentTarget,
    TooManyConstants,
    TooDeeplyNested,
    UnterminatedString,
    UnexpectedCharacter,
    MissingNumberValue,
}

/// One compile diagnostic: the line, the offending lexeme (`None` at the end
/// of the input) and what went wrong.
#[derive(Debug)]
pub struct Diagnostic {
    pub line: usize,
    pub at: Option<String>,
    pub kind: CompileErrorKind,
}

} // verus!
