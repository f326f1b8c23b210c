//! Bytecode chunks, their opcodes, and the runtime values they hold.
//!
//! A number is held as the bit pattern of an IEEE-754 double: arithmetic and
//! ordering on numbers are carried out by the host of the machine, while
//! every other operation on values is decided here.
use vstd::prelude::*;

use crate::error::{ChunkError, EvaluationError};

verus! {

/// The most constants one chunk can hold: an operand is a single byte.
pub const MAX_CONSTANTS: usize = 256;

/// The sign bit of a double.
pub const SIGN_BIT: u64 = 0x8000_0000_0000_0000;

/// A binary operator on values.
#[derive(Clone, Copy, Debug, PartialEq, Eq, Structural)]
pub enum BinaryOp {
    Add,
    Subtract,
    Multiply,
    Divide,
    Equal,
    Greater,
    Less,
}

/// The instruction set. Each opcode is one byte; `Constant`, `DefineGlobal`,
/// `GetGlobal` and `SetGlobal` are followed by a one-byte index into the
/// constant pool.
#[derive(Clone, Copy, Debug, PartialEq, Eq, Structural)]
pub enum OpCode {
    Return,
    Constant,
    Nil,
    True,
    False,
    Negate,
    Not,
    Add,
    Subtract,
    Multiply,
    Divide,
    Equal,
    Greater,
    Less,
    Print,
    Pop,
    DefineGlobal,
    GetGlobal,
    SetGlobal,
}

/// The byte that encodes an opcode.
pub open spec fn byte_of(op: OpCode) -> u8 {
    match op {
        OpCode::Return => 0,
        OpCode::Constant => 1,
        OpCode::Nil => 2,
        OpCode::True => 3,
        OpCode::False => 4,
        OpCode::Negate => 5,
        OpCode::Not => 6,
        OpCode::Add => 7,
        OpCode::Subtract => 8,
        OpCode::Multiply => 9,
        OpCode::Divide => 10,
        OpCode::Equal => 11,
        OpCode::Greater => 12,
        OpCode::Less => 13,
        OpCode::Print => 14,
        OpCode::Pop => 15,
        OpCode::DefineGlobal => 16,
        OpCode::GetGlobal => 17,
        OpCode::SetGlobal => 18,
    }
}

/// The opcode a byte encodes, if any.
pub open spec fn opcode_of(b: u8) -> Option<OpCode> {
    if b == 0 {
        Some(OpCode::Return)
    } else if b == 1 {
        Some(OpCode::Constant)
    } else if b == 2 {
        Some(OpCode::Nil)
    } else if b == 3 {
        Some(OpCode::True)
    } else if b == 4 {
        Some(OpCode::False)
    } else if b == 5 {
        Some(OpCode::Negate)
    } else if b == 6 {
        Some(OpCode::Not)
    } else if b == 7 {
        Some(OpCode::Add)
    } else if b == 8 {
        Some(OpCode::Subtract)
    } else if b == 9 {
        Some(OpCode::Multiply)
    } else if b == 10 {
        Some(OpCode::Divide)
    } else if b == 11 {
        Some(OpCode::Equal)
    } else if b == 12 {
        Some(OpCode::Greater)
    } else if b == 13 {
        Some(OpCode::Less)
    } else if b == 14 {
        Some(OpCode::Print)
    } else if b == 15 {
        Some(OpCode::Pop)
    } else if b == 16 {
        Some(OpCode::DefineGlobal)
    } else if b == 17 {
        Some(OpCode::GetGlobal)
    } else if b == 18 {
        Some(OpCode::SetGlobal)
    } else {
        None
    }
}

/// Whether the opcode is followed by a constant-pool index.
pub open spec fn has_operand(op: OpCode) -> bool {
    op == OpCode::Constant || op == OpCode::DefineGlobal || op == OpCode::GetGlobal || op
        == OpCode::SetGlobal
}

/// The encoding is exact: decoding the byte of an opcode gives it back.
pub proof fn lemma_opcode_round_trip(op: OpCode)
    ensures
        opcode_of(byte_of(op)) == Some(op),
{
}

impl OpCode {
    pub fn to_byte(self) -> (r: u8)
        ensures
            r == byte_of(self),
    {
        match self {
            OpCode::Return => 0,
            OpCode::Constant => 1,
            OpCode::Nil => 2,
            OpCode::True => 3,
            OpCode::False => 4,
            OpCode::Negate => 5,
            OpCode::Not => 6,
            OpCode::Add => 7,
            OpCode::Subtract => 8,
            OpCode::Multiply => 9,
            OpCode::Divide => 10,
            OpCode::Equal => 11,
            OpCode::Greater => 12,
            OpCode::Less => 13,
            OpCode::Print => 14,
            OpCode::Pop => 15,
            OpCode::DefineGlobal => 16,
            OpCode::GetGlobal => 17,
            OpCode::SetGlobal => 18,
        }
    }

    /// Decodes one byte; a byte that names no opcode is an error.
    pub fn try_from(value: u8) -> (r: Result<OpCode, ChunkError>)
        ensures
            r == match opcode_of(value) {
                Some(op) => Ok(op),
                None => Err(ChunkError::UnknownOpCode(value)),
            },
    {
        match value {
            0 => Ok(OpCode::Return),
            1 => Ok(OpCode::Constant),
            2 => Ok(OpCode::Nil),
            3 => Ok(OpCode::True),
            4 => Ok(OpCode::False),
            5 => Ok(OpCode::Negate),
            6 => Ok(OpCode::Not),
            7 => Ok(OpCode::Add),
            8 => Ok(OpCode::Subtract),
            9 => Ok(OpCode::Multiply),
            10 => Ok(OpCode::Divide),
            11 => Ok(OpCode::Equal),
            12 => Ok(OpCode::Greater),
            13 => Ok(OpCode::Less),
            14 => Ok(OpCode::Print),
            15 => Ok(OpCode::Pop),
            16 => Ok(OpCode::DefineGlobal),
            17 => Ok(OpCode::GetGlobal),
            18 => Ok(OpCode::SetGlobal),
            n => Err(ChunkError::UnknownOpCode(n)),
        }
    }

    pub fn takes_operand(self) -> (r: bool)
        ensures
            r == has_operand(self),
    {
        match self {
            OpCode::Constant | OpCode::DefineGlobal | OpCode::GetGlobal | OpCode::SetGlobal => true,
            _ => false,
        }
    }
}

/// The payload of a heap object.
#[derive(Debug)]
pub enum ObjType {
    String(String),
}

/// A heap object, owned by the value that holds it.
#[derive(Debug)]
pub struct Obj {
    pub obj_type: ObjType,
}

/// A runtime value. `Number` holds the bits of a double.
#[derive(Debug)]
pub enum Value {
    Nil,
    Bool(bool),
    Number(u64),
    Obj(Box<Obj>),
}

/// What a value is, with a string taken as its characters.
pub ghost enum ValueModel {
    Nil,
    Bool(bool),
    Number(u64),
    Str(Seq<char>),
}

/// The outcome of a binary operator: a value, a failure, or, where both
/// operands are numbers, the pair of doubles the host must combine.
#[derive(Debug)]
pub enum Evaluation {
    Ready(Value),
    Numbers(u64, u64),
    Failed(EvaluationError),
}

pub ghost enum EvaluationModel {
    Ready(ValueModel),
    Numbers(u64, u64),
    Failed(EvaluationError),
}

/// Nil and `false` are falsy; every other value, zero and the empty string
/// included, is truthy.
pub open spec fn falsey(v: ValueModel) -> bool {
    v == ValueModel::Nil || v == ValueModel::Bool(false)
}

/// What a binary operator gives on two values. Only two numbers, or for `+`
/// two strings, can be combined arithmetically; only numbers can be
/// ordered; equality is defined on every pair, and values of different
/// kinds are simply unequal.
pub open spec fn binary_model(op: BinaryOp, a: ValueModel, b: ValueModel) -> EvaluationModel {
    match (a, b) {
        (ValueModel::Number(x), ValueModel::Number(y)) => EvaluationModel::Numbers(x, y),
        (ValueModel::Str(x), ValueModel::Str(y)) => match op {
            BinaryOp::Add => EvaluationModel::Ready(ValueModel::Str(x + y)),
            BinaryOp::Equal => EvaluationModel::Ready(ValueModel::Bool(x == y)),
            BinaryOp::Greater | BinaryOp::Less => EvaluationModel::Failed(
                EvaluationError::Comparision(op),
            ),
            _ => EvaluationModel::Failed(EvaluationError::Arithmatic(op)),
        },
        _ => match op {
            BinaryOp::Equal => EvaluationModel::Ready(ValueModel::Bool(a == b)),
            BinaryOp::Greater | BinaryOp::Less => EvaluationModel::Failed(
                EvaluationError::Comparision(op),
            ),
            _ => EvaluationModel::Failed(EvaluationError::Arithmatic(op)),
        },
    }
}

impl Evaluation {
    pub open spec fn model(&self) -> EvaluationModel {
        match self {
            Evaluation::Ready(v) => EvaluationModel::Ready(v.model()),
            Evaluation::Numbers(x, y) => EvaluationModel::Numbers(*x, *y),
            Evaluation::Failed(e) => EvaluationModel::Failed(*e),
        }
    }
}

impl Value {
    pub open spec fn model(&self) -> ValueModel {
        match self {
            Value::Nil => ValueModel::Nil,
            Value::Bool(b) => ValueModel::Bool(*b),
            Value::Number(n) => ValueModel::Number(*n),
            Value::Obj(o) => match o.obj_type {
                ObjType::String(s) => ValueModel::Str(s@),
            },
        }
    }

    /// A string value holding `s`.
    pub fn from_string(s: String) -> (r: Value)
        ensures
            r.model() == ValueModel::Str(s@),
    {
        Value::Obj(Box::new(Obj { obj_type: ObjType::String(s) }))
    }

    /// An independent copy of this value.
    pub fn copy(&self) -> (r: Value)
        ensures
            r == *self,
    {
        match self {
            Value::Nil => Value::Nil,
            Value::Bool(b) => Value::Bool(*b),
            Value::Number(n) => Value::Number(*n),
            Value::Obj(o) => match &o.obj_type {
                ObjType::String(s) => Value::Obj(
                    Box::new(Obj { obj_type: ObjType::String(s.clone()) }),
                ),
            },
        }
    }

    pub fn is_falsey(&self) -> (r: bool)
        ensures
            r == falsey(self.model()),
    {
        match self {
            Value::Nil => true,
            Value::Bool(v) => !*v,
            _ => false,
        }
    }

    /// Logical negation of truthiness.
    pub fn not(&self) -> (r: Value)
        ensures
            r.model() == ValueModel::Bool(falsey(self.model())),
    {
        Value::Bool(self.is_falsey())
    }

    /// Arithmetic negation: a number has its sign flipped, which is exactly
    /// IEEE-754 negation; any other value is an error.
    pub fn negate(&self) -> (r: Result<Value, EvaluationError>)
        ensures
            match self.model() {
                ValueModel::Number(n) => r matches Ok(v) && v.model() == ValueModel::Number(
                    n ^ SIGN_BIT,
                ),
                _ => r == Err::<Value, EvaluationError>(EvaluationError::Negation),
            },
    {
        match self {
            Value::Number(n) => Ok(Value::Number(*n ^ SIGN_BIT)),
            _ => Err(EvaluationError::Negation),
        }
    }

    /// Applies a binary operator to `a` and `b`, as far as it can be decided
    /// without floating-point arithmetic.
    pub fn binary(op: BinaryOp, a: &Value, b: &Value) -> (r: Evaluation)
        ensures
            r.model() == binary_model(op, a.model(), b.model()),
    {
        match (a, b) {
            (Value::Number(x), Value::Number(y)) => Evaluation::Numbers(*x, *y),
            (Value::Obj(x), Value::Obj(y)) => match (&x.obj_type, &y.obj_type) {
                (ObjType::String(s), ObjType::String(t)) => match op {
                    BinaryOp::Add => {
                        let joined = s.clone().concat(t.as_str());
                        Evaluation::Ready(Value::from_string(joined))
                    },
                    BinaryOp::Equal => Evaluation::Ready(Value::Bool(*s == *t)),
                    BinaryOp::Greater | BinaryOp::Less => Evaluation::Failed(
                        EvaluationError::Comparision(op),
                    ),
                    _ => Evaluation::Failed(EvaluationError::Arithmatic(op)),
                },
            },
            _ => match op {
                BinaryOp::Equal => {
                    let same = match (a, b) {
                        (Value::Nil, Value::Nil) => true,
                        (Value::Bool(x), Value::Bool(y)) => *x == *y,
                        _ => false,
                    };
                    Evaluation::Ready(Value::Bool(same))
                },
                BinaryOp::Greater | BinaryOp::Less => Evaluation::Failed(
                    EvaluationError::Comparision(op),
                ),
                _ => Evaluation::Failed(EvaluationError::Arithmatic(op)),
            },
        }
    }
}

/// An append-only array of at most `MAX_CONSTANTS` entries.
#[derive(Debug)]
pub struct Array<T> {
    pub values: Vec<T>,
}

impl<T> Array<T> {
    pub open spec fn view(&self) -> Seq<T> {
        self.values@
    }

    pub fn new() -> (r: Array<T>)
        ensures
            r.view() == Seq::<T>::empty(),
    {
        Array { values: Vec::new() }
    }

    /// Appends `value`; the array must not be full.
    pub fn write(&mut self, value: T)
        requires
            old(self).view().len() < MAX_CONSTANTS,
        ensures
            final(self).view() == old(self).view().push(value),
    {
        self.values.push(value);
    }

    pub fn len(&self) -> (r: usize)
        ensures
            r == self.view().len(),
    {
        self.values.len()
    }

    pub fn get(&self, i: usize) -> (r: &T)
        requires
            i < self.view().len(),
        ensures
            *r == self.view()[i as int],
    {
        &self.values[i]
    }
}

/// Whether `code` is a whole sequence of instructions: every opcode byte
/// decodes, and every operand is present and indexes one of the `n`
/// constants.
pub open spec fn valid_code(code: Seq<u8>, n: nat) -> bool
    decreases code.len(),
{
    if code.len() == 0 {
        true
    } else {
        match opcode_of(code[0]) {
            None => false,
            Some(op) => if has_operand(op) {
                code.len() >= 2 && code[1] < n && valid_code(code.subrange(2, code.len() as int), n)
            } else {
                valid_code(code.subrange(1, code.len() as int), n)
            },
        }
    }
}

/// Two instruction sequences laid end to end form one.
pub proof fn lemma_valid_code_append(a: Seq<u8>, b: Seq<u8>, n: nat)
    requires
        valid_code(a, n),
        valid_code(b, n),
    ensures
        valid_code(a + b, n),
    decreases a.len(),
{
    if a.len() == 0 {
        assert(a + b =~= b);
    } else {
        let op = opcode_of(a[0])->Some_0;
        let w: int = if has_operand(op) { 2 } else { 1 };
        lemma_valid_code_append(a.subrange(w, a.len() as int), b, n);
        assert((a + b).subrange(w, (a + b).len() as int) =~= a.subrange(w, a.len() as int) + b);
        assert((a + b)[0] == a[0]);
        if w == 2 {
            assert((a + b)[1] == a[1]);
        }
    }
}

/// A sequence of instructions stays valid when the pool grows.
pub proof fn lemma_valid_code_more_constants(code: Seq<u8>, n: nat, m: nat)
    requires
        valid_code(code, n),
        n <= m,
    ensures
        valid_code(code, m),
    decreases code.len(),
{
    if code.len() > 0 {
        let op = opcode_of(code[0])->Some_0;
        let w: int = if has_operand(op) { 2 } else { 1 };
        lemma_valid_code_more_constants(code.subrange(w, code.len() as int), n, m);
    }
}

/// The width in bytes of an instruction with opcode `op`.
pub open spec fn width(op: OpCode) -> int {
    if has_operand(op) {
        2
    } else {
        1
    }
}

/// Walking a valid instruction sequence never gets stuck: at every
/// instruction boundary short of the end the opcode decodes, its operand is
/// present, and the next boundary lies strictly further on, within the code,
/// with a valid sequence again from there.
pub proof fn lemma_disassembly_advances(code: Seq<u8>, n: nat, offset: int)
    requires
        0 <= offset < code.len(),
        valid_code(code.subrange(offset, code.len() as int), n),
    ensures
        opcode_of(code[offset]) is Some,
        offset < offset + width(opcode_of(code[offset])->Some_0) <= code.len(),
        valid_code(
            code.subrange(offset + width(opcode_of(code[offset])->Some_0), code.len() as int),
            n,
        ),
{
    let rest = code.subrange(offset, code.len() as int);
    assert(rest[0] == code[offset]);
    let w = width(opcode_of(code[offset])->Some_0);
    assert(rest.subrange(w, rest.len() as int) =~= code.subrange(offset + w, code.len() as int));
}

/// How many operands an instruction takes off the stack.
pub open spec fn pops(op: OpCode) -> int {
    match op {
        OpCode::Negate | OpCode::Not | OpCode::Print | OpCode::Pop | OpCode::DefineGlobal
        | OpCode::SetGlobal => 1,
        OpCode::Add | OpCode::Subtract | OpCode::Multiply | OpCode::Divide | OpCode::Equal
        | OpCode::Greater | OpCode::Less => 2,
        _ => 0,
    }
}

/// How many values an instruction leaves on the stack in their place.
pub open spec fn pushes(op: OpCode) -> int {
    match op {
        OpCode::Return | OpCode::Print | OpCode::Pop | OpCode::DefineGlobal => 0,
        _ => 1,
    }
}

/// The depth of the operand stack after `code` runs straight through from
/// depth `d`; `None` where the code does not decode or an instruction would
/// find fewer operands than it takes.
pub open spec fn depth_after(code: Seq<u8>, d: int) -> Option<int>
    decreases code.len(),
{
    if code.len() == 0 {
        Some(d)
    } else {
        match opcode_of(code[0]) {
            None => None,
            Some(op) => if code.len() < width(op) || d < pops(op) {
                None
            } else {
                depth_after(code.subrange(width(op), code.len() as int), d - pops(op) + pushes(op))
            },
        }
    }
}

/// One decoded instruction, as the disassembler lists it: where it starts,
/// its source line (and whether that is the line of the byte before it),
/// its opcode and operand, and where the next instruction starts.
#[derive(Clone, Copy, Debug, PartialEq, Eq, Structural)]
pub struct Instruction {
    pub offset: usize,
    pub line: usize,
    pub same_line: bool,
    pub op: OpCode,
    pub operand: Option<u8>,
    pub next: usize,
}

/// A compiled unit: bytecode, the source line of each byte, and the
/// constant pool.
#[derive(Debug)]
pub struct Chunk {
    pub code: Vec<u8>,
    pub constants: Array<Value>,
    pub lines: Vec<usize>,
}

/// `i` is the decoding of the instruction that starts at `i.offset`: its
/// opcode, its operand, its source line, whether that is the line of the
/// byte before it, and where the next instruction starts.
pub open spec fn decodes_to(c: &Chunk, i: Instruction) -> bool {
    let code = c.code@;
    let o = i.offset as int;
    &&& 0 <= o < code.len()
    &&& opcode_of(code[o]) == Some(i.op)
    &&& i.line == c.lines@[o]
    &&& i.same_line == (o > 0 && c.lines@[o] == c.lines@[o - 1])
    &&& if has_operand(i.op) {
        o + 1 < code.len() && i.operand == Some(code[o + 1]) && i.next == o + 2
    } else {
        i.operand is None && i.next == o + 1
    }
}

impl Chunk {
    pub open spec fn wf(&self) -> bool {
        &&& self.code@.len() == self.lines@.len()
        &&& self.constants.view().len() <= MAX_CONSTANTS
    }

    /// Whether the code is a whole, well-formed instruction sequence over
    /// this chunk's constants.
    pub open spec fn valid(&self) -> bool {
        &&& self.wf()
        &&& valid_code(self.code@, self.constants.view().len())
    }

    pub fn new() -> (r: Chunk)
        ensures
            r.valid(),
            r.code@.len() == 0,
            r.constants.view().len() == 0,
    {
        Chunk { code: Vec::new(), constants: Array::new(), lines: Vec::new() }
    }

    /// Appends one byte, tagged with its source line.
    pub fn write(&mut self, byte: u8, line: usize)
        requires
            old(self).wf(),
        ensures
            final(self).wf(),
            final(self).code@ == old(self).code@.push(byte),
            final(self).lines@ == old(self).lines@.push(line),
            final(self).constants == old(self).constants,
    {
        self.code.push(byte);
        self.lines.push(line);
    }

    /// Adds a constant and returns its index; a full pool is an error.
    pub fn add_constant(&mut self, value: Value) -> (r: Result<u8, ChunkError>)
        requires
            old(self).wf(),
        ensures
            final(self).wf(),
            final(self).code == old(self).code,
            final(self).lines == old(self).lines,
            old(self).constants.view().len() == MAX_CONSTANTS ==> r == Err::<u8, ChunkError>(
                ChunkError::TooManyConstants,
            ) && final(self).constants == old(self).constants,
            old(self).constants.view().len() < MAX_CONSTANTS ==> r == Ok::<u8, ChunkError>(
                old(self).constants.view().len() as u8,
            ) && final(self).constants.view() == old(self).constants.view().push(value),
    {
        if self.constants.len() >= MAX_CONSTANTS {
            return Err(ChunkError::TooManyConstants);
        }
        self.constants.write(value);
        Ok((self.constants.len() - 1) as u8)
    }

    /// A copy of the constant at `loc`.
    pub fn read_constant(&self, loc: usize) -> (r: Value)
        requires
            loc < self.constants.view().len(),
        ensures
            r == self.constants.view()[loc as int],
    {
        self.constants.get(loc).copy()
    }

    /// Decodes the instruction that starts at `offset`.
    pub fn disassemble_instruction(&self, offset: usize) -> (r: Result<Instruction, ChunkError>)
        requires
            self.wf(),
            offset < self.code@.len(),
        ensures
            match opcode_of(self.code@[offset as int]) {
                None => r == Err::<Instruction, ChunkError>(
                    ChunkError::UnknownOpCode(self.code@[offset as int]),
                ),
                Some(op) => if has_operand(op) && offset + 1 >= self.code@.len() {
                    r == Err::<Instruction, ChunkError>(ChunkError::MissingOperand(offset))
                } else {
                    r matches Ok(i) && i.op == op && i.offset == offset && i.line
                        == self.lines@[offset as int] && i.same_line == (offset > 0
                        && self.lines@[offset as int] == self.lines@[offset - 1]) && if has_operand(
                        op,
                    ) {
                        i.operand == Some(self.code@[offset + 1]) && i.next == offset + 2
                    } else {
                        i.operand is None && i.next == offset + 1
                    }
                },
            },
    {
        let op = match OpCode::try_from(self.code[offset]) {
            Ok(op) => op,
            Err(e) => return Err(e),
        };
        let len = self.code.len();
        let line = self.lines[offset];
        let same_line = offset > 0 && line == self.lines[offset - 1];
        if op.takes_operand() {
            if offset >= len - 1 {
                return Err(ChunkError::MissingOperand(offset));
            }
            Ok(
                Instruction {
                    offset,
                    line,
                    same_line,
                    op,
                    operand: Some(self.code[offset + 1]),
                    next: offset + 2,
                },
            )
        } else {
            Ok(Instruction { offset, line, same_line, op, operand: None, next: offset + 1 })
        }
    }

    /// Decodes the whole code, instruction after instruction. On a valid
    /// chunk this never fails, and the offsets rise strictly from 0 to the
    /// length of the code.
    pub fn disassemble(&self) -> (r: Result<Vec<Instruction>, ChunkError>)
        requires
            self.wf(),
        ensures
            self.valid() ==> r is Ok,
            r matches Ok(v) ==> {
                &&& (v@.len() == 0 <==> self.code@.len() == 0)
                &&& v@.len() > 0 ==> v@[0].offset == 0 && v@.last().next == self.code@.len()
                &&& forall|i: int| 0 <= i < v@.len() ==> v@[i].offset < #[trigger] v@[i].next
                    <= self.code@.len()
                &&& forall|i: int| 0 <= i < v@.len() ==> decodes_to(self, #[trigger] v@[i])
                &&& forall|i: int| 0 <= i < v@.len() - 1 ==> #[trigger] v@[i].next == v@[i
                    + 1].offset
            },
    {
        let mut v: Vec<Instruction> = Vec::new();
        let mut offset: usize = 0;
        let ghost n = self.constants.view().len();
        assert(self.code@.subrange(0, self.code@.len() as int) =~= self.code@);
        while offset < self.code.len()
            invariant
                self.wf(),
                offset <= self.code@.len(),
                self.valid() ==> valid_code(self.code@.subrange(offset as int, self.code@.len() as int), n),
                n == self.constants.view().len(),
                v@.len() == 0 <==> offset == 0,
                v@.len() > 0 ==> v@[0].offset == 0 && v@.last().next == offset,
                forall|i: int| 0 <= i < v@.len() ==> v@[i].offset < #[trigger] v@[i].next <= offset,
                forall|i: int| 0 <= i < v@.len() ==> decodes_to(self, #[trigger] v@[i]),
                forall|i: int| 0 <= i < v@.len() - 1 ==> #[trigger] v@[i].next == v@[i + 1].offset,
            decreases self.code@.len() - offset,
        {
            let ghost rest = self.code@.subrange(offset as int, self.code@.len() as int);
            assert(rest[0] == self.code@[offset as int]);
            let ins = match self.disassemble_instruction(offset) {
                Ok(ins) => ins,
                Err(e) => return Err(e),
            };
            proof {
                if self.valid() {
                    if has_operand(ins.op) {
                        assert(rest.subrange(2, rest.len() as int) =~= self.code@.subrange(
                            offset + 2,
                            self.code@.len() as int,
                        ));
                    } else {
                        assert(rest.subrange(1, rest.len() as int) =~= self.code@.subrange(
                            offset + 1,
                            self.code@.len() as int,
                        ));
                    }
                }
            }
            v.push(ins);
            offset = ins.next;
        }
        Ok(v)
    }
}

} // verus!
