//! The stack machine. It runs a chunk against an operand stack and a table
//! of globals. Number arithmetic and number comparisons are doubles, which
//! the host computes: the machine hands such a step out and takes the
//! result back through `supply`. Printing is handed out the same way.
use vstd::prelude::*;

use crate::chunk::{
    binary_model, depth_after, falsey, has_operand, opcode_of, pops, pushes, width, BinaryOp, Chunk,
    Evaluation, EvaluationModel, ObjType, OpCode, Value, ValueModel, SIGN_BIT,
};
use crate::error::{ChunkError, EvaluationError, RuntimeError};

verus! {

/// The deepest the operand stack may grow.
pub const STACK_MAX: usize = 256;

/// One entry of the global table.
#[derive(Debug)]
pub struct Global {
    pub name: String,
    pub value: Value,
}

/// The global table that a sequence of entries stands for; a later entry
/// for a name takes precedence.
pub open spec fn table_of(g: Seq<Global>) -> Map<Seq<char>, Value>
    decreases g.len(),
{
    if g.len() == 0 {
        Map::empty()
    } else {
        table_of(g.drop_last()).insert(g.last().name@, g.last().value)
    }
}

/// No name has two entries.
pub open spec fn names_unique(g: Seq<Global>) -> bool {
    forall|i: int, j: int| 0 <= i < j < g.len() ==> #[trigger] g[i].name@ != #[trigger] g[j].name@
}

proof fn lemma_table_absent(g: Seq<Global>, k: Seq<char>)
    ensures
        table_of(g).contains_key(k) <==> exists|i: int| 0 <= i < g.len() && #[trigger] g[i].name@ == k,
    decreases g.len(),
{
    if g.len() > 0 {
        lemma_table_absent(g.drop_last(), k);
        if exists|i: int| 0 <= i < g.len() && #[trigger] g[i].name@ == k {
            let i = choose|i: int| 0 <= i < g.len() && #[trigger] g[i].name@ == k;
            if i < g.len() - 1 {
                assert(g.drop_last()[i].name@ == k);
            }
        }
        if exists|i: int| 0 <= i < g.drop_last().len() && #[trigger] g.drop_last()[i].name@ == k {
            let i = choose|i: int|
                0 <= i < g.drop_last().len() && #[trigger] g.drop_last()[i].name@ == k;
            assert(g[i].name@ == k);
        }
    }
}

proof fn lemma_table_at(g: Seq<Global>, i: int)
    requires
        names_unique(g),
        0 <= i < g.len(),
    ensures
        table_of(g).contains_key(g[i].name@),
        table_of(g)[g[i].name@] == g[i].value,
    decreases g.len(),
{
    if i < g.len() - 1 {
        lemma_table_at(g.drop_last(), i);
        assert(g.drop_last()[i] == g[i]);
    }
}

proof fn lemma_table_update(g: Seq<Global>, i: int, e: Global)
    requires
        names_unique(g),
        0 <= i < g.len(),
        e.name@ == g[i].name@,
    ensures
        table_of(g.update(i, e)) == table_of(g).insert(e.name@, e.value),
        names_unique(g.update(i, e)),
    decreases g.len(),
{
    let u = g.update(i, e);
    if i == g.len() - 1 {
        assert(u.drop_last() =~= g.drop_last());
        assert(table_of(u) =~= table_of(g).insert(e.name@, e.value));
    } else {
        lemma_table_update(g.drop_last(), i, e);
        assert(u.drop_last() =~= g.drop_last().update(i, e));
        assert(g[i].name@ != g.last().name@);
        assert(table_of(u) =~= table_of(g).insert(e.name@, e.value));
    }
}

/// What the machine hands to its host.
#[derive(Debug)]
pub enum Outcome {
    /// A return instruction ended the run.
    Finished,
    /// The value is to be printed, followed by a newline.
    Print(Value),
    /// Two numbers (IEEE-754 bits) popped for a binary operator: the host
    /// applies it to the doubles and passes the result (a number for
    /// arithmetic, a boolean for `Equal`, `Greater` and `Less`) to `supply`.
    Numbers(BinaryOp, u64, u64),
    /// The run is aborted.
    Fault(RuntimeError),
}

/// The operator of a binary-operator opcode.
pub open spec fn binary_op_of(op: OpCode) -> BinaryOp {
    match op {
        OpCode::Add => BinaryOp::Add,
        OpCode::Subtract => BinaryOp::Subtract,
        OpCode::Multiply => BinaryOp::Multiply,
        OpCode::Divide => BinaryOp::Divide,
        OpCode::Equal => BinaryOp::Equal,
        OpCode::Greater => BinaryOp::Greater,
        _ => BinaryOp::Less,
    }
}

pub open spec fn is_binary(op: OpCode) -> bool {
    op == OpCode::Add || op == OpCode::Subtract || op == OpCode::Multiply || op == OpCode::Divide
        || op == OpCode::Equal || op == OpCode::Greater || op == OpCode::Less
}

/// The machine: the chunk it runs, the instruction pointer, the operand
/// stack and the global table.
#[derive(Debug)]
pub struct VM {
    pub chunk: Chunk,
    pub ip: usize,
    pub stack: Vec<Value>,
    pub globals: Vec<Global>,
}

impl VM {
    pub open spec fn wf(&self) -> bool {
        &&& self.chunk.wf()
        &&& self.ip <= self.chunk.code@.len()
        &&& self.stack@.len() <= STACK_MAX
        &&& names_unique(self.globals@)
    }

    /// The global table.
    pub open spec fn table(&self) -> Map<Seq<char>, Value> {
        table_of(self.globals@)
    }

    /// `next` differs from this state by the instruction pointer moving
    /// `width` bytes and the stack becoming `stack`.
    pub open spec fn moved(&self, next: &VM, width: int, stack: Seq<Value>) -> bool {
        &&& next.chunk == self.chunk
        &&& next.ip == self.ip + width
        &&& next.stack@ == stack
        &&& next.table() == self.table()
    }

    /// The name a constant-pool entry holds, if it is a string.
    pub open spec fn name_at(&self, k: u8) -> Option<Seq<char>> {
        if k < self.chunk.constants.view().len() {
            match self.chunk.constants.view()[k as int].model() {
                ValueModel::Str(s) => Some(s),
                _ => None,
            }
        } else {
            None
        }
    }

    /// `next` is this state unchanged and `r` reports `e`.
    pub open spec fn faults(&self, next: &VM, r: Option<Outcome>, e: RuntimeError) -> bool {
        *next == *self && r == Some(Outcome::Fault(e))
    }

    /// One instruction: from this state the machine moves to `next`, and
    /// hands `r` to its host (`None` when the step needs nothing of it).
    /// A faulting step leaves the state as it was.
    pub open spec fn transition(&self, next: &VM, r: Option<Outcome>) -> bool {
        let code = self.chunk.code@;
        let s = self.stack@;
        let n = s.len();
        if self.ip >= code.len() {
            self.faults(next, r, RuntimeError::EndOfCode)
        } else {
            match opcode_of(code[self.ip as int]) {
                None => self.faults(
                    next,
                    r,
                    RuntimeError::Chunk(ChunkError::UnknownOpCode(code[self.ip as int])),
                ),
                Some(op) => if has_operand(op) && self.ip + 1 >= code.len() {
                    self.faults(next, r, RuntimeError::Chunk(ChunkError::MissingOperand(self.ip)))
                } else if op == OpCode::Return {
                    r == Some(Outcome::Finished) && self.moved(next, 1, s)
                } else if op == OpCode::Constant {
                    let k = code[self.ip + 1];
                    if k >= self.chunk.constants.view().len() {
                        self.faults(next, r, RuntimeError::BadConstant(k))
                    } else if n >= STACK_MAX {
                        self.faults(next, r, RuntimeError::StackOverflow)
                    } else {
                        r is None && self.moved(
                            next,
                            2,
                            s.push(self.chunk.constants.view()[k as int]),
                        )
                    }
                } else if op == OpCode::Nil || op == OpCode::True || op == OpCode::False {
                    if n >= STACK_MAX {
                        self.faults(next, r, RuntimeError::StackOverflow)
                    } else {
                        r is None && self.moved(
                            next,
                            1,
                            s.push(
                                if op == OpCode::Nil {
                                    Value::Nil
                                } else {
                                    Value::Bool(op == OpCode::True)
                                },
                            ),
                        )
                    }
                } else if op == OpCode::Negate {
                    if n == 0 {
                        self.faults(next, r, RuntimeError::StackUnderflow)
                    } else {
                        match s.last().model() {
                            ValueModel::Number(x) => r is None && self.moved(
                                next,
                                1,
                                s.drop_last().push(Value::Number(x ^ SIGN_BIT)),
                            ),
                            _ => self.faults(
                                next,
                                r,
                                RuntimeError::Evaluation(EvaluationError::Negation),
                            ),
                        }
                    }
                } else if op == OpCode::Not {
                    if n == 0 {
                        self.faults(next, r, RuntimeError::StackUnderflow)
                    } else {
                        r is None && self.moved(
                            next,
                            1,
                            s.drop_last().push(Value::Bool(falsey(s.last().model()))),
                        )
                    }
                } else if is_binary(op) {
                    if n < 2 {
                        self.faults(next, r, RuntimeError::StackUnderflow)
                    } else {
                        match binary_model(binary_op_of(op), s[n - 2].model(), s[n - 1].model()) {
                            EvaluationModel::Ready(m) => {
                                &&& r is None
                                &&& next.chunk == self.chunk
                                &&& next.ip == self.ip + 1
                                &&& next.table() == self.table()
                                &&& next.stack@.len() == n - 1
                                &&& next.stack@.subrange(0, n - 2) == s.subrange(0, n - 2)
                                &&& next.stack@[n - 2].model() == m
                            },
                            EvaluationModel::Numbers(x, y) => r == Some(
                                Outcome::Numbers(binary_op_of(op), x, y),
                            ) && self.moved(next, 1, s.subrange(0, n - 2)),
                            EvaluationModel::Failed(e) => self.faults(
                                next,
                                r,
                                RuntimeError::Evaluation(e),
                            ),
                        }
                    }
                } else if op == OpCode::Print {
                    if n == 0 {
                        self.faults(next, r, RuntimeError::StackUnderflow)
                    } else {
                        r == Some(Outcome::Print(s.last())) && self.moved(next, 1, s.drop_last())
                    }
                } else if op == OpCode::Pop {
                    if n == 0 {
                        self.faults(next, r, RuntimeError::StackUnderflow)
                    } else {
                        r is None && self.moved(next, 1, s.drop_last())
                    }
                } else {
                    // DefineGlobal, GetGlobal, SetGlobal
                    let k = code[self.ip + 1];
                    match self.name_at(k) {
                        None => self.faults(next, r, RuntimeError::BadConstant(k)),
                        Some(name) => if op == OpCode::DefineGlobal {
                            if n == 0 {
                                self.faults(next, r, RuntimeError::StackUnderflow)
                            } else {
                                &&& r is None
                                &&& next.chunk == self.chunk
                                &&& next.ip == self.ip + 2
                                &&& next.stack@ == s.drop_last()
                                &&& next.table() == self.table().insert(name, s.last())
                            }
                        } else if !self.table().contains_key(name) {
                            *next == *self && (r matches Some(
                                Outcome::Fault(RuntimeError::UndefinedVariable(x)),
                            ) && x@ == name)
                        } else if op == OpCode::GetGlobal {
                            if n >= STACK_MAX {
                                self.faults(next, r, RuntimeError::StackOverflow)
                            } else {
                                r is None && self.moved(next, 2, s.push(self.table()[name]))
                            }
                        } else {
                            if n == 0 {
                                self.faults(next, r, RuntimeError::StackUnderflow)
                            } else {
                                &&& r is None
                                &&& next.chunk == self.chunk
                                &&& next.ip == self.ip + 2
                                &&& next.stack@ == s
                                &&& next.table() == self.table().insert(name, s.last())
                            }
                        },
                    }
                },
            }
        }
    }

    /// A machine about to run `chunk` from its first byte, with an empty
    /// stack and no globals.
    pub fn new(chunk: Chunk) -> (r: VM)
        requires
            chunk.wf(),
        ensures
            r.wf(),
            r.chunk == chunk,
            r.ip == 0,
            r.stack@.len() == 0,
            r.table() == Map::<Seq<char>, Value>::empty(),
            depth_after(chunk.code@, 0) is Some ==> balanced(&r, 0),
    {
        assert(chunk.code@.subrange(0, chunk.code@.len() as int) =~= chunk.code@);
        VM { chunk, ip: 0, stack: Vec::new(), globals: Vec::new() }
    }

    /// Where the global `name` stands in the table, if it is there.
    fn find(&self, name: &String) -> (r: Option<usize>)
        requires
            self.wf(),
        ensures
            r matches Some(i) ==> i < self.globals@.len() && self.globals@[i as int].name@
                == name@,
            r is Some ==> self.table().contains_key(name@),
            r is None ==> !self.table().contains_key(name@),
    {
        let mut i: usize = 0;
        while i < self.globals.len()
            invariant
                i <= self.globals@.len(),
                forall|j: int| 0 <= j < i ==> #[trigger] self.globals@[j].name@ != name@,
            decreases self.globals@.len() - i,
        {
            if self.globals[i].name == *name {
                proof {
                    lemma_table_absent(self.globals@, name@);
                }
                return Some(i);
            }
            i += 1;
        }
        proof {
            lemma_table_absent(self.globals@, name@);
        }
        None
    }

    /// Binds `name` to `value`, overwriting an existing binding.
    fn bind(&mut self, name: String, value: Value)
        requires
            old(self).wf(),
        ensures
            final(self).wf(),
            final(self).chunk == old(self).chunk,
            final(self).ip == old(self).ip,
            final(self).stack == old(self).stack,
            final(self).table() == old(self).table().insert(name@, value),
    {
        match self.find(&name) {
            Some(i) => {
                let ghost g = self.globals@;
                let ghost e = Global { name, value };
                self.globals.set(i, Global { name, value });
                proof {
                    lemma_table_update(g, i as int, e);
                }
            },
            None => {
                let ghost g = self.globals@;
                proof {
                    lemma_table_absent(g, name@);
                }
                self.globals.push(Global { name, value });
                assert(self.globals@.drop_last() =~= g);
            },
        }
    }

    /// The value bound to the global `name`, if it is defined.
    pub fn global(&self, name: &String) -> (r: Option<Value>)
        requires
            self.wf(),
        ensures
            self.table().contains_key(name@) ==> r == Some(self.table()[name@]),
            !self.table().contains_key(name@) ==> r is None,
    {
        match self.find(name) {
            Some(i) => {
                proof {
                    lemma_table_at(self.globals@, i as int);
                }
                Some(self.globals[i].value.copy())
            },
            None => None,
        }
    }

    /// The name held by constant `k`, if it is a string.
    fn read_name(&self, k: u8) -> (r: Option<String>)
        requires
            self.wf(),
        ensures
            match self.name_at(k) {
                Some(s) => r matches Some(x) && x@ == s,
                None => r is None,
            },
    {
        if (k as usize) >= self.chunk.constants.len() {
            return None;
        }
        match self.chunk.constants.get(k as usize) {
            Value::Obj(o) => match &o.obj_type {
                ObjType::String(s) => Some(s.clone()),
            },
            _ => None,
        }
    }

    /// Executes one instruction.
    pub fn step(&mut self) -> (r: Option<Outcome>)
        requires
            old(self).wf(),
        ensures
            final(self).wf(),
            old(self).transition(final(self), r),
            final(self).chunk == old(self).chunk,
            r is None ==> final(self).ip > old(self).ip,
    {
        let ip = self.ip;
        if ip >= self.chunk.code.len() {
            return Some(Outcome::Fault(RuntimeError::EndOfCode));
        }
        let op = match OpCode::try_from(self.chunk.code[ip]) {
            Ok(op) => op,
            Err(e) => return Some(Outcome::Fault(RuntimeError::Chunk(e))),
        };
        if op.takes_operand() && ip >= self.chunk.code.len() - 1 {
            return Some(Outcome::Fault(RuntimeError::Chunk(ChunkError::MissingOperand(ip))));
        }
        let n = self.stack.len();
        match op {
            OpCode::Return => {
                self.ip = ip + 1;
                Some(Outcome::Finished)
            },
            OpCode::Constant => {
                let k = self.chunk.code[ip + 1];
                if (k as usize) >= self.chunk.constants.len() {
                    return Some(Outcome::Fault(RuntimeError::BadConstant(k)));
                }
                if n >= STACK_MAX {
                    return Some(Outcome::Fault(RuntimeError::StackOverflow));
                }
                let v = self.chunk.read_constant(k as usize);
                self.stack.push(v);
                self.ip = ip + 2;
                None
            },
            OpCode::Nil | OpCode::True | OpCode::False => {
                if n >= STACK_MAX {
                    return Some(Outcome::Fault(RuntimeError::StackOverflow));
                }
                let v = match op {
                    OpCode::Nil => Value::Nil,
                    OpCode::True => Value::Bool(true),
                    _ => Value::Bool(false),
                };
                self.stack.push(v);
                self.ip = ip + 1;
                None
            },
            OpCode::Negate => {
                if n == 0 {
                    return Some(Outcome::Fault(RuntimeError::StackUnderflow));
                }
                let v = match self.stack[n - 1].negate() {
                    Ok(v) => v,
                    Err(e) => return Some(Outcome::Fault(RuntimeError::Evaluation(e))),
                };
                self.stack.pop();
                self.stack.push(v);
                self.ip = ip + 1;
                None
            },
            OpCode::Not => {
                if n == 0 {
                    return Some(Outcome::Fault(RuntimeError::StackUnderflow));
                }
                let v = self.stack[n - 1].not();
                self.stack.pop();
                self.stack.push(v);
                self.ip = ip + 1;
                None
            },
            OpCode::Add | OpCode::Subtract | OpCode::Multiply | OpCode::Divide | OpCode::Equal
            | OpCode::Greater | OpCode::Less => {
                if n < 2 {
                    return Some(Outcome::Fault(RuntimeError::StackUnderflow));
                }
                let bop = match op {
                    OpCode::Add => BinaryOp::Add,
                    OpCode::Subtract => BinaryOp::Subtract,
                    OpCode::Multiply => BinaryOp::Multiply,
                    OpCode::Divide => BinaryOp::Divide,
                    OpCode::Equal => BinaryOp::Equal,
                    OpCode::Greater => BinaryOp::Greater,
                    _ => BinaryOp::Less,
                };
                let ev = Value::binary(bop, &self.stack[n - 2], &self.stack[n - 1]);
                match ev {
                    Evaluation::Failed(e) => Some(Outcome::Fault(RuntimeError::Evaluation(e))),
                    Evaluation::Numbers(x, y) => {
                        let ghost s = self.stack@;
                        self.stack.pop();
                        self.stack.pop();
                        assert(self.stack@ =~= s.subrange(0, n - 2));
                        self.ip = ip + 1;
                        Some(Outcome::Numbers(bop, x, y))
                    },
                    Evaluation::Ready(v) => {
                        let ghost s = self.stack@;
                        self.stack.pop();
                        self.stack.pop();
                        self.stack.push(v);
                        assert(self.stack@.subrange(0, n - 2) =~= s.subrange(0, n - 2));
                        self.ip = ip + 1;
                        None
                    },
                }
            },
            OpCode::Print | OpCode::Pop => {
                if n == 0 {
                    return Some(Outcome::Fault(RuntimeError::StackUnderflow));
                }
                let v = self.stack.pop().unwrap();
                self.ip = ip + 1;
                if op == OpCode::Print {
                    Some(Outcome::Print(v))
                } else {
                    None
                }
            },
            OpCode::DefineGlobal | OpCode::GetGlobal | OpCode::SetGlobal => {
                let k = self.chunk.code[ip + 1];
                let name = match self.read_name(k) {
                    Some(name) => name,
                    None => return Some(Outcome::Fault(RuntimeError::BadConstant(k))),
                };
                match op {
                    OpCode::DefineGlobal => {
                        if n == 0 {
                            return Some(Outcome::Fault(RuntimeError::StackUnderflow));
                        }
                        let v = self.stack.pop().unwrap();
                        self.bind(name, v);
                        self.ip = ip + 2;
                        None
                    },
                    OpCode::GetGlobal => {
                        match self.global(&name) {
                            None => Some(Outcome::Fault(RuntimeError::UndefinedVariable(name))),
                            Some(v) => {
                                if n >= STACK_MAX {
                                    return Some(Outcome::Fault(RuntimeError::StackOverflow));
                                }
                                self.stack.push(v);
                                self.ip = ip + 2;
                                None
                            },
                        }
                    },
                    _ => {
                        match self.find(&name) {
                            None => Some(Outcome::Fault(RuntimeError::UndefinedVariable(name))),
                            Some(_) => {
                                if n == 0 {
                                    return Some(Outcome::Fault(RuntimeError::StackUnderflow));
                                }
                                let v = self.stack[n - 1].copy();
                                self.bind(name, v);
                                self.ip = ip + 2;
                                None
                            },
                        }
                    },
                }
            },
        }
    }

    /// Runs instructions until one hands something to the host: the end of
    /// the run, a value to print, a pair of numbers to combine, or a fault.
    /// Every instruction before that one passes without output.
    pub fn run(&mut self) -> (r: Outcome)
        requires
            old(self).wf(),
        ensures
            final(self).wf(),
            exists|trace: Seq<VM>|
                {
                    &&& trace.len() >= 1
                    &&& trace[0] == *old(self)
                    &&& (forall|i: int|
                        0 <= i < trace.len() - 1 ==> #[trigger] trace[i].transition(
                            &trace[i + 1],
                            None,
                        ))
                    &&& trace.last().transition(final(self), Some(r))
                },
            balanced(old(self), 0) ==> !(r matches Outcome::Fault(RuntimeError::StackUnderflow))
                && !(r matches Outcome::Fault(RuntimeError::Chunk(_))),
            balanced(old(self), 0) && (r matches Outcome::Numbers(_, _, _)) ==> balanced(
                final(self),
                1,
            ),
            balanced(old(self), 0) && (r is Print || r is Finished) ==> balanced(final(self), 0),
    {
        let ghost mut trace: Seq<VM> = seq![*self];
        loop
            invariant
                self.wf(),
                trace.len() >= 1,
                trace[0] == *old(self),
                trace.last() == *self,
                balanced(old(self), 0) ==> balanced(self, 0),
                forall|i: int|
                    0 <= i < trace.len() - 1 ==> #[trigger] trace[i].transition(&trace[i + 1], None),
            decreases self.chunk.code@.len() - self.ip,
        {
            let ghost before = *self;
            match self.step() {
                Some(o) => {
                    assert(before.transition(self, Some(o)));
                    proof {
                        if balanced(old(self), 0) && before.ip < before.chunk.code@.len() {
                            lemma_balanced_step(before, *self, Some(o));
                        }
                    }
                    return o;
                },
                None => {
                    proof {
                        if balanced(old(self), 0) {
                            lemma_balanced_step(before, *self, None);
                        }
                        let t = trace.push(*self);
                        assert forall|i: int| 0 <= i < t.len() - 1 implies #[trigger] t[i].transition(
                            &t[i + 1],
                            None,
                        ) by {
                            if i < trace.len() - 1 {
                                assert(t[i] == trace[i] && t[i + 1] == trace[i + 1]);
                            }
                        }
                        trace = t;
                    }
                },
            }
        }
    }

    /// Pushes the value the host computed for a `Numbers` outcome.
    pub fn supply(&mut self, v: Value) -> (r: Result<(), RuntimeError>)
        requires
            old(self).wf(),
        ensures
            final(self).wf(),
            old(self).stack@.len() < STACK_MAX ==> r is Ok && old(self).moved(
                final(self),
                0,
                old(self).stack@.push(v),
            ),
            old(self).stack@.len() >= STACK_MAX ==> (r matches Err(RuntimeError::StackOverflow)
                && *final(self) == *old(self)),
            balanced(old(self), 1) && r is Ok ==> balanced(final(self), 0),
    {
        if self.stack.len() >= STACK_MAX {
            return Err(RuntimeError::StackOverflow);
        }
        self.stack.push(v);
        Ok(())
    }

    /// A copy of the value on top of the stack.
    pub fn peek(&self) -> (r: Option<Value>)
        ensures
            self.stack@.len() > 0 ==> r == Some(self.stack@.last()),
            self.stack@.len() == 0 ==> r is None,
    {
        let n = self.stack.len();
        if n == 0 {
            None
        } else {
            Some(self.stack[n - 1].copy())
        }
    }
}

/// Whether the code from the instruction pointer on runs straight through
/// from the current stack depth plus `extra` without finding too few
/// operands.
pub open spec fn balanced(vm: &VM, extra: int) -> bool {
    depth_after(
        vm.chunk.code@.subrange(vm.ip as int, vm.chunk.code@.len() as int),
        vm.stack@.len() + extra,
    ) is Some
}

/// On balanced code a step never
/// finds the stack short of operands nor the code undecodable, and the code
/// stays balanced: after a step that hands out two numbers, once the host
/// supplies their result.
pub proof fn lemma_balanced_step(vm: VM, next: VM, r: Option<Outcome>)
    requires
        vm.wf(),
        vm.ip < vm.chunk.code@.len(),
        balanced(&vm, 0),
        vm.transition(&next, r),
    ensures
        !(r matches Some(Outcome::Fault(RuntimeError::StackUnderflow))),
        !(r matches Some(Outcome::Fault(RuntimeError::Chunk(_)))),
        r matches Some(Outcome::Numbers(_, _, _)) ==> balanced(&next, 1),
        (r is None || (r matches Some(Outcome::Print(_))) || (r matches Some(Outcome::Finished)))
            ==> balanced(&next, 0),
{
    let code = vm.chunk.code@;
    let rest = code.subrange(vm.ip as int, code.len() as int);
    assert(rest[0] == code[vm.ip as int]);
    let op = opcode_of(code[vm.ip as int])->Some_0;
    let w = width(op);
    if has_operand(op) {
        assert(rest[1] == code[vm.ip + 1]);
    }
    assert(rest.subrange(w, rest.len() as int) =~= code.subrange(vm.ip + w, code.len() as int));
}

/// Reading or assigning a global that is not defined is a runtime error, and
/// the machine, its global table included, is left as it was.
pub proof fn lemma_undefined_global(vm: VM, next: VM, r: Option<Outcome>, name: Seq<char>)
    requires
        vm.wf(),
        vm.ip + 1 < vm.chunk.code@.len(),
        opcode_of(vm.chunk.code@[vm.ip as int]) == Some(OpCode::GetGlobal) || opcode_of(
            vm.chunk.code@[vm.ip as int],
        ) == Some(OpCode::SetGlobal),
        vm.name_at(vm.chunk.code@[vm.ip + 1]) == Some(name),
        !vm.table().contains_key(name),
        vm.transition(&next, r),
    ensures
        next == vm,
        next.table() == vm.table(),
        r matches Some(Outcome::Fault(RuntimeError::UndefinedVariable(x))) && x@ == name,
{
}

} // verus!
