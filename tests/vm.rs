use lox::chunk::{BinaryOp, Chunk, ObjType, Value};
use lox::compiler::{compile, compile_expression, number_literals};
use lox::error::{EvaluationError, RuntimeError};
use lox::vm::{Outcome, VM};

fn numbers(src: &str) -> Vec<u64> {
    number_literals(src.to_string())
        .iter()
        .map(|s| s.parse::<f64>().unwrap().to_bits())
        .collect()
}

fn combine(op: BinaryOp, a: u64, b: u64) -> Value {
    let (x, y) = (f64::from_bits(a), f64::from_bits(b));
    match op {
        BinaryOp::Add => Value::Number((x + y).to_bits()),
        BinaryOp::Subtract => Value::Number((x - y).to_bits()),
        BinaryOp::Multiply => Value::Number((x * y).to_bits()),
        BinaryOp::Divide => Value::Number((x / y).to_bits()),
        BinaryOp::Equal => Value::Bool(x == y),
        BinaryOp::Greater => Value::Bool(x > y),
        BinaryOp::Less => Value::Bool(x < y),
    }
}

fn show(v: &Value) -> String {
    match v {
        Value::Nil => "nil".to_string(),
        Value::Bool(b) => b.to_string(),
        Value::Number(bits) => f64::from_bits(*bits).to_string(),
        Value::Obj(o) => match &o.obj_type {
            ObjType::String(s) => s.clone(),
        },
    }
}

/// Runs the machine to its end, acting as its host; returns the printed
/// text and the fault, if any.
fn drive(vm: &mut VM) -> (String, Option<RuntimeError>) {
    let mut out = String::new();
    loop {
        match vm.run() {
            Outcome::Finished => return (out, None),
            Outcome::Print(v) => {
                out.push_str(&show(&v));
                out.push('\n');
            }
            Outcome::Numbers(op, a, b) => vm.supply(combine(op, a, b)).unwrap(),
            Outcome::Fault(e) => return (out, Some(e)),
        }
    }
}

fn program(src: &str) -> VM {
    VM::new(compile(src.to_string(), numbers(src)).unwrap())
}

fn evaluate(src: &str) -> Result<Value, RuntimeError> {
    let chunk: Chunk = compile_expression(src.to_string(), numbers(src)).unwrap();
    let mut vm = VM::new(chunk);
    match drive(&mut vm) {
        (_, Some(e)) => Err(e),
        (_, None) => Ok(vm.peek().unwrap()),
    }
}

fn number(v: Result<Value, RuntimeError>) -> f64 {
    match v {
        Ok(Value::Number(bits)) => f64::from_bits(bits),
        other => panic!("not a number: {:?}", other),
    }
}

fn boolean(v: Result<Value, RuntimeError>) -> bool {
    match v {
        Ok(Value::Bool(b)) => b,
        other => panic!("not a boolean: {:?}", other),
    }
}

#[test]
fn arithmetic_follows_precedence() {
    assert_eq!(7.0, number(evaluate("1 + 2 * 3")));
    assert_eq!(7.0, number(evaluate("(-1 + 2) * 3 - -4")));
    assert_eq!(-3.0, number(evaluate("1 - 2 - 2")));
    assert_eq!(2.0, number(evaluate("8 / 2 / 2")));
    assert_eq!(0.1 + 0.2, number(evaluate("0.1 + 0.2")));
}

#[test]
fn division_by_zero_is_infinite() {
    assert_eq!(f64::INFINITY, number(evaluate("1 / 0")));
    assert!(number(evaluate("0 / 0")).is_nan());
}

#[test]
fn globals_update_and_print() {
    let mut vm = program("var a = 1; a = a + 1; print a;");
    let (out, fault) = drive(&mut vm);
    assert!(fault.is_none());
    assert_eq!("2\n", out);
    match vm.global(&"a".to_string()) {
        Some(Value::Number(bits)) => assert_eq!(2.0, f64::from_bits(bits)),
        other => panic!("unexpected {:?}", other),
    }
    assert!(vm.stack.is_empty());
}

#[test]
fn reading_undefined_global_faults() {
    let mut vm = program("print b;");
    let (out, fault) = drive(&mut vm);
    assert_eq!("", out);
    assert!(matches!(fault, Some(RuntimeError::UndefinedVariable(ref n)) if n == "b"));
}

#[test]
fn assigning_undefined_global_faults_and_keeps_table() {
    let mut vm = program("var a = 1; b = 2;");
    let (_, fault) = drive(&mut vm);
    assert!(matches!(fault, Some(RuntimeError::UndefinedVariable(ref n)) if n == "b"));
    assert!(vm.global(&"b".to_string()).is_none());
    assert_eq!(1, vm.globals.len());
}

#[test]
fn redefinition_overwrites() {
    let mut vm = program("var a = 1; var a = \"x\"; print a;");
    let (out, fault) = drive(&mut vm);
    assert!(fault.is_none());
    assert_eq!("x\n", out);
    assert_eq!(1, vm.globals.len());
}

#[test]
fn assignment_is_an_expression() {
    let mut vm = program("var a; var b; a = b = 3; print a; print b;");
    let (out, fault) = drive(&mut vm);
    assert!(fault.is_none());
    assert_eq!("3\n3\n", out);
}

#[test]
fn output_before_fault_stays() {
    let mut vm = program("print 1; print -\"x\"; print 2;");
    let (out, fault) = drive(&mut vm);
    assert_eq!("1\n", out);
    assert!(matches!(
        fault,
        Some(RuntimeError::Evaluation(EvaluationError::Negation))
    ));
}

#[test]
fn string_concatenation() {
    match evaluate("\"a\" + \"b\"") {
        Ok(Value::Obj(o)) => match o.obj_type {
            ObjType::String(s) => assert_eq!("ab", s),
        },
        other => panic!("unexpected {:?}", other),
    }
    assert!(matches!(
        evaluate("\"a\" + 1"),
        Err(RuntimeError::Evaluation(EvaluationError::Arithmatic(BinaryOp::Add)))
    ));
    assert!(matches!(
        evaluate("\"a\" * \"b\""),
        Err(RuntimeError::Evaluation(EvaluationError::Arithmatic(BinaryOp::Multiply)))
    ));
}

#[test]
fn truthiness() {
    assert!(boolean(evaluate("!nil")));
    assert!(!boolean(evaluate("!0")));
    assert!(!boolean(evaluate("!\"\"")));
    assert!(boolean(evaluate("!false")));
    assert!(!boolean(evaluate("!true")));
}

#[test]
fn equality_across_kinds() {
    assert!(boolean(evaluate("1 == 1")));
    assert!(!boolean(evaluate("1 == \"1\"")));
    assert!(boolean(evaluate("nil == nil")));
    assert!(boolean(evaluate("\"ab\" == \"a\" + \"b\"")));
    assert!(boolean(evaluate("true != false")));
}

#[test]
fn ordering_needs_numbers() {
    assert!(boolean(evaluate("2 > 1")));
    assert!(boolean(evaluate("1 < 2")));
    assert!(boolean(evaluate("2 <= 2")));
    assert!(!boolean(evaluate("1 >= 2")));
    assert!(matches!(
        evaluate("\"a\" < \"b\""),
        Err(RuntimeError::Evaluation(EvaluationError::Comparision(BinaryOp::Less)))
    ));
}

#[test]
fn negation_flips_the_sign() {
    assert_eq!(-2.5, number(evaluate("-2.5")));
    assert_eq!(3.0, number(evaluate("--3")));
    assert!(matches!(
        evaluate("-nil"),
        Err(RuntimeError::Evaluation(EvaluationError::Negation))
    ));
}

#[test]
fn value_operations() {
    assert!(Value::Nil.is_falsey());
    assert!(!Value::Number(0).is_falsey());
    assert!(!Value::from_string(String::new()).is_falsey());
    assert!(matches!(Value::Nil.not(), Value::Bool(true)));
    match Value::Number(1.5f64.to_bits()).negate() {
        Ok(Value::Number(bits)) => assert_eq!(-1.5, f64::from_bits(bits)),
        other => panic!("unexpected {:?}", other),
    }
}

#[test]
fn stack_overflow_is_a_fault() {
    let mut vm = program("var a = 1;");
    for _ in 0..256 {
        vm.supply(Value::Nil).unwrap();
    }
    assert!(matches!(vm.supply(Value::Nil), Err(RuntimeError::StackOverflow)));
}

#[test]
fn running_past_the_end_faults() {
    let mut vm = program("");
    assert!(matches!(vm.run(), Outcome::Finished));
    assert!(matches!(vm.run(), Outcome::Fault(RuntimeError::EndOfCode)));
}
