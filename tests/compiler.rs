use lox::chunk::{Chunk, OpCode, Value};
use lox::compiler::{compile, compile_expression, number_literals};
use lox::error::{ChunkError, CompileErrorKind};

fn numbers(src: &str) -> Vec<u64> {
    number_literals(src.to_string())
        .iter()
        .map(|s| s.parse::<f64>().unwrap().to_bits())
        .collect()
}

fn expression(src: &str) -> Chunk {
    compile_expression(src.to_string(), numbers(src)).unwrap()
}

fn number_at(chunk: &Chunk, i: usize) -> f64 {
    match chunk.constants.get(i) {
        Value::Number(bits) => f64::from_bits(*bits),
        other => panic!("not a number: {:?}", other),
    }
}

#[test]
fn golden_opcode_sequence() {
    let chunk = expression("(-1 + 2) * 3 - -4");
    assert_eq!(vec![1, 0, 5, 1, 1, 7, 1, 2, 9, 1, 3, 5, 8, 0], chunk.code);
    assert_eq!(4, chunk.constants.len());
    for (i, v) in [1.0, 2.0, 3.0, 4.0].iter().enumerate() {
        assert_eq!(*v, number_at(&chunk, i));
    }
}

#[test]
fn comparison_and_not_encoding() {
    let chunk = expression("!(5 - 4 > 3 * 2 == !nil)");
    assert_eq!(vec![1, 0, 1, 1, 8, 1, 2, 1, 3, 9, 12, 2, 6, 11, 6, 0], chunk.code);
    let chunk = expression("1 >= 2");
    assert_eq!(vec![1, 0, 1, 1, 13, 6, 0], chunk.code);
    let chunk = expression("1 != 2");
    assert_eq!(vec![1, 0, 1, 1, 11, 6, 0], chunk.code);
}

#[test]
fn statements_are_stack_neutral() {
    let src = "var a = 1; a = a + 1; print a;";
    let chunk = compile(src.to_string(), numbers(src)).unwrap();
    assert_eq!(
        vec![1, 1, 16, 0, 17, 3, 1, 4, 7, 18, 2, 15, 17, 5, 14, 0],
        chunk.code
    );
    assert_eq!(chunk.code.len(), chunk.lines.len());
}

#[test]
fn var_without_initializer_pushes_nil() {
    let chunk = compile("var x;".to_string(), vec![]).unwrap();
    assert_eq!(vec![2, 16, 0, 0], chunk.code);
}

#[test]
fn disassembly_walks_whole_chunk() {
    let src = "var a = 1; a = a + 1; print a; print \"s\" + \"t\";";
    let chunk = compile(src.to_string(), numbers(src)).unwrap();
    let list = chunk.disassemble().unwrap();
    assert_eq!(0, list[0].offset);
    for w in list.windows(2) {
        assert!(w[0].offset < w[0].next);
        assert_eq!(w[0].next, w[1].offset);
    }
    assert_eq!(chunk.code.len(), list.last().unwrap().next);
    assert_eq!(OpCode::Return, list.last().unwrap().op);
}

#[test]
fn disassembly_reports_corrupt_code() {
    let mut chunk = Chunk::new();
    chunk.write(1, 1);
    assert_eq!(Err(ChunkError::MissingOperand(0)), chunk.disassemble());
    let mut chunk = Chunk::new();
    chunk.write(200, 1);
    assert_eq!(Err(ChunkError::UnknownOpCode(200)), chunk.disassemble());
}

#[test]
fn two_independent_errors_give_two_diagnostics() {
    let src = "1 +; 2 * ;";
    let diags = compile(src.to_string(), numbers(src)).unwrap_err();
    assert_eq!(2, diags.len());
    assert_eq!(CompileErrorKind::ExpectExpression, diags[0].kind);
    assert_eq!(CompileErrorKind::ExpectExpression, diags[1].kind);
    assert_eq!(Some(";".to_string()), diags[0].at);
}

#[test]
fn missing_semicolon_at_end() {
    let src = "print 1";
    let diags = compile(src.to_string(), numbers(src)).unwrap_err();
    assert_eq!(1, diags.len());
    assert_eq!(CompileErrorKind::ExpectSemicolonAfterValue, diags[0].kind);
    assert_eq!(None, diags[0].at);
}

#[test]
fn invalid_assignment_target() {
    let src = "var a = 1; var b = 2; a + b = 3;";
    let diags = compile(src.to_string(), numbers(src)).unwrap_err();
    assert_eq!(CompileErrorKind::InvalidAssignmentTarget, diags[0].kind);
}

#[test]
fn too_many_constants() {
    let terms: Vec<String> = (0..257).map(|i| i.to_string()).collect();
    let src = format!("print {};", terms.join(" + "));
    let diags = compile(src.clone(), numbers(&src)).unwrap_err();
    assert!(diags.iter().any(|d| d.kind == CompileErrorKind::TooManyConstants));
    let terms: Vec<String> = (0..256).map(|i| i.to_string()).collect();
    let src = format!("print {};", terms.join(" + "));
    let chunk = compile(src.clone(), numbers(&src)).unwrap();
    assert_eq!(256, chunk.constants.len());
}

#[test]
fn deep_nesting_is_rejected() {
    let src = format!("{}1{}", "(".repeat(400), ")".repeat(400));
    let diags = compile_expression(src.clone(), numbers(&src)).unwrap_err();
    assert_eq!(CompileErrorKind::TooDeeplyNested, diags[0].kind);
}

#[test]
fn lexical_errors_are_diagnostics() {
    let diags = compile("print \"abc;".to_string(), vec![]).unwrap_err();
    assert_eq!(CompileErrorKind::UnterminatedString, diags[0].kind);
    let diags = compile("print #;".to_string(), vec![]).unwrap_err();
    assert_eq!(CompileErrorKind::UnexpectedCharacter, diags[0].kind);
    assert_eq!(Some("#".to_string()), diags[0].at);
}

#[test]
fn number_values_must_be_supplied() {
    let diags = compile("print 1;".to_string(), vec![]).unwrap_err();
    assert_eq!(CompileErrorKind::MissingNumberValue, diags[0].kind);
}

#[test]
fn number_literals_in_order() {
    let found = number_literals("1 + 2.5 * x3 \"4\" 5.".to_string());
    assert_eq!(vec!["1", "2.5", "5"], found);
}

#[test]
fn opcode_bytes_round_trip() {
    for b in 0u8..=18 {
        let op = OpCode::try_from(b).unwrap();
        assert_eq!(b, op.to_byte());
    }
    assert_eq!(Err(ChunkError::UnknownOpCode(19)), OpCode::try_from(19));
}

#[test]
fn constant_pool_limit() {
    let mut chunk = Chunk::new();
    for i in 0..256 {
        assert_eq!(Ok(i as u8), chunk.add_constant(Value::Nil));
    }
    assert_eq!(Err(ChunkError::TooManyConstants), chunk.add_constant(Value::Nil));
}

/// A bare expression is not a statement: as a program it lacks its `;` and
/// fails; as an expression it compiles to its code and a return.
fn expression_code(src: &str) -> Vec<u8> {
    let diags = compile(src.to_string(), numbers(src)).unwrap_err();
    assert_eq!(CompileErrorKind::ExpectSemicolonAfterValue, diags[0].kind);
    expression(src).code
}

#[test]
fn basic() {
    assert_eq!(vec![1, 0, 0], expression_code("1"));
    assert_eq!(vec![1, 0, 5, 0], expression_code("-12"));
    let chunk = expression("-12");
    assert_eq!(12.0, number_at(&chunk, 0));
    let chunk = compile("1;".to_string(), numbers("1;")).unwrap();
    assert_eq!(vec![1, 0, 15, 0], chunk.code);
    let chunk = compile("-12;".to_string(), numbers("-12;")).unwrap();
    assert_eq!(vec![1, 0, 5, 15, 0], chunk.code);
}

#[test]
fn arithmatic() {
    assert_eq!(vec![1, 0, 1, 1, 7, 0], expression_code("1 + 2"));
    assert_eq!(vec![1, 0, 5, 1, 1, 7, 0], expression_code("-1 + 2"));
    assert_eq!(
        vec![1, 0, 5, 1, 1, 7, 1, 2, 9, 1, 3, 5, 8, 0],
        expression_code("(-1 + 2) * 3 - -4")
    );
    let src = "(-1 + 2) * 3 - -4;";
    let chunk = compile(src.to_string(), numbers(src)).unwrap();
    assert_eq!(
        vec![1, 0, 5, 1, 1, 7, 1, 2, 9, 1, 3, 5, 8, 15, 0],
        chunk.code
    );
}

#[test]
fn logic() {
    assert_eq!(
        vec![1, 0, 1, 1, 8, 1, 2, 1, 3, 9, 12, 2, 6, 11, 6, 0],
        expression_code("!(5 - 4 > 3 * 2 == !nil)")
    );
    let src = "!(5 - 4 > 3 * 2 == !nil);";
    let chunk = compile(src.to_string(), numbers(src)).unwrap();
    assert_eq!(
        vec![1, 0, 1, 1, 8, 1, 2, 1, 3, 9, 12, 2, 6, 11, 6, 15, 0],
        chunk.code
    );
}

#[test]
fn compile_tokens_matches_compile() {
    let src = "var a = 1; print a;";
    let tokens = lox::scanner::scan_all(src.to_string()).unwrap();
    assert_eq!(lox::token::TokenType::Eof, tokens.last().unwrap().token_type);
    let chunk = lox::compiler::compile_tokens(tokens, numbers(src)).unwrap();
    assert_eq!(vec![1, 1, 16, 0, 17, 2, 14, 0], chunk.code);
}

#[test]
fn lexical_error_stops_scan_all() {
    let diags = lox::scanner::scan_all("1 @ 2 # 3".to_string()).unwrap_err();
    assert_eq!(2, diags.len());
    assert!(number_literals("1 @ 2".to_string()).is_empty());
}
