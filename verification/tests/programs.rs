use merlin::compiler::{CompileError, Compiler, CompilerInstruction, CompilerRegister, IntErrorKind, parse_int};
use merlin::errors::{ErrorDetail, ErrorType, token_text};
use merlin::interpreter::{Fault, RunError, fn_call, method_call, run_interpreter};
use merlin::lexer::TokenType;
use merlin::objects::{Dict, ExcKind, MethodValue, Value};
use merlin::ops::object_repr;
use merlin::program::{ProgramError, compile_exception, compile_source, run_data};
use merlin::types::{Builtin, ClassMethod, builtin_type, class_method, create_class};

fn run(src: &str) -> Result<Value, ProgramError> {
    run_data(src.as_bytes().to_vec(), 64)
}

fn run_repr(src: &str) -> String {
    match run(src) {
        Ok(v) => object_repr(&v),
        Err(e) => panic!("program failed: {:?}", e),
    }
}

fn raised(src: &str) -> (ExcKind, String) {
    match run(src) {
        Err(ProgramError::Run(RunError::Raised { exc: Value::Exc(e), .. })) => (e.kind, e.msg.clone()),
        other => panic!("expected an exception, got {:?}", other),
    }
}

fn tokens(src: &str) -> Vec<merlin::lexer::Token> {
    let mut l = merlin::lexer::new(src.as_bytes().to_vec(), vec!["fn".to_string(), "return".to_string()]);
    l.tokenize()
}

/// Small programs of this file's own, one for each kind of literal.
#[test]
fn test_literals() {
    assert_eq!(run_repr("1\n\"hello\"\n[1, 2]\n{1: 2}\n"), "None");
    assert_eq!(run_repr("return 42"), "42");
    assert_eq!(run_repr("return \"hi\""), "\"hi\"");
    assert_eq!(run_repr("return [1, \"a\"]"), "[1, \"a\"]");
    assert_eq!(run_repr("return {1: 2, 3: 4}"), "{1: 2, 3: 4}");
    assert_eq!(run_repr("x = [1, 2]\ny = 3\nreturn x"), "[1, 2]");
}

/// Small programs of this file's own for the arithmetic operators.
#[test]
fn test_operators() {
    assert_eq!(run_repr("return 1 + 2 * 3"), "7");
    assert_eq!(run_repr("return (1 + 2) * 3"), "9");
    assert_eq!(run_repr("a = 10\nb = 4\nreturn a - b"), "6");
    assert_eq!(run_repr("return 7 / 2"), "3");
    assert_eq!(run_repr("return 0 - 7 / 2"), "-3");
}

/// Small programs of this file's own that define and call a function.
#[test]
fn test_functions() {
    assert_eq!(run_repr("fn f(x) {\n return x\n}\nreturn f"), "<fn 'f'>");
    assert_eq!(run_repr("fn f(x) {\n return x\n}\nreturn f(0 f)"), "<fn 'f'>");
}

#[test]
fn a_literal_after_a_function_meets_its_list_constants() {
    assert!(matches!(
        run("fn f(x) {\n return x\n}\nreturn f(0 5)"),
        Err(ProgramError::Compile(CompileError::ConstCompare))
    ));
}

#[test]
fn lexer_gives_kinds_and_text() {
    let t = tokens("a = 12 + \"s\"");
    let kinds: Vec<TokenType> = t.iter().map(|x| x.tp).collect();
    assert_eq!(
        kinds,
        vec![TokenType::Identifier, TokenType::Equals, TokenType::Decimal, TokenType::Plus, TokenType::String]
    );
    assert_eq!(t[2].data, "12");
    assert_eq!(t[4].data, "s");
}

#[test]
fn lexer_marks_end_of_empty_input() {
    let t = tokens("");
    assert_eq!(t.len(), 1);
    assert_eq!(t[0].tp, TokenType::Eof);
}

#[test]
fn parse_int_follows_str_parse() {
    assert_eq!(parse_int(&"123".to_string()), Ok(123));
    assert_eq!(parse_int(&"-5".to_string()), Ok(-5));
    assert_eq!(parse_int(&"+7".to_string()), Ok(7));
    assert_eq!(parse_int(&"".to_string()), Err(IntErrorKind::Empty));
    assert_eq!(parse_int(&"-".to_string()), Err(IntErrorKind::InvalidDigit));
    assert_eq!(parse_int(&"1a".to_string()), Err(IntErrorKind::InvalidDigit));
    assert_eq!(parse_int(&isize::MAX.to_string()), Ok(isize::MAX));
    assert_eq!(parse_int(&isize::MIN.to_string()), Ok(isize::MIN));
    assert_eq!(parse_int(&"99999999999999999999999".to_string()), Err(IntErrorKind::PosOverflow));
    assert_eq!(parse_int(&"-99999999999999999999999".to_string()), Err(IntErrorKind::NegOverflow));
    for x in [-1000isize, -1, 0, 1, 99, 1234567] {
        assert_eq!(parse_int(&x.to_string()), Ok(x));
    }
}

#[test]
fn compiled_instructions_carry_their_index() {
    let b = compile_source(b"a = 1 + 2\nb = a * 3\nreturn b".to_vec()).unwrap();
    assert_eq!(b.positions.len(), b.instructions.len());
    for (j, ins) in b.instructions.iter().enumerate() {
        let i = match ins {
            CompilerInstruction::BinaryAdd { i, .. }
            | CompilerInstruction::BinarySub { i, .. }
            | CompilerInstruction::BinaryMul { i, .. }
            | CompilerInstruction::BinaryDiv { i, .. }
            | CompilerInstruction::CopyRegister { i, .. }
            | CompilerInstruction::Call { i, .. }
            | CompilerInstruction::Return { i, .. }
            | CompilerInstruction::UnaryNeg { i, .. }
            | CompilerInstruction::BuildList { i, .. }
            | CompilerInstruction::BuildDict { i, .. } => *i,
            CompilerInstruction::MakeFunction { .. } => j,
        };
        assert_eq!(i, j);
    }
}

#[test]
fn constants_are_shared_and_registers_given_back() {
    let b = compile_source(b"a = 1\nb = 1\nc = \"x\"\nd = \"x\"".to_vec()).unwrap();
    assert_eq!(b.consts.len(), 2);
    let mut c = Compiler::new();
    let ast = {
        let mut l = merlin::lexer::new(b"a = 1 + 2 * 3".to_vec(), vec!["fn".to_string(), "return".to_string()]);
        let t = l.tokenize();
        let mut p = merlin::parser::new(t);
        p.generate_ast().unwrap()
    };
    let before = c.register_index;
    c.compile_statement(&ast[0]).unwrap();
    assert_eq!(c.register_index, before);
    assert!(c.register_max >= 1);
}

#[test]
fn first_store_takes_slot_zero() {
    let b = compile_source(b"x = 5".to_vec()).unwrap();
    assert_eq!(b.n_variables, 1);
    match &b.instructions[0] {
        CompilerInstruction::CopyRegister { from, to, i } => {
            assert_eq!(*from, CompilerRegister::C(0));
            assert_eq!(*to, CompilerRegister::V(0));
            assert_eq!(*i, 0);
        }
        other => panic!("{:?}", other),
    }
    assert_eq!(b.names[0].0, 0);
    assert_eq!(b.names[0].1, "x");
}

#[test]
fn undefined_name_is_a_compile_error() {
    match run("return y") {
        Err(ProgramError::Compile(CompileError::NameNotDefined { name, .. })) => assert_eq!(name, "y"),
        other => panic!("{:?}", other),
    }
}

#[test]
fn overlong_literal_is_a_compile_error() {
    match run("return 99999999999999999999999") {
        Err(ProgramError::Compile(CompileError::InvalidInt { kind, .. })) => assert_eq!(kind, IntErrorKind::PosOverflow),
        other => panic!("{:?}", other),
    }
}

#[test]
fn negation_is_not_compiled() {
    assert!(matches!(run("return -1"), Err(ProgramError::Unsupported)));
}

#[test]
fn parse_errors_are_reported() {
    match run("a = )") {
        Err(ProgramError::Parse(e)) => {
            assert_eq!(e.tp, ErrorType::UnexpectedToken);
            assert_eq!(e.detail, ErrorDetail::ExpectedAtom);
        }
        other => panic!("{:?}", other),
    }
}

#[test]
fn runtime_exceptions() {
    assert_eq!(raised("return 1 / 0"), (ExcKind::DivisionByZeroExc, "Division by 0".to_string()));
    assert_eq!(raised("return 1 + \"a\""), (ExcKind::TypeMismatchExc, "Types do not match".to_string()));
    assert_eq!(
        raised("return \"a\" + 1"),
        (ExcKind::MethodNotDefinedExc, "Method 'add' is not defined for 'str' type".to_string())
    );
    assert_eq!(
        raised("a = 1\nreturn a(2)"),
        (ExcKind::MethodNotDefinedExc, "Method 'call' is not defined for 'int' type".to_string())
    );
    assert_eq!(
        raised("return 9223372036854775807 + 1"),
        (ExcKind::OverflowExc, "int addition overflow".to_string())
    );
    assert_eq!(
        raised("x = [1]\nreturn {x: 2}"),
        (ExcKind::MethodNotDefinedExc, "Method 'hash' is not defined for 'list' type".to_string())
    );
}

#[test]
fn raised_exceptions_carry_the_instruction_range() {
    match run("a = 1\nreturn a / 0") {
        Err(ProgramError::Run(RunError::Raised { start, .. })) => assert_eq!(start.line, 1),
        other => panic!("{:?}", other),
    }
}

#[test]
fn call_arity_is_checked() {
    assert_eq!(
        raised("fn f(x) {\n return x\n}\nreturn f(5)"),
        (ExcKind::ValueExc, "Expected 0 arguments, got 1".to_string())
    );
}

#[test]
fn depth_limit_cuts_runaway_recursion() {
    let b = compile_source(b"fn f(g) {\n return g(0 g)\n}\nreturn f(0 f)".to_vec()).unwrap();
    match run_interpreter(&b, 10) {
        Err(RunError::Fault(Fault::DepthExceeded)) => {}
        other => panic!("{:?}", other),
    }
}

#[test]
fn more_fuel_same_result() {
    let b = compile_source(b"fn f(x) {\n return x\n}\nreturn f(0 f)".to_vec()).unwrap();
    let a = run_interpreter(&b, 5).map(|v| object_repr(&v)).ok();
    let c = run_interpreter(&b, 6).map(|v| object_repr(&v)).ok();
    assert_eq!(a, c);
    assert_eq!(a, Some("<fn 'f'>".to_string()));
    assert!(matches!(run_interpreter(&b, 0), Err(RunError::Fault(Fault::DepthExceeded))));
}

#[test]
fn empty_program_gives_none() {
    assert_eq!(run_repr(""), "None");
}

fn function_value(src: &str) -> Value {
    match run(src) {
        Ok(v @ Value::Fn(_)) => v,
        other => panic!("expected a function, got {:?}", other),
    }
}

fn method_error(r: Result<MethodValue<Value, Value>, RunError>) -> (ExcKind, String) {
    match r {
        Ok(MethodValue::Error(Value::Exc(e))) => (e.kind, e.msg.clone()),
        other => panic!("expected a returned exception, got {:?}", other),
    }
}

#[test]
fn fn_call_checks_arity_then_runs_the_body() {
    let f = function_value("fn f(x) {\n return x\n}\nreturn f");
    let fd = match &f {
        Value::Fn(fd) => fd,
        _ => unreachable!(),
    };
    match fn_call(fd, &vec![Value::Int(9)], 4) {
        Ok(MethodValue::Val(Value::Int(9))) => {}
        other => panic!("{:?}", other),
    }
    assert_eq!(
        method_error(fn_call(fd, &vec![], 4)),
        (ExcKind::ValueExc, "Expected 0 arguments, got 1".to_string())
    );
    assert!(matches!(fn_call(fd, &vec![Value::Int(9)], 0), Err(RunError::Fault(Fault::DepthExceeded))));
}

#[test]
fn class_methods_call_what_the_class_defines() {
    let f = function_value("fn f(x) {\n return x\n}\nreturn f");
    let object = builtin_type(Builtin::Object);
    let mut d = Dict::new();
    d.insert(Value::Str("repr".to_string()), f).unwrap();
    d.insert(Value::Str("add".to_string()), function_value("fn g(x) {\n return x\n}\nreturn g")).unwrap();
    d.insert(Value::Str("call".to_string()), Value::Int(3)).unwrap();
    let mut next: u32 = 20;
    let c = create_class(&mut next, "Point".to_string(), d, &object);
    match class_method(&c, ClassMethod::Repr, &vec![Value::Int(7)], 8) {
        Ok(MethodValue::Val(Value::Int(7))) => {}
        other => panic!("{:?}", other),
    }
    assert_eq!(
        method_error(class_method(&c, ClassMethod::Add, &vec![Value::Int(7), Value::Int(8)], 8)),
        (ExcKind::ValueExc, "Expected 2 arguments, got 1".to_string())
    );
    assert_eq!(
        method_error(class_method(&c, ClassMethod::Call, &vec![Value::Int(7)], 8)),
        (ExcKind::MethodNotDefinedExc, "Method 'call' is not defined for 'int' type".to_string())
    );
    assert_eq!(
        method_error(class_method(&c, ClassMethod::Len, &vec![Value::Int(7)], 8)),
        (ExcKind::MethodNotDefinedExc, "Method 'len' is not defined for 'Point' type".to_string())
    );
    assert_eq!(
        method_error(class_method(&c, ClassMethod::Neg, &vec![Value::Int(7)], 8)),
        (ExcKind::MethodNotDefinedExc, "Method 'neg' is not defined for 'Point' type".to_string())
    );
    assert_eq!(
        method_error(class_method(&c, ClassMethod::Getattr, &vec![Value::Int(7), Value::Str("zz".to_string())], 8)),
        (ExcKind::AttrExc, "Object of type 'Point' has no attribute 'zz'".to_string())
    );
    match class_method(&c, ClassMethod::Getattr, &vec![Value::Int(7), Value::Str("call".to_string())], 8) {
        Ok(MethodValue::Val(Value::Int(3))) => {}
        other => panic!("{:?}", other),
    }
}

#[test]
fn a_class_without_call_reports_len() {
    let object = builtin_type(Builtin::Object);
    let mut next: u32 = 20;
    let c = create_class(&mut next, "Box".to_string(), Dict::new(), &object);
    assert_eq!(
        method_error(class_method(&c, ClassMethod::Call, &vec![Value::Int(1)], 8)),
        (ExcKind::MethodNotDefinedExc, "Method 'len' is not defined for 'Box' type".to_string())
    );
}

#[test]
fn methods_pass_their_instance_first() {
    let f = function_value("fn f(x) {\n return x\n}\nreturn f");
    match method_call(&f, &Value::Int(4), &vec![], 8) {
        Ok(MethodValue::Val(Value::Int(4))) => {}
        other => panic!("{:?}", other),
    }
    assert_eq!(
        method_error(method_call(&f, &Value::Int(4), &vec![Value::Int(5)], 8)),
        (ExcKind::ValueExc, "Expected 2 arguments, got 1".to_string())
    );
    assert_eq!(
        method_error(method_call(&Value::Int(1), &Value::Int(4), &vec![], 8)),
        (ExcKind::MethodNotDefinedExc, "Method 'call' is not defined for 'int' type".to_string())
    );
}

#[test]
fn tokens_show_kind_and_text() {
    let toks = tokens("x = (1)");
    let shown: Vec<String> = toks.iter().map(token_text).collect();
    assert_eq!(shown[0], "identifier: 'x'");
    assert_eq!(shown[1], "equals: '='");
    assert_eq!(shown[2], "l-paren: '('");
    assert_eq!(shown[3], "decimal: '1'");
}

#[test]
fn char_token_on_empty_input() {
    let mut l = merlin::lexer::new(Vec::new(), vec!["fn".to_string()]);
    let t = merlin::lexer::add_char_token(&mut l, '\0', TokenType::Eof);
    assert_eq!(t.data, "\0");
    assert_eq!((t.line, t.startcol, t.endcol), (0, 0, 1));
    assert_eq!((l.idx, l.col, l.current), (1, 1, 0));
}

#[test]
fn blank_program_has_no_tokens() {
    assert!(matches!(run("   "), Err(ProgramError::NoTokens)));
}

#[test]
fn token_positions_follow_lines() {
    let toks = tokens("a\nbc = 1");
    let bc = toks.iter().find(|t| t.data == "bc").unwrap();
    assert_eq!((bc.line, bc.startcol), (1, 0));
    let one = toks.iter().find(|t| t.data == "1").unwrap();
    assert_eq!((one.line, one.startcol), (1, 5));
}

#[test]
fn compile_errors_raise_their_exceptions() {
    let e = match run("return y") {
        Err(ProgramError::Compile(e)) => e,
        other => panic!("{:?}", other),
    };
    match compile_exception(&e) {
        Some((exc, start, _)) => {
            assert_eq!(object_repr(&exc), "NameExc: \"Name 'y' not defined\"");
            assert_eq!(start.startcol, 7);
        }
        None => panic!("no exception"),
    }
    let e = match run("return 99999999999999999999999") {
        Err(ProgramError::Compile(e)) => e,
        other => panic!("{:?}", other),
    };
    let (exc, _, _) = compile_exception(&e).unwrap();
    assert_eq!(
        object_repr(&exc),
        "OverflowExc: \"int literal is invalid (number too large to fit in target type)\""
    );
    assert!(compile_exception(&CompileError::TooLarge).is_none());
}
