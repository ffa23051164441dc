use chalcedony::bytecode::Bytecode;
use chalcedony::error::{ChalError, CompileErrorKind, LexerErrorKind, ParserErrorKind};
use chalcedony::interp::Compiler;
use chalcedony::types::Type;

fn compile(src: &str) -> Result<Vec<Bytecode>, ChalError> {
    let mut compiler = Compiler::new();
    compiler.compile_program(src)
}

fn first_error(err: &ChalError) -> &ChalError {
    match err {
        ChalError::Many(list) => first_error(&list[0]),
        other => other,
    }
}

fn compile_kind(src: &str) -> CompileErrorKind {
    let err = compile(src).expect_err("expected a compile error");
    match first_error(&err) {
        ChalError::Compile(e) => match &e.kind {
            CompileErrorKind::UnknownVariable(n) => {
                CompileErrorKind::UnknownVariable(n.clone())
            },
            other => match other {
                CompileErrorKind::InvalidType(a, b) => {
                    CompileErrorKind::InvalidType(a.clone(), b.clone())
                },
                CompileErrorKind::CtrlFlowOutsideLoop => CompileErrorKind::CtrlFlowOutsideLoop,
                CompileErrorKind::ThrowInSafeFunc => CompileErrorKind::ThrowInSafeFunc,
                CompileErrorKind::UnsafeOpInSafeBlock => CompileErrorKind::UnsafeOpInSafeBlock,
                CompileErrorKind::MethodNotImplemented(m) => {
                    CompileErrorKind::MethodNotImplemented(m.clone())
                },
                CompileErrorKind::UninferableType(t) => {
                    CompileErrorKind::UninferableType(t.clone())
                },
                CompileErrorKind::RedefiningVariable => CompileErrorKind::RedefiningVariable,
                CompileErrorKind::NonVoidFunctionStmnt(t) => {
                    CompileErrorKind::NonVoidFunctionStmnt(t.clone())
                },
                CompileErrorKind::MutatingConstant => CompileErrorKind::MutatingConstant,
                CompileErrorKind::MutatingExternalState => {
                    CompileErrorKind::MutatingExternalState
                },
                CompileErrorKind::NestedTryCatch => CompileErrorKind::NestedTryCatch,
                CompileErrorKind::NoDefaultReturnStmnt => {
                    CompileErrorKind::NoDefaultReturnStmnt
                },
                CompileErrorKind::UnknownFunction(n) => {
                    CompileErrorKind::UnknownFunction(n.clone())
                },
                _ => panic!("unexpected compile error kind: {:?}", other),
            },
        },
        other => panic!("expected a compile error, got {:?}", other),
    }
}

// Input `let a: uint = 3`. Output bytecode: ConstU(3), SetGlobal(0).
#[test]
fn compile_uint_var_def() {
    let out = compile("let a: uint = 3").expect("program should compile");
    assert_eq!(out, vec![Bytecode::ConstU(3), Bytecode::SetGlobal(0)]);
}

// Input `let a: int = 3`. Output: ConstU(3), CastI, SetGlobal(0).
#[test]
fn compile_int_var_def_with_cast() {
    let out = compile("let a: int = 3").expect("program should compile");
    assert_eq!(out, vec![Bytecode::ConstU(3), Bytecode::CastI, Bytecode::SetGlobal(0)]);
}

// An implicit CastI is inserted when an int variable receives a uint value.
#[test]
fn implicit_cast_on_annotated_int() {
    let out = compile("let a: int = 2").expect("program should compile");
    assert_eq!(out[1], Bytecode::CastI);
}

// Input `if true: print(1)`. Output: ConstB(true), If(2), ConstU(1), Print.
#[test]
fn compile_if_with_inline_body() {
    let out = compile("if true: print(1)").expect("program should compile");
    assert_eq!(
        out,
        vec![
            Bytecode::ConstB(true),
            Bytecode::If(2),
            Bytecode::ConstU(1),
            Bytecode::Print,
        ],
    );
}

// Input `while false: break`. Output: ConstB(false), If(2), Jmp(3), Jmp(-5),
// with the break placeholder patched to a jump terminating the loop.
#[test]
fn compile_while_with_patched_break() {
    let out = compile("while false: break").expect("program should compile");
    assert_eq!(
        out,
        vec![
            Bytecode::ConstB(false),
            Bytecode::If(2),
            Bytecode::Jmp(3),
            Bytecode::Jmp(-5),
        ],
    );
}

// Input: a two-argument function, then a call `add(1, 2)`. The function
// emits CreateFunc(2), GetLocal(0), GetLocal(1), Add, Return; the call emits
// ConstU(1), CastI, ConstU(2), CastI, CallFunc(0).
#[test]
fn compile_func_def_and_call() {
    let src = "fn add(a: int, b: int) -> int: return a + b\nadd(1, 2)";
    let out = compile(src).expect("program should compile");
    assert_eq!(
        out,
        vec![
            Bytecode::CreateFunc(2),
            Bytecode::GetLocal(0),
            Bytecode::GetLocal(1),
            Bytecode::Add,
            Bytecode::Return,
            Bytecode::ConstU(1),
            Bytecode::CastI,
            Bytecode::ConstU(2),
            Bytecode::CastI,
            Bytecode::CallFunc(0),
        ],
    );
}

// Input `try: throw 'x' catch(e: exception): print(e)`. Emission:
// TryScope(2), ConstS("x"), ThrowException, CatchJmp(2), SetLocal(0),
// GetLocal(0), Print.
#[test]
fn compile_try_catch_throw() {
    let src = "try: throw 'x' catch(e: exception): print(e)";
    let out = compile(src).expect("program should compile");
    assert_eq!(
        out,
        vec![
            Bytecode::TryScope(2),
            Bytecode::ConstS("x".to_string()),
            Bytecode::ThrowException,
            Bytecode::CatchJmp(2),
            Bytecode::SetLocal(0),
            Bytecode::GetLocal(0),
            Bytecode::Print,
        ],
    );
}

// An indentation that is not a multiple of four is rejected by the lexer.
#[test]
fn indent_not_multiple_of_four() {
    let src = "if true:\n   print(1)";
    let err = compile(src).expect_err("expected a lex error");
    match first_error(&err) {
        ChalError::Lexer(e) => {
            assert!(matches!(e.kind, LexerErrorKind::InvalidIndentation));
        },
        other => panic!("expected a lexer error, got {:?}", other),
    }
}

// `let a = ` with an empty right-hand side is an empty expression.
#[test]
fn empty_var_def_value() {
    let err = compile("let a = ").expect_err("expected a parse error");
    match first_error(&err) {
        ChalError::Parser(e) => {
            assert!(matches!(e.kind, ParserErrorKind::EmptyExpr));
        },
        other => panic!("expected a parser error, got {:?}", other),
    }
}

// `1 + + 2` repeats an operator.
#[test]
fn repeated_operator_is_rejected() {
    let err = compile("let a = 1 + + 2").expect_err("expected a parse error");
    match first_error(&err) {
        ChalError::Parser(e) => {
            assert!(matches!(e.kind, ParserErrorKind::RepeatedExprOperator));
        },
        other => panic!("expected a parser error, got {:?}", other),
    }
}

// `1 2` repeats a terminal.
#[test]
fn repeated_terminal_is_rejected() {
    let err = compile("let a = 1 2").expect_err("expected a parse error");
    match first_error(&err) {
        ChalError::Parser(e) => {
            assert!(matches!(e.kind, ParserErrorKind::RepeatedExprTerminal));
        },
        other => panic!("expected a parser error, got {:?}", other),
    }
}

// `let a: uint = -1` receives an int where a uint is expected.
#[test]
fn uint_var_rejects_negative_literal() {
    let kind = compile_kind("let a: uint = -1");
    assert_eq!(kind, CompileErrorKind::InvalidType(Type::Uint, Type::Int));
}

// A call of an unsafe function outside a guarded scope is rejected.
#[test]
fn unsafe_call_outside_guarded_scope() {
    let src = "fn boom!():\n    throw 'x'\nboom!()";
    let kind = compile_kind(src);
    assert!(
        kind == CompileErrorKind::ThrowInSafeFunc || kind
            == CompileErrorKind::UnsafeOpInSafeBlock,
    );
}

// The same unsafe call inside a try block is accepted.
#[test]
fn unsafe_call_inside_guarded_scope() {
    let src = "fn boom!():\n    throw 'x'\ntry: boom!() catch(e: exception): print(e)";
    compile(src).expect("guarded unsafe call should compile");
}

// `break` outside a loop is control flow outside a loop.
#[test]
fn break_outside_loop() {
    let kind = compile_kind("if true: break");
    assert_eq!(kind, CompileErrorKind::CtrlFlowOutsideLoop);
}

// `for x in 5:` needs an `__iter__` method on the iterable's type.
#[test]
fn for_over_uniterable_value() {
    let src = "for x in 5:\n    print(x)";
    let kind = compile_kind(src);
    assert!(matches!(kind, CompileErrorKind::MethodNotImplemented(_)));
}

// Round-tripping the same source through two fresh compilers yields
// identical bytecode.
#[test]
fn compilation_is_repeatable() {
    let src = "let a: int = 3\nfn add(a: int, b: int) -> int: return a + b\nwhile false: break\nif true: print(a)";
    let first = compile(src).expect("program should compile");
    let second = compile(src).expect("program should compile");
    assert_eq!(first, second);
}

// A throw at the top level outside any guard is accepted and emits the
// string then the unwind instruction... it must be guarded inside a plain
// function though.
#[test]
fn throw_in_plain_function_is_rejected() {
    let src = "fn quiet():\n    throw 'x'";
    let kind = compile_kind(src);
    assert_eq!(kind, CompileErrorKind::ThrowInSafeFunc);
}

// A non-void function used as a bare statement inside a body is rejected.
#[test]
fn non_void_call_statement_in_body() {
    let src = "fn f() -> int: return 1\nfn g():\n    f()\n    return";
    let kind = compile_kind(src);
    assert!(matches!(kind, CompileErrorKind::NonVoidFunctionStmnt(_)));
}

// A constant variable cannot be reassigned.
#[test]
fn mutating_a_constant() {
    let src = "const let a = 1\na = 2";
    let kind = compile_kind(src);
    assert_eq!(kind, CompileErrorKind::MutatingConstant);
}

// A function body cannot write a global.
#[test]
fn mutating_external_state() {
    let src = "let g = 1\nfn f():\n    g = 2\n    return";
    let kind = compile_kind(src);
    assert_eq!(kind, CompileErrorKind::MutatingExternalState);
}

// A nested try-catch is redundant and rejected.
#[test]
fn nested_try_catch() {
    let src = "try:\n    try: throw 'x' catch(e: exception): print(e)\ncatch(f: exception):\n    print(f)";
    let kind = compile_kind(src);
    assert_eq!(kind, CompileErrorKind::NestedTryCatch);
}

// A non-void function whose control may fall through needs a return.
#[test]
fn missing_default_return() {
    let src = "fn f() -> int:\n    print(1)";
    let kind = compile_kind(src);
    assert_eq!(kind, CompileErrorKind::NoDefaultReturnStmnt);
}

// A variable definition without an inferable type is rejected.
#[test]
fn unknown_variable_in_expression() {
    let kind = compile_kind("let a = b + 1");
    assert!(matches!(kind, CompileErrorKind::UnknownVariable(_)));
}

// Compound assignment desugars into a read, the operation, and a store.
#[test]
fn compound_assignment_bytecode() {
    let src = "let a: uint = 1\na += 2";
    let out = compile(src).expect("program should compile");
    assert_eq!(
        out,
        vec![
            Bytecode::ConstU(1),
            Bytecode::SetGlobal(0),
            Bytecode::GetGlobal(0),
            Bytecode::ConstU(2),
            Bytecode::Add,
            Bytecode::SetGlobal(0),
        ],
    );
}

// An if chain jumps over the branches that do not run.
#[test]
fn if_elif_else_layout() {
    let src = "if true:\n    print(1)\nelif false:\n    print(2)\nelse:\n    print(3)";
    let out = compile(src).expect("program should compile");
    assert_eq!(
        out,
        vec![
            Bytecode::ConstB(true),
            Bytecode::If(3),
            Bytecode::ConstU(1),
            Bytecode::Print,
            Bytecode::Jmp(7),
            Bytecode::ConstB(false),
            Bytecode::If(3),
            Bytecode::ConstU(2),
            Bytecode::Print,
            Bytecode::Jmp(2),
            Bytecode::ConstU(3),
            Bytecode::Print,
        ],
    );
}

// A class with a member and a method compiles; constructing it inline emits
// the member values then the object build.
#[test]
fn class_with_inline_constructor() {
    let src = "class Point:\n    x: uint\n\nfn make() -> Point:\n    return Point { x: 7 }\n";
    let out = compile(src).expect("program should compile");
    assert_eq!(
        out,
        vec![
            Bytecode::CreateFunc(0),
            Bytecode::ConstU(7),
            Bytecode::ConstObj(1),
            Bytecode::Return,
        ],
    );
}
