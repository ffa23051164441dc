use chalcedony::bytecode::Bytecode;
use chalcedony::error::{ChalError, CompileErrorKind, LexerErrorKind};
use chalcedony::interp::Compiler;

fn compile(src: &str) -> Result<Vec<Bytecode>, ChalError> {
    let mut compiler = Compiler::new();
    compiler.compile_program(src)
}

fn first_error(err: &ChalError) -> &ChalError {
    match err {
        ChalError::Many(list) => first_error(&list[0]),
        other => other,
    }
}

fn expect_compile_err(src: &str) -> CompileErrorKind {
    let err = compile(src).expect_err("expected a compile error");
    match first_error(&err) {
        ChalError::Compile(e) => clone_kind(&e.kind),
        other => panic!("expected a compile error, got {:?}", other),
    }
}

fn clone_kind(kind: &CompileErrorKind) -> CompileErrorKind {
    match kind {
        CompileErrorKind::UnknownFunction(n) => CompileErrorKind::UnknownFunction(n.clone()),
        CompileErrorKind::UnknownClass(n) => CompileErrorKind::UnknownClass(n.clone()),
        CompileErrorKind::UnknownNamespace(n) => CompileErrorKind::UnknownNamespace(n.clone()),
        CompileErrorKind::UnknownMember(n) => CompileErrorKind::UnknownMember(n.clone()),
        CompileErrorKind::MissingMembers(n) => CompileErrorKind::MissingMembers(n.clone()),
        CompileErrorKind::UndefinedMembers(n) => CompileErrorKind::UndefinedMembers(n.clone()),
        CompileErrorKind::IncoherentList(a, b) => {
            CompileErrorKind::IncoherentList(a.clone(), b.clone())
        },
        CompileErrorKind::InvalidBinOpr(o, a, b) => {
            CompileErrorKind::InvalidBinOpr(o.clone(), a.clone(), b.clone())
        },
        CompileErrorKind::InvalidUnaryOpr(o, t) => {
            CompileErrorKind::InvalidUnaryOpr(o.clone(), t.clone())
        },
        CompileErrorKind::UninferableType(t) => CompileErrorKind::UninferableType(t.clone()),
        CompileErrorKind::RedefiningVariable => CompileErrorKind::RedefiningVariable,
        CompileErrorKind::RedefiningFunctionArg => CompileErrorKind::RedefiningFunctionArg,
        CompileErrorKind::OverwrittenFunction => CompileErrorKind::OverwrittenFunction,
        CompileErrorKind::ClassAlreadyExists(n) => {
            CompileErrorKind::ClassAlreadyExists(n.clone())
        },
        CompileErrorKind::MemberAlreadyExists => CompileErrorKind::MemberAlreadyExists,
        CompileErrorKind::VoidArgument => CompileErrorKind::VoidArgument,
        CompileErrorKind::VoidVariable => CompileErrorKind::VoidVariable,
        CompileErrorKind::VoidMember => CompileErrorKind::VoidMember,
        CompileErrorKind::ReturnOutsideFunc => CompileErrorKind::ReturnOutsideFunc,
        CompileErrorKind::ExceptionTyOutsideCatch => {
            CompileErrorKind::ExceptionTyOutsideCatch
        },
        other => panic!("unexpected compile error kind: {:?}", other),
    }
}

#[test]
fn calling_an_unknown_function() {
    let kind = expect_compile_err("nowhere(1)");
    assert!(matches!(kind, CompileErrorKind::UnknownFunction(_)));
}

#[test]
fn redefining_a_local_variable() {
    let src = "fn f():\n    let a = 1\n    let a = 2\n    return";
    assert_eq!(expect_compile_err(src), CompileErrorKind::RedefiningVariable);
}

#[test]
fn redefining_a_function_argument() {
    let src = "fn f(a: int):\n    let a = 1\n    return";
    assert_eq!(expect_compile_err(src), CompileErrorKind::RedefiningFunctionArg);
}

#[test]
fn overwriting_a_function_overload() {
    let src = "fn f(a: int):\n    return\nfn f(b: int):\n    return";
    assert_eq!(expect_compile_err(src), CompileErrorKind::OverwrittenFunction);
}

#[test]
fn overloads_with_distinct_signatures_coexist() {
    let src = "fn f(a: int):\n    return\nfn f(a: str):\n    return";
    compile(src).expect("distinct overloads should compile");
}

#[test]
fn class_redefinition_is_rejected() {
    let src = "class A:\n    x: uint\n\nclass A:\n    y: uint\n";
    assert!(matches!(expect_compile_err(src), CompileErrorKind::ClassAlreadyExists(_)));
}

#[test]
fn duplicate_class_member_is_rejected() {
    let src = "class A:\n    x: uint\n    x: int\n";
    assert_eq!(expect_compile_err(src), CompileErrorKind::MemberAlreadyExists);
}

#[test]
fn inline_constructor_missing_member() {
    let src = "class P:\n    x: uint\n    y: uint\n\nlet p = P { x: 1 }";
    assert!(matches!(expect_compile_err(src), CompileErrorKind::MissingMembers(_)));
}

#[test]
fn inline_constructor_undefined_member() {
    let src = "class P:\n    x: uint\n\nlet p = P { x: 1, z: 2 }";
    assert!(matches!(expect_compile_err(src), CompileErrorKind::UndefinedMembers(_)));
}

#[test]
fn inline_constructor_of_unknown_class() {
    let err = compile("let p = Q { x: 1 }").expect_err("expected a compile error");
    match first_error(&err) {
        ChalError::Compile(e) => {
            assert!(matches!(e.kind, CompileErrorKind::UnknownClass(_)));
        },
        other => panic!("expected a compile error, got {:?}", other),
    }
}

#[test]
fn member_read_of_unknown_member() {
    let src = "class P:\n    x: uint\n\nlet p = P { x: 1 }\nlet b = p.z";
    assert!(matches!(expect_compile_err(src), CompileErrorKind::UnknownMember(_)));
}

#[test]
fn heterogenous_list_is_incoherent() {
    let kind = expect_compile_err("let a = [1, 'two']");
    assert!(matches!(kind, CompileErrorKind::IncoherentList(_, _)));
}

#[test]
fn widening_list_elements_are_coherent() {
    let out = compile("let a = [1, -2]").expect("numeric widening should apply");
    assert_eq!(
        out,
        vec![
            Bytecode::ConstU(1),
            Bytecode::ConstI(-2),
            Bytecode::ConstL(2),
            Bytecode::SetGlobal(0),
        ],
    );
}

#[test]
fn invalid_binary_operand_types() {
    let kind = expect_compile_err("let a = 'x' - 1");
    assert!(matches!(kind, CompileErrorKind::InvalidBinOpr(_, _, _)));
}

#[test]
fn invalid_unary_operand_type() {
    let kind = expect_compile_err("let a = !'x'");
    assert!(matches!(kind, CompileErrorKind::InvalidUnaryOpr(_, _)));
}

#[test]
fn return_outside_any_function() {
    let src = "if true: return 1";
    assert_eq!(expect_compile_err(src), CompileErrorKind::ReturnOutsideFunc);
}

#[test]
fn void_function_argument_is_rejected() {
    let src = "fn f(a: void):\n    return";
    assert_eq!(expect_compile_err(src), CompileErrorKind::VoidArgument);
}

#[test]
fn exception_type_outside_catch() {
    let src = "let e: exception = 'x'";
    assert_eq!(expect_compile_err(src), CompileErrorKind::ExceptionTyOutsideCatch);
}

#[test]
fn lexer_rejects_a_stray_ampersand() {
    let err = compile("let a = 1 & 2").expect_err("expected a lex error");
    match first_error(&err) {
        ChalError::Lexer(e) => {
            assert!(matches!(e.kind, LexerErrorKind::InvalidToken(_)));
        },
        other => panic!("expected a lexer error, got {:?}", other),
    }
}

#[test]
fn lexer_rejects_an_invalid_character() {
    let err = compile("let a = @").expect_err("expected a lex error");
    match first_error(&err) {
        ChalError::Lexer(e) => {
            assert!(matches!(e.kind, LexerErrorKind::InvalidChar(_)));
        },
        other => panic!("expected a lexer error, got {:?}", other),
    }
}

#[test]
fn assigning_through_a_member_chain() {
    let src = "class P:\n    x: uint\n\nlet p = P { x: 1 }\np.x = 2";
    let out = compile(src).expect("member assignment should compile");
    let tail = &out[out.len() - 3..];
    assert_eq!(tail[0], Bytecode::GetGlobal(0));
    assert_eq!(tail[1], Bytecode::ConstU(2));
    assert_eq!(tail[2], Bytecode::SetAttr(0));
}

#[test]
fn method_call_on_a_value() {
    let src = "class P:\n    x: uint\n\nfn P::get(self: P) -> uint:\n    return self.x\n\nlet p = P { x: 1 }\nlet b = p.get()";
    let out = compile(src).expect("method call should compile");
    let tail = &out[out.len() - 3..];
    assert_eq!(tail[0], Bytecode::GetGlobal(0));
    assert_eq!(tail[1], Bytecode::CallFunc(0));
    assert_eq!(tail[2], Bytecode::SetGlobal(1));
}
