use chalcedony::bytecode::Bytecode;
use chalcedony::error::{ChalError, LexerErrorKind};
use chalcedony::interp::Compiler;
use chalcedony::lexer::Lexer;
use chalcedony::span::{Position, Span};
use chalcedony::stack::Stack;
use chalcedony::tokens::{Token, TokenKind};
use chalcedony::types::Type;

fn sp() -> Span {
    Span::new(Position::new(1, 1), Position::new(1, 1))
}

fn first_lex_kind(err: ChalError) -> LexerErrorKind {
    match err {
        ChalError::Lexer(e) => e.kind,
        ChalError::Many(mut list) => first_lex_kind(list.remove(0)),
        other => panic!("expected a lexer error, got {:?}", other),
    }
}

fn lex_error_kind(src: &str) -> LexerErrorKind {
    let mut lexer = Lexer::new(src);
    let err = lexer.advance_prog().expect_err("expected a lex error");
    first_lex_kind(err)
}

#[test]
fn lexer_reports_unclosed_delimiter() {
    let kind = lex_error_kind("let a = (1 + 2");
    assert!(matches!(kind, LexerErrorKind::UnclosedDelimiter(_)));
}

#[test]
fn lexer_reports_unexpected_closing_delimiter() {
    let kind = lex_error_kind("let a = 1 + 2)");
    assert!(matches!(kind, LexerErrorKind::UnexpectedClosingDelimiter(_)));
}

#[test]
fn lexer_reports_mismatching_delimiters() {
    let kind = lex_error_kind("let a = (1 + 2]");
    assert!(matches!(kind, LexerErrorKind::MismatchingDelimiters(_, _)));
}

#[test]
fn lexer_rejects_invalid_global_statement() {
    let kind = lex_error_kind("return 3");
    assert!(matches!(kind, LexerErrorKind::InvalidGlobalStatement(_)));
}

#[test]
fn token_classifies_uint_literal() {
    let tok = Token::new("123".to_string(), sp()).expect("literal should classify");
    assert_eq!(tok.kind, TokenKind::Uint(123));
}

#[test]
fn token_classifies_negative_literal() {
    let tok = Token::new("-42".to_string(), sp()).expect("literal should classify");
    assert_eq!(tok.kind, TokenKind::Int(-42));
}

#[test]
fn token_keeps_float_literal_text() {
    let tok = Token::new("2.5".to_string(), sp()).expect("literal should classify");
    assert_eq!(tok.kind, TokenKind::Float("2.5".to_string()));
}

#[test]
fn token_classifies_keyword_over_identifier() {
    let tok = Token::new("while".to_string(), sp()).expect("keyword should classify");
    assert!(matches!(tok.kind, TokenKind::Keyword(_)));
    let ident = Token::new("whilex".to_string(), sp()).expect("identifier should classify");
    assert_eq!(ident.kind, TokenKind::Identifier("whilex".to_string()));
}

#[test]
fn token_classifies_unsafe_name() {
    let tok = Token::new("boom!".to_string(), sp()).expect("identifier should classify");
    assert_eq!(tok.kind, TokenKind::Identifier("boom!".to_string()));
}

#[test]
fn token_strips_string_quotes() {
    let tok = Token::new("'hey'".to_string(), sp()).expect("string should classify");
    assert_eq!(tok.kind, TokenKind::Str("hey".to_string()));
}

#[test]
fn token_rejects_out_of_range_literal() {
    assert!(Token::new("99999999999999999999999".to_string(), sp()).is_err());
}

#[test]
fn token_rejects_unterminated_string() {
    assert!(Token::new("'open".to_string(), sp()).is_err());
}

#[test]
fn soft_equality_widens_and_wildcards() {
    assert!(Type::Any.soft_eq(&Type::Str));
    assert!(Type::Int.soft_eq(&Type::Uint));
    assert!(!Type::Uint.soft_eq(&Type::Int));
    assert!(!Type::Void.soft_eq(&Type::Void));
    assert!(Type::Custom(Box::new("A".to_string())).soft_eq(&Type::Custom(Box::new(
        "A".to_string(),
    ))));
}

#[test]
fn class_name_of_types() {
    assert_eq!(Type::Uint.as_class(), "Uint".to_string());
    assert_eq!(Type::Str.as_class(), "String".to_string());
    assert_eq!(Type::Custom(Box::new("Example".to_string())).as_class(), "Example".to_string());
}

#[test]
fn verify_inserts_numeric_casts() {
    let mut code: Vec<Bytecode> = Vec::new();
    Type::verify(Type::Int, Type::Uint, &mut code, sp()).expect("uint widens into int");
    assert_eq!(code, vec![Bytecode::CastI]);
    Type::verify(Type::Float, Type::Int, &mut code, sp()).expect("int widens into float");
    assert_eq!(code, vec![Bytecode::CastI, Bytecode::CastF]);
    assert!(Type::verify(Type::Uint, Type::Str, &mut code, sp()).is_err());
    assert_eq!(code.len(), 2);
}

#[test]
fn stack_works_as_lifo() {
    let mut stack: Stack<u64> = Stack::new();
    assert!(stack.is_empty());
    stack.push(1);
    stack.push(2);
    assert_eq!(stack.len(), 2);
    assert_eq!(stack.peek(), Some(&2));
    assert_eq!(stack.pop(), Some(2));
    assert_eq!(stack.pop(), Some(1));
    assert_eq!(stack.pop(), None);
}

#[test]
fn list_literal_compiles_elements_then_build() {
    let mut compiler = Compiler::new();
    let out = compiler.compile_program("let a = [1, 2, 3]").expect("program should compile");
    assert_eq!(
        out,
        vec![
            Bytecode::ConstU(1),
            Bytecode::ConstU(2),
            Bytecode::ConstU(3),
            Bytecode::ConstL(3),
            Bytecode::SetGlobal(0),
        ],
    );
}

#[test]
fn comments_and_blank_lines_are_skipped() {
    let mut compiler = Compiler::new();
    let src = "# a greeting\n\nlet a: uint = 3  # trailing note\n";
    let out = compiler.compile_program(src).expect("program should compile");
    assert_eq!(out, vec![Bytecode::ConstU(3), Bytecode::SetGlobal(0)]);
}

#[test]
fn string_concatenation_types_as_str() {
    let mut compiler = Compiler::new();
    let out = compiler
        .compile_program("let a = 'ab' + 'cd'")
        .expect("program should compile");
    assert_eq!(
        out,
        vec![
            Bytecode::ConstS("ab".to_string()),
            Bytecode::ConstS("cd".to_string()),
            Bytecode::Add,
            Bytecode::SetGlobal(0),
        ],
    );
}

#[test]
fn for_loop_desugars_into_iterator_protocol() {
    let src = "class Range:\n    n: uint\n\nfn Range::__iter__(self: Range) -> Range:\n    return self\n\nfn Range::__next__!(self: Range) -> uint:\n    return self.n\n\nlet r = Range { n: 3 }\nfor x in r:\n    print(x)\n";
    let mut compiler = Compiler::new();
    let out = compiler.compile_program(src).expect("program should compile");
    // the loop part: iterator init, then the guarded next-call round
    let tail = &out[out.len() - 12..];
    assert_eq!(tail[0], Bytecode::GetGlobal(0));
    assert_eq!(tail[1], Bytecode::CallFunc(0));
    assert_eq!(tail[2], Bytecode::SetGlobal(1));
    assert_eq!(tail[3], Bytecode::TryScope(4));
    assert_eq!(tail[4], Bytecode::GetGlobal(1));
    assert_eq!(tail[5], Bytecode::CallFunc(1));
    assert_eq!(tail[6], Bytecode::SetLocal(0));
    assert_eq!(tail[7], Bytecode::CatchJmp(1));
    assert_eq!(tail[8], Bytecode::Jmp(3));
    assert_eq!(tail[9], Bytecode::GetLocal(0));
    assert_eq!(tail[10], Bytecode::Print);
    assert_eq!(tail[11], Bytecode::Jmp(-10));
}

#[test]
fn failed_chunk_leaves_no_stale_delimiters() {
    // the unclosed parenthesis fails its own chunk only; the next chunk
    // lexes cleanly instead of inheriting a stale open delimiter
    let mut compiler = Compiler::new();
    let err = compiler
        .compile_program("let a = (1\nlet b = 2")
        .expect_err("expected a lex error");
    match err {
        ChalError::Many(list) => {
            assert_eq!(list.len(), 1);
            assert!(matches!(
                first_lex_kind(list.into_iter().next().unwrap()),
                LexerErrorKind::UnclosedDelimiter(_)
            ));
        },
        other => panic!("expected collected errors, got {:?}", other),
    }
}

#[test]
fn empty_program_compiles_to_nothing() {
    let mut compiler = Compiler::new();
    let out = compiler.compile_program("").expect("an empty program should compile");
    assert!(out.is_empty());
}

#[test]
fn plain_assignment_reuses_global_slot() {
    let mut compiler = Compiler::new();
    let out = compiler
        .compile_program("let a = 1\na = 2")
        .expect("program should compile");
    assert_eq!(
        out,
        vec![
            Bytecode::ConstU(1),
            Bytecode::SetGlobal(0),
            Bytecode::ConstU(2),
            Bytecode::SetGlobal(0),
        ],
    );
}
