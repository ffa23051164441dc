use vstd::prelude::*;

use crate::span::Span;
use crate::tokens::TokenKind;
use crate::types::Type;

verus! {

/// Errors raised while grouping source characters into tokens and lines.
#[derive(Debug, PartialEq)]
pub enum LexerErrorKind {
    /// A character that cannot begin any token.
    InvalidChar(char),
    /// A lexeme that does not form a token: a bare `&` or `|`, a numeric
    /// literal out of range, or an unterminated string.
    InvalidToken(String),
    /// A non-empty line whose indentation is not a multiple of four spaces.
    InvalidIndentation,
    /// An opening delimiter left open at the end of a program chunk.
    UnclosedDelimiter(String),
    /// A closing delimiter without a matching open one.
    UnexpectedClosingDelimiter(String),
    /// A closing delimiter of a different kind than the innermost open one.
    MismatchingDelimiters(String, String),
    /// A top-level line that does not begin a global statement.
    InvalidGlobalStatement(TokenKind),
}

#[derive(Debug, PartialEq)]
pub struct LexerError {
    pub kind: LexerErrorKind,
    pub span: Span,
}

impl LexerError {
    pub fn new(kind: LexerErrorKind, span: Span) -> (r: LexerError)
        ensures
            r.kind == kind && r.span == span,
    {
        LexerError { kind, span }
    }
}

/// Errors raised while shaping tokens into syntax-tree nodes.
#[derive(Debug, PartialEq)]
pub enum ParserErrorKind {
    UnexpectedToken(TokenKind),
    ExpectedToken(TokenKind),
    /// An expression with no terms.
    EmptyExpr,
    /// Two terminals in a row without an operator between them.
    RepeatedExprTerminal,
    /// Two operators in a row without a terminal between them.
    RepeatedExprOperator,
    /// A unary operator applied after a terminal.
    InvalidUnaryOperator,
    /// An expression that does not end in a terminal.
    InvalidExprEnd,
}

#[derive(Debug, PartialEq)]
pub struct ParserError {
    pub kind: ParserErrorKind,
    pub span: Span,
}

impl ParserError {
    pub fn new(kind: ParserErrorKind, span: Span) -> (r: ParserError)
        ensures
            r.kind == kind && r.span == span,
    {
        ParserError { kind, span }
    }
}

/// Errors raised while walking the syntax tree and emitting bytecode.
#[derive(Debug, PartialEq)]
pub enum CompileErrorKind {
    UnknownVariable(String),
    UnknownFunction(String),
    /// The class-name form of the operands of a binary operation they do not
    /// support, alongside the two operand types.
    InvalidBinOpr(String, Type, Type),
    InvalidUnaryOpr(String, Type),
    /// Expected and received types of a failed assignment or argument pass.
    InvalidType(Type, Type),
    /// Calling a non-void function as a bare statement.
    NonVoidFunctionStmnt(Type),
    ClassAlreadyExists(String),
    UnknownClass(String),
    MissingMembers(Vec<String>),
    UndefinedMembers(Vec<String>),
    UnknownMember(String),
    UnknownNamespace(String),
    MethodNotImplemented(String),
    TypeDoesNotExits(String),
    UninferableType(Type),
    IncoherentList(Type, Type),
    InvalidIterable(Type),
    VoidFunctionExpr,
    NoDefaultReturnStmnt,
    MutatingExternalState,
    RedefiningFunctionArg,
    VoidArgument,
    VoidVariable,
    VoidMember,
    OverwrittenFunction,
    RedefiningVariable,
    ReturnOutsideFunc,
    CtrlFlowOutsideLoop,
    NestedTryCatch,
    UnsafeOpInSafeBlock,
    ThrowInSafeFunc,
    MutatingConstant,
    MemberAlreadyExists,
    ExceptionTyOutsideCatch,
}

#[derive(Debug, PartialEq)]
pub struct CompileError {
    pub kind: CompileErrorKind,
    pub span: Span,
}

impl CompileError {
    pub fn new(kind: CompileErrorKind, span: Span) -> (r: CompileError)
        ensures
            r.kind == kind && r.span == span,
    {
        CompileError { kind, span }
    }
}

/// An invariant of the compiler itself was broken; legal input never
/// produces this.
#[derive(Debug, PartialEq)]
pub struct InternalError {
    pub msg: String,
}

impl InternalError {
    pub fn new(msg: &str) -> (r: InternalError)
        ensures
            r.msg@ == msg@,
    {
        InternalError { msg: msg.to_owned() }
    }
}

/// Any error of the compilation pipeline. `Many` aggregates the errors
/// collected across the statements of one body or one program chunk.
#[derive(Debug, PartialEq)]
pub enum ChalError {
    Lexer(LexerError),
    Parser(ParserError),
    Compile(CompileError),
    Internal(InternalError),
    Many(Vec<ChalError>),
}

impl ChalError {
    pub fn lexer_err(kind: LexerErrorKind, span: Span) -> (r: ChalError)
        ensures
            r == ChalError::Lexer(LexerError { kind, span }),
    {
        ChalError::Lexer(LexerError { kind, span })
    }

    pub fn parser_err(kind: ParserErrorKind, span: Span) -> (r: ChalError)
        ensures
            r == ChalError::Parser(ParserError { kind, span }),
    {
        ChalError::Parser(ParserError { kind, span })
    }

    pub fn compile_err(kind: CompileErrorKind, span: Span) -> (r: ChalError)
        ensures
            r == ChalError::Compile(CompileError { kind, span }),
    {
        ChalError::Compile(CompileError { kind, span })
    }

    pub fn internal(msg: &str) -> (r: ChalError)
        ensures
            r matches ChalError::Internal(e) && e.msg@ == msg@,
    {
        ChalError::Internal(InternalError::new(msg))
    }

}

} // verus!
