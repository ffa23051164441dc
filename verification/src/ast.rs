use vstd::prelude::*;

use crate::error::{ChalError, ParserErrorKind};
use crate::span::Span;
use crate::tokens::{Token, TokenKind};
use crate::types::Type;

verus! {

/// The binary operators of the language, in the order of the source text.
#[derive(Clone, Copy, Debug, PartialEq, Eq, Structural)]
pub enum BinOprType {
    Add,
    Sub,
    Mul,
    Div,
    Mod,
    And,
    Or,
    Gt,
    Lt,
    GtEq,
    LtEq,
    EqEq,
    BangEq,
}

/// The unary operators: arithmetic negation and boolean negation.
#[derive(Clone, Copy, Debug, PartialEq, Eq, Structural)]
pub enum UnaryOprType {
    Neg,
    Bang,
}

/// The assignment operators: plain assignment and the compound arithmetic
/// forms.
#[derive(Clone, Copy, Debug, PartialEq, Eq, Structural)]
pub enum AssignOprType {
    Eq,
    AddEq,
    SubEq,
    MulEq,
    DivEq,
    ModEq,
}

/// A literal value inside an expression. A float literal is carried as its
/// source text.
#[derive(Debug, PartialEq)]
pub enum NodeValue {
    Int(i64),
    Uint(u64),
    Float(String),
    Str(String),
    Bool(bool),
}

/// A single element of an expression stored in Reverse Polish Notation: a
/// value, an operator, or an indirectly computed value.
#[derive(Debug, PartialEq)]
pub enum NodeExprInner {
    BinOpr(BinOprType),
    UnaryOpr(UnaryOprType),
    Value(NodeValue),
    Resolution(NodeAttrRes),
    InlineClass(NodeInlineClass),
    List(NodeList),
}

/// How many values an expression's pseudo-stack holds after the items of `s`
/// are evaluated left to right: a terminal pushes one, a binary operator pops
/// two and pushes one, a unary operator rewrites the top. `None` marks a
/// sequence that underflows the stack.
pub open spec fn rpn_count(s: Seq<NodeExprInner>) -> Option<int>
    decreases s.len(),
{
    if s.len() == 0 {
        Some(0)
    } else {
        match rpn_count(s.drop_last()) {
            Option::None => Option::None,
            Option::Some(c) => match s.last() {
                NodeExprInner::BinOpr(_) => if c >= 2 {
                    Some(c - 1)
                } else {
                    Option::None
                },
                NodeExprInner::UnaryOpr(_) => if c >= 1 {
                    Some(c)
                } else {
                    Option::None
                },
                _ => Some(c + 1),
            },
        }
    }
}

/// A well-formed Reverse Polish Notation sequence: non-empty, never
/// underflowing, and leaving exactly one value — the expression's result —
/// on the pseudo-stack.
pub open spec fn valid_rpn(s: Seq<NodeExprInner>) -> bool {
    s.len() > 0 && rpn_count(s) == Some(1int)
}

/// An inline class construction: `Name { member: expr, ... }`. The members
/// are kept in source order, so compilation is deterministic.
#[derive(Debug, PartialEq)]
pub struct NodeInlineClass {
    pub class: String,
    pub members: Vec<ClassMemberInit>,
    pub span: Span,
}

/// One member initialisation inside an inline class construction. A member
/// name without a value stands for a variable of the same name.
#[derive(Debug, PartialEq)]
pub struct ClassMemberInit {
    pub name: String,
    pub value: NodeExpr,
    pub span: Span,
}

/// A list literal: `[expr, ...]`.
#[derive(Debug, PartialEq)]
pub struct NodeList {
    pub elements: Vec<NodeExpr>,
    pub span: Span,
}

/// A series of operations resulting in a single value, stored in Reverse
/// Polish Notation: compiling it is a single left-to-right pass.
#[derive(Debug, PartialEq)]
pub struct NodeExpr {
    pub expr: Vec<NodeExprInner>,
    pub span: Span,
}

impl NodeExpr {
    /// An expression with no terms; stands for the missing value of a bare
    /// `return`.
    pub fn empty(span: Span) -> (r: NodeExpr)
        ensures
            r.expr@.len() == 0,
    {
        NodeExpr { expr: Vec::new(), span }
    }
}

/// A plain variable use inside an attribute chain.
#[derive(Debug, PartialEq)]
pub struct NodeVarCall {
    pub name: String,
    pub span: Span,
}

impl NodeVarCall {
    /// Builds the node from an identifier token.
    pub fn new(token: Token) -> (r: Result<NodeVarCall, ChalError>)
        ensures
            r matches Ok(node) ==> (token.kind matches TokenKind::Identifier(name) && node.name@
                == name@),
            r is Err ==> !(token.kind is Identifier),
    {
        let span = token.span;
        match token.kind {
            TokenKind::Identifier(name) => Ok(NodeVarCall { name, span }),
            kind => Err(
                ChalError::parser_err(
                    ParserErrorKind::ExpectedToken(TokenKind::Identifier("".to_owned())),
                    span,
                ),
            ),
        }
    }
}

/// A function call inside an attribute chain: name, optional class
/// namespace, and argument expressions.
#[derive(Debug, PartialEq)]
pub struct NodeFuncCall {
    pub name: String,
    pub namespace: Option<String>,
    pub args: Vec<NodeExpr>,
    pub span: Span,
}

/// One link of an attribute chain.
#[derive(Debug, PartialEq)]
pub enum NodeAttribute {
    VarCall(NodeVarCall),
    FuncCall(NodeFuncCall),
}

/// A dotted chain of attribute accesses and calls, such as `a.b(x).c`,
/// standing as a single terminal inside an expression.
#[derive(Debug, PartialEq)]
pub struct NodeAttrRes {
    pub resolution: Vec<NodeAttribute>,
    pub span: Span,
}

/// A variable definition: `[const] let NAME [: TYPE] = EXPR`.
#[derive(Debug, PartialEq)]
pub struct NodeVarDef {
    pub ty: Type,
    pub name: String,
    pub value: NodeExpr,
    pub is_const: bool,
    pub span: Span,
}

/// One declared argument of a function definition.
#[derive(Debug, PartialEq)]
pub struct Arg {
    pub name: String,
    pub ty: Type,
}

/// A function definition. A name ending in `!` marks an unsafe function,
/// which may throw; a method's namespace is its class.
#[derive(Debug, PartialEq)]
pub struct NodeFuncDef {
    pub name: String,
    pub args: Vec<Arg>,
    pub ret_type: Type,
    pub namespace: Option<String>,
    pub body: Vec<NodeStmnt>,
    pub span: Span,
}

/// A function call standing as a whole statement.
#[derive(Debug, PartialEq)]
pub struct NodeFuncCallStmnt(pub NodeAttrRes);

/// An assignment: the left-hand attribute chain, the assignment operator,
/// and the right-hand expression.
#[derive(Debug, PartialEq)]
pub struct NodeAssign {
    pub lhs: NodeAttrRes,
    pub opr: AssignOprType,
    pub rhs: NodeExpr,
}

/// A return statement; a bare `return` carries an empty expression.
#[derive(Debug, PartialEq)]
pub struct NodeRetStmnt {
    pub value: NodeExpr,
    pub span: Span,
}

/// An if statement: the condition, its body, and the ordered `elif` and
/// `else` branches.
#[derive(Debug, PartialEq)]
pub struct NodeIfStmnt {
    pub condition: NodeExpr,
    pub body: Vec<NodeStmnt>,
    pub branches: Vec<NodeIfBranch>,
}

#[derive(Debug, PartialEq)]
pub enum NodeIfBranch {
    Elif(NodeElifStmnt),
    Else(NodeElseStmnt),
}

#[derive(Debug, PartialEq)]
pub struct NodeElifStmnt {
    pub condition: NodeExpr,
    pub body: Vec<NodeStmnt>,
}

#[derive(Debug, PartialEq)]
pub struct NodeElseStmnt {
    pub body: Vec<NodeStmnt>,
}

/// A while loop: the condition and the body.
#[derive(Debug, PartialEq)]
pub struct NodeWhileLoop {
    pub condition: NodeExpr,
    pub body: Vec<NodeStmnt>,
}

/// A for loop over an iterable: `for VAR in EXPR:`.
#[derive(Debug, PartialEq)]
pub struct NodeForLoop {
    pub iter: NodeVarCall,
    pub iterable: NodeExpr,
    pub body: Vec<NodeStmnt>,
}

#[derive(Debug, PartialEq)]
pub struct NodeBreakStmnt {
    pub span: Span,
}

#[derive(Debug, PartialEq)]
pub struct NodeContStmnt {
    pub span: Span,
}

/// A try-catch block: the guarded body, the exception variable of the catch
/// clause, and the catch body.
#[derive(Debug, PartialEq)]
pub struct NodeTryCatch {
    pub try_body: Vec<NodeStmnt>,
    pub try_span: Span,
    pub exception_var: NodeVarCall,
    pub catch_body: Vec<NodeStmnt>,
}

/// A throw statement; the thrown expression must be a string.
#[derive(Debug, PartialEq)]
pub struct NodeThrow(pub NodeExpr);

/// One member declaration of a class body.
#[derive(Debug, PartialEq)]
pub struct Member {
    pub name: String,
    pub ty: Type,
    pub span: Span,
}

/// A class definition: its members, then its methods. A method taking
/// `self` first is a class method; any other function in the body is a
/// class-scoped function.
#[derive(Debug, PartialEq)]
pub struct NodeClass {
    pub name: String,
    pub members: Vec<Member>,
    pub methods: Vec<NodeFuncDef>,
    pub span: Span,
}

/// A statement inside a function or control-flow body.
#[derive(Debug, PartialEq)]
pub enum NodeStmnt {
    VarDef(NodeVarDef),
    FuncCall(NodeFuncCallStmnt),
    Assign(NodeAssign),
    RetStmnt(NodeRetStmnt),
    IfStmnt(NodeIfStmnt),
    WhileLoop(NodeWhileLoop),
    ForLoop(NodeForLoop),
    BreakStmnt(NodeBreakStmnt),
    ContStmnt(NodeContStmnt),
    TryCatch(NodeTryCatch),
    Throw(NodeThrow),
}

/// A top-level program node: one chunk of the source.
#[derive(Debug, PartialEq)]
pub enum NodeProg {
    VarDef(NodeVarDef),
    FuncDef(NodeFuncDef),
    FuncCall(NodeFuncCallStmnt),
    Assign(NodeAssign),
    IfStmnt(NodeIfStmnt),
    WhileLoop(NodeWhileLoop),
    ForLoop(NodeForLoop),
    TryCatch(NodeTryCatch),
    Class(NodeClass),
}

} // verus!
