use vstd::prelude::*;

use crate::ast::{
    rpn_count, valid_rpn, BinOprType, ClassMemberInit, NodeAttrRes, NodeAttribute, NodeExpr,
    NodeExprInner, NodeFuncCall, NodeInlineClass, NodeList, NodeValue, NodeVarCall, UnaryOprType,
};
use crate::error::{ChalError, ParserErrorKind};
use crate::readers::TokenReader;
use crate::span::Span;
use crate::stack::Stack;
use crate::tokens::{Delimiter, Operator, Special, Token, TokenKind};
use std::collections::VecDeque;

verus! {

/// An operator held on the Shunting-Yard operator stack; the opening
/// parenthesis acts as a sentinel with the lowest precedence.
#[derive(Clone, Copy, Debug, PartialEq, Eq, Structural)]
enum StackOpr {
    Add,
    Sub,
    Mul,
    Div,
    Mod,
    Neg,
    And,
    Or,
    Gt,
    Lt,
    GtEq,
    LtEq,
    EqEq,
    BangEq,
    Bang,
    OpenPar,
}

impl StackOpr {
    /// A higher precedence binds tighter. The unary operators are
    /// right-associative; giving them the highest precedence achieves the
    /// same effect without further machinery.
    spec fn spec_precedence(self) -> u64 {
        match self {
            StackOpr::Add => 5,
            StackOpr::Sub => 5,
            StackOpr::Mul => 6,
            StackOpr::Div => 6,
            StackOpr::Mod => 6,
            StackOpr::And => 2,
            StackOpr::Or => 1,
            StackOpr::Gt => 4,
            StackOpr::Lt => 4,
            StackOpr::GtEq => 4,
            StackOpr::LtEq => 4,
            StackOpr::EqEq => 3,
            StackOpr::BangEq => 3,
            StackOpr::Bang => 999,
            StackOpr::Neg => 999,
            StackOpr::OpenPar => 0,
        }
    }

    fn precedence(&self) -> (r: u64)
        ensures
            r == self.spec_precedence(),
    {
        match self {
            StackOpr::Add => 5,
            StackOpr::Sub => 5,
            StackOpr::Mul => 6,
            StackOpr::Div => 6,
            StackOpr::Mod => 6,
            StackOpr::And => 2,
            StackOpr::Or => 1,
            StackOpr::Gt => 4,
            StackOpr::Lt => 4,
            StackOpr::GtEq => 4,
            StackOpr::LtEq => 4,
            StackOpr::EqEq => 3,
            StackOpr::BangEq => 3,
            StackOpr::Bang => 999,
            StackOpr::Neg => 999,
            StackOpr::OpenPar => 0,
        }
    }

    /// How many values the operator consumes net: one for a binary
    /// operator, none for a unary operator or the sentinel.
    spec fn weight(self) -> int {
        match self {
            StackOpr::Neg => 0,
            StackOpr::Bang => 0,
            StackOpr::OpenPar => 0,
            _ => 1,
        }
    }

    fn is_unary(&self) -> (r: bool)
        ensures
            r == (*self == StackOpr::Neg || *self == StackOpr::Bang),
    {
        matches!(self, StackOpr::Neg | StackOpr::Bang)
    }

    /// The expression item an operator leaves in the output; the sentinel
    /// leaves none.
    fn to_inner(self) -> (r: Option<NodeExprInner>)
        ensures
            match r {
                Some(item) => self != StackOpr::OpenPar && (self.weight() == 1 ==> item is BinOpr)
                    && (self.weight() == 0 ==> item is UnaryOpr),
                None => self == StackOpr::OpenPar,
            },
    {
        match self {
            StackOpr::Add => Some(NodeExprInner::BinOpr(BinOprType::Add)),
            StackOpr::Sub => Some(NodeExprInner::BinOpr(BinOprType::Sub)),
            StackOpr::Mul => Some(NodeExprInner::BinOpr(BinOprType::Mul)),
            StackOpr::Div => Some(NodeExprInner::BinOpr(BinOprType::Div)),
            StackOpr::Mod => Some(NodeExprInner::BinOpr(BinOprType::Mod)),
            StackOpr::And => Some(NodeExprInner::BinOpr(BinOprType::And)),
            StackOpr::Or => Some(NodeExprInner::BinOpr(BinOprType::Or)),
            StackOpr::Gt => Some(NodeExprInner::BinOpr(BinOprType::Gt)),
            StackOpr::Lt => Some(NodeExprInner::BinOpr(BinOprType::Lt)),
            StackOpr::GtEq => Some(NodeExprInner::BinOpr(BinOprType::GtEq)),
            StackOpr::LtEq => Some(NodeExprInner::BinOpr(BinOprType::LtEq)),
            StackOpr::EqEq => Some(NodeExprInner::BinOpr(BinOprType::EqEq)),
            StackOpr::BangEq => Some(NodeExprInner::BinOpr(BinOprType::BangEq)),
            StackOpr::Bang => Some(NodeExprInner::UnaryOpr(UnaryOprType::Bang)),
            StackOpr::Neg => Some(NodeExprInner::UnaryOpr(UnaryOprType::Neg)),
            StackOpr::OpenPar => None,
        }
    }
}

/// A token that stands for a value by itself: a literal. An identifier also
/// begins a terminal, but may consume further tokens.
pub open spec fn is_value_token(k: TokenKind) -> bool {
    match k {
        TokenKind::Int(_) => true,
        TokenKind::Uint(_) => true,
        TokenKind::Float(_) => true,
        TokenKind::Str(_) => true,
        TokenKind::Bool(_) => true,
        _ => false,
    }
}

/// The literal value a value token carries.
pub open spec fn token_value(k: TokenKind) -> NodeValue {
    match k {
        TokenKind::Int(v) => NodeValue::Int(v),
        TokenKind::Uint(v) => NodeValue::Uint(v),
        TokenKind::Float(s) => NodeValue::Float(s),
        TokenKind::Str(s) => NodeValue::Str(s),
        TokenKind::Bool(b) => NodeValue::Bool(b),
        _ => NodeValue::Bool(false),
    }
}

/// A token holding a binary operator of the expression grammar.
pub open spec fn is_binop_token(k: TokenKind) -> bool {
    match k {
        TokenKind::Operator(o) => match o {
            Operator::Add => true,
            Operator::Sub => true,
            Operator::Mul => true,
            Operator::Div => true,
            Operator::Mod => true,
            Operator::And => true,
            Operator::Or => true,
            Operator::Gt => true,
            Operator::Lt => true,
            Operator::GtEq => true,
            Operator::LtEq => true,
            Operator::EqEq => true,
            Operator::BangEq => true,
            _ => false,
        },
        _ => false,
    }
}

/// The Shunting-Yard operator for an operator token, if it may stand inside
/// an expression.
fn from_lex_operator(op: Operator) -> (r: Option<StackOpr>)
    ensures
        r matches Some(s) ==> s != StackOpr::OpenPar,
        is_binop_token(TokenKind::Operator(op)) ==> (r matches Some(s) && s.weight() == 1),
{
    match op {
        Operator::Add => Some(StackOpr::Add),
        Operator::Sub => Some(StackOpr::Sub),
        Operator::Mul => Some(StackOpr::Mul),
        Operator::Div => Some(StackOpr::Div),
        Operator::Mod => Some(StackOpr::Mod),
        Operator::And => Some(StackOpr::And),
        Operator::Or => Some(StackOpr::Or),
        Operator::Gt => Some(StackOpr::Gt),
        Operator::Lt => Some(StackOpr::Lt),
        Operator::GtEq => Some(StackOpr::GtEq),
        Operator::LtEq => Some(StackOpr::LtEq),
        Operator::EqEq => Some(StackOpr::EqEq),
        Operator::BangEq => Some(StackOpr::BangEq),
        Operator::Bang => Some(StackOpr::Bang),
        Operator::Neg => Some(StackOpr::Neg),
        _ => None,
    }
}

/// What the last handled item of the expression was; the alternation of
/// terminals and operators is enforced through it.
#[derive(Clone, Copy, Debug, PartialEq, Eq, Structural)]
enum PrevType {
    Terminal,
    BinOpr,
    UnaryOpr,
}

/// The net number of values that the operators still on the stack will
/// consume once flushed.
spec fn stack_binops(s: Seq<StackOpr>) -> int
    decreases s.len(),
{
    if s.len() == 0 {
        0
    } else {
        stack_binops(s.drop_last()) + s.last().weight()
    }
}

proof fn lemma_stack_binops_push(s: Seq<StackOpr>, x: StackOpr)
    ensures
        stack_binops(s.push(x)) == stack_binops(s) + x.weight(),
{
    assert(s.push(x).drop_last() =~= s);
    assert(s.push(x).last() == x);
}

proof fn lemma_stack_binops_nonneg(s: Seq<StackOpr>)
    ensures
        stack_binops(s) >= 0,
    decreases s.len(),
{
    if s.len() > 0 {
        lemma_stack_binops_nonneg(s.drop_last());
    }
}

proof fn lemma_rpn_push(s: Seq<NodeExprInner>, x: NodeExprInner)
    ensures
        rpn_count(s.push(x)) == (match rpn_count(s) {
            Option::None => Option::<int>::None,
            Option::Some(c) => match x {
                NodeExprInner::BinOpr(_) => if c >= 2 {
                    Option::Some(c - 1)
                } else {
                    Option::<int>::None
                },
                NodeExprInner::UnaryOpr(_) => if c >= 1 {
                    Option::Some(c)
                } else {
                    Option::<int>::None
                },
                _ => Option::Some(c + 1),
            },
        }),
{
    assert(s.push(x).drop_last() =~= s);
    assert(s.push(x).last() == x);
}

/// The pseudo-stack count that the main loop maintains: the operators still
/// to be flushed, plus the result of the last terminal if one was just read.
spec fn shunt_count(prev: PrevType, oprs: Seq<StackOpr>) -> int {
    stack_binops(oprs) + if prev == PrevType::Terminal {
        1int
    } else {
        0int
    }
}

impl NodeExpr {
    /// A modified version of Edsger Dijkstra's Shunting-Yard algorithm,
    /// turning an infix token stream into Reverse Polish Notation. Beyond
    /// the classic algorithm it enforces the alternation of terminals and
    /// operators, so that every successfully parsed expression is a
    /// well-formed RPN sequence: it never underflows the value stack and
    /// leaves exactly one result on it.
    #[verifier::loop_isolation(false)]
    pub fn new(reader: TokenReader) -> (r: Result<NodeExpr, ChalError>)
        ensures
            r matches Ok(node) ==> valid_rpn(node.expr@),
            (reader@.len() == 0 || reader@[0].kind is Newline) ==> (r matches Err(e) && e matches
                ChalError::Parser(pe) && pe.kind is EmptyExpr),
            (reader@.len() >= 2 && is_value_token(reader@[0].kind) && is_value_token(
                reader@[1].kind,
            )) ==> (r matches Err(e) && e matches ChalError::Parser(pe)
                && pe.kind is RepeatedExprTerminal),
            (reader@.len() >= 3 && is_value_token(reader@[0].kind) && is_binop_token(
                reader@[1].kind,
            ) && is_binop_token(reader@[2].kind)) ==> (r matches Err(e) && e matches
                ChalError::Parser(pe) && pe.kind is RepeatedExprOperator),
            (reader@.len() >= 1 && is_value_token(reader@[0].kind) && (reader@.len() == 1 || (
            reader@.len() == 2 && reader@[1].kind is Newline))) ==> (r matches Ok(node)
                && node.expr@ == seq![NodeExprInner::Value(token_value(reader@[0].kind))]),
        decreases reader@.len(),
    {
        let ghost entry_len = reader@.len();
        let ghost entry = reader@;
        let ghost c_empty = entry.len() == 0 || entry[0].kind is Newline;
        let ghost c_tt = entry.len() >= 2 && is_value_token(entry[0].kind) && is_value_token(
            entry[1].kind,
        );
        let ghost c_obb = entry.len() >= 3 && is_value_token(entry[0].kind) && is_binop_token(
            entry[1].kind,
        ) && is_binop_token(entry[2].kind);
        let ghost c_single = entry.len() >= 1 && is_value_token(entry[0].kind) && (entry.len()
            == 1 || (entry.len() == 2 && entry[1].kind is Newline));
        let ghost mut steps: int = 0;
        let mut reader = reader;
        let mut output = Stack::<NodeExprInner>::new();
        let mut operators = Stack::<StackOpr>::new();
        let start = reader.current().start;
        let mut prev = PrevType::BinOpr;
        let mut done = false;

        while !done
            invariant
                reader@.len() <= entry_len,
                rpn_count(output@) == Some(shunt_count(prev, operators@)),
                prev == PrevType::BinOpr && operators@.len() > 0 ==> (
                operators@.last().weight() == 1 || operators@.last() == StackOpr::OpenPar),
                steps >= 0,
                c_empty ==> (output@.len() == 0 && operators@.len() == 0 && prev
                    == PrevType::BinOpr && (!done ==> (steps == 0 && reader@ == entry))),
                (c_tt || c_single) ==> steps <= 1,
                c_obb ==> steps <= 2,
                c_tt ==> !done,
                c_obb ==> !done,
                (c_tt || c_obb || c_single) && !done && steps == 0 ==> (reader@ == entry
                    && output@.len() == 0 && operators@.len() == 0 && prev
                    == PrevType::BinOpr),
                (c_tt || c_obb || c_single) && !done && steps == 1 ==> (reader@ == entry.skip(1)
                    && output@ == seq![NodeExprInner::Value(token_value(entry[0].kind))]
                    && operators@.len() == 0 && prev == PrevType::Terminal),
                c_obb && !done && steps == 2 ==> (reader@ == entry.skip(2) && output@ == seq![
                    NodeExprInner::Value(token_value(entry[0].kind)),
                ] && operators@.len() == 1 && operators@.last().weight() == 1 && prev
                    == PrevType::BinOpr),
                c_single && done ==> (output@ == seq![
                    NodeExprInner::Value(token_value(entry[0].kind)),
                ] && operators@.len() == 0 && prev == PrevType::Terminal),
            decreases reader@.len() + (if done {
                0int
            } else {
                1int
            }),
        {
            let current = match reader.advance() {
                Some(tok) => tok,
                None => {
                    done = true;
                    proof {
                        if c_single {
                            assert(steps == 1);
                        }
                    }
                    continue;
                },
            };
            proof {
                if steps < entry.len() {
                    assert(entry.skip(steps)[0] == entry[steps]);
                    assert(entry.skip(steps).skip(1) =~= entry.skip(steps + 1));
                }
            }
            let cspan = current.span;

            match current.kind {
                TokenKind::Int(val) => {
                    if matches!(prev, PrevType::Terminal) {
                        return Err(
                            ChalError::parser_err(ParserErrorKind::RepeatedExprTerminal, cspan),
                        );
                    }
                    let item = NodeExprInner::Value(NodeValue::Int(val));
                    proof {
                        lemma_rpn_push(output@, item);
                    }
                    output.push(item);
                    prev = PrevType::Terminal;
                },
                TokenKind::Uint(val) => {
                    if matches!(prev, PrevType::Terminal) {
                        return Err(
                            ChalError::parser_err(ParserErrorKind::RepeatedExprTerminal, cspan),
                        );
                    }
                    let item = NodeExprInner::Value(NodeValue::Uint(val));
                    proof {
                        lemma_rpn_push(output@, item);
                    }
                    output.push(item);
                    prev = PrevType::Terminal;
                },
                TokenKind::Float(val) => {
                    if matches!(prev, PrevType::Terminal) {
                        return Err(
                            ChalError::parser_err(ParserErrorKind::RepeatedExprTerminal, cspan),
                        );
                    }
                    let item = NodeExprInner::Value(NodeValue::Float(val));
                    proof {
                        lemma_rpn_push(output@, item);
                    }
                    output.push(item);
                    prev = PrevType::Terminal;
                },
                TokenKind::Str(val) => {
                    if matches!(prev, PrevType::Terminal) {
                        return Err(
                            ChalError::parser_err(ParserErrorKind::RepeatedExprTerminal, cspan),
                        );
                    }
                    let item = NodeExprInner::Value(NodeValue::Str(val));
                    proof {
                        lemma_rpn_push(output@, item);
                    }
                    output.push(item);
                    prev = PrevType::Terminal;
                },
                TokenKind::Bool(val) => {
                    if matches!(prev, PrevType::Terminal) {
                        return Err(
                            ChalError::parser_err(ParserErrorKind::RepeatedExprTerminal, cspan),
                        );
                    }
                    let item = NodeExprInner::Value(NodeValue::Bool(val));
                    proof {
                        lemma_rpn_push(output@, item);
                    }
                    output.push(item);
                    prev = PrevType::Terminal;
                },
                TokenKind::Identifier(name) => {
                    if matches!(prev, PrevType::Terminal) {
                        return Err(
                            ChalError::parser_err(ParserErrorKind::RepeatedExprTerminal, cspan),
                        );
                    }
                    let item: NodeExprInner = if reader.peek_is_exact(
                        &TokenKind::Delimiter(Delimiter::OpenBrace),
                    ) {
                        let node = parse_inline_class(name, cspan, &mut reader)?;
                        NodeExprInner::InlineClass(node)
                    } else {
                        let node = parse_attr_res(name, cspan, &mut reader)?;
                        NodeExprInner::Resolution(node)
                    };
                    proof {
                        lemma_rpn_push(output@, item);
                    }
                    output.push(item);
                    prev = PrevType::Terminal;
                },
                TokenKind::Operator(current_opr) => {
                    let opr = match from_lex_operator(current_opr) {
                        Some(opr) => opr,
                        None => {
                            return Err(
                                ChalError::parser_err(
                                    ParserErrorKind::UnexpectedToken(
                                        TokenKind::Operator(current_opr),
                                    ),
                                    cspan,
                                ),
                            );
                        },
                    };
                    let unary = opr.is_unary();
                    // an operator directly after an operator has no operand
                    // between them
                    if !unary && !matches!(prev, PrevType::Terminal) {
                        return Err(
                            ChalError::parser_err(ParserErrorKind::RepeatedExprOperator, cspan),
                        );
                    }
                    if unary && matches!(prev, PrevType::UnaryOpr) {
                        return Err(
                            ChalError::parser_err(ParserErrorKind::RepeatedExprOperator, cspan),
                        );
                    }
                    if unary && matches!(prev, PrevType::Terminal) {
                        return Err(
                            ChalError::parser_err(ParserErrorKind::InvalidUnaryOperator, cspan),
                        );
                    }

                    let current_precedence = opr.precedence();
                    loop
                        invariant
                            rpn_count(output@) == Some(shunt_count(prev, operators@)),
                            prev == PrevType::BinOpr && operators@.len() > 0 ==> (
                            operators@.last().weight() == 1 || operators@.last()
                                == StackOpr::OpenPar),
                            (c_tt || c_obb || c_single) && !done && steps == 1 ==> (
                            operators@.len() == 0 && output@ == seq![
                                NodeExprInner::Value(token_value(entry[0].kind)),
                            ]),
                        decreases operators@.len(),
                    {
                        let do_pop = match operators.peek() {
                            Some(top) => top.precedence() >= current_precedence,
                            None => false,
                        };
                        if !do_pop {
                            break;
                        }
                        let top = match operators.pop() {
                            Some(top) => top,
                            None => {
                                return Err(
                                    ChalError::internal("NodeExpr::new(): empty operator stack"),
                                );
                            },
                        };
                        match top.to_inner() {
                            Some(item) => {
                                proof {
                                    lemma_stack_binops_nonneg(operators@);
                                    lemma_rpn_push(output@, item);
                                }
                                output.push(item);
                            },
                            None => {
                                return Err(
                                    ChalError::internal(
                                        "NodeExpr::new(): popped a sentinel during operator handling",
                                    ),
                                );
                            },
                        }
                    }

                    proof {
                        lemma_stack_binops_push(operators@, opr);
                    }
                    operators.push(opr);
                    prev = if unary {
                        PrevType::UnaryOpr
                    } else {
                        PrevType::BinOpr
                    };
                },
                TokenKind::Delimiter(Delimiter::OpenPar) => {
                    proof {
                        lemma_stack_binops_push(operators@, StackOpr::OpenPar);
                    }
                    operators.push(StackOpr::OpenPar);
                },
                TokenKind::Delimiter(Delimiter::ClosePar) => {
                    // a parenthesised group must itself end in a terminal
                    if !matches!(prev, PrevType::Terminal) {
                        return Err(
                            ChalError::parser_err(ParserErrorKind::InvalidExprEnd, cspan),
                        );
                    }
                    loop
                        invariant
                            prev == PrevType::Terminal,
                            rpn_count(output@) == Some(shunt_count(prev, operators@)),
                        decreases operators@.len(),
                    {
                        let top = match operators.pop() {
                            Some(top) => top,
                            None => {
                                return Err(
                                    ChalError::internal(
                                        "NodeExpr::new(): closing parenthesis without an open one",
                                    ),
                                );
                            },
                        };
                        if matches!(top, StackOpr::OpenPar) {
                            break;
                        }
                        match top.to_inner() {
                            Some(item) => {
                                proof {
                                    lemma_stack_binops_nonneg(operators@);
                                    lemma_rpn_push(output@, item);
                                }
                                output.push(item);
                            },
                            None => {
                                return Err(
                                    ChalError::internal("NodeExpr::new(): unreachable sentinel"),
                                );
                            },
                        }
                    }
                },
                TokenKind::Delimiter(Delimiter::OpenBracket) => {
                    if matches!(prev, PrevType::Terminal) {
                        return Err(
                            ChalError::parser_err(ParserErrorKind::RepeatedExprTerminal, cspan),
                        );
                    }
                    let ghost head_len = reader@.len() + 1;
                    reader.push_front(
                        Token {
                            src: current.src,
                            kind: TokenKind::Delimiter(Delimiter::OpenBracket),
                            span: cspan,
                        },
                    );
                    let mut scope = reader.advance_scope_raw(
                        Delimiter::OpenBracket,
                        Delimiter::CloseBracket,
                    );
                    let ghost scope_len = scope@.len();
                    let _ = scope.pop_front();
                    let _ = scope.pop_back();
                    let parts = TokenReader::new(scope, cspan).split_commas();
                    let mut parts = parts;
                    let mut elements = Vec::<NodeExpr>::new();
                    while parts.len() > 0
                        invariant
                            forall|i: int|
                                0 <= i < parts@.len() ==> (#[trigger] parts@[i])@.len()
                                    < entry_len,
                        decreases parts@.len(),
                    {
                        let part = parts.remove(0);
                        if part.len() == 0 {
                            return Err(
                                ChalError::parser_err(ParserErrorKind::EmptyExpr, cspan),
                            );
                        }
                        let sub = NodeExpr::new(TokenReader::new(part, cspan))?;
                        elements.push(sub);
                    }
                    let span = Span::new(start, reader.current().end);
                    let item = NodeExprInner::List(NodeList { elements, span });
                    proof {
                        lemma_rpn_push(output@, item);
                    }
                    output.push(item);
                    prev = PrevType::Terminal;
                },
                TokenKind::Newline => {
                    done = true;
                },
                kind => {
                    return Err(
                        ChalError::parser_err(ParserErrorKind::UnexpectedToken(kind), cspan),
                    );
                },
            }
            if !done {
                proof {
                    if (c_tt || c_obb || c_single) && steps == 0 {
                        assert(output@ =~= seq![
                            NodeExprInner::Value(token_value(entry[0].kind)),
                        ]);
                    }
                    steps = steps + 1;
                }
            }
        }

        // an expression must end in a terminal
        if !matches!(prev, PrevType::Terminal) {
            if output.is_empty() {
                return Err(
                    ChalError::parser_err(ParserErrorKind::EmptyExpr, reader.current()),
                );
            }
            return Err(
                ChalError::parser_err(
                    ParserErrorKind::InvalidExprEnd,
                    Span::new(start, reader.current().end),
                ),
            );
        }

        while operators.len() > 0
            invariant
                prev == PrevType::Terminal,
                rpn_count(output@) == Some(shunt_count(prev, operators@)),
                c_single ==> (operators@.len() == 0 && output@ == seq![
                    NodeExprInner::Value(token_value(entry[0].kind)),
                ]),
            decreases operators@.len(),
        {
            let top = match operators.pop() {
                Some(top) => top,
                None => {
                    break;
                },
            };
            match top.to_inner() {
                Some(item) => {
                    proof {
                        lemma_stack_binops_nonneg(operators@);
                        lemma_rpn_push(output@, item);
                    }
                    output.push(item);
                },
                None => {
                    // an opening parenthesis was never closed; the lexer
                    // rejects such a line before parsing
                    return Err(
                        ChalError::internal("NodeExpr::new(): unclosed parenthesis in expression"),
                    );
                },
            }
        }

        let span = Span::new(start, reader.current().end);
        Ok(NodeExpr { expr: output.into_vec(), span })
    }
}

/// Parses a dotted chain of attribute accesses and calls, `a.b(x).c`,
/// whose first identifier was already consumed.
#[verifier::loop_isolation(false)]
#[verifier::loop_isolation(false)]
pub(crate) fn parse_attr_res(first_name: String, first_span: Span, reader: &mut TokenReader) -> (r: Result<
    NodeAttrRes,
    ChalError,
>)
    ensures
        final(reader)@.len() <= old(reader)@.len(),
        (old(reader)@.len() == 0 || (!(old(reader)@[0].kind == TokenKind::Delimiter(
            Delimiter::OpenPar,
        )) && !(old(reader)@[0].kind == TokenKind::Special(Special::Dot)))) ==> (r matches Ok(res)
            && final(reader)@ == old(reader)@ && res.span == first_span && res.resolution@.len()
            == 1 && (res.resolution@[0] matches NodeAttribute::VarCall(v) && v.name@ == first_name@
            && v.span == first_span)),
    decreases old(reader)@.len(),
{
    let ghost entry_len = reader@.len();
    let ghost simple = entry_len == 0 || (!(reader@[0].kind == TokenKind::Delimiter(
        Delimiter::OpenPar,
    )) && !(reader@[0].kind == TokenKind::Special(Special::Dot)));
    let mut items = Vec::<NodeAttribute>::new();
    let mut name = first_name;
    let mut span = first_span;

    loop
        invariant
            reader@.len() <= entry_len,
            simple ==> (reader@ == old(reader)@ && items@.len() == 0 && name@ == first_name@
                && span == first_span),
        decreases reader@.len(),
    {
        if reader.peek_is_exact(&TokenKind::Delimiter(Delimiter::OpenPar)) {
            let ghost before_scope = reader@.len();
            let mut scope = reader.advance_scope_raw(Delimiter::OpenPar, Delimiter::ClosePar);
            let ghost scope_len = scope@.len();
            let _ = scope.pop_front();
            let _ = scope.pop_back();
            let parts = TokenReader::new(scope, span).split_commas();
            let mut parts = parts;
            let mut args = Vec::<NodeExpr>::new();
            while parts.len() > 0
                invariant
                    forall|i: int|
                        0 <= i < parts@.len() ==> (#[trigger] parts@[i])@.len() < entry_len,
                decreases parts@.len(),
            {
                let part = parts.remove(0);
                if part.len() == 0 {
                    return Err(ChalError::parser_err(ParserErrorKind::EmptyExpr, span));
                }
                let arg = NodeExpr::new(TokenReader::new(part, span))?;
                args.push(arg);
            }
            items.push(
                NodeAttribute::FuncCall(NodeFuncCall { name, namespace: None, args, span }),
            );
        } else {
            items.push(NodeAttribute::VarCall(NodeVarCall { name, span }));
        }

        if reader.peek_is_exact(&TokenKind::Special(Special::Dot)) {
            let _ = reader.advance();
            let next = reader.expect_ident()?;
            span = next.span;
            match next.kind {
                TokenKind::Identifier(n) => {
                    name = n;
                },
                _ => {
                    return Err(ChalError::internal("parse_attr_res(): unreachable kind"));
                },
            }
        } else {
            break;
        }
    }

    Ok(NodeAttrRes { resolution: items, span: first_span })
}

/// Parses an inline class construction, `Name { member: expr, ... }`, whose
/// class name was already consumed; the next token is the opening brace. A
/// member without a value stands for a variable of the same name.
#[verifier::loop_isolation(false)]
fn parse_inline_class(class: String, class_span: Span, reader: &mut TokenReader) -> (r: Result<
    NodeInlineClass,
    ChalError,
>)
    ensures
        final(reader)@.len() <= old(reader)@.len(),
    decreases old(reader)@.len(),
{
    let ghost entry_len = reader@.len();
    let start = class_span.start;
    let _ = reader.expect_exact(&TokenKind::Delimiter(Delimiter::OpenBrace))?;

    let mut members = Vec::<ClassMemberInit>::new();
    loop
        invariant
            reader@.len() < entry_len,
        decreases reader@.len(),
    {
        if reader.is_empty() {
            break;
        }
        let member_tok = reader.expect_ident()?;
        let member_span = member_tok.span;
        let member = match member_tok.kind {
            TokenKind::Identifier(n) => n,
            _ => {
                return Err(ChalError::internal("parse_inline_class(): unreachable kind"));
            },
        };

        // a comma or closing brace directly after the member name is the
        // shorthand for initialising it from a variable of the same name
        if reader.peek_is_exact(&TokenKind::Special(Special::Comma)) {
            members.push(shorthand_member(member, member_span));
            let _ = reader.advance();
            continue;
        }
        if reader.peek_is_exact(&TokenKind::Delimiter(Delimiter::CloseBrace)) {
            members.push(shorthand_member(member, member_span));
            let _ = reader.advance();
            break;
        }

        let _ = reader.expect_exact(&TokenKind::Special(Special::Colon))?;

        let ghost collect_start = reader@.len();
        let mut buffer = VecDeque::<Token>::new();
        let mut open_delim: usize = 0;
        let mut should_terminate = false;
        loop
            invariant
                buffer@.len() + reader@.len() == collect_start,
            decreases reader@.len(),
        {
            let stop = match reader.peek() {
                Some(tok) => match &tok.kind {
                    TokenKind::Special(Special::Comma) => open_delim == 0,
                    TokenKind::Delimiter(Delimiter::CloseBrace) => {
                        if open_delim == 0 {
                            should_terminate = true;
                            true
                        } else {
                            false
                        }
                    },
                    _ => false,
                },
                None => true,
            };
            if stop {
                break;
            }
            match reader.advance() {
                Some(tok) => {
                    let delim_change: i8 = match &tok.kind {
                        TokenKind::Delimiter(Delimiter::OpenBrace) => 1,
                        TokenKind::Delimiter(Delimiter::CloseBrace) => 2,
                        _ => 0,
                    };
                    if delim_change == 1 {
                        if open_delim < usize::MAX {
                            open_delim = open_delim + 1;
                        }
                    } else if delim_change == 2 {
                        if open_delim > 0 {
                            open_delim = open_delim - 1;
                        }
                    }
                    buffer.push_back(tok);
                },
                None => {
                    break;
                },
            }
        }
        // the separating comma or the terminating brace
        let _ = reader.advance();

        let value = NodeExpr::new(TokenReader::new(buffer, member_span))?;
        let span = Span::new(member_span.start, reader.current().end);
        members.push(ClassMemberInit { name: member, value, span });

        if should_terminate {
            break;
        }
    }

    let span = Span::new(start, reader.current().end);
    Ok(NodeInlineClass { class, members, span })
}

/// The member initialisation that a bare member name stands for: a variable
/// of the member's own name.
fn shorthand_member(name: String, span: Span) -> ClassMemberInit {
    let var_name = name.clone();
    let expr = vec![
        NodeExprInner::Resolution(
            NodeAttrRes {
                resolution: vec![NodeAttribute::VarCall(NodeVarCall { name: var_name, span })],
                span,
            },
        ),
    ];
    ClassMemberInit { name, value: NodeExpr { expr, span }, span }
}

} // verus!
