use vstd::prelude::*;

use crate::ast::{
    valid_rpn, Arg, AssignOprType, Member, NodeAssign, NodeAttribute, NodeBreakStmnt, NodeClass,
    NodeContStmnt,
    NodeElifStmnt, NodeElseStmnt, NodeExpr, NodeForLoop, NodeFuncCallStmnt, NodeFuncDef,
    NodeIfBranch, NodeIfStmnt, NodeProg, NodeRetStmnt, NodeStmnt, NodeThrow, NodeTryCatch,
    NodeVarCall, NodeVarDef, NodeWhileLoop,
};

use crate::error::{ChalError, ParserErrorKind};
use crate::expr::{is_value_token, parse_attr_res, token_value};
use crate::line::Line;
use crate::readers::{LineReader, TokenReader};
use crate::span::Span;
use crate::tokens::{Delimiter, Keyword, Operator, Special, Token, TokenKind};
use crate::types::{type_eq, Type};
use std::collections::VecDeque;

verus! {

impl NodeVarDef {
    /// Parses `[const] let NAME [: TYPE] = EXPR`; without an annotation the
    /// type is `Any` and is inferred from the right-hand side during
    /// compilation. The parsed value is a well-formed RPN sequence, and the
    /// smallest definition — `let NAME = LITERAL` — owes success with
    /// exactly its parsed shape.
    pub fn new(reader: TokenReader) -> (r: Result<NodeVarDef, ChalError>)
        ensures
            r matches Ok(node) ==> valid_rpn(node.value.expr@),
            ((reader@.len() == 4 || (reader@.len() == 5 && reader@[4].kind is Newline))
                && reader@[0].kind == TokenKind::Keyword(Keyword::Let)
                && reader@[1].kind is Identifier && reader@[2].kind == TokenKind::Operator(
                Operator::Eq,
            ) && is_value_token(reader@[3].kind)) ==> (r matches Ok(node) && node.name@
                == reader@[1].kind->Identifier_0@ && node.ty is Any && !node.is_const
                && node.value.expr@ == seq![
                crate::ast::NodeExprInner::Value(token_value(reader@[3].kind)),
            ]),
            (reader@.len() > 0 && !crate::tokens::kind_like(
                reader@[0].kind,
                TokenKind::Keyword(Keyword::Let),
            ) && !crate::tokens::kind_like(
                reader@[0].kind,
                TokenKind::Keyword(Keyword::Const),
            )) ==> r is Err,
            reader@.len() == 0 ==> r is Err,
    {
        let ghost entry = reader@;
        proof {
            if entry.len() >= 4 {
                assert(entry.skip(1)[0] == entry[1]);
                assert(entry.skip(1).skip(1) =~= entry.skip(2));
                assert(entry.skip(2)[0] == entry[2]);
                assert(entry.skip(2).skip(1) =~= entry.skip(3));
                assert(entry.skip(3)[0] == entry[3]);
                assert(entry.skip(3).take(1) =~= seq![entry[3]]);
                assert(entry.skip(3).skip(1) =~= entry.skip(4));
            }
        }
        let mut reader = reader;
        let mut is_const = false;
        if reader.peek_is_exact(&TokenKind::Keyword(Keyword::Const)) {
            let _ = reader.advance();
            is_const = true;
        }
        let _ = reader.expect_exact(&TokenKind::Keyword(Keyword::Let))?;

        let lhs_tok = reader.expect_ident()?;
        let span = lhs_tok.span;
        let name = match lhs_tok.kind {
            TokenKind::Identifier(n) => n,
            _ => {
                return Err(ChalError::internal("NodeVarDef::new(): unreachable kind"));
            },
        };

        let mut ty = Type::Any;
        if reader.peek_is_exact(&TokenKind::Special(Special::Colon)) {
            let _ = reader.advance();
            ty = reader.expect_type()?;
        }
        let _ = reader.expect_exact(&TokenKind::Operator(Operator::Eq))?;

        let rhs = reader.advance_until_newline();
        proof {
            if (entry.len() == 4 || (entry.len() == 5 && entry[4].kind is Newline))
                && entry[0].kind == TokenKind::Keyword(Keyword::Let) && entry[1].kind
                is Identifier && entry[2].kind == TokenKind::Operator(Operator::Eq)
                && is_value_token(entry[3].kind) {
                let pre = entry.skip(3);
                let k = rhs@.len() as int;
                if k == 0 {
                    assert(reader@[0] == entry[3]);
                }
                if k >= 2 {
                    assert(rhs@[1] == pre[1]);
                }
                assert(k == 1);
                assert(rhs@ =~= seq![entry[3]]);
            }
        }
        let rhs_reader = TokenReader::new(rhs, reader.current());
        let value = NodeExpr::new(rhs_reader)?;
        let _ = reader.expect_exact(&TokenKind::Newline)?;

        Ok(NodeVarDef { name, ty, value, is_const, span })
    }
}

impl NodeRetStmnt {
    /// Parses `return [EXPR]`; a bare `return` carries an empty expression,
    /// which compiles to a void return. A present value is a well-formed
    /// RPN sequence, and a bare `return` owes success.
    pub fn new(reader: TokenReader) -> (r: Result<NodeRetStmnt, ChalError>)
        ensures
            r matches Ok(node) ==> (node.value.expr@.len() == 0 || valid_rpn(node.value.expr@)),
            ((reader@.len() == 1 || (reader@.len() == 2 && reader@[1].kind is Newline))
                && reader@[0].kind == TokenKind::Keyword(Keyword::Return)) ==> (r matches Ok(
                node,
            ) && node.value.expr@.len() == 0),
            (reader@.len() > 0 && !crate::tokens::kind_like(
                reader@[0].kind,
                TokenKind::Keyword(Keyword::Return),
            )) ==> r is Err,
            reader@.len() == 0 ==> r is Err,
    {
        proof {
            if reader@.len() >= 2 {
                assert(reader@.skip(1)[0] == reader@[1]);
            }
        }
        let mut reader = reader;
        let ret_tok = reader.expect_exact(&TokenKind::Keyword(Keyword::Return))?;
        let span = ret_tok.span;

        if reader.is_empty() || reader.peek_is_exact(&TokenKind::Newline) {
            return Ok(NodeRetStmnt { value: NodeExpr::empty(span), span });
        }

        let rhs = reader.advance_until_newline();
        let rhs_reader = TokenReader::new(rhs, reader.current());
        let value = NodeExpr::new(rhs_reader)?;
        let _ = reader.expect_exact(&TokenKind::Newline)?;
        Ok(NodeRetStmnt { value, span })
    }
}

impl NodeThrow {
    /// Parses `throw EXPR`; the thrown value is a well-formed RPN sequence,
    /// and throwing one literal owes success with exactly its parsed shape.
    pub fn new(reader: TokenReader) -> (r: Result<NodeThrow, ChalError>)
        ensures
            r matches Ok(node) ==> valid_rpn(node.0.expr@),
            ((reader@.len() == 2 || (reader@.len() == 3 && reader@[2].kind is Newline))
                && reader@[0].kind == TokenKind::Keyword(Keyword::Throw) && is_value_token(
                reader@[1].kind,
            )) ==> (r matches Ok(node) && node.0.expr@ == seq![
                crate::ast::NodeExprInner::Value(token_value(reader@[1].kind)),
            ]),
            (reader@.len() > 0 && !crate::tokens::kind_like(
                reader@[0].kind,
                TokenKind::Keyword(Keyword::Throw),
            )) ==> r is Err,
            reader@.len() == 0 ==> r is Err,
    {
        let ghost entry = reader@;
        proof {
            if entry.len() >= 2 {
                assert(entry.skip(1)[0] == entry[1]);
                assert(entry.skip(1).take(1) =~= seq![entry[1]]);
                assert(entry.skip(1).skip(1) =~= entry.skip(2));
            }
        }
        let mut reader = reader;
        let _ = reader.expect_exact(&TokenKind::Keyword(Keyword::Throw))?;
        let rhs = reader.advance_until_newline();
        proof {
            if (entry.len() == 2 || (entry.len() == 3 && entry[2].kind is Newline))
                && entry[0].kind == TokenKind::Keyword(Keyword::Throw) && is_value_token(
                entry[1].kind,
            ) {
                let pre = entry.skip(1);
                let k = rhs@.len() as int;
                if k == 0 {
                    assert(reader@[0] == entry[1]);
                }
                if k >= 2 {
                    assert(rhs@[1] == pre[1]);
                }
                assert(k == 1);
                assert(rhs@ =~= seq![entry[1]]);
            }
        }
        let rhs_reader = TokenReader::new(rhs, reader.current());
        let value = NodeExpr::new(rhs_reader)?;
        let _ = reader.expect_exact(&TokenKind::Newline)?;
        Ok(NodeThrow(value))
    }
}

/// Which leading token a parsed program node corresponds to, following the
/// dispatch of the chunk grammar: definitions and statements by their
/// keyword, calls and assignments by an identifier.
pub open spec fn prog_matches_leading(p: NodeProg, k: TokenKind) -> bool {
    match p {
        NodeProg::VarDef(_) => k == TokenKind::Keyword(Keyword::Let) || k == TokenKind::Keyword(
            Keyword::Const,
        ),
        NodeProg::FuncDef(_) => k == TokenKind::Keyword(Keyword::Fn),
        NodeProg::IfStmnt(_) => k == TokenKind::Keyword(Keyword::If),
        NodeProg::WhileLoop(_) => k == TokenKind::Keyword(Keyword::While),
        NodeProg::ForLoop(_) => k == TokenKind::Keyword(Keyword::For),
        NodeProg::TryCatch(_) => k == TokenKind::Keyword(Keyword::Try),
        NodeProg::Class(_) => k == TokenKind::Keyword(Keyword::Class),
        NodeProg::FuncCall(_) => k is Identifier,
        NodeProg::Assign(_) => k is Identifier,
    }
}

/// Whether an if branch's condition, if it has one, is a well-formed RPN
/// sequence.
pub open spec fn branch_condition_ok(branch: NodeIfBranch) -> bool {
    match branch {
        NodeIfBranch::Elif(elif) => valid_rpn(elif.condition.expr@),
        NodeIfBranch::Else(_) => true,
    }
}

/// Parses a line that begins with an identifier into either a function-call
/// statement or an assignment.
fn parse_call_or_assign(reader: TokenReader) -> (r: Result<NodeStmnt, ChalError>)
    ensures
        ((reader@.len() == 3 || (reader@.len() == 4 && reader@[3].kind is Newline))
            && reader@[0].kind is Identifier && reader@[1].kind == TokenKind::Operator(
            Operator::Eq,
        ) && is_value_token(reader@[2].kind)) ==> (r matches Ok(stm) && (stm
            matches NodeStmnt::Assign(a) && a.opr == AssignOprType::Eq && a.lhs.resolution@.len()
            == 1 && (a.lhs.resolution@[0] matches NodeAttribute::VarCall(v) && v.name@
            == reader@[0].kind->Identifier_0@) && a.rhs.expr@ == seq![
            crate::ast::NodeExprInner::Value(token_value(reader@[2].kind)),
        ])),
{
    let mut reader = reader;
    let ghost entry = reader@;
    let ghost scenario = (entry.len() == 3 || (entry.len() == 4 && entry[3].kind is Newline))
        && entry[0].kind is Identifier && entry[1].kind == TokenKind::Operator(Operator::Eq)
        && is_value_token(entry[2].kind);
    let first = reader.expect_ident()?;
    let first_span = first.span;
    let first_name = match first.kind {
        TokenKind::Identifier(n) => n,
        _ => {
            return Err(ChalError::internal("parse_call_or_assign(): unreachable kind"));
        },
    };
    let lhs = parse_attr_res(first_name, first_span, &mut reader)?;

    let assign_opr: Option<AssignOprType> = match reader.peek() {
        Some(tok) => match &tok.kind {
            TokenKind::Operator(Operator::Eq) => Some(AssignOprType::Eq),
            TokenKind::Operator(Operator::AddEq) => Some(AssignOprType::AddEq),
            TokenKind::Operator(Operator::SubEq) => Some(AssignOprType::SubEq),
            TokenKind::Operator(Operator::MulEq) => Some(AssignOprType::MulEq),
            TokenKind::Operator(Operator::DivEq) => Some(AssignOprType::DivEq),
            TokenKind::Operator(Operator::ModEq) => Some(AssignOprType::ModEq),
            _ => None,
        },
        None => None,
    };

    match assign_opr {
        Some(opr) => {
            let _ = reader.advance();
            proof {
                if scenario {
                    assert(entry.skip(1).skip(1) =~= entry.skip(2));
                }
            }
            let rhs_toks = reader.advance_until_newline();
            proof {
                if scenario {
                    let pre = entry.skip(2);
                    let k = rhs_toks@.len() as int;
                    if k == 0 {
                        assert(reader@[0] == entry[2]);
                    }
                    if k >= 2 {
                        assert(rhs_toks@[1] == pre[1]);
                    }
                    assert(k == 1);
                    assert(rhs_toks@ =~= seq![entry[2]]);
                    assert(entry.skip(2).skip(1) =~= entry.skip(3));
                }
            }
            let rhs_reader = TokenReader::new(rhs_toks, reader.current());
            let rhs = NodeExpr::new(rhs_reader)?;
            let _ = reader.expect_exact(&TokenKind::Newline)?;
            Ok(NodeStmnt::Assign(NodeAssign { lhs, opr, rhs }))
        },
        None => {
            let _ = reader.expect_exact(&TokenKind::Newline)?;
            Ok(NodeStmnt::FuncCall(NodeFuncCallStmnt(lhs)))
        },
    }
}


/// Parses the single statement that follows a compound header's colon on
/// the same line.
fn parse_inline_stmnt(reader: TokenReader) -> (r: Result<NodeStmnt, ChalError>) {
    let front_kind: TokenKind = match reader.peek() {
        Some(tok) => tok.kind.clone(),
        None => {
            return Err(ChalError::internal("parse_inline_stmnt(): empty statement"));
        },
    };
    match front_kind {
        TokenKind::Keyword(Keyword::Let) | TokenKind::Keyword(Keyword::Const) => {
            Ok(NodeStmnt::VarDef(NodeVarDef::new(reader)?))
        },
        TokenKind::Keyword(Keyword::Return) => Ok(NodeStmnt::RetStmnt(NodeRetStmnt::new(reader)?)),
        TokenKind::Keyword(Keyword::Throw) => Ok(NodeStmnt::Throw(NodeThrow::new(reader)?)),
        TokenKind::Keyword(Keyword::Break) => {
            let mut reader = reader;
            let tok = reader.expect_exact(&TokenKind::Keyword(Keyword::Break))?;
            Ok(NodeStmnt::BreakStmnt(NodeBreakStmnt { span: tok.span }))
        },
        TokenKind::Keyword(Keyword::Continue) => {
            let mut reader = reader;
            let tok = reader.expect_exact(&TokenKind::Keyword(Keyword::Continue))?;
            Ok(NodeStmnt::ContStmnt(NodeContStmnt { span: tok.span }))
        },
        TokenKind::Identifier(_) => parse_call_or_assign(reader),
        kind => {
            let span = match reader.peek() {
                Some(tok) => tok.span,
                None => Span::default(),
            };
            Err(ChalError::parser_err(ParserErrorKind::UnexpectedToken(kind), span))
        },
    }
}

/// Whether the header still holds an inline body after its colon.
fn has_inline_body(header: &TokenReader) -> bool {
    !(header.is_empty() || header.peek_is_exact(&TokenKind::Newline))
}

/// Collects the lines indented deeper than the given bound.
fn collect_deeper(reader: &mut LineReader, indent: u64) -> (r: VecDeque<Line>)
    ensures
        final(reader)@.len() + r@.len() == old(reader)@.len(),
{
    let mut result = VecDeque::<Line>::new();
    loop
        invariant
            reader@.len() + result@.len() == old(reader)@.len(),
        decreases reader@.len(),
    {
        let deeper = match reader.indent() {
            Some(i) => i > indent,
            None => false,
        };
        if !deeper {
            break;
        }
        match reader.advance() {
            Some(line) => {
                result.push_back(line);
            },
            None => {
                break;
            },
        }
    }
    result
}

/// Parses the statements of one body, dispatching on each line's leading
/// token.
#[verifier::loop_isolation(false)]
pub fn parse_body(reader: LineReader) -> (r: Result<Vec<NodeStmnt>, ChalError>)
    decreases reader@.len(), 1int,
{
    let mut reader = reader;
    let ghost entry_len = reader@.len();
    let mut result = Vec::<NodeStmnt>::new();

    loop
        invariant
            reader@.len() <= entry_len,
        decreases reader@.len(),
    {
        if reader.is_empty() {
            break;
        }
        let front_kind: TokenKind = match reader.peek_tok() {
            Some(tok) => tok.kind.clone(),
            None => {
                return Err(ChalError::internal("parse_body(): line without tokens"));
            },
        };

        match front_kind {
            TokenKind::Keyword(Keyword::Let) | TokenKind::Keyword(Keyword::Const) => {
                let line_reader = reader.advance_reader()?;
                let node = NodeVarDef::new(line_reader)?;
                result.push(NodeStmnt::VarDef(node));
            },
            TokenKind::Keyword(Keyword::Return) => {
                let line_reader = reader.advance_reader()?;
                let node = NodeRetStmnt::new(line_reader)?;
                result.push(NodeStmnt::RetStmnt(node));
            },
            TokenKind::Keyword(Keyword::Throw) => {
                let line_reader = reader.advance_reader()?;
                let node = NodeThrow::new(line_reader)?;
                result.push(NodeStmnt::Throw(node));
            },
            TokenKind::Keyword(Keyword::Break) => {
                let mut line_reader = reader.advance_reader()?;
                let tok = line_reader.expect_exact(&TokenKind::Keyword(Keyword::Break))?;
                result.push(NodeStmnt::BreakStmnt(NodeBreakStmnt { span: tok.span }));
            },
            TokenKind::Keyword(Keyword::Continue) => {
                let mut line_reader = reader.advance_reader()?;
                let tok = line_reader.expect_exact(&TokenKind::Keyword(Keyword::Continue))?;
                result.push(NodeStmnt::ContStmnt(NodeContStmnt { span: tok.span }));
            },
            TokenKind::Keyword(Keyword::If) => {
                let chunk = reader.advance_chunk()?;
                let node = NodeIfStmnt::new(chunk)?;
                result.push(NodeStmnt::IfStmnt(node));
            },
            TokenKind::Keyword(Keyword::While) => {
                let chunk = reader.advance_chunk()?;
                let node = NodeWhileLoop::new(chunk)?;
                result.push(NodeStmnt::WhileLoop(node));
            },
            TokenKind::Keyword(Keyword::For) => {
                let chunk = reader.advance_chunk()?;
                let node = NodeForLoop::new(chunk)?;
                result.push(NodeStmnt::ForLoop(node));
            },
            TokenKind::Keyword(Keyword::Try) => {
                let chunk = reader.advance_chunk()?;
                let node = NodeTryCatch::new(chunk)?;
                result.push(NodeStmnt::TryCatch(node));
            },
            TokenKind::Identifier(_) => {
                let line_reader = reader.advance_reader()?;
                let node = parse_call_or_assign(line_reader)?;
                result.push(node);
            },
            kind => {
                let span = match reader.peek_tok() {
                    Some(tok) => tok.span,
                    None => Span::default(),
                };
                return Err(
                    ChalError::parser_err(ParserErrorKind::UnexpectedToken(kind), span),
                );
            },
        }
    }

    Ok(result)
}

impl NodeIfStmnt {
    /// Parses an if statement: the condition and body, then any `elif`
    /// branches and a final `else` branch at the header's indentation.
    /// Every branch condition is a well-formed RPN sequence.
    #[verifier::loop_isolation(false)]
    pub fn new(reader: LineReader) -> (r: Result<NodeIfStmnt, ChalError>)
        ensures
            r matches Ok(node) ==> (valid_rpn(node.condition.expr@) && forall|j: int|
                0 <= j < node.branches@.len() ==> branch_condition_ok(
                    #[trigger] node.branches@[j],
                )),
        decreases reader@.len(), 0int,
    {
        let mut reader = reader;
        let ghost entry_len = reader@.len();
        let header_indent = match reader.indent() {
            Some(i) => i,
            None => {
                return Err(ChalError::internal("NodeIfStmnt::new(): empty reader"));
            },
        };
        let mut header = reader.advance_reader()?;
        let _ = header.expect_exact(&TokenKind::Keyword(Keyword::If))?;
        let cond_raw = header.advance_until_colon_or_newline();
        let cond_reader = TokenReader::new(cond_raw, header.current());
        let condition = NodeExpr::new(cond_reader)?;
        let _ = header.expect_exact(&TokenKind::Special(Special::Colon))?;
        let body: Vec<NodeStmnt>;
        if has_inline_body(&header) {
            body = vec![parse_inline_stmnt(header)?];
        } else {
            let _ = header.expect_exact(&TokenKind::Newline)?;
            let body_lines = collect_deeper(&mut reader, header_indent);
            body = parse_body(LineReader::new(body_lines))?;
        }

        let mut branches = Vec::<NodeIfBranch>::new();
        loop
            invariant
                reader@.len() < entry_len,
                forall|j: int|
                    0 <= j < branches@.len() ==> branch_condition_ok(#[trigger] branches@[j]),
            decreases reader@.len(),
        {
            let front_keyword: Option<Keyword> = match reader.peek_tok() {
                Some(tok) => match &tok.kind {
                    TokenKind::Keyword(Keyword::Elif) => Some(Keyword::Elif),
                    TokenKind::Keyword(Keyword::Else) => Some(Keyword::Else),
                    _ => None,
                },
                None => None,
            };
            match front_keyword {
                Some(Keyword::Elif) => {
                    let mut branch_header = reader.advance_reader()?;
                    let _ = branch_header.expect_exact(&TokenKind::Keyword(Keyword::Elif))?;
                    let elif_cond_raw = branch_header.advance_until_colon_or_newline();
                    let elif_cond_reader = TokenReader::new(
                        elif_cond_raw,
                        branch_header.current(),
                    );
                    let elif_condition = NodeExpr::new(elif_cond_reader)?;
                    let _ = branch_header.expect_exact(&TokenKind::Special(Special::Colon))?;
                    let _ = branch_header.expect_exact(&TokenKind::Newline)?;
                    let elif_lines = collect_deeper(&mut reader, header_indent);
                    let elif_body = parse_body(LineReader::new(elif_lines))?;
                    branches.push(
                        NodeIfBranch::Elif(
                            NodeElifStmnt { condition: elif_condition, body: elif_body },
                        ),
                    );
                },
                Some(_) => {
                    let mut branch_header = reader.advance_reader()?;
                    let _ = branch_header.expect_exact(&TokenKind::Keyword(Keyword::Else))?;
                    let _ = branch_header.expect_exact(&TokenKind::Special(Special::Colon))?;
                    let _ = branch_header.expect_exact(&TokenKind::Newline)?;
                    let else_lines = collect_deeper(&mut reader, header_indent);
                    let else_body = parse_body(LineReader::new(else_lines))?;
                    branches.push(NodeIfBranch::Else(NodeElseStmnt { body: else_body }));
                    break;
                },
                None => {
                    break;
                },
            }
        }

        Ok(NodeIfStmnt { condition, body, branches })
    }
}

impl NodeWhileLoop {
    /// Parses `while EXPR:` and its body; the condition is a well-formed
    /// RPN sequence.
    pub fn new(reader: LineReader) -> (r: Result<NodeWhileLoop, ChalError>)
        ensures
            r matches Ok(node) ==> valid_rpn(node.condition.expr@),
        decreases reader@.len(), 0int,
    {
        let mut reader = reader;
        let mut header = reader.advance_reader()?;
        let _ = header.expect_exact(&TokenKind::Keyword(Keyword::While))?;
        let cond_raw = header.advance_until_colon_or_newline();
        let cond_reader = TokenReader::new(cond_raw, header.current());
        let condition = NodeExpr::new(cond_reader)?;
        let _ = header.expect_exact(&TokenKind::Special(Special::Colon))?;
        let body: Vec<NodeStmnt>;
        if has_inline_body(&header) {
            body = vec![parse_inline_stmnt(header)?];
        } else {
            let _ = header.expect_exact(&TokenKind::Newline)?;
            body = parse_body(reader)?;
        }
        Ok(NodeWhileLoop { condition, body })
    }
}

impl NodeForLoop {
    /// Parses `for VAR in EXPR:` and its body; the iterable is a
    /// well-formed RPN sequence. The desugaring into the iterator protocol
    /// is the compiler's work.
    pub fn new(reader: LineReader) -> (r: Result<NodeForLoop, ChalError>)
        ensures
            r matches Ok(node) ==> valid_rpn(node.iterable.expr@),
            r is Ok ==> (reader@.len() > 0 && reader@[0]@.len() > 0 && reader@[0]@[0].kind
                == TokenKind::Keyword(Keyword::For)),
        decreases reader@.len(), 0int,
    {
        let mut reader = reader;
        let mut header = reader.advance_reader()?;
        let _ = header.expect_exact(&TokenKind::Keyword(Keyword::For))?;
        let iter_tok = header.expect_ident()?;
        let iter = NodeVarCall::new(iter_tok)?;
        let _ = header.expect_exact(&TokenKind::Keyword(Keyword::In))?;
        let iterable_raw = header.advance_until_colon_or_newline();
        let iterable_reader = TokenReader::new(iterable_raw, header.current());
        let iterable = NodeExpr::new(iterable_reader)?;
        let _ = header.expect_exact(&TokenKind::Special(Special::Colon))?;
        let body: Vec<NodeStmnt>;
        if has_inline_body(&header) {
            body = vec![parse_inline_stmnt(header)?];
        } else {
            let _ = header.expect_exact(&TokenKind::Newline)?;
            body = parse_body(reader)?;
        }
        Ok(NodeForLoop { iter, iterable, body })
    }
}

impl NodeTryCatch {
    /// Parses `try:` with its guarded body, then `catch (NAME: exception):`
    /// with the handler body. Success is owed only to a chunk whose header
    /// begins with the `try` keyword.
    pub fn new(reader: LineReader) -> (r: Result<NodeTryCatch, ChalError>)
        ensures
            r is Ok ==> (reader@.len() > 0 && reader@[0]@.len() > 0 && reader@[0]@[0].kind
                == TokenKind::Keyword(Keyword::Try)),
        decreases reader@.len(), 0int,
    {
        let mut reader = reader;
        let header_indent = match reader.indent() {
            Some(i) => i,
            None => {
                return Err(ChalError::internal("NodeTryCatch::new(): empty reader"));
            },
        };
        let mut header = reader.advance_reader()?;
        let try_tok = header.expect_exact(&TokenKind::Keyword(Keyword::Try))?;
        let try_span = try_tok.span;
        let _ = header.expect_exact(&TokenKind::Special(Special::Colon))?;

        let try_body: Vec<NodeStmnt>;
        let mut catch_header: TokenReader;
        if has_inline_body(&header) {
            // the guarded statement and the catch clause share the line
            let mut try_toks = std::collections::VecDeque::<Token>::new();
            loop
                decreases header@.len(),
            {
                let at_catch = match header.peek() {
                    Some(tok) => matches!(&tok.kind, TokenKind::Keyword(Keyword::Catch)),
                    None => true,
                };
                if at_catch {
                    break;
                }
                match header.advance() {
                    Some(tok) => {
                        try_toks.push_back(tok);
                    },
                    None => {
                        break;
                    },
                }
            }
            try_body = vec![
                parse_inline_stmnt(TokenReader::new(try_toks, Span::default()))?,
            ];
            catch_header = header;
        } else {
            let _ = header.expect_exact(&TokenKind::Newline)?;
            let try_lines = collect_deeper(&mut reader, header_indent);
            try_body = parse_body(LineReader::new(try_lines))?;
            catch_header = reader.advance_reader()?;
        }

        let _ = catch_header.expect_exact(&TokenKind::Keyword(Keyword::Catch))?;
        let _ = catch_header.expect_exact(&TokenKind::Delimiter(Delimiter::OpenPar))?;
        let exc_tok = catch_header.expect_ident()?;
        let exception_var = NodeVarCall::new(exc_tok)?;
        let _ = catch_header.expect_exact(&TokenKind::Special(Special::Colon))?;
        let _ = catch_header.expect_exact(&TokenKind::Type(Type::Exception))?;
        let _ = catch_header.expect_exact(&TokenKind::Delimiter(Delimiter::ClosePar))?;
        let _ = catch_header.expect_exact(&TokenKind::Special(Special::Colon))?;

        let catch_body: Vec<NodeStmnt>;
        if has_inline_body(&catch_header) {
            catch_body = vec![parse_inline_stmnt(catch_header)?];
        } else {
            let _ = catch_header.expect_exact(&TokenKind::Newline)?;
            catch_body = parse_body(reader)?;
        }
        Ok(NodeTryCatch { try_body, try_span, exception_var, catch_body })
    }
}

impl NodeFuncDef {
    /// Parses `fn [CLASS::]NAME(ARG[: TYPE], ...) [-> TYPE]:` and the body.
    /// An argument without an annotation has type `Any`; a class definition
    /// later rewrites a leading `self`. Success is owed only to a chunk
    /// whose header begins with the `fn` keyword.
    pub fn new(reader: LineReader) -> (r: Result<NodeFuncDef, ChalError>)
        ensures
            r is Ok ==> (reader@.len() > 0 && reader@[0]@.len() > 0 && reader@[0]@[0].kind
                == TokenKind::Keyword(Keyword::Fn)),
        decreases reader@.len(), 0int,
    {
        let mut reader = reader;
        let mut header = reader.advance_reader()?;
        let fn_tok = header.expect_exact(&TokenKind::Keyword(Keyword::Fn))?;
        let span = fn_tok.span;
        let name_tok = header.expect_ident()?;
        let mut name = match name_tok.kind {
            TokenKind::Identifier(n) => n,
            _ => {
                return Err(ChalError::internal("NodeFuncDef::new(): unreachable kind"));
            },
        };

        // `fn Class::name(...)` scopes the function inside a class namespace
        let mut namespace: Option<String> = None;
        if header.peek_is_exact(&TokenKind::Special(Special::Colon)) {
            let _ = header.advance();
            let _ = header.expect_exact(&TokenKind::Special(Special::Colon))?;
            let method_tok = header.expect_ident()?;
            match method_tok.kind {
                TokenKind::Identifier(n) => {
                    namespace = Some(name);
                    name = n;
                },
                _ => {
                    return Err(ChalError::internal("NodeFuncDef::new(): unreachable kind"));
                },
            }
        }

        let _ = header.expect_exact(&TokenKind::Delimiter(Delimiter::OpenPar))?;
        let mut args = Vec::<Arg>::new();
        loop
            decreases header@.len(),
        {
            if header.peek_is_exact(&TokenKind::Delimiter(Delimiter::ClosePar)) {
                let _ = header.advance();
                break;
            }
            if header.is_empty() {
                return Err(
                    ChalError::parser_err(
                        ParserErrorKind::ExpectedToken(
                            TokenKind::Delimiter(Delimiter::ClosePar),
                        ),
                        header.current(),
                    ),
                );
            }
            let arg_tok = header.expect_ident()?;
            let arg_name = match arg_tok.kind {
                TokenKind::Identifier(n) => n,
                _ => {
                    return Err(ChalError::internal("NodeFuncDef::new(): unreachable kind"));
                },
            };
            let mut arg_ty = Type::Any;
            if header.peek_is_exact(&TokenKind::Special(Special::Colon)) {
                let _ = header.advance();
                arg_ty = header.expect_type()?;
            }
            args.push(Arg { name: arg_name, ty: arg_ty });
            if header.peek_is_exact(&TokenKind::Special(Special::Comma)) {
                let _ = header.advance();
            }
        }

        let mut ret_type = Type::Void;
        if header.peek_is_exact(&TokenKind::Special(Special::RightArrow)) {
            let _ = header.advance();
            ret_type = header.expect_type()?;
        }
        let _ = header.expect_exact(&TokenKind::Special(Special::Colon))?;
        let body: Vec<NodeStmnt>;
        if has_inline_body(&header) {
            body = vec![parse_inline_stmnt(header)?];
        } else {
            let _ = header.expect_exact(&TokenKind::Newline)?;
            body = parse_body(reader)?;
        }
        Ok(NodeFuncDef { name, args, ret_type, namespace, body, span })
    }
}

impl NodeClass {
    /// Parses a class definition: member declarations, then methods. A
    /// method's namespace is the class; a leading `self` argument takes the
    /// class as its type. Every parsed method is scoped inside the class's
    /// own namespace.
    #[verifier::loop_isolation(false)]
    pub fn new(reader: LineReader) -> (r: Result<NodeClass, ChalError>)
        ensures
            r matches Ok(class) ==> (reader@.len() > 0 && reader@[0]@.len() > 0
                && reader@[0]@[0].kind == TokenKind::Keyword(Keyword::Class) && forall|j: int|
                0 <= j < class.methods@.len() ==> ((#[trigger] class.methods@[j]).namespace
                    matches Some(ns) && ns@ == class.name@)),
        decreases reader@.len(), 2int,
    {
        let mut reader = reader;
        let ghost entry_len = reader@.len();
        let mut header = reader.advance_reader()?;
        let class_tok = header.expect_exact(&TokenKind::Keyword(Keyword::Class))?;
        let span = class_tok.span;
        let name_tok = header.expect_ident()?;
        let name = match name_tok.kind {
            TokenKind::Identifier(n) => n,
            _ => {
                return Err(ChalError::internal("NodeClass::new(): unreachable kind"));
            },
        };
        let _ = header.expect_exact(&TokenKind::Special(Special::Colon))?;
        let _ = header.expect_exact(&TokenKind::Newline)?;

        let mut members = Vec::<Member>::new();
        let mut methods = Vec::<NodeFuncDef>::new();

        loop
            invariant
                reader@.len() < entry_len,
                forall|j: int|
                    0 <= j < methods@.len() ==> ((#[trigger] methods@[j]).namespace matches Some(
                        ns,
                    ) && ns@ == name@),
            decreases reader@.len(),
        {
            if reader.is_empty() {
                break;
            }
            let starts_fn = match reader.peek_tok() {
                Some(tok) => matches!(&tok.kind, TokenKind::Keyword(Keyword::Fn)),
                None => false,
            };
            if starts_fn {
                let chunk = reader.advance_chunk()?;
                let mut method = NodeFuncDef::new(chunk)?;
                method.namespace = Some(name.clone());
                if method.args.len() > 0 {
                    let is_self = crate::text::str_eq(method.args[0].name.as_str(), "self");
                    let untyped = type_eq(&method.args[0].ty, &Type::Any);
                    if is_self && untyped {
                        let self_name = match method.args.remove(0) {
                            arg => arg.name,
                        };
                        method.args.insert(
                            0,
                            Arg { name: self_name, ty: Type::Custom(Box::new(name.clone())) },
                        );
                    }
                }
                methods.push(method);
            } else {
                let mut member_reader = reader.advance_reader()?;
                let member_tok = member_reader.expect_ident()?;
                let member_span = member_tok.span;
                let member_name = match member_tok.kind {
                    TokenKind::Identifier(n) => n,
                    _ => {
                        return Err(ChalError::internal("NodeClass::new(): unreachable kind"));
                    },
                };
                let _ = member_reader.expect_exact(&TokenKind::Special(Special::Colon))?;
                let member_ty = member_reader.expect_type()?;
                let _ = member_reader.expect_exact(&TokenKind::Newline)?;
                members.push(Member { name: member_name, ty: member_ty, span: member_span });
            }
        }

        Ok(NodeClass { name, members, methods, span })
    }
}

impl NodeProg {
    /// Builds the syntax-tree node for one top-level program chunk,
    /// dispatching on its leading token: the returned node's form follows
    /// the chunk's first token.
    pub fn new(chunk: VecDeque<Line>) -> (r: Result<NodeProg, ChalError>)
        ensures
            r matches Ok(prog) ==> (chunk@.len() > 0 && chunk@[0]@.len() > 0
                && prog_matches_leading(prog, chunk@[0]@[0].kind)),
        decreases chunk@.len(), 3int,
    {
        if chunk.len() == 0 {
            return Err(ChalError::internal("NodeProg::new(): received an empty code chunk"));
        }
        let reader = LineReader::new(chunk);
        let front_kind: TokenKind = match reader.peek_tok() {
            Some(tok) => tok.kind.clone(),
            None => {
                return Err(ChalError::internal("NodeProg::new(): empty first line of chunk"));
            },
        };

        match front_kind {
            TokenKind::Keyword(Keyword::Let) | TokenKind::Keyword(Keyword::Const) => {
                let mut reader = reader;
                let line_reader = reader.advance_reader()?;
                Ok(NodeProg::VarDef(NodeVarDef::new(line_reader)?))
            },
            TokenKind::Keyword(Keyword::Fn) => Ok(NodeProg::FuncDef(NodeFuncDef::new(reader)?)),
            TokenKind::Keyword(Keyword::If) => Ok(NodeProg::IfStmnt(NodeIfStmnt::new(reader)?)),
            TokenKind::Keyword(Keyword::While) => Ok(
                NodeProg::WhileLoop(NodeWhileLoop::new(reader)?),
            ),
            TokenKind::Keyword(Keyword::For) => Ok(NodeProg::ForLoop(NodeForLoop::new(reader)?)),
            TokenKind::Keyword(Keyword::Try) => Ok(
                NodeProg::TryCatch(NodeTryCatch::new(reader)?),
            ),
            TokenKind::Keyword(Keyword::Class) => Ok(NodeProg::Class(NodeClass::new(reader)?)),
            TokenKind::Identifier(_) => {
                let mut reader = reader;
                let line_reader = reader.advance_reader()?;
                match parse_call_or_assign(line_reader)? {
                    NodeStmnt::Assign(node) => Ok(NodeProg::Assign(node)),
                    NodeStmnt::FuncCall(node) => Ok(NodeProg::FuncCall(node)),
                    _ => Err(ChalError::internal("NodeProg::new(): unreachable statement")),
                }
            },
            kind => Err(
                ChalError::parser_err(
                    ParserErrorKind::UnexpectedToken(kind),
                    Span::default(),
                ),
            ),
        }
    }
}

} // verus!
