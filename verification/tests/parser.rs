use chalcedony::ast::{
    Arg, BinOprType, ClassMemberInit, Member, NodeAttrRes, NodeAttribute, NodeBreakStmnt,
    NodeClass, NodeContStmnt, NodeElifStmnt, NodeElseStmnt, NodeExpr, NodeExprInner, NodeFuncCall,
    NodeFuncCallStmnt, NodeFuncDef, NodeIfBranch, NodeIfStmnt, NodeInlineClass, NodeList,
    NodeRetStmnt, NodeStmnt, NodeThrow, NodeTryCatch, NodeValue, NodeVarCall, NodeVarDef,
    NodeWhileLoop, UnaryOprType,
};
use chalcedony::line::Line;
use chalcedony::readers::{LineReader, TokenReader};
use chalcedony::span::{Position, Span};
use chalcedony::tokens::{Delimiter, Keyword, Operator, Special, Token, TokenKind};
use chalcedony::types::Type;
use std::collections::VecDeque;

fn sp() -> Span {
    Span::new(Position::new(0, 0), Position::new(0, 0))
}

fn tok(kind: TokenKind) -> Token {
    Token { src: String::new(), kind, span: sp() }
}

fn token_reader(kinds: Vec<TokenKind>) -> TokenReader {
    let mut deque = VecDeque::new();
    for kind in kinds {
        deque.push_back(tok(kind));
    }
    TokenReader::new(deque, sp())
}

fn line(indent: u64, kinds: Vec<TokenKind>) -> Line {
    let mut deque = VecDeque::new();
    for kind in kinds {
        deque.push_back(tok(kind));
    }
    deque.push_back(tok(TokenKind::Newline));
    Line::new(indent, deque)
}

fn line_reader(lines: Vec<Line>) -> LineReader {
    LineReader::new(VecDeque::from(lines))
}

fn var_res(name: &str) -> NodeExprInner {
    NodeExprInner::Resolution(NodeAttrRes {
        resolution: vec![NodeAttribute::VarCall(NodeVarCall {
            name: name.to_string(),
            span: sp(),
        })],
        span: sp(),
    })
}

fn call_res(name: &str, args: Vec<NodeExpr>) -> NodeExprInner {
    NodeExprInner::Resolution(NodeAttrRes {
        resolution: vec![NodeAttribute::FuncCall(NodeFuncCall {
            name: name.to_string(),
            namespace: None,
            args,
            span: sp(),
        })],
        span: sp(),
    })
}

fn expr(items: Vec<NodeExprInner>) -> NodeExpr {
    NodeExpr { expr: items, span: sp() }
}

fn print_stmnt(arg: NodeExpr) -> NodeStmnt {
    NodeStmnt::FuncCall(NodeFuncCallStmnt(NodeAttrRes {
        resolution: vec![NodeAttribute::FuncCall(NodeFuncCall {
            name: "print".to_string(),
            namespace: None,
            args: vec![arg],
            span: sp(),
        })],
        span: sp(),
    }))
}

#[test]
fn parse_var_def() {
    // equivalent to the code:
    // let a: uint = (-fib(10)) + 3
    let tokens = token_reader(vec![
        TokenKind::Keyword(Keyword::Let),
        TokenKind::Identifier("a".to_string()),
        TokenKind::Special(Special::Colon),
        TokenKind::Type(Type::Uint),
        TokenKind::Operator(Operator::Eq),
        TokenKind::Delimiter(Delimiter::OpenPar),
        TokenKind::Operator(Operator::Neg),
        TokenKind::Identifier("fib".to_string()),
        TokenKind::Delimiter(Delimiter::OpenPar),
        TokenKind::Uint(10),
        TokenKind::Delimiter(Delimiter::ClosePar),
        TokenKind::Delimiter(Delimiter::ClosePar),
        TokenKind::Operator(Operator::Add),
        TokenKind::Uint(3),
    ]);

    let recv = NodeVarDef::new(tokens).expect("did not parse NodeVarDef");

    let exp = NodeVarDef {
        ty: Type::Uint,
        name: "a".to_string(),
        value: expr(vec![
            call_res("fib", vec![expr(vec![NodeExprInner::Value(NodeValue::Uint(10))])]),
            NodeExprInner::UnaryOpr(UnaryOprType::Neg),
            NodeExprInner::Value(NodeValue::Uint(3)),
            NodeExprInner::BinOpr(BinOprType::Add),
        ]),
        is_const: false,
        span: sp(),
    };

    assert_eq!(exp, recv);
}

#[test]
fn parse_func_def() {
    // equivalent to the code:
    // fn fib(n: int) -> uint:
    //     if n > 2:
    //         return fib(n-2) + fib(n-1)
    //     return 1
    let code = line_reader(vec![
        line(0, vec![
            TokenKind::Keyword(Keyword::Fn),
            TokenKind::Identifier("fib".to_string()),
            TokenKind::Delimiter(Delimiter::OpenPar),
            TokenKind::Identifier("n".to_string()),
            TokenKind::Special(Special::Colon),
            TokenKind::Type(Type::Int),
            TokenKind::Delimiter(Delimiter::ClosePar),
            TokenKind::Special(Special::RightArrow),
            TokenKind::Type(Type::Uint),
            TokenKind::Special(Special::Colon),
        ]),
        line(4, vec![
            TokenKind::Keyword(Keyword::If),
            TokenKind::Identifier("n".to_string()),
            TokenKind::Operator(Operator::Gt),
            TokenKind::Uint(2),
            TokenKind::Special(Special::Colon),
        ]),
        line(8, vec![
            TokenKind::Keyword(Keyword::Return),
            TokenKind::Identifier("fib".to_string()),
            TokenKind::Delimiter(Delimiter::OpenPar),
            TokenKind::Identifier("n".to_string()),
            TokenKind::Operator(Operator::Sub),
            TokenKind::Uint(2),
            TokenKind::Delimiter(Delimiter::ClosePar),
            TokenKind::Operator(Operator::Add),
            TokenKind::Identifier("fib".to_string()),
            TokenKind::Delimiter(Delimiter::OpenPar),
            TokenKind::Identifier("n".to_string()),
            TokenKind::Operator(Operator::Sub),
            TokenKind::Uint(1),
            TokenKind::Delimiter(Delimiter::ClosePar),
        ]),
        line(4, vec![TokenKind::Keyword(Keyword::Return), TokenKind::Uint(1)]),
    ]);

    let recv = NodeFuncDef::new(code).expect("did not parse NodeFuncDef");

    let fib_call = |k: u64| {
        expr(vec![
            call_res(
                "fib",
                vec![expr(vec![
                    var_res("n"),
                    NodeExprInner::Value(NodeValue::Uint(k)),
                    NodeExprInner::BinOpr(BinOprType::Sub),
                ])],
            ),
        ])
    };
    let mut sum = fib_call(2);
    let other = fib_call(1);
    sum.expr.extend(other.expr);
    sum.expr.push(NodeExprInner::BinOpr(BinOprType::Add));

    let exp = NodeFuncDef {
        name: "fib".to_string(),
        args: vec![Arg { name: "n".to_string(), ty: Type::Int }],
        namespace: None,
        ret_type: Type::Uint,
        body: vec![
            NodeStmnt::IfStmnt(NodeIfStmnt {
                condition: expr(vec![
                    var_res("n"),
                    NodeExprInner::Value(NodeValue::Uint(2)),
                    NodeExprInner::BinOpr(BinOprType::Gt),
                ]),
                body: vec![NodeStmnt::RetStmnt(NodeRetStmnt { value: sum, span: sp() })],
                branches: vec![],
            }),
            NodeStmnt::RetStmnt(NodeRetStmnt {
                value: expr(vec![NodeExprInner::Value(NodeValue::Uint(1))]),
                span: sp(),
            }),
        ],
        span: sp(),
    };

    assert_eq!(exp, recv);
}

#[test]
fn parse_if_statement() {
    // equivalent to the code:
    // if 2 > 3:
    //     print('one')
    // elif 3 > 4:
    //     print('two')
    // else:
    //     print('default')
    let code = line_reader(vec![
        line(0, vec![
            TokenKind::Keyword(Keyword::If),
            TokenKind::Uint(2),
            TokenKind::Operator(Operator::Gt),
            TokenKind::Uint(3),
            TokenKind::Special(Special::Colon),
        ]),
        line(4, vec![
            TokenKind::Identifier("print".to_string()),
            TokenKind::Delimiter(Delimiter::OpenPar),
            TokenKind::Str("one".to_string()),
            TokenKind::Delimiter(Delimiter::ClosePar),
        ]),
        line(0, vec![
            TokenKind::Keyword(Keyword::Elif),
            TokenKind::Uint(3),
            TokenKind::Operator(Operator::Gt),
            TokenKind::Uint(4),
            TokenKind::Special(Special::Colon),
        ]),
        line(4, vec![
            TokenKind::Identifier("print".to_string()),
            TokenKind::Delimiter(Delimiter::OpenPar),
            TokenKind::Str("two".to_string()),
            TokenKind::Delimiter(Delimiter::ClosePar),
        ]),
        line(0, vec![
            TokenKind::Keyword(Keyword::Else),
            TokenKind::Special(Special::Colon),
        ]),
        line(4, vec![
            TokenKind::Identifier("print".to_string()),
            TokenKind::Delimiter(Delimiter::OpenPar),
            TokenKind::Str("default".to_string()),
            TokenKind::Delimiter(Delimiter::ClosePar),
        ]),
    ]);

    let recv = NodeIfStmnt::new(code).expect("did not parse NodeIfStmnt");

    let str_arg = |s: &str| expr(vec![NodeExprInner::Value(NodeValue::Str(s.to_string()))]);
    let exp = NodeIfStmnt {
        condition: expr(vec![
            NodeExprInner::Value(NodeValue::Uint(2)),
            NodeExprInner::Value(NodeValue::Uint(3)),
            NodeExprInner::BinOpr(BinOprType::Gt),
        ]),
        body: vec![print_stmnt(str_arg("one"))],
        branches: vec![
            NodeIfBranch::Elif(NodeElifStmnt {
                condition: expr(vec![
                    NodeExprInner::Value(NodeValue::Uint(3)),
                    NodeExprInner::Value(NodeValue::Uint(4)),
                    NodeExprInner::BinOpr(BinOprType::Gt),
                ]),
                body: vec![print_stmnt(str_arg("two"))],
            }),
            NodeIfBranch::Else(NodeElseStmnt { body: vec![print_stmnt(str_arg("default"))] }),
        ],
    };

    assert_eq!(exp, recv);
}

#[test]
fn parse_while_statement() {
    // equivalent to the code:
    // while !(2 < 3):
    //     print("something's wrong")
    //     break
    //     continue
    let code = line_reader(vec![
        line(0, vec![
            TokenKind::Keyword(Keyword::While),
            TokenKind::Operator(Operator::Bang),
            TokenKind::Delimiter(Delimiter::OpenPar),
            TokenKind::Uint(2),
            TokenKind::Operator(Operator::Lt),
            TokenKind::Uint(3),
            TokenKind::Delimiter(Delimiter::ClosePar),
            TokenKind::Special(Special::Colon),
        ]),
        line(4, vec![
            TokenKind::Identifier("print".to_string()),
            TokenKind::Delimiter(Delimiter::OpenPar),
            TokenKind::Str("something's wrong".to_string()),
            TokenKind::Delimiter(Delimiter::ClosePar),
        ]),
        line(4, vec![TokenKind::Keyword(Keyword::Break)]),
        line(4, vec![TokenKind::Keyword(Keyword::Continue)]),
    ]);

    let recv = NodeWhileLoop::new(code).expect("did not parse NodeWhileLoop");

    let exp = NodeWhileLoop {
        condition: expr(vec![
            NodeExprInner::Value(NodeValue::Uint(2)),
            NodeExprInner::Value(NodeValue::Uint(3)),
            NodeExprInner::BinOpr(BinOprType::Lt),
            NodeExprInner::UnaryOpr(UnaryOprType::Bang),
        ]),
        body: vec![
            print_stmnt(expr(vec![NodeExprInner::Value(NodeValue::Str(
                "something's wrong".to_string(),
            ))])),
            NodeStmnt::BreakStmnt(NodeBreakStmnt { span: sp() }),
            NodeStmnt::ContStmnt(NodeContStmnt { span: sp() }),
        ],
    };

    assert_eq!(exp, recv);
}

#[test]
fn parse_try_catch_block() {
    // equivalent to the code:
    // try:
    //     print(21 * 2)
    //     throw 'unexpected error'
    // catch (exc: exception):
    //     print('Received the exception: ' + exc)
    let code = line_reader(vec![
        line(0, vec![
            TokenKind::Keyword(Keyword::Try),
            TokenKind::Special(Special::Colon),
        ]),
        line(4, vec![
            TokenKind::Identifier("print".to_string()),
            TokenKind::Delimiter(Delimiter::OpenPar),
            TokenKind::Uint(21),
            TokenKind::Operator(Operator::Mul),
            TokenKind::Uint(2),
            TokenKind::Delimiter(Delimiter::ClosePar),
        ]),
        line(4, vec![
            TokenKind::Keyword(Keyword::Throw),
            TokenKind::Str("unexpected error".to_string()),
        ]),
        line(0, vec![
            TokenKind::Keyword(Keyword::Catch),
            TokenKind::Delimiter(Delimiter::OpenPar),
            TokenKind::Identifier("exc".to_string()),
            TokenKind::Special(Special::Colon),
            TokenKind::Type(Type::Exception),
            TokenKind::Delimiter(Delimiter::ClosePar),
            TokenKind::Special(Special::Colon),
        ]),
        line(4, vec![
            TokenKind::Identifier("print".to_string()),
            TokenKind::Delimiter(Delimiter::OpenPar),
            TokenKind::Str("Received the exception: ".to_string()),
            TokenKind::Operator(Operator::Add),
            TokenKind::Identifier("exc".to_string()),
            TokenKind::Delimiter(Delimiter::ClosePar),
        ]),
    ]);

    let recv = NodeTryCatch::new(code).expect("did not compile NodeTryCatch");

    let exp = NodeTryCatch {
        try_body: vec![
            print_stmnt(expr(vec![
                NodeExprInner::Value(NodeValue::Uint(21)),
                NodeExprInner::Value(NodeValue::Uint(2)),
                NodeExprInner::BinOpr(BinOprType::Mul),
            ])),
            NodeStmnt::Throw(NodeThrow(expr(vec![NodeExprInner::Value(NodeValue::Str(
                "unexpected error".to_string(),
            ))]))),
        ],
        try_span: sp(),
        exception_var: NodeVarCall { name: "exc".to_string(), span: sp() },
        catch_body: vec![print_stmnt(expr(vec![
            NodeExprInner::Value(NodeValue::Str("Received the exception: ".to_string())),
            var_res("exc"),
            NodeExprInner::BinOpr(BinOprType::Add),
        ]))],
    };

    assert_eq!(exp, recv);
}

#[test]
fn parse_list() {
    // equivalent to the code:
    // let a = [1, 2 * 3, (4 + 10) / 2] * 5
    let code = token_reader(vec![
        TokenKind::Keyword(Keyword::Let),
        TokenKind::Identifier("a".to_string()),
        TokenKind::Operator(Operator::Eq),
        TokenKind::Delimiter(Delimiter::OpenBracket),
        TokenKind::Uint(1),
        TokenKind::Special(Special::Comma),
        TokenKind::Uint(2),
        TokenKind::Operator(Operator::Mul),
        TokenKind::Uint(3),
        TokenKind::Special(Special::Comma),
        TokenKind::Delimiter(Delimiter::OpenPar),
        TokenKind::Uint(4),
        TokenKind::Operator(Operator::Add),
        TokenKind::Uint(10),
        TokenKind::Delimiter(Delimiter::ClosePar),
        TokenKind::Operator(Operator::Div),
        TokenKind::Uint(2),
        TokenKind::Delimiter(Delimiter::CloseBracket),
        TokenKind::Operator(Operator::Mul),
        TokenKind::Uint(5),
    ]);

    let recv = NodeVarDef::new(code).expect("could not parse NodeVarDef");

    let exp = NodeVarDef {
        name: "a".to_string(),
        ty: Type::Any,
        is_const: false,
        value: expr(vec![
            NodeExprInner::List(NodeList {
                elements: vec![
                    expr(vec![NodeExprInner::Value(NodeValue::Uint(1))]),
                    expr(vec![
                        NodeExprInner::Value(NodeValue::Uint(2)),
                        NodeExprInner::Value(NodeValue::Uint(3)),
                        NodeExprInner::BinOpr(BinOprType::Mul),
                    ]),
                    expr(vec![
                        NodeExprInner::Value(NodeValue::Uint(4)),
                        NodeExprInner::Value(NodeValue::Uint(10)),
                        NodeExprInner::BinOpr(BinOprType::Add),
                        NodeExprInner::Value(NodeValue::Uint(2)),
                        NodeExprInner::BinOpr(BinOprType::Div),
                    ]),
                ],
                span: sp(),
            }),
            NodeExprInner::Value(NodeValue::Uint(5)),
            NodeExprInner::BinOpr(BinOprType::Mul),
        ]),
        span: sp(),
    };

    assert_eq!(exp, recv);
}

#[test]
fn parse_class_def() {
    // equivalent to the code:
    // class Example:
    //     arg: uint
    //
    //     fn new(val: uint) -> Example:
    //         return Example { arg: val }
    //
    //     fn compute(self) -> uint:
    //         return fib(self.arg)
    let code = line_reader(vec![
        line(0, vec![
            TokenKind::Keyword(Keyword::Class),
            TokenKind::Identifier("Example".to_string()),
            TokenKind::Special(Special::Colon),
        ]),
        line(4, vec![
            TokenKind::Identifier("arg".to_string()),
            TokenKind::Special(Special::Colon),
            TokenKind::Type(Type::Uint),
        ]),
        line(4, vec![
            TokenKind::Keyword(Keyword::Fn),
            TokenKind::Identifier("new".to_string()),
            TokenKind::Delimiter(Delimiter::OpenPar),
            TokenKind::Identifier("val".to_string()),
            TokenKind::Special(Special::Colon),
            TokenKind::Type(Type::Uint),
            TokenKind::Delimiter(Delimiter::ClosePar),
            TokenKind::Special(Special::RightArrow),
            TokenKind::Identifier("Example".to_string()),
            TokenKind::Special(Special::Colon),
        ]),
        line(8, vec![
            TokenKind::Keyword(Keyword::Return),
            TokenKind::Identifier("Example".to_string()),
            TokenKind::Delimiter(Delimiter::OpenBrace),
            TokenKind::Identifier("arg".to_string()),
            TokenKind::Special(Special::Colon),
            TokenKind::Identifier("val".to_string()),
            TokenKind::Delimiter(Delimiter::CloseBrace),
        ]),
        line(4, vec![
            TokenKind::Keyword(Keyword::Fn),
            TokenKind::Identifier("compute".to_string()),
            TokenKind::Delimiter(Delimiter::OpenPar),
            TokenKind::Identifier("self".to_string()),
            TokenKind::Delimiter(Delimiter::ClosePar),
            TokenKind::Special(Special::RightArrow),
            TokenKind::Type(Type::Uint),
            TokenKind::Special(Special::Colon),
        ]),
        line(8, vec![
            TokenKind::Keyword(Keyword::Return),
            TokenKind::Identifier("fib".to_string()),
            TokenKind::Delimiter(Delimiter::OpenPar),
            TokenKind::Identifier("self".to_string()),
            TokenKind::Special(Special::Dot),
            TokenKind::Identifier("arg".to_string()),
            TokenKind::Delimiter(Delimiter::ClosePar),
        ]),
    ]);

    let recv = NodeClass::new(code).expect("did not parse NodeClass");

    let exp = NodeClass {
        name: "Example".to_string(),
        members: vec![Member { name: "arg".to_string(), ty: Type::Uint, span: sp() }],
        methods: vec![
            NodeFuncDef {
                name: "new".to_string(),
                ret_type: Type::Custom(Box::new("Example".to_string())),
                namespace: Some("Example".to_string()),
                args: vec![Arg { name: "val".to_string(), ty: Type::Uint }],
                body: vec![NodeStmnt::RetStmnt(NodeRetStmnt {
                    value: expr(vec![NodeExprInner::InlineClass(NodeInlineClass {
                        class: "Example".to_string(),
                        members: vec![ClassMemberInit {
                            name: "arg".to_string(),
                            value: expr(vec![var_res("val")]),
                            span: sp(),
                        }],
                        span: sp(),
                    })]),
                    span: sp(),
                })],
                span: sp(),
            },
            NodeFuncDef {
                name: "compute".to_string(),
                ret_type: Type::Uint,
                namespace: Some("Example".to_string()),
                args: vec![Arg {
                    name: "self".to_string(),
                    ty: Type::Custom(Box::new("Example".to_string())),
                }],
                body: vec![NodeStmnt::RetStmnt(NodeRetStmnt {
                    value: expr(vec![call_res(
                        "fib",
                        vec![expr(vec![NodeExprInner::Resolution(NodeAttrRes {
                            resolution: vec![
                                NodeAttribute::VarCall(NodeVarCall {
                                    name: "self".to_string(),
                                    span: sp(),
                                }),
                                NodeAttribute::VarCall(NodeVarCall {
                                    name: "arg".to_string(),
                                    span: sp(),
                                }),
                            ],
                            span: sp(),
                        })])],
                    )]),
                    span: sp(),
                })],
                span: sp(),
            },
        ],
        span: sp(),
    };

    assert_eq!(exp, recv);
}
