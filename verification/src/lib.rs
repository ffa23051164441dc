//! The core of the Chalcedony scripting language: an indentation-sensitive
//! lexer, a parser producing an abstract syntax tree with expressions in
//! Reverse Polish Notation, and a type-checking bytecode compiler for a
//! stack-based virtual machine.

pub mod ast;
pub mod bytecode;
pub mod codegen;
pub mod compile;
pub mod expr;
pub mod interp;
pub mod lexer;
pub mod parse;
pub mod program;
pub mod line;
pub mod reader;
pub mod readers;
pub mod error;
pub mod span;
pub mod stack;
pub mod text;
pub mod tokens;
pub mod types;
