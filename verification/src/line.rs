use vstd::prelude::*;

use crate::tokens::Token;
use std::collections::VecDeque;

verus! {

/// One logical line of source: its indentation in spaces and its tokens,
/// ending with a newline token. A line's view is its token sequence.
#[derive(Debug)]
pub struct Line {
    indent: u64,
    tokens: VecDeque<Token>,
}

impl View for Line {
    type V = Seq<Token>;

    closed spec fn view(&self) -> Seq<Token> {
        self.tokens@
    }
}

impl Line {
    pub closed spec fn spec_indent(&self) -> u64 {
        self.indent
    }

    pub fn new(indent: u64, tokens: VecDeque<Token>) -> (r: Line)
        ensures
            r.spec_indent() == indent && r@ == tokens@,
    {
        Line { indent, tokens }
    }

    pub fn tokens(&self) -> (r: &VecDeque<Token>)
        ensures
            r@ == self@,
    {
        &self.tokens
    }

    pub fn indent(&self) -> (r: u64)
        ensures
            r == self.spec_indent(),
    {
        self.indent
    }

    pub fn front_tok(&self) -> (r: Option<&Token>)
        ensures
            self@.len() == 0 ==> r is None,
            self@.len() > 0 ==> r == Some(&self@[0]),
    {
        if self.tokens.len() > 0 {
            Some(&self.tokens[0])
        } else {
            None
        }
    }

    /// The number of tokens on the line.
    pub fn len(&self) -> (r: usize)
        ensures
            r == self@.len(),
    {
        self.tokens.len()
    }

    /// Hands the line's tokens over.
    pub fn into_tokens(self) -> (r: VecDeque<Token>)
        ensures
            r@ == self@,
    {
        self.tokens
    }
}

} // verus!
