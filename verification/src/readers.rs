use vstd::prelude::*;

use crate::error::{ChalError, ParserErrorKind};
use crate::line::Line;
use crate::span::Span;
use crate::tokens::{kind_eq, kind_like, Delimiter, Keyword, Special, Token, TokenKind};
use crate::types::Type;
use std::collections::VecDeque;

verus! {

/// A cursor over the tokens of one logical line or sub-buffer. Its view is
/// the sequence of tokens left to read.
pub struct TokenReader {
    src: VecDeque<Token>,
    fallback: Span,
}

impl View for TokenReader {
    type V = Seq<Token>;

    closed spec fn view(&self) -> Seq<Token> {
        self.src@
    }
}

impl TokenReader {
    pub fn new(src: VecDeque<Token>, span: Span) -> (r: TokenReader)
        ensures
            r@ == src@,
    {
        TokenReader { src, fallback: span }
    }

    /// The span of the next token, or the reader's fallback span.
    pub fn current(&self) -> Span {
        if self.src.len() > 0 {
            self.src[0].span
        } else {
            self.fallback
        }
    }

    pub fn is_empty(&self) -> (r: bool)
        ensures
            r == (self@.len() == 0),
    {
        self.src.len() == 0
    }

    pub fn len(&self) -> (r: usize)
        ensures
            r == self@.len(),
    {
        self.src.len()
    }

    pub fn peek(&self) -> (r: Option<&Token>)
        ensures
            self@.len() == 0 ==> r is None,
            self@.len() > 0 ==> r == Some(&self@[0]),
    {
        if self.src.len() > 0 {
            Some(&self.src[0])
        } else {
            None
        }
    }

    pub fn advance(&mut self) -> (r: Option<Token>)
        ensures
            old(self)@.len() == 0 ==> r is None && final(self)@ == old(self)@,
            old(self)@.len() > 0 ==> r == Some(old(self)@[0]) && final(self)@ == old(self)@.skip(1),
    {
        let r = self.src.pop_front();
        proof {
            if old(self)@.len() > 0 {
                assert(old(self)@.subrange(1, old(self)@.len() as int) =~= old(self)@.skip(1));
            }
        }
        r
    }

    pub fn push_front(&mut self, tok: Token)
        ensures
            final(self)@ == seq![tok] + old(self)@,
    {
        self.src.push_front(tok);
    }

    /// True when the next token has the given kind.
    pub fn peek_is_exact(&self, kind: &TokenKind) -> (r: bool)
        ensures
            r == (self@.len() > 0 && kind_like(self@[0].kind, *kind)),
    {
        match self.peek() {
            Some(tok) => kind_eq(&tok.kind, kind),
            None => false,
        }
    }

    /// Consumes the next token, which must have exactly the given kind; the
    /// end of the buffer counts as a newline. A mismatch consumes nothing.
    pub fn expect_exact(&mut self, kind: &TokenKind) -> (r: Result<Token, ChalError>)
        ensures
            final(self)@.len() <= old(self)@.len(),
            r matches Ok(tok) ==> kind_like(tok.kind, *kind),
            (r is Ok && old(self)@.len() > 0) ==> (final(self)@ == old(self)@.skip(1) && (r
                matches Ok(tok) && tok == old(self)@[0])),
            (r is Ok && !(kind is Newline)) ==> (old(self)@.len() > 0 && final(self)@ == old(self)@.skip(1)),
            (old(self)@.len() > 0 && kind_like(old(self)@[0].kind, *kind)) ==> r is Ok,
            (old(self)@.len() == 0 && kind is Newline) ==> r is Ok,
            (old(self)@.len() > 0 && !kind_like(old(self)@[0].kind, *kind)) ==> r is Err,
            (old(self)@.len() == 0 && !(kind is Newline)) ==> r is Err,
            r is Err ==> final(self)@ == old(self)@,
    {
        if self.src.len() == 0 {
            if matches!(kind, TokenKind::Newline) {
                return Ok(
                    Token { src: "\n".to_owned(), kind: TokenKind::Newline, span: self.fallback },
                );
            }
            return Err(
                ChalError::parser_err(
                    ParserErrorKind::ExpectedToken(kind.clone()),
                    self.fallback,
                ),
            );
        }
        let matches_front = kind_eq(&self.src[0].kind, kind);
        if matches_front {
            match self.advance() {
                Some(tok) => Ok(tok),
                None => Err(ChalError::internal("TokenReader::expect_exact(): empty reader")),
            }
        } else {
            Err(
                ChalError::parser_err(
                    ParserErrorKind::ExpectedToken(kind.clone()),
                    self.src[0].span,
                ),
            )
        }
    }

    /// Consumes the next token, which must be an identifier.
    pub fn expect_ident(&mut self) -> (r: Result<Token, ChalError>)
        ensures
            final(self)@.len() <= old(self)@.len(),
            r matches Ok(tok) ==> (tok.kind is Identifier && old(self)@.len() > 0 && final(self)@ == old(self)@.skip(1)),
            (old(self)@.len() > 0 && old(self)@[0].kind is Identifier) ==> (r matches Ok(tok)
                && tok == old(self)@[0]),
            r is Err ==> final(self)@ == old(self)@,
    {
        let is_ident = match self.peek() {
            Some(tok) => matches!(&tok.kind, TokenKind::Identifier(_)),
            None => false,
        };
        if !is_ident {
            return Err(
                ChalError::parser_err(
                    ParserErrorKind::ExpectedToken(TokenKind::Identifier("".to_owned())),
                    self.current(),
                ),
            );
        }
        match self.advance() {
            Some(tok) => Ok(tok),
            None => Err(ChalError::internal("TokenReader::expect_ident(): empty reader")),
        }
    }

    /// Consumes the next token, which must name a type: a primitive type
    /// keyword, or an identifier naming a class.
    pub fn expect_type(&mut self) -> (r: Result<Type, ChalError>)
        ensures
            final(self)@.len() <= old(self)@.len(),
            r is Ok ==> (old(self)@.len() > 0 && final(self)@ == old(self)@.skip(1)),
            r is Err ==> final(self)@ == old(self)@,
    {
        let accepted = match self.peek() {
            Some(tok) => matches!(
                &tok.kind,
                TokenKind::Type(_) | TokenKind::Identifier(_),
            ),
            None => false,
        };
        if !accepted {
            return Err(
                ChalError::parser_err(
                    ParserErrorKind::ExpectedToken(TokenKind::Type(Type::Any)),
                    self.current(),
                ),
            );
        }
        match self.advance() {
            Some(tok) => match tok.kind {
                TokenKind::Type(ty) => Ok(ty),
                TokenKind::Identifier(name) => Ok(Type::Custom(Box::new(name))),
                _ => Err(ChalError::internal("TokenReader::expect_type(): unreachable kind")),
            },
            None => Err(ChalError::internal("TokenReader::expect_type(): empty reader")),
        }
    }

    /// Whether the next token exists and is not a newline.
    fn front_not_newline(&self) -> (r: bool)
        ensures
            r == (self@.len() > 0 && !(self@[0].kind is Newline)),
    {
        match self.peek() {
            Some(tok) => !matches!(&tok.kind, TokenKind::Newline),
            None => false,
        }
    }

    /// Whether the next token exists and is neither a colon nor a newline.
    fn front_not_colon_or_newline(&self) -> (r: bool)
        ensures
            r == (self@.len() > 0 && !(self@[0].kind is Newline) && !(self@[0].kind
                == TokenKind::Special(Special::Colon))),
    {
        match self.peek() {
            Some(tok) => !matches!(
                &tok.kind,
                TokenKind::Newline | TokenKind::Special(Special::Colon),
            ),
            None => false,
        }
    }

    /// Collects the tokens before the next newline, which is left in place:
    /// the collected run is exactly the newline-free front of the buffer.
    #[verifier::loop_isolation(false)]
    pub fn advance_until_newline(&mut self) -> (r: VecDeque<Token>)
        ensures
            r@.len() <= old(self)@.len(),
            r@ == old(self)@.take(r@.len() as int),
            final(self)@ == old(self)@.skip(r@.len() as int),
            forall|i: int| 0 <= i < r@.len() ==> !((#[trigger] r@[i]).kind is Newline),
            final(self)@.len() > 0 ==> final(self)@[0].kind is Newline,
    {
        let mut result = VecDeque::<Token>::new();
        while self.front_not_newline()
            invariant
                result@.len() <= old(self)@.len(),
                result@ == old(self)@.take(result@.len() as int),
                self@ == old(self)@.skip(result@.len() as int),
                forall|i: int| 0 <= i < result@.len() ==> !((#[trigger] result@[i]).kind
                    is Newline),
            decreases self@.len(),
        {
            let ghost k = result@.len() as int;
            match self.advance() {
                Some(tok) => {
                    result.push_back(tok);
                    proof {
                        assert(old(self)@.skip(k)[0] == old(self)@[k]);
                        assert(result@ =~= old(self)@.take(k + 1));
                        assert(old(self)@.skip(k).skip(1) =~= old(self)@.skip(k + 1));
                    }
                },
                None => {
                    proof {
                        assert(false);
                    }
                    break;
                },
            }
        }
        result
    }

    /// Collects the tokens before the next colon or newline, which is left
    /// in place: the collected run is exactly the front of the buffer up to
    /// that stopper.
    #[verifier::loop_isolation(false)]
    pub fn advance_until_colon_or_newline(&mut self) -> (r: VecDeque<Token>)
        ensures
            r@.len() <= old(self)@.len(),
            r@ == old(self)@.take(r@.len() as int),
            final(self)@ == old(self)@.skip(r@.len() as int),
            forall|i: int| 0 <= i < r@.len() ==> (!((#[trigger] r@[i]).kind is Newline) && !(
            r@[i].kind == TokenKind::Special(Special::Colon))),
            final(self)@.len() > 0 ==> (final(self)@[0].kind is Newline || final(self)@[0].kind
                == TokenKind::Special(Special::Colon)),
    {
        let mut result = VecDeque::<Token>::new();
        while self.front_not_colon_or_newline()
            invariant
                result@.len() <= old(self)@.len(),
                result@ == old(self)@.take(result@.len() as int),
                self@ == old(self)@.skip(result@.len() as int),
                forall|i: int| 0 <= i < result@.len() ==> (!((#[trigger] result@[i]).kind
                    is Newline) && !(result@[i].kind == TokenKind::Special(Special::Colon))),
            decreases self@.len(),
        {
            let ghost k = result@.len() as int;
            match self.advance() {
                Some(tok) => {
                    result.push_back(tok);
                    proof {
                        assert(old(self)@.skip(k)[0] == old(self)@[k]);
                        assert(result@ =~= old(self)@.take(k + 1));
                        assert(old(self)@.skip(k).skip(1) =~= old(self)@.skip(k + 1));
                    }
                },
                None => {
                    proof {
                        assert(false);
                    }
                    break;
                },
            }
        }
        result
    }

    /// Consumes a balanced run of the given delimiters, both delimiters
    /// included: the next token is expected to be the opening one.
    pub fn advance_scope_raw(&mut self, open: Delimiter, close: Delimiter) -> (r: VecDeque<
        Token,
    >)
        ensures
            final(self)@.len() + r@.len() == old(self)@.len(),
            r@ == old(self)@.take(r@.len() as int),
            final(self)@ == old(self)@.skip(r@.len() as int),
            old(self)@.len() > 0 ==> r@.len() >= 1,
    {
        let mut result = VecDeque::<Token>::new();
        let mut depth: usize = 0;
        loop
            invariant
                result@.len() <= old(self)@.len(),
                result@ == old(self)@.take(result@.len() as int),
                self@ == old(self)@.skip(result@.len() as int),
            ensures
                result@.len() <= old(self)@.len(),
                result@ == old(self)@.take(result@.len() as int),
                self@ == old(self)@.skip(result@.len() as int),
                old(self)@.len() > 0 ==> result@.len() >= 1,
            decreases self@.len(),
        {
            let front_delim: Option<Delimiter> = match self.peek() {
                Some(tok) => match &tok.kind {
                    TokenKind::Delimiter(d) => Some(*d),
                    _ => None,
                },
                None => {
                    break;
                },
            };
            let ghost k = result@.len() as int;
            match self.advance() {
                Some(tok) => {
                    result.push_back(tok);
                    proof {
                        assert(old(self)@.skip(k)[0] == old(self)@[k]);
                        assert(result@ =~= old(self)@.take(k + 1));
                        assert(old(self)@.skip(k).skip(1) =~= old(self)@.skip(k + 1));
                    }
                },
                None => {
                    break;
                },
            }
            match front_delim {
                Some(d) => {
                    if d == open {
                        if depth < usize::MAX {
                            depth = depth + 1;
                        }
                    } else if d == close {
                        if depth > 0 {
                            depth = depth - 1;
                        }
                        if depth == 0 {
                            break;
                        }
                    }
                },
                None => {},
            }
        }
        result
    }

    /// Splits the remaining tokens at the commas that stand outside any
    /// delimiters, consuming the reader.
    pub fn split_commas(self) -> (r: Vec<VecDeque<Token>>)
        ensures
            forall|i: int| 0 <= i < r@.len() ==> (#[trigger] r@[i])@.len() <= self@.len(),
    {
        let mut parts = Vec::<VecDeque<Token>>::new();
        let mut current = VecDeque::<Token>::new();
        let mut depth: usize = 0;
        let mut src = self.src;
        let ghost total = src@.len();
        loop
            invariant
                current@.len() + src@.len() <= total,
                forall|i: int|
                    0 <= i < parts@.len() ==> (#[trigger] parts@[i])@.len() <= total,
            decreases src@.len(),
        {
            let tok = match src.pop_front() {
                Some(tok) => tok,
                None => {
                    break;
                },
            };
            let delim: Option<Delimiter> = match &tok.kind {
                TokenKind::Delimiter(d) => Some(*d),
                _ => None,
            };
            let is_comma = matches!(
                &tok.kind,
                TokenKind::Special(crate::tokens::Special::Comma),
            );
            match delim {
                Some(d) => {
                    match d {
                        Delimiter::OpenPar | Delimiter::OpenBrace | Delimiter::OpenBracket => {
                            if depth < usize::MAX {
                                depth = depth + 1;
                            }
                        },
                        _ => {
                            if depth > 0 {
                                depth = depth - 1;
                            }
                        },
                    }
                    current.push_back(tok);
                },
                None => {
                    if is_comma && depth == 0 {
                        parts.push(current);
                        current = VecDeque::<Token>::new();
                    } else {
                        current.push_back(tok);
                    }
                },
            }
        }
        if current.len() > 0 {
            parts.push(current);
        }
        parts
    }
}

/// A cursor over the logical lines of one program chunk. Its view is the
/// sequence of lines left to read.
pub struct LineReader {
    src: VecDeque<Line>,
}

impl View for LineReader {
    type V = Seq<Line>;

    closed spec fn view(&self) -> Seq<Line> {
        self.src@
    }
}

impl LineReader {
    pub fn new(src: VecDeque<Line>) -> (r: LineReader)
        ensures
            r@ == src@,
    {
        LineReader { src }
    }

    /// The indentation of the next line.
    pub fn indent(&self) -> (r: Option<u64>)
        ensures
            (r is Some) == (self@.len() > 0),
            r matches Some(i) ==> i == self@[0].spec_indent(),
    {
        if self.src.len() > 0 {
            Some(self.src[0].indent())
        } else {
            None
        }
    }

    /// The first token of the next line.
    pub fn peek_tok(&self) -> (r: Option<&Token>)
        ensures
            r is Some ==> (self@.len() > 0 && self@[0]@.len() > 0),
            r matches Some(t) ==> t == &self@[0]@[0],
    {
        if self.src.len() > 0 {
            self.src[0].front_tok()
        } else {
            None
        }
    }

    pub fn advance(&mut self) -> (r: Option<Line>)
        ensures
            old(self)@.len() == 0 ==> r is None && final(self)@ == old(self)@,
            old(self)@.len() > 0 ==> r == Some(old(self)@[0]) && final(self)@ == old(self)@.skip(1),
    {
        let r = self.src.pop_front();
        proof {
            if old(self)@.len() > 0 {
                assert(old(self)@.subrange(1, old(self)@.len() as int) =~= old(self)@.skip(1));
            }
        }
        r
    }

    pub fn is_empty(&self) -> (r: bool)
        ensures
            r == (self@.len() == 0),
    {
        self.src.len() == 0
    }

    /// Whether the next line exists and is indented deeper than the bound.
    fn front_deeper(&self, max_indent: u64) -> (r: bool)
        ensures
            r == (self@.len() > 0 && self@[0].spec_indent() > max_indent),
    {
        if self.src.len() > 0 {
            self.src[0].indent() > max_indent
        } else {
            false
        }
    }

    /// Collects the next line, and every following line indented deeper than
    /// the given bound: exactly the front of the buffer up to the first
    /// shallow line, which is left in place.
    #[verifier::loop_isolation(false)]
    pub fn advance_until(&mut self, max_indent: u64) -> (r: Result<VecDeque<Line>, ChalError>)
        ensures
            r matches Ok(lines) ==> (old(self)@.len() > 0 && lines@.len() >= 1 && lines@.len()
                + final(self)@.len() == old(self)@.len() && lines@ == old(self)@.take(
                lines@.len() as int,
            ) && final(self)@ == old(self)@.skip(lines@.len() as int) && (forall|i: int|
                1 <= i < lines@.len() ==> (#[trigger] lines@[i]).spec_indent() > max_indent) && (
            final(self)@.len() > 0 ==> final(self)@[0].spec_indent() <= max_indent)),
            r is Err ==> (old(self)@.len() == 0 && final(self)@ == old(self)@),
    {
        let mut result = VecDeque::<Line>::new();
        match self.advance() {
            Some(line) => {
                result.push_back(line);
                proof {
                    assert(result@ =~= old(self)@.take(1));
                }
            },
            None => {
                return Err(
                    ChalError::internal("LineReader::advance_until(): advancing an empty reader"),
                );
            },
        }
        while self.front_deeper(max_indent)
            invariant
                result@.len() >= 1,
                result@.len() <= old(self)@.len(),
                result@ == old(self)@.take(result@.len() as int),
                self@ == old(self)@.skip(result@.len() as int),
                forall|i: int|
                    1 <= i < result@.len() ==> (#[trigger] result@[i]).spec_indent()
                        > max_indent,
            decreases self@.len(),
        {
            let ghost k = result@.len() as int;
            match self.advance() {
                Some(line) => {
                    result.push_back(line);
                    proof {
                        assert(old(self)@.skip(k)[0] == old(self)@[k]);
                        assert(result@ =~= old(self)@.take(k + 1));
                        assert(old(self)@.skip(k).skip(1) =~= old(self)@.skip(k + 1));
                    }
                },
                None => {
                    proof {
                        assert(false);
                    }
                    break;
                },
            }
        }
        Ok(result)
    }

    /// Collects one compound statement: its header line and indented block,
    /// extended by `elif` and `else` blocks when the statement is an `if`,
    /// and by the `catch` block when it is a `try`.
    pub fn advance_chunk(&mut self) -> (r: Result<LineReader, ChalError>)
        ensures
            r is Ok ==> (old(self)@.len() > 0 && final(self)@.len() < old(self)@.len()),
            r matches Ok(sub) ==> sub@.len() + final(self)@.len() == old(self)@.len(),
            r is Err ==> old(self)@.len() == 0,
    {
        let chunk_indent = match self.indent() {
            Some(i) => i,
            None => {
                return Err(
                    ChalError::internal("LineReader::advance_chunk(): advancing an empty reader"),
                );
            },
        };
        let front_keyword: Option<Keyword> = match self.peek_tok() {
            Some(tok) => match &tok.kind {
                TokenKind::Keyword(k) => Some(*k),
                _ => None,
            },
            None => None,
        };

        let mut result = self.advance_until(chunk_indent)?;

        if matches!(front_keyword, Some(Keyword::If)) {
            loop
                invariant
                    self@.len() < old(self)@.len(),
                    result@.len() + self@.len() == old(self)@.len(),
                decreases self@.len(),
            {
                let continuation: Option<Keyword> = match self.peek_tok() {
                    Some(tok) => match &tok.kind {
                        TokenKind::Keyword(Keyword::Elif) => Some(Keyword::Elif),
                        TokenKind::Keyword(Keyword::Else) => Some(Keyword::Else),
                        _ => None,
                    },
                    None => None,
                };
                match continuation {
                    Some(Keyword::Elif) => {
                        let mut more = self.advance_until(chunk_indent)?;
                        result.append(&mut more);
                    },
                    Some(_) => {
                        let mut more = self.advance_until(chunk_indent)?;
                        result.append(&mut more);
                        break;
                    },
                    None => {
                        break;
                    },
                }
            }
        } else if matches!(front_keyword, Some(Keyword::Try)) {
            let has_catch = match self.peek_tok() {
                Some(tok) => matches!(&tok.kind, TokenKind::Keyword(Keyword::Catch)),
                None => false,
            };
            if has_catch {
                let mut more = self.advance_until(chunk_indent)?;
                result.append(&mut more);
            }
        }

        Ok(LineReader::new(result))
    }

    /// Hands the next line out as a token reader holding exactly the
    /// removed front line's tokens.
    pub fn advance_reader(&mut self) -> (r: Result<TokenReader, ChalError>)
        ensures
            r matches Ok(tr) ==> (old(self)@.len() > 0 && final(self)@ == old(self)@.skip(1)
                && tr@ == old(self)@[0]@),
            r is Err ==> (old(self)@.len() == 0 && final(self)@ == old(self)@),
    {
        match self.advance() {
            Some(line) => Ok(TokenReader::new(line.into_tokens(), Span::default())),
            None => Err(
                ChalError::internal("LineReader::advance_reader(): advancing an empty reader"),
            ),
        }
    }
}

} // verus!
