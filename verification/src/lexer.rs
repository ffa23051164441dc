use vstd::prelude::*;

use crate::error::{ChalError, LexerErrorKind};
use crate::line::Line;
use crate::reader::CharReader;
use crate::span::{Position, Span};
use crate::stack::Stack;
use crate::text::{chars_of, str_eq, string_from_chars};
use crate::tokens::{wf_token_kind, Delimiter, Keyword, Operator, Token, TokenKind};
use std::collections::VecDeque;

verus! {

/// A token as the lexer hands it out: correctly classified from its own
/// lexeme. The one rewritten kind is the unary negation, which keeps the
/// subtraction sign's lexeme.
pub open spec fn lexed_token_ok(t: Token) -> bool {
    wf_token_kind(t.kind, t.src@) || (t.kind == TokenKind::Operator(Operator::Neg) && t.src@
        == "-"@)
}

/// A line as the lexer hands it out: at least one token, each correctly
/// classified from its lexeme.
pub open spec fn lexed_line_ok(l: Line) -> bool {
    l@.len() >= 1 && forall|i: int| 0 <= i < l@.len() ==> lexed_token_ok(#[trigger] l@[i])
}

/// Whether an error value is a lexer error of the invalid-indentation kind.
pub open spec fn is_indentation_error(e: ChalError) -> bool {
    e matches ChalError::Lexer(le) && le.kind is InvalidIndentation
}

/// Whether an error value reports an invalid indentation first.
pub open spec fn reports_invalid_indentation(e: ChalError) -> bool {
    match e {
        ChalError::Many(list) => list@.len() > 0 && is_indentation_error(list@[0]),
        other => is_indentation_error(other),
    }
}

/// Whether the token kind opens a delimited region.
pub open spec fn opens_delim(k: TokenKind) -> bool {
    k == TokenKind::Delimiter(Delimiter::OpenPar) || k == TokenKind::Delimiter(
        Delimiter::OpenBrace,
    ) || k == TokenKind::Delimiter(Delimiter::OpenBracket)
}

/// Whether the token kind closes a delimited region.
pub open spec fn closes_delim(k: TokenKind) -> bool {
    k == TokenKind::Delimiter(Delimiter::ClosePar) || k == TokenKind::Delimiter(
        Delimiter::CloseBrace,
    ) || k == TokenKind::Delimiter(Delimiter::CloseBracket)
}

/// Groups source characters into tokens and logical lines, one top-level
/// program chunk at a time. Tracks the stack of open delimiters and the
/// previous token kind, by which a minus sign is told to be a subtraction or
/// the start of a negative literal.
pub struct Lexer {
    delim_stack: Stack<Token>,
    reader: CharReader,
    prev: Option<TokenKind>,
}

impl Lexer {
    /// The source characters left to read.
    pub closed spec fn chars(&self) -> Seq<char> {
        self.reader.chars()
    }

    /// How many source characters are left.
    pub open spec fn remaining(&self) -> nat {
        self.chars().len()
    }

    /// How many delimiters are open.
    pub closed spec fn open_delims(&self) -> nat {
        self.delim_stack@.len()
    }

    /// Prepares a lexer over the given source. Tabs count as four spaces,
    /// and a trailing newline is appended so the last logical line always
    /// terminates.
    pub fn new(code: &str) -> (r: Lexer)
        ensures
            r.open_delims() == 0,
            (code@.len() > 0 && !(code@[0] == ' ' || code@[0] == '\n' || code@[0] == '#')
                && (forall|i: int| 0 <= i < code@.len() ==> code@[i] != '\t')) ==> r.chars()
                == code@ + seq!['\n'],
            code@.len() == 0 ==> r.remaining() == 0,
    {
        let ghost plain_source = code@.len() > 0 && !(code@[0] == ' ' || code@[0] == '\n'
            || code@[0] == '#') && (forall|i: int| 0 <= i < code@.len() ==> code@[i] != '\t');
        let cs = chars_of(code);
        let mut src = Vec::<char>::new();
        let mut i: usize = 0;
        while i < cs.len()
            invariant
                i <= cs@.len(),
                cs@ == code@,
                plain_source ==> (forall|j: int| 0 <= j < code@.len() ==> code@[j] != '\t'),
                plain_source ==> src@ == code@.take(i as int),
                code@.len() == 0 ==> src@ =~= Seq::<char>::empty(),
            decreases cs@.len() - i,
        {
            let c = cs[i];
            if c == '\t' {
                src.push(' ');
                src.push(' ');
                src.push(' ');
                src.push(' ');
            } else {
                src.push(c);
            }
            proof {
                if plain_source {
                    assert(src@ =~= code@.take(i as int + 1));
                }
            }
            i = i + 1;
        }
        src.push('\n');
        proof {
            if plain_source {
                assert(code@.take(code@.len() as int) =~= code@);
                assert(src@ =~= code@ + seq!['\n']);
            }
            if code@.len() == 0 {
                assert(src@ =~= seq!['\n']);
            }
        }
        let mut result = Lexer {
            delim_stack: Stack::<Token>::new(),
            reader: CharReader::new(src),
            prev: None,
        };
        proof {
            if plain_source {
                assert(result.chars()[0] == code@[0]);
            }
        }
        result.remove_trailing_space();
        result
    }

    /// Empties the delimiter stack, so a failed chunk leaves no stale open
    /// delimiter behind to distort later diagnostics.
    fn drain_delims(&mut self)
        ensures
            final(self).open_delims() == 0,
            final(self).remaining() == old(self).remaining(),
    {
        while !self.delim_stack.is_empty()
            invariant
                self.remaining() == old(self).remaining(),
            decreases self.open_delims(),
        {
            let _ = self.delim_stack.pop();
        }
    }

    pub fn is_empty(&self) -> (r: bool)
        ensures
            r == (self.remaining() == 0),
    {
        self.reader.is_empty()
    }

    /// Lexes the next top-level program chunk into its logical lines. A
    /// `let`, `const` or identifier line stands alone; `fn`, `if`, `while`,
    /// `for`, `try` and `class` carry their indented block, with `elif`,
    /// `else` and `catch` extensions; any other leading token is an invalid
    /// global statement. On every return the delimiter stack is empty, and
    /// every returned line holds at least one correctly classified token.
    #[verifier::loop_isolation(false)]
    pub fn advance_prog(&mut self) -> (r: Result<VecDeque<Line>, ChalError>)
        ensures
            final(self).open_delims() == 0,
            r matches Ok(lines) ==> forall|i: int|
                0 <= i < lines@.len() ==> lexed_line_ok(#[trigger] lines@[i]),
            final(self).remaining() <= old(self).remaining(),
            old(self).remaining() > 0 ==> final(self).remaining() < old(self).remaining(),
            old(self).remaining() == 0 ==> r is Err,
    {
        if self.reader.is_empty() {
            self.drain_delims();
            return Err(ChalError::internal("Lexer::advance_prog(): advancing an empty lexer"));
        }

        let mut result = VecDeque::<Line>::new();
        let mut errors = Vec::<ChalError>::new();
        let mut line: Line = match self.advance_line() {
            Ok(l) => l,
            Err(e) => {
                self.drain_delims();
                return Err(e);
            },
        };

        // a line holding only its newline token is an empty line
        while line.len() < 2
            invariant
                self.remaining() < old(self).remaining(),
                lexed_line_ok(line),
            decreases self.remaining(),
        {
            line = match self.advance_line() {
                Ok(l) => l,
                Err(e) => {
                    self.drain_delims();
                    return Err(e);
                },
            };
        }

        let front_kind = match line.front_tok() {
            Some(tok) => tok.kind.clone(),
            None => {
                self.drain_delims();
                return Err(ChalError::internal("Lexer::advance_prog(): line without tokens"));
            },
        };
        let front_span = match line.front_tok() {
            Some(tok) => tok.span,
            None => Span::default(),
        };

        match front_kind {
            TokenKind::Keyword(Keyword::Let)
            | TokenKind::Keyword(Keyword::Const)
            | TokenKind::Identifier(_) => {
                result.push_back(line);
            },
            TokenKind::Keyword(Keyword::Fn)
            | TokenKind::Keyword(Keyword::If)
            | TokenKind::Keyword(Keyword::While)
            | TokenKind::Keyword(Keyword::For)
            | TokenKind::Keyword(Keyword::Try)
            | TokenKind::Keyword(Keyword::Class) => {
                result.push_back(line);
                let ghost head = result@;
                let mut rest = match self.advance_chunk() {
                    Ok(lines) => lines,
                    Err(e) => {
                        self.drain_delims();
                        return Err(e);
                    },
                };
                let ghost tail = rest@;
                result.append(&mut rest);
                proof {
                    assert(result@ == head + tail);
                    assert forall|i: int|
                        0 <= i < result@.len() implies lexed_line_ok(#[trigger] result@[i]) by {
                        if i < head.len() {
                            assert(result@[i] == head[i]);
                        } else {
                            assert(result@[i] == tail[i - head.len()]);
                        }
                    }
                }
            },
            invalid => {
                self.remove_trailing_space();
                self.drain_delims();
                return Err(
                    ChalError::lexer_err(
                        LexerErrorKind::InvalidGlobalStatement(invalid),
                        front_span,
                    ),
                );
            },
        }

        // any delimiter still open at the end of a program chunk is an error
        while !self.delim_stack.is_empty()
            invariant
                self.remaining() < old(self).remaining(),
                forall|i: int| 0 <= i < result@.len() ==> lexed_line_ok(#[trigger] result@[i]),
            decreases self.open_delims(),
        {
            match self.delim_stack.pop() {
                Some(delim) => {
                    errors.push(
                        ChalError::lexer_err(
                            LexerErrorKind::UnclosedDelimiter(delim.src),
                            delim.span,
                        ),
                    );
                },
                None => {
                    break;
                },
            }
        }

        if errors.len() > 0 {
            return Err(ChalError::Many(errors));
        }

        self.remove_trailing_space();
        Ok(result)
    }

    /// Lexes the indented block belonging to a compound statement's header,
    /// with any `elif`, `else` or `catch` continuations.
    fn advance_chunk(&mut self) -> (r: Result<VecDeque<Line>, ChalError>)
        ensures
            final(self).remaining() <= old(self).remaining(),
            r matches Ok(lines) ==> forall|i: int|
                0 <= i < lines@.len() ==> lexed_line_ok(#[trigger] lines@[i]),
    {
        let mut errors = Vec::<ChalError>::new();
        let mut result = VecDeque::<Line>::new();

        loop
            invariant
                self.remaining() <= old(self).remaining(),
                forall|i: int| 0 <= i < result@.len() ==> lexed_line_ok(#[trigger] result@[i]),
            decreases self.remaining(),
        {
            match self.reader.peek() {
                Some(c) => {
                    if c == ' ' || c == '\n' || c == '#' {
                        // the line belongs to the block
                    } else if c == 'e' || c == 'c' {
                        let word = self.reader.peek_word();
                        let w = string_from_chars(&word, 0, word.len());
                        if !(str_eq(w.as_str(), "elif") || str_eq(w.as_str(), "else") || str_eq(
                            w.as_str(),
                            "catch",
                        )) {
                            break;
                        }
                    } else {
                        break;
                    }
                },
                None => {
                    break;
                },
            }

            match self.advance_line() {
                Ok(line) => {
                    // a line holding only its newline token is an empty line
                    if line.len() >= 2 {
                        result.push_back(line);
                    }
                },
                Err(err) => {
                    errors.push(err);
                },
            }
        }

        if errors.len() > 0 {
            return Err(ChalError::Many(errors));
        }
        Ok(result)
    }

    /// Lexes one logical line: its indentation, then tokens up to and
    /// including the newline. A non-empty line whose leading-space count is
    /// not a multiple of four is rejected, with the invalid indentation
    /// reported first; on success every token is correctly classified.
    #[verifier::loop_isolation(false)]
    fn advance_line(&mut self) -> (r: Result<Line, ChalError>)
        ensures
            old(self).remaining() == 0 ==> r is Err,
            old(self).remaining() > 0 ==> final(self).remaining() < old(self).remaining(),
            final(self).remaining() <= old(self).remaining(),
            (old(self).remaining() > 0 && crate::reader::spec_leading_spaces(old(self).chars()) % 4
                != 0) ==> (r matches Err(e) && reports_invalid_indentation(e)),
            r matches Ok(line) ==> lexed_line_ok(line),
    {
        if self.reader.is_empty() {
            return Err(ChalError::internal("Lexer::advance_line(): advancing an empty lexer"));
        }

        let indent = self.reader.advance_spaces();
        let indent_pos = self.reader.pos();

        let ghost indent_bad = indent % 4 != 0;
        let mut errors = Vec::<ChalError>::new();
        if indent % 4 != 0 {
            errors.push(
                ChalError::lexer_err(
                    LexerErrorKind::InvalidIndentation,
                    Span::new(indent_pos, indent_pos),
                ),
            );
        }
        let ghost errs0 = errors@.len();
        let ghost rem0 = self.remaining();

        let mut result = VecDeque::<Token>::new();
        loop
            invariant
                self.remaining() <= rem0,
                self.remaining() < rem0 || (result@.len() == 0 && errors@.len() == errs0),
                indent_bad ==> (errors@.len() >= 1 && is_indentation_error(errors@[0])),
                forall|i: int| 0 <= i < result@.len() ==> lexed_token_ok(#[trigger] result@[i]),
            decreases self.remaining(),
        {
            if self.reader.is_empty() {
                break;
            }
            match self.advance() {
                Ok(tok) => {
                    let is_newline = match tok.kind {
                        TokenKind::Newline => true,
                        _ => false,
                    };
                    result.push_back(tok);
                    if is_newline {
                        break;
                    }
                },
                Err(err) => {
                    errors.push(err);
                },
            }
        }

        if errors.len() > 0 {
            return Err(ChalError::Many(errors));
        }
        if result.len() == 0 {
            return Err(ChalError::internal("Lexer::advance_line(): line without tokens"));
        }
        Ok(Line::new(indent, result))
    }

    /// Builds the token for a lexeme, maintains the delimiter stack, and
    /// rewrites a subtraction into a negation when it stands in operator
    /// position.
    fn advance_tok(&mut self, src: String, start: Position, end: Position) -> (r: Result<
        Token,
        ChalError,
    >)
        ensures
            final(self).remaining() == old(self).remaining(),
            r matches Ok(t) ==> lexed_token_ok(t),
            r matches Ok(t) && opens_delim(t.kind) ==> final(self).open_delims()
                == old(self).open_delims() + 1,
            r matches Ok(t) && closes_delim(t.kind) ==> (old(self).open_delims() > 0
                && final(self).open_delims() == old(self).open_delims() - 1),
            r matches Ok(t) && !opens_delim(t.kind) && !closes_delim(t.kind)
                ==> final(self).open_delims() == old(self).open_delims(),
            r is Err ==> final(self).open_delims() <= old(self).open_delims(),
            src@ == "\n"@ ==> (r matches Ok(t) && t.kind is Newline),
    {
        let mut tok = Token::new(src, Span::new(start, end))?;

        let is_open = matches!(
            &tok.kind,
            TokenKind::Delimiter(Delimiter::OpenPar) | TokenKind::Delimiter(Delimiter::OpenBrace)
                | TokenKind::Delimiter(Delimiter::OpenBracket),
        );
        if is_open {
            self.delim_stack.push(tok.clone());
        } else if let TokenKind::Delimiter(close_delim) = &tok.kind {
            let close = *close_delim;
            match self.delim_stack.pop() {
                None => {
                    return Err(
                        ChalError::lexer_err(
                            LexerErrorKind::UnexpectedClosingDelimiter(tok.src.clone()),
                            tok.span,
                        ),
                    );
                },
                Some(open_tok) => {
                    let matches_open = match &open_tok.kind {
                        TokenKind::Delimiter(open_delim) => *open_delim == close.inverse(),
                        _ => false,
                    };
                    if !matches_open {
                        return Err(
                            ChalError::lexer_err(
                                LexerErrorKind::MismatchingDelimiters(
                                    open_tok.src,
                                    tok.src.clone(),
                                ),
                                Span::new(open_tok.span.start, start),
                            ),
                        );
                    }
                },
            }
        } else if matches!(&tok.kind, TokenKind::Operator(Operator::Sub)) {
            let makes_neg = match &self.prev {
                Some(TokenKind::Operator(_)) => true,
                Some(TokenKind::Delimiter(Delimiter::OpenPar)) => true,
                Some(TokenKind::Special(crate::tokens::Special::Comma)) => true,
                Some(TokenKind::Keyword(_)) => true,
                _ => false,
            };
            if makes_neg {
                tok = tok.into_neg()?;
            }
        }

        self.prev = Some(tok.kind.clone());
        Ok(tok)
    }

    /// Lexes the next token: skips spaces, then reads a comment, a numeric
    /// literal, a word, a sign, a newline or a string.
    fn advance(&mut self) -> (r: Result<Token, ChalError>)
        ensures
            final(self).remaining() <= old(self).remaining(),
            old(self).remaining() > 0 ==> final(self).remaining() < old(self).remaining(),
            old(self).remaining() == 0 ==> r is Err,
            r matches Ok(t) ==> lexed_token_ok(t),
            (old(self).chars().len() > 0 && old(self).chars()[0] == '\n') ==> (r matches Ok(t)
                && t.kind is Newline),
    {
        let ghost nl_front = old(self).chars().len() > 0 && old(self).chars()[0] == '\n';
        let mut current: char;
        match self.reader.advance() {
            Some(c) => {
                current = c;
            },
            None => {
                return Err(ChalError::internal("Lexer::advance(): advancing an empty lexer"));
            },
        }

        while current == ' '
            invariant
                self.remaining() < old(self).remaining(),
                nl_front == (old(self).chars().len() > 0 && old(self).chars()[0] == '\n'),
                nl_front ==> current == '\n',
            decreases self.remaining(),
        {
            match self.reader.advance() {
                Some(c) => {
                    current = c;
                },
                None => {
                    return Err(ChalError::internal("Lexer::advance(): advancing an empty lexer"));
                },
            }
        }
        let start = self.reader.pos();

        if current == '#' {
            // a comment runs to the end of the line; a logical newline is
            // still produced
            loop
                invariant
                    self.remaining() < old(self).remaining(),
                decreases self.remaining(),
            {
                match self.reader.peek() {
                    Some(c) => {
                        if c == '\n' {
                            break;
                        }
                        let _ = self.reader.advance();
                    },
                    None => {
                        break;
                    },
                }
            }
            let _ = self.reader.advance();
            let pos = self.reader.pos();
            return self.advance_tok("\n".to_owned(), pos, pos);
        }

        let cu = current as u32;
        let next_is_digit = match self.reader.peek() {
            Some(c) => {
                let nu = c as u32;
                48 <= nu && nu <= 57
            },
            None => false,
        };

        if (48 <= cu && cu <= 57) || (current == '-' && next_is_digit) {
            // a minus after a terminal is a subtraction, not a sign:
            // `a-5` is a subtraction, `a*-5` holds a negative literal
            if current == '-' {
                let after_terminal = match &self.prev {
                    Some(kind) => kind.is_terminal() || match kind {
                        TokenKind::Delimiter(Delimiter::ClosePar) => true,
                        _ => false,
                    },
                    None => false,
                };
                if after_terminal {
                    return self.advance_tok("-".to_owned(), start, self.reader.pos());
                }
            }

            let mut lexeme = Vec::<char>::new();
            lexeme.push(current);
            loop
                invariant
                    self.remaining() < old(self).remaining(),
                decreases self.remaining(),
            {
                match self.reader.peek() {
                    Some(c) => {
                        let nu = c as u32;
                        if (48 <= nu && nu <= 57) || c == '.' || c == '_' {
                            let _ = self.reader.advance();
                            lexeme.push(c);
                        } else {
                            break;
                        }
                    },
                    None => {
                        break;
                    },
                }
            }
            let src = string_from_chars(&lexeme, 0, lexeme.len());
            return self.advance_tok(src, start, self.reader.pos());
        }

        if (65 <= cu && cu <= 90) || (97 <= cu && cu <= 122) || current == '_' {
            let mut lexeme = Vec::<char>::new();
            lexeme.push(current);
            loop
                invariant
                    self.remaining() < old(self).remaining(),
                decreases self.remaining(),
            {
                match self.reader.peek() {
                    Some(c) => {
                        let nu = c as u32;
                        if (48 <= nu && nu <= 57) || (65 <= nu && nu <= 90) || (97 <= nu && nu
                            <= 122) || c == '_' {
                            let _ = self.reader.advance();
                            lexeme.push(c);
                        } else {
                            break;
                        }
                    },
                    None => {
                        break;
                    },
                }
            }
            // a trailing `!` belongs to an unsafe function's name, unless it
            // begins a `!=`
            let bang_next = match self.reader.peek() {
                Some(c) => c == '!',
                None => false,
            };
            let then_eq = match self.reader.peek2() {
                Some(c) => c == '=',
                None => false,
            };
            if bang_next && !then_eq {
                let _ = self.reader.advance();
                lexeme.push('!');
            }
            let src = string_from_chars(&lexeme, 0, lexeme.len());
            return self.advance_tok(src, start, self.reader.pos());
        }

        if is_sign_char(current) {
            if !is_operator_start(current) {
                let mut lexeme = Vec::<char>::new();
                lexeme.push(current);
                let src = string_from_chars(&lexeme, 0, lexeme.len());
                return self.advance_tok(src, start, start);
            }
            let two_char = match self.reader.peek() {
                Some(next) => is_compound_pair(current, next),
                None => false,
            };
            let mut lexeme = Vec::<char>::new();
            lexeme.push(current);
            if two_char {
                match self.reader.advance() {
                    Some(next) => {
                        lexeme.push(next);
                    },
                    None => {},
                }
            }
            let src = string_from_chars(&lexeme, 0, lexeme.len());
            return self.advance_tok(src, start, self.reader.pos());
        }

        if current == '\n' {
            return self.advance_tok("\n".to_owned(), start, start);
        }

        if current == '"' || current == '\'' {
            let mut lexeme = Vec::<char>::new();
            lexeme.push(current);
            loop
                invariant
                    self.remaining() < old(self).remaining(),
                decreases self.remaining(),
            {
                match self.reader.peek() {
                    Some(c) => {
                        if c == current {
                            break;
                        }
                        let _ = self.reader.advance();
                        lexeme.push(c);
                    },
                    None => {
                        break;
                    },
                }
            }
            // the closing quote, if the string did not run into the end of
            // the source
            match self.reader.advance() {
                Some(c) => {
                    lexeme.push(c);
                },
                None => {},
            }
            let src = string_from_chars(&lexeme, 0, lexeme.len());
            return self.advance_tok(src, start, self.reader.pos());
        }

        Err(ChalError::lexer_err(LexerErrorKind::InvalidChar(current), Span::new(start, start)))
    }

    /// Skips blank lines and comments between program chunks.
    #[verifier::loop_isolation(false)]
    fn remove_trailing_space(&mut self)
        ensures
            final(self).remaining() <= old(self).remaining(),
            final(self).open_delims() == old(self).open_delims(),
            (old(self).remaining() > 0 && !(old(self).chars()[0] == ' ' || old(self).chars()[0]
                == '\n' || old(self).chars()[0] == '#')) ==> final(self).chars() == old(
                self,
            ).chars(),
            (forall|i: int|
                0 <= i < old(self).chars().len() ==> (old(self).chars()[i] == ' ' || old(
                    self,
                ).chars()[i] == '\n')) ==> final(self).remaining() == 0,
    {
        let ghost solid_front = old(self).remaining() > 0 && !(old(self).chars()[0] == ' '
            || old(self).chars()[0] == '\n' || old(self).chars()[0] == '#');
        let ghost all_blank = forall|i: int|
            0 <= i < old(self).chars().len() ==> (old(self).chars()[i] == ' ' || old(
                self,
            ).chars()[i] == '\n');
        loop
            invariant
                self.remaining() <= old(self).remaining(),
                self.open_delims() == old(self).open_delims(),
                solid_front == (old(self).remaining() > 0 && !(old(self).chars()[0] == ' ' || old(
                    self,
                ).chars()[0] == '\n' || old(self).chars()[0] == '#')),
                solid_front ==> self.chars() == old(self).chars(),
                all_blank ==> (forall|i: int|
                    0 <= i < self.chars().len() ==> (self.chars()[i] == ' ' || self.chars()[i]
                        == '\n')),
            decreases self.remaining(),
        {
            match self.reader.peek() {
                Some(c) => {
                    if c == ' ' || c == '\n' {
                        let _ = self.reader.advance();
                    } else if c == '#' {
                        let ghost rem0 = self.remaining();
                        let _ = self.reader.advance();
                        loop
                            invariant
                                self.remaining() < rem0,
                                self.open_delims() == old(self).open_delims(),
                            decreases self.remaining(),
                        {
                            match self.reader.advance() {
                                Some(a) => {
                                    if a == '\n' {
                                        break;
                                    }
                                },
                                None => {
                                    break;
                                },
                            }
                        }
                    } else {
                        break;
                    }
                },
                None => {
                    break;
                },
            }
        }
    }
}

/// A character that may begin an operator, delimiter or special sign.
fn is_sign_char(c: char) -> (r: bool)
    ensures
        r == (c == '(' || c == ')' || c == '[' || c == ']' || c == '{' || c == '}' || c == ','
            || c == ':' || c == '.' || c == ';' || c == '+' || c == '-' || c == '*' || c == '/'
            || c == '%' || c == '<' || c == '>' || c == '=' || c == '!' || c == '&' || c == '|'),
{
    c == '(' || c == ')' || c == '[' || c == ']' || c == '{' || c == '}' || c == ',' || c == ':'
        || c == '.' || c == ';' || is_operator_start(c)
}

/// A character that may begin a one- or two-character operator.
fn is_operator_start(c: char) -> (r: bool)
    ensures
        r == (c == '+' || c == '-' || c == '*' || c == '/' || c == '%' || c == '<' || c == '>'
            || c == '=' || c == '!' || c == '&' || c == '|' || c == ':'),
{
    c == '+' || c == '-' || c == '*' || c == '/' || c == '%' || c == '<' || c == '>' || c == '='
        || c == '!' || c == '&' || c == '|' || c == ':'
}

/// The two-character operators: `+= -= *= /= %= && || >= <= == != -> :=`.
fn is_compound_pair(a: char, b: char) -> bool {
    (b == '=' && (a == '+' || a == '-' || a == '*' || a == '/' || a == '%' || a == '>' || a == '<'
        || a == '=' || a == '!' || a == ':')) || (a == '&' && b == '&') || (a == '|' && b == '|')
        || (a == '-' && b == '>')
}

} // verus!
