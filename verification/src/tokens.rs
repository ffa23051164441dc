use vstd::prelude::*;

use crate::error::{ChalError, LexerErrorKind};
use crate::span::Span;
use crate::text::{str_eq, string_from_chars};
use crate::types::{type_eq, Type};

verus! {

#[derive(Clone, Copy, Debug, PartialEq, Eq, Structural)]
pub enum Keyword {
    Let,
    Const,
    Fn,
    If,
    Elif,
    Else,
    While,
    For,
    In,
    Return,
    Break,
    Continue,
    Try,
    Catch,
    Throw,
    Class,
}

#[derive(Clone, Copy, Debug, PartialEq, Eq, Structural)]
pub enum Special {
    Comma,
    Colon,
    Dot,
    Semicolon,
    RightArrow,
}

#[derive(Clone, Copy, Debug, PartialEq, Eq, Structural)]
pub enum Operator {
    Add,
    Sub,
    Mul,
    Div,
    Mod,
    Eq,
    AddEq,
    SubEq,
    MulEq,
    DivEq,
    ModEq,
    And,
    Or,
    Gt,
    Lt,
    GtEq,
    LtEq,
    EqEq,
    BangEq,
    Bang,
    /// The unary negation; produced from a subtraction token when it stands
    /// in operator position, never directly from a lexeme.
    Neg,
    Walrus,
}

#[derive(Clone, Copy, Debug, PartialEq, Eq, Structural)]
pub enum Delimiter {
    OpenPar,
    ClosePar,
    OpenBrace,
    CloseBrace,
    OpenBracket,
    CloseBracket,
}

impl Delimiter {
    /// The opening delimiter that a closing one must match.
    pub fn inverse(&self) -> (r: Delimiter)
        ensures
            r == (match *self {
                Delimiter::OpenPar => Delimiter::ClosePar,
                Delimiter::ClosePar => Delimiter::OpenPar,
                Delimiter::OpenBrace => Delimiter::CloseBrace,
                Delimiter::CloseBrace => Delimiter::OpenBrace,
                Delimiter::OpenBracket => Delimiter::CloseBracket,
                Delimiter::CloseBracket => Delimiter::OpenBracket,
            }),
    {
        match self {
            Delimiter::OpenPar => Delimiter::ClosePar,
            Delimiter::ClosePar => Delimiter::OpenPar,
            Delimiter::OpenBrace => Delimiter::CloseBrace,
            Delimiter::CloseBrace => Delimiter::OpenBrace,
            Delimiter::OpenBracket => Delimiter::CloseBracket,
            Delimiter::CloseBracket => Delimiter::OpenBracket,
        }
    }
}

/// The tagged kind of a token. A float literal is carried as its source text:
/// its binary value is the virtual machine's concern, not the compiler's.
#[derive(Debug, PartialEq)]
pub enum TokenKind {
    Int(i64),
    Uint(u64),
    Float(String),
    Str(String),
    Bool(bool),
    Identifier(String),
    Type(Type),
    Keyword(Keyword),
    Operator(Operator),
    Delimiter(Delimiter),
    Special(Special),
    Newline,
}

impl Clone for TokenKind {
    fn clone(&self) -> (r: TokenKind)
        ensures
            kind_like(r, *self),
    {
        match self {
            TokenKind::Int(v) => TokenKind::Int(*v),
            TokenKind::Uint(v) => TokenKind::Uint(*v),
            TokenKind::Float(s) => TokenKind::Float(s.clone()),
            TokenKind::Str(s) => TokenKind::Str(s.clone()),
            TokenKind::Bool(b) => TokenKind::Bool(*b),
            TokenKind::Identifier(s) => TokenKind::Identifier(s.clone()),
            TokenKind::Type(t) => TokenKind::Type(t.clone()),
            TokenKind::Keyword(k) => TokenKind::Keyword(*k),
            TokenKind::Operator(o) => TokenKind::Operator(*o),
            TokenKind::Delimiter(d) => TokenKind::Delimiter(*d),
            TokenKind::Special(s) => TokenKind::Special(*s),
            TokenKind::Newline => TokenKind::Newline,
        }
    }
}

/// View-level equivalence of two token kinds: equal up to the identity of
/// the strings they carry.
pub open spec fn kind_like(a: TokenKind, b: TokenKind) -> bool {
    match (a, b) {
        (TokenKind::Int(x), TokenKind::Int(y)) => x == y,
        (TokenKind::Uint(x), TokenKind::Uint(y)) => x == y,
        (TokenKind::Float(x), TokenKind::Float(y)) => x@ == y@,
        (TokenKind::Str(x), TokenKind::Str(y)) => x@ == y@,
        (TokenKind::Bool(x), TokenKind::Bool(y)) => x == y,
        (TokenKind::Identifier(x), TokenKind::Identifier(y)) => x@ == y@,
        (TokenKind::Type(x), TokenKind::Type(y)) => crate::types::type_like(x, y),
        (TokenKind::Keyword(x), TokenKind::Keyword(y)) => x == y,
        (TokenKind::Operator(x), TokenKind::Operator(y)) => x == y,
        (TokenKind::Delimiter(x), TokenKind::Delimiter(y)) => x == y,
        (TokenKind::Special(x), TokenKind::Special(y)) => x == y,
        (TokenKind::Newline, TokenKind::Newline) => true,
        _ => false,
    }
}

/// Equivalence of token kinds, executable form.
pub fn kind_eq(a: &TokenKind, b: &TokenKind) -> (r: bool)
    ensures
        r == kind_like(*a, *b),
{
    match (a, b) {
        (TokenKind::Int(x), TokenKind::Int(y)) => *x == *y,
        (TokenKind::Uint(x), TokenKind::Uint(y)) => *x == *y,
        (TokenKind::Float(x), TokenKind::Float(y)) => *x == *y,
        (TokenKind::Str(x), TokenKind::Str(y)) => *x == *y,
        (TokenKind::Bool(x), TokenKind::Bool(y)) => *x == *y,
        (TokenKind::Identifier(x), TokenKind::Identifier(y)) => *x == *y,
        (TokenKind::Type(x), TokenKind::Type(y)) => type_eq(x, y),
        (TokenKind::Keyword(x), TokenKind::Keyword(y)) => *x == *y,
        (TokenKind::Operator(x), TokenKind::Operator(y)) => *x == *y,
        (TokenKind::Delimiter(x), TokenKind::Delimiter(y)) => *x == *y,
        (TokenKind::Special(x), TokenKind::Special(y)) => *x == *y,
        (TokenKind::Newline, TokenKind::Newline) => true,
        _ => false,
    }
}

impl TokenKind {
    /// A terminal stands for a value inside an expression: a literal or an
    /// identifier.
    pub open spec fn spec_is_terminal(self) -> bool {
        match self {
            TokenKind::Int(_) => true,
            TokenKind::Uint(_) => true,
            TokenKind::Float(_) => true,
            TokenKind::Str(_) => true,
            TokenKind::Bool(_) => true,
            TokenKind::Identifier(_) => true,
            _ => false,
        }
    }

    pub fn is_terminal(&self) -> (r: bool)
        ensures
            r == self.spec_is_terminal(),
    {
        match self {
            TokenKind::Int(_)
            | TokenKind::Uint(_)
            | TokenKind::Float(_)
            | TokenKind::Str(_)
            | TokenKind::Bool(_)
            | TokenKind::Identifier(_) => true,
            _ => false,
        }
    }
}

pub open spec fn is_digit_char(c: char) -> bool {
    48 <= c as u32 <= 57
}

pub open spec fn is_alpha_char(c: char) -> bool {
    (65 <= c as u32 <= 90) || (97 <= c as u32 <= 122)
}

/// A character allowed inside an identifier.
pub open spec fn is_ident_char(c: char) -> bool {
    is_digit_char(c) || is_alpha_char(c) || c == '_'
}

/// An identifier: a letter or underscore, then identifier characters, with an
/// optional final `!` marking an unsafe function's name.
pub open spec fn ident_shape(s: Seq<char>) -> bool {
    &&& s.len() > 0
    &&& (is_alpha_char(s[0]) || s[0] == '_')
    &&& forall|i: int|
        0 <= i < s.len() ==> (is_ident_char(#[trigger] s[i]) || (i == s.len() - 1 && s[i] == '!'))
}

/// The value of a run of decimal digits, underscores skipped; any other
/// character makes the run invalid.
pub open spec fn spec_parse_digits(s: Seq<char>) -> Option<int>
    decreases s.len(),
{
    if s.len() == 0 {
        Some(0)
    } else {
        match spec_parse_digits(s.drop_last()) {
            Option::None => Option::None,
            Option::Some(v) => {
                let c = s.last();
                if is_digit_char(c) {
                    Some(v * 10 + (c as u32 - 48))
                } else if c == '_' {
                    Some(v)
                } else {
                    Option::None
                }
            },
        }
    }
}

proof fn lemma_parse_digits_nonneg(s: Seq<char>)
    ensures
        spec_parse_digits(s) matches Some(v) ==> v >= 0,
    decreases s.len(),
{
    if s.len() > 0 {
        lemma_parse_digits_nonneg(s.drop_last());
    }
}

/// A longer digit run never parses to a smaller value, and a run with an
/// invalid prefix is itself invalid.
proof fn lemma_parse_digits_mono(s: Seq<char>, k: int)
    requires
        0 <= k <= s.len(),
    ensures
        spec_parse_digits(s.take(k)) is None ==> spec_parse_digits(s) is None,
        spec_parse_digits(s) matches Some(v) ==> (spec_parse_digits(s.take(k)) matches Some(w)
            && w <= v),
    decreases s.len() - k,
{
    if k == s.len() {
        assert(s.take(k) =~= s);
    } else {
        assert(s.take(k + 1).drop_last() =~= s.take(k));
        assert(s.take(k + 1).last() == s[k]);
        lemma_parse_digits_nonneg(s.take(k));
        lemma_parse_digits_mono(s, k + 1);
    }
}

pub open spec fn has_dot(s: Seq<char>) -> bool {
    exists|i: int| 0 <= i < s.len() && s[i] == '.'
}

/// The start of a numeric lexeme: a digit, or a minus directly followed by a
/// digit.
pub open spec fn numeric_start(s: Seq<char>) -> bool {
    s.len() > 0 && (is_digit_char(s[0]) || (s[0] == '-' && s.len() > 1 && is_digit_char(s[1])))
}

/// The lexemes that denote a fixed token: keywords, primitive type names and
/// boolean literals. An identifier may not spell one of these.
pub open spec fn word_lexeme(s: Seq<char>) -> bool {
    ||| s == "let"@
    ||| s == "const"@
    ||| s == "fn"@
    ||| s == "if"@
    ||| s == "elif"@
    ||| s == "else"@
    ||| s == "while"@
    ||| s == "for"@
    ||| s == "in"@
    ||| s == "return"@
    ||| s == "break"@
    ||| s == "continue"@
    ||| s == "try"@
    ||| s == "catch"@
    ||| s == "throw"@
    ||| s == "class"@
    ||| s == "int"@
    ||| s == "uint"@
    ||| s == "float"@
    ||| s == "str"@
    ||| s == "bool"@
    ||| s == "any"@
    ||| s == "void"@
    ||| s == "exception"@
    ||| s == "true"@
    ||| s == "false"@
}

/// The lexemes that denote an operator, a delimiter or a special sign.
pub open spec fn sign_lexeme(s: Seq<char>) -> bool {
    ||| s == "+"@
    ||| s == "-"@
    ||| s == "*"@
    ||| s == "/"@
    ||| s == "%"@
    ||| s == "="@
    ||| s == "+="@
    ||| s == "-="@
    ||| s == "*="@
    ||| s == "/="@
    ||| s == "%="@
    ||| s == "&&"@
    ||| s == "||"@
    ||| s == ">"@
    ||| s == "<"@
    ||| s == ">="@
    ||| s == "<="@
    ||| s == "=="@
    ||| s == "!="@
    ||| s == "!"@
    ||| s == ":="@
    ||| s == "->"@
    ||| s == "("@
    ||| s == ")"@
    ||| s == "["@
    ||| s == "]"@
    ||| s == "{"@
    ||| s == "}"@
    ||| s == ","@
    ||| s == ":"@
    ||| s == "."@
    ||| s == ";"@
}

/// What kind the lexeme `s` denotes, as a relation: `kind` is exactly the
/// classification of `s`.
pub open spec fn wf_token_kind(kind: TokenKind, s: Seq<char>) -> bool {
    match kind {
        TokenKind::Newline => s == "\n"@,
        TokenKind::Keyword(k) => match k {
            Keyword::Let => s == "let"@,
            Keyword::Const => s == "const"@,
            Keyword::Fn => s == "fn"@,
            Keyword::If => s == "if"@,
            Keyword::Elif => s == "elif"@,
            Keyword::Else => s == "else"@,
            Keyword::While => s == "while"@,
            Keyword::For => s == "for"@,
            Keyword::In => s == "in"@,
            Keyword::Return => s == "return"@,
            Keyword::Break => s == "break"@,
            Keyword::Continue => s == "continue"@,
            Keyword::Try => s == "try"@,
            Keyword::Catch => s == "catch"@,
            Keyword::Throw => s == "throw"@,
            Keyword::Class => s == "class"@,
        },
        TokenKind::Type(t) => match t {
            Type::Int => s == "int"@,
            Type::Uint => s == "uint"@,
            Type::Float => s == "float"@,
            Type::Str => s == "str"@,
            Type::Bool => s == "bool"@,
            Type::Any => s == "any"@,
            Type::Void => s == "void"@,
            Type::Exception => s == "exception"@,
            _ => false,
        },
        TokenKind::Bool(b) => if b {
            s == "true"@
        } else {
            s == "false"@
        },
        TokenKind::Operator(op) => match op {
            Operator::Add => s == "+"@,
            Operator::Sub => s == "-"@,
            Operator::Mul => s == "*"@,
            Operator::Div => s == "/"@,
            Operator::Mod => s == "%"@,
            Operator::Eq => s == "="@,
            Operator::AddEq => s == "+="@,
            Operator::SubEq => s == "-="@,
            Operator::MulEq => s == "*="@,
            Operator::DivEq => s == "/="@,
            Operator::ModEq => s == "%="@,
            Operator::And => s == "&&"@,
            Operator::Or => s == "||"@,
            Operator::Gt => s == ">"@,
            Operator::Lt => s == "<"@,
            Operator::GtEq => s == ">="@,
            Operator::LtEq => s == "<="@,
            Operator::EqEq => s == "=="@,
            Operator::BangEq => s == "!="@,
            Operator::Bang => s == "!"@,
            Operator::Walrus => s == ":="@,
            Operator::Neg => false,
        },
        TokenKind::Delimiter(d) => match d {
            Delimiter::OpenPar => s == "("@,
            Delimiter::ClosePar => s == ")"@,
            Delimiter::OpenBracket => s == "["@,
            Delimiter::CloseBracket => s == "]"@,
            Delimiter::OpenBrace => s == "{"@,
            Delimiter::CloseBrace => s == "}"@,
        },
        TokenKind::Special(sp) => match sp {
            Special::Comma => s == ","@,
            Special::Colon => s == ":"@,
            Special::Dot => s == "."@,
            Special::Semicolon => s == ";"@,
            Special::RightArrow => s == "->"@,
        },
        TokenKind::Uint(v) => {
            &&& s.len() > 0
            &&& is_digit_char(s[0])
            &&& !has_dot(s)
            &&& spec_parse_digits(s) == Some(v as int)
        },
        TokenKind::Int(v) => {
            &&& numeric_start(s)
            &&& s[0] == '-'
            &&& !has_dot(s)
            &&& v <= 0
            &&& spec_parse_digits(s.skip(1)) == Some(-(v as int))
        },
        TokenKind::Float(txt) => {
            &&& numeric_start(s)
            &&& has_dot(s)
            &&& txt@ == s
        },
        TokenKind::Str(content) => {
            &&& s.len() >= 2
            &&& (s[0] == '"' || s[0] == '\'')
            &&& s.last() == s[0]
            &&& content@ == s.subrange(1, s.len() - 1)
        },
        TokenKind::Identifier(name) => {
            &&& name@ == s
            &&& ident_shape(s)
            &&& !word_lexeme(s)
        },
    }
}

/// Whether some token kind classifies the lexeme `s`.
pub open spec fn classifiable(s: Seq<char>) -> bool {
    ||| s == "\n"@
    ||| word_lexeme(s)
    ||| sign_lexeme(s)
    ||| (s.len() > 0 && is_digit_char(s[0]) && !has_dot(s) && (spec_parse_digits(s) matches Some(
        v,
    ) && v <= u64::MAX))
    ||| (s.len() > 1 && s[0] == '-' && is_digit_char(s[1]) && !has_dot(s) && (spec_parse_digits(
        s.skip(1),
    ) matches Some(v) && v <= 0x8000_0000_0000_0000))
    ||| (numeric_start(s) && has_dot(s))
    ||| (s.len() >= 2 && (s[0] == '"' || s[0] == '\'') && s.last() == s[0])
    ||| (s.len() > 0 && (is_alpha_char(s[0]) || s[0] == '_') && ident_shape(s))
}

/// One token of source text: the lexeme, its classification and its place in
/// the source.
#[derive(Debug)]
pub struct Token {
    pub src: String,
    pub kind: TokenKind,
    pub span: Span,
}

/// View-level equivalence of two tokens.
pub open spec fn token_like(a: Token, b: Token) -> bool {
    kind_like(a.kind, b.kind) && a.src@ == b.src@ && a.span == b.span
}

impl Clone for Token {
    fn clone(&self) -> (r: Token)
        ensures
            token_like(r, *self),
    {
        Token { src: self.src.clone(), kind: self.kind.clone(), span: self.span }
    }
}

/// Parses the decimal digits of `cs` from `start` on into an unsigned
/// 64-bit value; fails when a character other than a digit or underscore
/// appears, or the value does not fit.
#[verifier::loop_isolation(false)]
fn parse_uint_digits(cs: &Vec<char>, start: usize) -> (r: Option<u64>)
    requires
        start <= cs@.len(),
    ensures
        match r {
            Some(v) => spec_parse_digits(cs@.skip(start as int)) == Some(v as int),
            None => !(spec_parse_digits(cs@.skip(start as int)) matches Some(v) && v
                <= u64::MAX),
        },
{
    let ghost s = cs@.skip(start as int);
    let mut acc: u128 = 0;
    let mut i: usize = start;
    while i < cs.len()
        invariant
            start <= i <= cs@.len(),
            s == cs@.skip(start as int),
            acc <= u64::MAX,
            spec_parse_digits(s.take(i - start)) == Some(acc as int),
        decreases cs@.len() - i,
    {
        let c = cs[i];
        let cu = c as u32;
        proof {
            assert(s.take(i + 1 - start).drop_last() =~= s.take(i - start));
            assert(s.take(i + 1 - start).last() == s[i - start]);
            assert(s[i - start] == cs@[i as int]);
        }
        if 48 <= cu && cu <= 57 {
            let d: u128 = (cu - 48) as u128;
            let new_acc: u128 = acc * 10 + d;
            if new_acc > u64::MAX as u128 {
                proof {
                    lemma_parse_digits_mono(s, i + 1 - start);
                }
                return None;
            }
            acc = new_acc;
        } else if c == '_' {
            // an underscore separates digit groups and carries no value
        } else {
            proof {
                assert(spec_parse_digits(s.take(i + 1 - start)) is None);
                lemma_parse_digits_mono(s, i + 1 - start);
            }
            return None;
        }
        i = i + 1;
    }
    proof {
        assert(s.take(i - start) =~= s);
    }
    Some(acc as u64)
}

impl Token {
    /// Classifies a lexeme. The error is a lexer error for a lexeme that no
    /// token kind classifies: a stray sign, an out-of-range numeric literal,
    /// an unterminated string.
    pub fn new(src: String, span: Span) -> (r: Result<Token, ChalError>)
        ensures
            match r {
                Ok(t) => t.span == span && t.src@ == src@ && wf_token_kind(t.kind, src@),
                Err(_) => !classifiable(src@),
            },
            src@ == "\n"@ ==> (r matches Ok(t) && t.kind is Newline),
    {
        let kind_opt: Option<TokenKind> = Self::classify(&src);
        match kind_opt {
            Some(kind) => Ok(Token { src, kind, span }),
            None => Err(
                ChalError::lexer_err(LexerErrorKind::InvalidToken(src), span),
            ),
        }
    }

    #[verifier::loop_isolation(false)]
    fn classify(src: &String) -> (r: Option<TokenKind>)
        ensures
            match r {
                Some(kind) => wf_token_kind(kind, src@),
                None => !classifiable(src@),
            },
            src@ == "\n"@ ==> (r matches Some(kind) && kind is Newline),
    {
        let s = src.as_str();
        if str_eq(s, "\n") {
            return Some(TokenKind::Newline);
        }
        if str_eq(s, "let") {
            return Some(TokenKind::Keyword(Keyword::Let));
        }
        if str_eq(s, "const") {
            return Some(TokenKind::Keyword(Keyword::Const));
        }
        if str_eq(s, "fn") {
            return Some(TokenKind::Keyword(Keyword::Fn));
        }
        if str_eq(s, "if") {
            return Some(TokenKind::Keyword(Keyword::If));
        }
        if str_eq(s, "elif") {
            return Some(TokenKind::Keyword(Keyword::Elif));
        }
        if str_eq(s, "else") {
            return Some(TokenKind::Keyword(Keyword::Else));
        }
        if str_eq(s, "while") {
            return Some(TokenKind::Keyword(Keyword::While));
        }
        if str_eq(s, "for") {
            return Some(TokenKind::Keyword(Keyword::For));
        }
        if str_eq(s, "in") {
            return Some(TokenKind::Keyword(Keyword::In));
        }
        if str_eq(s, "return") {
            return Some(TokenKind::Keyword(Keyword::Return));
        }
        if str_eq(s, "break") {
            return Some(TokenKind::Keyword(Keyword::Break));
        }
        if str_eq(s, "continue") {
            return Some(TokenKind::Keyword(Keyword::Continue));
        }
        if str_eq(s, "try") {
            return Some(TokenKind::Keyword(Keyword::Try));
        }
        if str_eq(s, "catch") {
            return Some(TokenKind::Keyword(Keyword::Catch));
        }
        if str_eq(s, "throw") {
            return Some(TokenKind::Keyword(Keyword::Throw));
        }
        if str_eq(s, "class") {
            return Some(TokenKind::Keyword(Keyword::Class));
        }
        if str_eq(s, "int") {
            return Some(TokenKind::Type(Type::Int));
        }
        if str_eq(s, "uint") {
            return Some(TokenKind::Type(Type::Uint));
        }
        if str_eq(s, "float") {
            return Some(TokenKind::Type(Type::Float));
        }
        if str_eq(s, "str") {
            return Some(TokenKind::Type(Type::Str));
        }
        if str_eq(s, "bool") {
            return Some(TokenKind::Type(Type::Bool));
        }
        if str_eq(s, "any") {
            return Some(TokenKind::Type(Type::Any));
        }
        if str_eq(s, "void") {
            return Some(TokenKind::Type(Type::Void));
        }
        if str_eq(s, "exception") {
            return Some(TokenKind::Type(Type::Exception));
        }
        if str_eq(s, "true") {
            return Some(TokenKind::Bool(true));
        }
        if str_eq(s, "false") {
            return Some(TokenKind::Bool(false));
        }
        if str_eq(s, "+") {
            return Some(TokenKind::Operator(Operator::Add));
        }
        if str_eq(s, "-") {
            return Some(TokenKind::Operator(Operator::Sub));
        }
        if str_eq(s, "*") {
            return Some(TokenKind::Operator(Operator::Mul));
        }
        if str_eq(s, "/") {
            return Some(TokenKind::Operator(Operator::Div));
        }
        if str_eq(s, "%") {
            return Some(TokenKind::Operator(Operator::Mod));
        }
        if str_eq(s, "=") {
            return Some(TokenKind::Operator(Operator::Eq));
        }
        if str_eq(s, "+=") {
            return Some(TokenKind::Operator(Operator::AddEq));
        }
        if str_eq(s, "-=") {
            return Some(TokenKind::Operator(Operator::SubEq));
        }
        if str_eq(s, "*=") {
            return Some(TokenKind::Operator(Operator::MulEq));
        }
        if str_eq(s, "/=") {
            return Some(TokenKind::Operator(Operator::DivEq));
        }
        if str_eq(s, "%=") {
            return Some(TokenKind::Operator(Operator::ModEq));
        }
        if str_eq(s, "&&") {
            return Some(TokenKind::Operator(Operator::And));
        }
        if str_eq(s, "||") {
            return Some(TokenKind::Operator(Operator::Or));
        }
        if str_eq(s, ">") {
            return Some(TokenKind::Operator(Operator::Gt));
        }
        if str_eq(s, "<") {
            return Some(TokenKind::Operator(Operator::Lt));
        }
        if str_eq(s, ">=") {
            return Some(TokenKind::Operator(Operator::GtEq));
        }
        if str_eq(s, "<=") {
            return Some(TokenKind::Operator(Operator::LtEq));
        }
        if str_eq(s, "==") {
            return Some(TokenKind::Operator(Operator::EqEq));
        }
        if str_eq(s, "!=") {
            return Some(TokenKind::Operator(Operator::BangEq));
        }
        if str_eq(s, "!") {
            return Some(TokenKind::Operator(Operator::Bang));
        }
        if str_eq(s, ":=") {
            return Some(TokenKind::Operator(Operator::Walrus));
        }
        if str_eq(s, "->") {
            return Some(TokenKind::Special(Special::RightArrow));
        }
        if str_eq(s, "(") {
            return Some(TokenKind::Delimiter(Delimiter::OpenPar));
        }
        if str_eq(s, ")") {
            return Some(TokenKind::Delimiter(Delimiter::ClosePar));
        }
        if str_eq(s, "[") {
            return Some(TokenKind::Delimiter(Delimiter::OpenBracket));
        }
        if str_eq(s, "]") {
            return Some(TokenKind::Delimiter(Delimiter::CloseBracket));
        }
        if str_eq(s, "{") {
            return Some(TokenKind::Delimiter(Delimiter::OpenBrace));
        }
        if str_eq(s, "}") {
            return Some(TokenKind::Delimiter(Delimiter::CloseBrace));
        }
        if str_eq(s, ",") {
            return Some(TokenKind::Special(Special::Comma));
        }
        if str_eq(s, ":") {
            return Some(TokenKind::Special(Special::Colon));
        }
        if str_eq(s, ".") {
            return Some(TokenKind::Special(Special::Dot));
        }
        if str_eq(s, ";") {
            return Some(TokenKind::Special(Special::Semicolon));
        }

        let cs = crate::text::chars_of(s);
        if cs.len() == 0 {
            return None;
        }
        let c0 = cs[0];
        let c0u = c0 as u32;

        if (48 <= c0u && c0u <= 57) || (c0 == '-' && cs.len() > 1 && {
            let c1u = cs[1] as u32;
            48 <= c1u && c1u <= 57
        }) {
            // numeric literal
            let mut dotted = false;
            let mut i: usize = 0;
            while i < cs.len()
                invariant
                    0 <= i <= cs@.len(),
                    cs@ == src@,
                    dotted == exists|j: int| 0 <= j < i && cs@[j] == '.',
                decreases cs@.len() - i,
            {
                if cs[i] == '.' {
                    dotted = true;
                }
                i = i + 1;
            }
            if dotted {
                return Some(TokenKind::Float(src.clone()));
            }
            if c0 == '-' {
                match parse_uint_digits(&cs, 1) {
                    Some(m) => {
                        if m > 0x8000_0000_0000_0000u64 {
                            proof {
                                lemma_parse_digits_nonneg(cs@.skip(1));
                            }
                            return None;
                        }
                        let v: i64 = if m == 0x8000_0000_0000_0000u64 {
                            i64::MIN
                        } else {
                            -(m as i64)
                        };
                        return Some(TokenKind::Int(v));
                    },
                    None => {
                        return None;
                    },
                }
            }
            match parse_uint_digits(&cs, 0) {
                Some(v) => {
                    proof {
                        assert(cs@.skip(0) =~= cs@);
                    }
                    return Some(TokenKind::Uint(v));
                },
                None => {
                    proof {
                        assert(cs@.skip(0) =~= cs@);
                    }
                    return None;
                },
            }
        }

        if c0 == '"' || c0 == '\'' {
            if cs.len() >= 2 && cs[cs.len() - 1] == c0 {
                let content = string_from_chars(&cs, 1, cs.len() - 1);
                return Some(TokenKind::Str(content));
            }
            return None;
        }

        if (65 <= c0u && c0u <= 90) || (97 <= c0u && c0u <= 122) || c0 == '_' {
            let mut i: usize = 0;
            while i < cs.len()
                invariant
                    0 <= i <= cs@.len(),
                    cs@ == src@,
                    forall|j: int|
                        0 <= j < i ==> (is_ident_char(#[trigger] cs@[j]) || (j == cs@.len() - 1
                            && cs@[j] == '!')),
                decreases cs@.len() - i,
            {
                let c = cs[i];
                let cu = c as u32;
                let ok = (48 <= cu && cu <= 57) || (65 <= cu && cu <= 90) || (97 <= cu && cu
                    <= 122) || c == '_' || (c == '!' && i == cs.len() - 1);
                if !ok {
                    proof {
                        assert(!(is_ident_char(src@[i as int]) || (i == src@.len() - 1
                            && src@[i as int] == '!')));
                    }
                    return None;
                }
                i = i + 1;
            }
            return Some(TokenKind::Identifier(src.clone()));
        }

        None
    }

    /// Rewrites a subtraction token into the unary negation; the lexer calls
    /// this when the minus stands in operator position.
    pub fn into_neg(self) -> (r: Result<Token, ChalError>)
        ensures
            match r {
                Ok(t) => self.kind == TokenKind::Operator(Operator::Sub) && t.kind
                    == TokenKind::Operator(Operator::Neg) && t.src == self.src && t.span
                    == self.span,
                Err(_) => self.kind != TokenKind::Operator(Operator::Sub),
            },
    {
        match self.kind {
            TokenKind::Operator(Operator::Sub) => Ok(
                Token { src: self.src, kind: TokenKind::Operator(Operator::Neg), span: self.span },
            ),
            _ => Err(ChalError::internal("Token::into_neg(): negating a non-subtraction token")),
        }
    }
}

} // verus!
