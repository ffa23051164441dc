use vstd::prelude::*;

use crate::span::Position;
use crate::tokens::is_ident_char;

verus! {

/// The number of spaces a character sequence begins with.
pub open spec fn spec_leading_spaces(s: Seq<char>) -> int
    decreases s.len(),
{
    if s.len() == 0 || s[0] != ' ' {
        0
    } else {
        1 + spec_leading_spaces(s.skip(1))
    }
}

/// A run of `k` spaces followed by a non-space (or the end) pins the
/// leading-space count at `k`.
proof fn lemma_leading_spaces(s: Seq<char>, k: int)
    requires
        0 <= k <= s.len(),
        forall|i: int| 0 <= i < k ==> s[i] == ' ',
        k == s.len() || s[k] != ' ',
    ensures
        spec_leading_spaces(s) == k,
    decreases k,
{
    if k == 0 {
    } else {
        assert(s[0] == ' ');
        lemma_leading_spaces(s.skip(1), k - 1);
    }
}

/// A cursor over the source characters, keeping a 1-based (line, column)
/// position of the last character read. Its view is the sequence of
/// characters left to read; the column saturates at its type's bound rather
/// than overflow.
pub struct CharReader {
    src: Vec<char>,
    pos: usize,
    ln: u64,
    col: u64,
}

impl CharReader {
    /// The characters left to read.
    pub closed spec fn chars(&self) -> Seq<char> {
        if self.pos <= self.src@.len() {
            self.src@.skip(self.pos as int)
        } else {
            Seq::empty()
        }
    }

    /// How many characters are left to read.
    pub open spec fn remaining(&self) -> nat {
        self.chars().len()
    }

    pub fn new(src: Vec<char>) -> (r: CharReader)
        ensures
            r.chars() == src@,
    {
        let r = CharReader { src, pos: 0, ln: 1, col: 0 };
        proof {
            assert(r.chars() =~= r.src@);
        }
        r
    }

    pub fn is_empty(&self) -> (r: bool)
        ensures
            r == (self.remaining() == 0),
    {
        self.pos >= self.src.len()
    }

    pub fn pos(&self) -> Position {
        Position { ln: self.ln, col: self.col }
    }

    /// The next character, without consuming it.
    pub fn peek(&self) -> (r: Option<char>)
        ensures
            (r is Some) == (self.remaining() > 0),
            r matches Some(c) ==> c == self.chars()[0],
    {
        if self.pos < self.src.len() {
            Some(self.src[self.pos])
        } else {
            None
        }
    }

    /// The character after the next one, without consuming anything.
    pub fn peek2(&self) -> (r: Option<char>)
        ensures
            (r is Some) == (self.remaining() > 1),
            r matches Some(c) ==> c == self.chars()[1],
    {
        let n = self.src.len();
        if self.pos < n && self.pos + 1 < n {
            Some(self.src[self.pos + 1])
        } else {
            None
        }
    }

    /// Consumes and returns the next character, advancing the position: a
    /// newline starts the next source line.
    pub fn advance(&mut self) -> (r: Option<char>)
        ensures
            (r is Some) == (old(self).remaining() > 0),
            r matches Some(c) ==> (c == old(self).chars()[0] && final(self).chars() == old(
                self,
            ).chars().skip(1)),
            old(self).remaining() == 0 ==> final(self).chars() == old(self).chars(),
    {
        if self.pos < self.src.len() {
            let c = self.src[self.pos];
            self.pos = self.pos + 1;
            if c == '\n' {
                if self.ln < u64::MAX {
                    self.ln = self.ln + 1;
                }
                self.col = 0;
            } else {
                if self.col < u64::MAX {
                    self.col = self.col + 1;
                }
            }
            proof {
                assert(self.chars() =~= old(self).chars().skip(1));
            }
            Some(c)
        } else {
            None
        }
    }

    /// Consumes the run of spaces the reader stands on and returns its
    /// length.
    #[verifier::loop_isolation(false)]
    pub fn advance_spaces(&mut self) -> (r: u64)
        ensures
            r as int == spec_leading_spaces(old(self).chars()),
            r as int <= old(self).chars().len(),
            final(self).chars() == old(self).chars().skip(r as int),
    {
        let ghost entry = self.chars();
        let total = self.src.len();
        proof {
            assert(entry.len() <= total as int);
        }
        let mut count: u64 = 0;
        loop
            invariant
                count as int <= entry.len(),
                entry.len() <= total as int,
                self.chars() == entry.skip(count as int),
                forall|i: int| 0 <= i < count ==> entry[i] == ' ',
            decreases self.remaining(),
        {
            match self.peek() {
                Some(c) => {
                    if c == ' ' {
                        let _ = self.advance();
                        proof {
                            assert(entry.skip(count as int).skip(1) =~= entry.skip(
                                count as int + 1,
                            ));
                        }
                        if count < u64::MAX {
                            count = count + 1;
                        }
                    } else {
                        break;
                    }
                },
                None => {
                    break;
                },
            }
        }
        proof {
            lemma_leading_spaces(entry, count as int);
        }
        count
    }

    /// The next run of identifier characters, without consuming anything.
    #[verifier::loop_isolation(false)]
    pub fn peek_word(&self) -> (r: Vec<char>)
        ensures
            r@.len() <= self.chars().len(),
            r@ == self.chars().take(r@.len() as int),
            forall|i: int| 0 <= i < r@.len() ==> is_ident_char(#[trigger] r@[i]),
            r@.len() < self.chars().len() ==> !is_ident_char(self.chars()[r@.len() as int]),
    {
        let mut word = Vec::<char>::new();
        let mut i: usize = self.pos;
        if self.pos > self.src.len() {
            proof {
                assert(word@ =~= self.chars().take(0));
            }
            return word;
        }
        while i < self.src.len()
            invariant
                self.pos <= i <= self.src@.len(),
                word@.len() == i - self.pos,
                word@ == self.chars().take(word@.len() as int),
                forall|k: int| 0 <= k < word@.len() ==> is_ident_char(#[trigger] word@[k]),
            decreases self.src@.len() - i,
        {
            let c = self.src[i];
            let cu = c as u32;
            if (48 <= cu && cu <= 57) || (65 <= cu && cu <= 90) || (97 <= cu && cu <= 122) || c
                == '_' {
                word.push(c);
                i = i + 1;
                proof {
                    assert(word@ =~= self.chars().take(word@.len() as int));
                }
            } else {
                break;
            }
        }
        word
    }
}

} // verus!
