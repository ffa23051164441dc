use vstd::prelude::*;

verus! {

/// A 1-based (line, column) cursor into the source text.
#[derive(Clone, Copy, Debug, PartialEq, Eq, Structural)]
pub struct Position {
    pub ln: u64,
    pub col: u64,
}

impl Position {
    pub fn new(ln: u64, col: u64) -> (r: Position)
        ensures
            r.ln == ln && r.col == col,
    {
        Position { ln, col }
    }

    pub fn advance_col(&mut self)
        requires
            old(self).col < u64::MAX,
        ensures
            final(self).ln == old(self).ln && final(self).col == old(self).col + 1,
    {
        self.col = self.col + 1;
    }
}

/// A snippet of source code, anchored by its start and end positions. Spans
/// are metadata for error reporting, not identity: two spans always compare
/// equal, so syntax trees can be compared while ignoring source locations.
#[derive(Clone, Copy, Debug)]
pub struct Span {
    pub start: Position,
    pub end: Position,
}

impl Span {
    pub fn new(start: Position, end: Position) -> (r: Span)
        ensures
            r.start == start && r.end == end,
    {
        Span { start, end }
    }
}

impl PartialEq for Span {
    fn eq(&self, _other: &Span) -> bool {
        true
    }
}

impl vstd::std_specs::cmp::PartialEqSpecImpl for Span {
    open spec fn obeys_eq_spec() -> bool {
        true
    }

    open spec fn eq_spec(&self, _other: &Span) -> bool {
        true
    }
}

impl Default for Span {
    /// A placeholder span pointing at the start of the source.
    fn default() -> (r: Span)
        ensures
            r.start.ln == 0 && r.start.col == 0 && r.end.ln == 0 && r.end.col == 0,
    {
        Span { start: Position { ln: 0, col: 0 }, end: Position { ln: 0, col: 0 } }
    }
}

} // verus!
