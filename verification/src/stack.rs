use vstd::prelude::*;

verus! {

/// A last-in-first-out stack over a growable buffer. Used by the lexer for
/// the delimiter stack and by the expression parser for the output and
/// operator stacks of the Shunting-Yard algorithm.
pub struct Stack<T> {
    values: Vec<T>,
}

impl<T> View for Stack<T> {
    type V = Seq<T>;

    closed spec fn view(&self) -> Seq<T> {
        self.values@
    }
}

impl<T> Stack<T> {
    pub fn new() -> (r: Stack<T>)
        ensures
            r@ == Seq::<T>::empty(),
    {
        Stack { values: Vec::<T>::new() }
    }

    pub fn with_capacity(cap: usize) -> (r: Stack<T>)
        ensures
            r@ == Seq::<T>::empty(),
    {
        Stack { values: Vec::<T>::with_capacity(cap) }
    }

    pub fn push(&mut self, val: T)
        ensures
            final(self)@ == old(self)@.push(val),
    {
        self.values.push(val);
    }

    pub fn pop(&mut self) -> (r: Option<T>)
        ensures
            old(self)@.len() == 0 ==> r is None && final(self)@ == old(self)@,
            old(self)@.len() > 0 ==> r == Some(old(self)@.last())
                && final(self)@ == old(self)@.drop_last(),
    {
        self.values.pop()
    }

    pub fn get(&self, idx: usize) -> (r: Option<&T>)
        ensures
            idx < self@.len() ==> r == Some(&self@[idx as int]),
            idx >= self@.len() ==> r is None,
    {
        if idx < self.values.len() {
            Some(&self.values[idx])
        } else {
            None
        }
    }

    /// Replaces the element at `idx`; the stack is unchanged when `idx` is
    /// out of range.
    pub fn set(&mut self, idx: usize, val: T)
        ensures
            idx < old(self)@.len() ==> final(self)@ == old(self)@.update(idx as int, val),
            idx >= old(self)@.len() ==> final(self)@ == old(self)@,
    {
        if idx < self.values.len() {
            self.values.set(idx, val);
        }
    }

    pub fn truncate(&mut self, len: usize)
        ensures
            len <= old(self)@.len() ==> final(self)@ == old(self)@.take(len as int),
            len > old(self)@.len() ==> final(self)@ == old(self)@,
    {
        self.values.truncate(len);
    }

    pub fn peek(&self) -> (r: Option<&T>)
        ensures
            self@.len() == 0 ==> r is None,
            self@.len() > 0 ==> r == Some(&self@.last()),
    {
        if self.values.len() > 0 {
            Some(&self.values[self.values.len() - 1])
        } else {
            None
        }
    }

    pub fn is_empty(&self) -> (r: bool)
        ensures
            r == (self@.len() == 0),
    {
        self.values.len() == 0
    }

    pub fn len(&self) -> (r: usize)
        ensures
            r == self@.len(),
    {
        self.values.len()
    }

    /// Hands the stack's buffer over, bottom first.
    pub fn into_vec(self) -> (r: Vec<T>)
        ensures
            r@ == self@,
    {
        self.values
    }
}

} // verus!
