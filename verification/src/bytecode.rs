use vstd::prelude::*;

verus! {

/// The instructions consumed by the stack-based virtual machine. A float
/// literal is carried as its source text (`ConstF`): the compiler only moves
/// numeric literals through, and their binary representation is the virtual
/// machine's concern.
#[derive(Debug, PartialEq)]
pub enum Bytecode {
    /// Does nothing; used only as a placeholder while loops are compiled.
    Nop,
    /// Copies the top of the stack.
    Dup,
    /// Replaces the object on top of the stack with a deep copy of it.
    Copy,
    /// Removes the top of the stack.
    Pop,
    /// Pushes an integer literal.
    ConstI(i64),
    /// Pushes an unsigned integer literal.
    ConstU(u64),
    /// Pushes a float literal, given by its source text.
    ConstF(String),
    /// Pushes a string literal.
    ConstS(String),
    /// Pushes a boolean literal.
    ConstB(bool),
    /// Pops the top N values and builds an object out of them.
    ConstObj(usize),
    /// Pops the top N values and builds a list out of them.
    ConstL(usize),
    /// Converts the string on top of the stack into an exception and unwinds.
    ThrowException,
    /// Converts the top of the stack to an integer.
    CastI,
    /// Converts the top of the stack to a float.
    CastF,
    /// Converts the top of the stack to an unsigned integer.
    CastU,
    /// Pops two values and pushes the binary arithmetic result.
    Add,
    Sub,
    Mul,
    Div,
    Mod,
    /// Pops two values and pushes the boolean result.
    And,
    Or,
    Lt,
    Gt,
    Eq,
    LtEq,
    GtEq,
    /// Unary operation on the top of the stack.
    Neg,
    Not,
    /// Global variable access by id.
    SetGlobal(usize),
    GetGlobal(usize),
    /// Frame-local variable access by id.
    SetLocal(usize),
    GetLocal(usize),
    /// Field access by id on the object at the top of the stack.
    SetAttr(usize),
    GetAttr(usize),
    /// Defines a function with N arguments spanning the following
    /// instructions.
    CreateFunc(usize),
    /// Invokes the function with the given id.
    CallFunc(usize),
    /// Unwinds the current frame, keeping the returned value on the stack.
    Return,
    /// Unwinds the current frame without a value.
    ReturnVoid,
    /// If the top of the stack is false, skips forward N instructions.
    If(usize),
    /// Moves the instruction counter by the signed distance.
    Jmp(isize),
    /// Guards the next N instructions within a try-catch scope.
    TryScope(usize),
    /// Ends a try block, skipping the next N catch instructions.
    CatchJmp(usize),
    /// Pops a list or string and pushes its length.
    Len,
    /// List intrinsics; an invalid index throws.
    ListGet,
    ListRemove,
    ListInsert,
    ListSet,
    /// Pops the top value and prints it.
    Print,
    /// Asserts the top of the stack holds true.
    Assert,
}

} // verus!
