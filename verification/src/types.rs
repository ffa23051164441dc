use vstd::prelude::*;

use crate::bytecode::Bytecode;
use crate::error::{ChalError, CompileError, CompileErrorKind};
use crate::span::Span;

verus! {

/// A value type of the scripting language, used to enforce type strictness
/// before execution. `Void` is never the type of a value; `Any` accepts every
/// assignment; `Exception` may only appear on a catch parameter.
#[derive(Debug)]
pub enum Type {
    Int,
    Uint,
    Float,
    Str,
    Bool,
    Any,
    Void,
    Exception,
    Custom(Box<String>),
    List(Box<Type>),
}

/// View-level equivalence of two types: equal up to the identity of the
/// strings holding class names. This is the equality the contracts of this
/// crate speak of, since two distinct string allocations with the same
/// characters name the same class.
pub open spec fn type_like(a: Type, b: Type) -> bool
    decreases a,
{
    match (a, b) {
        (Type::Int, Type::Int) => true,
        (Type::Uint, Type::Uint) => true,
        (Type::Float, Type::Float) => true,
        (Type::Str, Type::Str) => true,
        (Type::Bool, Type::Bool) => true,
        (Type::Any, Type::Any) => true,
        (Type::Void, Type::Void) => true,
        (Type::Exception, Type::Exception) => true,
        (Type::Custom(x), Type::Custom(y)) => x@ == y@,
        (Type::List(x), Type::List(y)) => type_like(*x, *y),
        _ => false,
    }
}

/// Equivalence of two types, executable form: `Custom` types are equal when
/// their class names spell the same, `List` types when their element types
/// are equivalent.
pub fn type_eq(a: &Type, b: &Type) -> (r: bool)
    ensures
        r == type_like(*a, *b),
    decreases a,
{
    match (a, b) {
        (Type::Int, Type::Int) => true,
        (Type::Uint, Type::Uint) => true,
        (Type::Float, Type::Float) => true,
        (Type::Str, Type::Str) => true,
        (Type::Bool, Type::Bool) => true,
        (Type::Any, Type::Any) => true,
        (Type::Void, Type::Void) => true,
        (Type::Exception, Type::Exception) => true,
        (Type::Custom(x), Type::Custom(y)) => **x == **y,
        (Type::List(x), Type::List(y)) => type_eq(&**x, &**y),
        _ => false,
    }
}


/// View-level type equivalence is symmetric.
pub proof fn lemma_type_like_sym(a: Type, b: Type)
    ensures
        type_like(a, b) == type_like(b, a),
    decreases a,
{
    match (a, b) {
        (Type::List(x), Type::List(y)) => {
            lemma_type_like_sym(*x, *y);
        },
        _ => {},
    }
}

/// View-level type equivalence is transitive.
/// Soft acceptance does not distinguish equivalent argument types.
pub proof fn lemma_soft_eq_like(a: Type, x: Type, y: Type)
    requires
        type_like(x, y),
    ensures
        a.spec_soft_eq(x) == a.spec_soft_eq(y),
    decreases a,
{
    match (a, x, y) {
        (Type::List(al), Type::List(xl), Type::List(yl)) => {
            if type_like(*al, *xl) {
                lemma_type_like_trans(*al, *xl, *yl);
            }
            if type_like(*al, *yl) {
                lemma_type_like_sym(*xl, *yl);
                lemma_type_like_trans(*al, *yl, *xl);
            }
        },
        _ => {},
    }
}

pub proof fn lemma_type_like_trans(a: Type, b: Type, c: Type)
    requires
        type_like(a, b),
        type_like(b, c),
    ensures
        type_like(a, c),
    decreases a,
{
    match (a, b, c) {
        (Type::List(x), Type::List(y), Type::List(z)) => {
            lemma_type_like_trans(*x, *y, *z);
        },
        _ => {},
    }
}

/// Equivalent expected types agree on the implicit cast they give a
/// received type.
pub proof fn lemma_verify_cast_like(a: Type, b: Type, recv: Type)
    requires
        type_like(a, b),
    ensures
        Type::spec_verify_cast(a, recv) == Type::spec_verify_cast(b, recv),
{
    lemma_type_like_sym(a, b);
    if type_like(a, recv) {
        lemma_type_like_trans(b, a, recv);
    }
    if type_like(b, recv) {
        lemma_type_like_trans(a, b, recv);
    }
}

impl PartialEq for Type {
    fn eq(&self, other: &Type) -> bool {
        type_eq(self, other)
    }
}

impl vstd::std_specs::cmp::PartialEqSpecImpl for Type {
    open spec fn obeys_eq_spec() -> bool {
        true
    }

    open spec fn eq_spec(&self, other: &Type) -> bool {
        type_like(*self, *other)
    }
}

impl Clone for Type {
    fn clone(&self) -> (r: Type)
        ensures
            type_like(r, *self),
        decreases self,
    {
        match self {
            Type::Int => Type::Int,
            Type::Uint => Type::Uint,
            Type::Float => Type::Float,
            Type::Str => Type::Str,
            Type::Bool => Type::Bool,
            Type::Any => Type::Any,
            Type::Void => Type::Void,
            Type::Exception => Type::Exception,
            Type::Custom(name) => Type::Custom(Box::new((**name).clone())),
            Type::List(el) => Type::List(Box::new((**el).clone())),
        }
    }
}

impl Type {
    /// Soft equality, by which overloaded signatures are matched: `Any` on
    /// the parameter side is a wildcard, and an `Int` parameter accepts a
    /// `Uint` argument. `Void` matches nothing.
    pub open spec fn spec_soft_eq(self, other: Type) -> bool {
        match (self, other) {
            (Type::Void, _) => false,
            (_, Type::Void) => false,
            (Type::Any, _) => true,
            (Type::Int, Type::Int) => true,
            (Type::Int, Type::Uint) => true,
            (Type::Uint, Type::Uint) => true,
            (Type::Float, Type::Float) => true,
            (Type::Str, Type::Str) => true,
            (Type::Bool, Type::Bool) => true,
            (Type::Exception, Type::Exception) => true,
            (Type::Custom(lhs), Type::Custom(rhs)) => lhs@ == rhs@,
            (Type::List(lhs), Type::List(rhs)) => type_like(*lhs, *rhs),
            _ => false,
        }
    }

    /// Used to check whether an overloaded function's definition is
    /// applicable to the passed argument's types.
    pub fn soft_eq(&self, other: &Self) -> (r: bool)
        ensures
            r == self.spec_soft_eq(*other),
    {
        match (self, other) {
            (Type::Void, _) | (_, Type::Void) => false,
            (Type::Any, _) => true,
            (Type::Int, Type::Int)
            | (Type::Uint, Type::Uint)
            | (Type::Float, Type::Float)
            | (Type::Str, Type::Str)
            | (Type::Bool, Type::Bool)
            | (Type::Exception, Type::Exception) => true,
            (Type::Custom(lhs), Type::Custom(rhs)) => **lhs == **rhs,
            (Type::List(lhs), Type::List(rhs)) => type_eq(&**lhs, &**rhs),
            (Type::Int, Type::Uint) => true,
            _ => false,
        }
    }

    /// The class name under which a type's methods are registered.
    pub open spec fn spec_as_class(self) -> Seq<char> {
        match self {
            Type::Int => "Int"@,
            Type::Uint => "Uint"@,
            Type::Float => "Float"@,
            Type::Str => "String"@,
            Type::Bool => "Bool"@,
            Type::Exception => "Exception"@,
            Type::Custom(class) => class@,
            Type::Any => "Any"@,
            Type::Void => "Void"@,
            Type::List(_) => "List"@,
        }
    }

    pub fn as_class(&self) -> (r: String)
        ensures
            r@ == self.spec_as_class(),
    {
        match self {
            Type::Int => "Int".to_owned(),
            Type::Uint => "Uint".to_owned(),
            Type::Float => "Float".to_owned(),
            Type::Str => "String".to_owned(),
            Type::Bool => "Bool".to_owned(),
            Type::Exception => "Exception".to_owned(),
            Type::Custom(class) => (**class).clone(),
            Type::Any => "Any".to_owned(),
            Type::Void => "Void".to_owned(),
            Type::List(_) => "List".to_owned(),
        }
    }

    /// The innermost element type of a nested list type; any other type is
    /// its own root.
    pub open spec fn spec_root_type(self) -> Type
        decreases self,
    {
        match self {
            Type::List(el) => el.spec_root_type(),
            _ => self,
        }
    }

    pub fn root_type(&self) -> (r: Type)
        ensures
            type_like(r, self.spec_root_type()),
        decreases self,
    {
        match self {
            Type::List(el) => el.root_type(),
            _ => self.clone(),
        }
    }

    /// The bytecode appended when a value of type `recv` is passed where
    /// `exp` is expected: nothing when the types agree or `exp` is `Any`, an
    /// integer cast when an `Int` receives a `Uint`, a float cast when a
    /// `Float` receives an `Int` or a `Uint`; any other pair is rejected.
    pub open spec fn spec_verify_cast(exp: Type, recv: Type) -> Option<Seq<Bytecode>> {
        if exp is Any || type_like(exp, recv) {
            Some(Seq::<Bytecode>::empty())
        } else if exp is Int && recv is Uint {
            Some(seq![Bytecode::CastI])
        } else if exp is Float && (recv is Uint || recv is Int) {
            Some(seq![Bytecode::CastF])
        } else {
            None
        }
    }

    /// Checks a received type against an expected one, appending the implicit
    /// numeric widening casts onto the already emitted value's bytecode.
    pub fn verify(exp: Type, recv: Type, code: &mut Vec<Bytecode>, span: Span) -> (r: Result<
        (),
        ChalError,
    >)
        ensures
            match r {
                Ok(_) => Type::spec_verify_cast(exp, recv) is Some && final(code)@ == old(code)@
                    + Type::spec_verify_cast(exp, recv).unwrap(),
                Err(e) => Type::spec_verify_cast(exp, recv) is None && final(code)@ == old(code)@
                    && e == ChalError::Compile(
                    CompileError {
                        kind: CompileErrorKind::InvalidType(exp, recv),
                        span: span,
                    },
                ),
            },
    {
        if type_eq(&exp, &Type::Any) || type_eq(&exp, &recv) {
            proof {
                assert(Type::spec_verify_cast(exp, recv) == Some(Seq::<Bytecode>::empty()));
                assert(code@ + Seq::<Bytecode>::empty() =~= code@);
            }
            return Ok(());
        }
        if type_eq(&exp, &Type::Int) && type_eq(&recv, &Type::Uint) {
            code.push(Bytecode::CastI);
            proof {
                assert(old(code)@.push(Bytecode::CastI) =~= old(code)@ + seq![Bytecode::CastI]);
            }
            return Ok(());
        }
        if type_eq(&exp, &Type::Float) && (type_eq(&recv, &Type::Uint) || type_eq(
            &recv,
            &Type::Int,
        )) {
            code.push(Bytecode::CastF);
            proof {
                assert(old(code)@.push(Bytecode::CastF) =~= old(code)@ + seq![Bytecode::CastF]);
            }
            return Ok(());
        }
        Err(
            ChalError::Compile(
                CompileError { kind: CompileErrorKind::InvalidType(exp, recv), span },
            ),
        )
    }
}

} // verus!
