use vstd::prelude::*;

use crate::ast::{
    BinOprType, NodeAttrRes, NodeAttribute, NodeExpr, NodeExprInner, NodeInlineClass, NodeValue,
    UnaryOprType,
};
use crate::bytecode::Bytecode;
use crate::error::{ChalError, CompileErrorKind};
use crate::interp::{BuiltinOp, Compiler, SafetyScope};
use crate::span::Span;
use crate::types::{type_eq, type_like, Type};

verus! {

/// Whether one instruction respects the block it will stand in. The
/// instruction sits at offset `off + i` of a block of `total` instructions;
/// `base` is the block's own offset inside the innermost enclosing loop.
/// The forward skips of `If`, `TryScope` and `CatchJmp` stay inside the
/// block; a `Jmp` never moves past the block bounds by more than the
/// instruction-counter adjustment of two that the loop emission uses.
pub open spec fn placed_instr_ok(x: Bytecode, base: int, pos: int, total: int) -> bool {
    match x {
        Bytecode::If(n) => pos + 1 + n <= total,
        Bytecode::TryScope(n) => pos + 1 + n <= total,
        Bytecode::CatchJmp(n) => pos + 1 + n <= total,
        Bytecode::Jmp(d) => pos + 1 + d <= total + 2 && base + pos + d >= -2,
        _ => true,
    }
}

/// Every instruction of the run `s`, placed at offset `off` of a block of
/// `total` instructions, respects that block.
pub open spec fn placed_ok(s: Seq<Bytecode>, base: int, off: int, total: int) -> bool {
    forall|i: int| 0 <= i < s.len() ==> placed_instr_ok(#[trigger] s[i], base, off + i, total)
}

/// Every branching instruction of the block refers to a position inside its
/// bounds.
pub open spec fn code_ok(s: Seq<Bytecode>, base: int) -> bool {
    placed_ok(s, base, 0, s.len() as int)
}

/// Two adjacent well-placed runs form a well-placed run.
pub proof fn lemma_placed_concat(
    a: Seq<Bytecode>,
    b: Seq<Bytecode>,
    base: int,
    off: int,
    total: int,
)
    requires
        placed_ok(a, base, off, total),
        placed_ok(b, base, off + a.len(), total),
    ensures
        placed_ok(a + b, base, off, total),
{
    assert forall|i: int| 0 <= i < (a + b).len() implies placed_instr_ok(
        #[trigger] (a + b)[i],
        base,
        off + i,
        total,
    ) by {
        if i < a.len() {
            assert((a + b)[i] == a[i]);
        } else {
            assert((a + b)[i] == b[i - a.len()]);
            assert(placed_instr_ok(b[i - a.len()], base, off + a.len() + (i - a.len()), total));
        }
    }
}

/// A block sound on its own is well placed inside a larger block, at the
/// offset that preserves its distance to the enclosing loop's start.
pub proof fn lemma_placed_embed(s: Seq<Bytecode>, b: int, base: int, off: int, total: int)
    requires
        code_ok(s, b),
        base + off >= b,
        off + s.len() <= total,
        off >= 0,
    ensures
        placed_ok(s, base, off, total),
{
    assert forall|i: int| 0 <= i < s.len() implies placed_instr_ok(
        #[trigger] s[i],
        base,
        off + i,
        total,
    ) by {
        assert(placed_instr_ok(s[i], b, 0 + i, s.len() as int));
    }
}

/// No placeholder is left in the block.
pub open spec fn no_nops(s: Seq<Bytecode>) -> bool {
    forall|i: int| 0 <= i < s.len() ==> !((#[trigger] s[i]) is Nop)
}

/// The block holds neither branching instructions nor placeholders; straight
/// line code, as expressions compile to.
pub open spec fn plain_code(s: Seq<Bytecode>) -> bool {
    forall|i: int|
        0 <= i < s.len() ==> match #[trigger] s[i] {
            Bytecode::If(_) => false,
            Bytecode::Jmp(_) => false,
            Bytecode::TryScope(_) => false,
            Bytecode::CatchJmp(_) => false,
            Bytecode::Nop => false,
            _ => true,
        }
}

/// Every placeholder of the block stands at a recorded break position.
pub open spec fn nops_at_breaks(s: Seq<Bytecode>, breaks: Seq<usize>) -> bool {
    forall|i: int| 0 <= i < s.len() && (#[trigger] s[i]) is Nop ==> breaks.contains(i as usize)
}

/// All recorded break positions lie inside the block.
pub open spec fn breaks_bounded(breaks: Seq<usize>, len: int) -> bool {
    forall|j: int| 0 <= j < breaks.len() ==> (#[trigger] breaks[j]) < len
}

pub proof fn lemma_plain_code_ok(s: Seq<Bytecode>, base: int)
    requires
        plain_code(s),
    ensures
        code_ok(s, base),
        no_nops(s),
{
}

/// A straight-line run is well placed anywhere.
pub proof fn lemma_plain_placed(s: Seq<Bytecode>, base: int, off: int, total: int)
    requires
        plain_code(s),
    ensures
        placed_ok(s, base, off, total),
{
}

/// Well-bounded blocks concatenate to a well-bounded block when the second
/// is placed right after the first.
pub proof fn lemma_code_ok_concat(a: Seq<Bytecode>, b: Seq<Bytecode>, base: int)
    requires
        code_ok(a, base),
        code_ok(b, base + a.len()),
    ensures
        code_ok(a + b, base),
{
    lemma_placed_embed(a, base, base, 0, (a + b).len() as int);
    lemma_placed_embed(b, base + a.len(), base, a.len() as int, (a + b).len() as int);
    lemma_placed_concat(a, b, base, 0, (a + b).len() as int);
}

/// A block sound at a lower base stays sound at a higher one: the base only
/// bounds how far backward jumps may reach.
pub proof fn lemma_code_ok_base(s: Seq<Bytecode>, base1: int, base2: int)
    requires
        code_ok(s, base1),
        base2 >= base1,
    ensures
        code_ok(s, base2),
{
    assert forall|i: int| 0 <= i < s.len() implies placed_instr_ok(
        #[trigger] s[i],
        base2,
        i,
        s.len() as int,
    ) by {
        assert(placed_instr_ok(s[i], base1, i, s.len() as int));
    }
}


/// Decides `code_ok` at run time: used where a layout is assembled from
/// many pieces and checked once, rather than proved piecewise.
#[verifier::loop_isolation(false)]
pub(crate) fn check_code_ok(code: &Vec<Bytecode>, base: usize) -> (r: bool)
    ensures
        r == code_ok(code@, base as int),
{
    let n_code = code.len();
    let mut i: usize = 0;
    while i < n_code
        invariant
            i <= n_code,
            forall|k: int|
                0 <= k < i ==> placed_instr_ok(#[trigger] code@[k], base as int, k, n_code as int),
        decreases n_code - i,
    {
        let ok = match &code[i] {
            Bytecode::If(n) => (i as i128) + 1 + (*n as i128) <= n_code as i128,
            Bytecode::TryScope(n) => (i as i128) + 1 + (*n as i128) <= n_code as i128,
            Bytecode::CatchJmp(n) => (i as i128) + 1 + (*n as i128) <= n_code as i128,
            Bytecode::Jmp(d) => (i as i128) + 1 + (*d as i128) <= (n_code as i128) + 2 && (
            base as i128) + (i as i128) + (*d as i128) >= -2,
            _ => true,
        };
        if !ok {
            return false;
        }
        i = i + 1;
    }
    true
}

/// Decides at run time whether a recorded position list covers every
/// placeholder of a block.
#[verifier::loop_isolation(false)]
pub(crate) fn check_nops_at_breaks(code: &Vec<Bytecode>, brks: &Vec<usize>) -> (r: bool)
    ensures
        r == nops_at_breaks(code@, brks@),
{
    let n_code = code.len();
    let mut i: usize = 0;
    while i < n_code
        invariant
            i <= n_code,
            forall|k: int|
                0 <= k < i && (#[trigger] code@[k]) is Nop ==> brks@.contains(k as usize),
        decreases n_code - i,
    {
        if matches!(&code[i], Bytecode::Nop) {
            let mut found = false;
            let mut j: usize = 0;
            while j < brks.len()
                invariant
                    j <= brks@.len(),
                    found ==> brks@.contains(i as usize),
                    !found ==> forall|q: int| 0 <= q < j ==> (#[trigger] brks@[q]) != i,
                decreases brks@.len() - j,
            {
                if brks[j] == i {
                    found = true;
                }
                j = j + 1;
            }
            if !found {
                return false;
            }
        }
        i = i + 1;
    }
    true
}

/// Decides at run time whether every recorded break position lies inside
/// the block.
#[verifier::loop_isolation(false)]
pub(crate) fn check_breaks_bounded(brks: &Vec<usize>, len: usize) -> (r: bool)
    ensures
        r == breaks_bounded(brks@, len as int),
{
    let mut j: usize = 0;
    while j < brks.len()
        invariant
            j <= brks@.len(),
            forall|q: int| 0 <= q < j ==> (#[trigger] brks@[q]) < len,
        decreases brks@.len() - j,
    {
        if brks[j] >= len {
            return false;
        }
        j = j + 1;
    }
    true
}

/// The source literal of a binary operator, for error reports.
fn bin_opr_literal(opr: BinOprType) -> String {
    match opr {
        BinOprType::Add => "+".to_owned(),
        BinOprType::Sub => "-".to_owned(),
        BinOprType::Mul => "*".to_owned(),
        BinOprType::Div => "/".to_owned(),
        BinOprType::Mod => "%".to_owned(),
        BinOprType::And => "&&".to_owned(),
        BinOprType::Or => "||".to_owned(),
        BinOprType::Gt => ">".to_owned(),
        BinOprType::Lt => "<".to_owned(),
        BinOprType::GtEq => ">=".to_owned(),
        BinOprType::LtEq => "<=".to_owned(),
        BinOprType::EqEq => "==".to_owned(),
        BinOprType::BangEq => "!=".to_owned(),
    }
}


/// Whether a type is numeric in the spec's sense.
pub open spec fn spec_is_numeric(ty: Type) -> bool {
    ty is Int || ty is Uint || ty is Float
}

/// The common numeric type under the implicit widening: floats absorb
/// integers, integers absorb unsigned integers.
pub open spec fn spec_numeric_join(lhs: Type, rhs: Type) -> Type {
    if lhs is Float || rhs is Float {
        Type::Float
    } else if lhs is Int || rhs is Int {
        Type::Int
    } else {
        Type::Uint
    }
}

/// The static typing table of the binary operators: the result type a pair
/// of operand types produces, or nothing where the pair is rejected.
pub open spec fn spec_bin_opr_type(opr: BinOprType, lhs: Type, rhs: Type) -> Option<Type> {
    if lhs is Void || rhs is Void {
        Option::None
    } else {
        match opr {
            BinOprType::Add | BinOprType::Sub | BinOprType::Mul | BinOprType::Div
                | BinOprType::Mod => if lhs is Any || rhs is Any {
                Some(Type::Any)
            } else if opr == BinOprType::Add && lhs is Str && rhs is Str {
                Some(Type::Str)
            } else if spec_is_numeric(lhs) && spec_is_numeric(rhs) {
                Some(spec_numeric_join(lhs, rhs))
            } else {
                Option::None
            },
            BinOprType::Lt | BinOprType::Gt | BinOprType::LtEq | BinOprType::GtEq => if lhs
                is Any || rhs is Any || (spec_is_numeric(lhs) && spec_is_numeric(rhs)) || (lhs
                is Str && rhs is Str) {
                Some(Type::Bool)
            } else {
                Option::None
            },
            BinOprType::EqEq | BinOprType::BangEq => if lhs is Any || rhs is Any
                || lhs.spec_soft_eq(rhs) || rhs.spec_soft_eq(lhs) {
                Some(Type::Bool)
            } else {
                Option::None
            },
            BinOprType::And | BinOprType::Or => if (lhs is Bool || lhs is Any) && (rhs is Bool
                || rhs is Any) {
                Some(Type::Bool)
            } else {
                Option::None
            },
        }
    }
}

/// The static typing table of the unary operators: negating an unsigned
/// integer yields a signed one; boolean negation needs a boolean.
pub open spec fn spec_unary_opr_type(opr: UnaryOprType, ty: Type) -> Option<Type> {
    if ty is Void {
        Option::None
    } else {
        match opr {
            UnaryOprType::Neg => match ty {
                Type::Uint => Some(Type::Int),
                Type::Int => Some(Type::Int),
                Type::Float => Some(Type::Float),
                Type::Any => Some(Type::Any),
                _ => Option::None,
            },
            UnaryOprType::Bang => match ty {
                Type::Bool => Some(Type::Bool),
                Type::Any => Some(Type::Bool),
                _ => Option::None,
            },
        }
    }
}

/// Whether a type is numeric: an integer, an unsigned integer or a float.
fn is_numeric(ty: &Type) -> (r: bool)
    ensures
        r == spec_is_numeric(*ty),
{
    matches!(ty, Type::Int | Type::Uint | Type::Float)
}

/// The common type of two numeric operands under the implicit widening:
/// floats absorb integers, integers absorb unsigned integers.
fn numeric_join(lhs: &Type, rhs: &Type) -> (r: Type)
    ensures
        r == spec_numeric_join(*lhs, *rhs),
{
    if matches!(lhs, Type::Float) || matches!(rhs, Type::Float) {
        Type::Float
    } else if matches!(lhs, Type::Int) || matches!(rhs, Type::Int) {
        Type::Int
    } else {
        Type::Uint
    }
}

/// The static type a binary operation produces, or the compile error for an
/// unsupported pair of operand types.
pub(crate) fn bin_opr_result(opr: BinOprType, lhs: &Type, rhs: &Type, span: Span) -> (r: Result<
    Type,
    ChalError,
>)
    ensures
        r matches Ok(t) ==> (spec_bin_opr_type(opr, *lhs, *rhs) matches Some(u) && type_like(
            t,
            u,
        )),
        r is Err ==> spec_bin_opr_type(opr, *lhs, *rhs) is None,
        (r is Err && (lhs is Void || rhs is Void)) ==> (r matches Err(e) && e matches
            ChalError::Compile(ce) && ce.kind is VoidFunctionExpr),
        (r is Err && !(lhs is Void) && !(rhs is Void)) ==> (r matches Err(e) && e matches
            ChalError::Compile(ce) && ce.kind is InvalidBinOpr),
{
    if matches!(lhs, Type::Void) || matches!(rhs, Type::Void) {
        return Err(ChalError::compile_err(CompileErrorKind::VoidFunctionExpr, span));
    }
    match opr {
        BinOprType::Add | BinOprType::Sub | BinOprType::Mul | BinOprType::Div
            | BinOprType::Mod => {
            if matches!(lhs, Type::Any) || matches!(rhs, Type::Any) {
                return Ok(Type::Any);
            }
            if matches!(opr, BinOprType::Add) && matches!(lhs, Type::Str) && matches!(
                rhs,
                Type::Str,
            ) {
                return Ok(Type::Str);
            }
            if is_numeric(lhs) && is_numeric(rhs) {
                return Ok(numeric_join(lhs, rhs));
            }
            Err(
                ChalError::compile_err(
                    CompileErrorKind::InvalidBinOpr(
                        bin_opr_literal(opr),
                        lhs.clone(),
                        rhs.clone(),
                    ),
                    span,
                ),
            )
        },
        BinOprType::Lt | BinOprType::Gt | BinOprType::LtEq | BinOprType::GtEq => {
            if matches!(lhs, Type::Any) || matches!(rhs, Type::Any) {
                return Ok(Type::Bool);
            }
            if (is_numeric(lhs) && is_numeric(rhs)) || (matches!(lhs, Type::Str) && matches!(
                rhs,
                Type::Str,
            )) {
                return Ok(Type::Bool);
            }
            Err(
                ChalError::compile_err(
                    CompileErrorKind::InvalidBinOpr(
                        bin_opr_literal(opr),
                        lhs.clone(),
                        rhs.clone(),
                    ),
                    span,
                ),
            )
        },
        BinOprType::EqEq | BinOprType::BangEq => {
            if matches!(lhs, Type::Any) || matches!(rhs, Type::Any) {
                return Ok(Type::Bool);
            }
            if lhs.soft_eq(rhs) || rhs.soft_eq(lhs) {
                return Ok(Type::Bool);
            }
            Err(
                ChalError::compile_err(
                    CompileErrorKind::InvalidBinOpr(
                        bin_opr_literal(opr),
                        lhs.clone(),
                        rhs.clone(),
                    ),
                    span,
                ),
            )
        },
        BinOprType::And | BinOprType::Or => {
            let lhs_ok = matches!(lhs, Type::Bool | Type::Any);
            let rhs_ok = matches!(rhs, Type::Bool | Type::Any);
            if lhs_ok && rhs_ok {
                return Ok(Type::Bool);
            }
            Err(
                ChalError::compile_err(
                    CompileErrorKind::InvalidBinOpr(
                        bin_opr_literal(opr),
                        lhs.clone(),
                        rhs.clone(),
                    ),
                    span,
                ),
            )
        },
    }
}

/// The static type a unary operation produces: negating an unsigned integer
/// yields a signed one.
fn unary_opr_type(opr: UnaryOprType, ty: &Type, span: Span) -> (r: Result<Type, ChalError>)
    ensures
        r matches Ok(t) ==> (spec_unary_opr_type(opr, *ty) matches Some(u) && type_like(t, u)),
        r is Err ==> spec_unary_opr_type(opr, *ty) is None,
{
    if matches!(ty, Type::Void) {
        return Err(ChalError::compile_err(CompileErrorKind::VoidFunctionExpr, span));
    }
    match opr {
        UnaryOprType::Neg => match ty {
            Type::Uint => Ok(Type::Int),
            Type::Int => Ok(Type::Int),
            Type::Float => Ok(Type::Float),
            Type::Any => Ok(Type::Any),
            _ => Err(
                ChalError::compile_err(
                    CompileErrorKind::InvalidUnaryOpr("-".to_owned(), ty.clone()),
                    span,
                ),
            ),
        },
        UnaryOprType::Bang => match ty {
            Type::Bool => Ok(Type::Bool),
            Type::Any => Ok(Type::Bool),
            _ => Err(
                ChalError::compile_err(
                    CompileErrorKind::InvalidUnaryOpr("!".to_owned(), ty.clone()),
                    span,
                ),
            ),
        },
    }
}

/// The type of a literal value, spec form.
pub open spec fn spec_value_type(v: NodeValue) -> Type {
    match v {
        NodeValue::Int(_) => Type::Int,
        NodeValue::Uint(_) => Type::Uint,
        NodeValue::Float(_) => Type::Float,
        NodeValue::Str(_) => Type::Str,
        NodeValue::Bool(_) => Type::Bool,
    }
}

/// The type of a literal value.
fn value_type(v: &NodeValue) -> (r: Type)
    ensures
        r == spec_value_type(*v),
{
    match v {
        NodeValue::Int(_) => Type::Int,
        NodeValue::Uint(_) => Type::Uint,
        NodeValue::Float(_) => Type::Float,
        NodeValue::Str(_) => Type::Str,
        NodeValue::Bool(_) => Type::Bool,
    }
}


/// An expression item that carries no text and resolves nothing: an
/// integer, unsigned or boolean literal, or an operator. For a sequence of
/// such items the compiler's output is pinned exactly, so compiling equal
/// expressions emits identical bytecode.
pub open spec fn plain_value_item(item: NodeExprInner) -> bool {
    match item {
        NodeExprInner::Value(v) => match v {
            NodeValue::Int(_) => true,
            NodeValue::Uint(_) => true,
            NodeValue::Bool(_) => true,
            _ => false,
        },
        NodeExprInner::BinOpr(_) => true,
        NodeExprInner::UnaryOpr(_) => true,
        _ => false,
    }
}

/// The instructions one plain item compiles to: its constant push or its
/// operator; an inequality test is an equality test followed by a negation.
pub open spec fn item_opcodes(item: NodeExprInner) -> Seq<Bytecode> {
    match item {
        NodeExprInner::Value(v) => match v {
            NodeValue::Int(val) => seq![Bytecode::ConstI(val)],
            NodeValue::Uint(val) => seq![Bytecode::ConstU(val)],
            NodeValue::Bool(val) => seq![Bytecode::ConstB(val)],
            _ => Seq::empty(),
        },
        NodeExprInner::BinOpr(opr) => match opr {
            BinOprType::Add => seq![Bytecode::Add],
            BinOprType::Sub => seq![Bytecode::Sub],
            BinOprType::Mul => seq![Bytecode::Mul],
            BinOprType::Div => seq![Bytecode::Div],
            BinOprType::Mod => seq![Bytecode::Mod],
            BinOprType::And => seq![Bytecode::And],
            BinOprType::Or => seq![Bytecode::Or],
            BinOprType::Gt => seq![Bytecode::Gt],
            BinOprType::Lt => seq![Bytecode::Lt],
            BinOprType::GtEq => seq![Bytecode::GtEq],
            BinOprType::LtEq => seq![Bytecode::LtEq],
            BinOprType::EqEq => seq![Bytecode::Eq],
            BinOprType::BangEq => seq![Bytecode::Eq, Bytecode::Not],
        },
        NodeExprInner::UnaryOpr(opr) => match opr {
            UnaryOprType::Neg => seq![Bytecode::Neg],
            UnaryOprType::Bang => seq![Bytecode::Not],
        },
        _ => Seq::empty(),
    }
}

/// The item-wise image of an expression made of plain items: the
/// concatenation of each item's instructions, left to right.
pub open spec fn literal_opcode_image(s: Seq<NodeExprInner>) -> Seq<Bytecode>
    decreases s.len(),
{
    if s.len() == 0 {
        Seq::empty()
    } else {
        literal_opcode_image(s.drop_last()) + item_opcodes(s.last())
    }
}

proof fn lemma_image_step(s: Seq<NodeExprInner>, i: int)
    requires
        0 <= i < s.len(),
    ensures
        literal_opcode_image(s.take(i + 1)) == literal_opcode_image(s.take(i)) + item_opcodes(
            s[i],
        ),
{
    assert(s.take(i + 1).drop_last() =~= s.take(i));
    assert(s.take(i + 1).last() == s[i]);
}

/// Compiles an expression's Reverse Polish Notation into straight-line
/// bytecode: each item becomes its instruction, left to right. Returns the
/// code and the expression's static type. For an expression of plain items
/// the output is exactly the item-wise image, so compiling equal
/// expressions emits identical bytecode.
#[verifier::loop_isolation(false)]
pub(crate) fn compile_expr(ctx: &Compiler, expr: &NodeExpr) -> (r: Result<
    (Vec<Bytecode>, Type),
    ChalError,
>)
    ensures
        r matches Ok((code, _)) ==> plain_code(code@),
        r matches Ok((code, _)) ==> ((forall|i: int|
            0 <= i < expr.expr@.len() ==> plain_value_item(#[trigger] expr.expr@[i]))
            ==> code@ == literal_opcode_image(expr.expr@)),
        (expr.expr@.len() == 1 && expr.expr@[0] is Value) ==> (r matches Ok((code, ty)) && ty
            == spec_value_type(expr.expr@[0]->Value_0)),
        (expr.expr@.len() == 1 && expr.expr@[0] is Value && expr.expr@[0]->Value_0 is Str) ==> (
        r matches Ok((code, _)) && code@.len() == 1 && code@[0] is ConstS && code@[0]->ConstS_0@
            == expr.expr@[0]->Value_0->Str_0@),
    decreases *expr, 0int,
{
    let mut code = Vec::<Bytecode>::new();
    let mut types = Vec::<Type>::new();
    let mut i: usize = 0;
    while i < expr.expr.len()
        invariant
            i <= expr.expr@.len(),
            plain_code(code@),
            (forall|q: int|
                0 <= q < expr.expr@.len() ==> plain_value_item(#[trigger] expr.expr@[q]))
                ==> code@ == literal_opcode_image(expr.expr@.take(i as int)),
            (expr.expr@.len() == 1 && expr.expr@[0] is Value) ==> (i == 0 && types@.len() == 0
                || i == 1 && types@ == seq![spec_value_type(expr.expr@[0]->Value_0)]),
            (expr.expr@.len() == 1 && expr.expr@[0] is Value && expr.expr@[0]->Value_0
                is Str) ==> (i == 0 && code@.len() == 0 || i == 1 && code@.len() == 1
                && code@[0] is ConstS && code@[0]->ConstS_0@
                == expr.expr@[0]->Value_0->Str_0@),
        decreases expr.expr@.len() - i,
    {
        let ghost g_code_head = code@;
        let item = &expr.expr[i];
        proof {
            lemma_image_step(expr.expr@, i as int);
        }
        match item {
            NodeExprInner::Value(v) => {
                types.push(value_type(v));
                match v {
                    NodeValue::Int(val) => {
                        code.push(Bytecode::ConstI(*val));
                    },
                    NodeValue::Uint(val) => {
                        code.push(Bytecode::ConstU(*val));
                    },
                    NodeValue::Float(val) => {
                        code.push(Bytecode::ConstF(val.clone()));
                    },
                    NodeValue::Str(val) => {
                        code.push(Bytecode::ConstS(val.clone()));
                    },
                    NodeValue::Bool(val) => {
                        code.push(Bytecode::ConstB(*val));
                    },
                }
            },
            NodeExprInner::Resolution(res) => {
                let (mut res_code, res_ty) = compile_resolution(ctx, res)?;
                code.append(&mut res_code);
                types.push(res_ty);
            },
            NodeExprInner::InlineClass(node) => {
                let (mut obj_code, obj_ty) = compile_inline_class(ctx, node)?;
                code.append(&mut obj_code);
                types.push(obj_ty);
            },
            NodeExprInner::List(node) => {
                let mut elem_ty = Type::Any;
                let mut j: usize = 0;
                while j < node.elements.len()
                    invariant
                        plain_code(code@),
                    decreases node.elements@.len() - j,
                {
                    let el = &node.elements[j];
                    proof {
                        assert(*item == expr.expr@[i as int]);
                        assert(decreases_to!(*expr => expr.expr));
                        assert(decreases_to!(expr.expr => expr.expr@));
                        assert(decreases_to!(expr.expr@ => expr.expr@[i as int]));
                        assert(decreases_to!(expr.expr@[i as int] => expr.expr@[
                            i as int
                        ]->List_0));
                        assert(expr.expr@[i as int]->List_0 == *node);
                        assert(decreases_to!(*node => node.elements));
                        assert(decreases_to!(node.elements => node.elements@));
                        assert(decreases_to!(node.elements@ => node.elements@[j as int]));
                        assert(*el == node.elements@[j as int]);
                        assert(decreases_to!(*expr => *el));
                    }
                    let (mut el_code, el_ty) = compile_expr(ctx, el)?;
                    code.append(&mut el_code);
                    if j == 0 {
                        elem_ty = el_ty;
                    } else {
                        if type_eq(&elem_ty, &el_ty) {
                            // the element agrees with the others
                        } else if is_numeric(&elem_ty) && is_numeric(&el_ty) {
                            elem_ty = numeric_join(&elem_ty, &el_ty);
                        } else {
                            return Err(
                                ChalError::compile_err(
                                    CompileErrorKind::IncoherentList(elem_ty, el_ty),
                                    node.span,
                                ),
                            );
                        }
                    }
                    j = j + 1;
                }
                code.push(Bytecode::ConstL(node.elements.len()));
                types.push(Type::List(Box::new(elem_ty)));
            },
            NodeExprInner::BinOpr(opr) => {
                let rhs = match types.pop() {
                    Some(t) => t,
                    None => {
                        return Err(
                            ChalError::internal("compile_expr(): malformed expression"),
                        );
                    },
                };
                let lhs = match types.pop() {
                    Some(t) => t,
                    None => {
                        return Err(
                            ChalError::internal("compile_expr(): malformed expression"),
                        );
                    },
                };
                let result_ty = bin_opr_result(*opr, &lhs, &rhs, expr.span)?;
                match opr {
                    BinOprType::Add => code.push(Bytecode::Add),
                    BinOprType::Sub => code.push(Bytecode::Sub),
                    BinOprType::Mul => code.push(Bytecode::Mul),
                    BinOprType::Div => code.push(Bytecode::Div),
                    BinOprType::Mod => code.push(Bytecode::Mod),
                    BinOprType::And => code.push(Bytecode::And),
                    BinOprType::Or => code.push(Bytecode::Or),
                    BinOprType::Gt => code.push(Bytecode::Gt),
                    BinOprType::Lt => code.push(Bytecode::Lt),
                    BinOprType::GtEq => code.push(Bytecode::GtEq),
                    BinOprType::LtEq => code.push(Bytecode::LtEq),
                    BinOprType::EqEq => code.push(Bytecode::Eq),
                    BinOprType::BangEq => {
                        code.push(Bytecode::Eq);
                        code.push(Bytecode::Not);
                    },
                }
                types.push(result_ty);
            },
            NodeExprInner::UnaryOpr(opr) => {
                let operand = match types.pop() {
                    Some(t) => t,
                    None => {
                        return Err(
                            ChalError::internal("compile_expr(): malformed expression"),
                        );
                    },
                };
                let result_ty = unary_opr_type(*opr, &operand, expr.span)?;
                match opr {
                    UnaryOprType::Neg => code.push(Bytecode::Neg),
                    UnaryOprType::Bang => code.push(Bytecode::Not),
                }
                types.push(result_ty);
            },
        }
        i = i + 1;
        proof {
            if forall|q: int|
                0 <= q < expr.expr@.len() ==> plain_value_item(#[trigger] expr.expr@[q]) {
                assert(code@ =~= g_code_head + item_opcodes(expr.expr@[i - 1]));
            }
        }
    }
    proof {
        if forall|q: int|
            0 <= q < expr.expr@.len() ==> plain_value_item(#[trigger] expr.expr@[q]) {
            assert(expr.expr@.take(expr.expr@.len() as int) =~= expr.expr@);
        }
    }

    if types.len() != 1 {
        return Err(ChalError::internal("compile_expr(): malformed expression"));
    }
    let ty = match types.pop() {
        Some(t) => t,
        None => {
            return Err(ChalError::internal("compile_expr(): malformed expression"));
        },
    };
    Ok((code, ty))
}

/// The static type of an expression, without keeping its code. A single
/// literal owes its value's type.
pub(crate) fn expr_type(ctx: &Compiler, expr: &NodeExpr) -> (r: Result<Type, ChalError>)
    ensures
        (expr.expr@.len() == 1 && expr.expr@[0] is Value) ==> (r matches Ok(ty) && ty
            == spec_value_type(expr.expr@[0]->Value_0)),
    decreases *expr, 1int,
{
    match compile_expr(ctx, expr) {
        Ok((_, ty)) => Ok(ty),
        Err(e) => Err(e),
    }
}


/// A chain of one plain variable link.
pub open spec fn single_var_res(res: NodeAttrRes) -> bool {
    res.resolution@.len() == 1 && res.resolution@[0] is VarCall
}

/// The name of a single-variable chain's root.
pub open spec fn res_root_name(res: NodeAttrRes) -> Seq<char> {
    res.resolution@[0]->VarCall_0.name@
}

/// Compiles an attribute chain: the first link resolves a variable or a
/// free or namespaced function; each further link reads a member or calls a
/// method of the value so far. Returns the code and the chain's type. A
/// chain of one known variable owes success and reads exactly that
/// variable's slot.
#[verifier::loop_isolation(false)]
pub(crate) fn compile_resolution(ctx: &Compiler, res: &NodeAttrRes) -> (r: Result<
    (Vec<Bytecode>, Type),
    ChalError,
>)
    ensures
        r matches Ok((code, _)) ==> plain_code(code@),
        (single_var_res(*res) && crate::interp::var_map_contents(ctx.locals).contains_key(
            res_root_name(*res),
        )) ==> (r matches Ok((code, ty)) && code@ == seq![
            Bytecode::GetLocal(
                crate::interp::var_map_contents(ctx.locals)[res_root_name(*res)].id,
            ),
        ] && type_like(
            ty,
            crate::interp::var_map_contents(ctx.locals)[res_root_name(*res)].ty,
        )),
        (single_var_res(*res) && !crate::interp::var_map_contents(ctx.locals).contains_key(
            res_root_name(*res),
        ) && ctx.current_func is None && crate::interp::var_map_contents(
            ctx.globals,
        ).contains_key(res_root_name(*res))) ==> (r matches Ok((code, ty)) && code@ == seq![
            Bytecode::GetGlobal(
                crate::interp::var_map_contents(ctx.globals)[res_root_name(*res)].id,
            ),
        ] && type_like(
            ty,
            crate::interp::var_map_contents(ctx.globals)[res_root_name(*res)].ty,
        )),
        (single_var_res(*res) && !crate::interp::var_map_contents(ctx.locals).contains_key(
            res_root_name(*res),
        ) && ctx.current_func is None && !crate::interp::var_map_contents(
            ctx.globals,
        ).contains_key(res_root_name(*res))) ==> (r matches Err(e) && e matches
            ChalError::Compile(ce) && ce.kind is UnknownVariable),
    decreases *res, 0int,
{
    let ghost single = single_var_res(*res);
    let mut code = Vec::<Bytecode>::new();
    let mut parent: Option<Type> = None;

    let mut i: usize = 0;
    while i < res.resolution.len()
        invariant
            i <= res.resolution@.len(),
            plain_code(code@),
            single && i == 0 ==> (code@ =~= Seq::<Bytecode>::empty() && parent is None),
            (single && !crate::interp::var_map_contents(ctx.locals).contains_key(res_root_name(
                *res,
            )) && ctx.current_func is None && !crate::interp::var_map_contents(
                ctx.globals,
            ).contains_key(res_root_name(*res))) ==> i == 0,
            single && i == 1 && crate::interp::var_map_contents(ctx.locals).contains_key(
                res_root_name(*res),
            ) ==> (code@ =~= seq![
                Bytecode::GetLocal(
                    crate::interp::var_map_contents(ctx.locals)[res_root_name(*res)].id,
                ),
            ] && (parent matches Some(pt) && type_like(
                pt,
                crate::interp::var_map_contents(ctx.locals)[res_root_name(*res)].ty,
            ))),
            single && i == 1 && !crate::interp::var_map_contents(ctx.locals).contains_key(
                res_root_name(*res),
            ) && ctx.current_func is None && crate::interp::var_map_contents(
                ctx.globals,
            ).contains_key(res_root_name(*res)) ==> (code@ =~= seq![
                Bytecode::GetGlobal(
                    crate::interp::var_map_contents(ctx.globals)[res_root_name(*res)].id,
                ),
            ] && (parent matches Some(pt) && type_like(
                pt,
                crate::interp::var_map_contents(ctx.globals)[res_root_name(*res)].ty,
            ))),
        decreases res.resolution@.len() - i,
    {
        let link = &res.resolution[i];
        match link {
            NodeAttribute::VarCall(var) => {
                match &parent {
                    Option::None => {
                        // the chain's root: a local, an argument of the
                        // current function, or a global
                        match ctx.get_local(&var.name) {
                            Some((id, ty, _)) => {
                                code.push(Bytecode::GetLocal(id));
                                parent = Some(ty);
                            },
                            None => match ctx.current_func_arg(&var.name) {
                                Some((id, ty)) => {
                                    code.push(Bytecode::GetLocal(id));
                                    parent = Some(ty);
                                },
                                None => match ctx.get_global(&var.name) {
                                    Some((id, ty, _)) => {
                                        code.push(Bytecode::GetGlobal(id));
                                        parent = Some(ty);
                                    },
                                    None => {
                                        return Err(
                                            ChalError::compile_err(
                                                CompileErrorKind::UnknownVariable(
                                                    var.name.clone(),
                                                ),
                                                var.span,
                                            ),
                                        );
                                    },
                                },
                            },
                        }
                    },
                    Option::Some(pty) => {
                        // a member read on the value so far
                        let class = pty.as_class();
                        match ctx.class_member(&class, &var.name) {
                            Some((id, ty)) => {
                                code.push(Bytecode::GetAttr(id));
                                parent = Some(ty);
                            },
                            None => {
                                return Err(
                                    ChalError::compile_err(
                                        CompileErrorKind::UnknownMember(var.name.clone()),
                                        var.span,
                                    ),
                                );
                            },
                        }
                    },
                }
            },
            NodeAttribute::FuncCall(call) => {
                let (mut call_code, ret) = compile_func_call(ctx, call, &parent)?;
                code.append(&mut call_code);
                parent = Some(ret);
            },
        }
        i = i + 1;
    }

    match parent {
        Some(ty) => Ok((code, ty)),
        None => Err(ChalError::internal("compile_resolution(): empty attribute chain")),
    }
}

/// Compiles one function call: the arguments' code with their implicit
/// casts, then the call instruction. A call with a parent type is a method
/// call: the parent's value already stands on the stack and counts as the
/// first argument.
#[verifier::loop_isolation(false)]
fn compile_func_call(
    ctx: &Compiler,
    call: &crate::ast::NodeFuncCall,
    parent: &Option<Type>,
) -> (r: Result<(Vec<Bytecode>, Type), ChalError>)
    ensures
        r matches Ok((code, _)) ==> plain_code(code@),
        (call.name@.len() > 0 && call.name@.last() == '!' && ctx.safety_scope
            == SafetyScope::Safe) ==> (r matches Err(e) && e matches ChalError::Compile(ce)
            && ce.kind is UnsafeOpInSafeBlock),
        (call.name@.len() > 0 && call.name@.last() == '!' && ctx.safety_scope
            == SafetyScope::Normal && !crate::interp::current_func_unsafe(*ctx)) ==> (r matches
            Err(e) && e matches ChalError::Compile(ce) && ce.kind is ThrowInSafeFunc),
        (call.args@.len() == 0 && call.namespace is None && parent is None && !(call.name@.len()
            > 0 && call.name@.last() == '!') && (forall|b: int|
            0 <= b < ctx.builtins@.len() ==> !crate::interp::builtin_matches(
                #[trigger] ctx.builtins@[b],
                call.name@,
                Seq::<Type>::empty(),
            )) && (exists|i: int|
            0 <= i < ctx.functions@.len() && crate::interp::sig_matches(
                #[trigger] ctx.functions@[i],
                call.name@,
                Seq::<Type>::empty(),
                Option::None,
            ))) ==> (r matches Ok((code, ty)) && exists|i: int|
            0 <= i < ctx.functions@.len() && (#[trigger] crate::interp::sig_matches(
                ctx.functions@[i],
                call.name@,
                Seq::<Type>::empty(),
                Option::None,
            )) && code@ == seq![Bytecode::CallFunc(ctx.functions@[i].id)] && type_like(
                ty,
                ctx.functions@[i].ret_type,
            ) && forall|j: int|
                0 <= j < i ==> !crate::interp::sig_matches(
                    #[trigger] ctx.functions@[j],
                    call.name@,
                    Seq::<Type>::empty(),
                    Option::None,
                )),
    decreases *call, 1int,
{
    let ghost zero_arg_call = call.args@.len() == 0 && call.namespace is None
        && parent is None;
    // an unsafe function may be called only where a throw may happen
    if crate::interp::name_is_unsafe(&call.name) {
        if matches!(ctx.safety_scope, SafetyScope::Safe) {
            return Err(
                ChalError::compile_err(CompileErrorKind::UnsafeOpInSafeBlock, call.span),
            );
        }
        if !matches!(ctx.safety_scope, SafetyScope::Guarded) {
            let caller_unsafe = match ctx.current_func_info() {
                Some((_, is_unsafe)) => is_unsafe,
                None => false,
            };
            if !caller_unsafe {
                return Err(
                    ChalError::compile_err(CompileErrorKind::ThrowInSafeFunc, call.span),
                );
            }
        }
    }

    // the static types of the arguments
    let mut arg_types = Vec::<Type>::new();
    match parent {
        Some(pty) => {
            arg_types.push(pty.clone());
        },
        None => {},
    }
    let mut i: usize = 0;
    while i < call.args.len()
        invariant
            zero_arg_call ==> arg_types@ =~= Seq::<Type>::empty(),
        decreases call.args@.len() - i,
    {
        let ty = expr_type(ctx, &call.args[i])?;
        arg_types.push(ty);
        i = i + 1;
    }
    proof {
        if zero_arg_call {
            assert(arg_types@ =~= Seq::<Type>::empty());
        }
    }

    // a method call resolves inside the namespace of the parent's class
    let namespace: Option<String> = match parent {
        Some(pty) => Some(pty.as_class()),
        None => match &call.namespace {
            Some(ns) => Some(ns.clone()),
            None => None,
        },
    };

    match &namespace {
        Some(ns) => {
            if !ctx.class_exists(ns) && parent.is_none() {
                return Err(
                    ChalError::compile_err(
                        CompileErrorKind::UnknownNamespace(ns.clone()),
                        call.span,
                    ),
                );
            }
        },
        None => {},
    }

    // builtins are looked up only for plain calls
    if matches!(namespace, Option::None) {
        match ctx.get_builtin(&call.name, &arg_types) {
            Some(bidx) => {
                let mut code = Vec::<Bytecode>::new();
                let mut j: usize = 0;
                while j < call.args.len()
                    invariant
                        plain_code(code@),
                    decreases call.args@.len() - j,
                {
                    let (mut arg_code, arg_ty) = compile_expr(ctx, &call.args[j])?;
                    code.append(&mut arg_code);
                    if j < ctx.builtins[bidx].args.len() {
                        let param_ty = ctx.builtins[bidx].args[j].clone();
                        Type::verify(param_ty, arg_ty, &mut code, call.span)?;
                    }
                    j = j + 1;
                }
                let opcode = ctx.builtins[bidx].opcode;
                match opcode {
                    BuiltinOp::Print => code.push(Bytecode::Print),
                    BuiltinOp::Assert => code.push(Bytecode::Assert),
                }
                let ret = ctx.builtins[bidx].ret_type.clone();
                return Ok((code, ret));
            },
            None => {},
        }
    }

    let ns_ref: Option<&String> = match &namespace {
        Some(ns) => Some(ns),
        None => None,
    };
    let fidx = match ctx.get_function(&call.name, &arg_types, ns_ref) {
        Some(fidx) => fidx,
        None => {
            return Err(
                ChalError::compile_err(
                    CompileErrorKind::UnknownFunction(call.name.clone()),
                    call.span,
                ),
            );
        },
    };

    let mut code = Vec::<Bytecode>::new();
    // the parent value, when there is one, is already on the stack and
    // stands for the first parameter
    let param_offset: usize = if parent.is_some() {
        1
    } else {
        0
    };
    let mut j: usize = 0;
    while j < call.args.len()
        invariant
            plain_code(code@),
            zero_arg_call ==> code@ =~= Seq::<Bytecode>::empty(),
        decreases call.args@.len() - j,
    {
        let (mut arg_code, arg_ty) = compile_expr(ctx, &call.args[j])?;
        code.append(&mut arg_code);
        proof {
            assert(j < call.args@.len());
        }
        let pidx = j + param_offset;
        if fidx < ctx.functions.len() && pidx < ctx.functions[fidx].args.len() {
            let param_ty = ctx.functions[fidx].args[pidx].ty.clone();
            Type::verify(param_ty, arg_ty, &mut code, call.span)?;
        }
        j = j + 1;
    }
    if fidx >= ctx.functions.len() {
        return Err(ChalError::internal("compile_func_call(): function index out of range"));
    }
    code.push(Bytecode::CallFunc(ctx.functions[fidx].id));
    let ret = ctx.functions[fidx].ret_type.clone();
    Ok((code, ret))
}

/// Compiles an inline class construction: checks the initialised members
/// against the class's declared ones, emits each member's value in declared
/// order, then builds the object.
fn compile_inline_class(ctx: &Compiler, node: &NodeInlineClass) -> (r: Result<
    (Vec<Bytecode>, Type),
    ChalError,
>)
    ensures
        r matches Ok((code, _)) ==> plain_code(code@),
        r matches Ok((_, ty)) ==> (ty matches Type::Custom(b) && b@ == node.class@),
        !crate::interp::class_map_contents(ctx.namespaces).contains_key(node.class@) ==> (
        r matches Err(e) && e matches ChalError::Compile(ce) && ce.kind is UnknownClass),
        (crate::interp::class_map_contents(ctx.namespaces).contains_key(node.class@)
            && crate::interp::class_map_contents(ctx.namespaces)[node.class@].members@.len() == 0
            && node.members@.len() == 0) ==> (r matches Ok((code, _)) && code@ == seq![
            Bytecode::ConstObj(0),
        ]),
    decreases *node, 1int,
{
    let ghost empty_scenario = crate::interp::class_map_contents(ctx.namespaces).contains_key(
        node.class@,
    ) && crate::interp::class_map_contents(ctx.namespaces)[node.class@].members@.len() == 0
        && node.members@.len() == 0;
    let member_count = match ctx.class_member_count(&node.class) {
        Some(n) => n,
        None => {
            return Err(
                ChalError::compile_err(
                    CompileErrorKind::UnknownClass(node.class.clone()),
                    node.span,
                ),
            );
        },
    };

    // every initialised member must be declared by the class
    let mut undefined = Vec::<String>::new();
    let mut i: usize = 0;
    while i < node.members.len()
        invariant
            crate::interp::class_map_contents(ctx.namespaces).contains_key(node.class@),
            empty_scenario ==> (node.members@.len() == 0 && undefined@.len() == 0),
        decreases node.members@.len() - i,
    {
        if matches!(ctx.class_member(&node.class, &node.members[i].name), Option::None) {
            undefined.push(node.members[i].name.clone());
        }
        i = i + 1;
    }
    if undefined.len() > 0 {
        return Err(
            ChalError::compile_err(CompileErrorKind::UndefinedMembers(undefined), node.span),
        );
    }

    // every declared member must be initialised; values compile in the
    // declared order, so emission does not depend on the written order
    let mut missing = Vec::<String>::new();
    let mut code = Vec::<Bytecode>::new();
    let mut m: usize = 0;
    while m < member_count
        invariant
            crate::interp::class_map_contents(ctx.namespaces).contains_key(node.class@),
            empty_scenario == (crate::interp::class_map_contents(ctx.namespaces).contains_key(
                node.class@,
            ) && crate::interp::class_map_contents(ctx.namespaces)[node.class@].members@.len()
                == 0 && node.members@.len() == 0),
            plain_code(code@),
            empty_scenario ==> (member_count == 0 && code@.len() == 0 && missing@.len() == 0),
        decreases member_count - m,
    {
        let (member_name, member_ty) = match ctx.class_member_by_idx(&node.class, m) {
            Some(entry) => entry,
            None => {
                return Err(ChalError::internal("compile_inline_class(): member out of range"));
            },
        };
        let mut found = false;
        let mut j: usize = 0;
        while j < node.members.len()
            invariant
                crate::interp::class_map_contents(ctx.namespaces).contains_key(node.class@),
                plain_code(code@),
            decreases node.members@.len() - j,
        {
            if crate::text::str_eq(node.members[j].name.as_str(), member_name.as_str()) {
                let (mut val_code, val_ty) = compile_expr(ctx, &node.members[j].value)?;
                code.append(&mut val_code);
                Type::verify(member_ty.clone(), val_ty, &mut code, node.members[j].span)?;
                found = true;
                break;
            }
            j = j + 1;
        }
        if !found {
            missing.push(member_name);
        }
        m = m + 1;
    }
    if missing.len() > 0 {
        return Err(
            ChalError::compile_err(CompileErrorKind::MissingMembers(missing), node.span),
        );
    }

    code.push(Bytecode::ConstObj(member_count));
    proof {
        if empty_scenario {
            assert(code@ =~= seq![Bytecode::ConstObj(0)]);
        }
    }
    Ok((code, Type::Custom(Box::new(node.class.clone()))))
}

} // verus!
