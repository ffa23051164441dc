use vstd::prelude::*;

use crate::ast::{
    AssignOprType, BinOprType, NodeAssign, NodeAttribute, NodeExprInner, NodeForLoop,
    NodeIfBranch, NodeIfStmnt, NodeRetStmnt, NodeStmnt, NodeThrow, NodeTryCatch, NodeVarDef,
    NodeWhileLoop,
};
use crate::bytecode::Bytecode;
use crate::codegen::{
    bin_opr_result, code_ok, compile_expr, compile_resolution, expr_type, lemma_code_ok_base,
    lemma_code_ok_concat, lemma_placed_concat, lemma_placed_embed, lemma_plain_code_ok,
    lemma_plain_placed, no_nops, nops_at_breaks, placed_instr_ok, placed_ok, plain_code,
    breaks_bounded,
};
use crate::error::{ChalError, CompileErrorKind};
use crate::interp::{Compiler, SafetyScope, VarAnnotation};
use crate::types::{type_eq, Type};

verus! {

/// Adds two block offsets, failing at the machine bound rather than wrap.
fn add_len(a: usize, b: usize) -> (r: Result<usize, ChalError>)
    ensures
        r matches Ok(v) ==> v == a + b,
        r is Err ==> a + b > usize::MAX,
{
    if a <= usize::MAX - b {
        Ok(a + b)
    } else {
        Err(ChalError::internal("emitted bytecode exceeds the machine bounds"))
    }
}

/// What compiling a run of statements yields: the bytecode, and the
/// positions relative to the run's start where `break` placeholders wait to
/// be patched by the enclosing loop.
pub struct StmntCode {
    pub code: Vec<Bytecode>,
    pub brks: Vec<usize>,
}

/// The contract every compiled statement run meets: the code respects its
/// block (`base` is the run's offset inside the innermost loop), every
/// placeholder stands at a recorded break position, every recorded position
/// is in range, and outside a loop there are no placeholders at all.
pub open spec fn stmnt_code_ok(r: StmntCode, base: int, in_loop: bool) -> bool {
    &&& code_ok(r.code@, base)
    &&& nops_at_breaks(r.code@, r.brks@)
    &&& breaks_bounded(r.brks@, r.code@.len() as int)
    &&& !in_loop ==> r.brks@.len() == 0
}

/// A run ending in a return instruction, with straight-line code before it.
proof fn lemma_tail_code_ok(code: Seq<Bytecode>, base: int)
    requires
        code.len() >= 1,
        plain_code(code.drop_last()),
        !(code.last() is Nop),
        !(code.last() is Jmp),
        !(code.last() is If),
        !(code.last() is TryScope),
        !(code.last() is CatchJmp),
    ensures
        code_ok(code, base),
        no_nops(code),
{
    assert forall|i: int| 0 <= i < code.len() implies placed_instr_ok(
        #[trigger] code[i],
        base,
        i,
        code.len() as int,
    ) by {
        if i < code.len() - 1 {
            assert(code[i] == code.drop_last()[i]);
        }
    }
    assert forall|i: int| 0 <= i < code.len() implies !((#[trigger] code[i]) is Nop) by {
        if i < code.len() - 1 {
            assert(code[i] == code.drop_last()[i]);
        }
    }
}

/// Compiles one statement. `in_loop` says whether a loop encloses the
/// statement; `base` is the statement's offset inside the innermost loop's
/// block, by which `continue` computes its backward distance.
pub fn compile_stmnt(ctx: &mut Compiler, stmnt: NodeStmnt, in_loop: bool, base: usize) -> (r:
    Result<StmntCode, ChalError>)
    ensures
        r matches Ok(sc) ==> stmnt_code_ok(sc, base as int, in_loop) && (stmnt is RetStmnt ==> (
        sc.code@.len() >= 1 && (sc.code@.last() is Return || sc.code@.last() is ReturnVoid))),
        (stmnt is BreakStmnt && !in_loop) ==> (r matches Err(e) && e matches ChalError::Compile(
            ce,
        ) && ce.kind is CtrlFlowOutsideLoop),
        (stmnt is BreakStmnt && in_loop) ==> (r matches Ok(sc) && sc.code@ == seq![
            Bytecode::Nop,
        ] && sc.brks@ == seq![0usize]),
        (stmnt is ContStmnt && !in_loop) ==> (r matches Err(e) && e matches ChalError::Compile(
            ce,
        ) && ce.kind is CtrlFlowOutsideLoop),
        (stmnt is ContStmnt && in_loop && base <= (isize::MAX as usize) - 1) ==> (r matches Ok(
            sc,
        ) && sc.code@ == seq![Bytecode::Jmp((-(base as int + 1)) as isize)]
            && sc.brks@.len() == 0),
        (stmnt is BreakStmnt || stmnt is ContStmnt) ==> *final(ctx) == *old(ctx),
        final(ctx).functions == old(ctx).functions,
        final(ctx).globals_id_counter == old(ctx).globals_id_counter,
        final(ctx).namespaces == old(ctx).namespaces,
    decreases stmnt, 2int,
{
    match stmnt {
        NodeStmnt::VarDef(node) => {
            let code = compile_var_def_local(ctx, node)?;
            proof {
                lemma_plain_code_ok(code@, base as int);
            }
            Ok(StmntCode { code, brks: Vec::new() })
        },
        NodeStmnt::FuncCall(call_stmnt) => {
            let res = call_stmnt.0;
            let (code, ty) = compile_resolution(ctx, &res)?;
            if !matches!(ty, Type::Void) {
                return Err(
                    ChalError::compile_err(CompileErrorKind::NonVoidFunctionStmnt(ty), res.span),
                );
            }
            proof {
                lemma_plain_code_ok(code@, base as int);
            }
            Ok(StmntCode { code, brks: Vec::new() })
        },
        NodeStmnt::Assign(node) => {
            let code = compile_assign(ctx, node)?;
            proof {
                lemma_plain_code_ok(code@, base as int);
            }
            Ok(StmntCode { code, brks: Vec::new() })
        },
        NodeStmnt::RetStmnt(node) => {
            let code = compile_ret(ctx, node)?;
            proof {
                lemma_tail_code_ok(code@, base as int);
            }
            Ok(StmntCode { code, brks: Vec::new() })
        },
        NodeStmnt::IfStmnt(node) => compile_if(ctx, node, in_loop, base),
        NodeStmnt::WhileLoop(node) => {
            let code = compile_while(ctx, node)?;
            proof {
                lemma_code_ok_base(code@, 0, base as int);
            }
            Ok(StmntCode { code, brks: Vec::new() })
        },
        NodeStmnt::ForLoop(node) => {
            let code = compile_for(ctx, node)?;
            proof {
                lemma_code_ok_base(code@, 0, base as int);
            }
            Ok(StmntCode { code, brks: Vec::new() })
        },
        NodeStmnt::BreakStmnt(node) => {
            if !in_loop {
                return Err(
                    ChalError::compile_err(CompileErrorKind::CtrlFlowOutsideLoop, node.span),
                );
            }
            let code = vec![Bytecode::Nop];
            let brks = vec![0usize];
            proof {
                assert(brks@[0] == 0usize);
                assert(brks@.contains(0usize));
                assert(code@ =~= seq![Bytecode::Nop]);
                assert(brks@ =~= seq![0usize]);
            }
            Ok(StmntCode { code, brks })
        },
        NodeStmnt::ContStmnt(node) => {
            if !in_loop {
                return Err(
                    ChalError::compile_err(CompileErrorKind::CtrlFlowOutsideLoop, node.span),
                );
            }
            // returning to the loop's start: the distance counts the
            // instructions from the loop's first one up to this jump
            if base > (isize::MAX as usize) - 1 {
                return Err(ChalError::internal("emitted bytecode exceeds the machine bounds"));
            }
            let dist: isize = -((base + 1) as isize);
            let code = vec![Bytecode::Jmp(dist)];
            proof {
                assert(code@ =~= seq![Bytecode::Jmp((-(base as int + 1)) as isize)]);
            }
            Ok(StmntCode { code, brks: Vec::new() })
        },
        NodeStmnt::TryCatch(node) => compile_try_catch(ctx, node, in_loop, base),
        NodeStmnt::Throw(node) => {
            let code = compile_throw(ctx, node)?;
            proof {
                lemma_tail_code_ok(code@, base as int);
            }
            Ok(StmntCode { code, brks: Vec::new() })
        },
    }
}

/// Compiles the statements of one body in order. Errors are collected
/// statement by statement, so one broken statement does not hide the
/// others; any error fails the whole run. Break positions of the inner
/// statements are lifted into this run's frame.
#[verifier::loop_isolation(false)]
pub fn compile_stmnts(ctx: &mut Compiler, stmnts: Vec<NodeStmnt>, in_loop: bool, base: usize) -> (
    r: Result<StmntCode, ChalError>)
    ensures
        r matches Ok(sc) ==> stmnt_code_ok(sc, base as int, in_loop) && ((exists|j: int|
            0 <= j < stmnts@.len() && stmnts@[j] is RetStmnt) ==> exists|i: int|
            0 <= i < sc.code@.len() && ((#[trigger] sc.code@[i]) is Return
                || sc.code@[i] is ReturnVoid)),
        (stmnts@.len() == 1 && stmnts@[0] is BreakStmnt && in_loop) ==> (r matches Ok(sc)
            && sc.code@ == seq![Bytecode::Nop] && sc.brks@ == seq![0usize]),
        stmnts@.len() == 0 ==> (r matches Ok(sc) && sc.code@ == Seq::<Bytecode>::empty()
            && sc.brks@ == Seq::<usize>::empty()),
        final(ctx).functions == old(ctx).functions,
        final(ctx).globals_id_counter == old(ctx).globals_id_counter,
        final(ctx).namespaces == old(ctx).namespaces,
    decreases stmnts, 3int,
{
    let ghost orig = stmnts@;
    let mut stmnts = stmnts;
    let mut code = Vec::<Bytecode>::new();
    let mut brks = Vec::<usize>::new();
    let mut errors = Vec::<ChalError>::new();
    let ghost mut consumed: int = 0;

    while stmnts.len() > 0
        invariant
            stmnts@ == orig.skip(consumed),
            0 <= consumed <= orig.len(),
            ctx.functions == old(ctx).functions,
            ctx.globals_id_counter == old(ctx).globals_id_counter,
            ctx.namespaces == old(ctx).namespaces,
            code_ok(code@, base as int),
            nops_at_breaks(code@, brks@),
            breaks_bounded(brks@, code@.len() as int),
            !in_loop ==> brks@.len() == 0,
            (errors@.len() == 0 && exists|j: int| 0 <= j < consumed && orig[j] is RetStmnt)
                ==> exists|i: int|
                0 <= i < code@.len() && ((#[trigger] code@[i]) is Return
                    || code@[i] is ReturnVoid),
            (orig.len() == 1 && orig[0] is BreakStmnt && in_loop) ==> (consumed == 0 && code@
                =~= Seq::<Bytecode>::empty() && brks@ =~= Seq::<usize>::empty()
                && errors@.len() == 0 || consumed == 1 && code@ =~= seq![Bytecode::Nop]
                && brks@ =~= seq![0usize] && errors@.len() == 0),
            orig.len() == 0 ==> (code@ =~= Seq::<Bytecode>::empty() && brks@ =~= Seq::<
                usize,
            >::empty() && errors@.len() == 0),
        decreases stmnts@.len(),
    {
        let stmnt = stmnts.remove(0);
        proof {
            assert(stmnt == orig[consumed]);
            assert(stmnts@ =~= orig.skip(consumed + 1));
        }
        let off = code.len();
        let st_base = add_len(base, off)?;
        match compile_stmnt(ctx, stmnt, in_loop, st_base) {
            Ok(sc) => {
                let ghost old_code = code@;
                let ghost old_brks = brks@;
                let ghost piece = sc.code@;
                let ghost piece_brks = sc.brks@;
                let mut sc_code = sc.code;
                let sc_brks = sc.brks;
                code.append(&mut sc_code);
                let new_len = code.len();
                proof {
                    assert(code@ == old_code + piece);
                    lemma_code_ok_concat(old_code, piece, base as int);
                    // appending keeps any return instruction already emitted
                    if exists|i: int|
                        0 <= i < old_code.len() && ((#[trigger] old_code[i]) is Return
                            || old_code[i] is ReturnVoid) {
                        let wi = choose|i: int|
                            0 <= i < old_code.len() && ((#[trigger] old_code[i]) is Return
                                || old_code[i] is ReturnVoid);
                        assert(code@[wi] == old_code[wi]);
                    }
                    if piece.len() >= 1 && (piece.last() is Return || piece.last()
                        is ReturnVoid) {
                        assert(code@[code@.len() - 1] == piece.last());
                    }
                    // a placeholder is either an old one, already recorded, or
                    // one of the piece, recorded relative to the piece
                    assert forall|i: int|
                        0 <= i < code@.len() && (#[trigger] code@[i]) is Nop implies (
                        old_brks.contains(i as usize) || (exists|j: int|
                            0 <= j < piece_brks.len() && off + piece_brks[j] == i)) by {
                        if i < old_code.len() {
                            assert(code@[i] == old_code[i]);
                        } else {
                            assert(code@[i] == piece[i - off]);
                            assert(piece_brks.contains((i - off) as usize));
                            let j = choose|j: int|
                                0 <= j < piece_brks.len() && piece_brks[j] == (i
                                    - off) as usize;
                            assert(off + piece_brks[j] == i);
                        }
                    }
                }
                let mut bi: usize = 0;
                while bi < sc_brks.len()
                    invariant
                        bi <= sc_brks@.len(),
                        sc_brks@ == piece_brks,
                        code@ == old_code + piece,
                        off == old_code.len(),
                        off + piece.len() == new_len,
                        new_len == code@.len(),
                        (orig.len() == 1 && orig[0] is BreakStmnt && in_loop && consumed == 0)
                            ==> (piece_brks =~= seq![0usize] && off == 0 && (bi == 0 && brks@
                            =~= Seq::<usize>::empty() || bi == 1 && brks@ =~= seq![0usize])),
                        forall|i: int|
                            0 <= i < code@.len() && (#[trigger] code@[i]) is Nop ==> (
                            brks@.contains(i as usize) || (exists|j: int|
                                bi <= j < piece_brks.len() && off + piece_brks[j] == i)),
                        breaks_bounded(brks@, code@.len() as int),
                        breaks_bounded(piece_brks, piece.len() as int),
                        !in_loop ==> (piece_brks.len() == 0 && brks@.len() == 0),
                    decreases sc_brks@.len() - bi,
                {
                    let p = sc_brks[bi];
                    proof {
                        assert(piece_brks[bi as int] == p);
                        assert(p < piece.len());
                    }
                    let abs = off + p;
                    let ghost g_prev = brks@;
                    brks.push(abs);
                    bi = bi + 1;
                    proof {
                        assert(brks@ == g_prev.push(abs));
                        assert(brks@[g_prev.len() as int] == abs);
                        assert(brks@.contains(abs));
                        assert forall|i: int|
                            0 <= i < code@.len() && (#[trigger] code@[i]) is Nop implies (
                            brks@.contains(i as usize) || (exists|j: int|
                                bi <= j < piece_brks.len() && off + piece_brks[j] == i)) by {
                            if g_prev.contains(i as usize) {
                                let jj = choose|jj: int|
                                    0 <= jj < g_prev.len() && g_prev[jj] == i as usize;
                                assert(brks@[jj] == i as usize);
                            } else if exists|j: int|
                                bi - 1 <= j < piece_brks.len() && off + piece_brks[j] == i {
                                let j = choose|j: int|
                                    bi - 1 <= j < piece_brks.len() && off + piece_brks[j]
                                        == i;
                                if j == bi - 1 {
                                    assert(i == abs);
                                }
                            }
                        }
                    }
                }
                proof {
                    assert(nops_at_breaks(code@, brks@));
                }
            },
            Err(e) => {
                errors.push(e);
            },
        }
        proof {
            consumed = consumed + 1;
        }
    }

    if errors.len() > 0 {
        return Err(ChalError::Many(errors));
    }
    proof {
        assert(consumed == orig.len());
    }
    Ok(StmntCode { code, brks })
}

/// Appends the implicit-cast check of `Type::verify` while keeping the
/// code straight-line.
fn verify_into(exp: Type, recv: Type, code: &mut Vec<Bytecode>, span: crate::span::Span) -> (r:
    Result<(), ChalError>)
    requires
        plain_code(old(code)@),
    ensures
        r is Ok ==> (plain_code(final(code)@) && (Type::spec_verify_cast(exp, recv) matches Some(
            cs,
        ) && final(code)@ == old(code)@ + cs)),
        r matches Err(e) ==> (Type::spec_verify_cast(exp, recv) is None && final(code)@ == old(
            code,
        )@ && e == ChalError::Compile(
            crate::error::CompileError {
                kind: CompileErrorKind::InvalidType(exp, recv),
                span: span,
            },
        )),
{
    let ghost before = code@;
    let res = Type::verify(exp, recv, code, span);
    match res {
        Ok(_) => {
            proof {
                assert forall|i: int| 0 <= i < code@.len() implies match #[trigger] code@[i] {
                    Bytecode::If(_) => false,
                    Bytecode::Jmp(_) => false,
                    Bytecode::TryScope(_) => false,
                    Bytecode::CatchJmp(_) => false,
                    Bytecode::Nop => false,
                    _ => true,
                } by {
                    if i < before.len() {
                        assert(code@[i] == before[i]);
                    }
                }
            }
            Ok(())
        },
        Err(e) => Err(e),
    }
}

/// Compiles a local variable definition: checks redefinition, infers or
/// verifies the type, and stores into a fresh local slot. A definition of
/// `_` only type-checks its value and emits nothing.
#[verifier::loop_isolation(false)]
fn compile_var_def_local(ctx: &mut Compiler, node: NodeVarDef) -> (r: Result<
    Vec<Bytecode>,
    ChalError,
>)
    ensures
        r matches Ok(code) ==> plain_code(code@),
        final(ctx).functions == old(ctx).functions,
        final(ctx).globals_id_counter == old(ctx).globals_id_counter,
        final(ctx).namespaces == old(ctx).namespaces,
        (single_literal_def(node) && !crate::interp::var_map_contents(
            old(ctx).locals,
        ).contains_key(node.name@) && old(ctx).current_func is None && (node.ty is Any
            || Type::spec_verify_cast(
            node.ty,
            crate::codegen::spec_value_type(node.value.expr@[0]->Value_0),
        ) is Some)) ==> (r matches Ok(code) && (crate::codegen::plain_value_item(
            node.value.expr@[0],
        ) ==> code@ == crate::codegen::item_opcodes(node.value.expr@[0]) + literal_def_cast(node)
            + seq![Bytecode::SetLocal(old(ctx).locals_id_counter)])),
    decreases node, 3int,
{
    let ghost lit_scenario = single_literal_def(node) && !crate::interp::var_map_contents(
        old(ctx).locals,
    ).contains_key(node.name@) && old(ctx).current_func is None;
    if crate::text::str_eq(node.name.as_str(), "_") {
        let _ = expr_type(ctx, &node.value)?;
        let code = Vec::<Bytecode>::new();
        return Ok(code);
    }

    if matches!(ctx.get_local(&node.name), Option::Some(_)) {
        return Err(ChalError::compile_err(CompileErrorKind::RedefiningVariable, node.span));
    }
    if matches!(ctx.current_func_arg(&node.name), Option::Some(_)) {
        return Err(ChalError::compile_err(CompileErrorKind::RedefiningFunctionArg, node.span));
    }
    if matches!(&node.ty, Type::Exception) {
        return Err(
            ChalError::compile_err(CompileErrorKind::ExceptionTyOutsideCatch, node.span),
        );
    }

    let (mut code, value_ty) = compile_expr(ctx, &node.value)?;
    let final_ty: Type;
    if !matches!(&node.ty, Type::Any) {
        let declared = node.ty.clone();
        verify_into(node.ty, value_ty, &mut code, node.value.span)?;
        final_ty = declared;
    } else if matches!(&value_ty, Type::Void) {
        return Err(ChalError::compile_err(CompileErrorKind::VoidVariable, node.span));
    } else {
        let root = value_ty.root_type();
        if matches!(&root, Type::Any) {
            return Err(
                ChalError::compile_err(
                    CompileErrorKind::UninferableType(value_ty),
                    node.value.span,
                ),
            );
        }
        final_ty = value_ty;
    }

    let ghost pre_store_local = code@;
    let id = ctx.locals_id_counter;
    ctx.locals_id_counter = if id < usize::MAX {
        id + 1
    } else {
        id
    };
    ctx.set_local(node.name, VarAnnotation { id, ty: final_ty, is_const: node.is_const });
    code.push(Bytecode::SetLocal(id));
    proof {
        assert(code@ =~= pre_store_local + seq![Bytecode::SetLocal(id)]);
        if lit_scenario && crate::codegen::plain_value_item(node.value.expr@[0]) {
            let items = node.value.expr@;
            assert(items.drop_last() =~= Seq::<NodeExprInner>::empty());
            assert(items.last() == items[0]);
            assert(crate::codegen::literal_opcode_image(Seq::<NodeExprInner>::empty())
                =~= Seq::<Bytecode>::empty());
            assert(crate::codegen::literal_opcode_image(items)
                == crate::codegen::literal_opcode_image(items.drop_last())
                + crate::codegen::item_opcodes(items.last()));
            assert(code@ =~= crate::codegen::item_opcodes(items[0]) + literal_def_cast(node)
                + seq![Bytecode::SetLocal(old(ctx).locals_id_counter)]);
        }
    }
    Ok(code)
}


/// The slot a global definition stores into: the already bound slot of the
/// name, or the next fresh global id.
pub open spec fn global_slot(c: Compiler, name: Seq<char>) -> usize {
    if crate::interp::var_map_contents(c.globals).contains_key(name) {
        crate::interp::var_map_contents(c.globals)[name].id
    } else {
        c.globals_id_counter
    }
}

/// The implicit cast a single-literal definition appends: none under an
/// inferred type, else what the widening table gives.
pub open spec fn literal_def_cast(node: NodeVarDef) -> Seq<Bytecode> {
    if node.ty is Any {
        Seq::empty()
    } else {
        Type::spec_verify_cast(
            node.ty,
            crate::codegen::spec_value_type(node.value.expr@[0]->Value_0),
        ).unwrap()
    }
}

/// A definition whose right-hand side is one literal value.
pub open spec fn single_literal_def(node: NodeVarDef) -> bool {
    node.value.expr@.len() == 1 && node.value.expr@[0] is Value && !(node.name@ == "_"@) && !(
    node.ty is Exception)
}

/// Compiles a global variable definition at the top level. Redefining a
/// global rebinds the same slot under the new type. A definition of one
/// literal value owes success whenever the widening table accepts it, and
/// then emits the literal, its implicit cast and the store; under a
/// declared type the table rejects it with exactly the invalid-type error.
pub(crate) fn compile_var_def_global(ctx: &mut Compiler, node: NodeVarDef) -> (r: Result<
    Vec<Bytecode>,
    ChalError,
>)
    ensures
        r matches Ok(code) ==> plain_code(code@),
        (single_literal_def(node) && (node.ty is Any || Type::spec_verify_cast(
            node.ty,
            crate::codegen::spec_value_type(node.value.expr@[0]->Value_0),
        ) is Some)) ==> (r matches Ok(code) && (crate::codegen::plain_value_item(
            node.value.expr@[0],
        ) ==> code@ == crate::codegen::item_opcodes(node.value.expr@[0]) + literal_def_cast(node)
            + seq![Bytecode::SetGlobal(global_slot(*old(ctx), node.name@))])),
        (single_literal_def(node) && !(node.ty is Any) && Type::spec_verify_cast(
            node.ty,
            crate::codegen::spec_value_type(node.value.expr@[0]->Value_0),
        ) is None) ==> (r matches Err(e) && e matches ChalError::Compile(ce) && ce.kind matches
            CompileErrorKind::InvalidType(a, b) && a == node.ty && b
            == crate::codegen::spec_value_type(node.value.expr@[0]->Value_0)),
        final(ctx).functions == old(ctx).functions,
        final(ctx).namespaces == old(ctx).namespaces,
    decreases node, 3int,
{
    if crate::text::str_eq(node.name.as_str(), "_") {
        let _ = expr_type(ctx, &node.value)?;
        let code = Vec::<Bytecode>::new();
        return Ok(code);
    }
    if matches!(&node.ty, Type::Exception) {
        return Err(
            ChalError::compile_err(CompileErrorKind::ExceptionTyOutsideCatch, node.span),
        );
    }

    let (mut code, value_ty) = compile_expr(ctx, &node.value)?;
    let final_ty: Type;
    if !matches!(&node.ty, Type::Any) {
        let declared = node.ty.clone();
        verify_into(node.ty, value_ty, &mut code, node.value.span)?;
        final_ty = declared;
    } else if matches!(&value_ty, Type::Void) {
        return Err(ChalError::compile_err(CompileErrorKind::VoidVariable, node.span));
    } else {
        let root = value_ty.root_type();
        if matches!(&root, Type::Any) {
            return Err(
                ChalError::compile_err(
                    CompileErrorKind::UninferableType(value_ty),
                    node.value.span,
                ),
            );
        }
        final_ty = value_ty;
    }

    let ghost pre_store = code@;
    let id = match ctx.get_global(&node.name) {
        Some((existing_id, _, _)) => existing_id,
        None => {
            let fresh = ctx.globals_id_counter;
            ctx.globals_id_counter = if fresh < usize::MAX {
                fresh + 1
            } else {
                fresh
            };
            fresh
        },
    };
    ctx.set_global(node.name, VarAnnotation { id, ty: final_ty, is_const: node.is_const });
    code.push(Bytecode::SetGlobal(id));
    proof {
        assert(code@ =~= pre_store + seq![Bytecode::SetGlobal(id)]);
        if single_literal_def(node) {
            let items = node.value.expr@;
            assert(items.drop_last() =~= Seq::<NodeExprInner>::empty());
            assert(items.last() == items[0]);
            assert(crate::codegen::literal_opcode_image(Seq::<NodeExprInner>::empty())
                =~= Seq::<Bytecode>::empty());
            assert(crate::codegen::literal_opcode_image(items)
                == crate::codegen::literal_opcode_image(items.drop_last())
                + crate::codegen::item_opcodes(items.last()));
            assert(crate::codegen::literal_opcode_image(items) =~= crate::codegen::item_opcodes(
                items[0],
            ));
            if crate::codegen::plain_value_item(items[0]) {
                assert(pre_store =~= crate::codegen::item_opcodes(items[0]) + literal_def_cast(
                    node,
                ));
                assert(id == global_slot(*old(ctx), node.name@));
                assert(code@ =~= crate::codegen::item_opcodes(items[0]) + literal_def_cast(node)
                    + seq![Bytecode::SetGlobal(global_slot(*old(ctx), node.name@))]);
            }
        }
    }
    Ok(code)
}


/// An assignment target beginning with a plain variable name.
pub open spec fn assign_root_is_var(node: NodeAssign) -> bool {
    node.lhs.resolution@.len() >= 1 && node.lhs.resolution@[0] is VarCall
}

/// The name of the assignment target's root variable.
pub open spec fn assign_root_name(node: NodeAssign) -> Seq<char> {
    node.lhs.resolution@[0]->VarCall_0.name@
}

/// The scenario the assignment contract pins exactly: a plain `=` into one
/// known global name, from one literal value, at the top level.
pub open spec fn literal_global_assign(node: NodeAssign, c: Compiler) -> bool {
    &&& node.lhs.resolution@.len() == 1
    &&& node.lhs.resolution@[0] is VarCall
    &&& node.opr == AssignOprType::Eq
    &&& !crate::interp::var_map_contents(c.locals).contains_key(assign_root_name(node))
    &&& c.current_func is None
    &&& crate::interp::var_map_contents(c.globals).contains_key(assign_root_name(node))
    &&& !crate::interp::var_map_contents(c.globals)[assign_root_name(node)].is_const
    &&& node.rhs.expr@.len() == 1
    &&& node.rhs.expr@[0] is Value
}

/// Compiles an assignment. A single-name target stores into its slot; a
/// longer chain compiles the access path and rewrites its final member read
/// into a write. A compound operator reads the target, applies the
/// operation to it and the right-hand side, and stores back. An unknown
/// root, a constant target and a global written from a function body are
/// rejected with their own kinds; a literal store into a known global owes
/// success and emits exactly the literal, its cast and the store.
#[verifier::loop_isolation(false)]
pub(crate) fn compile_assign(ctx: &mut Compiler, node: NodeAssign) -> (r: Result<
    Vec<Bytecode>,
    ChalError,
>)
    ensures
        r matches Ok(code) ==> plain_code(code@),
        final(ctx).functions == old(ctx).functions,
        final(ctx).globals_id_counter == old(ctx).globals_id_counter,
        final(ctx).namespaces == old(ctx).namespaces,
        (assign_root_is_var(node) && !crate::interp::var_map_contents(
            old(ctx).locals,
        ).contains_key(assign_root_name(node)) && old(ctx).current_func is None
            && !crate::interp::var_map_contents(old(ctx).globals).contains_key(
            assign_root_name(node),
        )) ==> (r matches Err(e) && e matches ChalError::Compile(ce)
            && ce.kind is UnknownVariable),
        (assign_root_is_var(node) && crate::interp::var_map_contents(
            old(ctx).locals,
        ).contains_key(assign_root_name(node)) && crate::interp::var_map_contents(
            old(ctx).locals,
        )[assign_root_name(node)].is_const) ==> (r matches Err(e) && e matches
            ChalError::Compile(ce) && ce.kind is MutatingConstant),
        (assign_root_is_var(node) && !crate::interp::var_map_contents(
            old(ctx).locals,
        ).contains_key(assign_root_name(node)) && old(ctx).current_func is None
            && crate::interp::var_map_contents(old(ctx).globals).contains_key(
            assign_root_name(node),
        ) && crate::interp::var_map_contents(old(ctx).globals)[
            assign_root_name(node)
        ].is_const) ==> (r matches Err(e) && e matches ChalError::Compile(ce)
            && ce.kind is MutatingConstant),
        (assign_root_is_var(node) && !crate::interp::var_map_contents(
            old(ctx).locals,
        ).contains_key(assign_root_name(node)) && old(ctx).current_func is Some
            && !crate::interp::current_func_has_arg(*old(ctx), assign_root_name(node))
            && crate::interp::var_map_contents(old(ctx).globals).contains_key(
            assign_root_name(node),
        )) ==> (r matches Err(e) && e matches ChalError::Compile(ce)
            && ce.kind is MutatingExternalState),
        (literal_global_assign(node, *old(ctx)) && Type::spec_verify_cast(
            crate::interp::var_map_contents(old(ctx).globals)[assign_root_name(node)].ty,
            crate::codegen::spec_value_type(node.rhs.expr@[0]->Value_0),
        ) is Some) ==> (r matches Ok(code) && (crate::codegen::plain_value_item(
            node.rhs.expr@[0],
        ) ==> code@ == crate::codegen::item_opcodes(node.rhs.expr@[0])
            + Type::spec_verify_cast(
            crate::interp::var_map_contents(old(ctx).globals)[assign_root_name(node)].ty,
            crate::codegen::spec_value_type(node.rhs.expr@[0]->Value_0),
        ).unwrap() + seq![
            Bytecode::SetGlobal(
                crate::interp::var_map_contents(old(ctx).globals)[
                    assign_root_name(node)
                ].id,
            ),
        ])),
    decreases node, 3int,
{
    if node.lhs.resolution.len() == 0 {
        return Err(ChalError::internal("compile_assign(): empty assignment target"));
    }
    let root_name: String = match &node.lhs.resolution[0] {
        NodeAttribute::VarCall(var) => var.name.clone(),
        NodeAttribute::FuncCall(_) => {
            return Err(ChalError::internal("compile_assign(): assignment to a call"));
        },
    };

    // the root must name a known variable; a function body may write only
    // its locals and arguments, never a global
    let is_const: bool;
    let root_id: usize;
    let mut is_global = false;
    match ctx.get_local(&root_name) {
        Some((id, _, c)) => {
            root_id = id;
            is_const = c;
        },
        None => match ctx.current_func_arg(&root_name) {
            Some((id, _)) => {
                root_id = id;
                is_const = false;
            },
            None => {
                if ctx.current_func.is_some() {
                    if matches!(ctx.get_global(&root_name), Option::Some(_)) {
                        return Err(
                            ChalError::compile_err(
                                CompileErrorKind::MutatingExternalState,
                                node.lhs.span,
                            ),
                        );
                    }
                    return Err(
                        ChalError::compile_err(
                            CompileErrorKind::UnknownVariable(root_name),
                            node.lhs.span,
                        ),
                    );
                }
                match ctx.get_global(&root_name) {
                    Some((id, _, c)) => {
                        root_id = id;
                        is_const = c;
                        is_global = true;
                    },
                    None => {
                        return Err(
                            ChalError::compile_err(
                                CompileErrorKind::UnknownVariable(root_name),
                                node.lhs.span,
                            ),
                        );
                    },
                }
            },
        },
    }
    if is_const {
        return Err(ChalError::compile_err(CompileErrorKind::MutatingConstant, node.lhs.span));
    }

    let mut set_instr: Bytecode = if is_global {
        Bytecode::SetGlobal(root_id)
    } else {
        Bytecode::SetLocal(root_id)
    };

    let mut code = Vec::<Bytecode>::new();
    let lhs_ty: Type;
    if node.lhs.resolution.len() > 1 {
        let (mut chain_code, chain_ty) = compile_resolution(ctx, &node.lhs)?;
        lhs_ty = chain_ty;
        let ghost g_chain = chain_code@;
        match chain_code.pop() {
            Some(Bytecode::GetAttr(attr_id)) => {
                set_instr = Bytecode::SetAttr(attr_id);
            },
            _ => {
                return Err(
                    ChalError::internal(
                        "compile_assign(): attribute chain does not end in a member read",
                    ),
                );
            },
        }
        proof {
            assert forall|i: int| 0 <= i < chain_code@.len() implies match #[trigger] chain_code@[i] {
                Bytecode::If(_) => false,
                Bytecode::Jmp(_) => false,
                Bytecode::TryScope(_) => false,
                Bytecode::CatchJmp(_) => false,
                Bytecode::Nop => false,
                _ => true,
            } by {
                assert(chain_code@[i] == g_chain[i]);
            }
        }
        code.append(&mut chain_code);
    } else {
        let (_, t) = compile_resolution(ctx, &node.lhs)?;
        lhs_ty = t;
    }

    let (mut rhs_code, rhs_ty) = compile_expr(ctx, &node.rhs)?;

    match node.opr {
        AssignOprType::Eq => {
            code.append(&mut rhs_code);
            verify_into(lhs_ty, rhs_ty, &mut code, node.rhs.span)?;
        },
        opr => {
            // a compound assignment reads the target, applies the operator
            // to it and the right-hand side, and stores the result
            let (mut read_code, read_ty) = compile_resolution(ctx, &node.lhs)?;
            code.append(&mut read_code);
            code.append(&mut rhs_code);
            let bin = match opr {
                AssignOprType::AddEq => BinOprType::Add,
                AssignOprType::SubEq => BinOprType::Sub,
                AssignOprType::MulEq => BinOprType::Mul,
                AssignOprType::DivEq => BinOprType::Div,
                _ => BinOprType::Mod,
            };
            let result_ty = bin_opr_result(bin, &read_ty, &rhs_ty, node.rhs.span)?;
            match bin {
                BinOprType::Add => code.push(Bytecode::Add),
                BinOprType::Sub => code.push(Bytecode::Sub),
                BinOprType::Mul => code.push(Bytecode::Mul),
                BinOprType::Div => code.push(Bytecode::Div),
                _ => code.push(Bytecode::Mod),
            }
            verify_into(lhs_ty, result_ty, &mut code, node.rhs.span)?;
        },
    }

    code.push(set_instr);
    proof {
        if literal_global_assign(node, *old(ctx)) && crate::codegen::plain_value_item(
            node.rhs.expr@[0],
        ) {
            let items = node.rhs.expr@;
            assert(items.drop_last() =~= Seq::<NodeExprInner>::empty());
            assert(items.last() == items[0]);
            assert(crate::codegen::literal_opcode_image(Seq::<NodeExprInner>::empty())
                =~= Seq::<Bytecode>::empty());
            assert(crate::codegen::literal_opcode_image(items)
                == crate::codegen::literal_opcode_image(items.drop_last())
                + crate::codegen::item_opcodes(items.last()));
            let stored = crate::interp::var_map_contents(old(ctx).globals)[
                assign_root_name(node)
            ];
            crate::types::lemma_verify_cast_like(
                lhs_ty,
                stored.ty,
                crate::codegen::spec_value_type(items[0]->Value_0),
            );
            assert(code@ =~= crate::codegen::item_opcodes(items[0]) + Type::spec_verify_cast(
                stored.ty,
                crate::codegen::spec_value_type(items[0]->Value_0),
            ).unwrap() + seq![Bytecode::SetGlobal(stored.id)]);
        }
    }
    Ok(code)
}

/// Compiles a return statement: outside a function it is rejected; a bare
/// return in a void function unwinds without a value; otherwise the value
/// is verified against the declared return type. The emitted run ends in a
/// return instruction.
fn compile_ret(ctx: &mut Compiler, node: NodeRetStmnt) -> (r: Result<Vec<Bytecode>, ChalError>)
    ensures
        r matches Ok(code) ==> (code@.len() >= 1 && (code@.last() is Return
            || code@.last() is ReturnVoid) && plain_code(code@.drop_last()) && !(code@.last()
            is Nop) && !(code@.last() is Jmp) && !(code@.last() is If) && !(code@.last()
            is TryScope) && !(code@.last() is CatchJmp)),
        old(ctx).current_func is None ==> (r matches Err(e) && e matches ChalError::Compile(ce)
            && ce.kind is ReturnOutsideFunc),
        ((old(ctx).current_func matches Some(i) && i < old(ctx).functions@.len()
            && old(ctx).functions@[i as int].ret_type is Void) && node.value.expr@.len() == 0)
            ==> (r matches Ok(code) && code@ == seq![Bytecode::ReturnVoid]),
        ((old(ctx).current_func matches Some(i) && i < old(ctx).functions@.len() && !(old(
            ctx,
        ).functions@[i as int].ret_type is Void)) && node.value.expr@.len() == 0) ==> (r matches
            Err(e) && e matches ChalError::Compile(ce) && ce.kind is InvalidType),
        final(ctx).functions == old(ctx).functions,
        final(ctx).globals_id_counter == old(ctx).globals_id_counter,
        final(ctx).namespaces == old(ctx).namespaces,
    decreases node, 3int,
{
    let (exp_type, _) = match ctx.current_func_info() {
        Some(info) => info,
        None => {
            return Err(ChalError::compile_err(CompileErrorKind::ReturnOutsideFunc, node.span));
        },
    };

    if node.value.expr.len() == 0 {
        if matches!(&exp_type, Type::Void) {
            let code = vec![Bytecode::ReturnVoid];
            proof {
                assert(code@.drop_last() =~= Seq::<Bytecode>::empty());
                assert(code@ =~= seq![Bytecode::ReturnVoid]);
            }
            return Ok(code);
        }
        return Err(
            ChalError::compile_err(
                CompileErrorKind::InvalidType(exp_type, Type::Void),
                node.span,
            ),
        );
    }

    let (mut code, recv_type) = compile_expr(ctx, &node.value)?;
    verify_into(exp_type, recv_type, &mut code, node.value.span)?;
    let ghost before = code@;
    code.push(Bytecode::Return);
    proof {
        assert(code@.drop_last() =~= before);
    }
    Ok(code)
}

/// Compiles a throw statement: rejected inside a catch block, and inside a
/// function unless the function is unsafe or a try block guards it; the
/// thrown value must be a string.
fn compile_throw(ctx: &mut Compiler, node: NodeThrow) -> (r: Result<Vec<Bytecode>, ChalError>)
    ensures
        r matches Ok(code) ==> (code@.len() >= 1 && plain_code(code@.drop_last()) && !(
        code@.last() is Nop) && !(code@.last() is Jmp) && !(code@.last() is If) && !(code@.last()
            is TryScope) && !(code@.last() is CatchJmp)),
        old(ctx).safety_scope == SafetyScope::Safe ==> (r matches Err(e) && e matches
            ChalError::Compile(ce) && ce.kind is UnsafeOpInSafeBlock),
        (old(ctx).safety_scope == SafetyScope::Normal && (old(ctx).current_func matches Some(i)
            && i < old(ctx).functions@.len()) && !crate::interp::current_func_unsafe(*old(ctx)))
            ==> (r matches Err(e) && e matches ChalError::Compile(ce)
            && ce.kind is ThrowInSafeFunc),
        (old(ctx).safety_scope == SafetyScope::Guarded && node.0.expr@.len() == 1
            && node.0.expr@[0] is Value && !(crate::codegen::spec_value_type(
            node.0.expr@[0]->Value_0,
        ) is Str)) ==> (r matches Err(e) && e matches ChalError::Compile(ce)
            && ce.kind is InvalidType),
        (old(ctx).safety_scope == SafetyScope::Guarded && node.0.expr@.len() == 1
            && node.0.expr@[0] is Value && node.0.expr@[0]->Value_0 is Str) ==> (r matches Ok(
            code,
        ) && code@.len() == 2 && code@[0] is ConstS && code@[0]->ConstS_0@
            == node.0.expr@[0]->Value_0->Str_0@ && code@[1] == Bytecode::ThrowException),
        final(ctx).functions == old(ctx).functions,
        final(ctx).globals_id_counter == old(ctx).globals_id_counter,
        final(ctx).namespaces == old(ctx).namespaces,
    decreases node, 3int,
{
    let NodeThrow(exception) = node;

    if matches!(ctx.safety_scope, SafetyScope::Safe) {
        return Err(
            ChalError::compile_err(CompileErrorKind::UnsafeOpInSafeBlock, exception.span),
        );
    }
    match ctx.current_func_info() {
        Some((_, is_unsafe)) => {
            if !is_unsafe && !matches!(ctx.safety_scope, SafetyScope::Guarded) {
                return Err(
                    ChalError::compile_err(CompileErrorKind::ThrowInSafeFunc, exception.span),
                );
            }
        },
        None => {},
    }

    let (mut code, exc_ty) = compile_expr(ctx, &exception)?;
    if !type_eq(&exc_ty, &Type::Str) {
        return Err(
            ChalError::compile_err(
                CompileErrorKind::InvalidType(Type::Str, exc_ty),
                exception.span,
            ),
        );
    }
    let ghost before = code@;
    code.push(Bytecode::ThrowException);
    proof {
        assert(code@.drop_last() =~= before);
    }
    Ok(code)
}

/// A while loop whose condition is one boolean literal and whose body is
/// one break statement: the smallest loop, whose exact emission the
/// contract pins down.
pub open spec fn while_break_scenario(node: NodeWhileLoop) -> bool {
    &&& node.condition.expr@.len() == 1
    &&& node.condition.expr@[0] is Value
    &&& node.condition.expr@[0]->Value_0 is Bool
    &&& node.body@.len() == 1
    &&& node.body@[0] is BreakStmnt
}

/// Compiles a while loop: the condition, a conditional skip over the body,
/// the body, and the backward jump; every recorded break placeholder is
/// patched into a forward jump out of the loop, so no placeholder remains.
#[verifier::loop_isolation(false)]
pub(crate) fn compile_while(ctx: &mut Compiler, node: NodeWhileLoop) -> (r: Result<
    Vec<Bytecode>,
    ChalError,
>)
    ensures
        r matches Ok(code) ==> (code_ok(code@, 0) && no_nops(code@)),
        final(ctx).functions == old(ctx).functions,
        final(ctx).globals_id_counter == old(ctx).globals_id_counter,
        final(ctx).namespaces == old(ctx).namespaces,
        while_break_scenario(node) ==> (r matches Ok(code) && code@ == seq![
            Bytecode::ConstB(node.condition.expr@[0]->Value_0->Bool_0),
            Bytecode::If(2),
            Bytecode::Jmp(3 as isize),
            Bytecode::Jmp((-5) as isize),
        ]),
    decreases node, 3int,
{
    let ghost scenario = while_break_scenario(node);
    let (mut cond, cond_ty) = compile_expr(ctx, &node.condition)?;
    verify_into(Type::Bool, cond_ty, &mut cond, node.condition.span)?;
    proof {
        if scenario {
            let items = node.condition.expr@;
            assert(items.drop_last() =~= Seq::<NodeExprInner>::empty());
            assert(items.last() == items[0]);
            assert(crate::codegen::literal_opcode_image(Seq::<NodeExprInner>::empty())
                =~= Seq::<Bytecode>::empty());
            assert(crate::codegen::literal_opcode_image(items)
                == crate::codegen::literal_opcode_image(items.drop_last())
                + crate::codegen::item_opcodes(items.last()));
            assert(cond@ =~= seq![Bytecode::ConstB(items[0]->Value_0->Bool_0)]);
        }
    }
    let c0 = cond.len();
    let body_base = add_len(c0, 1)?;
    let body_sc = compile_stmnts(ctx, node.body, true, body_base)?;
    let body_len = body_sc.code.len();
    let if_n = add_len(body_len, 1)?;

    let ghost g_cond = cond@;
    let ghost g_body = body_sc.code@;
    let ghost g_brks = body_sc.brks@;

    let mut code = cond;
    code.push(Bytecode::If(if_n));
    let mut body_code = body_sc.code;
    code.append(&mut body_code);
    let t_pre = code.len();
    let t_len = add_len(t_pre, 1)?;
    if t_len > (isize::MAX as usize) - 1 {
        return Err(ChalError::internal("emitted bytecode exceeds the machine bounds"));
    }
    let back: isize = -((t_len + 1) as isize);
    code.push(Bytecode::Jmp(back));

    proof {
        let total = t_len as int;
        assert(code@ =~= g_cond + seq![Bytecode::If(if_n)] + g_body + seq![Bytecode::Jmp(back)]);
        lemma_plain_placed(g_cond, 0, 0, total);
        assert(placed_ok(seq![Bytecode::If(if_n)], 0, c0 as int, total)) by {
            assert(placed_instr_ok(Bytecode::If(if_n), 0, c0 as int, total));
        }
        lemma_placed_embed(g_body, body_base as int, 0, (c0 + 1) as int, total);
        assert(placed_ok(seq![Bytecode::Jmp(back)], 0, total - 1, total)) by {
            assert(placed_instr_ok(Bytecode::Jmp(back), 0, total - 1, total));
        }
        lemma_placed_concat(g_cond, seq![Bytecode::If(if_n)], 0, 0, total);
        lemma_placed_concat(g_cond + seq![Bytecode::If(if_n)], g_body, 0, 0, total);
        lemma_placed_concat(
            g_cond + seq![Bytecode::If(if_n)] + g_body,
            seq![Bytecode::Jmp(back)],
            0,
            0,
            total,
        );
        assert(code_ok(code@, 0));
    }

    // patch the break placeholders into jumps past the loop's end
    let brks = body_sc.brks;
    let mut k: usize = 0;
    while k < brks.len()
        invariant
            code@.len() == t_len,
            code_ok(code@, 0),
            forall|i: int|
                0 <= i < code@.len() && (#[trigger] code@[i]) is Nop ==> (exists|j: int|
                    k <= j < g_brks.len() && body_base + g_brks[j] == i),
            brks@ == g_brks,
            breaks_bounded(g_brks, body_len as int),
            scenario ==> (g_brks =~= seq![0usize] && body_base == 2 && t_len == 4 && (k == 0
                && code@ =~= seq![
                Bytecode::ConstB(node.condition.expr@[0]->Value_0->Bool_0),
                Bytecode::If(2),
                Bytecode::Nop,
                Bytecode::Jmp((-5) as isize),
            ] || k == 1 && code@ =~= seq![
                Bytecode::ConstB(node.condition.expr@[0]->Value_0->Bool_0),
                Bytecode::If(2),
                Bytecode::Jmp(3 as isize),
                Bytecode::Jmp((-5) as isize),
            ])),
        decreases brks@.len() - k,
    {
        let p_rel = brks[k];
        proof {
            assert(p_rel < body_len);
        }
        let p = body_base + p_rel;
        let d: usize = t_len + 1 - p;
        let ghost g_before = code@;
        code.set(p, Bytecode::Jmp(d as isize));
        proof {
            assert(placed_instr_ok(Bytecode::Jmp(d as isize), 0, p as int, t_len as int));
            assert forall|i: int| 0 <= i < code@.len() implies placed_instr_ok(
                #[trigger] code@[i],
                0,
                i,
                t_len as int,
            ) by {
                if i != p {
                    assert(code@[i] == g_before[i]);
                }
            }
        }
        k = k + 1;
    }
    proof {
        assert forall|i: int| 0 <= i < code@.len() implies !((#[trigger] code@[i]) is Nop) by {}
    }
    Ok(code)
}

/// Compiles a for loop by desugaring the iterator protocol: the iterable's
/// The shape a compiled for loop takes: the iterator initialisation, called
/// and stored; then the guarded round, a `TryScope` over the `__next__!`
/// call and the loop variable's binding with a `CatchJmp` past the body's
/// end; the body; and the jump back to the round's start.
pub open spec fn for_loop_layout(s: Seq<Bytecode>, il: usize, bl: usize) -> bool {
    &&& il >= 2
    &&& s.len() == il + bl + 7
    &&& s[il - 2] is CallFunc
    &&& s[il - 1] is SetGlobal
    &&& s[il as int] == Bytecode::TryScope(4)
    &&& s[il + 1] is GetGlobal
    &&& s[il + 2] is CallFunc
    &&& s[il + 3] is SetLocal
    &&& s[il + 4] == Bytecode::CatchJmp(1)
    &&& s[il + 5] == Bytecode::Jmp((bl + 1) as isize)
    &&& s[il + 6 + bl] == Bytecode::Jmp((-((bl + 8) as isize)) as isize)
}

/// Whether a block takes the for-loop shape for some initialisation and
/// body lengths.
pub open spec fn has_for_loop_layout(s: Seq<Bytecode>) -> bool {
    exists|il: usize, bl: usize| #[trigger] for_loop_layout(s, il, bl)
}

/// `__iter__` result is stored in a hidden global; each round, a guarded
/// `__next__!` call assigns the loop variable or, when it throws, jumps out
/// past the body. No placeholder remains after compilation.
#[verifier::loop_isolation(false)]
#[verifier::rlimit(60)]
pub(crate) fn compile_for(ctx: &mut Compiler, node: NodeForLoop) -> (r: Result<
    Vec<Bytecode>,
    ChalError,
>)
    ensures
        r matches Ok(code) ==> (code_ok(code@, 0) && no_nops(code@)),
        r matches Ok(code) ==> has_for_loop_layout(code@),
        final(ctx).functions == old(ctx).functions,
        final(ctx).globals_id_counter == old(ctx).globals_id_counter,
        final(ctx).namespaces == old(ctx).namespaces,
        (node.iterable.expr@.len() == 1 && node.iterable.expr@[0] is Value
            && !crate::interp::var_map_contents(old(ctx).locals).contains_key(node.iter.name@)
            && old(ctx).current_func is None && (forall|i: int|
            0 <= i < old(ctx).functions@.len() ==> !crate::interp::sig_matches(
                #[trigger] old(ctx).functions@[i],
                "__iter__"@,
                seq![crate::codegen::spec_value_type(node.iterable.expr@[0]->Value_0)],
                Some(
                    crate::codegen::spec_value_type(
                        node.iterable.expr@[0]->Value_0,
                    ).spec_as_class(),
                ),
            ))) ==> (r matches Err(e) && e matches ChalError::Compile(ce)
            && ce.kind is MethodNotImplemented),
    decreases node, 3int,
{
    if matches!(ctx.get_local(&node.iter.name), Option::Some(_)) {
        return Err(
            ChalError::compile_err(CompileErrorKind::RedefiningVariable, node.iter.span),
        );
    }
    if matches!(ctx.current_func_arg(&node.iter.name), Option::Some(_)) {
        return Err(
            ChalError::compile_err(CompileErrorKind::RedefiningVariable, node.iter.span),
        );
    }

    let iterable_ty = expr_type(ctx, &node.iterable)?;
    let iterable_class = iterable_ty.as_class();

    let mut iter_args = Vec::<Type>::new();
    iter_args.push(iterable_ty);
    let iter_fn = match ctx.get_function(&"__iter__".to_owned(), &iter_args, Some(
        &iterable_class,
    )) {
        Some(fidx) => fidx,
        None => {
            let method = iterable_class.concat("::__iter__()");
            return Err(
                ChalError::compile_err(
                    CompileErrorKind::MethodNotImplemented(method),
                    node.iterable.span,
                ),
            );
        },
    };
    let iter_gen_ty = ctx.functions[iter_fn].ret_type.clone();
    let iter_gen_class = iter_gen_ty.as_class();
    let iter_fn_id = ctx.functions[iter_fn].id;

    let mut next_args = Vec::<Type>::new();
    next_args.push(iter_gen_ty);
    let next_fn = match ctx.get_function(&"__next__!".to_owned(), &next_args, Some(
        &iter_gen_class,
    )) {
        Some(fidx) => fidx,
        None => {
            let method = iter_gen_class.concat("::__next__!()");
            return Err(
                ChalError::compile_err(
                    CompileErrorKind::MethodNotImplemented(method),
                    node.iterable.span,
                ),
            );
        },
    };
    let iterator_ty = ctx.functions[next_fn].ret_type.clone();
    let next_fn_id = ctx.functions[next_fn].id;

    // the loop variable and a hidden global for the iterator object
    let iter_var_id = ctx.locals_id_counter;
    ctx.locals_id_counter = if iter_var_id < usize::MAX {
        iter_var_id + 1
    } else {
        iter_var_id
    };
    let iter_name = node.iter.name.clone();
    ctx.set_local(
        node.iter.name,
        VarAnnotation { id: iter_var_id, ty: iterator_ty, is_const: false },
    );
    let iter_gen_id = ctx.globals_id_counter;
    ctx.globals_id_counter = if iter_gen_id < usize::MAX {
        iter_gen_id + 1
    } else {
        iter_gen_id
    };

    // let iterator = <iterable>.__iter__()
    let (mut init, _) = match compile_expr(ctx, &node.iterable) {
        Ok(compiled) => compiled,
        Err(e) => {
            ctx.remove_local(&iter_name);
            ctx.globals_id_counter = iter_gen_id;
            return Err(e);
        },
    };
    init.push(Bytecode::CallFunc(iter_fn_id));
    init.push(Bytecode::SetGlobal(iter_gen_id));

    // try: <loop-var> = iterator.__next__!() catch: jump out
    let header: usize = 6;
    let body_sc = match compile_stmnts(ctx, node.body, true, header) {
        Ok(sc) => sc,
        Err(e) => {
            ctx.remove_local(&iter_name);
            ctx.globals_id_counter = iter_gen_id;
            return Err(e);
        },
    };
    ctx.remove_local(&iter_name);
    ctx.globals_id_counter = iter_gen_id;
    let body_len = body_sc.code.len();

    let mut lp = Vec::<Bytecode>::new();
    lp.push(Bytecode::TryScope(4));
    lp.push(Bytecode::GetGlobal(iter_gen_id));
    lp.push(Bytecode::CallFunc(next_fn_id));
    lp.push(Bytecode::SetLocal(iter_var_id));
    lp.push(Bytecode::CatchJmp(1));
    let exit_n = add_len(body_len, 1)?;
    if exit_n > isize::MAX as usize {
        return Err(ChalError::internal("emitted bytecode exceeds the machine bounds"));
    }
    lp.push(Bytecode::Jmp(exit_n as isize));

    let ghost g_header = lp@;
    let ghost g_body = body_sc.code@;
    let ghost g_brks = body_sc.brks@;

    let mut body_code = body_sc.code;
    lp.append(&mut body_code);
    let t_pre = lp.len();
    let t_len = add_len(t_pre, 1)?;
    if t_len > (isize::MAX as usize) - 1 {
        return Err(ChalError::internal("emitted bytecode exceeds the machine bounds"));
    }
    let back: isize = -((t_len + 1) as isize);
    lp.push(Bytecode::Jmp(back));

    proof {
        let total = t_len as int;
        assert(lp@ =~= g_header + g_body + seq![Bytecode::Jmp(back)]);
        assert(placed_ok(g_header, 0, 0, total)) by {
            assert(g_header.len() == 6);
            assert(placed_instr_ok(g_header[0], 0, 0, total));
            assert(placed_instr_ok(g_header[1], 0, 1, total));
            assert(placed_instr_ok(g_header[2], 0, 2, total));
            assert(placed_instr_ok(g_header[3], 0, 3, total));
            assert(placed_instr_ok(g_header[4], 0, 4, total));
            assert(placed_instr_ok(g_header[5], 0, 5, total));
            assert(forall|i: int|
                0 <= i < g_header.len() ==> placed_instr_ok(
                    #[trigger] g_header[i],
                    0,
                    0 + i,
                    total,
                ));
        }
        lemma_placed_embed(g_body, header as int, 0, header as int, total);
        assert(placed_ok(seq![Bytecode::Jmp(back)], 0, total - 1, total)) by {
            assert(placed_instr_ok(Bytecode::Jmp(back), 0, total - 1, total));
        }
        lemma_placed_concat(g_header, g_body, 0, 0, total);
        lemma_placed_concat(g_header + g_body, seq![Bytecode::Jmp(back)], 0, 0, total);
        assert(code_ok(lp@, 0));
    }

    // patch the break placeholders into jumps past the loop's end
    let brks = body_sc.brks;
    let mut code = lp;
    let mut k: usize = 0;
    while k < brks.len()
        invariant
            code@.len() == t_len,
            code_ok(code@, 0),
            forall|i: int|
                0 <= i < code@.len() && (#[trigger] code@[i]) is Nop ==> (exists|j: int|
                    k <= j < g_brks.len() && header + g_brks[j] == i),
            brks@ == g_brks,
            breaks_bounded(g_brks, body_len as int),
            code@[0] == Bytecode::TryScope(4),
            code@[1] is GetGlobal,
            code@[2] is CallFunc,
            code@[3] is SetLocal,
            code@[4] == Bytecode::CatchJmp(1),
            code@[5] == Bytecode::Jmp(exit_n as isize),
            code@[t_len - 1] == Bytecode::Jmp(back),
        decreases brks@.len() - k,
    {
        let p_rel = brks[k];
        proof {
            assert(p_rel < body_len);
        }
        let p = header + p_rel;
        let d: usize = t_len + 1 - p;
        let ghost g_before = code@;
        code.set(p, Bytecode::Jmp(d as isize));
        proof {
            assert(placed_instr_ok(Bytecode::Jmp(d as isize), 0, p as int, t_len as int));
            assert forall|i: int| 0 <= i < code@.len() implies placed_instr_ok(
                #[trigger] code@[i],
                0,
                i,
                t_len as int,
            ) by {
                if i != p {
                    assert(code@[i] == g_before[i]);
                }
            }
        }
        k = k + 1;
    }
    proof {
        assert forall|i: int| 0 <= i < code@.len() implies !((#[trigger] code@[i]) is Nop) by {}
    }

    let mut result = init;
    let il_count = result.len();
    let ghost g_init = result@;
    let ghost g_loop = code@;
    let mut loop_code = code;
    result.append(&mut loop_code);
    proof {
        assert(result@ == g_init + g_loop);
        lemma_code_ok_concat(g_init, g_loop, 0);
        assert forall|i: int| 0 <= i < result@.len() implies !((#[trigger] result@[i]) is Nop) by {
            if i < g_init.len() {
                assert(result@[i] == g_init[i]);
            } else {
                assert(result@[i] == g_loop[i - g_init.len()]);
            }
        }
    }
    proof {
        let il = g_init.len() as int;
        assert(result@[il - 2] == g_init[il - 2]);
        assert(result@[il - 1] == g_init[il - 1]);
        assert(result@[il + 0] == g_loop[0]);
        assert(result@[il + 1] == g_loop[1]);
        assert(result@[il + 2] == g_loop[2]);
        assert(result@[il + 3] == g_loop[3]);
        assert(result@[il + 4] == g_loop[4]);
        assert(result@[il + 5] == g_loop[5]);
        assert(result@[il + 6 + body_len] == g_loop[t_len - 1]);
        assert(exit_n as isize == (body_len + 1) as isize);
        assert(back == (-((body_len + 8) as isize)) as isize);
        assert(g_init.len() == il_count);
        assert(for_loop_layout(result@, il_count, body_len));
        assert(has_for_loop_layout(result@));
    }
    Ok(result)
}

/// The shape a compiled try-catch block takes: the whole guarded body
/// under `TryScope`, a `CatchJmp` over the handler, then the binding of the
/// exception variable and the handler's body.
pub open spec fn try_catch_layout(s: Seq<Bytecode>, tl: usize, cl: usize) -> bool {
    &&& s.len() == tl + cl + 3
    &&& s[0] == Bytecode::TryScope(tl)
    &&& s[1 + tl] == Bytecode::CatchJmp(cl)
    &&& s[2 + tl] is SetLocal
}

/// Whether a block takes the try-catch shape for some body lengths.
pub open spec fn has_try_catch_layout(s: Seq<Bytecode>) -> bool {
    exists|tl: usize, cl: usize| #[trigger] try_catch_layout(s, tl, cl)
}

/// Compiles a try-catch block: the guarded body under `TryScope`, a
/// `CatchJmp` over the handler, then the binding of the exception variable
/// and the handler's body; the emitted run always takes that layout.
#[verifier::loop_isolation(false)]
#[verifier::rlimit(60)]
fn compile_try_catch(ctx: &mut Compiler, node: NodeTryCatch, in_loop: bool, base: usize) -> (r:
    Result<StmntCode, ChalError>)
    ensures
        r matches Ok(sc) ==> stmnt_code_ok(sc, base as int, in_loop),
        old(ctx).safety_scope == SafetyScope::Guarded ==> (r matches Err(e) && e matches
            ChalError::Compile(ce) && ce.kind is NestedTryCatch),
        final(ctx).safety_scope == (if old(ctx).safety_scope == SafetyScope::Guarded {
            old(ctx).safety_scope
        } else {
            SafetyScope::Normal
        }),
        r matches Ok(sc) ==> has_try_catch_layout(sc.code@),
        final(ctx).functions == old(ctx).functions,
        final(ctx).globals_id_counter == old(ctx).globals_id_counter,
        final(ctx).namespaces == old(ctx).namespaces,
    decreases node, 3int,
{
    if matches!(ctx.safety_scope, SafetyScope::Guarded) {
        return Err(ChalError::compile_err(CompileErrorKind::NestedTryCatch, node.try_span));
    }

    ctx.safety_scope = SafetyScope::Guarded;
    let try_base = match add_len(base, 1) {
        Ok(v) => v,
        Err(e) => {
            ctx.safety_scope = SafetyScope::Normal;
            return Err(e);
        },
    };
    let try_sc = match compile_stmnts(ctx, node.try_body, in_loop, try_base) {
        Ok(sc) => sc,
        Err(e) => {
            ctx.safety_scope = SafetyScope::Normal;
            return Err(e);
        },
    };
    let try_len = try_sc.code.len();

    ctx.safety_scope = SafetyScope::Safe;
    let exc_known = matches!(ctx.get_local(&node.exception_var.name), Option::Some(_))
        || matches!(ctx.current_func_arg(&node.exception_var.name), Option::Some(_)) || matches!(
        ctx.get_global(&node.exception_var.name),
        Option::Some(_),
    );
    if exc_known {
        ctx.safety_scope = SafetyScope::Normal;
        return Err(
            ChalError::compile_err(
                CompileErrorKind::RedefiningVariable,
                node.exception_var.span,
            ),
        );
    }
    let exc_id = ctx.locals_id_counter;
    ctx.locals_id_counter = if exc_id < usize::MAX {
        exc_id + 1
    } else {
        exc_id
    };
    let exc_name = node.exception_var.name.clone();
    ctx.set_local(
        node.exception_var.name,
        VarAnnotation { id: exc_id, ty: Type::Exception, is_const: false },
    );

    let catch_off = match add_len(try_len, 3) {
        Ok(v) => v,
        Err(e) => {
            ctx.remove_local(&exc_name);
            ctx.safety_scope = SafetyScope::Normal;
            return Err(e);
        },
    };
    let catch_base = match add_len(base, catch_off) {
        Ok(v) => v,
        Err(e) => {
            ctx.remove_local(&exc_name);
            ctx.safety_scope = SafetyScope::Normal;
            return Err(e);
        },
    };
    let catch_sc = match compile_stmnts(ctx, node.catch_body, in_loop, catch_base) {
        Ok(sc) => sc,
        Err(e) => {
            ctx.remove_local(&exc_name);
            ctx.safety_scope = SafetyScope::Normal;
            return Err(e);
        },
    };
    let catch_len = catch_sc.code.len();
    ctx.remove_local(&exc_name);
    ctx.safety_scope = SafetyScope::Normal;

    let ghost g_try = try_sc.code@;
    let ghost g_try_brks = try_sc.brks@;
    let ghost g_catch = catch_sc.code@;
    let ghost g_catch_brks = catch_sc.brks@;

    let catch_n = add_len(catch_len, 1)?;
    let total = add_len(catch_off, catch_n)?;

    let mut code = Vec::<Bytecode>::new();
    code.push(Bytecode::TryScope(try_len));
    let mut try_code = try_sc.code;
    code.append(&mut try_code);
    code.push(Bytecode::CatchJmp(catch_len));
    code.push(Bytecode::SetLocal(exc_id));
    let mut catch_code = catch_sc.code;
    code.append(&mut catch_code);

    let mut brks = Vec::<usize>::new();
    let mut k: usize = 0;
    let try_brks = try_sc.brks;
    while k < try_brks.len()
        invariant
            k <= try_brks@.len(),
            try_brks@ == g_try_brks,
            breaks_bounded(g_try_brks, try_len as int),
            brks@ =~= g_try_brks.take(k as int).map_values(|p: usize| (p + 1) as usize),
        decreases try_brks@.len() - k,
    {
        let p = try_brks[k];
        proof {
            assert(p < try_len);
        }
        brks.push(1 + p);
        k = k + 1;
        proof {
            assert(brks@ =~= g_try_brks.take(k as int).map_values(|p: usize| (p + 1) as usize));
        }
    }
    let mut k2: usize = 0;
    let catch_brks = catch_sc.brks;
    let ghost g_brks_mid = brks@;
    while k2 < catch_brks.len()
        invariant
            k2 <= catch_brks@.len(),
            catch_brks@ == g_catch_brks,
            breaks_bounded(g_catch_brks, catch_len as int),
            brks@ =~= g_brks_mid + g_catch_brks.take(k2 as int).map_values(
                |p: usize| (p + catch_off) as usize,
            ),
        decreases catch_brks@.len() - k2,
    {
        let p = catch_brks[k2];
        proof {
            assert(p < catch_len);
        }
        brks.push(catch_off + p);
        k2 = k2 + 1;
        proof {
            assert(brks@ =~= g_brks_mid + g_catch_brks.take(k2 as int).map_values(
                |p: usize| (p + catch_off) as usize,
            ));
        }
    }

    proof {
        let t = total as int;
        assert(code@ =~= seq![Bytecode::TryScope(try_len)] + g_try + seq![
            Bytecode::CatchJmp(catch_len),
            Bytecode::SetLocal(exc_id),
        ] + g_catch);
        assert(placed_ok(seq![Bytecode::TryScope(try_len)], base as int, 0, t)) by {
            assert(placed_instr_ok(Bytecode::TryScope(try_len), base as int, 0, t));
        }
        lemma_placed_embed(g_try, try_base as int, base as int, 1, t);
        assert(placed_ok(
            seq![Bytecode::CatchJmp(catch_len), Bytecode::SetLocal(exc_id)],
            base as int,
            (1 + try_len) as int,
            t,
        )) by {
            assert(placed_instr_ok(
                Bytecode::CatchJmp(catch_len),
                base as int,
                (1 + try_len) as int,
                t,
            ));
            assert(placed_instr_ok(
                Bytecode::SetLocal(exc_id),
                base as int,
                (2 + try_len) as int,
                t,
            ));
        }
        lemma_placed_embed(g_catch, catch_base as int, base as int, catch_off as int, t);
        lemma_placed_concat(seq![Bytecode::TryScope(try_len)], g_try, base as int, 0, t);
        lemma_placed_concat(
            seq![Bytecode::TryScope(try_len)] + g_try,
            seq![Bytecode::CatchJmp(catch_len), Bytecode::SetLocal(exc_id)],
            base as int,
            0,
            t,
        );
        lemma_placed_concat(
            seq![Bytecode::TryScope(try_len)] + g_try + seq![
                Bytecode::CatchJmp(catch_len),
                Bytecode::SetLocal(exc_id),
            ],
            g_catch,
            base as int,
            0,
            t,
        );
        assert(code_ok(code@, base as int));

        // every placeholder lies in one body and is recorded, shifted
        assert forall|i: int|
            0 <= i < code@.len() && (#[trigger] code@[i]) is Nop implies brks@.contains(
            i as usize,
        ) by {
            if 1 <= i < 1 + try_len {
                assert(code@[i] == g_try[i - 1]);
                assert(g_try_brks.contains((i - 1) as usize));
                let j = choose|j: int|
                    0 <= j < g_try_brks.len() && g_try_brks[j] == (i - 1) as usize;
                assert(brks@[j] == (g_try_brks[j] + 1) as usize);
                assert(brks@.contains(i as usize));
            } else if catch_off <= i < catch_off + catch_len {
                assert(code@[i] == g_catch[i - catch_off]);
                assert(g_catch_brks.contains((i - catch_off) as usize));
                let j = choose|j: int|
                    0 <= j < g_catch_brks.len() && g_catch_brks[j] == (i - catch_off) as usize;
                assert(brks@[g_brks_mid.len() + j] == (g_catch_brks[j] + catch_off) as usize);
                assert(brks@.contains(i as usize));
            }
        }
        assert(breaks_bounded(brks@, code@.len() as int)) by {
            assert(forall|j: int|
                0 <= j < brks@.len() ==> (#[trigger] brks@[j]) < code@.len());
        }
        if !in_loop {
            assert(g_try_brks.len() == 0);
            assert(g_catch_brks.len() == 0);
            assert(brks@.len() == 0);
        }
        let whole = seq![Bytecode::TryScope(try_len)] + g_try + seq![
            Bytecode::CatchJmp(catch_len),
            Bytecode::SetLocal(exc_id),
        ] + g_catch;
        assert(code@ =~= whole);
        assert(whole.len() == try_len + catch_len + 3);
        assert(whole[0] == Bytecode::TryScope(try_len));
        assert((seq![Bytecode::TryScope(try_len)] + g_try).len() == 1 + try_len);
        assert(whole[1 + try_len] == (seq![
            Bytecode::CatchJmp(catch_len),
            Bytecode::SetLocal(exc_id),
        ] + g_catch)[0]);
        assert(whole[2 + try_len] == (seq![
            Bytecode::CatchJmp(catch_len),
            Bytecode::SetLocal(exc_id),
        ] + g_catch)[1]);
        assert(has_try_catch_layout(code@)) by {
            assert(try_catch_layout(code@, try_len, catch_len));
        }
    }

    Ok(StmntCode { code, brks })
}

/// Compiles an if chain. Each conditional branch skips its body when the
/// condition fails; after every body but the last, a forward jump moves to
/// the chain's end, so exactly one branch's effect remains. The assembled
/// layout is validated against the block contract before it is returned.
#[verifier::loop_isolation(false)]
fn compile_if(ctx: &mut Compiler, node: NodeIfStmnt, in_loop: bool, base: usize) -> (r: Result<
    StmntCode,
    ChalError,
>)
    ensures
        r matches Ok(sc) ==> stmnt_code_ok(sc, base as int, in_loop),
        (node.condition.expr@.len() == 1 && node.condition.expr@[0] is Value
            && node.condition.expr@[0]->Value_0 is Bool && node.branches@.len() == 0
            && node.body@.len() == 0 && base <= usize::MAX - 2) ==> (r matches Ok(sc)
            && sc.code@ == seq![
            Bytecode::ConstB(node.condition.expr@[0]->Value_0->Bool_0),
            Bytecode::If(0),
        ] && sc.brks@.len() == 0),
        final(ctx).functions == old(ctx).functions,
        final(ctx).globals_id_counter == old(ctx).globals_id_counter,
        final(ctx).namespaces == old(ctx).namespaces,
    decreases node, 3int,
{
    let ghost scenario = node.condition.expr@.len() == 1 && node.condition.expr@[0] is Value
        && node.condition.expr@[0]->Value_0 is Bool && node.branches@.len() == 0
        && node.body@.len() == 0 && base <= usize::MAX - 2;
    let ghost bval = node.condition.expr@[0]->Value_0->Bool_0;
    // first pass: compile every branch in order, bookkeeping each one's
    // start offset inside the chain
    let (mut if_cond, cond_ty) = compile_expr(ctx, &node.condition)?;
    proof {
        if scenario {
            let e = node.condition.expr@;
            assert(crate::codegen::plain_value_item(e[0]));
            assert(e.drop_last() =~= Seq::<crate::ast::NodeExprInner>::empty());
            assert(crate::codegen::literal_opcode_image(Seq::<crate::ast::NodeExprInner>::empty())
                =~= Seq::<Bytecode>::empty());
            assert(e.last() == e[0]);
            assert(crate::codegen::literal_opcode_image(e) =~= seq![Bytecode::ConstB(bval)]);
            assert(if_cond@ == seq![Bytecode::ConstB(bval)]);
            assert(cond_ty == Type::Bool);
        }
    }
    let ghost cond_before_cast = if_cond@;
    verify_into(Type::Bool, cond_ty, &mut if_cond, node.condition.span)?;
    proof {
        if scenario {
            assert(cond_before_cast + Seq::<Bytecode>::empty() =~= cond_before_cast);
            assert(if_cond@ == seq![Bytecode::ConstB(bval)]);
        }
    }
    let has_branches = node.branches.len() > 0;

    let c0 = if_cond.len();
    let body_off = add_len(c0, 1)?;
    let body_base = add_len(base, body_off)?;
    let body_sc = compile_stmnts(ctx, node.body, in_loop, body_base)?;

    let mut off = add_len(body_off, body_sc.code.len())?;
    if has_branches {
        off = add_len(off, 1)?;
    }

    let mut segs_cond = Vec::<Option<Vec<Bytecode>>>::new();
    let mut segs_body = Vec::<Vec<Bytecode>>::new();
    let mut segs_brks = Vec::<Vec<usize>>::new();
    segs_cond.push(Some(if_cond));
    segs_body.push(body_sc.code);
    segs_brks.push(body_sc.brks);

    let mut branches = node.branches;
    let ghost mut consumed_b: int = 0;
    while branches.len() > 0
        invariant
            branches@ == node.branches@.skip(consumed_b),
            0 <= consumed_b <= node.branches@.len(),
            ctx.functions == old(ctx).functions,
            ctx.globals_id_counter == old(ctx).globals_id_counter,
            ctx.namespaces == old(ctx).namespaces,
            segs_cond@.len() == segs_body@.len(),
            segs_brks@.len() == segs_body@.len(),
            scenario ==> (segs_cond@.len() == 1 && (segs_cond@[0] matches Some(c) && c@ == seq![
                Bytecode::ConstB(bval),
            ]) && segs_body@[0]@.len() == 0 && segs_brks@[0]@.len() == 0 && off == 2),
        decreases branches@.len(),
    {
        let branch = branches.remove(0);
        proof {
            assert(branch == node.branches@[consumed_b]);
            assert(branches@ =~= node.branches@.skip(consumed_b + 1));
        }
        let is_last = branches.len() == 0;
        match branch {
            NodeIfBranch::Elif(elif) => {
                proof {
                    assert(decreases_to!(node => node.branches));
                    assert(decreases_to!(node.branches => node.branches@));
                    assert(decreases_to!(node.branches@ => node.branches@[consumed_b]));
                    assert(decreases_to!(node.branches@[consumed_b] => node.branches@[consumed_b]->Elif_0));
                    assert(node.branches@[consumed_b]->Elif_0 == elif);
                    assert(decreases_to!(elif => elif.body));
                    assert(decreases_to!(node => elif.body));
                }
                let (mut e_cond, e_ty) = compile_expr(ctx, &elif.condition)?;
                verify_into(Type::Bool, e_ty, &mut e_cond, elif.condition.span)?;
                let ec = e_cond.len();
                let e_body_off = add_len(off, add_len(ec, 1)?)?;
                let e_base = add_len(base, e_body_off)?;
                let e_sc = compile_stmnts(ctx, elif.body, in_loop, e_base)?;
                off = add_len(e_body_off, e_sc.code.len())?;
                if !is_last {
                    off = add_len(off, 1)?;
                }
                segs_cond.push(Some(e_cond));
                segs_body.push(e_sc.code);
                segs_brks.push(e_sc.brks);
            },
            NodeIfBranch::Else(els) => {
                proof {
                    assert(decreases_to!(node => node.branches));
                    assert(decreases_to!(node.branches => node.branches@));
                    assert(decreases_to!(node.branches@ => node.branches@[consumed_b]));
                    assert(decreases_to!(node.branches@[consumed_b] => node.branches@[consumed_b]->Else_0));
                    assert(node.branches@[consumed_b]->Else_0 == els);
                    assert(decreases_to!(els => els.body));
                    assert(decreases_to!(node => els.body));
                }
                let e_base = add_len(base, off)?;
                let e_sc = compile_stmnts(ctx, els.body, in_loop, e_base)?;
                off = add_len(off, e_sc.code.len())?;
                segs_cond.push(None);
                segs_body.push(e_sc.code);
                segs_brks.push(e_sc.brks);
            },
        }
        proof {
            consumed_b = consumed_b + 1;
        }
    }
    let total = off;
    if total > isize::MAX as usize {
        return Err(ChalError::internal("emitted bytecode exceeds the machine bounds"));
    }

    // second pass: lay the segments out against the now-known end offset
    let mut code = Vec::<Bytecode>::new();
    let mut brks = Vec::<usize>::new();
    let n_segs = segs_body.len();
    let mut s: usize = 0;
    while s < n_segs
        invariant
            segs_cond@.len() == n_segs - s,
            segs_body@.len() == n_segs - s,
            segs_brks@.len() == n_segs - s,
            scenario ==> (s == 0 && code@ =~= Seq::<Bytecode>::empty() && brks@.len() == 0
                && (segs_cond@[0] matches Some(c) && c@ == seq![Bytecode::ConstB(bval)])
                && segs_body@[0]@.len() == 0 && segs_brks@[0]@.len() == 0 || s == 1 && code@
                =~= seq![Bytecode::ConstB(bval), Bytecode::If(0)] && brks@.len() == 0),
        decreases n_segs - s,
    {
        let is_last_seg = s == n_segs - 1;
        let seg_cond = segs_cond.remove(0);
        let mut seg_body = segs_body.remove(0);
        let seg_brks = segs_brks.remove(0);
        let b_len = seg_body.len();

        match seg_cond {
            Some(mut cond_code) => {
                code.append(&mut cond_code);
                let if_n = if is_last_seg {
                    b_len
                } else {
                    add_len(b_len, 1)?
                };
                code.push(Bytecode::If(if_n));
            },
            None => {},
        }
        let seg_body_off = code.len();
        code.append(&mut seg_body);
        let mut bk: usize = 0;
        while bk < seg_brks.len()
            invariant
                scenario ==> (seg_brks@.len() == 0 && brks@.len() == 0 && code@ =~= seq![
                    Bytecode::ConstB(bval),
                    Bytecode::If(0),
                ]),
            decreases seg_brks@.len() - bk,
        {
            let p = seg_brks[bk];
            let abs = add_len(seg_body_off, p)?;
            brks.push(abs);
            bk = bk + 1;
        }
        if !is_last_seg {
            let jmp_pos = code.len();
            if jmp_pos >= total {
                return Err(ChalError::internal("compile_if(): branch layout out of bounds"));
            }
            let d: usize = total - jmp_pos - 1;
            code.push(Bytecode::Jmp(d as isize));
        }
        s = s + 1;
    }

    proof {
        if scenario {
            let cc = code@;
            assert(cc.len() == 2);
            assert(placed_instr_ok(cc[0], base as int, 0, 2));
            assert(placed_instr_ok(cc[1], base as int, 1, 2));
            assert forall|i: int| 0 <= i < cc.len() implies placed_instr_ok(
                #[trigger] cc[i],
                base as int,
                0 + i,
                cc.len() as int,
            ) by {
                if i == 0 {
                } else {
                    assert(i == 1);
                }
            }
            assert(code_ok(cc, base as int));
            assert(!(cc[0] is Nop) && !(cc[1] is Nop));
            assert(nops_at_breaks(cc, brks@));
            assert(breaks_bounded(brks@, cc.len() as int));
        }
    }
    // the layout is validated once, as a whole
    let sound = crate::codegen::check_code_ok(&code, base)
        && crate::codegen::check_nops_at_breaks(&code, &brks)
        && crate::codegen::check_breaks_bounded(&brks, code.len()) && (in_loop || brks.len()
        == 0);
    if !sound {
        return Err(ChalError::internal("compile_if(): branch layout out of bounds"));
    }
    Ok(StmntCode { code, brks })
}

} // verus!
