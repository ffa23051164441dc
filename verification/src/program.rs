use vstd::prelude::*;

use crate::ast::{NodeClass, NodeFuncDef, NodeProg, NodeStmnt};
use crate::bytecode::Bytecode;
use crate::codegen::{
    code_ok, compile_resolution, lemma_code_ok_base, lemma_code_ok_concat, lemma_plain_code_ok,
    no_nops,
};
use crate::compile::{
    compile_assign, compile_for, compile_stmnt, compile_stmnts, compile_var_def_global,
    compile_while,
};
use crate::error::{ChalError, CompileErrorKind};
use crate::interp::{ArgAnnotation, ClassAnnotation, Compiler, FuncAnnotation, MemberAnnotation};
use crate::lexer::Lexer;
use crate::types::Type;

verus! {

/// What registration leaves in the function table: the entry carries the
/// definition's name, arity, return type and namespace, the next fresh id,
/// and the unsafety its name spells.
pub open spec fn registered_matches(f: FuncAnnotation, node: NodeFuncDef, id: int) -> bool {
    &&& f.id == id
    &&& f.name == node.name
    &&& f.args@.len() == node.args@.len()
    &&& crate::types::type_like(f.ret_type, node.ret_type)
    &&& f.namespace == node.namespace
    &&& f.is_unsafe == (node.name@.len() > 0 && node.name@.last() == '!')
}

/// Compiles a function definition: rejects an overload collision and void
/// or exception-typed arguments, registers the function before its body so
/// recursion resolves, and emits `CreateFunc` followed by the body. A
/// non-void function must return on its own; a void one falls through into
/// an appended void return. The emitted run always holds a reachable
/// return instruction after `CreateFunc`.
#[verifier::loop_isolation(false)]
#[verifier::loop_isolation(false)]
pub fn compile_func_def(ctx: &mut Compiler, node: NodeFuncDef) -> (r: Result<
    Vec<Bytecode>,
    ChalError,
>)
    ensures
        ({
            let ns = (match node.namespace {
                Option::Some(n) => Option::<Seq<char>>::Some(n@),
                Option::None => Option::<Seq<char>>::None,
            });
            exists|i: int|
                0 <= i < old(ctx).functions@.len() && crate::interp::sig_matches(
                    #[trigger] old(ctx).functions@[i],
                    node.name@,
                    node.args@.map(|q: int, a: crate::ast::Arg| a.ty),
                    ns,
                )
        }) ==> (r matches Err(e) && e matches ChalError::Compile(ce)
            && ce.kind is OverwrittenFunction),
        r matches Ok(code) ==> (code@.len() >= 1 && code@[0] == Bytecode::CreateFunc(
            node.args@.len() as usize,
        ) && (exists|i: int|
            1 <= i < code@.len() && ((#[trigger] code@[i]) is Return
                || code@[i] is ReturnVoid)) && code_ok(code@, 0) && no_nops(code@)),
        r is Ok ==> (final(ctx).functions@.len() == old(ctx).functions@.len() + 1 && (forall|
            j: int,
        |
            0 <= j < old(ctx).functions@.len() ==> final(ctx).functions@[j] == old(
                ctx,
            ).functions@[j]) && registered_matches(
            final(ctx).functions@.last(),
            node,
            old(ctx).functions@.len() as int,
        ) && final(ctx).current_func is None && (forall|k: Seq<char>|
            !crate::interp::var_map_contents(final(ctx).locals).contains_key(k))),
        final(ctx).namespaces == old(ctx).namespaces,
{
    let argc = node.args.len();
    let mut arg_types = Vec::<Type>::new();
    let mut i: usize = 0;
    while i < node.args.len()
        invariant
            i <= node.args@.len(),
            arg_types@.len() == i,
            forall|q: int|
                0 <= q < i ==> crate::types::type_like(
                    #[trigger] arg_types@[q],
                    node.args@[q].ty,
                ),
        decreases node.args@.len() - i,
    {
        arg_types.push(node.args[i].ty.clone());
        i = i + 1;
    }
    proof {
        let mapped = node.args@.map(|q: int, a: crate::ast::Arg| a.ty);
        let nsv = (match &node.namespace {
            Option::Some(n) => Option::<Seq<char>>::Some(n@),
            Option::None => Option::<Seq<char>>::None,
        });
        assert forall|fi: int| 0 <= fi < ctx.functions@.len() implies (crate::interp::sig_matches(
            #[trigger] ctx.functions@[fi],
            node.name@,
            mapped,
            nsv,
        ) == crate::interp::sig_matches(ctx.functions@[fi], node.name@, arg_types@, nsv)) by {
            let f = ctx.functions@[fi];
            assert(mapped.len() == arg_types@.len());
            assert forall|k: int| 0 <= k < mapped.len() implies ((#[trigger] f.args@[
            k]).ty.spec_soft_eq(mapped[k]) == f.args@[k].ty.spec_soft_eq(arg_types@[k])) by {
                assert(mapped[k] == node.args@[k].ty);
                crate::types::lemma_soft_eq_like(f.args@[k].ty, arg_types@[k], node.args@[k].ty);
            }
        }
    }

    let ns_ref: Option<&String> = match &node.namespace {
        Some(ns) => Some(ns),
        None => None,
    };
    let collides = matches!(ctx.get_function(&node.name, &arg_types, ns_ref), Option::Some(_))
        || (node.namespace.is_none() && matches!(
        ctx.get_builtin(&node.name, &arg_types),
        Option::Some(_),
    ));
    if collides {
        return Err(ChalError::compile_err(CompileErrorKind::OverwrittenFunction, node.span));
    }

    let mut args = Vec::<ArgAnnotation>::new();
    let mut j: usize = 0;
    while j < node.args.len()
        invariant
            args@.len() == j,
            j <= node.args@.len(),
        decreases node.args@.len() - j,
    {
        if matches!(&node.args[j].ty, Type::Void) {
            return Err(ChalError::compile_err(CompileErrorKind::VoidArgument, node.span));
        }
        if matches!(&node.args[j].ty, Type::Exception) {
            return Err(
                ChalError::compile_err(CompileErrorKind::ExceptionTyOutsideCatch, node.span),
            );
        }
        args.push(
            ArgAnnotation { id: j, name: node.args[j].name.clone(), ty: node.args[j].ty.clone() },
        );
        j = j + 1;
    }

    // a direct return statement in the body satisfies the default-return rule
    let mut returned = false;
    let mut k: usize = 0;
    while k < node.body.len()
        invariant
            k <= node.body@.len(),
            returned == exists|q: int| 0 <= q < k && (#[trigger] node.body@[q]) is RetStmnt,
        decreases node.body@.len() - k,
    {
        if matches!(&node.body[k], NodeStmnt::RetStmnt(_)) {
            returned = true;
        }
        k = k + 1;
    }

    let is_unsafe = crate::interp::name_is_unsafe(&node.name);
    let fid = ctx.functions.len();
    ctx.functions.push(
        FuncAnnotation {
            id: fid,
            name: node.name,
            args,
            ret_type: node.ret_type.clone(),
            namespace: node.namespace,
            is_unsafe,
        },
    );
    ctx.current_func = Some(fid);
    ctx.reset_locals();
    ctx.locals_id_counter = argc;

    let body_sc = match compile_stmnts(ctx, node.body, false, 0) {
        Ok(sc) => sc,
        Err(e) => {
            ctx.current_func = None;
            ctx.reset_locals();
            return Err(e);
        },
    };
    ctx.current_func = None;
    ctx.reset_locals();

    let mut body = body_sc.code;
    let is_void = matches!(&node.ret_type, Type::Void);
    if !returned {
        if is_void && body.len() == 0 {
            return Err(
                ChalError::compile_err(CompileErrorKind::NoDefaultReturnStmnt, node.span),
            );
        }
        if is_void {
            body.push(Bytecode::ReturnVoid);
        } else {
            return Err(
                ChalError::compile_err(CompileErrorKind::NoDefaultReturnStmnt, node.span),
            );
        }
    }

    let ghost g_body = body@;
    let mut code = Vec::<Bytecode>::new();
    code.push(Bytecode::CreateFunc(argc));
    code.append(&mut body);
    proof {
        assert(code@ =~= seq![Bytecode::CreateFunc(argc)] + g_body);
        lemma_code_ok_concat(seq![Bytecode::CreateFunc(argc)], g_body, 0);
        assert(exists|i: int|
            1 <= i < code@.len() && ((#[trigger] code@[i]) is Return
                || code@[i] is ReturnVoid)) by {
            if returned {
                let wi = choose|i: int|
                    0 <= i < body_sc.code@.len() && ((#[trigger] body_sc.code@[i]) is Return
                        || body_sc.code@[i] is ReturnVoid);
                assert(g_body[wi] == body_sc.code@[wi]);
                assert(code@[1 + wi] == g_body[wi]);
            } else {
                assert(code@[code@.len() - 1] == g_body.last());
            }
        }
        assert(no_nops(code@)) by {
            assert forall|i: int| 0 <= i < code@.len() implies !((#[trigger] code@[i]) is Nop) by {
                if i >= 1 {
                    assert(code@[i] == g_body[i - 1]);
                    if i - 1 < body_sc.code@.len() {
                        assert(g_body[i - 1] == body_sc.code@[i - 1]);
                    }
                }
            }
        }
    }
    Ok(code)
}

/// Compiles a class definition: registers the class's name and members,
/// then compiles each method under the class's namespace. The emitted run
/// is the concatenation of the methods' code.
#[verifier::loop_isolation(false)]
pub fn compile_class(ctx: &mut Compiler, node: NodeClass) -> (r: Result<Vec<Bytecode>, ChalError>)
    ensures
        r matches Ok(code) ==> (code_ok(code@, 0) && no_nops(code@)),
        r is Ok ==> (crate::interp::class_map_contents(final(ctx).namespaces).contains_key(
            node.name@,
        ) && {
            let entry = crate::interp::class_map_contents(final(ctx).namespaces)[node.name@];
            entry.members@.len() == node.members@.len() && forall|k: int|
                0 <= k < node.members@.len() ==> {
                    let m = #[trigger] entry.members@[k];
                    m.id == k && m.name@ == node.members@[k].name@ && crate::types::type_like(
                        m.ty,
                        node.members@[k].ty,
                    )
                }
        }),
{
    if ctx.class_exists(&node.name) {
        return Err(
            ChalError::compile_err(
                CompileErrorKind::ClassAlreadyExists(node.name.clone()),
                node.span,
            ),
        );
    }

    let mut members = Vec::<MemberAnnotation>::new();
    let mut i: usize = 0;
    while i < node.members.len()
        invariant
            members@.len() == i,
            i <= node.members@.len(),
            forall|k: int|
                0 <= k < i ==> {
                    let m = #[trigger] members@[k];
                    m.id == k && m.name@ == node.members@[k].name@ && crate::types::type_like(
                        m.ty,
                        node.members@[k].ty,
                    )
                },
        decreases node.members@.len() - i,
    {
        let mut dup = false;
        let mut j: usize = 0;
        while j < i
            invariant
                j <= i,
                i < node.members@.len(),
            decreases i - j,
        {
            if crate::text::str_eq(
                node.members[j].name.as_str(),
                node.members[i].name.as_str(),
            ) {
                dup = true;
            }
            j = j + 1;
        }
        if dup {
            return Err(
                ChalError::compile_err(
                    CompileErrorKind::MemberAlreadyExists,
                    node.members[i].span,
                ),
            );
        }
        if matches!(&node.members[i].ty, Type::Void) {
            return Err(
                ChalError::compile_err(CompileErrorKind::VoidMember, node.members[i].span),
            );
        }
        if matches!(&node.members[i].ty, Type::Exception) {
            return Err(
                ChalError::compile_err(
                    CompileErrorKind::ExceptionTyOutsideCatch,
                    node.members[i].span,
                ),
            );
        }
        members.push(
            MemberAnnotation {
                id: i,
                name: node.members[i].name.clone(),
                ty: node.members[i].ty.clone(),
            },
        );
        i = i + 1;
    }
    let ann = ClassAnnotation { name: node.name.clone(), members };
    let ghost g_ann = ann;
    ctx.register_class(ann);

    let mut code = Vec::<Bytecode>::new();
    let mut errors = Vec::<ChalError>::new();
    let mut methods = node.methods;
    let ghost mut consumed: int = 0;
    while methods.len() > 0
        invariant
            methods@ == node.methods@.skip(consumed),
            0 <= consumed <= node.methods@.len(),
            crate::interp::class_map_contents(ctx.namespaces)
                == crate::interp::class_map_contents(old(ctx).namespaces).insert(
                node.name@,
                g_ann,
            ),
            code_ok(code@, 0),
            no_nops(code@),
        decreases methods@.len(),
    {
        let method = methods.remove(0);
        proof {
            assert(methods@ =~= node.methods@.skip(consumed + 1));
        }
        match compile_func_def(ctx, method) {
            Ok(mut mc) => {
                let ghost g_old = code@;
                let ghost g_new = mc@;
                code.append(&mut mc);
                proof {
                    assert(code@ == g_old + g_new);
                    lemma_code_ok_base(g_new, 0, g_old.len() as int);
                    lemma_code_ok_concat(g_old, g_new, 0);
                    assert forall|q: int| 0 <= q < code@.len() implies !((#[trigger] code@[q])
                        is Nop) by {
                        if q < g_old.len() {
                            assert(code@[q] == g_old[q]);
                        } else {
                            assert(code@[q] == g_new[q - g_old.len()]);
                        }
                    }
                }
            },
            Err(e) => {
                errors.push(e);
            },
        }
        proof {
            consumed = consumed + 1;
        }
    }
    if errors.len() > 0 {
        return Err(ChalError::Many(errors));
    }
    Ok(code)
}

/// Compiles one top-level program node into its bytecode. A global
/// definition of one literal value owes success whenever the widening
/// table accepts it.
pub fn compile_prog(ctx: &mut Compiler, node: NodeProg) -> (r: Result<Vec<Bytecode>, ChalError>)
    ensures
        r matches Ok(code) ==> (code_ok(code@, 0) && no_nops(code@)),
        (node matches NodeProg::VarDef(def) && crate::compile::single_literal_def(def) && (
        def.ty is Any || Type::spec_verify_cast(
            def.ty,
            crate::codegen::spec_value_type(def.value.expr@[0]->Value_0),
        ) is Some)) ==> r is Ok,
{
    match node {
        NodeProg::VarDef(def) => {
            let code = compile_var_def_global(ctx, def)?;
            proof {
                lemma_plain_code_ok(code@, 0);
            }
            Ok(code)
        },
        NodeProg::FuncDef(def) => {
            let code = compile_func_def(ctx, def)?;
            Ok(code)
        },
        NodeProg::FuncCall(call_stmnt) => {
            let res = call_stmnt.0;
            let (code, _) = compile_resolution(ctx, &res)?;
            proof {
                lemma_plain_code_ok(code@, 0);
            }
            Ok(code)
        },
        NodeProg::Assign(assign) => {
            let code = compile_assign(ctx, assign)?;
            proof {
                lemma_plain_code_ok(code@, 0);
            }
            Ok(code)
        },
        NodeProg::IfStmnt(stmnt) => {
            let sc = compile_stmnt(ctx, NodeStmnt::IfStmnt(stmnt), false, 0)?;
            proof {
                assert(no_nops(sc.code@)) by {
                    assert forall|i: int|
                        0 <= i < sc.code@.len() implies !((#[trigger] sc.code@[i]) is Nop) by {
                        if sc.code@[i] is Nop {
                            assert(sc.brks@.contains(i as usize));
                        }
                    }
                }
            }
            Ok(sc.code)
        },
        NodeProg::WhileLoop(stmnt) => {
            let code = compile_while(ctx, stmnt)?;
            Ok(code)
        },
        NodeProg::ForLoop(stmnt) => {
            let code = compile_for(ctx, stmnt)?;
            Ok(code)
        },
        NodeProg::TryCatch(stmnt) => {
            let sc = compile_stmnt(ctx, NodeStmnt::TryCatch(stmnt), false, 0)?;
            proof {
                assert(no_nops(sc.code@)) by {
                    assert forall|i: int|
                        0 <= i < sc.code@.len() implies !((#[trigger] sc.code@[i]) is Nop) by {
                        if sc.code@[i] is Nop {
                            assert(sc.brks@.contains(i as usize));
                        }
                    }
                }
            }
            Ok(sc.code)
        },
        NodeProg::Class(class) => {
            let code = compile_class(ctx, class)?;
            Ok(code)
        },
    }
}

impl Compiler {
    /// Compiles a whole source text: lexes and parses one program chunk at
    /// a time and appends its bytecode. Errors are collected chunk by
    /// chunk, so one broken chunk does not hide the others; any error fails
    /// the compilation. In the emitted program every branching instruction
    /// stays within its block's bounds and no loop placeholder remains.
    #[verifier::loop_isolation(false)]
    pub fn compile_program(&mut self, code: &str) -> (r: Result<Vec<Bytecode>, ChalError>)
        ensures
            r matches Ok(out) ==> (code_ok(out@, 0) && no_nops(out@)),
            code@.len() == 0 ==> (r matches Ok(out) && out@.len() == 0),
    {
        let ghost empty_src = code@.len() == 0;
        let mut lexer = Lexer::new(code);
        let mut out = Vec::<Bytecode>::new();
        let mut errors = Vec::<ChalError>::new();

        while !lexer.is_empty()
            invariant
                code_ok(out@, 0),
                no_nops(out@),
                empty_src == (code@.len() == 0),
                empty_src ==> (lexer.remaining() == 0 && out@.len() == 0 && errors@.len() == 0),
            decreases lexer.remaining(),
        {
            match lexer.advance_prog() {
                Ok(lines) => match NodeProg::new(lines) {
                    Ok(prog) => match compile_prog(self, prog) {
                        Ok(mut chunk) => {
                            let ghost g_old = out@;
                            let ghost g_new = chunk@;
                            out.append(&mut chunk);
                            proof {
                                assert(out@ == g_old + g_new);
                                lemma_code_ok_base(g_new, 0, g_old.len() as int);
                                lemma_code_ok_concat(g_old, g_new, 0);
                                assert forall|q: int| 0 <= q < out@.len() implies !((
                                #[trigger] out@[q]) is Nop) by {
                                    if q < g_old.len() {
                                        assert(out@[q] == g_old[q]);
                                    } else {
                                        assert(out@[q] == g_new[q - g_old.len()]);
                                    }
                                }
                            }
                        },
                        Err(e) => {
                            errors.push(e);
                        },
                    },
                    Err(e) => {
                        errors.push(e);
                    },
                },
                Err(e) => {
                    errors.push(e);
                },
            }
        }

        if errors.len() > 0 {
            return Err(ChalError::Many(errors));
        }
        Ok(out)
    }
}

} // verus!
