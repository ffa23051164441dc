use vstd::prelude::*;

use crate::text::chars_of;
use crate::types::{type_like, Type};

verus! {

/// The annotation of a defined variable: its slot id, its static type, and
/// whether it was declared constant.
#[derive(Debug)]
pub struct VarAnnotation {
    pub id: usize,
    pub ty: Type,
    pub is_const: bool,
}

/// View-level equivalence of variable annotations.
pub open spec fn var_ann_like(a: VarAnnotation, b: VarAnnotation) -> bool {
    a.id == b.id && type_like(a.ty, b.ty) && a.is_const == b.is_const
}

impl Clone for VarAnnotation {
    fn clone(&self) -> (r: VarAnnotation)
        ensures
            var_ann_like(r, *self),
    {
        VarAnnotation { id: self.id, ty: self.ty.clone(), is_const: self.is_const }
    }
}

/// The annotation of one declared function argument.
#[derive(Debug)]
pub struct ArgAnnotation {
    pub id: usize,
    pub name: String,
    pub ty: Type,
}

/// The annotation of a user-defined function: its id equals its index in
/// the compiler's function table.
#[derive(Debug)]
pub struct FuncAnnotation {
    pub id: usize,
    pub name: String,
    pub args: Vec<ArgAnnotation>,
    pub ret_type: Type,
    pub namespace: Option<String>,
    pub is_unsafe: bool,
}

/// The pre-baked instruction of a built-in function.
#[derive(Clone, Copy, Debug, PartialEq, Eq, Structural)]
pub enum BuiltinOp {
    Print,
    Assert,
}

/// The signature and instruction stub of a built-in function.
#[derive(Debug)]
pub struct BuiltinAnnotation {
    pub name: String,
    pub args: Vec<Type>,
    pub ret_type: Type,
    pub opcode: BuiltinOp,
}

/// One declared member of a class; the id is the member's slot inside the
/// constructed object.
#[derive(Debug)]
pub struct MemberAnnotation {
    pub id: usize,
    pub name: String,
    pub ty: Type,
}

/// The annotation of a registered class: its name and its ordered members.
#[derive(Debug)]
pub struct ClassAnnotation {
    pub name: String,
    pub members: Vec<MemberAnnotation>,
}

/// The safety scope the compiler currently stands in: `Guarded` inside a
/// try block, `Safe` inside a catch block, `Normal` elsewhere.
#[derive(Clone, Copy, Debug, PartialEq, Eq, Structural)]
pub enum SafetyScope {
    Normal,
    Guarded,
    Safe,
}

/// The entries of a variable symbol table, keyed by the characters of the
/// variable names. Names what an `AHashMap` from names to variable
/// annotations holds.
pub uninterp spec fn var_map_contents(m: ahash::AHashMap<String, VarAnnotation>) -> Map<
    Seq<char>,
    VarAnnotation,
>;

/// The entries of the class table, keyed by the characters of the class
/// names. Names what an `AHashMap` from names to class annotations holds.
pub uninterp spec fn class_map_contents(m: ahash::AHashMap<String, ClassAnnotation>) -> Map<
    Seq<char>,
    ClassAnnotation,
>;

#[verifier::external_type_specification]
#[verifier::external_body]
#[verifier::reject_recursive_types(K)]
#[verifier::reject_recursive_types(V)]
#[verifier::reject_recursive_types(S)]
pub struct ExAHashMap<K, V, S>(ahash::AHashMap<K, V, S>);

#[verifier::external_type_specification]
#[verifier::external_body]
pub struct ExRandomState(ahash::RandomState);

/// Relies on `AHashMap::new`, which builds an empty `std` hash map with
/// ahash's hasher: a new map holds no entries.
#[verifier::external_body]
fn var_map_new() -> (r: ahash::AHashMap<String, VarAnnotation>)
    ensures
        forall|k: Seq<char>| !var_map_contents(r).contains_key(k),
{
    ahash::AHashMap::new()
}

/// Relies on `AHashMap::insert`, which delegates to `HashMap::insert`: the
/// key now maps to the value, and no other entry changes.
#[verifier::external_body]
fn var_map_insert(m: &mut ahash::AHashMap<String, VarAnnotation>, k: String, v: VarAnnotation)
    ensures
        var_map_contents(*final(m)) == var_map_contents(*old(m)).insert(k@, v),
{
    let _ = m.insert(k, v);
}

/// Relies on `AHashMap::get`, which delegates to `HashMap::get`: the entry
/// under the key, if the map holds one.
#[verifier::external_body]
fn var_map_get<'a>(m: &'a ahash::AHashMap<String, VarAnnotation>, k: &String) -> (r: Option<
    &'a VarAnnotation,
>)
    ensures
        match r {
            Some(v) => var_map_contents(*m).contains_key(k@) && *v == var_map_contents(*m)[k@],
            None => !var_map_contents(*m).contains_key(k@),
        },
{
    m.get(k)
}

/// Relies on `AHashMap::remove`, which delegates to `HashMap::remove`: the
/// entry under the key is gone, and no other entry changes.
#[verifier::external_body]
fn var_map_remove(m: &mut ahash::AHashMap<String, VarAnnotation>, k: &String)
    ensures
        var_map_contents(*final(m)) == var_map_contents(*old(m)).remove(k@),
{
    let _ = m.remove(k);
}

/// Relies on `AHashMap::new`: a new class table holds no entries.
#[verifier::external_body]
fn class_map_new() -> (r: ahash::AHashMap<String, ClassAnnotation>)
    ensures
        forall|k: Seq<char>| !class_map_contents(r).contains_key(k),
{
    ahash::AHashMap::new()
}

/// Relies on `AHashMap::insert`: the key now maps to the value, and no
/// other entry changes.
#[verifier::external_body]
fn class_map_insert(m: &mut ahash::AHashMap<String, ClassAnnotation>, k: String, v: ClassAnnotation)
    ensures
        class_map_contents(*final(m)) == class_map_contents(*old(m)).insert(k@, v),
{
    let _ = m.insert(k, v);
}

/// Relies on `AHashMap::get`: the entry under the key, if the map holds
/// one.
#[verifier::external_body]
fn class_map_get<'a>(m: &'a ahash::AHashMap<String, ClassAnnotation>, k: &String) -> (r: Option<
    &'a ClassAnnotation,
>)
    ensures
        match r {
            Some(v) => class_map_contents(*m).contains_key(k@) && *v == class_map_contents(*m)[k@],
            None => !class_map_contents(*m).contains_key(k@),
        },
{
    m.get(k)
}

/// Whether a declared signature accepts a call: the names spell the same,
/// the namespaces agree, and each parameter accepts its argument under soft
/// equality. This is how overloads are resolved: a set-of-signatures
/// lookup, not a subtype lattice.
pub open spec fn sig_matches(
    f: FuncAnnotation,
    name: Seq<char>,
    args: Seq<Type>,
    namespace: Option<Seq<char>>,
) -> bool {
    &&& f.name@ == name
    &&& (match (f.namespace, namespace) {
        (Option::None, Option::None) => true,
        (Option::Some(a), Option::Some(b)) => a@ == b,
        _ => false,
    })
    &&& f.args@.len() == args.len()
    &&& forall|k: int|
        0 <= k < args.len() ==> (#[trigger] f.args@[k]).ty.spec_soft_eq(args[k])
}

/// Whether a built-in's signature accepts a call.
pub open spec fn builtin_matches(b: BuiltinAnnotation, name: Seq<char>, args: Seq<Type>) -> bool {
    &&& b.name@ == name
    &&& b.args@.len() == args.len()
    &&& forall|k: int| 0 <= k < args.len() ==> (#[trigger] b.args@[k]).spec_soft_eq(args[k])
}

/// The view of a requested namespace.
pub open spec fn namespace_view(namespace: Option<&String>) -> Option<Seq<char>> {
    match namespace {
        Option::Some(ns) => Option::Some(ns@),
        Option::None => Option::None,
    }
}

/// Whether the function being compiled declares an argument of this name.
pub open spec fn current_func_has_arg(c: Compiler, name: Seq<char>) -> bool {
    c.current_func matches Some(i) && i < c.functions@.len() && exists|k: int|
        0 <= k < c.functions@[c.current_func.unwrap() as int].args@.len() && (
        #[trigger] c.functions@[c.current_func.unwrap() as int].args@[k]).name@ == name
}

/// Whether the function being compiled is an unsafe one.
pub open spec fn current_func_unsafe(c: Compiler) -> bool {
    c.current_func matches Some(i) && i < c.functions@.len() && c.functions@[
        c.current_func.unwrap() as int
    ].is_unsafe
}

/// Whether a function's name marks it unsafe: it ends in `!`.
pub fn name_is_unsafe(name: &String) -> (r: bool)
    ensures
        r == (name@.len() > 0 && name@.last() == '!'),
{
    let cs = chars_of(name.as_str());
    if cs.len() == 0 {
        return false;
    }
    cs[cs.len() - 1] == '!'
}

/// The state the bytecode compiler carries across one compilation: the
/// symbol tables for globals, locals and classes, the function and builtin
/// tables, the current function, the safety scope and the id counters.
pub struct Compiler {
    pub globals: ahash::AHashMap<String, VarAnnotation>,
    pub locals: ahash::AHashMap<String, VarAnnotation>,
    pub namespaces: ahash::AHashMap<String, ClassAnnotation>,
    pub functions: Vec<FuncAnnotation>,
    pub builtins: Vec<BuiltinAnnotation>,
    /// Index into `functions` of the function whose body is being compiled.
    pub current_func: Option<usize>,
    pub safety_scope: SafetyScope,
    pub globals_id_counter: usize,
    pub locals_id_counter: usize,
}

impl Compiler {
    /// A fresh compiler: empty symbol tables, and the built-in `print`,
    /// which accepts any value and returns nothing.
    pub fn new() -> (r: Compiler)
        ensures
            forall|k: Seq<char>| !var_map_contents(r.globals).contains_key(k),
            forall|k: Seq<char>| !var_map_contents(r.locals).contains_key(k),
            r.current_func is None,
            r.safety_scope == SafetyScope::Normal,
            r.globals_id_counter == 0,
            r.locals_id_counter == 0,
            r.functions@.len() == 0,
            r.builtins@.len() == 2,
            r.builtins@[0].name@ == "print"@ && r.builtins@[0].args@ == seq![Type::Any]
                && r.builtins@[0].ret_type is Void && r.builtins@[0].opcode == BuiltinOp::Print,
            r.builtins@[1].name@ == "assert"@ && r.builtins@[1].args@ == seq![Type::Bool]
                && r.builtins@[1].ret_type is Void && r.builtins@[1].opcode == BuiltinOp::Assert,
    {
        let mut builtins = Vec::<BuiltinAnnotation>::new();
        builtins.push(
            BuiltinAnnotation {
                name: "print".to_owned(),
                args: vec![Type::Any],
                ret_type: Type::Void,
                opcode: BuiltinOp::Print,
            },
        );
        builtins.push(
            BuiltinAnnotation {
                name: "assert".to_owned(),
                args: vec![Type::Bool],
                ret_type: Type::Void,
                opcode: BuiltinOp::Assert,
            },
        );
        Compiler {
            globals: var_map_new(),
            locals: var_map_new(),
            namespaces: class_map_new(),
            functions: Vec::new(),
            builtins,
            current_func: None,
            safety_scope: SafetyScope::Normal,
            globals_id_counter: 0,
            locals_id_counter: 0,
        }
    }

    /// The annotation of a local variable, as (id, type, constness); the
    /// entry stored under the name, when there is one.
    pub fn get_local(&self, name: &String) -> (r: Option<(usize, Type, bool)>)
        ensures
            (r is Some) == var_map_contents(self.locals).contains_key(name@),
            r matches Some((id, ty, c)) ==> (id == var_map_contents(self.locals)[name@].id && c
                == var_map_contents(self.locals)[name@].is_const && type_like(
                ty,
                var_map_contents(self.locals)[name@].ty,
            )),
    {
        match var_map_get(&self.locals, name) {
            Some(ann) => Some((ann.id, ann.ty.clone(), ann.is_const)),
            None => None,
        }
    }

    /// The annotation of a global variable, as (id, type, constness); the
    /// entry stored under the name, when there is one.
    pub fn get_global(&self, name: &String) -> (r: Option<(usize, Type, bool)>)
        ensures
            (r is Some) == var_map_contents(self.globals).contains_key(name@),
            r matches Some((id, ty, c)) ==> (id == var_map_contents(self.globals)[name@].id && c
                == var_map_contents(self.globals)[name@].is_const && type_like(
                ty,
                var_map_contents(self.globals)[name@].ty,
            )),
    {
        match var_map_get(&self.globals, name) {
            Some(ann) => Some((ann.id, ann.ty.clone(), ann.is_const)),
            None => None,
        }
    }

    pub fn set_local(&mut self, name: String, ann: VarAnnotation)
        ensures
            var_map_contents(final(self).locals) == var_map_contents(old(self).locals).insert(
                name@,
                ann,
            ),
            final(self).globals == old(self).globals,
            final(self).functions == old(self).functions,
            final(self).globals_id_counter == old(self).globals_id_counter,
            final(self).namespaces == old(self).namespaces,
    {
        var_map_insert(&mut self.locals, name, ann);
    }

    pub fn set_global(&mut self, name: String, ann: VarAnnotation)
        ensures
            var_map_contents(final(self).globals) == var_map_contents(old(self).globals).insert(
                name@,
                ann,
            ),
            final(self).functions == old(self).functions,
            final(self).globals_id_counter == old(self).globals_id_counter,
            final(self).namespaces == old(self).namespaces,
    {
        var_map_insert(&mut self.globals, name, ann);
    }

    pub fn remove_local(&mut self, name: &String)
        ensures
            var_map_contents(final(self).locals) == var_map_contents(old(self).locals).remove(
                name@,
            ),
            final(self).functions == old(self).functions,
            final(self).globals_id_counter == old(self).globals_id_counter,
            final(self).namespaces == old(self).namespaces,
    {
        var_map_remove(&mut self.locals, name);
    }

    /// Clears the frame-local symbol table between function bodies.
    pub fn reset_locals(&mut self)
        ensures
            forall|k: Seq<char>| !var_map_contents(final(self).locals).contains_key(k),
            final(self).functions == old(self).functions,
            final(self).current_func == old(self).current_func,
            final(self).globals_id_counter == old(self).globals_id_counter,
            final(self).namespaces == old(self).namespaces,
    {
        self.locals = var_map_new();
        self.locals_id_counter = 0;
    }

    /// The argument of the function being compiled, as (id, type); nothing
    /// outside a function body.
    #[verifier::loop_isolation(false)]
    pub fn current_func_arg(&self, name: &String) -> (r: Option<(usize, Type)>)
        ensures
            (r is Some) == current_func_has_arg(*self, name@),
    {
        let fidx = match self.current_func {
            Some(i) => i,
            None => {
                return None;
            },
        };
        if fidx >= self.functions.len() {
            return None;
        }
        let func = &self.functions[fidx];
        let mut i: usize = 0;
        while i < func.args.len()
            invariant
                i <= func.args@.len(),
                forall|k: int| 0 <= k < i ==> (#[trigger] func.args@[k]).name@ != name@,
            decreases func.args@.len() - i,
        {
            if crate::text::str_eq(func.args[i].name.as_str(), name.as_str()) {
                return Some((func.args[i].id, func.args[i].ty.clone()));
            }
            i = i + 1;
        }
        None
    }

    /// The declared return type and unsafety of the function being
    /// compiled.
    pub fn current_func_info(&self) -> (r: Option<(Type, bool)>)
        ensures
            (r is Some) == (self.current_func matches Some(i) && i < self.functions@.len()),
            r matches Some((ret, u)) ==> (u == current_func_unsafe(*self) && type_like(
                ret,
                self.functions@[self.current_func.unwrap() as int].ret_type,
            )),
    {
        let fidx = match self.current_func {
            Some(i) => i,
            None => {
                return None;
            },
        };
        if fidx >= self.functions.len() {
            return None;
        }
        let func = &self.functions[fidx];
        Some((func.ret_type.clone(), func.is_unsafe))
    }

    /// Looks an overload up: the first function with this name and
    /// namespace whose parameters accept the given argument types under
    /// soft equality; and none is found exactly when no registered
    /// signature matches.
    pub fn get_function(
        &self,
        name: &String,
        arg_types: &Vec<Type>,
        namespace: Option<&String>,
    ) -> (r: Option<usize>)
        ensures
            r matches Some(i) ==> (i < self.functions@.len() && sig_matches(
                self.functions@[i as int],
                name@,
                arg_types@,
                namespace_view(namespace),
            ) && forall|j: int|
                0 <= j < i ==> !sig_matches(
                    #[trigger] self.functions@[j],
                    name@,
                    arg_types@,
                    namespace_view(namespace),
                )),
            r is None ==> forall|i: int|
                0 <= i < self.functions@.len() ==> !sig_matches(
                    #[trigger] self.functions@[i],
                    name@,
                    arg_types@,
                    namespace_view(namespace),
                ),
    {
        let mut i: usize = 0;
        while i < self.functions.len()
            invariant
                i <= self.functions@.len(),
                forall|j: int|
                    0 <= j < i ==> !sig_matches(
                        #[trigger] self.functions@[j],
                        name@,
                        arg_types@,
                        namespace_view(namespace),
                    ),
            decreases self.functions@.len() - i,
        {
            let func = &self.functions[i];
            if crate::text::str_eq(func.name.as_str(), name.as_str()) && namespace_matches(
                &func.namespace,
                namespace,
            ) && args_soft_match(&func.args, arg_types) {
                return Some(i);
            }
            i = i + 1;
        }
        None
    }

    /// Looks a built-in function up by name and argument types; none is
    /// found exactly when no built-in signature matches.
    pub fn get_builtin(&self, name: &String, arg_types: &Vec<Type>) -> (r: Option<usize>)
        ensures
            r matches Some(i) ==> (i < self.builtins@.len() && builtin_matches(
                self.builtins@[i as int],
                name@,
                arg_types@,
            )),
            r is None ==> forall|i: int|
                0 <= i < self.builtins@.len() ==> !builtin_matches(
                    #[trigger] self.builtins@[i],
                    name@,
                    arg_types@,
                ),
    {
        let mut i: usize = 0;
        while i < self.builtins.len()
            invariant
                i <= self.builtins@.len(),
                forall|j: int|
                    0 <= j < i ==> !builtin_matches(
                        #[trigger] self.builtins@[j],
                        name@,
                        arg_types@,
                    ),
            decreases self.builtins@.len() - i,
        {
            let b = &self.builtins[i];
            if crate::text::str_eq(b.name.as_str(), name.as_str()) && builtin_args_soft_match(
                &b.args,
                arg_types,
            ) {
                return Some(i);
            }
            i = i + 1;
        }
        None
    }

    /// Registers a class under its own name; its members already carry
    /// their slot ids.
    pub fn register_class(&mut self, ann: ClassAnnotation)
        ensures
            final(self).functions == old(self).functions,
            final(self).globals_id_counter == old(self).globals_id_counter,
            class_map_contents(final(self).namespaces) == class_map_contents(
                old(self).namespaces,
            ).insert(ann.name@, ann),
    {
        let name = ann.name.clone();
        class_map_insert(&mut self.namespaces, name, ann);
    }

    /// Whether a class of this name was registered.
    pub fn class_exists(&self, name: &String) -> (r: bool)
        ensures
            r == class_map_contents(self.namespaces).contains_key(name@),
    {
        matches!(class_map_get(&self.namespaces, name), Some(_))
    }

    /// The slot id and type of a member of the given class; nothing when
    /// the class is unknown or declares no member of that name.
    #[verifier::loop_isolation(false)]
    pub fn class_member(&self, class: &String, member: &String) -> (r: Option<(usize, Type)>)
        ensures
            r matches Some((id, ty)) ==> (class_map_contents(self.namespaces).contains_key(
                class@,
            ) && exists|k: int|
                0 <= k < class_map_contents(self.namespaces)[class@].members@.len() && {
                    let m = #[trigger] class_map_contents(self.namespaces)[class@].members@[k];
                    m.name@ == member@ && id == m.id && type_like(ty, m.ty)
                }),
            r is None ==> (!class_map_contents(self.namespaces).contains_key(class@) || forall|
                k: int,
            |
                0 <= k < class_map_contents(self.namespaces)[class@].members@.len()
                    ==> (#[trigger] class_map_contents(
                    self.namespaces,
                )[class@].members@[k]).name@ != member@),
    {
        let ann = match class_map_get(&self.namespaces, class) {
            Some(ann) => ann,
            None => {
                return None;
            },
        };
        let mut i: usize = 0;
        while i < ann.members.len()
            invariant
                i <= ann.members@.len(),
                forall|k: int|
                    0 <= k < i ==> (#[trigger] ann.members@[k]).name@ != member@,
            decreases ann.members@.len() - i,
        {
            if crate::text::str_eq(ann.members[i].name.as_str(), member.as_str()) {
                return Some((ann.members[i].id, ann.members[i].ty.clone()));
            }
            i = i + 1;
        }
        None
    }

    /// How many members the given class declares; nothing when the class
    /// is unknown.
    pub fn class_member_count(&self, class: &String) -> (r: Option<usize>)
        ensures
            (r is Some) == class_map_contents(self.namespaces).contains_key(class@),
            r matches Some(n) ==> n == class_map_contents(
                self.namespaces,
            )[class@].members@.len(),
    {
        match class_map_get(&self.namespaces, class) {
            Some(ann) => Some(ann.members.len()),
            None => None,
        }
    }

    /// The name and type of the class member with the given slot index;
    /// nothing when the class is unknown or the index is out of range.
    pub fn class_member_by_idx(&self, class: &String, idx: usize) -> (r: Option<(String, Type)>)
        ensures
            (r is Some) == (class_map_contents(self.namespaces).contains_key(class@) && idx
                < class_map_contents(self.namespaces)[class@].members@.len()),
            r matches Some((n, ty)) ==> {
                let m = class_map_contents(self.namespaces)[class@].members@[idx as int];
                n@ == m.name@ && type_like(ty, m.ty)
            },
    {
        let ann = match class_map_get(&self.namespaces, class) {
            Some(ann) => ann,
            None => {
                return None;
            },
        };
        if idx < ann.members.len() {
            Some((ann.members[idx].name.clone(), ann.members[idx].ty.clone()))
        } else {
            None
        }
    }
}

/// Whether a declared namespace matches a requested one.
fn namespace_matches(declared: &Option<String>, requested: Option<&String>) -> (r: bool)
    ensures
        r == (match (declared, namespace_view(requested)) {
            (Option::None, Option::None) => true,
            (Option::Some(a), Option::Some(b)) => a@ == b,
            _ => false,
        }),
{
    match (declared, requested) {
        (Option::None, Option::None) => true,
        (Option::Some(a), Option::Some(b)) => crate::text::str_eq(a.as_str(), b.as_str()),
        _ => false,
    }
}

/// Whether declared parameters accept the given argument types under soft
/// equality, position by position.
fn args_soft_match(params: &Vec<ArgAnnotation>, args: &Vec<Type>) -> (r: bool)
    ensures
        r == (params@.len() == args@.len() && forall|k: int|
            0 <= k < args@.len() ==> (#[trigger] params@[k]).ty.spec_soft_eq(args@[k])),
{
    if params.len() != args.len() {
        return false;
    }
    let mut i: usize = 0;
    while i < params.len()
        invariant
            params@.len() == args@.len(),
            i <= params@.len(),
            forall|k: int| 0 <= k < i ==> (#[trigger] params@[k]).ty.spec_soft_eq(args@[k]),
        decreases params@.len() - i,
    {
        if !params[i].ty.soft_eq(&args[i]) {
            return false;
        }
        i = i + 1;
    }
    true
}

/// Whether a built-in's parameters accept the given argument types.
fn builtin_args_soft_match(params: &Vec<Type>, args: &Vec<Type>) -> (r: bool)
    ensures
        r == (params@.len() == args@.len() && forall|k: int|
            0 <= k < args@.len() ==> (#[trigger] params@[k]).spec_soft_eq(args@[k])),
{
    if params.len() != args.len() {
        return false;
    }
    let mut i: usize = 0;
    while i < params.len()
        invariant
            params@.len() == args@.len(),
            i <= params@.len(),
            forall|k: int| 0 <= k < i ==> (#[trigger] params@[k]).spec_soft_eq(args@[k]),
        decreases params@.len() - i,
    {
        if !params[i].soft_eq(&args[i]) {
            return false;
        }
        i = i + 1;
    }
    true
}

} // verus!
