//! What lowering gives, exactly. The model follows the rules as lowering
//! applies them (the `Pre` rewriting of each node before it is lowered, then
//! the first `Post` rule whose pattern matches), and the state lowering
//! changes as it goes: the bindings the binder records for the variables
//! met, and the locals and child scopes declared in the scope, in order.
//! Its functions return an `Option` only to bound their recursion; every
//! expression is modelled (`lemma_lower_total`).
use vstd::prelude::*;

use super::lowering::{
    LowerError, binding_of, chain_shapes, first_post, global_load, index_by_local, stride_for,
};
use super::measure::jit_size;
use super::movement::{eval_u32, leaf_bounded, lemma_eval_bounded, pad_zero, spec_apply_chain, spec_coord_linearize, spec_pad_bounds, stride_of};
use super::rewrite::spec_pre_rewrite;
use super::rules::{PostTransform, SpecRule};
use super::shape::{chain_base, chain_ops, identity_bytes, spec_jit_dt, spec_shape};
use super::simplify::{spec_simplify_binop, spec_simplify_node};
use super::{JitBinOp, JitUnaryOp, ReduceOp, SpecJit, SpecJitPart};
use crate::asts::lowered::{
    BinOp, LoweredAST, SpecAST, SpecAccessor, SpecConstPart, SpecVarRef, SpecVarRefType, le_bytes,
    spec_with_accessor, u32_ast,
};
use crate::asts::lowered::scope::SpecScope;
use crate::dt::{BasicTy, DType, IntegerTy, VecTy};
use crate::text::decimal;

verus! {

/// What a lowering holds fixed: the rules, the stride of each input
/// variable, the local that holds the element index, and the fold of
/// `f32` constants.
pub struct LowerEnv {
    pub rules: Seq<SpecRule>,
    pub strides: Seq<(usize, u32)>,
    pub idx: usize,
    pub ff: spec_fn(u32, u32, BinOp) -> u32,
}

/// What a lowering changes as it goes: the bindings the binder has
/// recorded, and the locals (name, mutability, initial value) and child
/// scopes of the scope.
pub struct LowerState {
    pub map: Seq<(usize, usize)>,
    pub locals: Seq<(Seq<char>, bool, SpecAST)>,
    pub children: Seq<SpecScope>,
}

/// The outcome of a lowering: its result and the state after it.
pub struct LowerOut {
    pub res: Result<SpecAST, LowerError>,
    pub st: LowerState,
}

/// The outcome of lowering the components of a constant.
pub struct PartsOut {
    pub res: Result<Seq<SpecConstPart>, LowerError>,
    pub st: LowerState,
}

/// `st` with bindings `m`.
pub open spec fn with_map(st: LowerState, m: Seq<(usize, usize)>) -> LowerState {
    LowerState { map: m, locals: st.locals, children: st.children }
}

/// `locals` with one more local holding `val`: `_m<n>` if mutable, `_v<n>`
/// otherwise, `n` being its index.
pub open spec fn declared(locals: Seq<(Seq<char>, bool, SpecAST)>, mutable: bool, val: SpecAST) -> Seq<
    (Seq<char>, bool, SpecAST),
> {
    let name = if mutable {
        "_m"@
    } else {
        "_v"@
    };
    locals.push((name + decimal(locals.len()), mutable, val))
}

/// `st` with one more local holding `val` (see `declared`).
pub open spec fn declare(st: LowerState, mutable: bool, val: SpecAST) -> LowerState {
    LowerState { map: st.map, locals: declared(st.locals, mutable, val), children: st.children }
}

/// A reference to local `id`.
pub open spec fn local_ref(id: nat) -> SpecVarRefType {
    SpecVarRefType::Local(SpecVarRef { id: id as usize, by: Seq::empty() })
}

/// The load of local `id`.
pub open spec fn local_load(id: nat) -> SpecAST {
    SpecAST::Load(local_ref(id))
}

/// The view of a lowering's result.
pub open spec fn res_view(r: Result<LoweredAST, LowerError>) -> Result<SpecAST, LowerError> {
    match r {
        Ok(x) => Ok(x@),
        Err(e) => Err(e),
    }
}

/// The load that stands for input variable `id` with bindings `m`: of its
/// binding, or of the next one for a variable met for the first time;
/// indexed by the element index unless the variable has a stride above one.
pub open spec fn produced_at(env: LowerEnv, m: Seq<(usize, usize)>, id: usize) -> SpecAST {
    let bind = match binding_of(m, id, 0) {
        Some(x) => x,
        None => m.len() as usize,
    };
    global_load(
        bind,
        if stride_for(env.strides, id, 0) > 1 {
            Seq::empty()
        } else {
            index_by_local(env.idx)
        },
    )
}

/// The bindings after meeting variable `id`: a new one is recorded last.
pub open spec fn bound_after(m: Seq<(usize, usize)>, id: usize) -> Seq<(usize, usize)> {
    if binding_of(m, id, 0) is Some {
        m
    } else {
        m.push((id, m.len() as usize))
    }
}

/// An outcome with result `res` and state `st`.
pub open spec fn out(res: Result<SpecAST, LowerError>, st: LowerState) -> Option<LowerOut> {
    Some(LowerOut { res, st })
}

/// Lowering `a`: rewritten by the `Pre` rules, then lowered by `post_spec`.
pub open spec fn lower_spec(env: LowerEnv, a: SpecJit, st: LowerState) -> Option<LowerOut>
    decreases jit_size(a), 3nat, 0nat,
{
    match spec_pre_rewrite(a, env.rules, env.ff) {
        None => out(Err(LowerError::BadConstant), st),
        Some(p) => if jit_size(p) <= jit_size(a) {
            post_spec(env, p, st)
        } else {
            None
        },
    }
}

/// Lowering a rewritten node: by the transform of the first `Post` rule
/// whose pattern matches it; without one, a variable is its load, a
/// lowered expression itself, a constant a constant of its lowered
/// components, and anything else `Unhandled`.
pub open spec fn post_spec(env: LowerEnv, p: SpecJit, st: LowerState) -> Option<LowerOut>
    decreases jit_size(p), 2nat, 0nat,
{
    match first_post(env.rules, p, 0) {
        Some(k) => apply_spec(env, env.rules[k as int]->Post_transform, p, st),
        None => match p {
            SpecJit::Var { id, .. } => out(
                Ok(produced_at(env, st.map, id)),
                with_map(st, bound_after(st.map, id)),
            ),
            SpecJit::Lowered { expr, .. } => out(Ok(expr), st),
            SpecJit::Const { dt, data } => match parts_spec(env, p, data, 0, st) {
                Some(o) => match o.res {
                    Ok(parts) => out(Ok(SpecAST::Const { dt, data: parts }), o.st),
                    Err(e) => out(Err(e), o.st),
                },
                None => None,
            },
            _ => out(Err(LowerError::Unhandled), st),
        },
    }
}

/// Lowering the components `data[k..]` of the constant `whole`, in order,
/// stopping at the first error.
pub open spec fn parts_spec(
    env: LowerEnv,
    whole: SpecJit,
    data: Seq<SpecJitPart>,
    k: nat,
    st: LowerState,
) -> Option<PartsOut>
    decreases jit_size(whole), 1nat, data.len() - k,
{
    if k >= data.len() {
        Some(PartsOut { res: Ok(Seq::empty()), st })
    } else {
        match data[k as int] {
            SpecJitPart::Const(b) => match parts_spec(env, whole, data, k + 1, st) {
                Some(o) => Some(
                    PartsOut {
                        res: match o.res {
                            Ok(rest) => Ok(seq![SpecConstPart::Const(b)] + rest),
                            Err(e) => Err(e),
                        },
                        st: o.st,
                    },
                ),
                None => None,
            },
            SpecJitPart::AST(e) => if jit_size(e) < jit_size(whole) {
                match post_spec(env, e, st) {
                    Some(o1) => match o1.res {
                        Ok(x) => match parts_spec(env, whole, data, k + 1, o1.st) {
                            Some(o) => Some(
                                PartsOut {
                                    res: match o.res {
                                        Ok(rest) => Ok(seq![SpecConstPart::AST(x)] + rest),
                                        Err(e) => Err(e),
                                    },
                                    st: o.st,
                                },
                            ),
                            None => None,
                        },
                        Err(err) => Some(PartsOut { res: Err(err), st: o1.st }),
                    },
                    None => None,
                }
            } else {
                None
            },
        }
    }
}

/// `o` with the components `pre` put before its own.
pub open spec fn prepend_parts(pre: Seq<SpecConstPart>, o: Option<PartsOut>) -> Option<PartsOut> {
    match o {
        Some(x) => Some(
            PartsOut {
                res: match x.res {
                    Ok(rest) => Ok(pre + rest),
                    Err(e) => Err(e),
                },
                st: x.st,
            },
        ),
        None => None,
    }
}

pub proof fn lemma_prepend_empty(o: Option<PartsOut>)
    ensures
        prepend_parts(Seq::empty(), o) == o,
{
    if let Some(x) = o {
        if let Ok(rest) = x.res {
            assert(Seq::<SpecConstPart>::empty() + rest =~= rest);
        }
    }
}

pub proof fn lemma_prepend_parts(a: Seq<SpecConstPart>, b: Seq<SpecConstPart>, o: Option<PartsOut>)
    ensures
        prepend_parts(a, prepend_parts(b, o)) == prepend_parts(a + b, o),
{
    if let Some(x) = o {
        if let Ok(rest) = x.res {
            assert(a + (b + rest) =~= (a + b) + rest);
        }
    }
}

/// Lowering `x` then `y` and joining the results with `f`; the first
/// error stops it.
pub open spec fn lower2_spec(
    env: LowerEnv,
    x: SpecJit,
    y: SpecJit,
    st: LowerState,
    f: spec_fn(SpecAST, SpecAST) -> SpecAST,
) -> Option<LowerOut>
    decreases jit_size(x) + jit_size(y) + 1, 0nat, 1nat,
{
    match lower_spec(env, x, st) {
        Some(o1) => match o1.res {
            Ok(lx) => match lower_spec(env, y, o1.st) {
                Some(o2) => match o2.res {
                    Ok(ly) => out(Ok(f(lx, ly)), o2.st),
                    Err(e) => out(Err(e), o2.st),
                },
                None => None,
            },
            Err(e) => out(Err(e), o1.st),
        },
        None => None,
    }
}

/// Lowering `x`, `y` then `z` and joining the results with `f`; the first
/// error stops it.
pub open spec fn lower3_spec(
    env: LowerEnv,
    x: SpecJit,
    y: SpecJit,
    z: SpecJit,
    st: LowerState,
    f: spec_fn(SpecAST, SpecAST, SpecAST) -> SpecAST,
) -> Option<LowerOut>
    decreases jit_size(x) + jit_size(y) + jit_size(z) + 1, 0nat, 1nat,
{
    match lower_spec(env, x, st) {
        Some(o1) => match o1.res {
            Ok(lx) => match lower_spec(env, y, o1.st) {
                Some(o2) => match o2.res {
                    Ok(ly) => match lower_spec(env, z, o2.st) {
                        Some(o3) => match o3.res {
                            Ok(lz) => out(Ok(f(lx, ly, lz)), o3.st),
                            Err(e) => out(Err(e), o3.st),
                        },
                        None => None,
                    },
                    Err(e) => out(Err(e), o2.st),
                },
                None => None,
            },
            Err(e) => out(Err(e), o1.st),
        },
        None => None,
    }
}

/// A call of `name` on the lowered operands.
pub open spec fn call_of(name: Seq<char>, args: Seq<SpecAST>) -> SpecAST {
    SpecAST::FunctionCall { ident: name, args }
}

/// `lhs op rhs`.
pub open spec fn bin_of(lhs: SpecAST, rhs: SpecAST, op: BinOp) -> SpecAST {
    SpecAST::BinaryOp { lhs: Box::new(lhs), rhs: Box::new(rhs), op }
}

/// The name of component `i` of a vector.
pub open spec fn component_name(i: int) -> Seq<char> {
    if i == 0 {
        "x"@
    } else if i == 1 {
        "y"@
    } else if i == 2 {
        "z"@
    } else {
        "w"@
    }
}

/// The components of a cast from `src` to `dst` components of the value
/// held by `var`: its first `src` components, then zero words.
#[verifier::opaque]
pub open spec fn cast_parts(var: SpecVarRefType, src: nat, dst: nat) -> Seq<SpecConstPart> {
    Seq::new(
        dst,
        |i: int|
            if i < src {
                SpecConstPart::AST(
                    SpecAST::Load(spec_with_accessor(var, SpecAccessor::Field(component_name(i)))),
                )
            } else {
                SpecConstPart::Const(le_bytes(0))
            },
    )
}

/// A binary operation lowered as a call of `name` on its operands.
pub open spec fn call2_spec(env: LowerEnv, matched: SpecJit, name: Seq<char>, st: LowerState) -> Option<
    LowerOut,
>
    decreases jit_size(matched), 0nat, 2nat,
{
    match matched {
        SpecJit::BinOp { lhs, rhs, .. } => lower2_spec(
            env,
            *lhs,
            *rhs,
            st,
            |l: SpecAST, r: SpecAST| call_of(name, seq![l, r]),
        ),
        _ => out(Err(LowerError::Unhandled), st),
    }
}

/// A unary operation lowered as a call of `name` on its operand.
pub open spec fn call1_spec(env: LowerEnv, matched: SpecJit, name: Seq<char>, st: LowerState) -> Option<
    LowerOut,
>
    decreases jit_size(matched), 0nat, 2nat,
{
    match matched {
        SpecJit::UnaryOp { operand, .. } => match lower_spec(env, *operand, st) {
            Some(o) => match o.res {
                Ok(x) => out(Ok(call_of(name, seq![x])), o.st),
                Err(e) => out(Err(e), o.st),
            },
            None => None,
        },
        _ => out(Err(LowerError::Unhandled), st),
    }
}

/// A basic unary operation: the operation on the lowered operand.
pub open spec fn unary_basic_spec(env: LowerEnv, matched: SpecJit, st: LowerState) -> Option<
    LowerOut,
>
    decreases jit_size(matched), 0nat, 2nat,
{
    match matched {
        SpecJit::UnaryOp { operand, op } => match lower_spec(env, *operand, st) {
            Some(o) => match o.res {
                Ok(x) => match op {
                    JitUnaryOp::Basic(u) => out(Ok(SpecAST::UnaryOp { operand: Box::new(x), op: u }), o.st),
                    _ => out(Err(LowerError::UnexpectedOp), o.st),
                },
                Err(e) => out(Err(e), o.st),
            },
            None => None,
        },
        _ => out(Err(LowerError::Unhandled), st),
    }
}

/// A basic binary operation: both operands simplified, then the operation
/// simplified; what simplifies is lowered in its place, and otherwise the
/// operation on the lowered operands.
pub open spec fn binary_basic_spec(env: LowerEnv, matched: SpecJit, st: LowerState) -> Option<
    LowerOut,
>
    decreases jit_size(matched), 0nat, 2nat,
{
    match matched {
        SpecJit::BinOp { lhs, rhs, op } => match spec_simplify_node(*lhs, env.ff) {
            None => out(Err(LowerError::BadConstant), st),
            Some(l) => match spec_simplify_node(*rhs, env.ff) {
                None => out(Err(LowerError::BadConstant), st),
                Some(r) => if jit_size(l) <= jit_size(*lhs) && jit_size(r) <= jit_size(*rhs) {
                    match spec_simplify_binop(l, r, op, env.ff) {
                        None => out(Err(LowerError::BadConstant), st),
                        Some(Some(simple)) => if jit_size(simple) < jit_size(matched) {
                            lower_spec(env, simple, st)
                        } else {
                            None
                        },
                        Some(None) => match op {
                            JitBinOp::Basic(b) => lower2_spec(
                                env,
                                l,
                                r,
                                st,
                                |x: SpecAST, y: SpecAST| bin_of(x, y, b),
                            ),
                            _ => match lower2_spec(env, l, r, st, |x: SpecAST, y: SpecAST| x) {
                                Some(o) => match o.res {
                                    Ok(_) => out(Err(LowerError::UnexpectedOp), o.st),
                                    Err(e) => out(Err(e), o.st),
                                },
                                None => None,
                            },
                        },
                    }
                } else {
                    None
                },
            },
        },
        _ => out(Err(LowerError::Unhandled), st),
    }
}

/// `e` indexed by local `loop_idx` when `dt` is an array (then `e` must
/// be a load), `e` itself otherwise.
pub open spec fn index_if_spec(e: SpecAST, dt: DType, loop_idx: nat) -> Result<SpecAST, LowerError> {
    match dt {
        DType::Vector(VecTy::Array(_, _)) => match e {
            SpecAST::Load(v) => Ok(
                SpecAST::Load(spec_with_accessor(v, SpecAccessor::Index(Box::new(local_load(loop_idx))))),
            ),
            _ => Err(LowerError::NotIndexable),
        },
        _ => Ok(e),
    }
}

/// `for (i = 0u; i < n; i = i + 1u) { body }` over local `i`, the body
/// being child scope `body`; without the initialization unless `init`.
pub open spec fn counted_loop(i: nat, n: u32, body: nat, init: bool) -> SpecAST {
    SpecAST::ForLoop {
        init: if init {
            Some(Box::new(SpecAST::Store { var: local_ref(i), val: Box::new(u32_ast(0)) }))
        } else {
            None
        },
        halt_cond: Some(Box::new(bin_of(local_load(i), u32_ast(n), BinOp::Lt))),
        increment: Some(
            Box::new(
                SpecAST::Store {
                    var: local_ref(i),
                    val: Box::new(bin_of(local_load(i), u32_ast(1), BinOp::Add)),
                },
            ),
        ),
        body: body as usize,
    }
}

/// A fresh child of a scope with locals `locals`, holding statement `ast`.
pub open spec fn child_with(locals: Locals, ast: SpecAST) -> SpecScope {
    SpecScope { ast: Some(ast), locals, inherited: locals.len(), children: Seq::empty() }
}

/// An element-wise selection over arrays of `n` elements, from the lowered
/// operands `x`, `y`, `z` (of types `a_dt`, `b_dt`, `c_dt`): a loop index and
/// a result array as new locals, then a loop, in a new child scope, storing
/// `select(y[i], x[i], z[i])` (scalars as they are) into the result, and
/// the result's load.
#[verifier::opaque]
pub open spec fn where_array_spec(
    locals: Locals,
    children: Seq<SpecScope>,
    x: SpecAST,
    y: SpecAST,
    z: SpecAST,
    a_dt: DType,
    b_dt: DType,
    c_dt: DType,
    n: u32,
) -> (Result<SpecAST, LowerError>, Locals, Seq<SpecScope>) {
    let loop_idx = locals.len();
    let l1 = declared(locals, false, u32_ast(0));
    let result_id = l1.len();
    let l2 = declared(l1, true, SpecAST::Const { dt: a_dt, data: Seq::empty() });
    match index_if_spec(y, b_dt, loop_idx) {
        Err(e) => (Err(e), l2, children),
        Ok(bi) => match index_if_spec(x, a_dt, loop_idx) {
            Err(e) => (Err(e), l2, children),
            Ok(ai) => match index_if_spec(z, c_dt, loop_idx) {
                Err(e) => (Err(e), l2, children),
                Ok(ci) => {
                    let body = child_with(
                        l2,
                        SpecAST::Store {
                            var: spec_with_accessor(
                                local_ref(result_id),
                                SpecAccessor::Index(Box::new(local_load(loop_idx))),
                            ),
                            val: Box::new(call_of("select"@, seq![bi, ai, ci])),
                        },
                    );
                    (
                        Ok(
                            SpecAST::Group(
                                seq![counted_loop(loop_idx, n, children.len(), true), local_load(result_id)],
                            ),
                        ),
                        l2,
                        children.push(body),
                    )
                },
            },
        },
    }
}

/// A selection: the types of the three operands must be known; over a
/// sized array it is an element-wise loop (see `where_array_spec`),
/// otherwise `select(b, a, c)` of the lowered operands.
pub open spec fn where_spec(env: LowerEnv, matched: SpecJit, st: LowerState) -> Option<LowerOut>
    decreases jit_size(matched), 0nat, 2nat,
{
    match matched {
        SpecJit::Ternary { a, b, c, .. } => {
            if spec_jit_dt(*a) is None || spec_jit_dt(*b) is None || spec_jit_dt(*c) is None {
                out(Err(LowerError::BadShape), st)
            } else {
                match lower_spec(env, *a, st) {
                    Some(o1) => match o1.res {
                        Ok(x) => match lower_spec(env, *b, o1.st) {
                            Some(o2) => match o2.res {
                                Ok(y) => match lower_spec(env, *c, o2.st) {
                                    Some(o3) => match o3.res {
                                        Ok(z) => match spec_jit_dt(*a) {
                                            Some(DType::Vector(VecTy::Array(elem, Some(n)))) => {
                                                let w = where_array_spec(
                                                    o3.st.locals,
                                                    o3.st.children,
                                                    x,
                                                    y,
                                                    z,
                                                    DType::Vector(VecTy::Array(elem, Some(n))),
                                                    spec_jit_dt(*b)->Some_0,
                                                    spec_jit_dt(*c)->Some_0,
                                                    n,
                                                );
                                                out(
                                                    w.0,
                                                    LowerState { map: o3.st.map, locals: w.1, children: w.2 },
                                                )
                                            },
                                            _ => out(Ok(call_of("select"@, seq![y, x, z])), o3.st),
                                        },
                                        Err(e) => out(Err(e), o3.st),
                                    },
                                    None => None,
                                },
                                Err(e) => out(Err(e), o2.st),
                            },
                            None => None,
                        },
                        Err(e) => out(Err(e), o1.st),
                    },
                    None => None,
                }
            }
        },
        _ => out(Err(LowerError::Unhandled), st),
    }
}

/// A cast to `dt`: the operand's type must be known; with as many
/// components on both sides, a constant of `dt` holding the lowered
/// operand; otherwise, with at most four components on one side, the
/// components of the lowered operand then zeros, read from the operand
/// itself where it is a load and from a new local holding it otherwise.
pub open spec fn cast_spec(env: LowerEnv, matched: SpecJit, st: LowerState) -> Option<LowerOut>
    decreases jit_size(matched), 0nat, 2nat,
{
    match matched {
        SpecJit::Cast { operand, dt } => match spec_jit_dt(*operand) {
            None => out(Err(LowerError::BadShape), st),
            Some(src_dt) => {
                let src = src_dt.spec_element_count();
                let dst = dt.spec_element_count();
                match lower_spec(env, *operand, st) {
                    Some(o) => match o.res {
                        Ok(x) => if src == dst {
                            out(Ok(SpecAST::Const { dt, data: seq![SpecConstPart::AST(x)] }), o.st)
                        } else if src > 4 && dst > 4 {
                            out(Err(LowerError::BadShape), o.st)
                        } else {
                            match x {
                                SpecAST::Load(v) => out(
                                    Ok(SpecAST::Const { dt, data: cast_parts(v, src, dst) }),
                                    o.st,
                                ),
                                _ => out(
                                    Ok(
                                        SpecAST::Const {
                                            dt,
                                            data: cast_parts(local_ref(o.st.locals.len()), src, dst),
                                        },
                                    ),
                                    declare(o.st, false, x),
                                ),
                            }
                        },
                        Err(e) => out(Err(e), o.st),
                    },
                    None => None,
                }
            },
        },
        _ => out(Err(LowerError::Unhandled), st),
    }
}

/// `acc op value` for a reduction: `+`, `*`, or a call of `max`.
pub open spec fn combine_spec(op: ReduceOp, acc: SpecAST, value: SpecAST) -> SpecAST {
    match op {
        ReduceOp::Sum => bin_of(acc, value, BinOp::Add),
        ReduceOp::Prod => bin_of(acc, value, BinOp::Mul),
        ReduceOp::Max => call_of("max"@, seq![acc, value]),
    }
}

/// The value of one step of a reduction: the accumulator and the next
/// element combined by the reduction's own operation, on `u32` values:
/// their wrapping sum, their wrapping product, or the larger of the two.
#[verifier::spinoff_prover]
pub proof fn lemma_combine_value(op: ReduceOp, acc: SpecAST, x: SpecAST, leaf: spec_fn(SpecAST) -> nat)
    ensures
        ({
            let a = eval_u32(acc, leaf);
            let b = eval_u32(x, leaf);
            let v = eval_u32(combine_spec(op, acc, x), leaf);
            &&& op == ReduceOp::Sum ==> v == (a + b) % 0x1_0000_0000
            &&& op == ReduceOp::Prod ==> v == (a * b) % 0x1_0000_0000
            &&& op == ReduceOp::Max ==> v == (if a >= b { a } else { b })
        }),
{
    let args = seq![acc, x];
    assert(args[0] == acc && args[1] == x);
}

/// A reduction that starts from its identity leaves the first element as
/// it is: on `u32` values, combining the identity of `op` with `x` gives
/// the value of `x`.
#[verifier::spinoff_prover]
pub proof fn lemma_combine_identity(op: ReduceOp, x: SpecAST, leaf: spec_fn(SpecAST) -> nat)
    requires
        leaf_bounded(leaf),
    ensures
        ({
            let dt = DType::Basic(BasicTy::Integer(IntegerTy::U32));
            let id = SpecAST::Const { dt, data: seq![SpecConstPart::Const(identity_bytes(dt, op).unwrap())] };
            eval_u32(combine_spec(op, id, x), leaf) == eval_u32(x, leaf)
        }),
{
    let dt = DType::Basic(BasicTy::Integer(IntegerTy::U32));
    let id = SpecAST::Const { dt, data: seq![SpecConstPart::Const(identity_bytes(dt, op).unwrap())] };
    lemma_combine_value(op, id, x, leaf);
    lemma_eval_bounded(x, leaf);
    let b = identity_bytes(dt, op).unwrap();
    assert(b.len() == 4);
    let v = eval_u32(x, leaf);
    assert(v < 0x1_0000_0000);
    vstd::arithmetic::div_mod::lemma_small_mod(v, 0x1_0000_0000);
    if op == ReduceOp::Prod {
        assert(b =~= seq![1u8, 0u8, 0u8, 0u8]);
        assert(eval_u32(id, leaf) == 1);
        assert(1 * v == v) by (nonlinear_arith);
    } else {
        assert(b =~= seq![0u8, 0u8, 0u8, 0u8]);
        assert(eval_u32(id, leaf) == 0);
    }
}

/// The identity of reduction `op` over values of type `dt` (its elements,
/// for an array): a constant of that type with each component the
/// identity's bytes; `BadShape` for an unknown type, `NoIdentity` where
/// the reduction has none.
#[verifier::opaque]
pub open spec fn identity_spec(dt: Option<DType>, op: ReduceOp) -> Result<SpecAST, LowerError> {
    match dt {
        None => Err(LowerError::BadShape),
        Some(d) => {
            let rdt = d.spec_peel_array();
            match identity_bytes(rdt.spec_peel_all(), op) {
                None => Err(LowerError::NoIdentity),
                Some(b) => Ok(
                    SpecAST::Const {
                        dt: rdt,
                        data: Seq::new(rdt.spec_element_count(), |i: int| SpecConstPart::Const(b)),
                    },
                ),
            }
        },
    }
}

/// A reduction of `operand` by `op`: a new mutable local holding the
/// identity, then `acc = acc op x` over the lowered operand `x`, and the
/// accumulator's load.
pub open spec fn reduce_spec(env: LowerEnv, operand: SpecJit, op: ReduceOp, st: LowerState) -> Option<
    LowerOut,
>
    decreases jit_size(operand) + 1, 0nat, 1nat,
{
    match identity_spec(spec_jit_dt(operand), op) {
        Err(e) => out(Err(e), st),
        Ok(init) => match lower_spec(env, operand, st) {
            Some(o) => match o.res {
                Ok(x) => {
                    let acc = o.st.locals.len();
                    out(
                        Ok(
                            SpecAST::Group(
                                seq![
                                    SpecAST::Store {
                                        var: local_ref(acc),
                                        val: Box::new(combine_spec(op, local_load(acc), x)),
                                    },
                                    local_load(acc),
                                ],
                            ),
                        ),
                        declare(o.st, true, init),
                    )
                },
                Err(e) => out(Err(e), o.st),
            },
            None => None,
        },
    }
}

/// Locals, as name, mutability and initial value.
pub type Locals = Seq<(Seq<char>, bool, SpecAST)>;

/// The coordinates of axes `i..` of the index held by local `rem` in
/// `shape`, with the locals after them: each axis but the last divides by
/// its stride and leaves the remainder in a new local; the last is the
/// remainder. `None` where a stride overflows.
pub open spec fn decompose_from(locals: Locals, rem: nat, shape: Seq<usize>, i: nat) -> (Option<
    Seq<SpecAST>,
>, Locals)
    decreases shape.len() - i,
{
    if i + 1 >= shape.len() {
        (Some(seq![local_load(rem)]), locals)
    } else {
        match stride_of(shape, i) {
            None => (None, locals),
            Some(stride) => {
                let next = locals.len();
                let l2 = declared(locals, false, bin_of(local_load(rem), u32_ast(stride), BinOp::Rem));
                prepend_coords(
                    seq![bin_of(local_load(rem), u32_ast(stride), BinOp::Div)],
                    decompose_from(l2, next, shape, i + 1),
                )
            },
        }
    }
}

/// `d` with the coordinates `pre` put before its own.
pub open spec fn prepend_coords(pre: Seq<SpecAST>, d: (Option<Seq<SpecAST>>, Locals)) -> (Option<
    Seq<SpecAST>,
>, Locals) {
    match d.0 {
        Some(cs) => (Some(pre + cs), d.1),
        None => (None, d.1),
    }
}

pub proof fn lemma_prepend_coords(a: Seq<SpecAST>, b: Seq<SpecAST>, d: (Option<Seq<SpecAST>>, Locals))
    ensures
        prepend_coords(a, prepend_coords(b, d)) == prepend_coords(a + b, d),
        prepend_coords(Seq::empty(), d) == d,
{
    if let Some(cs) = d.0 {
        assert(a + (b + cs) =~= (a + b) + cs);
        assert(Seq::<SpecAST>::empty() + cs =~= cs);
    }
}

/// The row-major coordinates of the index `linear` in `shape`, with the
/// locals after them: `[linear]` for at most one axis; otherwise through a
/// new local holding it.
#[verifier::opaque]
pub open spec fn decompose_spec(locals: Locals, linear: SpecAST, shape: Seq<usize>) -> (Option<
    Seq<SpecAST>,
>, Locals) {
    if shape.len() <= 1 {
        (Some(seq![linear]), locals)
    } else {
        decompose_from(declared(locals, false, linear), locals.len(), shape, 0)
    }
}

/// The index of this invocation's element: `global_invocation_id.x`.
pub open spec fn invocation_x() -> SpecAST {
    SpecAST::Load(
        SpecVarRefType::EntryPointGlobal(SpecVarRef { id: 0, by: seq![SpecAccessor::Field("x"@)] }),
    )
}

/// The load of input `binding` at the source index of this invocation's
/// element, with the locals after it: the element index decomposed along
/// `out_shape`, taken back through the movements `ops` (whose shapes are
/// `shapes`), linearized in `base_shape`, and wrapped in the bound checks of
/// padding, whose default is the zero of `base_dt`; `BadShape` where a step
/// does not apply.
#[verifier::opaque]
pub open spec fn gather_spec(
    locals: Locals,
    binding: usize,
    out_shape: Seq<usize>,
    ops: Seq<super::SpecMovOp>,
    shapes: Seq<Seq<usize>>,
    base_shape: Seq<usize>,
    base_dt: Option<DType>,
) -> (Result<SpecAST, LowerError>, Locals) {
    let d = decompose_spec(locals, invocation_x(), out_shape);
    let bad = Err(LowerError::BadShape);
    match d.0 {
        None => (bad, d.1),
        Some(coord) => match spec_apply_chain(coord, ops, shapes, ops.len()) {
            None => (bad, d.1),
            Some(moved) => match spec_coord_linearize(moved.0, base_shape) {
                None => (bad, d.1),
                Some(source) => match base_dt {
                    None => (bad, d.1),
                    Some(bdt) => {
                        let loaded = SpecAST::Load(
                            SpecVarRefType::Global(
                                SpecVarRef { id: binding, by: seq![SpecAccessor::Index(Box::new(source))] },
                            ),
                        );
                        match spec_pad_bounds(loaded, moved.1, pad_zero(bdt)) {
                            Some(x) => (Ok(x), d.1),
                            None => (bad, d.1),
                        }
                    },
                },
            },
        },
    }
}

/// A chain of movements: the shapes along it must be known; its base is
/// lowered, and where that gives a load of an input, the result is the
/// load of the input at the source index of this invocation's element
/// (decomposed along the output shape, taken back through the chain,
/// linearized in the base shape), wrapped in the bound checks of padding;
/// otherwise the lowered base itself.
pub open spec fn movement_spec(env: LowerEnv, matched: SpecJit, st: LowerState) -> Option<LowerOut>
    decreases jit_size(matched), 0nat, 2nat,
{
    let base = chain_base(matched);
    let ops = chain_ops(matched);
    if ops.len() == 0 {
        out(Err(LowerError::Unhandled), st)
    } else if spec_shape(matched) is None || spec_shape(base) is None || chain_shapes(matched) is None {
        out(Err(LowerError::BadShape), st)
    } else if jit_size(base) < jit_size(matched) {
        moved_spec(
            env,
            base,
            ops,
            spec_shape(matched)->Some_0,
            chain_shapes(matched)->Some_0,
            spec_shape(base)->Some_0,
            st,
        )
    } else {
        None
    }
}

/// The base of a chain of movements lowered; a load of an input becomes
/// the load of the input at the source index (see `gather_spec`), anything
/// else stays as it is.
pub open spec fn moved_spec(
    env: LowerEnv,
    base: SpecJit,
    ops: Seq<super::SpecMovOp>,
    out_shape: Seq<usize>,
    shapes: Seq<Seq<usize>>,
    base_shape: Seq<usize>,
    st: LowerState,
) -> Option<LowerOut>
    decreases jit_size(base) + 1, 0nat, 1nat,
{
    match lower_spec(env, base, st) {
        Some(o) => match o.res {
            Ok(SpecAST::Load(SpecVarRefType::Global(vr))) => {
                let g = gather_spec(o.st.locals, vr.id, out_shape, ops, shapes, base_shape, spec_jit_dt(base));
                out(g.0, LowerState { map: o.st.map, locals: g.1, children: o.st.children })
            },
            Ok(other) => out(Ok(other), o.st),
            Err(e) => out(Err(e), o.st),
        },
        None => None,
    }
}

/// A reduction node (along an axis or whole), lowered as a full reduction
/// of its operand.
pub open spec fn reduce_node_spec(env: LowerEnv, matched: SpecJit, st: LowerState) -> Option<LowerOut>
    decreases jit_size(matched), 0nat, 2nat,
{
    match matched {
        SpecJit::Reduce { operand, op, .. } => reduce_spec(env, *operand, op, st),
        SpecJit::AllReduce { operand, op } => reduce_spec(env, *operand, op, st),
        _ => out(Err(LowerError::Unhandled), st),
    }
}

/// What the fused loops of a reduction along an axis need to know of its
/// operand (see `fuse_plan_spec`).
pub struct SpecFusePlan {
    pub input_shape: Seq<usize>,
    pub axis_size: u32,
    pub intermediate_shape: Seq<usize>,
    pub intermediate_size: u32,
    pub shapes: Seq<Seq<usize>>,
    pub base_shape: Seq<usize>,
    pub result_dt: DType,
    pub outer_identity: Seq<u8>,
    pub inner_identity: Seq<u8>,
}

/// The number of elements of `shape`; `None` where it overflows `usize`.
pub open spec fn size_spec(shape: Seq<usize>) -> Option<u32> {
    stride_of(seq![1usize] + shape, 0)
}

/// `shape` without axis `ax`.
pub open spec fn without_axis_spec(shape: Seq<usize>, ax: int) -> Seq<usize> {
    shape.subrange(0, ax) + shape.subrange(ax + 1, shape.len() as int)
}

/// The coordinate of the input: `inner` on axis `ax`, the coordinates of
/// `outer` (one per other axis) on the others.
pub open spec fn merge_axis_spec(outer: Seq<SpecAST>, inner: SpecAST, ax: int, rank: nat) -> Seq<SpecAST> {
    Seq::new(
        rank,
        |d: int|
            if d == ax {
                inner
            } else if d < ax {
                outer[d]
            } else {
                outer[d - 1]
            },
    )
}

/// A constant of type `dt` with each of its components the bytes `b`.
pub open spec fn filled_spec(dt: DType, b: Seq<u8>) -> SpecAST {
    SpecAST::Const { dt, data: Seq::new(dt.spec_element_count(), |i: int| SpecConstPart::Const(b)) }
}

/// The plan for reducing `x` along `ax` by `inner_op`, then whole by
/// `outer_op`: `BadShape` where a shape or type is missing, `ax` is out of
/// range or the number of remaining elements overflows; `NoIdentity` where a
/// reduction has no identity.
#[verifier::opaque]
pub open spec fn fuse_plan_spec(x: SpecJit, ax: usize, inner_op: ReduceOp, outer_op: ReduceOp) -> Result<
    SpecFusePlan,
    LowerError,
> {
    match spec_shape(x) {
        None => Err(LowerError::BadShape),
        Some(input_shape) => if ax >= input_shape.len() {
            Err(LowerError::BadShape)
        } else {
            let intermediate_shape = without_axis_spec(input_shape, ax as int);
            match size_spec(intermediate_shape) {
                None => Err(LowerError::BadShape),
                Some(intermediate_size) => match chain_shapes(x) {
                    None => Err(LowerError::BadShape),
                    Some(shapes) => match spec_shape(chain_base(x)) {
                        None => Err(LowerError::BadShape),
                        Some(base_shape) => match spec_jit_dt(x) {
                            None => Err(LowerError::BadShape),
                            Some(d) => {
                                let result_dt = d.spec_peel_array();
                                let scalar = result_dt.spec_peel_all();
                                match identity_bytes(scalar, outer_op) {
                                    None => Err(LowerError::NoIdentity),
                                    Some(outer_identity) => match identity_bytes(scalar, inner_op) {
                                        None => Err(LowerError::NoIdentity),
                                        Some(inner_identity) => Ok(
                                            SpecFusePlan {
                                                input_shape,
                                                axis_size: input_shape[ax as int] as u32,
                                                intermediate_shape,
                                                intermediate_size,
                                                shapes,
                                                base_shape,
                                                result_dt,
                                                outer_identity,
                                                inner_identity,
                                            },
                                        ),
                                    },
                                }
                            },
                        },
                    },
                },
            }
        },
    }
}

/// The element of input `binding` that the inner loop reads, with the
/// locals of the loop's scope after it: the outer index `outer_i`
/// decomposed along the intermediate shape, axis `ax` set to `inner_i`,
/// taken back through the movements `ops`, linearized in the base shape.
#[verifier::opaque]
pub open spec fn fused_spec(
    locals: Locals,
    outer_i: SpecAST,
    inner_i: SpecAST,
    ax: usize,
    ops: Seq<super::SpecMovOp>,
    plan: SpecFusePlan,
    binding: usize,
) -> (Result<SpecAST, LowerError>, Locals) {
    let d = decompose_spec(locals, outer_i, plan.intermediate_shape);
    let bad = Err(LowerError::BadShape);
    match d.0 {
        None => (bad, d.1),
        Some(coord) => {
            let input_coord = merge_axis_spec(coord, inner_i, ax as int, plan.input_shape.len());
            match spec_apply_chain(input_coord, ops, plan.shapes, ops.len()) {
                None => (bad, d.1),
                Some(moved) => match spec_coord_linearize(moved.0, plan.base_shape) {
                    None => (bad, d.1),
                    Some(source) => (
                        Ok(
                            SpecAST::Load(
                                SpecVarRefType::Global(
                                    SpecVarRef { id: binding, by: seq![SpecAccessor::Index(Box::new(source))] },
                                ),
                            ),
                        ),
                        d.1,
                    ),
                },
            }
        },
    }
}

/// A whole reduction by `outer_op` of a reduction of `x` along `ax` by
/// `inner_op`, as two nested loops: the outer one, in a new child scope,
/// over the elements of the inner reduction's result, the inner one, in a
/// child of that scope, along the axis, each folding into its own
/// accumulator; then the outer accumulator's load. The base of `x`'s
/// movements must be an input variable.
#[verifier::opaque]
pub open spec fn fuse_axis_spec(
    x: SpecJit,
    ax: usize,
    inner_op: ReduceOp,
    outer_op: ReduceOp,
    st: LowerState,
) -> LowerOut {
    match fuse_plan_spec(x, ax, inner_op, outer_op) {
        Err(e) => LowerOut { res: Err(e), st },
        Ok(plan) => match chain_base(x) {
            SpecJit::Var { id, .. } => {
                let binding = match binding_of(st.map, id, 0) {
                    Some(b) => b,
                    None => st.map.len() as usize,
                };
                let st0 = with_map(st, bound_after(st.map, id));
                let outer_acc = st0.locals.len();
                let st1 = declare(st0, true, filled_spec(plan.result_dt, plan.outer_identity));
                let outer_var = st1.locals.len();
                let st2 = declare(st1, true, u32_ast(0));
                let inner_acc = st2.locals.len();
                let l3 = declared(st2.locals, true, filled_spec(plan.result_dt, plan.inner_identity));
                let inner_var = l3.len();
                let l4 = declared(l3, true, u32_ast(0));
                let e = fused_spec(
                    l4,
                    local_load(outer_var),
                    local_load(inner_var),
                    ax,
                    chain_ops(x),
                    plan,
                    binding,
                );
                match e.0 {
                    Err(err) => LowerOut { res: Err(err), st: st2 },
                    Ok(element) => {
                        let inner_body = SpecScope {
                            ast: Some(
                                SpecAST::Store {
                                    var: local_ref(inner_acc),
                                    val: Box::new(combine_spec(inner_op, local_load(inner_acc), element)),
                                },
                            ),
                            locals: e.1,
                            inherited: l4.len(),
                            children: Seq::empty(),
                        };
                        let outer_body = SpecScope {
                            ast: Some(
                                SpecAST::Group(
                                    seq![
                                        counted_loop(inner_var, plan.axis_size, 0, false),
                                        SpecAST::Store {
                                            var: local_ref(outer_acc),
                                            val: Box::new(
                                                combine_spec(outer_op, local_load(outer_acc), local_load(inner_acc)),
                                            ),
                                        },
                                    ],
                                ),
                            ),
                            locals: l4,
                            inherited: st2.locals.len(),
                            children: seq![inner_body],
                        };
                        LowerOut {
                            res: Ok(
                                SpecAST::Group(
                                    seq![
                                        counted_loop(
                                            outer_var,
                                            plan.intermediate_size,
                                            st2.children.len(),
                                            false,
                                        ),
                                        local_load(outer_acc),
                                    ],
                                ),
                            ),
                            st: LowerState {
                                map: st2.map,
                                locals: st2.locals,
                                children: st2.children.push(outer_body),
                            },
                        }
                    },
                }
            },
            _ => LowerOut { res: Err(LowerError::BadShape), st },
        },
    }
}

/// Two stacked reductions: a whole reduction of a reduction along an axis
/// becomes two nested loops (see `fuse_axis_spec`); otherwise the outer
/// reduction applies to the innermost operand.
pub open spec fn fuse_spec(env: LowerEnv, matched: SpecJit, st: LowerState) -> Option<LowerOut>
    decreases jit_size(matched), 0nat, 2nat,
{
    match matched {
        SpecJit::AllReduce { operand, op } => match *operand {
            SpecJit::Reduce { operand: x, axis, op: inner_op } => Some(
                fuse_axis_spec(*x, axis, inner_op, op, st),
            ),
            SpecJit::AllReduce { operand: x, .. } => if jit_size(*x) + 1 < jit_size(matched) {
                reduce_spec(env, *x, op, st)
            } else {
                None
            },
            _ => out(Err(LowerError::Unhandled), st),
        },
        SpecJit::Reduce { operand, op, .. } => match *operand {
            SpecJit::Reduce { operand: x, .. } => if jit_size(*x) + 1 < jit_size(matched) {
                reduce_spec(env, *x, op, st)
            } else {
                None
            },
            SpecJit::AllReduce { operand: x, .. } => if jit_size(*x) + 1 < jit_size(matched) {
                reduce_spec(env, *x, op, st)
            } else {
                None
            },
            _ => out(Err(LowerError::Unhandled), st),
        },
        _ => out(Err(LowerError::Unhandled), st),
    }
}

/// Lowering `matched` by transform `t`.
pub open spec fn apply_spec(env: LowerEnv, t: PostTransform, matched: SpecJit, st: LowerState) -> Option<
    LowerOut,
>
    decreases jit_size(matched), 1nat, 0nat,
{
    match t {
        PostTransform::Cdiv => call2_spec(env, matched, "ceil_div"@, st),
        PostTransform::BinopMax => call2_spec(env, matched, "max"@, st),
        PostTransform::Cmod => call2_spec(env, matched, "ceil_mod"@, st),
        PostTransform::Fdiv => call2_spec(env, matched, "fdiv"@, st),
        PostTransform::Pow => call2_spec(env, matched, "pow"@, st),
        PostTransform::Floordiv => call2_spec(env, matched, "floor_div"@, st),
        PostTransform::Floormod => call2_spec(env, matched, "floor_mod"@, st),
        PostTransform::Threefry => match matched {
            SpecJit::BinOp { lhs, rhs, .. } => lower2_spec(
                env,
                *lhs,
                *rhs,
                st,
                |l: SpecAST, r: SpecAST| bin_of(bin_of(l, u32_ast(2654435761u32), BinOp::Mul), r, BinOp::Add),
            ),
            _ => out(Err(LowerError::Unhandled), st),
        },
        PostTransform::Exp2 => call1_spec(env, matched, "exp2"@, st),
        PostTransform::Log2 => call1_spec(env, matched, "log2"@, st),
        PostTransform::Sin => call1_spec(env, matched, "sin"@, st),
        PostTransform::Sqrt => call1_spec(env, matched, "sqrt"@, st),
        PostTransform::Reciprocal => call1_spec(env, matched, "reciprocal"@, st),
        PostTransform::Trunc => call1_spec(env, matched, "trunc"@, st),
        PostTransform::Bitcast => call1_spec(env, matched, "bitcast"@, st),
        PostTransform::Cast => cast_spec(env, matched, st),
        PostTransform::TernaryWhere => where_spec(env, matched, st),
        PostTransform::TernaryMulacc => match matched {
            SpecJit::Ternary { a, b, c, .. } => lower3_spec(
                env,
                *a,
                *b,
                *c,
                st,
                |x: SpecAST, y: SpecAST, z: SpecAST| bin_of(bin_of(x, y, BinOp::Mul), z, BinOp::Add),
            ),
            _ => out(Err(LowerError::Unhandled), st),
        },
        PostTransform::BinopBasic => binary_basic_spec(env, matched, st),
        PostTransform::UnaryopBasic => unary_basic_spec(env, matched, st),
        PostTransform::Movement => movement_spec(env, matched, st),
        PostTransform::FuseReduce => fuse_spec(env, matched, st),
        PostTransform::Reduce => reduce_node_spec(env, matched, st),
        PostTransform::AllReduce => reduce_node_spec(env, matched, st),
    }
}

} // verus!
