//! The model of lowering says what comes out of every expression: each of
//! its functions is defined (`Some`) on all arguments.
use vstd::prelude::*;

use super::lower_spec::{
    LowerEnv, LowerState, apply_spec, bin_of, call1_spec, call2_spec, call_of, cast_spec, fuse_spec,
    lower2_spec, lower3_spec, lower_spec, moved_spec, movement_spec, parts_spec, post_spec,
    reduce_node_spec, reduce_spec, unary_basic_spec, binary_basic_spec, where_spec,
};
use super::lowering::first_post;
use super::measure::{
    jit_size, lemma_chain_base_size, lemma_part_size, lemma_pre_size, lemma_simplify_binop_size,
    lemma_simplify_node_size,
};
use super::rewrite::spec_pre_rewrite;
use super::rules::PostTransform;
use super::simplify::spec_simplify_node;
use super::{ReduceOp, SpecJit, SpecJitPart};
use crate::asts::lowered::SpecAST;

verus! {

/// Lowering is modelled for every expression and every state.
pub proof fn lemma_lower_total(env: LowerEnv, a: SpecJit, st: LowerState)
    ensures
        lower_spec(env, a, st) is Some,
    decreases jit_size(a), 3nat, 0nat,
{
    lemma_pre_size(a, env.rules, env.ff);
    if let Some(p) = spec_pre_rewrite(a, env.rules, env.ff) {
        lemma_post_total(env, p, st);
    }
}

proof fn lemma_post_total(env: LowerEnv, p: SpecJit, st: LowerState)
    ensures
        post_spec(env, p, st) is Some,
    decreases jit_size(p), 2nat, 0nat,
{
    match first_post(env.rules, p, 0) {
        Some(k) => {
            lemma_apply_total(env, env.rules[k as int]->Post_transform, p, st);
        },
        None => {
            if let SpecJit::Const { data, .. } = p {
                lemma_parts_total(env, p, data, 0, st);
            }
        },
    }
}

proof fn lemma_parts_total(env: LowerEnv, whole: SpecJit, data: Seq<SpecJitPart>, k: nat, st: LowerState)
    requires
        whole matches SpecJit::Const { data: d, .. } && d == data,
    ensures
        parts_spec(env, whole, data, k, st) is Some,
    decreases jit_size(whole), 1nat, data.len() - k,
{
    if k < data.len() {
        match data[k as int] {
            SpecJitPart::Const(_) => {
                lemma_parts_total(env, whole, data, k + 1, st);
            },
            SpecJitPart::AST(e) => {
                lemma_part_size(data, k);
                assert(jit_size(e) < jit_size(whole));
                lemma_post_total(env, e, st);
                let o1 = post_spec(env, e, st)->Some_0;
                if o1.res is Ok {
                    lemma_parts_total(env, whole, data, k + 1, o1.st);
                }
            },
        }
    }
}

proof fn lemma_lower2_total(
    env: LowerEnv,
    x: SpecJit,
    y: SpecJit,
    st: LowerState,
    f: spec_fn(SpecAST, SpecAST) -> SpecAST,
)
    ensures
        lower2_spec(env, x, y, st, f) is Some,
    decreases jit_size(x) + jit_size(y) + 1, 0nat, 1nat,
{
    lemma_lower_total(env, x, st);
    let o1 = lower_spec(env, x, st)->Some_0;
    if o1.res is Ok {
        lemma_lower_total(env, y, o1.st);
    }
}

proof fn lemma_lower3_total(
    env: LowerEnv,
    x: SpecJit,
    y: SpecJit,
    z: SpecJit,
    st: LowerState,
    f: spec_fn(SpecAST, SpecAST, SpecAST) -> SpecAST,
)
    ensures
        lower3_spec(env, x, y, z, st, f) is Some,
    decreases jit_size(x) + jit_size(y) + jit_size(z) + 1, 0nat, 1nat,
{
    lemma_lower_total(env, x, st);
    let o1 = lower_spec(env, x, st)->Some_0;
    if o1.res is Ok {
        lemma_lower_total(env, y, o1.st);
        let o2 = lower_spec(env, y, o1.st)->Some_0;
        if o2.res is Ok {
            lemma_lower_total(env, z, o2.st);
        }
    }
}

proof fn lemma_reduce_total(env: LowerEnv, operand: SpecJit, op: ReduceOp, st: LowerState)
    ensures
        reduce_spec(env, operand, op, st) is Some,
    decreases jit_size(operand) + 1, 0nat, 1nat,
{
    lemma_lower_total(env, operand, st);
}

proof fn lemma_moved_total(
    env: LowerEnv,
    base: SpecJit,
    ops: Seq<super::SpecMovOp>,
    out_shape: Seq<usize>,
    shapes: Seq<Seq<usize>>,
    base_shape: Seq<usize>,
    st: LowerState,
)
    ensures
        moved_spec(env, base, ops, out_shape, shapes, base_shape, st) is Some,
    decreases jit_size(base) + 1, 0nat, 1nat,
{
    lemma_lower_total(env, base, st);
}

proof fn lemma_call2_total(env: LowerEnv, matched: SpecJit, name: Seq<char>, st: LowerState)
    ensures
        call2_spec(env, matched, name, st) is Some,
    decreases jit_size(matched), 0nat, 2nat,
{
    if let SpecJit::BinOp { lhs, rhs, .. } = matched {
        lemma_lower2_total(env, *lhs, *rhs, st, |l: SpecAST, r: SpecAST| call_of(name, seq![l, r]));
    }
}

proof fn lemma_call1_total(env: LowerEnv, matched: SpecJit, name: Seq<char>, st: LowerState)
    ensures
        call1_spec(env, matched, name, st) is Some,
        unary_basic_spec(env, matched, st) is Some,
    decreases jit_size(matched), 0nat, 2nat,
{
    if let SpecJit::UnaryOp { operand, .. } = matched {
        lemma_lower_total(env, *operand, st);
    }
}

proof fn lemma_cast_total(env: LowerEnv, matched: SpecJit, st: LowerState)
    ensures
        cast_spec(env, matched, st) is Some,
    decreases jit_size(matched), 0nat, 2nat,
{
    if let SpecJit::Cast { operand, .. } = matched {
        lemma_lower_total(env, *operand, st);
    }
}

proof fn lemma_where_total(env: LowerEnv, matched: SpecJit, st: LowerState)
    ensures
        where_spec(env, matched, st) is Some,
    decreases jit_size(matched), 0nat, 2nat,
{
    if let SpecJit::Ternary { a, b, c, .. } = matched {
        lemma_lower_total(env, *a, st);
        let o1 = lower_spec(env, *a, st)->Some_0;
        if o1.res is Ok {
            lemma_lower_total(env, *b, o1.st);
            let o2 = lower_spec(env, *b, o1.st)->Some_0;
            if o2.res is Ok {
                lemma_lower_total(env, *c, o2.st);
            }
        }
    }
}

proof fn lemma_binary_basic_total(env: LowerEnv, matched: SpecJit, st: LowerState)
    ensures
        binary_basic_spec(env, matched, st) is Some,
    decreases jit_size(matched), 0nat, 2nat,
{
    if let SpecJit::BinOp { lhs, rhs, op } = matched {
        lemma_simplify_node_size(*lhs, env.ff);
        lemma_simplify_node_size(*rhs, env.ff);
        if let (Some(l), Some(r)) = (spec_simplify_node(*lhs, env.ff), spec_simplify_node(*rhs, env.ff)) {
            lemma_simplify_binop_size(l, r, op, env.ff);
            lemma_lower2_total(env, l, r, st, |x: SpecAST, y: SpecAST| x);
            if let Some(Some(simple)) = super::simplify::spec_simplify_binop(l, r, op, env.ff) {
                lemma_lower_total(env, simple, st);
            }
            if let super::JitBinOp::Basic(b) = op {
                lemma_lower2_total(env, l, r, st, |x: SpecAST, y: SpecAST| bin_of(x, y, b));
            }
        }
    }
}

proof fn lemma_movement_total(env: LowerEnv, matched: SpecJit, st: LowerState)
    ensures
        movement_spec(env, matched, st) is Some,
    decreases jit_size(matched), 0nat, 2nat,
{
    lemma_chain_base_size(matched);
    let base = super::shape::chain_base(matched);
    if jit_size(base) < jit_size(matched) {
        lemma_moved_total(
            env,
            base,
            super::shape::chain_ops(matched),
            super::shape::spec_shape(matched)->Some_0,
            super::lowering::chain_shapes(matched)->Some_0,
            super::shape::spec_shape(base)->Some_0,
            st,
        );
    }
}

/// Fusing reductions, and lowering a reduction node, is defined for every
/// expression and state: the model always gives an outcome.
pub proof fn lemma_fuse_total(env: LowerEnv, matched: SpecJit, st: LowerState)
    ensures
        fuse_spec(env, matched, st) is Some,
        reduce_node_spec(env, matched, st) is Some,
    decreases jit_size(matched), 0nat, 2nat,
{
    match matched {
        SpecJit::AllReduce { operand, op } => {
            lemma_reduce_total(env, *operand, op, st);
            if let SpecJit::AllReduce { operand: x, .. } = *operand {
                lemma_reduce_total(env, *x, op, st);
            }
        },
        SpecJit::Reduce { operand, op, .. } => {
            lemma_reduce_total(env, *operand, op, st);
            match *operand {
                SpecJit::Reduce { operand: x, .. } => {
                    lemma_reduce_total(env, *x, op, st);
                },
                SpecJit::AllReduce { operand: x, .. } => {
                    lemma_reduce_total(env, *x, op, st);
                },
                _ => {},
            }
        },
        _ => {},
    }
}

proof fn lemma_apply_total(env: LowerEnv, t: PostTransform, matched: SpecJit, st: LowerState)
    ensures
        apply_spec(env, t, matched, st) is Some,
    decreases jit_size(matched), 1nat, 0nat,
{
    match t {
        PostTransform::Cdiv => lemma_call2_total(env, matched, "ceil_div"@, st),
        PostTransform::BinopMax => lemma_call2_total(env, matched, "max"@, st),
        PostTransform::Cmod => lemma_call2_total(env, matched, "ceil_mod"@, st),
        PostTransform::Fdiv => lemma_call2_total(env, matched, "fdiv"@, st),
        PostTransform::Pow => lemma_call2_total(env, matched, "pow"@, st),
        PostTransform::Floordiv => lemma_call2_total(env, matched, "floor_div"@, st),
        PostTransform::Floormod => lemma_call2_total(env, matched, "floor_mod"@, st),
        PostTransform::Threefry => {
            if let SpecJit::BinOp { lhs, rhs, .. } = matched {
                lemma_lower2_total(
                    env,
                    *lhs,
                    *rhs,
                    st,
                    |l: SpecAST, r: SpecAST| bin_of(
                        bin_of(l, crate::asts::lowered::u32_ast(2654435761u32), crate::asts::lowered::BinOp::Mul),
                        r,
                        crate::asts::lowered::BinOp::Add,
                    ),
                );
            }
        },
        PostTransform::Exp2 => lemma_call1_total(env, matched, "exp2"@, st),
        PostTransform::Log2 => lemma_call1_total(env, matched, "log2"@, st),
        PostTransform::Sin => lemma_call1_total(env, matched, "sin"@, st),
        PostTransform::Sqrt => lemma_call1_total(env, matched, "sqrt"@, st),
        PostTransform::Reciprocal => lemma_call1_total(env, matched, "reciprocal"@, st),
        PostTransform::Trunc => lemma_call1_total(env, matched, "trunc"@, st),
        PostTransform::Bitcast => lemma_call1_total(env, matched, "bitcast"@, st),
        PostTransform::Cast => lemma_cast_total(env, matched, st),
        PostTransform::TernaryWhere => lemma_where_total(env, matched, st),
        PostTransform::TernaryMulacc => {
            if let SpecJit::Ternary { a, b, c, .. } = matched {
                lemma_lower3_total(
                    env,
                    *a,
                    *b,
                    *c,
                    st,
                    |x: SpecAST, y: SpecAST, z: SpecAST| bin_of(
                        bin_of(x, y, crate::asts::lowered::BinOp::Mul),
                        z,
                        crate::asts::lowered::BinOp::Add,
                    ),
                );
            }
        },
        PostTransform::Movement => lemma_movement_total(env, matched, st),
        PostTransform::BinopBasic => lemma_binary_basic_total(env, matched, st),
        PostTransform::UnaryopBasic => lemma_call1_total(env, matched, "exp2"@, st),
        PostTransform::FuseReduce => lemma_fuse_total(env, matched, st),
        PostTransform::Reduce => lemma_fuse_total(env, matched, st),
        PostTransform::AllReduce => lemma_fuse_total(env, matched, st),
    }
}

} // verus!
