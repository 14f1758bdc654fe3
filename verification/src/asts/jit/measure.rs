//! The size of tensor expressions, and that rewriting never makes an
//! expression larger: what bounds the recursion of lowering.
use vstd::prelude::*;

use super::pattern::{SpecPat, SpecPatPart, part_bind, parts_bind, parts_match, pat_bind, pat_matches};
use super::rewrite::{apply_pre_rules, pre_parts, pre_transform, spec_fuse_cast_cast, spec_pre_rewrite};
use super::rules::{SpecRule};
use super::shape::min_len;
use super::simplify::{identities, spec_simplify_binop, spec_simplify_node, spec_simplify_pre, zero_like};
use super::{SpecJit, SpecJitPart, const_jit};
use crate::asts::lowered::BinOp;

verus! {

/// The number of nodes of an expression, components of constants included.
pub open spec fn jit_size(a: SpecJit) -> nat
    decreases a, 0nat,
{
    match a {
        SpecJit::BinOp { lhs, rhs, .. } => 1 + jit_size(*lhs) + jit_size(*rhs),
        SpecJit::UnaryOp { operand, .. } => 1 + jit_size(*operand),
        SpecJit::Cast { operand, .. } => 1 + jit_size(*operand),
        SpecJit::Ternary { a, b, c, .. } => 1 + jit_size(*a) + jit_size(*b) + jit_size(*c),
        SpecJit::Movement { operand, .. } => 1 + jit_size(*operand),
        SpecJit::Reduce { operand, .. } => 1 + jit_size(*operand),
        SpecJit::AllReduce { operand, .. } => 1 + jit_size(*operand),
        SpecJit::Const { data, .. } => 1 + parts_size(data, data.len()),
        _ => 1,
    }
}

/// The size of the first `k` components of a constant.
pub open spec fn parts_size(parts: Seq<SpecJitPart>, k: nat) -> nat
    decreases parts, k,
{
    if k == 0 || k > parts.len() {
        0
    } else {
        parts_size(parts, (k - 1) as nat) + match parts[k - 1] {
            SpecJitPart::AST(e) => jit_size(e),
            SpecJitPart::Const(_) => 1,
        }
    }
}

/// Every value of `m` is the value `ctx` has for its key, or of size at most `s`.
pub open spec fn bound_by(m: Map<Seq<char>, SpecJit>, ctx: Map<Seq<char>, SpecJit>, s: nat) -> bool {
    forall|k: Seq<char>| #[trigger]
        m.contains_key(k) ==> (ctx.contains_key(k) && m[k] == ctx[k]) || jit_size(m[k]) <= s
}

proof fn lemma_bound_trans(
    m2: Map<Seq<char>, SpecJit>,
    m1: Map<Seq<char>, SpecJit>,
    ctx: Map<Seq<char>, SpecJit>,
    s1: nat,
    s2: nat,
    s: nat,
)
    requires
        bound_by(m2, m1, s2),
        bound_by(m1, ctx, s1),
        s1 <= s,
        s2 <= s,
    ensures
        bound_by(m2, ctx, s),
{
    assert forall|k: Seq<char>| #[trigger] m2.contains_key(k) implies (ctx.contains_key(k) && m2[k]
        == ctx[k]) || jit_size(m2[k]) <= s by {
        if m1.contains_key(k) && m2[k] == m1[k] {
        }
    }
}

proof fn lemma_bound_weaken(m: Map<Seq<char>, SpecJit>, ctx: Map<Seq<char>, SpecJit>, s1: nat, s: nat)
    requires
        bound_by(m, ctx, s1),
        s1 <= s,
    ensures
        bound_by(m, ctx, s),
{
}

proof fn lemma_bound_refl(ctx: Map<Seq<char>, SpecJit>, s: nat)
    ensures
        bound_by(ctx, ctx, s),
{
}

/// Every value that matching `p` against `a` records is either already in
/// `ctx` or no larger than `a`.
pub proof fn lemma_bind_size(p: SpecPat, a: SpecJit, ctx: Map<Seq<char>, SpecJit>)
    ensures
        bound_by(pat_bind(p, a, ctx), ctx, jit_size(a)),
    decreases p, 0nat,
{
    let s = jit_size(a);
    lemma_bound_refl(ctx, s);
    match p {
        SpecPat::Var(n) => {
            let m = ctx.insert(n, a);
            assert forall|k: Seq<char>| #[trigger] m.contains_key(k) implies (ctx.contains_key(k)
                && m[k] == ctx[k]) || jit_size(m[k]) <= s by {
                if k == n {
                } else {
                }
            }
        },
        SpecPat::Const { dt, data: pd } => match a {
            SpecJit::Const { data, .. } => {
                let n = min_len(pd.len(), data.len());
                lemma_parts_bind_size(pd, data, n, ctx);
                lemma_bound_weaken(parts_bind(pd, data, n, ctx), ctx, parts_size(data, data.len()), s);
            },
            _ => {},
        },
        SpecPat::BinOp { lhs, rhs, .. } => match a {
            SpecJit::BinOp { lhs: al, rhs: ar, .. } => {
                lemma_bind_size(*lhs, *al, ctx);
                let c1 = pat_bind(*lhs, *al, ctx);
                lemma_bind_size(*rhs, *ar, c1);
                lemma_bound_trans(pat_bind(*rhs, *ar, c1), c1, ctx, jit_size(*al), jit_size(*ar), s);
                lemma_bound_weaken(c1, ctx, jit_size(*al), s);
            },
            _ => {},
        },
        SpecPat::UnaryOp { operand, .. } => match a {
            SpecJit::UnaryOp { operand: ao, .. } => {
                lemma_bind_size(*operand, *ao, ctx);
                lemma_bound_weaken(pat_bind(*operand, *ao, ctx), ctx, jit_size(*ao), s);
            },
            _ => {},
        },
        SpecPat::Cast { operand, .. } => match a {
            SpecJit::Cast { operand: ao, .. } => {
                lemma_bind_size(*operand, *ao, ctx);
                lemma_bound_weaken(pat_bind(*operand, *ao, ctx), ctx, jit_size(*ao), s);
            },
            _ => {},
        },
        SpecPat::Ternary { a: pa, b: pb, c: pc, .. } => match a {
            SpecJit::Ternary { a: xa, b: xb, c: xc, .. } => {
                lemma_bind_size(*pa, *xa, ctx);
                let c1 = pat_bind(*pa, *xa, ctx);
                lemma_bind_size(*pb, *xb, c1);
                let c2 = pat_bind(*pb, *xb, c1);
                lemma_bind_size(*pc, *xc, c2);
                lemma_bound_weaken(c1, ctx, jit_size(*xa), s);
                lemma_bound_trans(c2, c1, ctx, s, jit_size(*xb), s);
                lemma_bound_trans(pat_bind(*pc, *xc, c2), c2, ctx, s, jit_size(*xc), s);
            },
            _ => {},
        },
        SpecPat::Movement { operand, .. } => match a {
            SpecJit::Movement { operand: ao, .. } => {
                lemma_bind_size(*operand, *ao, ctx);
                lemma_bound_weaken(pat_bind(*operand, *ao, ctx), ctx, jit_size(*ao), s);
            },
            _ => {},
        },
        SpecPat::Reduce { operand, .. } => match a {
            SpecJit::Reduce { operand: ao, .. } => {
                lemma_bind_size(*operand, *ao, ctx);
                lemma_bound_weaken(pat_bind(*operand, *ao, ctx), ctx, jit_size(*ao), s);
            },
            _ => {},
        },
        SpecPat::AllReduce { operand, .. } => match a {
            SpecJit::AllReduce { operand: ao, .. } => {
                lemma_bind_size(*operand, *ao, ctx);
                lemma_bound_weaken(pat_bind(*operand, *ao, ctx), ctx, jit_size(*ao), s);
            },
            _ => {},
        },
    }
}

proof fn lemma_parts_size_le(parts: Seq<SpecJitPart>, k: nat, n: nat)
    requires
        k <= n,
        n <= parts.len(),
    ensures
        parts_size(parts, k) <= parts_size(parts, n),
    decreases n - k,
{
    if k < n {
        lemma_parts_size_le(parts, k + 1, n);
    }
}

proof fn lemma_parts_bind_size(
    ps: Seq<SpecPatPart>,
    xs: Seq<SpecJitPart>,
    k: nat,
    ctx: Map<Seq<char>, SpecJit>,
)
    ensures
        bound_by(parts_bind(ps, xs, k, ctx), ctx, parts_size(xs, xs.len())),
    decreases ps, k,
{
    let s = parts_size(xs, xs.len());
    lemma_bound_refl(ctx, s);
    if k == 0 || k > ps.len() || k > xs.len() {
    } else {
        lemma_parts_bind_size(ps, xs, (k - 1) as nat, ctx);
        let c = parts_bind(ps, xs, (k - 1) as nat, ctx);
        if parts_match(ps, xs, (k - 1) as nat) {
            assert(parts_bind(ps, xs, k, ctx) == part_bind(ps[k - 1], xs[k - 1], c));
            match (ps[k - 1], xs[k - 1]) {
                (SpecPatPart::AST(Some(q)), SpecJitPart::AST(e)) => {
                    lemma_bind_size(q, e, c);
                    lemma_parts_size_le(xs, k, xs.len());
                    assert(jit_size(e) <= parts_size(xs, k));
                    assert(part_bind(ps[k - 1], xs[k - 1], c) == pat_bind(q, e, c));
                    lemma_bound_trans(pat_bind(q, e, c), c, ctx, s, jit_size(e), s);
                },
                _ => {
                    assert(part_bind(ps[k - 1], xs[k - 1], c) == c);
                },
            }
        } else {
            assert(parts_bind(ps, xs, k, ctx) == c);
        }
    }
}

/// A component of a constant is smaller than the constant.
pub proof fn lemma_part_size(parts: Seq<SpecJitPart>, j: nat)
    requires
        j < parts.len(),
    ensures
        parts[j as int] matches SpecJitPart::AST(e) ==> jit_size(e) <= parts_size(parts, parts.len()),
{
    lemma_parts_size_le(parts, j + 1, parts.len());
}

/// The base of a chain of movements is no larger than the chain, and
/// smaller when there is at least one movement.
pub proof fn lemma_chain_base_size(a: SpecJit)
    ensures
        jit_size(super::shape::chain_base(a)) <= jit_size(a),
        a is Movement ==> jit_size(super::shape::chain_base(a)) < jit_size(a),
    decreases a,
{
    match a {
        SpecJit::Movement { operand, .. } => {
            lemma_chain_base_size(*operand);
        },
        _ => {},
    }
}

/// Rewriting before lowering never makes an expression larger.
pub proof fn lemma_pre_size(a: SpecJit, rules: Seq<SpecRule>, ff: spec_fn(u32, u32, BinOp) -> u32)
    ensures
        spec_pre_rewrite(a, rules, ff) matches Some(b) ==> jit_size(b) <= jit_size(a),
    decreases a, 0nat,
{
    let children = match a {
        SpecJit::BinOp { lhs, rhs, op } => {
            lemma_pre_size(*lhs, rules, ff);
            lemma_pre_size(*rhs, rules, ff);
            match (spec_pre_rewrite(*lhs, rules, ff), spec_pre_rewrite(*rhs, rules, ff)) {
                (Some(l), Some(r)) => Some(SpecJit::BinOp { lhs: Box::new(l), rhs: Box::new(r), op }),
                _ => None,
            }
        },
        SpecJit::UnaryOp { operand, op } => {
            lemma_pre_size(*operand, rules, ff);
            match spec_pre_rewrite(*operand, rules, ff) {
                Some(o) => Some(SpecJit::UnaryOp { operand: Box::new(o), op }),
                None => None,
            }
        },
        SpecJit::Cast { operand, dt } => {
            lemma_pre_size(*operand, rules, ff);
            match spec_pre_rewrite(*operand, rules, ff) {
                Some(o) => Some(SpecJit::Cast { operand: Box::new(o), dt }),
                None => None,
            }
        },
        SpecJit::Ternary { a: x, b: y, c: z, op } => {
            lemma_pre_size(*x, rules, ff);
            lemma_pre_size(*y, rules, ff);
            lemma_pre_size(*z, rules, ff);
            match (
                spec_pre_rewrite(*x, rules, ff),
                spec_pre_rewrite(*y, rules, ff),
                spec_pre_rewrite(*z, rules, ff),
            ) {
                (Some(x1), Some(y1), Some(z1)) => Some(
                    SpecJit::Ternary { a: Box::new(x1), b: Box::new(y1), c: Box::new(z1), op },
                ),
                _ => None,
            }
        },
        SpecJit::Movement { operand, op } => {
            lemma_pre_size(*operand, rules, ff);
            match spec_pre_rewrite(*operand, rules, ff) {
                Some(o) => Some(SpecJit::Movement { operand: Box::new(o), op }),
                None => None,
            }
        },
        SpecJit::Reduce { operand, axis, op } => {
            lemma_pre_size(*operand, rules, ff);
            match spec_pre_rewrite(*operand, rules, ff) {
                Some(o) => Some(SpecJit::Reduce { operand: Box::new(o), axis, op }),
                None => None,
            }
        },
        SpecJit::AllReduce { operand, op } => {
            lemma_pre_size(*operand, rules, ff);
            match spec_pre_rewrite(*operand, rules, ff) {
                Some(o) => Some(SpecJit::AllReduce { operand: Box::new(o), op }),
                None => None,
            }
        },
        SpecJit::Const { dt, data } => {
            lemma_pre_parts_size(data, data.len(), rules, ff);
            match pre_parts(data, data.len(), rules, ff) {
                Some(d) => Some(SpecJit::Const { dt, data: d }),
                None => None,
            }
        },
        other => Some(other),
    };
    match children {
        Some(c) => {
            assert(jit_size(c) <= jit_size(a));
            lemma_apply_pre_size(c, rules, 0, ff);
        },
        None => {},
    }
}

proof fn lemma_pre_parts_size(
    parts: Seq<SpecJitPart>,
    k: nat,
    rules: Seq<SpecRule>,
    ff: spec_fn(u32, u32, BinOp) -> u32,
)
    ensures
        pre_parts(parts, k, rules, ff) matches Some(d) ==> d.len() == k && parts_size(d, d.len())
            <= parts_size(parts, k),
    decreases parts, k,
{
    if k == 0 || k > parts.len() {
    } else {
        lemma_pre_parts_size(parts, (k - 1) as nat, rules, ff);
        match pre_parts(parts, (k - 1) as nat, rules, ff) {
            Some(d) => {
                match parts[k - 1] {
                    SpecJitPart::AST(e) => {
                        lemma_pre_size(e, rules, ff);
                        match spec_pre_rewrite(e, rules, ff) {
                            Some(x) => {
                                let d2 = d.push(SpecJitPart::AST(x));
                                lemma_parts_size_push(d, SpecJitPart::AST(x));
                            },
                            None => {},
                        }
                    },
                    SpecJitPart::Const(b) => {
                        lemma_parts_size_push(d, SpecJitPart::Const(b));
                    },
                }
            },
            None => {},
        }
    }
}

proof fn lemma_parts_size_push(d: Seq<SpecJitPart>, x: SpecJitPart)
    ensures
        parts_size(d.push(x), d.len() + 1) == parts_size(d, d.len()) + match x {
            SpecJitPart::AST(e) => jit_size(e),
            SpecJitPart::Const(_) => 1,
        },
{
    lemma_parts_size_prefix(d.push(x), d, d.len());
}

proof fn lemma_parts_size_prefix(a: Seq<SpecJitPart>, b: Seq<SpecJitPart>, k: nat)
    requires
        k <= b.len(),
        k <= a.len(),
        forall|i: int| 0 <= i < k ==> a[i] == b[i],
    ensures
        parts_size(a, k) == parts_size(b, k),
    decreases k,
{
    if k > 0 {
        lemma_parts_size_prefix(a, b, (k - 1) as nat);
    }
}

/// The size of any expression is at least one.
pub proof fn lemma_size_pos(a: SpecJit)
    ensures
        jit_size(a) >= 1,
{
}

proof fn lemma_const_size(dt: crate::dt::DType, b: Seq<u8>)
    ensures
        jit_size(const_jit(dt, b)) == 2,
{
    let d = seq![SpecJitPart::Const(b)];
    assert(d.drop_last() =~= Seq::<SpecJitPart>::empty());
    assert(parts_size(d, 1) == parts_size(d, 0) + 1);
}

proof fn lemma_apply_pre_size(a: SpecJit, rules: Seq<SpecRule>, i: nat, ff: spec_fn(u32, u32, BinOp) -> u32)
    ensures
        apply_pre_rules(a, rules, i, ff) matches Some(b) ==> jit_size(b) <= jit_size(a),
    decreases rules.len() - i,
{
    if i >= rules.len() {
    } else {
        match rules[i as int] {
            SpecRule::Pre { pat, transform } => if pat_matches(pat, a) {
                let ctx = pat_bind(pat, a, Map::empty());
                lemma_bind_size(pat, a, Map::empty());
                assert forall|k: Seq<char>| #[trigger] ctx.contains_key(k) implies jit_size(ctx[k])
                    <= jit_size(a) by {
                    assert(!Map::<Seq<char>, SpecJit>::empty().contains_key(k));
                }
                lemma_pre_transform_size(transform, a, ctx, ff);
            } else {
                lemma_apply_pre_size(a, rules, i + 1, ff);
            },
            _ => {
                lemma_apply_pre_size(a, rules, i + 1, ff);
            },
        }
    }
}

proof fn lemma_pre_transform_size(
    t: super::rules::PreTransform,
    a: SpecJit,
    ctx: Map<Seq<char>, SpecJit>,
    ff: spec_fn(u32, u32, BinOp) -> u32,
)
    requires
        forall|k: Seq<char>| #[trigger] ctx.contains_key(k) ==> jit_size(ctx[k]) <= jit_size(a),
    ensures
        pre_transform(t, a, ctx, ff) matches Some(b) ==> jit_size(b) <= jit_size(a),
{
    match t {
        super::rules::PreTransform::FuseCastCast => {
            match a {
                SpecJit::Cast { operand, .. } => match *operand {
                    SpecJit::Cast { operand: inner, .. } => {
                        assert(jit_size(a) == 1 + jit_size(*operand));
                        assert(jit_size(*operand) == 1 + jit_size(*inner));
                    },
                    _ => {},
                },
                _ => {},
            }
        },
        super::rules::PreTransform::SimplifyBinopPre => {
            if ctx.contains_key("lhs"@) && ctx.contains_key("rhs"@) {
                let lhs = ctx["lhs"@];
                let rhs = ctx["rhs"@];
                match a {
                    SpecJit::BinOp { lhs: al, rhs: ar, .. } => {
                        lemma_size_pos(*al);
                        lemma_size_pos(*ar);
                        lemma_const_size(crate::dt::DType::Basic(crate::dt::BasicTy::F32), seq![]);
                        assert forall|dt: crate::dt::DType, b: Seq<u8>| #[trigger]
                            jit_size(const_jit(dt, b)) == 2 by {
                            lemma_const_size(dt, b);
                        }
                        lemma_zero_like_size(lhs);
                        lemma_zero_like_size(rhs);
                    },
                    _ => {},
                }
            }
        },
    }
}

proof fn lemma_zero_like_size(a: SpecJit)
    ensures
        zero_like(a) matches Some(z) ==> jit_size(z) == 2,
{
    match zero_like(a) {
        Some(z) => match a {
            SpecJit::Const { dt, .. } => {
                assert forall|d: crate::dt::DType, b: Seq<u8>| #[trigger]
                    jit_size(const_jit(d, b)) == 2 by {
                    lemma_const_size(d, b);
                }
            },
            _ => {},
        },
        None => {},
    }
}

/// Simplifying while lowering never makes an expression larger.
pub proof fn lemma_simplify_node_size(a: SpecJit, ff: spec_fn(u32, u32, BinOp) -> u32)
    ensures
        spec_simplify_node(a, ff) matches Some(b) ==> jit_size(b) <= jit_size(a),
    decreases a,
{
    match a {
        SpecJit::BinOp { lhs, rhs, op } => {
            lemma_simplify_node_size(*lhs, ff);
            lemma_simplify_node_size(*rhs, ff);
            match (spec_simplify_node(*lhs, ff), spec_simplify_node(*rhs, ff)) {
                (Some(l), Some(r)) => {
                    lemma_simplify_binop_size(l, r, op, ff);
                },
                _ => {},
            }
        },
        _ => {},
    }
}

/// A simplification of `lhs op rhs` is smaller than the operation.
pub proof fn lemma_simplify_binop_size(
    lhs: SpecJit,
    rhs: SpecJit,
    op: super::JitBinOp,
    ff: spec_fn(u32, u32, BinOp) -> u32,
)
    ensures
        spec_simplify_binop(lhs, rhs, op, ff) matches Some(Some(x)) ==> jit_size(x) < 1 + jit_size(lhs)
            + jit_size(rhs),
{
    lemma_size_pos(lhs);
    lemma_size_pos(rhs);
    assert forall|d: crate::dt::DType, b: Seq<u8>| #[trigger] jit_size(const_jit(d, b)) == 2 by {
        lemma_const_size(d, b);
    }
}

} // verus!
