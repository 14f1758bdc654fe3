//! The rewrite pass that runs before lowering: children first, then the
//! first rule of the `Pre` kind whose pattern matches.
use vstd::prelude::*;

use super::pattern::{Captures, pat_bind, pat_matches};
use super::rules::{PreTransform, RewriteRule, SpecRule, rules_view};
use super::simplify::{fold_ok, folder, simplify_binop_pre, spec_simplify_pre};
use super::{AstConst, JitAST, JitASTOrConst, SpecJit, SpecJitPart, clone_jit, jit_parts_view};
use crate::asts::lowered::BinOp;

verus! {

/// `Cast(Cast(x, _), dt)` becomes `Cast(x, dt)`.
pub open spec fn spec_fuse_cast_cast(a: SpecJit) -> Option<SpecJit> {
    match a {
        SpecJit::Cast { operand, dt } => match *operand {
            SpecJit::Cast { operand: inner, .. } => Some(SpecJit::Cast { operand: inner, dt }),
            _ => None,
        },
        _ => None,
    }
}

/// The result of the pre-lowering transform `t` on `a`, with captures `ctx`.
pub open spec fn pre_transform(
    t: PreTransform,
    a: SpecJit,
    ctx: Map<Seq<char>, SpecJit>,
    ff: spec_fn(u32, u32, BinOp) -> u32,
) -> Option<SpecJit> {
    match t {
        PreTransform::FuseCastCast => spec_fuse_cast_cast(a),
        PreTransform::SimplifyBinopPre => if ctx.contains_key("lhs"@) && ctx.contains_key("rhs"@) {
            spec_simplify_pre(a, ctx["lhs"@], ctx["rhs"@], ff)
        } else {
            None
        },
    }
}

/// `a` transformed by the first rule of `rules[i..]` of the `Pre` kind
/// whose pattern matches it; `a` itself when none does.
pub open spec fn apply_pre_rules(
    a: SpecJit,
    rules: Seq<SpecRule>,
    i: nat,
    ff: spec_fn(u32, u32, BinOp) -> u32,
) -> Option<SpecJit>
    decreases rules.len() - i,
{
    if i >= rules.len() {
        Some(a)
    } else {
        match rules[i as int] {
            SpecRule::Pre { pat, transform } => if pat_matches(pat, a) {
                pre_transform(transform, a, pat_bind(pat, a, Map::empty()), ff)
            } else {
                apply_pre_rules(a, rules, i + 1, ff)
            },
            _ => apply_pre_rules(a, rules, i + 1, ff),
        }
    }
}

/// `a` rewritten bottom-up: operands (and expression components of
/// constants) first, then the node itself. `None` where a transform fails.
pub open spec fn spec_pre_rewrite(a: SpecJit, rules: Seq<SpecRule>, ff: spec_fn(u32, u32, BinOp) -> u32) -> Option<
    SpecJit,
>
    decreases a, 0nat,
{
    let children = match a {
        SpecJit::BinOp { lhs, rhs, op } => match (
            spec_pre_rewrite(*lhs, rules, ff),
            spec_pre_rewrite(*rhs, rules, ff),
        ) {
            (Some(l), Some(r)) => Some(SpecJit::BinOp { lhs: Box::new(l), rhs: Box::new(r), op }),
            _ => None,
        },
        SpecJit::UnaryOp { operand, op } => match spec_pre_rewrite(*operand, rules, ff) {
            Some(o) => Some(SpecJit::UnaryOp { operand: Box::new(o), op }),
            None => None,
        },
        SpecJit::Cast { operand, dt } => match spec_pre_rewrite(*operand, rules, ff) {
            Some(o) => Some(SpecJit::Cast { operand: Box::new(o), dt }),
            None => None,
        },
        SpecJit::Ternary { a: x, b: y, c: z, op } => match (
            spec_pre_rewrite(*x, rules, ff),
            spec_pre_rewrite(*y, rules, ff),
            spec_pre_rewrite(*z, rules, ff),
        ) {
            (Some(x1), Some(y1), Some(z1)) => Some(
                SpecJit::Ternary { a: Box::new(x1), b: Box::new(y1), c: Box::new(z1), op },
            ),
            _ => None,
        },
        SpecJit::Movement { operand, op } => match spec_pre_rewrite(*operand, rules, ff) {
            Some(o) => Some(SpecJit::Movement { operand: Box::new(o), op }),
            None => None,
        },
        SpecJit::Reduce { operand, axis, op } => match spec_pre_rewrite(*operand, rules, ff) {
            Some(o) => Some(SpecJit::Reduce { operand: Box::new(o), axis, op }),
            None => None,
        },
        SpecJit::AllReduce { operand, op } => match spec_pre_rewrite(*operand, rules, ff) {
            Some(o) => Some(SpecJit::AllReduce { operand: Box::new(o), op }),
            None => None,
        },
        SpecJit::Const { dt, data } => match pre_parts(data, data.len(), rules, ff) {
            Some(d) => Some(SpecJit::Const { dt, data: d }),
            None => None,
        },
        other => Some(other),
    };
    match children {
        Some(c) => apply_pre_rules(c, rules, 0, ff),
        None => None,
    }
}

/// The first `k` components of a constant, expressions rewritten.
pub open spec fn pre_parts(
    parts: Seq<SpecJitPart>,
    k: nat,
    rules: Seq<SpecRule>,
    ff: spec_fn(u32, u32, BinOp) -> u32,
) -> Option<Seq<SpecJitPart>>
    decreases parts, k,
{
    if k == 0 || k > parts.len() {
        if k == 0 {
            Some(Seq::empty())
        } else {
            None
        }
    } else {
        match pre_parts(parts, (k - 1) as nat, rules, ff) {
            Some(d) => match parts[k - 1] {
                SpecJitPart::AST(e) => match spec_pre_rewrite(e, rules, ff) {
                    Some(x) => Some(d.push(SpecJitPart::AST(x))),
                    None => None,
                },
                SpecJitPart::Const(b) => Some(d.push(SpecJitPart::Const(b))),
            },
            None => None,
        }
    }
}

/// `Cast(Cast(x, _), dt)` becomes `Cast(x, dt)`; `None` for another shape.
pub fn fuse_cast_cast(matched: JitAST) -> (r: Option<JitAST>)
    ensures
        spec_fuse_cast_cast(matched@) == match r {
            Some(x) => Some(x@),
            None => None,
        },
{
    match &matched {
        JitAST::Cast { operand, dt: outer_dt } => match &**operand {
            JitAST::Cast { operand: inner_operand, .. } => {
                proof {
                    reveal_with_fuel(super::jit_view, 2);
                }
                Some(JitAST::Cast { operand: Box::new(clone_jit(inner_operand)), dt: outer_dt.clone() })
            },
            _ => {
                proof {
                    reveal_with_fuel(super::jit_view, 2);
                }
                None
            },
        },
        _ => None,
    }
}

/// The views of an optional result.
pub open spec fn opt_view(r: Option<JitAST>) -> Option<SpecJit> {
    match r {
        Some(x) => Some(x@),
        None => None,
    }
}

fn apply_pre_transform<F: Fn(u32, u32, BinOp) -> u32>(
    t: &PreTransform,
    ast: JitAST,
    ctx: &Captures,
    fold: &F,
) -> (r: Option<JitAST>)
    requires
        fold_ok(*fold),
    ensures
        pre_transform(*t, ast@, ctx@, folder(*fold)) == opt_view(r),
{
    match t {
        PreTransform::FuseCastCast => fuse_cast_cast(ast),
        PreTransform::SimplifyBinopPre => {
            let has_lhs = ctx.get("lhs").is_some();
            let has_rhs = ctx.get("rhs").is_some();
            if has_lhs && has_rhs {
                simplify_binop_pre(ast, ctx, fold)
            } else {
                None
            }
        },
    }
}

fn apply_pre<F: Fn(u32, u32, BinOp) -> u32>(ast: JitAST, rules: &Vec<RewriteRule>, fold: &F) -> (r: Option<
    JitAST,
>)
    requires
        fold_ok(*fold),
    ensures
        apply_pre_rules(ast@, rules_view(rules@), 0, folder(*fold)) == opt_view(r),
{
    let ghost rv = rules_view(rules@);
    let n = rules.len();
    let mut i: usize = 0;
    while i < n
        invariant
            n == rules@.len(),
            rv == rules_view(rules@),
            fold_ok(*fold),
            i <= n,
            apply_pre_rules(ast@, rv, 0, folder(*fold)) == apply_pre_rules(ast@, rv, i as nat, folder(*fold)),
        decreases n - i,
    {
        match &rules[i] {
            RewriteRule::Pre { pat, transform } => {
                let mut ctx = Captures::new();
                if pat.matches(&ast, &mut ctx) {
                    return apply_pre_transform(transform, ast, &ctx, fold);
                }
            },
            _ => {},
        }
        i = i + 1;
    }
    Some(ast)
}

/// `ast` rewritten bottom-up by the `Pre` rules of `rules`, `f32`
/// constants folded by `fold`; `None` where a transform fails (a constant
/// that cannot be read, integer folding that overflows or divides by zero).
pub fn pre_rewrite<F: Fn(u32, u32, BinOp) -> u32>(ast: &JitAST, rules: &Vec<RewriteRule>, fold: &F) -> (r:
    Option<JitAST>)
    requires
        fold_ok(*fold),
    ensures
        spec_pre_rewrite(ast@, rules_view(rules@), folder(*fold)) == opt_view(r),
    decreases ast, 0nat,
{
    let rebuilt = match ast {
        JitAST::BinOp { lhs, rhs, op } => {
            let l = pre_rewrite(lhs, rules, fold);
            let r = pre_rewrite(rhs, rules, fold);
            match (l, r) {
                (Some(l), Some(r)) => JitAST::BinOp { lhs: Box::new(l), rhs: Box::new(r), op: op.clone() },
                _ => {
                    return None;
                },
            }
        },
        JitAST::UnaryOp { operand, op } => match pre_rewrite(operand, rules, fold) {
            Some(o) => JitAST::UnaryOp { operand: Box::new(o), op: op.clone() },
            None => {
                return None;
            },
        },
        JitAST::Cast { operand, dt } => match pre_rewrite(operand, rules, fold) {
            Some(o) => JitAST::Cast { operand: Box::new(o), dt: dt.clone() },
            None => {
                return None;
            },
        },
        JitAST::Ternary { a, b, c, op } => {
            let x = pre_rewrite(a, rules, fold);
            let y = pre_rewrite(b, rules, fold);
            let z = pre_rewrite(c, rules, fold);
            match (x, y, z) {
                (Some(x), Some(y), Some(z)) => JitAST::Ternary {
                    a: Box::new(x),
                    b: Box::new(y),
                    c: Box::new(z),
                    op: op.clone(),
                },
                _ => {
                    return None;
                },
            }
        },
        JitAST::Movement { operand, op } => match pre_rewrite(operand, rules, fold) {
            Some(o) => JitAST::Movement { operand: Box::new(o), op: op.clone() },
            None => {
                return None;
            },
        },
        JitAST::Reduce { operand, axis, op } => match pre_rewrite(operand, rules, fold) {
            Some(o) => JitAST::Reduce { operand: Box::new(o), axis: *axis, op: op.clone() },
            None => {
                return None;
            },
        },
        JitAST::AllReduce { operand, op } => match pre_rewrite(operand, rules, fold) {
            Some(o) => JitAST::AllReduce { operand: Box::new(o), op: op.clone() },
            None => {
                return None;
            },
        },
        JitAST::Const(c) => {
            proof {
                super::lemma_jit_parts_view(c.data@);
            }
            match pre_rewrite_parts(&c.data, rules, fold) {
                Some(d) => JitAST::Const(AstConst { dt: c.dt.clone(), data: d }),
                None => {
                    return None;
                },
            }
        },
        other => clone_jit(other),
    };
    apply_pre(rebuilt, rules, fold)
}

fn pre_rewrite_parts<F: Fn(u32, u32, BinOp) -> u32>(
    data: &Vec<JitASTOrConst>,
    rules: &Vec<RewriteRule>,
    fold: &F,
) -> (r: Option<Vec<JitASTOrConst>>)
    requires
        fold_ok(*fold),
    ensures
        pre_parts(jit_parts_view(data@), data@.len(), rules_view(rules@), folder(*fold)) == match r {
            Some(v) => Some(jit_parts_view(v@)),
            None => None,
        },
    decreases data, 1nat,
{
    let ghost pv = jit_parts_view(data@);
    let ghost rv = rules_view(rules@);
    proof {
        super::lemma_jit_parts_view(data@);
    }
    let n = data.len();
    let mut out: Vec<JitASTOrConst> = Vec::new();
    let mut k: usize = 0;
    while k < n
        invariant
            n == data@.len(),
            pv == jit_parts_view(data@),
            pv.len() == n,
            forall|m: int| 0 <= m < n ==> pv[m] == data@[m]@,
            rv == rules_view(rules@),
            fold_ok(*fold),
            k <= n,
            pre_parts(pv, k as nat, rv, folder(*fold)) == Some(jit_parts_view(out@)),
        decreases n - k,
    {
        proof {
            vstd::std_specs::vec::axiom_vec_index_decreases(*data, k as int);
        }
        let part = match &data[k] {
            JitASTOrConst::AST(e) => match pre_rewrite(e, rules, fold) {
                Some(x) => JitASTOrConst::AST(x),
                None => {
                    proof {
                        lemma_pre_parts_none(pv, (k + 1) as nat, n as nat, rv, folder(*fold));
                    }
                    return None;
                },
            },
            JitASTOrConst::Const(b) => JitASTOrConst::Const(crate::asts::lowered::clone_bytes(b)),
        };
        let ghost prev = out@;
        out.push(part);
        proof {
            assert(out@.drop_last() =~= prev);
            assert(jit_parts_view(out@) == jit_parts_view(prev).push(out@.last()@));
        }
        k = k + 1;
    }
    Some(out)
}

proof fn lemma_pre_parts_none(
    parts: Seq<SpecJitPart>,
    k: nat,
    n: nat,
    rules: Seq<SpecRule>,
    ff: spec_fn(u32, u32, BinOp) -> u32,
)
    requires
        1 <= k <= n,
        n <= parts.len(),
        pre_parts(parts, k, rules, ff) is None,
    ensures
        pre_parts(parts, n, rules, ff) is None,
    decreases n - k,
{
    if k < n {
        lemma_pre_parts_none(parts, k + 1, n, rules, ff);
    }
}

} // verus!
