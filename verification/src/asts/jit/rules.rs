//! Rewrite rules: a pattern and the transform applied where it matches.
use vstd::prelude::*;
use vstd::string::*;

use super::pattern::{PatJitAST, SpecPat, opt_ok, pat_matches};
use super::{JitBinOp, JitUnaryOp, ReduceOp, SpecJit, TernaryOp};

verus! {

/// Transforms applied before lowering, from tensor expression to tensor
/// expression.
#[derive(Debug, PartialEq, Eq, Structural)]
pub enum PreTransform {
    FuseCastCast,
    SimplifyBinopPre,
}

/// Transforms that lower a tensor expression to the lowered language.
#[derive(Debug, PartialEq, Eq, Structural)]
pub enum PostTransform {
    Cdiv,
    BinopMax,
    Cmod,
    Fdiv,
    Pow,
    Floordiv,
    Floormod,
    Threefry,
    Exp2,
    Log2,
    Sin,
    Sqrt,
    Reciprocal,
    Trunc,
    Bitcast,
    Cast,
    TernaryWhere,
    TernaryMulacc,
    Movement,
    BinopBasic,
    UnaryopBasic,
    FuseReduce,
    Reduce,
    AllReduce,
}

/// A rewrite rule.
pub enum RewriteRule {
    Pre { pat: PatJitAST, transform: PreTransform },
    Post { pat: PatJitAST, transform: PostTransform },
}

/// Mathematical model of a [`RewriteRule`].
pub enum SpecRule {
    Pre { pat: SpecPat, transform: PreTransform },
    Post { pat: SpecPat, transform: PostTransform },
}

impl View for RewriteRule {
    type V = SpecRule;

    open spec fn view(&self) -> SpecRule {
        match *self {
            RewriteRule::Pre { pat, transform } => SpecRule::Pre { pat: pat@, transform },
            RewriteRule::Post { pat, transform } => SpecRule::Post { pat: pat@, transform },
        }
    }
}

/// The views of a list of rules.
pub open spec fn rules_view(s: Seq<RewriteRule>) -> Seq<SpecRule> {
    s.map_values(|r: RewriteRule| r@)
}

impl RewriteRule {
    pub fn pre(pat: PatJitAST, transform: PreTransform) -> (r: Self)
        ensures
            r@ == (SpecRule::Pre { pat: pat@, transform }),
    {
        RewriteRule::Pre { pat, transform }
    }

    pub fn post(pat: PatJitAST, transform: PostTransform) -> (r: Self)
        ensures
            r@ == (SpecRule::Post { pat: pat@, transform }),
    {
        RewriteRule::Post { pat, transform }
    }
}

/// `Var(name)`.
pub open spec fn sp_var(name: Seq<char>) -> SpecPat {
    SpecPat::Var(name)
}

/// `lhs op rhs` over captures named `lhs` and `rhs`.
pub open spec fn sp_bin(op: Option<JitBinOp>) -> SpecPat {
    SpecPat::BinOp { lhs: Box::new(sp_var("lhs"@)), rhs: Box::new(sp_var("rhs"@)), op }
}

/// `op x` over a capture named `x`.
pub open spec fn sp_un(op: Option<JitUnaryOp>) -> SpecPat {
    SpecPat::UnaryOp { operand: Box::new(sp_var("x"@)), op }
}

/// `op(a, b, c)` over captures named `a`, `b` and `c`.
pub open spec fn sp_ternary(op: TernaryOp) -> SpecPat {
    SpecPat::Ternary {
        a: Box::new(sp_var("a"@)),
        b: Box::new(sp_var("b"@)),
        c: Box::new(sp_var("c"@)),
        op: Some(op),
    }
}

/// Any cast of `operand`.
pub open spec fn sp_cast(operand: SpecPat) -> SpecPat {
    SpecPat::Cast { operand: Box::new(operand), dt: None }
}

/// Any reduction along any axis of `operand`.
pub open spec fn sp_reduce(operand: SpecPat) -> SpecPat {
    SpecPat::Reduce { operand: Box::new(operand), axis: None, op: None }
}

/// Any full reduction of `operand`.
pub open spec fn sp_all_reduce(operand: SpecPat) -> SpecPat {
    SpecPat::AllReduce { operand: Box::new(operand), op: None }
}

/// The built-in rules, in the order they are tried.
pub open spec fn builtin_rules_spec() -> Seq<SpecRule> {
    let x = sp_var("x"@);
    seq![
        SpecRule::Post { pat: sp_bin(Some(JitBinOp::Cdiv)), transform: PostTransform::Cdiv },
        SpecRule::Post { pat: sp_bin(Some(JitBinOp::Max)), transform: PostTransform::BinopMax },
        SpecRule::Post { pat: sp_bin(Some(JitBinOp::Cmod)), transform: PostTransform::Cmod },
        SpecRule::Post { pat: sp_bin(Some(JitBinOp::Fdiv)), transform: PostTransform::Fdiv },
        SpecRule::Post { pat: sp_bin(Some(JitBinOp::Pow)), transform: PostTransform::Pow },
        SpecRule::Post { pat: sp_bin(Some(JitBinOp::Floordiv)), transform: PostTransform::Floordiv },
        SpecRule::Post { pat: sp_bin(Some(JitBinOp::Floormod)), transform: PostTransform::Floormod },
        SpecRule::Post { pat: sp_bin(Some(JitBinOp::Threefry)), transform: PostTransform::Threefry },
        SpecRule::Post { pat: sp_un(Some(JitUnaryOp::Exp2)), transform: PostTransform::Exp2 },
        SpecRule::Post { pat: sp_un(Some(JitUnaryOp::Log2)), transform: PostTransform::Log2 },
        SpecRule::Post { pat: sp_un(Some(JitUnaryOp::Sin)), transform: PostTransform::Sin },
        SpecRule::Post { pat: sp_un(Some(JitUnaryOp::Sqrt)), transform: PostTransform::Sqrt },
        SpecRule::Post {
            pat: sp_un(Some(JitUnaryOp::Reciprocal)),
            transform: PostTransform::Reciprocal,
        },
        SpecRule::Post { pat: sp_un(Some(JitUnaryOp::Trunc)), transform: PostTransform::Trunc },
        SpecRule::Post { pat: sp_un(Some(JitUnaryOp::Bitcast)), transform: PostTransform::Bitcast },
        SpecRule::Pre { pat: sp_cast(sp_cast(x)), transform: PreTransform::FuseCastCast },
        SpecRule::Post { pat: sp_cast(x), transform: PostTransform::Cast },
        SpecRule::Post { pat: sp_ternary(TernaryOp::Where), transform: PostTransform::TernaryWhere },
        SpecRule::Post { pat: sp_ternary(TernaryOp::Mulacc), transform: PostTransform::TernaryMulacc },
        SpecRule::Post {
            pat: SpecPat::Movement { operand: Box::new(x), op: None },
            transform: PostTransform::Movement,
        },
        SpecRule::Pre { pat: sp_bin(None), transform: PreTransform::SimplifyBinopPre },
        SpecRule::Post { pat: sp_bin(None), transform: PostTransform::BinopBasic },
        SpecRule::Post { pat: sp_un(None), transform: PostTransform::UnaryopBasic },
        SpecRule::Post { pat: sp_all_reduce(sp_reduce(x)), transform: PostTransform::FuseReduce },
        SpecRule::Post { pat: sp_reduce(sp_all_reduce(x)), transform: PostTransform::FuseReduce },
        SpecRule::Post { pat: sp_all_reduce(sp_all_reduce(x)), transform: PostTransform::FuseReduce },
        SpecRule::Post { pat: sp_reduce(x), transform: PostTransform::Reduce },
        SpecRule::Post { pat: sp_all_reduce(x), transform: PostTransform::AllReduce },
    ]
}

fn p_var(name: &str) -> (r: PatJitAST)
    ensures
        r@ == sp_var(name@),
{
    PatJitAST::Var(String::from_str(name))
}

fn p_bin(op: Option<JitBinOp>) -> (r: PatJitAST)
    ensures
        r@ == sp_bin(op),
{
    PatJitAST::BinOp { lhs: Box::new(p_var("lhs")), rhs: Box::new(p_var("rhs")), op }
}

fn p_un(op: Option<JitUnaryOp>) -> (r: PatJitAST)
    ensures
        r@ == sp_un(op),
{
    PatJitAST::UnaryOp { operand: Box::new(p_var("x")), op }
}

fn p_ternary(op: TernaryOp) -> (r: PatJitAST)
    ensures
        r@ == sp_ternary(op),
{
    PatJitAST::Ternary {
        a: Box::new(p_var("a")),
        b: Box::new(p_var("b")),
        c: Box::new(p_var("c")),
        op: Some(op),
    }
}

fn p_cast(operand: PatJitAST) -> (r: PatJitAST)
    ensures
        r@ == sp_cast(operand@),
{
    PatJitAST::Cast { operand: Box::new(operand), dt: None }
}

fn p_reduce(operand: PatJitAST) -> (r: PatJitAST)
    ensures
        r@ == sp_reduce(operand@),
{
    PatJitAST::Reduce { operand: Box::new(operand), axis: None, op: None }
}

fn p_all_reduce(operand: PatJitAST) -> (r: PatJitAST)
    ensures
        r@ == sp_all_reduce(operand@),
{
    PatJitAST::AllReduce { operand: Box::new(operand), op: None }
}

/// `a` is an operation node, which lowering must transform: a binary or
/// unary operation, a cast, a ternary operation, a movement or a reduction.
pub open spec fn operation_node(a: SpecJit) -> bool {
    ||| a is BinOp
    ||| a is UnaryOp
    ||| a is Cast
    ||| a is Ternary
    ||| a is Movement
    ||| a is Reduce
    ||| a is AllReduce
}

/// Rule `i` of `rules` is a lowering rule whose pattern matches `a`.
pub open spec fn post_rule_matches(rules: Seq<SpecRule>, i: int, a: SpecJit) -> bool {
    &&& 0 <= i < rules.len()
    &&& rules[i] matches SpecRule::Post { pat, .. } && pat_matches(pat, a)
}

/// Every operation node is matched by some lowering rule of the built-in
/// rules, so lowering with them never leaves an operation untransformed.
#[verifier::spinoff_prover]
pub proof fn lemma_builtin_rules_cover(a: SpecJit)
    requires
        operation_node(a),
    ensures
        exists|i: int| #[trigger] post_rule_matches(builtin_rules_spec(), i, a),
{
    let rules = builtin_rules_spec();
    let x = sp_var("x"@);
    assert(rules.len() == 28);
    match a {
        SpecJit::BinOp { lhs, rhs, op } => {
            assert(opt_ok::<JitBinOp>(None, op));
            assert(pat_matches(sp_var("lhs"@), *lhs));
            assert(pat_matches(sp_var("rhs"@), *rhs));
            assert(pat_matches(sp_bin(None), a));
            assert(rules[21] == SpecRule::Post { pat: sp_bin(None), transform: PostTransform::BinopBasic });
            assert(post_rule_matches(rules, 21, a));
        },
        SpecJit::UnaryOp { operand, op } => {
            assert(opt_ok::<JitUnaryOp>(None, op));
            assert(pat_matches(x, *operand));
            assert(pat_matches(sp_un(None), a));
            assert(rules[22] == SpecRule::Post { pat: sp_un(None), transform: PostTransform::UnaryopBasic });
            assert(post_rule_matches(rules, 22, a));
        },
        SpecJit::Cast { operand, .. } => {
            assert(pat_matches(x, *operand));
            assert(pat_matches(sp_cast(x), a));
            assert(rules[16] == SpecRule::Post { pat: sp_cast(x), transform: PostTransform::Cast });
            assert(post_rule_matches(rules, 16, a));
        },
        SpecJit::Ternary { a: ta, b: tb, c: tc, op } => match op {
            TernaryOp::Where => {
                assert(pat_matches(sp_var("a"@), *ta) && pat_matches(sp_var("b"@), *tb) && pat_matches(sp_var("c"@), *tc));
                assert(opt_ok(Some(TernaryOp::Where), op));
                assert(pat_matches(sp_ternary(TernaryOp::Where), a));
                assert(rules[17] == SpecRule::Post {
                    pat: sp_ternary(TernaryOp::Where),
                    transform: PostTransform::TernaryWhere,
                });
                assert(post_rule_matches(rules, 17, a));
            },
            TernaryOp::Mulacc => {
                assert(pat_matches(sp_var("a"@), *ta) && pat_matches(sp_var("b"@), *tb) && pat_matches(sp_var("c"@), *tc));
                assert(opt_ok(Some(TernaryOp::Mulacc), op));
                assert(pat_matches(sp_ternary(TernaryOp::Mulacc), a));
                assert(rules[18] == SpecRule::Post {
                    pat: sp_ternary(TernaryOp::Mulacc),
                    transform: PostTransform::TernaryMulacc,
                });
                assert(post_rule_matches(rules, 18, a));
            },
        },
        SpecJit::Movement { operand, .. } => {
            assert(pat_matches(x, *operand));
            assert(pat_matches(SpecPat::Movement { operand: Box::new(x), op: None }, a));
            assert(rules[19] is Post && rules[19]->Post_pat == SpecPat::Movement { operand: Box::new(x), op: None });
            assert(post_rule_matches(rules, 19, a));
        },
        SpecJit::Reduce { operand, axis, op } => {
            assert(pat_matches(x, *operand));
            assert(opt_ok::<usize>(None, axis) && opt_ok::<ReduceOp>(None, op));
            assert(pat_matches(sp_reduce(x), a));
            assert(rules[26] == SpecRule::Post { pat: sp_reduce(x), transform: PostTransform::Reduce });
            assert(post_rule_matches(rules, 26, a));
        },
        SpecJit::AllReduce { operand, op } => {
            assert(pat_matches(x, *operand));
            assert(opt_ok::<ReduceOp>(None, op));
            assert(pat_matches(sp_all_reduce(x), a));
            assert(rules[27] == SpecRule::Post { pat: sp_all_reduce(x), transform: PostTransform::AllReduce });
            assert(post_rule_matches(rules, 27, a));
        },
        _ => {},
    }
}

/// The built-in rules, in the order they are tried.
pub fn builtin_rules() -> (r: Vec<RewriteRule>)
    ensures
        rules_view(r@) == builtin_rules_spec(),
{
    let mut v: Vec<RewriteRule> = Vec::new();
    v.push(RewriteRule::post(p_bin(Some(JitBinOp::Cdiv)), PostTransform::Cdiv));
    v.push(RewriteRule::post(p_bin(Some(JitBinOp::Max)), PostTransform::BinopMax));
    v.push(RewriteRule::post(p_bin(Some(JitBinOp::Cmod)), PostTransform::Cmod));
    v.push(RewriteRule::post(p_bin(Some(JitBinOp::Fdiv)), PostTransform::Fdiv));
    v.push(RewriteRule::post(p_bin(Some(JitBinOp::Pow)), PostTransform::Pow));
    v.push(RewriteRule::post(p_bin(Some(JitBinOp::Floordiv)), PostTransform::Floordiv));
    v.push(RewriteRule::post(p_bin(Some(JitBinOp::Floormod)), PostTransform::Floormod));
    v.push(RewriteRule::post(p_bin(Some(JitBinOp::Threefry)), PostTransform::Threefry));
    v.push(RewriteRule::post(p_un(Some(JitUnaryOp::Exp2)), PostTransform::Exp2));
    v.push(RewriteRule::post(p_un(Some(JitUnaryOp::Log2)), PostTransform::Log2));
    v.push(RewriteRule::post(p_un(Some(JitUnaryOp::Sin)), PostTransform::Sin));
    v.push(RewriteRule::post(p_un(Some(JitUnaryOp::Sqrt)), PostTransform::Sqrt));
    v.push(RewriteRule::post(p_un(Some(JitUnaryOp::Reciprocal)), PostTransform::Reciprocal));
    v.push(RewriteRule::post(p_un(Some(JitUnaryOp::Trunc)), PostTransform::Trunc));
    v.push(RewriteRule::post(p_un(Some(JitUnaryOp::Bitcast)), PostTransform::Bitcast));
    v.push(RewriteRule::pre(p_cast(p_cast(p_var("x"))), PreTransform::FuseCastCast));
    v.push(RewriteRule::post(p_cast(p_var("x")), PostTransform::Cast));
    v.push(RewriteRule::post(p_ternary(TernaryOp::Where), PostTransform::TernaryWhere));
    v.push(RewriteRule::post(p_ternary(TernaryOp::Mulacc), PostTransform::TernaryMulacc));
    v.push(
        RewriteRule::post(
            PatJitAST::Movement { operand: Box::new(p_var("x")), op: None },
            PostTransform::Movement,
        ),
    );
    v.push(RewriteRule::pre(p_bin(None), PreTransform::SimplifyBinopPre));
    v.push(RewriteRule::post(p_bin(None), PostTransform::BinopBasic));
    v.push(RewriteRule::post(p_un(None), PostTransform::UnaryopBasic));
    v.push(RewriteRule::post(p_all_reduce(p_reduce(p_var("x"))), PostTransform::FuseReduce));
    v.push(RewriteRule::post(p_reduce(p_all_reduce(p_var("x"))), PostTransform::FuseReduce));
    v.push(RewriteRule::post(p_all_reduce(p_all_reduce(p_var("x"))), PostTransform::FuseReduce));
    v.push(RewriteRule::post(p_reduce(p_var("x")), PostTransform::Reduce));
    v.push(RewriteRule::post(p_all_reduce(p_var("x")), PostTransform::AllReduce));
    proof {
        assert(rules_view(v@) =~= builtin_rules_spec());
    }
    v
}

} // verus!
