use codegen::asts::jit::lowering::VarBinder;
use codegen::asts::jit::pattern::{Captures, PatJitAST};
use codegen::asts::jit::rewrite::pre_rewrite;
use codegen::asts::jit::rules::{builtin_rules, PostTransform, PreTransform, RewriteRule};
use codegen::asts::jit::simplify::{simplify_binop, simplify_node};
use codegen::asts::jit::{JitAST, JitBinOp};
use codegen::asts::lowered::{BinOp, LoweredAST, VarRefType};
use codegen::dt::{BasicTy, BasicTyOrStructRef, DType, IntegerTy, MaybeAtomic, VecTy};

fn add_f32(a: u32, b: u32, op: BinOp) -> u32 {
    match op {
        BinOp::Add => (f32::from_bits(a) + f32::from_bits(b)).to_bits(),
        BinOp::Mul => (f32::from_bits(a) * f32::from_bits(b)).to_bits(),
        _ => a,
    }
}

fn f32_var(id: usize) -> JitAST {
    JitAST::var(id, 4, DType::Basic(BasicTy::F32))
}

fn is_var(a: &JitAST, id: usize) -> bool {
    matches!(a, JitAST::Var { id: i, .. } if *i == id)
}

#[test]
fn builtin_rules_in_order() {
    let rules = builtin_rules();
    assert_eq!(rules.len(), 28);
    assert!(matches!(rules[0], RewriteRule::Post { transform: PostTransform::Cdiv, .. }));
    assert!(matches!(rules[15], RewriteRule::Pre { transform: PreTransform::FuseCastCast, .. }));
    assert!(matches!(rules[27], RewriteRule::Post { transform: PostTransform::AllReduce, .. }));
}

#[test]
fn pattern_captures_operands() {
    let pat = PatJitAST::BinOp {
        lhs: Box::new(PatJitAST::Var("lhs".to_string())),
        rhs: Box::new(PatJitAST::Var("rhs".to_string())),
        op: Some(JitBinOp::Max),
    };
    let mut ctx = Captures::new();
    assert!(pat.matches(&f32_var(1).max(f32_var(2)), &mut ctx));
    assert!(is_var(ctx.get("lhs").unwrap(), 1));
    assert!(is_var(ctx.get("rhs").unwrap(), 2));
    assert!(ctx.get("x").is_none());
    let mut ctx2 = Captures::new();
    assert!(!pat.matches(&(f32_var(1) + f32_var(2)), &mut ctx2));
}

#[test]
fn captures_insert_replaces() {
    let mut ctx = Captures::new();
    ctx.insert("a".to_string(), f32_var(1));
    ctx.insert("a".to_string(), f32_var(2));
    assert!(is_var(ctx.get("a").unwrap(), 2));
}

#[test]
fn simplify_identities() {
    let zero = JitAST::from_f32_bits(0.0f32.to_bits());
    let one = JitAST::from_f32_bits(1.0f32.to_bits());
    let add = JitBinOp::Basic(BinOp::Add);
    let mul = JitBinOp::Basic(BinOp::Mul);
    // x + 0 is x, x * 1 is x.
    let r = simplify_binop(f32_var(3), JitAST::from_f32_bits(0.0f32.to_bits()), &add, &add_f32).unwrap().unwrap();
    assert!(is_var(&r, 3));
    let r = simplify_binop(one, f32_var(4), &mul, &add_f32).unwrap().unwrap();
    assert!(is_var(&r, 4));
    // x * 0 is 0.
    let r = simplify_binop(f32_var(5), zero, &mul, &add_f32).unwrap().unwrap();
    assert!(matches!(r, JitAST::Const(_)));
    // Nothing to do for two variables.
    assert!(simplify_binop(f32_var(1), f32_var(2), &add, &add_f32).unwrap().is_none());
}

#[test]
fn simplify_node_folds_nested_constants() {
    let e = JitAST::from_f32_bits(1.5f32.to_bits()) + JitAST::from_f32_bits(2.5f32.to_bits());
    match simplify_node(e, &add_f32).unwrap() {
        JitAST::Const(c) => assert_eq!(c.data.len(), 1),
        other => panic!("unexpected {:?}", other),
    }
}

#[test]
fn pre_rewrite_fuses_casts_and_folds_integers() {
    let rules = builtin_rules();
    let u = DType::Basic(BasicTy::Integer(IntegerTy::U32));
    let i = DType::Basic(BasicTy::Integer(IntegerTy::I32));
    let e = f32_var(0).cast(i).cast(u.clone());
    match pre_rewrite(&e, &rules, &add_f32).unwrap() {
        JitAST::Cast { operand, dt } => {
            assert!(is_var(&operand, 0));
            assert_eq!(dt, u);
        }
        other => panic!("unexpected {:?}", other),
    }
    let sum = JitAST::from_i32(-4) + JitAST::from_i32(9);
    match pre_rewrite(&sum, &rules, &add_f32).unwrap() {
        JitAST::Const(c) => assert_eq!(c.dt, DType::Basic(BasicTy::Integer(IntegerTy::I32))),
        other => panic!("unexpected {:?}", other),
    }
    // u32 overflow is refused rather than wrapped.
    let over = JitAST::from_u32(u32::MAX) + JitAST::from_u32(1);
    assert!(pre_rewrite(&over, &rules, &add_f32).is_none());
}

#[test]
fn binder_keeps_bindings() {
    let mut b = VarBinder::new(vec![(9, 4)], 0);
    let first = b.produce(7);
    let again = b.produce(7);
    let other = b.produce(9);
    let id_of = |a: &LoweredAST| match a {
        LoweredAST::Load(VarRefType::Global(v)) => (v.id, v.by.len()),
        _ => panic!("not a global load"),
    };
    assert_eq!(id_of(&first), (0, 1));
    assert_eq!(id_of(&again), (0, 1));
    // A variable with a stride above one is loaded whole.
    assert_eq!(id_of(&other), (1, 0));
    assert_eq!(b.var_map, vec![(7, 0), (9, 1)]);
}

#[test]
fn shapes_and_types_of_expressions() {
    let arr = DType::Vector(VecTy::Array(MaybeAtomic::Naked(BasicTyOrStructRef::BasicTy(BasicTy::F32)), Some(6)));
    let x = JitAST::var(0, 24, arr);
    assert_eq!(x.shape(), vec![6]);
    let r = JitAST::var(0, 24, DType::Vector(VecTy::Array(MaybeAtomic::Naked(BasicTyOrStructRef::BasicTy(BasicTy::F32)), Some(6))))
        .reshape(vec![2, 3]);
    assert_eq!(r.shape(), vec![2, 3]);
    let p = r.permute(vec![1, 0]);
    assert_eq!(p.shape(), vec![3, 2]);
    let padded = p.pad(vec![(1, 0), (0, 2)]);
    assert_eq!(padded.shape(), vec![4, 4]);
    assert_eq!(padded.dt(), DType::Basic(BasicTy::F32));
    let (base, chain) = padded.inner_movement_chain();
    assert!(is_var(base, 0));
    assert_eq!(chain.len(), 3);
}
