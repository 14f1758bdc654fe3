use codegen::asts::jit::lowering::{lower_with_rewrite, LowerError, VarBinder};
use codegen::asts::jit::runner::{build_shader_ir, compute_var_strides, JitRunner};
use codegen::asts::jit::JitAST;
use codegen::asts::lowered::scope::Scope;
use codegen::asts::lowered::{
    Accessor, BinOp, CustomBufferBindingType, EntrypointData, LoweredAST, LoweredASTOrConst, VarRef,
    VarRefType,
};
use codegen::dt::{BasicTy, BasicTyOrStructRef, DType, IntegerTy, MaybeAtomic, VecTy};

fn fold(a: u32, b: u32, op: BinOp) -> u32 {
    let (x, y) = (f32::from_bits(a), f32::from_bits(b));
    let r = match op {
        BinOp::Add => x + y,
        BinOp::Sub => x - y,
        BinOp::Mul => x * y,
        BinOp::Div => x / y,
        _ => x,
    };
    r.to_bits()
}

fn f32_array(n: u32) -> DType {
    DType::Vector(VecTy::Array(MaybeAtomic::Naked(BasicTyOrStructRef::BasicTy(BasicTy::F32)), Some(n)))
}

fn input(id: usize, n: u32) -> JitAST {
    JitAST::var(id, 4 * n as u64, f32_array(n))
}

/// Lowers `ast` into a fresh scope whose local 0 is the element index.
fn lower(ast: JitAST) -> (Result<LoweredAST, LowerError>, Scope, VarBinder) {
    let strides = compute_var_strides(&ast).expect("strides");
    let mut scope = Scope::new();
    let idx = scope.var(codegen::asts::lowered::scope::entrypoint(0).f("x").load());
    let mut binder = VarBinder::new(strides, idx);
    let r = lower_with_rewrite(ast, &mut scope, &mut binder, Vec::new(), &fold);
    (r, scope, binder)
}

fn global_index(a: &LoweredAST) -> Option<usize> {
    match a {
        LoweredAST::Load(VarRefType::Global(v)) if v.by.len() == 1 => match &v.by[0] {
            Accessor::Index(_) => Some(v.id),
            _ => None,
        },
        _ => None,
    }
}

#[test]
fn var_info_counts_distinct_inputs() {
    let a = input(0, 64);
    let ast = (input(0, 64) + input(1, 64)) * a;
    let (n, dt) = ast.collect_var_info();
    assert_eq!(n, 2);
    assert_eq!(dt, Some(f32_array(64)));
    let c = JitAST::from_u32(3);
    assert_eq!(c.collect_var_info(), (0, None));
}

#[test]
fn strides_one_for_single_arrays() {
    let ast = input(3, 64) + input(5, 64);
    assert_eq!(compute_var_strides(&ast), Ok(vec![(3, 1), (5, 1)]));
}

#[test]
fn strides_of_vector_buffers() {
    let v4 = DType::Vector(VecTy::Vec4(BasicTy::F32));
    let ast = JitAST::var(0, 64, v4.clone()) + JitAST::var(0, 64, v4);
    assert_eq!(compute_var_strides(&ast), Ok(vec![(0, 4)]));
    let one = JitAST::var(1, 16, DType::Vector(VecTy::Vec4(BasicTy::F32)));
    assert_eq!(compute_var_strides(&one), Ok(vec![(1, 1)]));
}

#[test]
fn strides_fail_without_size() {
    let s = DType::StructRef { ident: "S".to_string() };
    let ast = JitAST::var(0, 64, s);
    assert_eq!(compute_var_strides(&ast), Err(LowerError::BadShape));
}

#[test]
fn runner_new_sizes_output() {
    let ast = input(0, 64) + input(1, 64);
    let run = JitRunner::new(&ast, 64).expect("runner");
    assert_eq!(run.num_vars, 2);
    assert_eq!(run.output_dt, DType::Basic(BasicTy::F32));
    assert_eq!(run.output_size, 256);
    assert_eq!(run.entry_point(), "jit_main");
    assert_eq!(run.workgroup_count(), 1);
    let slots = run.resource_bindings();
    assert_eq!(slots.len(), 3);
    assert!(slots[0].read_only && slots[1].read_only && !slots[2].read_only);
    assert_eq!(slots[2].binding, 2);
    assert_eq!(slots[2].size, 256);
}

#[test]
fn runner_needs_an_input() {
    let ast = JitAST::from_u32(1) + JitAST::from_u32(2);
    assert!(matches!(JitRunner::new(&ast, 4), Err(LowerError::NoInput)));
}

#[test]
fn shader_ir_of_elementwise_add() {
    let ast = input(0, 64) + input(1, 64);
    let run = JitRunner::new(&ast, 64).expect("runner");
    let ir = build_shader_ir(&ast, run.num_vars, &run.input_dt, &run.output_dt, vec![], &fold)
        .expect("ir");
    assert_eq!(ir.binded.len(), 3);
    assert_eq!(ir.binded[0].ident, "input_0");
    assert_eq!(ir.binded[1].ident, "input_1");
    assert_eq!(ir.binded[2].ident, "output");
    assert!(matches!(ir.binded[2].ty, CustomBufferBindingType::Storage { read_only: false }));
    assert_eq!(
        ir.binded[0].dtype,
        DType::Vector(VecTy::Array(MaybeAtomic::Naked(BasicTyOrStructRef::BasicTy(BasicTy::F32)), None))
    );
    assert_eq!(ir.functions.len(), 1);
    let f = &ir.functions[0];
    assert_eq!(f.ident, "jit_main");
    assert!(matches!(f.entrypoint_ty, Some(EntrypointData::Compute { workgroup_sz: 256 })));
    assert_eq!(f.body.local_vars[0].name, "_v0");
    match f.body.ast.as_ref().expect("body") {
        LoweredAST::Store { var: VarRefType::Global(out), val } => {
            assert_eq!(out.id, 2);
            match val.as_ref() {
                LoweredAST::BinaryOp { lhs, rhs, op: BinOp::Add } => {
                    assert_eq!(global_index(lhs), Some(0));
                    assert_eq!(global_index(rhs), Some(1));
                }
                other => panic!("unexpected value {:?}", other),
            }
        }
        other => panic!("unexpected body {:?}", other),
    }
}

#[test]
fn same_input_gets_one_binding() {
    let (r, _scope, binder) = lower(input(7, 8) * input(7, 8));
    match r.expect("lowered") {
        LoweredAST::BinaryOp { lhs, rhs, op: BinOp::Mul } => {
            assert_eq!(global_index(&lhs), Some(0));
            assert_eq!(global_index(&rhs), Some(0));
        }
        other => panic!("unexpected {:?}", other),
    }
    assert_eq!(binder.var_map, vec![(7, 0)]);
}

#[test]
fn lowers_named_binary_and_unary_functions() {
    let cases: Vec<(JitAST, &str)> = vec![
        (input(0, 4).max(input(1, 4)), "max"),
        (input(0, 4).cdiv(input(1, 4)), "ceil_div"),
        (input(0, 4).pow(input(1, 4)), "pow"),
        (input(0, 4).floormod(input(1, 4)), "floor_mod"),
        (input(0, 4).sqrt(), "sqrt"),
        (input(0, 4).exp2(), "exp2"),
        (input(0, 4).reciprocal(), "reciprocal"),
    ];
    for (ast, name) in cases {
        match lower(ast).0.expect("lowered") {
            LoweredAST::FunctionCall { ident, .. } => assert_eq!(ident, name),
            other => panic!("unexpected {:?}", other),
        }
    }
}

#[test]
fn lowers_where_as_select_with_condition_last() {
    let w = JitAST::where_(
        JitAST::var(0, 4, DType::Basic(BasicTy::F32)),
        JitAST::var(1, 4, DType::Basic(BasicTy::F32)),
        JitAST::var(2, 4, DType::Basic(BasicTy::F32)),
    );
    match lower(w).0.expect("lowered") {
        LoweredAST::FunctionCall { ident, args } => {
            assert_eq!(ident, "select");
            assert_eq!(args.len(), 3);
            assert_eq!(global_index(&args[0]), Some(1));
            assert_eq!(global_index(&args[1]), Some(0));
            assert_eq!(global_index(&args[2]), Some(2));
        }
        other => panic!("unexpected {:?}", other),
    }
}

#[test]
fn lowers_mulacc_and_threefry() {
    let m = JitAST::mulacc(input(0, 4), input(1, 4), input(2, 4));
    match lower(m).0.expect("lowered") {
        LoweredAST::BinaryOp { lhs, op: BinOp::Add, .. } => {
            assert!(matches!(*lhs, LoweredAST::BinaryOp { op: BinOp::Mul, .. }));
        }
        other => panic!("unexpected {:?}", other),
    }
    match lower(input(0, 4).threefry(input(1, 4))).0.expect("lowered") {
        LoweredAST::BinaryOp { lhs, op: BinOp::Add, .. } => match *lhs {
            LoweredAST::BinaryOp { rhs, op: BinOp::Mul, .. } => match *rhs {
                LoweredAST::Const { data, .. } => match &data[0] {
                    LoweredASTOrConst::Const(b) => assert_eq!(b, &2654435761u32.to_le_bytes().to_vec()),
                    other => panic!("unexpected {:?}", other),
                },
                other => panic!("unexpected {:?}", other),
            },
            other => panic!("unexpected {:?}", other),
        },
        other => panic!("unexpected {:?}", other),
    }
}

fn const_u32(a: &LoweredAST) -> Option<u32> {
    match a {
        LoweredAST::Const { dt: DType::Basic(BasicTy::Integer(IntegerTy::U32)), data } => match &data[..] {
            [LoweredASTOrConst::Const(b)] if b.len() == 4 => Some(u32::from_le_bytes([b[0], b[1], b[2], b[3]])),
            _ => None,
        },
        _ => None,
    }
}

#[test]
fn folds_integer_constants() {
    let r = lower(JitAST::from_u32(2) + JitAST::from_u32(3)).0.expect("lowered");
    assert_eq!(const_u32(&r), Some(5));
    let r = lower(JitAST::from_u32(7) * JitAST::from_u32(6)).0.expect("lowered");
    assert_eq!(const_u32(&r), Some(42));
}

#[test]
fn folding_division_by_zero_is_refused() {
    let r = lower(JitAST::from_u32(7) / JitAST::from_u32(0)).0;
    assert_eq!(r.err(), Some(LowerError::BadConstant));
}

#[test]
fn folds_float_constants_with_the_folder() {
    let a = JitAST::from_f32_bits(1.5f32.to_bits());
    let b = JitAST::from_f32_bits(2.25f32.to_bits());
    match lower(a + b).0.expect("lowered") {
        LoweredAST::Const { dt: DType::Basic(BasicTy::F32), data } => match &data[0] {
            LoweredASTOrConst::Const(bytes) => assert_eq!(bytes, &3.75f32.to_bits().to_le_bytes().to_vec()),
            other => panic!("unexpected {:?}", other),
        },
        other => panic!("unexpected {:?}", other),
    }
}

#[test]
fn sum_all_lowers_to_accumulator() {
    let (r, scope, _) = lower(input(0, 6).sum_all());
    match r.expect("lowered") {
        LoweredAST::Group(stmts) => {
            assert_eq!(stmts.len(), 2);
            assert!(matches!(stmts[0], LoweredAST::Store { .. }));
            assert!(matches!(stmts[1], LoweredAST::Load(VarRefType::Local(_))));
        }
        other => panic!("unexpected {:?}", other),
    }
    assert_eq!(scope.local_vars.len(), 2);
    assert!(scope.local_vars[1].mut_);
}

#[test]
fn max_of_u32_has_zero_identity() {
    let u = JitAST::var(0, 16, DType::Basic(BasicTy::Integer(IntegerTy::U32)));
    let (r, scope, _) = lower(u.max_all());
    assert!(r.is_ok());
    assert_eq!(const_u32(&scope.local_vars[1].ast), Some(0));
}

#[test]
fn reduction_of_bool_has_no_identity() {
    let s = JitAST::var(0, 16, DType::Basic(BasicTy::Bool));
    let (r, _, _) = lower(s.sum_all());
    assert_eq!(r.err(), Some(LowerError::NoIdentity));
}

#[test]
fn movement_loads_through_index() {
    let ast = input(0, 6).reshape(vec![2, 3]).permute(vec![1, 0]).reshape(vec![6]);
    let (r, _, _) = lower(ast);
    let r = r.expect("lowered");
    assert_eq!(global_index(&r), Some(0));
}

#[test]
fn pad_wraps_load_in_select() {
    let ast = input(0, 4).reshape(vec![2, 2]).pad(vec![(1, 1), (0, 0)]);
    let (r, _, _) = lower(ast);
    match r.expect("lowered") {
        LoweredAST::FunctionCall { ident, args } => {
            assert_eq!(ident, "select");
            assert_eq!(args.len(), 3);
            assert_eq!(global_index(&args[1]), Some(0));
        }
        other => panic!("unexpected {:?}", other),
    }
}

#[test]
fn fused_reduction_builds_nested_loops() {
    let ast = input(0, 6).reshape(vec![2, 3]).sum(0).sum_all();
    let (r, scope, _) = lower(ast);
    match r.expect("lowered") {
        LoweredAST::Group(stmts) => {
            assert_eq!(stmts.len(), 2);
            assert!(matches!(stmts[0], LoweredAST::ForLoop { .. }));
        }
        other => panic!("unexpected {:?}", other),
    }
    assert_eq!(scope.child_scopes.len(), 1);
    assert_eq!(scope.child_scopes[0].child_scopes.len(), 1);
}

#[test]
fn cast_between_counts_reads_components() {
    let v = JitAST::var(0, 16, DType::Vector(VecTy::Vec2(BasicTy::F32)));
    let (r, _, _) = lower(v.cast(DType::Vector(VecTy::Vec4(BasicTy::F32))));
    match r.expect("lowered") {
        LoweredAST::Const { data, .. } => {
            assert_eq!(data.len(), 4);
            assert!(matches!(data[0], LoweredASTOrConst::LoweredAST(_)));
            assert!(matches!(data[3], LoweredASTOrConst::Const(_)));
        }
        other => panic!("unexpected {:?}", other),
    }
}

#[test]
fn where_over_sized_arrays_loops_in_a_child_scope() {
    let cond = DType::Vector(VecTy::Array(MaybeAtomic::Naked(BasicTyOrStructRef::BasicTy(BasicTy::Bool)), Some(4)));
    let array = |id: usize, dt: DType| JitAST::Lowered {
        expr: LoweredAST::Load(VarRefType::Global(VarRef { id, by: Vec::new() })),
        dt,
    };
    let w = JitAST::where_(array(0, f32_array(4)), array(1, cond), array(2, f32_array(4)));
    let (r, scope, _) = lower(w);
    match r.expect("lowered") {
        LoweredAST::Group(stmts) => {
            assert_eq!(stmts.len(), 2);
            match &stmts[0] {
                LoweredAST::ForLoop { init, halt_cond, body, .. } => {
                    assert!(init.is_some());
                    assert!(halt_cond.is_some());
                    assert_eq!(body.0, 0);
                }
                other => panic!("unexpected {:?}", other),
            }
            match &stmts[1] {
                LoweredAST::Load(VarRefType::Local(v)) => assert_eq!(v.id, 2),
                other => panic!("unexpected {:?}", other),
            }
        }
        other => panic!("unexpected {:?}", other),
    }
    // the element index, the loop index, the result array
    assert_eq!(scope.local_vars.len(), 3);
    assert_eq!(scope.local_vars[1].name, "_v1");
    assert_eq!(scope.local_vars[2].name, "_m2");
    assert_eq!(scope.child_scopes.len(), 1);
    match &scope.child_scopes[0].ast {
        Some(LoweredAST::Store { val, .. }) => match val.as_ref() {
            LoweredAST::FunctionCall { ident, args } => {
                assert_eq!(ident, "select");
                assert_eq!(args.len(), 3);
            }
            other => panic!("unexpected {:?}", other),
        },
        other => panic!("unexpected {:?}", other),
    }
}
