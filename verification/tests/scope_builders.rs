use codegen::asts::jit::pattern::Captures;
use codegen::asts::jit::rules::{builtin_rules, RewriteRule};
use codegen::asts::jit::shape::scalar_identity_bytes;
use codegen::asts::jit::{JitAST, ReduceOp};
use codegen::asts::lowered::renderer::LoweredRenderer;
use codegen::asts::lowered::scope::Scope;
use codegen::asts::jit::movement::coord_linearize;
use codegen::asts::lowered::{LoweredAST, ShaderIR, Struct};
use codegen::shader_args::{classify_params, pascal_case, ShaderParam};
use codegen::dt::{BasicTy, DType, IntegerTy};

fn spell_f32(bits: u32) -> String {
    format!("{}", f32::from_bits(bits))
}

fn empty_ir() -> ShaderIR {
    ShaderIR {
        structs: vec![],
        binded: vec![],
        shared_vars: vec![],
        private_vars: vec![],
        entrypoint_globals: vec![],
        functions: vec![],
    }
}

fn u(n: u32) -> LoweredAST {
    LoweredAST::from_u32(n)
}

#[test]
fn if_else_branches_are_the_closures_statements() {
    let ir = empty_ir();
    let r = LoweredRenderer::new(&ir, spell_f32);
    let mut s = Scope::new();
    s.var(u(7));
    let c = s.if_(u(1).eq(u(1)), |child| {
        assert_eq!(child.local_vars.len(), 1);
        assert_eq!(child.num_inherited_locals, 1);
        LoweredAST::Return
    });
    assert_eq!(s.child_scopes.len(), 1);
    assert!(matches!(s.child_scopes[0].ast, Some(LoweredAST::Return)));
    assert_eq!(r.render_ast(&s, &c, 0).as_deref(), Some("if (1u == 1u) {\n\treturn;\n}"));
    let c2 = s.else_(c, |_| LoweredAST::Break);
    assert_eq!(s.child_scopes.len(), 2);
    assert!(matches!(s.child_scopes[1].ast, Some(LoweredAST::Break)));
    assert_eq!(r.render_ast(&s, &c2, 0).as_deref(), Some("if (1u == 1u) {\n\treturn;\n} else {\n\tbreak;\n}"));
    assert_eq!(s.local_vars.len(), 1);
}

#[test]
fn loops_fill_a_fresh_child() {
    let mut s = Scope::new();
    let w = s.while_loop(u(1).eq(u(1)), |_| LoweredAST::Break);
    assert!(matches!(w, LoweredAST::WhileLoop { body, .. } if body.0 == 0));
    assert!(matches!(s.child_scopes[0].ast, Some(LoweredAST::Break)));
    let f = s.for_loop(None, None, None, |child| {
        child.var(u(3));
    });
    assert!(matches!(f, LoweredAST::ForLoop { body, .. } if body.0 == 1));
    assert!(s.child_scopes[1].ast.is_none());
    assert_eq!(s.child_scopes[1].local_vars.len(), 1);
}

#[test]
fn integer_identities_are_neutral() {
    let u32_dt = DType::Basic(BasicTy::Integer(IntegerTy::U32));
    let i32_dt = DType::Basic(BasicTy::Integer(IntegerTy::I32));
    let decode = |b: Vec<u8>| u32::from_le_bytes([b[0], b[1], b[2], b[3]]);
    let sum = decode(scalar_identity_bytes(&u32_dt, ReduceOp::Sum));
    let prod = decode(scalar_identity_bytes(&u32_dt, ReduceOp::Prod));
    let max = decode(scalar_identity_bytes(&u32_dt, ReduceOp::Max));
    let imax = decode(scalar_identity_bytes(&i32_dt, ReduceOp::Max)) as i32;
    for x in [0u32, 1, 17, u32::MAX] {
        assert_eq!(x.wrapping_add(sum), x);
        assert_eq!(x.wrapping_mul(prod), x);
        assert_eq!(x.max(max), x);
        assert_eq!((x as i32).max(imax), x as i32);
    }
}

#[test]
fn builtin_rules_match_every_operation() {
    let rules = builtin_rules();
    let a = JitAST::var(0, 4, DType::Basic(BasicTy::F32));
    let b = JitAST::var(1, 4, DType::Basic(BasicTy::F32));
    let sum = a + b;
    let matched = rules.iter().any(|r| match r {
        RewriteRule::Post { pat, .. } => pat.matches(&sum, &mut Captures::new()),
        RewriteRule::Pre { .. } => false,
    });
    assert!(matched);
}

#[test]
fn shader_struct_names_are_pascal_case() {
    assert_eq!(pascal_case("my_shader"), "MyShader");
    assert_eq!(pascal_case("add__two"), "AddTwo");
    assert_eq!(pascal_case("_lead"), "Lead");
    assert_eq!(pascal_case("x"), "X");
    assert_eq!(pascal_case(""), "");
}

#[test]
fn shader_params_are_sorted_by_kind() {
    let p = |binding_attr: bool, binding_typed: bool, private_attr: bool, shared_type: bool| ShaderParam {
        binding_attr,
        binding_typed,
        private_attr,
        shared_type,
    };
    let params = vec![
        p(true, true, false, false),
        p(false, false, false, true),
        p(false, false, true, false),
        p(false, false, false, false),
        p(true, false, false, false),
    ];
    let k = classify_params(&params);
    assert_eq!(k.bindings, vec![0]);
    assert_eq!(k.shared, vec![1]);
    assert_eq!(k.private, vec![2]);
    assert_eq!(k.extra, vec![3]);
}

#[test]
fn rendered_structs_contain_each_struct() {
    let mut ir = empty_ir();
    ir.structs.push(Struct { name: "A".to_string(), inner: vec![("x".to_string(), DType::Basic(BasicTy::F32))] });
    ir.structs.push(Struct { name: "B".to_string(), inner: vec![("y".to_string(), DType::Basic(BasicTy::Integer(IntegerTy::U32)))] });
    let r = LoweredRenderer::new(&ir, spell_f32);
    let all = r.render_structs().expect("structs");
    for s in &ir.structs {
        let one = r.render_struct(s.name.as_str(), s).expect("struct");
        assert!(all.contains(&one));
    }
    let empty = empty_ir();
    assert_eq!(LoweredRenderer::new(&empty, spell_f32).render_structs().as_deref(), Some(""));
}

#[test]
fn linear_index_of_coordinates() {
    let shape = [2usize, 3, 4];
    let coords = [LoweredAST::from_u32(1), LoweredAST::from_u32(2), LoweredAST::from_u32(3)];
    let ir = empty_ir();
    let r = LoweredRenderer::new(&ir, spell_f32);
    let s = Scope::new();
    let idx = coord_linearize(&coords, &shape);
    assert_eq!(r.render_ast(&s, &idx, 0).as_deref(), Some("0u + 1u * 12u + 2u * 4u + 3u * 1u"));
}
