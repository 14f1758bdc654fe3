use codegen::asts::jit::runner::{build_shader_ir, JitRunner};
use codegen::asts::jit::JitAST;
use codegen::asts::lowered::renderer::LoweredRenderer;
use codegen::asts::lowered::scope::{local, Scope};
use codegen::asts::lowered::{
    BinOp, BindingMeta, CustomBufferBindingType, EntrypointData, Functions, LoweredAST, ShaderIR, Struct,
};
use codegen::dt::{BasicTy, BasicTyOrStructRef, DType, IntegerTy, MaybeAtomic, VecTy};

fn spell_f32(bits: u32) -> String {
    format!("{}", f32::from_bits(bits))
}

fn empty_ir() -> ShaderIR {
    ShaderIR {
        structs: vec![],
        binded: vec![],
        shared_vars: vec![],
        private_vars: vec![],
        entrypoint_globals: vec![],
        functions: vec![],
    }
}

fn keep(a: u32, _b: u32, _op: BinOp) -> u32 {
    a
}

#[test]
fn renders_types() {
    let ir = empty_ir();
    let r = LoweredRenderer::new(&ir, spell_f32);
    assert_eq!(r.render_dtype(&DType::Basic(BasicTy::F32)), "f32");
    assert_eq!(r.render_dtype(&DType::Atomic(IntegerTy::U32)), "atomic<u32>");
    assert_eq!(r.render_dtype(&DType::Vector(VecTy::Vec3(BasicTy::Integer(IntegerTy::I32)))), "vec3<i32>");
    assert_eq!(
        r.render_dtype(&DType::Vector(VecTy::Array(MaybeAtomic::Atomic(IntegerTy::U32), Some(8)))),
        "array<u32, 8>"
    );
    assert_eq!(
        r.render_dtype(&DType::Vector(VecTy::Array(
            MaybeAtomic::Naked(BasicTyOrStructRef::StructRef { ident: "P".to_string() }),
            None
        ))),
        "array<P>"
    );
    assert_eq!(r.render_dtype(&DType::Pad(12)), "vec3<u32>");
    assert_eq!(r.render_pad_type(16), "vec4<u32>");
}

#[test]
fn renders_struct_definition() {
    let ir = empty_ir();
    let r = LoweredRenderer::new(&ir, spell_f32);
    let s = Struct {
        name: "Particle".to_string(),
        inner: vec![
            ("position".to_string(), DType::Vector(VecTy::Vec3(BasicTy::F32))),
            ("id".to_string(), DType::Atomic(IntegerTy::U32)),
        ],
    };
    assert_eq!(
        r.render_struct("Particle", &s).as_deref(),
        Some("struct Particle {\n\tposition: vec3<f32>,\n\tid: atomic<u32>,\n}")
    );
}

#[test]
fn renders_scalar_constants() {
    let ir = empty_ir();
    let r = LoweredRenderer::new(&ir, spell_f32);
    let s = Scope::new();
    let c = |a: LoweredAST| r.render_ast(&s, &a, 0);
    assert_eq!(c(LoweredAST::from_u32(5)).as_deref(), Some("5u"));
    assert_eq!(c(LoweredAST::from_i32(-3)).as_deref(), Some("-3i"));
    // A boolean constant keeps one byte; a scalar constant is read from four.
    assert_eq!(c(LoweredAST::from_bool(true)), None);
    let word_true = LoweredAST::Const {
        dt: DType::Basic(BasicTy::Bool),
        data: vec![codegen::asts::lowered::LoweredASTOrConst::Const(vec![1, 0, 0, 0])],
    };
    assert_eq!(c(word_true).as_deref(), Some("true"));
    assert_eq!(c(LoweredAST::from_f32_bits(1.5f32.to_bits())).as_deref(), Some("1.5f"));
    assert_eq!(c(LoweredAST::from_f32_bits(2.0f32.to_bits())).as_deref(), Some("2f"));
    assert_eq!(c(LoweredAST::from_f32_bits(f32::INFINITY.to_bits())).as_deref(), Some("0x1p+127f"));
    assert_eq!(c(LoweredAST::from_f32_bits(f32::NEG_INFINITY.to_bits())).as_deref(), Some("-0x1p+127f"));
}

#[test]
fn renders_expressions_and_statements() {
    let ir = empty_ir();
    let r = LoweredRenderer::new(&ir, spell_f32);
    let mut s = Scope::new();
    let x = s.var(LoweredAST::from_u32(1));
    let sum = local(x).load() + LoweredAST::from_u32(2);
    assert_eq!(r.render_ast(&s, &sum, 0).as_deref(), Some("_v0 + 2u"));
    let st = local(x).store(LoweredAST::from_u32(3));
    assert_eq!(r.render_ast(&s, &st, 1).as_deref(), Some("\t_v0 = 3u;"));
    let neg = -local(x).load();
    assert_eq!(r.render_ast(&s, &neg, 0).as_deref(), Some("-_v0"));
    assert_eq!(r.render_ast(&s, &LoweredAST::Break, 2).as_deref(), Some("\t\tbreak;"));
}

#[test]
fn missing_variable_has_no_text() {
    let ir = empty_ir();
    let r = LoweredRenderer::new(&ir, spell_f32);
    let s = Scope::new();
    assert_eq!(r.render_ast(&s, &local(3).load(), 0), None);
}

#[test]
fn renders_bindings() {
    let mut ir = empty_ir();
    ir.binded.push(BindingMeta {
        ident: "data".to_string(),
        ty: CustomBufferBindingType::Uniform,
        dtype: DType::Basic(BasicTy::F32),
    });
    let r = LoweredRenderer::new(&ir, spell_f32);
    assert_eq!(r.render_binded_buffers().as_deref(), Some("@group(0) @binding(0) var<uniform> data: f32;\n"));
}

#[test]
fn renders_function_with_loop() {
    let mut body = Scope::new();
    let i = body.mut_(LoweredAST::from_u32(0));
    let mut inner = body.fresh_child();
    inner.ast = Some(LoweredAST::Continue);
    body.child_scopes.push(inner);
    body.ast = Some(LoweredAST::ForLoop {
        init: None,
        halt_cond: Some(Box::new(local(i).load().lt(LoweredAST::from_u32(4)))),
        increment: Some(Box::new(local(i).store(local(i).load() + LoweredAST::from_u32(1)))),
        body: codegen::asts::lowered::ScopePtr(0),
    });
    let mut ir = empty_ir();
    ir.functions.push(Functions {
        args: vec![],
        ret: None,
        ident: "main".to_string(),
        entrypoint_ty: Some(EntrypointData::Compute { workgroup_sz: 64 }),
        body,
    });
    let r = LoweredRenderer::new(&ir, spell_f32);
    assert_eq!(
        r.render_funcs().as_deref(),
        Some(
            "@compute @workgroup_size(64)\nfn main(){\n\tvar _m0: u32 = 0u;\n\tfor (_m0 < 4u; _m0 = _m0 + 1u;) {\n\t\tcontinue;\n\t}\n}"
        )
    );
}

#[test]
fn renders_jit_shader() {
    let ty = DType::Vector(VecTy::Array(MaybeAtomic::Naked(BasicTyOrStructRef::BasicTy(BasicTy::F32)), Some(64)));
    let ast = JitAST::var(0, 256, ty.clone()) + JitAST::var(1, 256, ty);
    let run = JitRunner::new(&ast, 64).expect("runner");
    let ir = build_shader_ir(&ast, run.num_vars, &run.input_dt, &run.output_dt, vec![], &keep).expect("ir");
    let text = LoweredRenderer::new(&ir, spell_f32).translate().expect("text");
    let expected = String::new()
        + "\n\n\n\n"
        + "@group(0) @binding(0) var<read> input_0: array<f32>;\n"
        + "@group(0) @binding(1) var<read> input_1: array<f32>;\n"
        + "@group(0) @binding(2) var<read_write> output: array<f32>;\n"
        + "\n\n\n\n"
        + "\n\n\n\n"
        + "@compute @workgroup_size(256)\nfn jit_main(){\n"
        + "\tlet _v0: u32 = g_id.x;\n"
        + "\toutput[_v0] = input_0[_v0] + input_1[_v0];"
        + "\n}";
    assert_eq!(text, expected);
}
