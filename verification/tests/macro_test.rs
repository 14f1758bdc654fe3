use codegen::asts::lowered::renderer::LoweredRenderer;
use codegen::asts::lowered::scope::Scope;
use codegen::asts::lowered::{
    BindingMeta, CustomBufferBindingType, EntrypointData, EntrypointGlobals, Functions, LoweredAST,
    LoweredASTOrConst, ShaderIR, SharedData, Struct,
};
use codegen::asts::{Atomic, IntoWgslStruct};
use codegen::dt::{BasicTy, BasicTyOrStructRef, DType, IntegerTy, MaybeAtomic, VecTy};

fn spell_f32(bits: u32) -> String {
    format!("{}", f32::from_bits(bits))
}

// Each shader below is the IR that a `shader` attribute stands for: the
// registered structs, the bound buffers, the shared variables, both
// invocation ids, and one entry point.

fn registered_structs() -> Vec<Struct> {
    vec![
        Struct { name: "MyData".to_string(), inner: vec![("val".to_string(), DType::Basic(BasicTy::F32))] },
        Struct { name: "SharedElem".to_string(), inner: vec![("val".to_string(), DType::Basic(BasicTy::F32))] },
        Struct {
            name: "WithAtomic".to_string(),
            inner: vec![("counter".to_string(), <Atomic<u32> as IntoWgslStruct>::dt())],
        },
    ]
}

fn struct_dt(name: &str) -> DType {
    DType::StructRef { ident: name.to_string() }
}

fn compute_shader(
    ident: &str,
    workgroup_sz: usize,
    binded: Vec<BindingMeta>,
    shared_vars: Vec<(String, DType)>,
    body: Scope,
) -> ShaderIR {
    let args = binded.iter().map(|b| (b.ident.clone(), b.dtype.clone())).collect();
    ShaderIR {
        structs: registered_structs(),
        binded,
        shared_vars,
        private_vars: vec![],
        entrypoint_globals: vec![EntrypointGlobals::GlobalInvocationId, EntrypointGlobals::LocalInvocationId],
        functions: vec![Functions {
            args,
            ret: None,
            ident: ident.to_string(),
            entrypoint_ty: Some(EntrypointData::Compute { workgroup_sz }),
            body,
        }],
    }
}

fn uniform_input() -> Vec<BindingMeta> {
    vec![BindingMeta { ident: "_input".to_string(), ty: CustomBufferBindingType::Uniform, dtype: struct_dt("MyData") }]
}

fn my_shader() -> ShaderIR {
    let mut scope = Scope::new();
    scope.ast = Some(LoweredAST::Return);
    compute_shader("my_shader", 64, uniform_input(), vec![], scope)
}

fn shared_shader() -> ShaderIR {
    let sdata: SharedData<()> = SharedData::new(0);
    let mut scope = Scope::new();
    scope.ast = Some(sdata.var_ref().store(LoweredAST::Const {
        dt: struct_dt("SharedElem"),
        data: (0..4).map(|_| LoweredASTOrConst::Const(0f32.to_le_bytes().to_vec())).collect(),
    }));
    let binded = vec![BindingMeta {
        ident: "_input".to_string(),
        ty: CustomBufferBindingType::Storage { read_only: true },
        dtype: DType::Vector(VecTy::Array(MaybeAtomic::Naked(BasicTyOrStructRef::StructRef { ident: "MyData".to_string() }), None)),
    }];
    compute_shader("shared_shader", 256, binded, vec![("_sdata".to_string(), struct_dt("SharedElem"))], scope)
}

fn my_inject() -> LoweredAST {
    LoweredAST::FunctionCall { ident: "injected_helper".to_string(), args: vec![] }
}

fn shader_with_extra(inject: fn() -> LoweredAST) -> ShaderIR {
    let mut scope = Scope::new();
    scope.ast = Some(LoweredAST::Group(vec![inject(), LoweredAST::Return]));
    compute_shader("shader_with_extra", 64, uniform_input(), vec![], scope)
}

fn load_source_code(ir: &ShaderIR) -> String {
    LoweredRenderer::new(ir, spell_f32).translate().expect("shader text")
}

#[test]
fn test_shader_expands_and_runs() {
    let ir = my_shader();
    assert_eq!(ir.functions[0].ident, "my_shader");

    let wgsl = load_source_code(&ir);
    assert!(!wgsl.is_empty());
    println!("{wgsl}");
    assert!(wgsl.contains("struct MyData"));
    assert!(wgsl.contains("@compute @workgroup_size(64)"));
    assert!(wgsl.contains("fn my_shader"));
}

#[test]
fn test_shared_var() {
    let wgsl = load_source_code(&shared_shader());
    assert!(wgsl.contains("struct SharedElem"));
    println!("{wgsl}");
    assert!(wgsl.contains("var<workgroup>"));
    assert!(wgsl.contains("_sdata"));
    assert!(wgsl.contains("@compute @workgroup_size(256)"));
    assert!(wgsl.contains("fn shared_shader"));
}

#[test]
fn test_extra_args() {
    let wgsl = load_source_code(&shader_with_extra(my_inject));
    println!("{wgsl}");
    assert!(wgsl.contains("injected_helper"));
    assert!(wgsl.contains("@compute @workgroup_size(64)"));
    assert!(wgsl.contains("fn shader_with_extra"));
}

#[test]
fn test_atomic_dt() {
    assert_eq!(<Atomic<u32> as IntoWgslStruct>::dt(), DType::Atomic(IntegerTy::U32),);
    assert_eq!(<Atomic<i32> as IntoWgslStruct>::dt(), DType::Atomic(IntegerTy::I32),);
}

#[test]
fn test_vec_atomic_dt() {
    assert_eq!(
        <Vec<Atomic<u32>> as IntoWgslStruct>::dt(),
        DType::Vector(VecTy::Array(MaybeAtomic::Atomic(IntegerTy::U32), None)),
    );
    assert_eq!(
        <Vec<Atomic<i32>> as IntoWgslStruct>::dt(),
        DType::Vector(VecTy::Array(MaybeAtomic::Atomic(IntegerTy::I32), None)),
    );
}

#[test]
fn scalar_and_vec_dts() {
    assert_eq!(<u32 as IntoWgslStruct>::dt(), DType::Basic(BasicTy::Integer(IntegerTy::U32)));
    assert_eq!(<i32 as IntoWgslStruct>::dt(), DType::Basic(BasicTy::Integer(IntegerTy::I32)));
    assert_eq!(<bool as IntoWgslStruct>::dt(), DType::Basic(BasicTy::Bool));
    assert_eq!(
        <Vec<bool> as IntoWgslStruct>::dt(),
        DType::Vector(VecTy::Array(MaybeAtomic::Naked(BasicTyOrStructRef::BasicTy(BasicTy::Bool)), None)),
    );
    assert_eq!(
        <Vec<u32> as IntoWgslStruct>::dt(),
        DType::Vector(VecTy::Array(
            MaybeAtomic::Naked(BasicTyOrStructRef::BasicTy(BasicTy::Integer(IntegerTy::U32))),
            None
        )),
    );
}
