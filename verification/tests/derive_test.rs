use codegen::asts::lowered::Struct;
use codegen::asts::{Atomic, IntoWgslStruct};
use codegen::dt::{BasicTy, BasicTyOrStructRef, DType, IntegerTy, MaybeAtomic, VecTy};

fn field(name: &str, dt: DType) -> (String, DType) {
    (name.to_string(), dt)
}

fn simple_particle() -> (String, Struct) {
    let name = "SimpleParticle".to_string();
    let s = Struct {
        name: name.clone(),
        inner: vec![
            field("position", DType::Vector(VecTy::Vec3(BasicTy::F32))),
            field("velocity", DType::Vector(VecTy::Vec3(BasicTy::F32))),
            field("id", <u32 as IntoWgslStruct>::dt()),
        ],
    };
    (name, s)
}

fn buffer_data() -> (String, Struct) {
    let name = "BufferData".to_string();
    let s = Struct {
        name: name.clone(),
        inner: vec![
            field(
                "data",
                DType::Vector(VecTy::Array(
                    MaybeAtomic::Naked(BasicTyOrStructRef::BasicTy(BasicTy::F32)),
                    None,
                )),
            ),
            field("count", <u32 as IntoWgslStruct>::dt()),
        ],
    };
    (name, s)
}

fn basic_types() -> (String, Struct) {
    let name = "BasicTypes".to_string();
    let s = Struct {
        name: name.clone(),
        inner: vec![
            field("float_val", DType::Basic(BasicTy::F32)),
            field("uint_val", <u32 as IntoWgslStruct>::dt()),
            field("int_val", <i32 as IntoWgslStruct>::dt()),
            field("vec2_val", DType::Vector(VecTy::Vec2(BasicTy::F32))),
            field("vec3_val", DType::Vector(VecTy::Vec3(BasicTy::F32))),
        ],
    };
    (name, s)
}

fn atomic_counter() -> (String, Struct) {
    let name = "AtomicCounter".to_string();
    let s = Struct { name: name.clone(), inner: vec![field("count", <u32 as IntoWgslStruct>::dt())] };
    (name, s)
}

fn inner_struct() -> Struct {
    Struct { name: "InnerStruct".to_string(), inner: vec![field("value", DType::Basic(BasicTy::F32))] }
}

fn outer_struct() -> (String, Struct) {
    let name = "OuterStruct".to_string();
    let s = Struct {
        name: name.clone(),
        inner: vec![
            field("inner", DType::StructRef { ident: "InnerStruct".to_string() }),
            field("count", <u32 as IntoWgslStruct>::dt()),
        ],
    };
    (name, s)
}

#[test]
fn test_simple_particle() {
    let (name, s): (String, Struct) = simple_particle();
    println!("SimpleParticle ({}): {:#?}", name, s);
}

#[test]
fn test_buffer_data() {
    let (name, s): (String, Struct) = buffer_data();
    println!("BufferData ({}): {:#?}", name, s);
}

#[test]
fn test_basic_types() {
    let (name, s): (String, Struct) = basic_types();
    println!("BasicTypes ({}): {:#?}", name, s);
}

#[test]
fn test_atomic_counter() {
    let (name, s): (String, Struct) = atomic_counter();
    println!("AtomicCounter ({}): {:#?}", name, s);
}

#[test]
fn test_nested_struct() {
    let (name, s): (String, Struct) = outer_struct();
    println!("OuterStruct ({}): {:#?}", name, s);

    let store = vec![inner_struct(), s];

    let inner_dt = codegen::dt::DType::StructRef { ident: "InnerStruct".to_string() };
    assert_eq!(Struct::wgsl_size_align(&store, &inner_dt), (4, 4), "InnerStruct size/align");

    let outer_dt = codegen::dt::DType::StructRef { ident: "OuterStruct".to_string() };
    assert_eq!(Struct::wgsl_size_align(&store, &outer_dt), (8, 4), "OuterStruct size/align");
}

#[test]
fn test_derive_atomic_field() {
    let s = Struct { name: "WithAtomic".to_string(), inner: vec![field("counter", <Atomic<u32> as IntoWgslStruct>::dt())] };
    assert_eq!(s.inner.len(), 1);
    assert_eq!(s.inner[0].0, "counter");
    assert_eq!(s.inner[0].1, DType::Atomic(IntegerTy::U32));
}
