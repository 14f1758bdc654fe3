use codegen::asts::lowered::Struct;
use codegen::dt::{BasicTy, DType, IntegerTy, VecTy};

fn my_gpu_particle() -> Struct {
    Struct {
        name: "MyGpuParticle".to_string(),
        inner: vec![
            ("position".to_string(), DType::Vector(VecTy::Vec3(BasicTy::F32))),
            ("velocity".to_string(), DType::Vector(VecTy::Vec3(BasicTy::F32))),
            ("id".to_string(), DType::Atomic(IntegerTy::U32)),
        ],
    }
}

#[test]
fn test_macro() {
    let s: Struct = my_gpu_particle();
    println!("{:#?}", s)
}
