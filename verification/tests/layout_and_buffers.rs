use codegen::asts::lowered::Struct;
use codegen::buffers::align_to_4_bytes;
use codegen::dt::{BasicTy, BasicTyOrStructRef, DType, IntegerTy, MaybeAtomic, VecTy};

#[test]
fn align_rounds_up_to_words() {
    assert_eq!(align_to_4_bytes(0), 0);
    assert_eq!(align_to_4_bytes(1), 4);
    assert_eq!(align_to_4_bytes(4), 4);
    assert_eq!(align_to_4_bytes(5), 8);
    assert_eq!(align_to_4_bytes(1023), 1024);
    assert_eq!(align_to_4_bytes(u64::MAX - 3), u64::MAX - 3);
    // Rounding an aligned size changes nothing.
    assert_eq!(align_to_4_bytes(align_to_4_bytes(13)), align_to_4_bytes(13));
}

fn field(name: &str, dt: DType) -> (String, DType) {
    (name.to_string(), dt)
}

#[test]
fn sizes_and_alignments() {
    let store: Vec<Struct> = vec![];
    let f = DType::Basic(BasicTy::F32);
    assert_eq!(Struct::wgsl_size_align(&store, &f), (4, 4));
    assert_eq!(Struct::wgsl_size_align(&store, &DType::Vector(VecTy::Vec3(BasicTy::F32))), (12, 16));
    assert_eq!(Struct::wgsl_size_align(&store, &DType::Vector(VecTy::Vec2(BasicTy::F32))), (8, 8));
    let arr = DType::Vector(VecTy::Array(MaybeAtomic::Atomic(IntegerTy::U32), Some(2)));
    // Small arrays take at least 16 bytes.
    assert_eq!(Struct::wgsl_size_align(&store, &arr), (16, 4));
    let big = DType::Vector(VecTy::Array(MaybeAtomic::Naked(BasicTyOrStructRef::BasicTy(BasicTy::F32)), Some(10)));
    assert_eq!(Struct::wgsl_size_align(&store, &big), (40, 4));
}

#[test]
fn struct_size_is_multiple_of_alignment() {
    let s = Struct {
        name: "P".to_string(),
        inner: vec![field("pos", DType::Vector(VecTy::Vec3(BasicTy::F32))), field("w", DType::Basic(BasicTy::F32)), field("k", DType::Basic(BasicTy::F32))],
    };
    let store = vec![s];
    let (size, align) = Struct::wgsl_size_align(&store, &DType::StructRef { ident: "P".to_string() });
    assert_eq!((size, align), (32, 16));
    assert_eq!(size % align, 0);
}

#[test]
fn padding_aligns_next_field() {
    let store: Vec<Struct> = vec![];
    let v4 = DType::Vector(VecTy::Vec4(BasicTy::F32));
    assert_eq!(Struct::required_padding(&store, 4, &v4), 12);
    assert_eq!(Struct::required_padding(&store, 16, &v4), 0);
    assert_eq!(Struct::required_padding(&store, 6, &DType::Basic(BasicTy::F32)), 2);
}

#[test]
fn with_padding_inserts_pad_fields_and_keeps_fields() {
    let store: Vec<Struct> = vec![];
    let s = Struct {
        name: "S".to_string(),
        inner: vec![field("a", DType::Basic(BasicTy::F32)), field("b", DType::Vector(VecTy::Vec4(BasicTy::F32))), field("c", DType::Basic(BasicTy::F32))],
    };
    let p = s.with_padding(&store);
    assert_eq!(p.name, "S");
    assert_eq!(
        p.inner,
        vec![
            field("a", DType::Basic(BasicTy::F32)),
            field("_pad_0", DType::Pad(12)),
            field("b", DType::Vector(VecTy::Vec4(BasicTy::F32))),
            field("c", DType::Basic(BasicTy::F32)),
        ]
    );
}

#[test]
fn dtype_helpers() {
    let arr = DType::Vector(VecTy::Array(MaybeAtomic::Atomic(IntegerTy::I32), Some(3)));
    assert_eq!(arr.peel_array(), DType::Atomic(IntegerTy::I32));
    assert_eq!(arr.element_count(), 3);
    assert_eq!(DType::Vector(VecTy::Vec4(BasicTy::Bool)).peel_all(), DType::Basic(BasicTy::Bool));
    assert_eq!(DType::Vector(VecTy::Vec2(BasicTy::F32)).element_count(), 2);
    assert_eq!(DType::Basic(BasicTy::F32).element_count(), 1);
    assert_eq!(
        DType::Basic(BasicTy::Integer(IntegerTy::U32)).as_array_dtype(),
        DType::Vector(VecTy::Array(MaybeAtomic::Atomic(IntegerTy::U32), None))
    );
    assert_eq!(
        DType::Vector(VecTy::Vec3(BasicTy::F32)).as_array_dtype(),
        DType::Vector(VecTy::Array(MaybeAtomic::Naked(BasicTyOrStructRef::BasicTy(BasicTy::F32)), None))
    );
    assert_eq!(DType::Vector(VecTy::Vec3(BasicTy::F32)).byte_size(), 12);
    assert_eq!(arr.byte_size(), 12);
    assert!(DType::Atomic(IntegerTy::U32).is_atomic());
    assert!(!DType::Basic(BasicTy::F32).is_atomic());
    let a = DType::StructRef { ident: "A".to_string() };
    assert!(a.same(&DType::StructRef { ident: "A".to_string() }));
    assert!(!a.same(&DType::StructRef { ident: "B".to_string() }));
}
