pub mod jit;
pub mod lowered;

use vstd::prelude::*;

use crate::dt::{BasicTy, BasicTyOrStructRef, DType, IntegerTy, MaybeAtomic, VecTy};
use lowered::{LoweredAST, LoweredASTOrConst, SpecAST, const_parts_view};

verus! {

/// A Rust type that has a WGSL counterpart.
pub trait IntoWgslStruct: Sized {
    /// The WGSL type of `Self`.
    spec fn spec_dt() -> DType;

    /// Whether `Self` has a WGSL type at all.
    spec fn dt_defined() -> bool;

    fn dt() -> (r: DType)
        requires
            Self::dt_defined(),
        ensures
            r == Self::spec_dt(),
    ;

    /// A constant of this type built from `data`.
    fn into_const(data: Vec<LoweredASTOrConst>) -> (r: LoweredAST)
        requires
            Self::dt_defined(),
        ensures
            r@ == (SpecAST::Const { dt: Self::spec_dt(), data: const_parts_view(data@) }),
    {
        LoweredAST::Const { dt: Self::dt(), data }
    }
}

/// Marks an integer type as atomic in WGSL.
#[derive(Clone, Copy)]
pub struct Atomic<T>(pub T);

impl IntoWgslStruct for u32 {
    open spec fn spec_dt() -> DType {
        DType::Basic(BasicTy::Integer(IntegerTy::U32))
    }

    open spec fn dt_defined() -> bool {
        true
    }

    fn dt() -> (r: DType) {
        DType::Basic(BasicTy::Integer(IntegerTy::U32))
    }
}

impl IntoWgslStruct for i32 {
    open spec fn spec_dt() -> DType {
        DType::Basic(BasicTy::Integer(IntegerTy::I32))
    }

    open spec fn dt_defined() -> bool {
        true
    }

    fn dt() -> (r: DType) {
        DType::Basic(BasicTy::Integer(IntegerTy::I32))
    }
}

impl IntoWgslStruct for bool {
    open spec fn spec_dt() -> DType {
        DType::Basic(BasicTy::Bool)
    }

    open spec fn dt_defined() -> bool {
        true
    }

    fn dt() -> (r: DType) {
        DType::Basic(BasicTy::Bool)
    }
}

impl<T: IntoWgslStruct> IntoWgslStruct for Atomic<T> {
    /// Atomic integers only.
    open spec fn spec_dt() -> DType {
        match T::spec_dt() {
            DType::Basic(BasicTy::Integer(i)) => DType::Atomic(i),
            other => other,
        }
    }

    open spec fn dt_defined() -> bool {
        T::dt_defined() && T::spec_dt() matches DType::Basic(BasicTy::Integer(_))
    }

    fn dt() -> (r: DType) {
        match T::dt() {
            DType::Basic(BasicTy::Integer(i)) => DType::Atomic(i),
            other => other,
        }
    }
}

/// The element type of a runtime-sized array of values of type `dt`.
pub open spec fn spec_array_elem(dt: DType) -> MaybeAtomic<IntegerTy, BasicTyOrStructRef> {
    match dt {
        DType::Atomic(i) => MaybeAtomic::Atomic(i),
        DType::Basic(b) => MaybeAtomic::Naked(BasicTyOrStructRef::BasicTy(b)),
        DType::StructRef { ident } => MaybeAtomic::Naked(BasicTyOrStructRef::StructRef { ident }),
        _ => MaybeAtomic::Atomic(IntegerTy::U32),
    }
}

/// Whether values of type `dt` can be array elements: scalars, atomics and
/// structs can; vectors, arrays and padding cannot.
pub open spec fn is_array_elem(dt: DType) -> bool {
    dt is Atomic || dt is Basic || dt is StructRef
}

impl<T: IntoWgslStruct> IntoWgslStruct for Vec<T> {
    /// A runtime-sized array of `T`.
    open spec fn spec_dt() -> DType {
        DType::Vector(VecTy::Array(spec_array_elem(T::spec_dt()), None))
    }

    open spec fn dt_defined() -> bool {
        T::dt_defined() && is_array_elem(T::spec_dt())
    }

    fn dt() -> (r: DType) {
        let inner = match T::dt() {
            DType::Atomic(i) => MaybeAtomic::Atomic(i),
            DType::Basic(b) => MaybeAtomic::Naked(BasicTyOrStructRef::BasicTy(b)),
            DType::StructRef { ident } => MaybeAtomic::Naked(BasicTyOrStructRef::StructRef { ident }),
            _ => MaybeAtomic::Atomic(IntegerTy::U32),
        };
        DType::Vector(VecTy::Array(inner, None))
    }
}

} // verus!
