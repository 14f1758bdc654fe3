//! Building tensor expressions: operators, element-wise functions,
//! movements and reductions.
use core::ops::{Add, BitAnd, BitOr, BitXor, Div, Mul, Neg, Not, Rem, Shl, Shr, Sub};

use vstd::prelude::*;
use vstd::std_specs::ops::{
    AddSpecImpl, BitAndSpecImpl, BitOrSpecImpl, BitXorSpecImpl, DivSpecImpl, MulSpecImpl,
    NegSpecImpl, NotSpecImpl, RemSpecImpl, ShlSpecImpl, ShrSpecImpl, SubSpecImpl,
};

use super::{JitAST, JitBinOp, JitUnaryOp, MovOp, ReduceOp, SpecJit, TernaryOp};
use crate::asts::lowered::{BinOp, UnaryOp};
use crate::dt::DType;

verus! {

/// The model of `lhs op rhs`.
pub open spec fn spec_jit_bin(lhs: SpecJit, rhs: SpecJit, op: JitBinOp) -> SpecJit {
    SpecJit::BinOp { lhs: Box::new(lhs), rhs: Box::new(rhs), op }
}

/// The model of `op operand`.
pub open spec fn spec_jit_un(operand: SpecJit, op: JitUnaryOp) -> SpecJit {
    SpecJit::UnaryOp { operand: Box::new(operand), op }
}

impl Add for JitAST {
    type Output = JitAST;

    fn add(self, rhs: Self) -> (r: Self::Output)
        ensures
            r@ == spec_jit_bin(self@, rhs@, JitBinOp::Basic(BinOp::Add)),
    {
        JitAST::BinOp { lhs: Box::new(self), rhs: Box::new(rhs), op: JitBinOp::Basic(BinOp::Add) }
    }
}

impl AddSpecImpl for JitAST {
    open spec fn obeys_add_spec() -> bool {
        true
    }

    open spec fn add_req(self, rhs: Self) -> bool {
        true
    }

    open spec fn add_spec(self, rhs: Self) -> Self::Output {
        JitAST::BinOp { lhs: Box::new(self), rhs: Box::new(rhs), op: JitBinOp::Basic(BinOp::Add) }
    }
}

impl Sub for JitAST {
    type Output = JitAST;

    fn sub(self, rhs: Self) -> (r: Self::Output)
        ensures
            r@ == spec_jit_bin(self@, rhs@, JitBinOp::Basic(BinOp::Sub)),
    {
        JitAST::BinOp { lhs: Box::new(self), rhs: Box::new(rhs), op: JitBinOp::Basic(BinOp::Sub) }
    }
}

impl SubSpecImpl for JitAST {
    open spec fn obeys_sub_spec() -> bool {
        true
    }

    open spec fn sub_req(self, rhs: Self) -> bool {
        true
    }

    open spec fn sub_spec(self, rhs: Self) -> Self::Output {
        JitAST::BinOp { lhs: Box::new(self), rhs: Box::new(rhs), op: JitBinOp::Basic(BinOp::Sub) }
    }
}

impl Mul for JitAST {
    type Output = JitAST;

    fn mul(self, rhs: Self) -> (r: Self::Output)
        ensures
            r@ == spec_jit_bin(self@, rhs@, JitBinOp::Basic(BinOp::Mul)),
    {
        JitAST::BinOp { lhs: Box::new(self), rhs: Box::new(rhs), op: JitBinOp::Basic(BinOp::Mul) }
    }
}

impl MulSpecImpl for JitAST {
    open spec fn obeys_mul_spec() -> bool {
        true
    }

    open spec fn mul_req(self, rhs: Self) -> bool {
        true
    }

    open spec fn mul_spec(self, rhs: Self) -> Self::Output {
        JitAST::BinOp { lhs: Box::new(self), rhs: Box::new(rhs), op: JitBinOp::Basic(BinOp::Mul) }
    }
}

impl Div for JitAST {
    type Output = JitAST;

    fn div(self, rhs: Self) -> (r: Self::Output)
        ensures
            r@ == spec_jit_bin(self@, rhs@, JitBinOp::Basic(BinOp::Div)),
    {
        JitAST::BinOp { lhs: Box::new(self), rhs: Box::new(rhs), op: JitBinOp::Basic(BinOp::Div) }
    }
}

impl DivSpecImpl for JitAST {
    open spec fn obeys_div_spec() -> bool {
        true
    }

    open spec fn div_req(self, rhs: Self) -> bool {
        true
    }

    open spec fn div_spec(self, rhs: Self) -> Self::Output {
        JitAST::BinOp { lhs: Box::new(self), rhs: Box::new(rhs), op: JitBinOp::Basic(BinOp::Div) }
    }
}

impl Rem for JitAST {
    type Output = JitAST;

    fn rem(self, rhs: Self) -> (r: Self::Output)
        ensures
            r@ == spec_jit_bin(self@, rhs@, JitBinOp::Basic(BinOp::Rem)),
    {
        JitAST::BinOp { lhs: Box::new(self), rhs: Box::new(rhs), op: JitBinOp::Basic(BinOp::Rem) }
    }
}

impl RemSpecImpl for JitAST {
    open spec fn obeys_rem_spec() -> bool {
        true
    }

    open spec fn rem_req(self, rhs: Self) -> bool {
        true
    }

    open spec fn rem_spec(self, rhs: Self) -> Self::Output {
        JitAST::BinOp { lhs: Box::new(self), rhs: Box::new(rhs), op: JitBinOp::Basic(BinOp::Rem) }
    }
}

impl BitAnd for JitAST {
    type Output = JitAST;

    fn bitand(self, rhs: Self) -> (r: Self::Output)
        ensures
            r@ == spec_jit_bin(self@, rhs@, JitBinOp::Basic(BinOp::BitwiseAnd)),
    {
        JitAST::BinOp { lhs: Box::new(self), rhs: Box::new(rhs), op: JitBinOp::Basic(BinOp::BitwiseAnd) }
    }
}

impl BitAndSpecImpl for JitAST {
    open spec fn obeys_bitand_spec() -> bool {
        true
    }

    open spec fn bitand_req(self, rhs: Self) -> bool {
        true
    }

    open spec fn bitand_spec(self, rhs: Self) -> Self::Output {
        JitAST::BinOp { lhs: Box::new(self), rhs: Box::new(rhs), op: JitBinOp::Basic(BinOp::BitwiseAnd) }
    }
}

impl BitOr for JitAST {
    type Output = JitAST;

    fn bitor(self, rhs: Self) -> (r: Self::Output)
        ensures
            r@ == spec_jit_bin(self@, rhs@, JitBinOp::Basic(BinOp::BitwiseOr)),
    {
        JitAST::BinOp { lhs: Box::new(self), rhs: Box::new(rhs), op: JitBinOp::Basic(BinOp::BitwiseOr) }
    }
}

impl BitOrSpecImpl for JitAST {
    open spec fn obeys_bitor_spec() -> bool {
        true
    }

    open spec fn bitor_req(self, rhs: Self) -> bool {
        true
    }

    open spec fn bitor_spec(self, rhs: Self) -> Self::Output {
        JitAST::BinOp { lhs: Box::new(self), rhs: Box::new(rhs), op: JitBinOp::Basic(BinOp::BitwiseOr) }
    }
}

impl BitXor for JitAST {
    type Output = JitAST;

    fn bitxor(self, rhs: Self) -> (r: Self::Output)
        ensures
            r@ == spec_jit_bin(self@, rhs@, JitBinOp::Basic(BinOp::BitwiseXor)),
    {
        JitAST::BinOp { lhs: Box::new(self), rhs: Box::new(rhs), op: JitBinOp::Basic(BinOp::BitwiseXor) }
    }
}

impl BitXorSpecImpl for JitAST {
    open spec fn obeys_bitxor_spec() -> bool {
        true
    }

    open spec fn bitxor_req(self, rhs: Self) -> bool {
        true
    }

    open spec fn bitxor_spec(self, rhs: Self) -> Self::Output {
        JitAST::BinOp { lhs: Box::new(self), rhs: Box::new(rhs), op: JitBinOp::Basic(BinOp::BitwiseXor) }
    }
}

impl Shl for JitAST {
    type Output = JitAST;

    fn shl(self, rhs: Self) -> (r: Self::Output)
        ensures
            r@ == spec_jit_bin(self@, rhs@, JitBinOp::Basic(BinOp::Shl)),
    {
        JitAST::BinOp { lhs: Box::new(self), rhs: Box::new(rhs), op: JitBinOp::Basic(BinOp::Shl) }
    }
}

impl ShlSpecImpl for JitAST {
    open spec fn obeys_shl_spec() -> bool {
        true
    }

    open spec fn shl_req(self, rhs: Self) -> bool {
        true
    }

    open spec fn shl_spec(self, rhs: Self) -> Self::Output {
        JitAST::BinOp { lhs: Box::new(self), rhs: Box::new(rhs), op: JitBinOp::Basic(BinOp::Shl) }
    }
}

impl Shr for JitAST {
    type Output = JitAST;

    fn shr(self, rhs: Self) -> (r: Self::Output)
        ensures
            r@ == spec_jit_bin(self@, rhs@, JitBinOp::Basic(BinOp::Shr)),
    {
        JitAST::BinOp { lhs: Box::new(self), rhs: Box::new(rhs), op: JitBinOp::Basic(BinOp::Shr) }
    }
}

impl ShrSpecImpl for JitAST {
    open spec fn obeys_shr_spec() -> bool {
        true
    }

    open spec fn shr_req(self, rhs: Self) -> bool {
        true
    }

    open spec fn shr_spec(self, rhs: Self) -> Self::Output {
        JitAST::BinOp { lhs: Box::new(self), rhs: Box::new(rhs), op: JitBinOp::Basic(BinOp::Shr) }
    }
}

impl Not for JitAST {
    type Output = JitAST;

    fn not(self) -> (r: Self::Output)
        ensures
            r@ == spec_jit_un(self@, JitUnaryOp::Basic(UnaryOp::BitwiseNot)),
    {
        JitAST::UnaryOp { operand: Box::new(self), op: JitUnaryOp::Basic(UnaryOp::BitwiseNot) }
    }
}

impl NotSpecImpl for JitAST {
    open spec fn obeys_not_spec() -> bool {
        true
    }

    open spec fn not_req(self) -> bool {
        true
    }

    open spec fn not_spec(self) -> Self::Output {
        JitAST::UnaryOp { operand: Box::new(self), op: JitUnaryOp::Basic(UnaryOp::BitwiseNot) }
    }
}

impl Neg for JitAST {
    type Output = JitAST;

    fn neg(self) -> (r: Self::Output)
        ensures
            r@ == spec_jit_un(self@, JitUnaryOp::Basic(UnaryOp::Neg)),
    {
        JitAST::UnaryOp { operand: Box::new(self), op: JitUnaryOp::Basic(UnaryOp::Neg) }
    }
}

impl NegSpecImpl for JitAST {
    open spec fn obeys_neg_spec() -> bool {
        true
    }

    open spec fn neg_req(self) -> bool {
        true
    }

    open spec fn neg_spec(self) -> Self::Output {
        JitAST::UnaryOp { operand: Box::new(self), op: JitUnaryOp::Basic(UnaryOp::Neg) }
    }
}

impl JitAST {
    /// Input variable `id`: a buffer of `size` bytes holding `dtype`.
    pub fn var(id: usize, size: u64, dtype: DType) -> (r: JitAST)
        ensures
            r@ == (SpecJit::Var { id, size, dtype }),
    {
        JitAST::Var { id, size, dtype }
    }

    /// `self == rhs`, element-wise.
    pub fn eq(self, rhs: Self) -> (r: Self)
        ensures
            r@ == spec_jit_bin(self@, rhs@, JitBinOp::Basic(BinOp::Eq)),
    {
        JitAST::BinOp { lhs: Box::new(self), rhs: Box::new(rhs), op: JitBinOp::Basic(BinOp::Eq) }
    }

    /// `self != rhs`, element-wise.
    pub fn ne(self, rhs: Self) -> (r: Self)
        ensures
            r@ == spec_jit_bin(self@, rhs@, JitBinOp::Basic(BinOp::Ne)),
    {
        JitAST::BinOp { lhs: Box::new(self), rhs: Box::new(rhs), op: JitBinOp::Basic(BinOp::Ne) }
    }

    /// `self > rhs`, element-wise.
    pub fn gt(self, rhs: Self) -> (r: Self)
        ensures
            r@ == spec_jit_bin(self@, rhs@, JitBinOp::Basic(BinOp::Gt)),
    {
        JitAST::BinOp { lhs: Box::new(self), rhs: Box::new(rhs), op: JitBinOp::Basic(BinOp::Gt) }
    }

    /// `self < rhs`, element-wise.
    pub fn lt(self, rhs: Self) -> (r: Self)
        ensures
            r@ == spec_jit_bin(self@, rhs@, JitBinOp::Basic(BinOp::Lt)),
    {
        JitAST::BinOp { lhs: Box::new(self), rhs: Box::new(rhs), op: JitBinOp::Basic(BinOp::Lt) }
    }

    /// `self >= rhs`, element-wise.
    pub fn ge(self, rhs: Self) -> (r: Self)
        ensures
            r@ == spec_jit_bin(self@, rhs@, JitBinOp::Basic(BinOp::Ge)),
    {
        JitAST::BinOp { lhs: Box::new(self), rhs: Box::new(rhs), op: JitBinOp::Basic(BinOp::Ge) }
    }

    /// `self <= rhs`, element-wise.
    pub fn le(self, rhs: Self) -> (r: Self)
        ensures
            r@ == spec_jit_bin(self@, rhs@, JitBinOp::Basic(BinOp::Le)),
    {
        JitAST::BinOp { lhs: Box::new(self), rhs: Box::new(rhs), op: JitBinOp::Basic(BinOp::Le) }
    }

    /// `self && rhs`, element-wise.
    pub fn logical_and(self, rhs: Self) -> (r: Self)
        ensures
            r@ == spec_jit_bin(self@, rhs@, JitBinOp::Basic(BinOp::LogicalAnd)),
    {
        JitAST::BinOp { lhs: Box::new(self), rhs: Box::new(rhs), op: JitBinOp::Basic(BinOp::LogicalAnd) }
    }

    /// Division rounding up.
    pub fn cdiv(self, rhs: Self) -> (r: Self)
        ensures
            r@ == spec_jit_bin(self@, rhs@, JitBinOp::Cdiv),
    {
        JitAST::BinOp { lhs: Box::new(self), rhs: Box::new(rhs), op: JitBinOp::Cdiv }
    }

    /// The larger of the two.
    pub fn max(self, rhs: Self) -> (r: Self)
        ensures
            r@ == spec_jit_bin(self@, rhs@, JitBinOp::Max),
    {
        JitAST::BinOp { lhs: Box::new(self), rhs: Box::new(rhs), op: JitBinOp::Max }
    }

    /// Remainder of the division rounding up.
    pub fn cmod(self, rhs: Self) -> (r: Self)
        ensures
            r@ == spec_jit_bin(self@, rhs@, JitBinOp::Cmod),
    {
        JitAST::BinOp { lhs: Box::new(self), rhs: Box::new(rhs), op: JitBinOp::Cmod }
    }

    /// Floating-point division.
    pub fn fdiv(self, rhs: Self) -> (r: Self)
        ensures
            r@ == spec_jit_bin(self@, rhs@, JitBinOp::Fdiv),
    {
        JitAST::BinOp { lhs: Box::new(self), rhs: Box::new(rhs), op: JitBinOp::Fdiv }
    }

    /// `self` to the power `rhs`.
    pub fn pow(self, rhs: Self) -> (r: Self)
        ensures
            r@ == spec_jit_bin(self@, rhs@, JitBinOp::Pow),
    {
        JitAST::BinOp { lhs: Box::new(self), rhs: Box::new(rhs), op: JitBinOp::Pow }
    }

    /// Division rounding down.
    pub fn floordiv(self, rhs: Self) -> (r: Self)
        ensures
            r@ == spec_jit_bin(self@, rhs@, JitBinOp::Floordiv),
    {
        JitAST::BinOp { lhs: Box::new(self), rhs: Box::new(rhs), op: JitBinOp::Floordiv }
    }

    /// Remainder of the division rounding down.
    pub fn floormod(self, rhs: Self) -> (r: Self)
        ensures
            r@ == spec_jit_bin(self@, rhs@, JitBinOp::Floormod),
    {
        JitAST::BinOp { lhs: Box::new(self), rhs: Box::new(rhs), op: JitBinOp::Floormod }
    }

    /// A pseudo-random mix of the two.
    pub fn threefry(self, rhs: Self) -> (r: Self)
        ensures
            r@ == spec_jit_bin(self@, rhs@, JitBinOp::Threefry),
    {
        JitAST::BinOp { lhs: Box::new(self), rhs: Box::new(rhs), op: JitBinOp::Threefry }
    }

    /// `!self`, element-wise.
    pub fn logical_not(self) -> (r: Self)
        ensures
            r@ == spec_jit_un(self@, JitUnaryOp::Basic(UnaryOp::LogicalNot)),
    {
        JitAST::UnaryOp { operand: Box::new(self), op: JitUnaryOp::Basic(UnaryOp::LogicalNot) }
    }

    /// Two to the power `self`.
    pub fn exp2(self) -> (r: Self)
        ensures
            r@ == spec_jit_un(self@, JitUnaryOp::Exp2),
    {
        JitAST::UnaryOp { operand: Box::new(self), op: JitUnaryOp::Exp2 }
    }

    /// Base-two logarithm.
    pub fn log2(self) -> (r: Self)
        ensures
            r@ == spec_jit_un(self@, JitUnaryOp::Log2),
    {
        JitAST::UnaryOp { operand: Box::new(self), op: JitUnaryOp::Log2 }
    }

    /// Sine.
    pub fn sin(self) -> (r: Self)
        ensures
            r@ == spec_jit_un(self@, JitUnaryOp::Sin),
    {
        JitAST::UnaryOp { operand: Box::new(self), op: JitUnaryOp::Sin }
    }

    /// Square root.
    pub fn sqrt(self) -> (r: Self)
        ensures
            r@ == spec_jit_un(self@, JitUnaryOp::Sqrt),
    {
        JitAST::UnaryOp { operand: Box::new(self), op: JitUnaryOp::Sqrt }
    }

    /// `1 / self`.
    pub fn reciprocal(self) -> (r: Self)
        ensures
            r@ == spec_jit_un(self@, JitUnaryOp::Reciprocal),
    {
        JitAST::UnaryOp { operand: Box::new(self), op: JitUnaryOp::Reciprocal }
    }

    /// Rounding toward zero.
    pub fn trunc(self) -> (r: Self)
        ensures
            r@ == spec_jit_un(self@, JitUnaryOp::Trunc),
    {
        JitAST::UnaryOp { operand: Box::new(self), op: JitUnaryOp::Trunc }
    }

    /// The same bits read as another type.
    pub fn bitcast(self) -> (r: Self)
        ensures
            r@ == spec_jit_un(self@, JitUnaryOp::Bitcast),
    {
        JitAST::UnaryOp { operand: Box::new(self), op: JitUnaryOp::Bitcast }
    }

    /// `true_` where `cond` holds, `false_` elsewhere.
    pub fn where_(cond: Self, true_: Self, false_: Self) -> (r: Self)
        ensures
            r@ == (SpecJit::Ternary { a: Box::new(cond@), b: Box::new(true_@), c: Box::new(false_@), op: TernaryOp::Where }),
    {
        JitAST::Ternary { a: Box::new(cond), b: Box::new(true_), c: Box::new(false_), op: TernaryOp::Where }
    }

    /// `a * b + c`.
    pub fn mulacc(a: Self, b: Self, c: Self) -> (r: Self)
        ensures
            r@ == (SpecJit::Ternary { a: Box::new(a@), b: Box::new(b@), c: Box::new(c@), op: TernaryOp::Mulacc }),
    {
        JitAST::Ternary { a: Box::new(a), b: Box::new(b), c: Box::new(c), op: TernaryOp::Mulacc }
    }

    /// The same elements in the row-major order of `shape`.
    pub fn reshape(self, shape: Vec<usize>) -> (r: Self)
        ensures
            r@ == (SpecJit::Movement { operand: Box::new(self@), op: super::SpecMovOp::Reshape(shape@) }),
    {
        JitAST::Movement { operand: Box::new(self), op: MovOp::Reshape(shape) }
    }

    /// Broadcast to the shape `dims`.
    pub fn expand(self, dims: Vec<usize>) -> (r: Self)
        ensures
            r@ == (SpecJit::Movement { operand: Box::new(self@), op: super::SpecMovOp::Expand(dims@) }),
    {
        JitAST::Movement { operand: Box::new(self), op: MovOp::Expand(dims) }
    }

    /// The axes reordered: axis `i` of the result is axis `axes[i]`.
    pub fn permute(self, axes: Vec<usize>) -> (r: Self)
        ensures
            r@ == (SpecJit::Movement { operand: Box::new(self@), op: super::SpecMovOp::Permute(axes@) }),
    {
        JitAST::Movement { operand: Box::new(self), op: MovOp::Permute(axes) }
    }

    /// Zeros added before and after each axis.
    pub fn pad(self, padding: Vec<(usize, usize)>) -> (r: Self)
        ensures
            r@ == (SpecJit::Movement { operand: Box::new(self@), op: super::SpecMovOp::Pad(padding@) }),
    {
        JitAST::Movement { operand: Box::new(self), op: MovOp::Pad(padding) }
    }

    /// Elements removed before and after each axis.
    pub fn shrink(self, amount: Vec<(usize, usize)>) -> (r: Self)
        ensures
            r@ == (SpecJit::Movement { operand: Box::new(self@), op: super::SpecMovOp::Shrink(amount@) }),
    {
        JitAST::Movement { operand: Box::new(self), op: MovOp::Shrink(amount) }
    }

    /// The order along `axis` reversed.
    pub fn flip(self, axis: usize) -> (r: Self)
        ensures
            r@ == (SpecJit::Movement { operand: Box::new(self@), op: super::SpecMovOp::Flip(axis) }),
    {
        JitAST::Movement { operand: Box::new(self), op: MovOp::Flip(axis) }
    }

    /// Sum along `axis`.
    pub fn sum(self, axis: usize) -> (r: Self)
        ensures
            r@ == (SpecJit::Reduce { operand: Box::new(self@), axis, op: ReduceOp::Sum }),
    {
        JitAST::Reduce { operand: Box::new(self), axis, op: ReduceOp::Sum }
    }

    /// Product along `axis`.
    pub fn prod(self, axis: usize) -> (r: Self)
        ensures
            r@ == (SpecJit::Reduce { operand: Box::new(self@), axis, op: ReduceOp::Prod }),
    {
        JitAST::Reduce { operand: Box::new(self), axis, op: ReduceOp::Prod }
    }

    /// Maximum along `axis`.
    pub fn reduce_max(self, axis: usize) -> (r: Self)
        ensures
            r@ == (SpecJit::Reduce { operand: Box::new(self@), axis, op: ReduceOp::Max }),
    {
        JitAST::Reduce { operand: Box::new(self), axis, op: ReduceOp::Max }
    }

    /// Sum of all elements.
    pub fn sum_all(self) -> (r: Self)
        ensures
            r@ == (SpecJit::AllReduce { operand: Box::new(self@), op: ReduceOp::Sum }),
    {
        JitAST::AllReduce { operand: Box::new(self), op: ReduceOp::Sum }
    }

    /// Product of all elements.
    pub fn prod_all(self) -> (r: Self)
        ensures
            r@ == (SpecJit::AllReduce { operand: Box::new(self@), op: ReduceOp::Prod }),
    {
        JitAST::AllReduce { operand: Box::new(self), op: ReduceOp::Prod }
    }

    /// Maximum of all elements.
    pub fn max_all(self) -> (r: Self)
        ensures
            r@ == (SpecJit::AllReduce { operand: Box::new(self@), op: ReduceOp::Max }),
    {
        JitAST::AllReduce { operand: Box::new(self), op: ReduceOp::Max }
    }

    /// The value converted to type `dt`.
    pub fn cast(self, dt: DType) -> (r: Self)
        ensures
            r@ == (SpecJit::Cast { operand: Box::new(self@), dt }),
    {
        JitAST::Cast { operand: Box::new(self), dt }
    }
}

} // verus!
