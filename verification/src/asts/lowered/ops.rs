use core::ops::{Add, BitAnd, BitOr, BitXor, Div, Mul, Neg, Not, Rem, Shl, Shr, Sub};

use vstd::prelude::*;
use vstd::std_specs::ops::{
    AddSpecImpl, BitAndSpecImpl, BitOrSpecImpl, BitXorSpecImpl, DivSpecImpl, MulSpecImpl,
    NegSpecImpl, NotSpecImpl, RemSpecImpl, ShlSpecImpl, ShrSpecImpl, SubSpecImpl,
};

use super::{BinOp, LoweredAST, UnaryOp, spec_bin, spec_un};

verus! {

impl Add for LoweredAST {
    type Output = LoweredAST;

    fn add(self, rhs: Self) -> (r: Self::Output)
        ensures
            r@ == spec_bin(self@, rhs@, BinOp::Add),
    {
        LoweredAST::BinaryOp { lhs: Box::new(self), rhs: Box::new(rhs), op: BinOp::Add }
    }
}

impl AddSpecImpl for LoweredAST {
    open spec fn obeys_add_spec() -> bool {
        true
    }

    open spec fn add_req(self, rhs: Self) -> bool {
        true
    }

    open spec fn add_spec(self, rhs: Self) -> Self::Output {
        LoweredAST::BinaryOp { lhs: Box::new(self), rhs: Box::new(rhs), op: BinOp::Add }
    }
}

impl Sub for LoweredAST {
    type Output = LoweredAST;

    fn sub(self, rhs: Self) -> (r: Self::Output)
        ensures
            r@ == spec_bin(self@, rhs@, BinOp::Sub),
    {
        LoweredAST::BinaryOp { lhs: Box::new(self), rhs: Box::new(rhs), op: BinOp::Sub }
    }
}

impl SubSpecImpl for LoweredAST {
    open spec fn obeys_sub_spec() -> bool {
        true
    }

    open spec fn sub_req(self, rhs: Self) -> bool {
        true
    }

    open spec fn sub_spec(self, rhs: Self) -> Self::Output {
        LoweredAST::BinaryOp { lhs: Box::new(self), rhs: Box::new(rhs), op: BinOp::Sub }
    }
}

impl Mul for LoweredAST {
    type Output = LoweredAST;

    fn mul(self, rhs: Self) -> (r: Self::Output)
        ensures
            r@ == spec_bin(self@, rhs@, BinOp::Mul),
    {
        LoweredAST::BinaryOp { lhs: Box::new(self), rhs: Box::new(rhs), op: BinOp::Mul }
    }
}

impl MulSpecImpl for LoweredAST {
    open spec fn obeys_mul_spec() -> bool {
        true
    }

    open spec fn mul_req(self, rhs: Self) -> bool {
        true
    }

    open spec fn mul_spec(self, rhs: Self) -> Self::Output {
        LoweredAST::BinaryOp { lhs: Box::new(self), rhs: Box::new(rhs), op: BinOp::Mul }
    }
}

impl Div for LoweredAST {
    type Output = LoweredAST;

    fn div(self, rhs: Self) -> (r: Self::Output)
        ensures
            r@ == spec_bin(self@, rhs@, BinOp::Div),
    {
        LoweredAST::BinaryOp { lhs: Box::new(self), rhs: Box::new(rhs), op: BinOp::Div }
    }
}

impl DivSpecImpl for LoweredAST {
    open spec fn obeys_div_spec() -> bool {
        true
    }

    open spec fn div_req(self, rhs: Self) -> bool {
        true
    }

    open spec fn div_spec(self, rhs: Self) -> Self::Output {
        LoweredAST::BinaryOp { lhs: Box::new(self), rhs: Box::new(rhs), op: BinOp::Div }
    }
}

impl Rem for LoweredAST {
    type Output = LoweredAST;

    fn rem(self, rhs: Self) -> (r: Self::Output)
        ensures
            r@ == spec_bin(self@, rhs@, BinOp::Rem),
    {
        LoweredAST::BinaryOp { lhs: Box::new(self), rhs: Box::new(rhs), op: BinOp::Rem }
    }
}

impl RemSpecImpl for LoweredAST {
    open spec fn obeys_rem_spec() -> bool {
        true
    }

    open spec fn rem_req(self, rhs: Self) -> bool {
        true
    }

    open spec fn rem_spec(self, rhs: Self) -> Self::Output {
        LoweredAST::BinaryOp { lhs: Box::new(self), rhs: Box::new(rhs), op: BinOp::Rem }
    }
}

impl Shr for LoweredAST {
    type Output = LoweredAST;

    fn shr(self, rhs: Self) -> (r: Self::Output)
        ensures
            r@ == spec_bin(self@, rhs@, BinOp::Shr),
    {
        LoweredAST::BinaryOp { lhs: Box::new(self), rhs: Box::new(rhs), op: BinOp::Shr }
    }
}

impl ShrSpecImpl for LoweredAST {
    open spec fn obeys_shr_spec() -> bool {
        true
    }

    open spec fn shr_req(self, rhs: Self) -> bool {
        true
    }

    open spec fn shr_spec(self, rhs: Self) -> Self::Output {
        LoweredAST::BinaryOp { lhs: Box::new(self), rhs: Box::new(rhs), op: BinOp::Shr }
    }
}

impl Shl for LoweredAST {
    type Output = LoweredAST;

    fn shl(self, rhs: Self) -> (r: Self::Output)
        ensures
            r@ == spec_bin(self@, rhs@, BinOp::Shl),
    {
        LoweredAST::BinaryOp { lhs: Box::new(self), rhs: Box::new(rhs), op: BinOp::Shl }
    }
}

impl ShlSpecImpl for LoweredAST {
    open spec fn obeys_shl_spec() -> bool {
        true
    }

    open spec fn shl_req(self, rhs: Self) -> bool {
        true
    }

    open spec fn shl_spec(self, rhs: Self) -> Self::Output {
        LoweredAST::BinaryOp { lhs: Box::new(self), rhs: Box::new(rhs), op: BinOp::Shl }
    }
}

impl BitAnd for LoweredAST {
    type Output = LoweredAST;

    fn bitand(self, rhs: Self) -> (r: Self::Output)
        ensures
            r@ == spec_bin(self@, rhs@, BinOp::BitwiseAnd),
    {
        LoweredAST::BinaryOp { lhs: Box::new(self), rhs: Box::new(rhs), op: BinOp::BitwiseAnd }
    }
}

impl BitAndSpecImpl for LoweredAST {
    open spec fn obeys_bitand_spec() -> bool {
        true
    }

    open spec fn bitand_req(self, rhs: Self) -> bool {
        true
    }

    open spec fn bitand_spec(self, rhs: Self) -> Self::Output {
        LoweredAST::BinaryOp { lhs: Box::new(self), rhs: Box::new(rhs), op: BinOp::BitwiseAnd }
    }
}

impl BitOr for LoweredAST {
    type Output = LoweredAST;

    fn bitor(self, rhs: Self) -> (r: Self::Output)
        ensures
            r@ == spec_bin(self@, rhs@, BinOp::BitwiseOr),
    {
        LoweredAST::BinaryOp { lhs: Box::new(self), rhs: Box::new(rhs), op: BinOp::BitwiseOr }
    }
}

impl BitOrSpecImpl for LoweredAST {
    open spec fn obeys_bitor_spec() -> bool {
        true
    }

    open spec fn bitor_req(self, rhs: Self) -> bool {
        true
    }

    open spec fn bitor_spec(self, rhs: Self) -> Self::Output {
        LoweredAST::BinaryOp { lhs: Box::new(self), rhs: Box::new(rhs), op: BinOp::BitwiseOr }
    }
}

impl BitXor for LoweredAST {
    type Output = LoweredAST;

    fn bitxor(self, rhs: Self) -> (r: Self::Output)
        ensures
            r@ == spec_bin(self@, rhs@, BinOp::BitwiseXor),
    {
        LoweredAST::BinaryOp { lhs: Box::new(self), rhs: Box::new(rhs), op: BinOp::BitwiseXor }
    }
}

impl BitXorSpecImpl for LoweredAST {
    open spec fn obeys_bitxor_spec() -> bool {
        true
    }

    open spec fn bitxor_req(self, rhs: Self) -> bool {
        true
    }

    open spec fn bitxor_spec(self, rhs: Self) -> Self::Output {
        LoweredAST::BinaryOp { lhs: Box::new(self), rhs: Box::new(rhs), op: BinOp::BitwiseXor }
    }
}

impl Not for LoweredAST {
    type Output = LoweredAST;

    fn not(self) -> (r: Self::Output)
        ensures
            r@ == spec_un(self@, UnaryOp::LogicalNot),
    {
        LoweredAST::UnaryOp { operand: Box::new(self), op: UnaryOp::LogicalNot }
    }
}

impl NotSpecImpl for LoweredAST {
    open spec fn obeys_not_spec() -> bool {
        true
    }

    open spec fn not_req(self) -> bool {
        true
    }

    open spec fn not_spec(self) -> Self::Output {
        LoweredAST::UnaryOp { operand: Box::new(self), op: UnaryOp::LogicalNot }
    }
}

impl Neg for LoweredAST {
    type Output = LoweredAST;

    fn neg(self) -> (r: Self::Output)
        ensures
            r@ == spec_un(self@, UnaryOp::Neg),
    {
        LoweredAST::UnaryOp { operand: Box::new(self), op: UnaryOp::Neg }
    }
}

impl NegSpecImpl for LoweredAST {
    open spec fn obeys_neg_spec() -> bool {
        true
    }

    open spec fn neg_req(self) -> bool {
        true
    }

    open spec fn neg_spec(self) -> Self::Output {
        LoweredAST::UnaryOp { operand: Box::new(self), op: UnaryOp::Neg }
    }
}

} // verus!
