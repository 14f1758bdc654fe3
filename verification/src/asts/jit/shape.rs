//! Shapes, element types and movement chains of tensor expressions.
use vstd::prelude::*;

use super::{JitAST, MovOp, ReduceOp, SpecJit, SpecMovOp, clone_usizes};
use crate::dt::{BasicTy, DType, IntegerTy, VecTy};

verus! {

/// The shape of a value of type `dt`: the length of a vector or sized
/// array; scalars and runtime-sized arrays have the empty shape.
pub open spec fn dt_shape(dt: DType) -> Seq<usize> {
    match dt {
        DType::Vector(VecTy::Vec2(_)) => seq![2usize],
        DType::Vector(VecTy::Vec3(_)) => seq![3usize],
        DType::Vector(VecTy::Vec4(_)) => seq![4usize],
        DType::Vector(VecTy::Array(_, Some(n))) => seq![n as usize],
        _ => Seq::empty(),
    }
}

/// `s` permuted by `axes`: entry `j` is `s[axes[j]]`; `None` when an axis
/// is out of range.
pub open spec fn permuted(s: Seq<usize>, axes: Seq<usize>) -> Option<Seq<usize>> {
    if forall|j: int| 0 <= j < axes.len() ==> axes[j] < s.len() {
        Some(Seq::new(axes.len(), |j: int| s[axes[j] as int]))
    } else {
        None
    }
}

/// Length of the shorter of two sequences.
pub open spec fn min_len(a: nat, b: nat) -> nat {
    if a <= b {
        a
    } else {
        b
    }
}

/// `s` grown by `amounts` (before, after) per axis, over the axes that both
/// cover; `None` when a size overflows.
pub open spec fn padded(s: Seq<usize>, amounts: Seq<(usize, usize)>) -> Option<Seq<usize>> {
    let n = min_len(s.len(), amounts.len());
    if forall|j: int| 0 <= j < n ==> s[j] + amounts[j].0 + amounts[j].1 <= usize::MAX {
        Some(Seq::new(n, |j: int| (s[j] + amounts[j].0 + amounts[j].1) as usize))
    } else {
        None
    }
}

/// `s` shrunk by `amounts` (before, after) per axis, over the axes that both
/// cover; `None` when an axis is smaller than what is taken from it.
pub open spec fn shrunk(s: Seq<usize>, amounts: Seq<(usize, usize)>) -> Option<Seq<usize>> {
    let n = min_len(s.len(), amounts.len());
    if forall|j: int| 0 <= j < n ==> amounts[j].0 + amounts[j].1 <= s[j] {
        Some(Seq::new(n, |j: int| (s[j] - amounts[j].0 - amounts[j].1) as usize))
    } else {
        None
    }
}

/// The shape after a movement on a tensor of shape `s`.
pub open spec fn moved_shape(s: Seq<usize>, op: SpecMovOp) -> Option<Seq<usize>> {
    match op {
        SpecMovOp::Reshape(to) => Some(to),
        SpecMovOp::Expand(to) => Some(to),
        SpecMovOp::Permute(axes) => permuted(s, axes),
        SpecMovOp::Pad(amounts) => padded(s, amounts),
        SpecMovOp::Shrink(amounts) => shrunk(s, amounts),
        SpecMovOp::Flip(_) => Some(s),
    }
}

/// Shrinking by the amounts a pad added gives back the shape before the
/// pad: `x.pad(a).shrink(a)` has the shape of `x`, axis by axis.
#[verifier::spinoff_prover]
pub proof fn lemma_shrink_undoes_pad(s: Seq<usize>, amounts: Seq<(usize, usize)>)
    requires
        amounts.len() == s.len(),
        padded(s, amounts) is Some,
    ensures
        moved_shape(s, SpecMovOp::Pad(amounts)) matches Some(p) && moved_shape(p, SpecMovOp::Shrink(amounts))
            == Some(s),
{
    let p = padded(s, amounts).unwrap();
    assert(shrunk(p, amounts).unwrap() =~= s);
}

/// The same of tensor expressions: padding and then shrinking by the same
/// amounts, one per axis, leaves the shape unchanged.
#[verifier::spinoff_prover]
pub proof fn lemma_pad_shrink_shape(x: SpecJit, amounts: Seq<(usize, usize)>)
    requires
        spec_shape(x) is Some,
        amounts.len() == spec_shape(x).unwrap().len(),
        padded(spec_shape(x).unwrap(), amounts) is Some,
    ensures
        spec_shape(
            SpecJit::Movement {
                operand: Box::new(SpecJit::Movement { operand: Box::new(x), op: SpecMovOp::Pad(amounts) }),
                op: SpecMovOp::Shrink(amounts),
            },
        ) == spec_shape(x),
{
    let sh = spec_shape(x).unwrap();
    lemma_shrink_undoes_pad(sh, amounts);
    let inner = SpecJit::Movement { operand: Box::new(x), op: SpecMovOp::Pad(amounts) };
    assert(spec_shape(inner) == moved_shape(sh, SpecMovOp::Pad(amounts)));
    let p = padded(sh, amounts).unwrap();
    let outer = SpecJit::Movement { operand: Box::new(inner), op: SpecMovOp::Shrink(amounts) };
    assert(spec_shape(outer) == moved_shape(p, SpecMovOp::Shrink(amounts)));
}

/// The shape of a tensor expression: a leaf has the shape of its type, an
/// operation that of its (first) operand, a movement transforms its
/// operand's shape, a reduction along an axis removes that axis and a full
/// reduction gives a scalar. `None` where a movement does not apply.
pub open spec fn spec_shape(a: SpecJit) -> Option<Seq<usize>>
    decreases a,
{
    match a {
        SpecJit::Var { dtype, .. } => Some(dt_shape(dtype)),
        SpecJit::Cast { dt, .. } => Some(dt_shape(dt)),
        SpecJit::Lowered { dt, .. } => Some(dt_shape(dt)),
        SpecJit::Const { dt, .. } => Some(dt_shape(dt)),
        SpecJit::BinOp { lhs, .. } => spec_shape(*lhs),
        SpecJit::UnaryOp { operand, .. } => spec_shape(*operand),
        SpecJit::Ternary { a, .. } => spec_shape(*a),
        SpecJit::Movement { operand, op } => match spec_shape(*operand) {
            Some(s) => moved_shape(s, op),
            None => None,
        },
        SpecJit::Reduce { operand, axis, .. } => match spec_shape(*operand) {
            Some(s) => Some(
                if axis < s.len() {
                    s.remove(axis as int)
                } else {
                    s
                },
            ),
            None => None,
        },
        SpecJit::AllReduce { .. } => Some(Seq::empty()),
    }
}

/// Sum of `before + after` over `amounts`; `None` when it overflows.
pub open spec fn pad_total(amounts: Seq<(usize, usize)>) -> Option<nat>
    decreases amounts.len(),
{
    if amounts.len() == 0 {
        Some(0)
    } else {
        match pad_total(amounts.drop_last()) {
            Some(t) => {
                let (lo, hi) = amounts.last();
                if lo + hi > usize::MAX || t + lo + hi > usize::MAX {
                    None
                } else {
                    Some((t + lo + hi) as nat)
                }
            },
            None => None,
        }
    }
}

/// The element type of a tensor expression. A variable has the element
/// type of its buffer, a leaf its declared type, an operation the type of
/// its (first) operand. Padding a sized array adds, and shrinking removes,
/// the total amount (taken modulo 2^32) from its length. A reduction yields
/// the scalar type. `None` where a length overflows or underflows.
pub open spec fn spec_jit_dt(a: SpecJit) -> Option<DType>
    decreases a,
{
    match a {
        SpecJit::Var { dtype, .. } => Some(dtype.spec_peel_array()),
        SpecJit::Lowered { dt, .. } => Some(dt),
        SpecJit::Const { dt, .. } => Some(dt),
        SpecJit::BinOp { lhs, .. } => spec_jit_dt(*lhs),
        SpecJit::UnaryOp { operand, .. } => spec_jit_dt(*operand),
        SpecJit::Cast { dt, .. } => Some(dt),
        SpecJit::Ternary { a, .. } => spec_jit_dt(*a),
        SpecJit::Movement { operand, op } => match op {
            SpecMovOp::Pad(amounts) => match spec_jit_dt(*operand) {
                Some(DType::Vector(VecTy::Array(inner, Some(n)))) => match pad_total(amounts) {
                    Some(t) => {
                        let tp = t % 0x1_0000_0000;
                        if n + tp > u32::MAX {
                            None
                        } else {
                            Some(DType::Vector(VecTy::Array(inner, Some((n + tp) as u32))))
                        }
                    },
                    None => None,
                },
                other => other,
            },
            SpecMovOp::Shrink(amounts) => match spec_jit_dt(*operand) {
                Some(DType::Vector(VecTy::Array(inner, Some(n)))) => match pad_total(amounts) {
                    Some(t) => {
                        let tr = t % 0x1_0000_0000;
                        if n < tr {
                            None
                        } else {
                            Some(DType::Vector(VecTy::Array(inner, Some((n - tr) as u32))))
                        }
                    },
                    None => None,
                },
                other => other,
            },
            _ => spec_jit_dt(*operand),
        },
        SpecJit::Reduce { operand, .. } => match spec_jit_dt(*operand) {
            Some(d) => Some(d.spec_peel_all()),
            None => None,
        },
        SpecJit::AllReduce { operand, .. } => match spec_jit_dt(*operand) {
            Some(d) => Some(d.spec_peel_all()),
            None => None,
        },
    }
}

/// The innermost operand below a chain of movements.
pub open spec fn chain_base(a: SpecJit) -> SpecJit
    decreases a,
{
    match a {
        SpecJit::Movement { operand, .. } => chain_base(*operand),
        other => other,
    }
}

/// The movements of a chain, outermost first.
pub open spec fn chain_ops(a: SpecJit) -> Seq<SpecMovOp>
    decreases a,
{
    match a {
        SpecJit::Movement { operand, op } => seq![op] + chain_ops(*operand),
        _ => Seq::empty(),
    }
}

/// The bytes of the identity of reduction `op` over scalars of type `dt`:
/// zero for a sum (and for the maximum of unsigned integers), one for a
/// product, and the least value for a maximum (`f32::MIN`, `i32::MIN`).
/// `None` for a type that is not a 32-bit number.
pub open spec fn identity_bytes(dt: DType, op: ReduceOp) -> Option<Seq<u8>> {
    match (dt, op) {
        (DType::Basic(BasicTy::F32), ReduceOp::Sum) => Some(seq![0u8, 0u8, 0u8, 0u8]),
        (DType::Basic(BasicTy::F32), ReduceOp::Prod) => Some(seq![0u8, 0u8, 0x80u8, 0x3fu8]),
        (DType::Basic(BasicTy::F32), ReduceOp::Max) => Some(seq![0xffu8, 0xffu8, 0x7fu8, 0xffu8]),
        (DType::Basic(BasicTy::Integer(IntegerTy::U32)), ReduceOp::Sum) => Some(
            seq![0u8, 0u8, 0u8, 0u8],
        ),
        (DType::Basic(BasicTy::Integer(IntegerTy::U32)), ReduceOp::Prod) => Some(
            seq![1u8, 0u8, 0u8, 0u8],
        ),
        (DType::Basic(BasicTy::Integer(IntegerTy::U32)), ReduceOp::Max) => Some(
            seq![0u8, 0u8, 0u8, 0u8],
        ),
        (DType::Basic(BasicTy::Integer(IntegerTy::I32)), ReduceOp::Sum) => Some(
            seq![0u8, 0u8, 0u8, 0u8],
        ),
        (DType::Basic(BasicTy::Integer(IntegerTy::I32)), ReduceOp::Prod) => Some(
            seq![1u8, 0u8, 0u8, 0u8],
        ),
        (DType::Basic(BasicTy::Integer(IntegerTy::I32)), ReduceOp::Max) => Some(
            seq![0u8, 0u8, 0u8, 0x80u8],
        ),
        _ => None,
    }
}

/// The number four little-endian bytes spell.
pub open spec fn le_value(b: Seq<u8>) -> int {
    b[0] + 256 * b[1] + 65536 * b[2] + 16777216 * b[3]
}

/// The value of the 32-bit pattern `v` read as a two's-complement integer.
pub open spec fn signed_value(v: int) -> int {
    if v >= 0x8000_0000 {
        v - 0x1_0000_0000
    } else {
        v
    }
}

/// `x` combined with `v` by the reduction `op`, over the integers.
pub open spec fn reduce_int(op: ReduceOp, x: int, v: int) -> int {
    match op {
        ReduceOp::Sum => x + v,
        ReduceOp::Prod => x * v,
        ReduceOp::Max => if x >= v {
            x
        } else {
            v
        },
    }
}

/// `v` leaves every integer in `lo..=hi` unchanged under `op`.
pub open spec fn neutral_for(op: ReduceOp, v: int, lo: int, hi: int) -> bool {
    forall|x: int| lo <= x <= hi ==> #[trigger] reduce_int(op, x, v) == x
}

/// For 32-bit integers, the identity bytes of each reduction are four bytes
/// that decode to a neutral element of it: adding the identity of a sum,
/// multiplying by that of a product, or taking the maximum with that of a
/// maximum leaves every value of the type unchanged.
pub proof fn lemma_integer_identities(it: IntegerTy, op: ReduceOp)
    ensures
        ({
            let dt = DType::Basic(BasicTy::Integer(it));
            &&& identity_bytes(dt, op) is Some
            &&& identity_bytes(dt, op).unwrap().len() == 4
            &&& match it {
                IntegerTy::U32 => neutral_for(op, le_value(identity_bytes(dt, op).unwrap()), 0, 0xffff_ffff),
                IntegerTy::I32 => neutral_for(
                    op,
                    signed_value(le_value(identity_bytes(dt, op).unwrap())),
                    -0x8000_0000,
                    0x7fff_ffff,
                ),
            }
        }),
{
    let dt = DType::Basic(BasicTy::Integer(it));
    let b = identity_bytes(dt, op).unwrap();
    match op {
        ReduceOp::Prod => {
            assert(le_value(b) == 1);
            assert(signed_value(1) == 1);
            assert forall|x: int| #[trigger] reduce_int(op, x, 1) == x by {
                assert(x * 1 == x);
            }
        },
        ReduceOp::Sum => {
            assert(le_value(b) == 0);
        },
        ReduceOp::Max => {
            match it {
                IntegerTy::U32 => assert(le_value(b) == 0),
                IntegerTy::I32 => assert(signed_value(le_value(b)) == -0x8000_0000),
            }
        },
    }
}

fn bytes4(b0: u8, b1: u8, b2: u8, b3: u8) -> (r: Vec<u8>)
    ensures
        r@ == seq![b0, b1, b2, b3],
{
    let mut v: Vec<u8> = Vec::new();
    v.push(b0);
    v.push(b1);
    v.push(b2);
    v.push(b3);
    proof {
        assert(v@ =~= seq![b0, b1, b2, b3]);
    }
    v
}

/// The little-endian bytes of the identity of `op` over scalars of type
/// `dt`; `None` for a type without one.
pub fn try_identity_bytes(dt: &DType, op: &ReduceOp) -> (r: Option<Vec<u8>>)
    ensures
        identity_bytes(*dt, *op) == match r {
            Some(v) => Some(v@),
            None => None,
        },
{
    match dt {
        DType::Basic(BasicTy::F32) | DType::Basic(BasicTy::Integer(_)) => Some(
            scalar_identity_bytes(dt, op.clone()),
        ),
        _ => None,
    }
}

/// The little-endian bytes of the identity of `op` over scalars of type `dt`.
pub fn scalar_identity_bytes(dt: &DType, op: ReduceOp) -> (r: Vec<u8>)
    requires
        identity_bytes(*dt, op) is Some,
    ensures
        identity_bytes(*dt, op) == Some(r@),
        r@.len() == 4,
        *dt == DType::Basic(BasicTy::Integer(IntegerTy::U32)) ==> neutral_for(op, le_value(r@), 0, 0xffff_ffff),
        *dt == DType::Basic(BasicTy::Integer(IntegerTy::I32)) ==> neutral_for(
            op,
            signed_value(le_value(r@)),
            -0x8000_0000,
            0x7fff_ffff,
        ),
{
    proof {
        lemma_integer_identities(IntegerTy::U32, op);
        lemma_integer_identities(IntegerTy::I32, op);
    }
    match (dt, op) {
        (DType::Basic(BasicTy::F32), ReduceOp::Prod) => bytes4(0, 0, 0x80, 0x3f),
        (DType::Basic(BasicTy::F32), ReduceOp::Max) => bytes4(0xff, 0xff, 0x7f, 0xff),
        (DType::Basic(BasicTy::Integer(IntegerTy::U32)), ReduceOp::Prod) => bytes4(1, 0, 0, 0),
        (DType::Basic(BasicTy::Integer(IntegerTy::I32)), ReduceOp::Prod) => bytes4(1, 0, 0, 0),
        (DType::Basic(BasicTy::Integer(IntegerTy::I32)), ReduceOp::Max) => bytes4(0, 0, 0, 0x80),
        _ => bytes4(0, 0, 0, 0),
    }
}

fn dt_shape_exec(dt: &DType) -> (r: Vec<usize>)
    ensures
        r@ == dt_shape(*dt),
{
    let mut v: Vec<usize> = Vec::new();
    match dt {
        DType::Vector(VecTy::Vec2(_)) => v.push(2),
        DType::Vector(VecTy::Vec3(_)) => v.push(3),
        DType::Vector(VecTy::Vec4(_)) => v.push(4),
        DType::Vector(VecTy::Array(_, Some(n))) => v.push(*n as usize),
        _ => {},
    }
    proof {
        assert(v@ =~= dt_shape(*dt));
    }
    v
}

fn moved_shape_exec(s: Vec<usize>, op: &MovOp) -> (r: Option<Vec<usize>>)
    ensures
        moved_shape(s@, op@) == match r {
            Some(v) => Some(v@),
            None => None,
        },
{
    match op {
        MovOp::Reshape(to) => Some(clone_usizes(to)),
        MovOp::Expand(to) => Some(clone_usizes(to)),
        MovOp::Permute(axes) => {
            let mut out: Vec<usize> = Vec::new();
            let n = axes.len();
            let mut j: usize = 0;
            while j < n
                invariant
                    n == axes@.len(),
                    op@ == SpecMovOp::Permute(axes@),
                    j <= n,
                    forall|k: int| 0 <= k < j ==> axes@[k] < s@.len(),
                    out@.len() == j,
                    forall|k: int| 0 <= k < j ==> out@[k] == s@[axes@[k] as int],
                decreases n - j,
            {
                if axes[j] >= s.len() {
                    proof {
                        assert(!(axes@[j as int] < s@.len()));
                    }
                    return None;
                }
                out.push(s[axes[j]]);
                j = j + 1;
            }
            proof {
                assert(out@ =~= Seq::new(axes@.len(), |k: int| s@[axes@[k] as int]));
            }
            Some(out)
        },
        MovOp::Pad(amounts) => {
            let n = if s.len() <= amounts.len() {
                s.len()
            } else {
                amounts.len()
            };
            let mut out: Vec<usize> = Vec::new();
            let mut j: usize = 0;
            while j < n
                invariant
                    n == min_len(s@.len(), amounts@.len()),
                    op@ == SpecMovOp::Pad(amounts@),
                    j <= n,
                    forall|k: int| 0 <= k < j ==> s@[k] + amounts@[k].0 + amounts@[k].1 <= usize::MAX,
                    out@.len() == j,
                    forall|k: int|
                        0 <= k < j ==> out@[k] == s@[k] + amounts@[k].0 + amounts@[k].1,
                decreases n - j,
            {
                let a = match s[j].checked_add(amounts[j].0) {
                    Some(a) => a,
                    None => {
                        proof {
                            assert(!(s@[j as int] + amounts@[j as int].0 + amounts@[j as int].1
                                <= usize::MAX));
                        }
                        return None;
                    },
                };
                let b = match a.checked_add(amounts[j].1) {
                    Some(b) => b,
                    None => {
                        proof {
                            assert(!(s@[j as int] + amounts@[j as int].0 + amounts@[j as int].1
                                <= usize::MAX));
                        }
                        return None;
                    },
                };
                out.push(b);
                j = j + 1;
            }
            proof {
                assert(out@ =~= Seq::new(
                    n as nat,
                    |k: int| (s@[k] + amounts@[k].0 + amounts@[k].1) as usize,
                ));
            }
            Some(out)
        },
        MovOp::Shrink(amounts) => {
            let n = if s.len() <= amounts.len() {
                s.len()
            } else {
                amounts.len()
            };
            let mut out: Vec<usize> = Vec::new();
            let mut j: usize = 0;
            while j < n
                invariant
                    n == min_len(s@.len(), amounts@.len()),
                    op@ == SpecMovOp::Shrink(amounts@),
                    j <= n,
                    forall|k: int| 0 <= k < j ==> amounts@[k].0 + amounts@[k].1 <= s@[k],
                    out@.len() == j,
                    forall|k: int|
                        0 <= k < j ==> out@[k] == s@[k] - amounts@[k].0 - amounts@[k].1,
                decreases n - j,
            {
                if amounts[j].0 > s[j] || amounts[j].1 > s[j] - amounts[j].0 {
                    proof {
                        assert(!(amounts@[j as int].0 + amounts@[j as int].1 <= s@[j as int]));
                    }
                    return None;
                }
                out.push(s[j] - amounts[j].0 - amounts[j].1);
                j = j + 1;
            }
            proof {
                assert(out@ =~= Seq::new(
                    n as nat,
                    |k: int| (s@[k] - amounts@[k].0 - amounts@[k].1) as usize,
                ));
            }
            Some(out)
        },
        MovOp::Flip(_) => Some(s),
    }
}

fn pad_total_exec(amounts: &Vec<(usize, usize)>) -> (r: Option<usize>)
    ensures
        pad_total(amounts@) == match r {
            Some(t) => Some(t as nat),
            None => None,
        },
{
    let mut t: usize = 0;
    let n = amounts.len();
    let mut j: usize = 0;
    while j < n
        invariant
            n == amounts@.len(),
            j <= n,
            pad_total(amounts@.take(j as int)) == Some(t as nat),
        decreases n - j,
    {
        proof {
            assert(amounts@.take((j + 1) as int).drop_last() =~= amounts@.take(j as int));
        }
        let s = match amounts[j].0.checked_add(amounts[j].1) {
            Some(s) => s,
            None => {
                proof {
                    lemma_pad_total_none(amounts@, (j + 1) as nat);
                }
                return None;
            },
        };
        t = match t.checked_add(s) {
            Some(t2) => t2,
            None => {
                proof {
                    lemma_pad_total_none(amounts@, (j + 1) as nat);
                }
                return None;
            },
        };
        j = j + 1;
    }
    proof {
        assert(amounts@.take(n as int) =~= amounts@);
    }
    Some(t)
}

proof fn lemma_pad_total_none(amounts: Seq<(usize, usize)>, k: nat)
    requires
        1 <= k <= amounts.len(),
        pad_total(amounts.take(k as int)) is None,
    ensures
        pad_total(amounts) is None,
    decreases amounts.len() - k,
{
    if k == amounts.len() {
        assert(amounts.take(k as int) =~= amounts);
    } else {
        assert(amounts.take((k + 1) as int).drop_last() =~= amounts.take(k as int));
        lemma_pad_total_none(amounts, k + 1);
    }
}

/// The views of an optional shape.
pub open spec fn opt_shape_view(r: Option<Vec<usize>>) -> Option<Seq<usize>> {
    match r {
        Some(v) => Some(v@),
        None => None,
    }
}

impl JitAST {
    /// The shape of this expression; `None` where a movement does not apply.
    pub fn try_shape(&self) -> (r: Option<Vec<usize>>)
        ensures
            spec_shape(self@) == opt_shape_view(r),
        decreases self,
    {
        match self {
            JitAST::Var { dtype, .. } => Some(dt_shape_exec(dtype)),
            JitAST::Cast { dt, .. } => Some(dt_shape_exec(dt)),
            JitAST::Lowered { dt, .. } => Some(dt_shape_exec(dt)),
            JitAST::Const(c) => Some(dt_shape_exec(&c.dt)),
            JitAST::BinOp { lhs, .. } => lhs.try_shape(),
            JitAST::UnaryOp { operand, .. } => operand.try_shape(),
            JitAST::Ternary { a, .. } => a.try_shape(),
            JitAST::Movement { operand, op } => match operand.try_shape() {
                Some(s) => moved_shape_exec(s, op),
                None => None,
            },
            JitAST::Reduce { operand, axis, .. } => match operand.try_shape() {
                Some(s) => {
                    let mut s = s;
                    if *axis < s.len() {
                        s.remove(*axis);
                    }
                    Some(s)
                },
                None => None,
            },
            JitAST::AllReduce { .. } => Some(Vec::new()),
        }
    }

    /// The shape of this expression.
    pub fn shape(&self) -> (r: Vec<usize>)
        requires
            spec_shape(self@) is Some,
        ensures
            spec_shape(self@) == Some(r@),
    {
        self.try_shape().unwrap()
    }

    /// The element type of this expression; `None` where a padded or shrunk
    /// length overflows or underflows.
    pub fn try_dt(&self) -> (r: Option<DType>)
        ensures
            spec_jit_dt(self@) == r,
        decreases self,
    {
        match self {
            JitAST::Var { dtype, .. } => Some(dtype.peel_array()),
            JitAST::Lowered { dt, .. } => Some(dt.clone()),
            JitAST::Const(c) => Some(c.dt.clone()),
            JitAST::BinOp { lhs, .. } => lhs.try_dt(),
            JitAST::UnaryOp { operand, .. } => operand.try_dt(),
            JitAST::Cast { dt, .. } => Some(dt.clone()),
            JitAST::Ternary { a, .. } => a.try_dt(),
            JitAST::Movement { operand, op } => match op {
                MovOp::Pad(amounts) => match operand.try_dt() {
                    Some(DType::Vector(VecTy::Array(inner_ty, Some(n)))) => match pad_total_exec(amounts) {
                        Some(t) => {
                            let tp = #[verifier::truncate] (t as u32);
                            proof {
                                assert((tp as u64) == (t as u64) % 0x1_0000_0000u64) by (bit_vector)
                                    requires
                                        tp == t as u32,
                                ;
                            }
                            match n.checked_add(tp) {
                                Some(m) => Some(DType::Vector(VecTy::Array(inner_ty, Some(m)))),
                                None => None,
                            }
                        },
                        None => None,
                    },
                    other => other,
                },
                MovOp::Shrink(amounts) => match operand.try_dt() {
                    Some(DType::Vector(VecTy::Array(inner_ty, Some(n)))) => match pad_total_exec(amounts) {
                        Some(t) => {
                            let tr = #[verifier::truncate] (t as u32);
                            proof {
                                assert((tr as u64) == (t as u64) % 0x1_0000_0000u64) by (bit_vector)
                                    requires
                                        tr == t as u32,
                                ;
                            }
                            if n < tr {
                                None
                            } else {
                                Some(DType::Vector(VecTy::Array(inner_ty, Some(n - tr))))
                            }
                        },
                        None => None,
                    },
                    other => other,
                },
                _ => operand.try_dt(),
            },
            JitAST::Reduce { operand, .. } => match operand.try_dt() {
                Some(d) => Some(d.peel_all()),
                None => None,
            },
            JitAST::AllReduce { operand, .. } => match operand.try_dt() {
                Some(d) => Some(d.peel_all()),
                None => None,
            },
        }
    }

    /// The element type of this expression.
    pub fn dt(&self) -> (r: DType)
        requires
            spec_jit_dt(self@) is Some,
        ensures
            spec_jit_dt(self@) == Some(r),
    {
        self.try_dt().unwrap()
    }

    /// The innermost operand below the chain of movements at the top of
    /// this expression, and those movements, outermost first.
    pub fn inner_movement_chain(&self) -> (r: (&JitAST, Vec<&MovOp>))
        ensures
            r.0@ == chain_base(self@),
            r.1@.map_values(|m: &MovOp| m@) == chain_ops(self@),
            !(r.0 is Movement),
    {
        let mut ops: Vec<&MovOp> = Vec::new();
        let mut current = self;
        let ghost orig = self@;
        while current.is_movement()
            invariant
                chain_base(current@) == chain_base(orig),
                ops@.map_values(|m: &MovOp| m@) + chain_ops(current@) == chain_ops(orig),
            decreases current,
        {
            match current {
                JitAST::Movement { operand, op } => {
                    let ghost prev = ops@;
                    ops.push(op);
                    proof {
                        assert(ops@.map_values(|m: &MovOp| m@) =~= prev.map_values(|m: &MovOp| m@).push(
                            op@,
                        ));
                        assert(chain_ops(current@) == seq![op@] + chain_ops(operand@));
                        assert(ops@.map_values(|m: &MovOp| m@) + chain_ops(operand@) =~= prev.map_values(
                            |m: &MovOp| m@,
                        ) + chain_ops(current@));
                    }
                    current = operand;
                },
                _ => {},
            }
        }
        proof {
            assert(chain_ops(current@) =~= Seq::empty());
            assert(ops@.map_values(|m: &MovOp| m@) + chain_ops(current@) =~= ops@.map_values(
                |m: &MovOp| m@,
            ));
        }
        (current, ops)
    }

    /// Whether this is a movement.
    pub fn is_movement(&self) -> (r: bool)
        ensures
            r == (*self is Movement),
    {
        match self {
            JitAST::Movement { .. } => true,
            _ => false,
        }
    }
}

} // verus!
