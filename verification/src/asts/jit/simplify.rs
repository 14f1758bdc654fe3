//! Constant folding and algebraic simplification of binary operations.
//!
//! Integer constants are folded here. `f32` constants are folded by a
//! function handed in by the caller, which computes an operation on the bits
//! of two `f32` values: the library does not hold floating-point values.
use vstd::prelude::*;

use super::pattern::Captures;
use super::shape::{le_value, signed_value};
use super::{JitAST, JitASTOrConst, JitBinOp, SpecJit, SpecJitPart, clone_jit, const_jit};
use crate::asts::lowered::{BinOp, le_bytes};
use crate::dt::{BasicTy, DType, IntegerTy};

verus! {

/// What `fold` computes for `(a, b, op)`.
pub open spec fn folder<F: Fn(u32, u32, BinOp) -> u32>(fold: F) -> spec_fn(u32, u32, BinOp) -> u32 {
    |a: u32, b: u32, op: BinOp| choose|r: u32| call_ensures(fold, (a, b, op), r)
}

/// `fold` accepts every input and gives one result for each.
pub open spec fn fold_ok<F: Fn(u32, u32, BinOp) -> u32>(fold: F) -> bool {
    &&& forall|a: u32, b: u32, op: BinOp| fold.requires((a, b, op))
    &&& forall|a: u32, b: u32, op: BinOp, r1: u32, r2: u32|
        call_ensures(fold, (a, b, op), r1) && call_ensures(fold, (a, b, op), r2) ==> r1 == r2
}

proof fn lemma_fold_result<F: Fn(u32, u32, BinOp) -> u32>(fold: F, a: u32, b: u32, op: BinOp, r: u32)
    requires
        fold_ok(fold),
        call_ensures(fold, (a, b, op), r),
    ensures
        r == (folder(fold))(a, b, op),
{
    let c = choose|x: u32| call_ensures(fold, (a, b, op), x);
    assert(call_ensures(fold, (a, b, op), c));
}

/// Calls `fold` on `(a, b, op)`.
pub fn fold_bits<F: Fn(u32, u32, BinOp) -> u32>(fold: &F, a: u32, b: u32, op: &BinOp) -> (r: u32)
    requires
        fold_ok(*fold),
    ensures
        r == (folder(*fold))(a, b, *op),
{
    let o = op.clone();
    let r = fold(a, b, o);
    proof {
        lemma_fold_result(*fold, a, b, *op, r);
    }
    r
}

/// A scalar constant read from the first component of a constant: `f32`
/// values by their bits.
#[derive(Debug, PartialEq, Eq, Structural)]
pub enum Extracted {
    F32(u32),
    I32(i32),
    U32(u32),
    Bool(bool),
}

/// The little-endian `u32` in the first four bytes of `b`.
pub open spec fn u32_of_le(b: Seq<u8>) -> u32 {
    (b[0] as nat + 256 * (b[1] as nat) + 65536 * (b[2] as nat) + 16777216 * (b[3] as nat)) as u32
}

/// Whether reading a scalar from `a` fails: its first component holds
/// fewer than four bytes while its type is a 32-bit number.
pub open spec fn extract_fails(a: SpecJit) -> bool {
    match a {
        SpecJit::Const { dt, data } => data.len() > 0 && match data[0] {
            SpecJitPart::Const(b) => b.len() < 4 && (dt == DType::Basic(BasicTy::F32) || dt
                is Basic && dt->Basic_0 is Integer),
            _ => false,
        },
        _ => false,
    }
}

/// The scalar constant held by `a`, if `a` is a constant of a scalar type
/// whose first component is raw bytes. A boolean is its first byte (or
/// `false` without one) being non-zero.
pub open spec fn extract(a: SpecJit) -> Option<Extracted> {
    match a {
        SpecJit::Const { dt, data } => if data.len() == 0 {
            None
        } else {
            match data[0] {
                SpecJitPart::Const(b) => match dt {
                    DType::Basic(BasicTy::F32) => Some(Extracted::F32(u32_of_le(b))),
                    DType::Basic(BasicTy::Integer(IntegerTy::I32)) => Some(
                        Extracted::I32(#[verifier::truncate] (u32_of_le(b) as i32)),
                    ),
                    DType::Basic(BasicTy::Integer(IntegerTy::U32)) => Some(Extracted::U32(u32_of_le(b))),
                    DType::Basic(BasicTy::Bool) => Some(Extracted::Bool(b.len() > 0 && b[0] != 0)),
                    _ => None,
                },
                _ => None,
            }
        },
        _ => None,
    }
}

/// Whether the extracted value is zero (`0.0` or `-0.0` for `f32`, `false`
/// for booleans).
pub open spec fn is_zero(e: Extracted) -> bool {
    match e {
        Extracted::F32(bits) => bits == 0 || bits == 0x8000_0000,
        Extracted::I32(x) => x == 0,
        Extracted::U32(x) => x == 0,
        Extracted::Bool(x) => !x,
    }
}

/// Whether the extracted value is one (`1.0` for `f32`, `true` for booleans).
pub open spec fn is_one(e: Extracted) -> bool {
    match e {
        Extracted::F32(bits) => bits == 0x3f80_0000,
        Extracted::I32(x) => x == 1,
        Extracted::U32(x) => x == 1,
        Extracted::Bool(x) => x,
    }
}

/// Whether `op` is one of the four operations folded on constants.
pub open spec fn is_arith(op: BinOp) -> bool {
    op == BinOp::Add || op == BinOp::Mul || op == BinOp::Sub || op == BinOp::Div
}

/// `a / b` rounded toward zero.
pub open spec fn trunc_div(a: int, b: int) -> int {
    if (a >= 0) == (b > 0) {
        if a >= 0 {
            a / b
        } else {
            (-a) / (-b)
        }
    } else if a < 0 {
        -((-a) / b)
    } else {
        -(a / (-b))
    }
}

/// `a op b` over `i32`; `None` where the operation overflows or divides by zero.
pub open spec fn i32_arith(a: i32, b: i32, op: BinOp) -> Option<i32> {
    let r: int = if op == BinOp::Add {
        a + b
    } else if op == BinOp::Sub {
        a - b
    } else if op == BinOp::Mul {
        a * b
    } else if b == 0 {
        0
    } else {
        trunc_div(a as int, b as int)
    };
    if op == BinOp::Div && b == 0 {
        None
    } else if i32::MIN <= r <= i32::MAX {
        Some(r as i32)
    } else {
        None
    }
}

/// `a op b` over `u32`; `None` where the operation overflows, underflows or
/// divides by zero.
pub open spec fn u32_arith(a: u32, b: u32, op: BinOp) -> Option<u32> {
    let r: int = if op == BinOp::Add {
        a + b
    } else if op == BinOp::Sub {
        a - b
    } else if op == BinOp::Mul {
        a * b
    } else if b == 0 {
        -1
    } else {
        (a / b) as int
    };
    if 0 <= r <= u32::MAX {
        Some(r as u32)
    } else {
        None
    }
}

/// The zero constant of the scalar type of `a`.
pub open spec fn zero_like(a: SpecJit) -> Option<SpecJit> {
    match a {
        SpecJit::Const { dt, .. } => match dt {
            DType::Basic(BasicTy::F32) => Some(const_jit(dt, le_bytes(0))),
            DType::Basic(BasicTy::Integer(_)) => Some(const_jit(dt, le_bytes(0))),
            DType::Basic(BasicTy::Bool) => Some(const_jit(dt, seq![0u8])),
            _ => None,
        },
        _ => None,
    }
}

/// The identities `0 * x = x * 0 = 0`, `x + 0 = 0 + x = x - 0 = x`,
/// `x * 1 = 1 * x = x / 1 = x`, tried in that order; `matched` where none
/// applies.
pub open spec fn identities(
    lv: Option<Extracted>,
    rv: Option<Extracted>,
    op: BinOp,
    lhs: SpecJit,
    rhs: SpecJit,
    matched: SpecJit,
) -> Option<SpecJit> {
    let lz = lv matches Some(l) && is_zero(l);
    let rz = rv matches Some(r) && is_zero(r);
    let lo = lv matches Some(l) && is_one(l);
    let ro = rv matches Some(r) && is_one(r);
    if op == BinOp::Mul && lz {
        zero_like(lhs)
    } else if op == BinOp::Mul && rz {
        zero_like(rhs)
    } else if op == BinOp::Add && rz {
        Some(lhs)
    } else if op == BinOp::Add && lz {
        Some(rhs)
    } else if op == BinOp::Sub && rz {
        Some(lhs)
    } else if op == BinOp::Mul && ro {
        Some(lhs)
    } else if op == BinOp::Mul && lo {
        Some(rhs)
    } else if op == BinOp::Div && ro {
        Some(lhs)
    } else {
        Some(matched)
    }
}

proof fn lemma_le_roundtrip(v: u32)
    ensures
        le_value(le_bytes(v)) == v,
        u32_of_le(le_bytes(v)) == v,
{
    let n = v as int;
    assert(n % 256 + 256 * ((n / 256) % 256) + 65536 * ((n / 65536) % 256) + 16777216 * (n / 16777216) == n)
        by (nonlinear_arith)
        requires
            0 <= n < 0x1_0000_0000,
    ;
    let b = le_bytes(v);
    assert(b[0] as int == n % 256);
    assert(b[1] as int == (n / 256) % 256);
    assert(b[2] as int == (n / 65536) % 256);
    assert(b[3] as int == n / 16777216);
}

proof fn lemma_i32_bits(v: i32)
    ensures
        (#[verifier::truncate] ((#[verifier::truncate] (v as u32)) as i32)) == v,
        signed_value((#[verifier::truncate] (v as u32)) as int) == v,
{
    let u: u32 = #[verifier::truncate] (v as u32);
    assert((#[verifier::truncate] (u as i32)) == v) by (bit_vector)
        requires
            u == #[verifier::truncate] (v as u32),
    ;
    assert(v < 0 ==> u as i64 == v as i64 + 0x1_0000_0000i64) by (bit_vector)
        requires
            u == #[verifier::truncate] (v as u32),
    ;
    assert(v >= 0 ==> u as i64 == v as i64) by (bit_vector)
        requires
            u == #[verifier::truncate] (v as u32),
    ;
}

/// Truncating division: the remainder `a - q * b` is smaller than `b` in
/// size and has the sign of `a` (or is zero).
proof fn lemma_trunc_div_meaning(a: int, b: int)
    requires
        b != 0,
    ensures
        ({
            let r = a - trunc_div(a, b) * b;
            &&& (if r >= 0 { r } else { -r }) < (if b >= 0 { b } else { -b })
            &&& r * a >= 0
        }),
{
    let x: int = if a >= 0 { a } else { -a };
    let y: int = if b >= 0 { b } else { -b };
    vstd::arithmetic::div_mod::lemma_fundamental_div_mod(x, y);
    let q = x / y;
    let m = x % y;
    assert(0 <= m < y);
    assert(x == y * q + m);
    let t = trunc_div(a, b);
    if a >= 0 && b > 0 {
        assert(t == q);
        assert(a - t * b == m) by (nonlinear_arith)
            requires
                x == a,
                y == b,
                x == y * q + m,
                t == q,
        ;
    } else if a < 0 && b < 0 {
        assert(t == q);
        assert(a - t * b == -m) by (nonlinear_arith)
            requires
                x == -a,
                y == -b,
                x == y * q + m,
                t == q,
        ;
    } else if a < 0 {
        assert(t == -q);
        assert(a - t * b == -m) by (nonlinear_arith)
            requires
                x == -a,
                y == b,
                x == y * q + m,
                t == -q,
        ;
    } else {
        assert(t == -q);
        assert(a - t * b == m) by (nonlinear_arith)
            requires
                x == a,
                y == -b,
                x == y * q + m,
                t == -q,
        ;
    }
    let r = a - t * b;
    assert(r * a >= 0) by (nonlinear_arith)
        requires
            (r >= 0 && a >= 0) || (r <= 0 && a <= 0),
    ;
}

/// The `u32` constant `v`, as the tensor language holds it.
pub open spec fn u32_const(v: u32) -> SpecJit {
    const_jit(DType::Basic(BasicTy::Integer(IntegerTy::U32)), le_bytes(v))
}

/// Folding two `u32` constants keeps their value: `a + b`, `a - b` and
/// `a * b` (in that order) fold to a constant holding that very number,
/// wherever it is a `u32`; `a / b` to the quotient `q` with
/// `q * b <= a < (q + 1) * b`.
#[verifier::spinoff_prover]
pub proof fn lemma_fold_u32_value(a: u32, b: u32, op: BinOp, ff: spec_fn(u32, u32, BinOp) -> u32)
    requires
        op == BinOp::Add || op == BinOp::Sub || op == BinOp::Mul || op == BinOp::Div,
        op == BinOp::Div ==> b != 0,
        op == BinOp::Add ==> a + b <= u32::MAX,
        op == BinOp::Sub ==> a >= b,
        op == BinOp::Mul ==> a * b <= u32::MAX,
    ensures
        spec_simplify_pre(
            SpecJit::BinOp {
                lhs: Box::new(u32_const(a)),
                rhs: Box::new(u32_const(b)),
                op: JitBinOp::Basic(op),
            },
            u32_const(a),
            u32_const(b),
            ff,
        ) matches Some(SpecJit::Const { dt, data }) && dt == DType::Basic(BasicTy::Integer(IntegerTy::U32))
            && data.len() == 1 && (data[0] matches SpecJitPart::Const(bytes) && bytes.len() == 4 && {
            let v = le_value(bytes);
            &&& op == BinOp::Add ==> v == a + b
            &&& op == BinOp::Sub ==> v == a - b
            &&& op == BinOp::Mul ==> v == a * b
            &&& op == BinOp::Div ==> v * b <= a < (v + 1) * b
        }),
{
    lemma_le_roundtrip(a);
    lemma_le_roundtrip(b);
    assert(extract(u32_const(a)) == Some(Extracted::U32(a)));
    assert(extract(u32_const(b)) == Some(Extracted::U32(b)));
    if op == BinOp::Div {
        vstd::arithmetic::div_mod::lemma_fundamental_div_mod(a as int, b as int);
        let q = (a / b) as int;
        let m = (a % b) as int;
        assert(q * b <= a < (q + 1) * b) by (nonlinear_arith)
            requires
                a == b * q + m,
                0 <= m < b,
        ;
        assert(0 <= q <= a) by (nonlinear_arith)
            requires
                a == b * q + m,
                0 <= m < b,
                b >= 1,
                a >= 0,
        ;
    }
    let v = u32_arith(a, b, op).unwrap();
    lemma_le_roundtrip(v);
}

/// `x + 0`, `0 + x`, `x - 0`, `x * 1`, `1 * x` and `x / 1` simplify to `x`
/// itself, for an `x` that is not a scalar constant (two constants fold).
#[verifier::spinoff_prover]
pub proof fn lemma_simplify_neutral_operands(x: SpecJit, ff: spec_fn(u32, u32, BinOp) -> u32)
    requires
        extract(x) is None,
        !extract_fails(x),
    ensures
        ({
            let zero = u32_const(0);
            let one = u32_const(1);
            let node = |l: SpecJit, r: SpecJit, op: BinOp|
                SpecJit::BinOp { lhs: Box::new(l), rhs: Box::new(r), op: JitBinOp::Basic(op) };
            &&& spec_simplify_pre(node(x, zero, BinOp::Add), x, zero, ff) == Some(x)
            &&& spec_simplify_pre(node(zero, x, BinOp::Add), zero, x, ff) == Some(x)
            &&& spec_simplify_pre(node(x, zero, BinOp::Sub), x, zero, ff) == Some(x)
            &&& spec_simplify_pre(node(x, one, BinOp::Mul), x, one, ff) == Some(x)
            &&& spec_simplify_pre(node(one, x, BinOp::Mul), one, x, ff) == Some(x)
            &&& spec_simplify_pre(node(x, one, BinOp::Div), x, one, ff) == Some(x)
        }),
{
    lemma_le_roundtrip(0);
    lemma_le_roundtrip(1);
    assert(extract(u32_const(0)) == Some(Extracted::U32(0)));
    assert(extract(u32_const(1)) == Some(Extracted::U32(1)));
    assert(!extract_fails(u32_const(0)));
    assert(!extract_fails(u32_const(1)));
}

/// The `i32` constant `v`, as the tensor language holds it.
pub open spec fn i32_const(v: i32) -> SpecJit {
    const_jit(DType::Basic(BasicTy::Integer(IntegerTy::I32)), le_bytes(#[verifier::truncate] (v as u32)))
}

/// Folding two `i32` constants keeps their value: `a + b`, `a - b` and
/// `a * b` (in that order of the operands) fold to a constant holding that
/// very integer, wherever it is an `i32`; `a / b` folds to the quotient
/// rounded toward zero, whose remainder is smaller than `b` and has the
/// sign of `a`.
#[verifier::spinoff_prover]
pub proof fn lemma_fold_i32_value(a: i32, b: i32, op: BinOp, ff: spec_fn(u32, u32, BinOp) -> u32)
    requires
        op == BinOp::Add || op == BinOp::Sub || op == BinOp::Mul || op == BinOp::Div,
        op == BinOp::Div ==> b != 0 && !(a == i32::MIN && b == -1),
        op == BinOp::Add ==> i32::MIN <= a + b <= i32::MAX,
        op == BinOp::Sub ==> i32::MIN <= a - b <= i32::MAX,
        op == BinOp::Mul ==> i32::MIN <= a * b <= i32::MAX,
    ensures
        spec_simplify_pre(
            SpecJit::BinOp {
                lhs: Box::new(i32_const(a)),
                rhs: Box::new(i32_const(b)),
                op: JitBinOp::Basic(op),
            },
            i32_const(a),
            i32_const(b),
            ff,
        ) matches Some(SpecJit::Const { dt, data }) && dt == DType::Basic(BasicTy::Integer(IntegerTy::I32))
            && data.len() == 1 && (data[0] matches SpecJitPart::Const(bytes) && bytes.len() == 4 && {
            let v = signed_value(le_value(bytes));
            &&& op == BinOp::Add ==> v == a + b
            &&& op == BinOp::Sub ==> v == a - b
            &&& op == BinOp::Mul ==> v == a * b
            &&& op == BinOp::Div ==> {
                let r = a - v * b;
                &&& (if r >= 0 { r } else { -r }) < (if b >= 0 { b as int } else { -b })
                &&& r * a >= 0
            }
        }),
{
    let ua: u32 = #[verifier::truncate] (a as u32);
    let ub: u32 = #[verifier::truncate] (b as u32);
    lemma_le_roundtrip(ua);
    lemma_le_roundtrip(ub);
    lemma_i32_bits(a);
    lemma_i32_bits(b);
    assert(extract(i32_const(a)) == Some(Extracted::I32(a)));
    assert(extract(i32_const(b)) == Some(Extracted::I32(b)));
    if op == BinOp::Div {
        lemma_trunc_div_range(a, b);
        lemma_trunc_div_meaning(a as int, b as int);
    }
    let v = i32_arith(a, b, op).unwrap();
    let uv: u32 = #[verifier::truncate] (v as u32);
    lemma_le_roundtrip(uv);
    lemma_i32_bits(v);
}

/// Simplification of a basic binary operation `matched` whose operands
/// are `lhs` and `rhs`: two constants of one type are folded (`f32` ones by
/// `ff`), then the identities apply. `None` where reading a constant or
/// folding integers fails.
pub open spec fn spec_simplify_pre(
    matched: SpecJit,
    lhs: SpecJit,
    rhs: SpecJit,
    ff: spec_fn(u32, u32, BinOp) -> u32,
) -> Option<SpecJit> {
    match matched {
        SpecJit::BinOp { op: JitBinOp::Basic(op), .. } => if extract_fails(lhs) || extract_fails(rhs) {
            None
        } else {
            let lv = extract(lhs);
            let rv = extract(rhs);
            match (lv, rv) {
                (Some(Extracted::F32(a)), Some(Extracted::F32(b))) if is_arith(op) => Some(
                    const_jit(DType::Basic(BasicTy::F32), le_bytes(ff(a, b, op))),
                ),
                (Some(Extracted::I32(a)), Some(Extracted::I32(b))) if is_arith(op) => match i32_arith(
                    a,
                    b,
                    op,
                ) {
                    Some(v) => Some(
                        const_jit(
                            DType::Basic(BasicTy::Integer(IntegerTy::I32)),
                            le_bytes(#[verifier::truncate] (v as u32)),
                        ),
                    ),
                    None => None,
                },
                (Some(Extracted::U32(a)), Some(Extracted::U32(b))) if is_arith(op) => match u32_arith(
                    a,
                    b,
                    op,
                ) {
                    Some(v) => Some(const_jit(DType::Basic(BasicTy::Integer(IntegerTy::U32)), le_bytes(v))),
                    None => None,
                },
                _ => identities(lv, rv, op, lhs, rhs, matched),
            }
        },
        _ => Some(matched),
    }
}

fn u32_from_le(b: &Vec<u8>) -> (r: u32)
    requires
        b@.len() >= 4,
    ensures
        r == u32_of_le(b@),
{
    b[0] as u32 + (b[1] as u32) * 256 + (b[2] as u32) * 65536 + (b[3] as u32) * 16777216
}

/// Reads the scalar constant held by `node`, if any.
pub fn extract_scalar(node: &JitAST) -> (r: Option<Extracted>)
    requires
        !extract_fails(node@),
    ensures
        r == extract(node@),
{
    match node {
        JitAST::Const(c) => {
            proof {
                super::lemma_jit_parts_view(c.data@);
            }
            if c.data.len() == 0 {
                return None;
            }
            match &c.data[0] {
                JitASTOrConst::Const(b) => match &c.dt {
                    DType::Basic(BasicTy::F32) => Some(Extracted::F32(u32_from_le(b))),
                    DType::Basic(BasicTy::Integer(IntegerTy::I32)) => {
                        let u = u32_from_le(b);
                        Some(Extracted::I32(#[verifier::truncate] (u as i32)))
                    },
                    DType::Basic(BasicTy::Integer(IntegerTy::U32)) => Some(Extracted::U32(u32_from_le(b))),
                    DType::Basic(BasicTy::Bool) => {
                        let v = b.len() > 0 && b[0] != 0;
                        Some(Extracted::Bool(v))
                    },
                    _ => None,
                },
                _ => None,
            }
        },
        _ => None,
    }
}

fn extracted_is_zero(e: &Extracted) -> (r: bool)
    ensures
        r == is_zero(*e),
{
    match e {
        Extracted::F32(bits) => *bits == 0 || *bits == 0x8000_0000,
        Extracted::I32(x) => *x == 0,
        Extracted::U32(x) => *x == 0,
        Extracted::Bool(x) => !*x,
    }
}

fn extracted_is_one(e: &Extracted) -> (r: bool)
    ensures
        r == is_one(*e),
{
    match e {
        Extracted::F32(bits) => *bits == 0x3f80_0000,
        Extracted::I32(x) => *x == 1,
        Extracted::U32(x) => *x == 1,
        Extracted::Bool(x) => *x,
    }
}

fn opt_is_zero(e: &Option<Extracted>) -> (r: bool)
    ensures
        r == (*e matches Some(x) && is_zero(x)),
{
    match e {
        Some(x) => extracted_is_zero(x),
        None => false,
    }
}

fn opt_is_one(e: &Option<Extracted>) -> (r: bool)
    ensures
        r == (*e matches Some(x) && is_one(x)),
{
    match e {
        Some(x) => extracted_is_one(x),
        None => false,
    }
}

fn is_arith_op(op: &BinOp) -> (r: bool)
    ensures
        r == is_arith(*op),
{
    match op {
        BinOp::Add | BinOp::Mul | BinOp::Sub | BinOp::Div => true,
        _ => false,
    }
}

proof fn lemma_div_le(x: int, y: int)
    requires
        x >= 0,
        y >= 1,
    ensures
        0 <= x / y <= x,
        y >= 2 ==> x / y <= x / 2,
{
    assert(0 <= x / y <= x) by (nonlinear_arith)
        requires
            x >= 0,
            y >= 1,
    ;
    assert(y >= 2 ==> x / y <= x / 2) by (nonlinear_arith)
        requires
            x >= 0,
            y >= 1,
    ;
}

proof fn lemma_trunc_div_range(a: i32, b: i32)
    requires
        b != 0,
        !(a == i32::MIN && b == -1),
    ensures
        i32::MIN <= trunc_div(a as int, b as int) <= i32::MAX,
{
    let x: int = if a >= 0 {
        a as int
    } else {
        -(a as int)
    };
    let y: int = if b >= 0 {
        b as int
    } else {
        -(b as int)
    };
    lemma_div_le(x, y);
}

fn i32_div(a: i32, b: i32) -> (r: i32)
    requires
        b != 0,
        i32::MIN <= trunc_div(a as int, b as int) <= i32::MAX,
    ensures
        r == trunc_div(a as int, b as int),
{
    let ua: u64 = if a < 0 {
        (-(a as i64)) as u64
    } else {
        a as u64
    };
    let ub: u64 = if b < 0 {
        (-(b as i64)) as u64
    } else {
        b as u64
    };
    let q: u64 = ua / ub;
    proof {
        assert(q <= ua);
    }
    let neg = (a < 0) != (b < 0);
    let v: i64 = if neg {
        -(q as i64)
    } else {
        q as i64
    };
    v as i32
}

fn extract_fails_exec(a: &JitAST) -> (r: bool)
    ensures
        r == extract_fails(a@),
{
    match a {
        JitAST::Const(c) => {
            proof {
                super::lemma_jit_parts_view(c.data@);
            }
            if c.data.len() == 0 {
                return false;
            }
            match &c.data[0] {
                JitASTOrConst::Const(b) => b.len() < 4 && match &c.dt {
                    DType::Basic(BasicTy::F32) => true,
                    DType::Basic(BasicTy::Integer(_)) => true,
                    _ => false,
                },
                _ => false,
            }
        },
        _ => false,
    }
}

fn i32_arith_checked(a: i32, b: i32, op: &BinOp) -> (r: Option<i32>)
    requires
        is_arith(*op),
    ensures
        r == i32_arith(a, b, *op),
{
    match op {
        BinOp::Add => a.checked_add(b),
        BinOp::Sub => a.checked_sub(b),
        BinOp::Mul => a.checked_mul(b),
        _ => if b == 0 || (a == i32::MIN && b == -1) {
            None
        } else {
            proof {
                lemma_trunc_div_range(a, b);
            }
            Some(i32_div(a, b))
        },
    }
}

fn u32_arith_checked(a: u32, b: u32, op: &BinOp) -> (r: Option<u32>)
    requires
        is_arith(*op),
    ensures
        r == u32_arith(a, b, *op),
{
    match op {
        BinOp::Add => a.checked_add(b),
        BinOp::Sub => a.checked_sub(b),
        BinOp::Mul => a.checked_mul(b),
        _ => if b == 0 {
            None
        } else {
            Some(a / b)
        },
    }
}

fn zero_like_checked(a: &JitAST) -> (r: Option<JitAST>)
    ensures
        match r {
            Some(x) => zero_like(a@) == Some(x@),
            None => zero_like(a@) is None,
        },
{
    match a {
        JitAST::Const(c) => match &c.dt {
            DType::Basic(BasicTy::F32) => Some(JitAST::from_f32_bits(0)),
            DType::Basic(BasicTy::Integer(IntegerTy::I32)) => Some(JitAST::from_i32(0)),
            DType::Basic(BasicTy::Integer(IntegerTy::U32)) => Some(JitAST::from_u32(0)),
            DType::Basic(BasicTy::Bool) => Some(JitAST::from_bool(false)),
            _ => None,
        },
        _ => None,
    }
}

/// Folds and simplifies the basic binary operation `matched`, whose
/// operands were captured as `lhs` and `rhs`. `None` where reading a
/// constant or folding integers fails.
pub fn simplify_binop_pre<F: Fn(u32, u32, BinOp) -> u32>(
    matched: JitAST,
    captured: &Captures,
    fold: &F,
) -> (r: Option<JitAST>)
    requires
        fold_ok(*fold),
        captured@.contains_key("lhs"@),
        captured@.contains_key("rhs"@),
    ensures
        spec_simplify_pre(matched@, captured@["lhs"@], captured@["rhs"@], folder(*fold)) == match r {
            Some(x) => Some(x@),
            None => None,
        },
{
    let lhs = captured.get("lhs").unwrap();
    let rhs = captured.get("rhs").unwrap();
    let op = match &matched {
        JitAST::BinOp { op: JitBinOp::Basic(b), .. } => b.clone(),
        _ => {
            return Some(matched);
        },
    };
    if extract_fails_exec(lhs) || extract_fails_exec(rhs) {
        return None;
    }
    let lv = extract_scalar(lhs);
    let rv = extract_scalar(rhs);
    if is_arith_op(&op) {
        match (&lv, &rv) {
            (Some(Extracted::F32(a)), Some(Extracted::F32(b))) => {
                let bits = fold_bits(fold, *a, *b, &op);
                return Some(JitAST::from_f32_bits(bits));
            },
            (Some(Extracted::I32(a)), Some(Extracted::I32(b))) => {
                return match i32_arith_checked(*a, *b, &op) {
                    Some(v) => Some(JitAST::from_i32(v)),
                    None => None,
                };
            },
            (Some(Extracted::U32(a)), Some(Extracted::U32(b))) => {
                return match u32_arith_checked(*a, *b, &op) {
                    Some(v) => Some(JitAST::from_u32(v)),
                    None => None,
                };
            },
            _ => {},
        }
    }
    let lz = opt_is_zero(&lv);
    let rz = opt_is_zero(&rv);
    let lo = opt_is_one(&lv);
    let ro = opt_is_one(&rv);
    match op {
        BinOp::Mul => if lz {
            zero_like_checked(lhs)
        } else if rz {
            zero_like_checked(rhs)
        } else if ro {
            Some(clone_jit(lhs))
        } else if lo {
            Some(clone_jit(rhs))
        } else {
            Some(matched)
        },
        BinOp::Add => if rz {
            Some(clone_jit(lhs))
        } else if lz {
            Some(clone_jit(rhs))
        } else {
            Some(matched)
        },
        BinOp::Sub => if rz {
            Some(clone_jit(lhs))
        } else {
            Some(matched)
        },
        BinOp::Div => if ro {
            Some(clone_jit(lhs))
        } else {
            Some(matched)
        },
        _ => Some(matched),
    }
}

/// The `f32` constant held by `a`, by its bits.
pub open spec fn f32_of(a: SpecJit) -> Option<u32> {
    match extract(a) {
        Some(Extracted::F32(bits)) => Some(bits),
        _ => None,
    }
}

/// Whether reading an `f32` constant from `a` fails.
pub open spec fn f32_read_fails(a: SpecJit) -> bool {
    extract_fails(a) && a->Const_dt == DType::Basic(BasicTy::F32)
}

/// Simplification of `lhs op rhs` applied while lowering: two `f32`
/// constants are folded by `ff`, then `x * 0`, `0 * x` give `0.0`, and
/// `x + 0`, `0 + x`, `x * 1`, `1 * x`, `x - 0`, `x / 1` give the other
/// operand (only `f32` constants count). `Some(None)` where nothing
/// applies; `None` where reading a constant fails.
pub open spec fn spec_simplify_binop(
    lhs: SpecJit,
    rhs: SpecJit,
    op: JitBinOp,
    ff: spec_fn(u32, u32, BinOp) -> u32,
) -> Option<Option<SpecJit>> {
    match op {
        JitBinOp::Basic(b) => if f32_read_fails(lhs) || f32_read_fails(rhs) {
            None
        } else {
            let lv = f32_of(lhs);
            let rv = f32_of(rhs);
            let lz = lv matches Some(x) && (x == 0 || x == 0x8000_0000);
            let rz = rv matches Some(x) && (x == 0 || x == 0x8000_0000);
            let lo = lv == Some(0x3f80_0000u32);
            let ro = rv == Some(0x3f80_0000u32);
            Some(
                if lv is Some && rv is Some && is_arith(b) {
                    Some(const_jit(DType::Basic(BasicTy::F32), le_bytes(ff(lv.unwrap(), rv.unwrap(), b))))
                } else if b == BinOp::Mul && (rz || lz) {
                    Some(const_jit(DType::Basic(BasicTy::F32), le_bytes(0)))
                } else if b == BinOp::Add && rz {
                    Some(lhs)
                } else if b == BinOp::Add && lz {
                    Some(rhs)
                } else if b == BinOp::Mul && ro {
                    Some(lhs)
                } else if b == BinOp::Mul && lo {
                    Some(rhs)
                } else if b == BinOp::Sub && rz {
                    Some(lhs)
                } else if b == BinOp::Div && ro {
                    Some(lhs)
                } else {
                    None
                },
            )
        },
        _ => Some(None),
    }
}

fn f32_read_fails_exec(a: &JitAST) -> (r: bool)
    ensures
        r == f32_read_fails(a@),
{
    match a {
        JitAST::Const(c) => match &c.dt {
            DType::Basic(BasicTy::F32) => extract_fails_exec(a),
            _ => false,
        },
        _ => false,
    }
}

fn f32_of_exec(a: &JitAST) -> (r: Option<u32>)
    requires
        !f32_read_fails(a@),
    ensures
        r == f32_of(a@),
{
    match a {
        JitAST::Const(c) => match &c.dt {
            DType::Basic(BasicTy::F32) => match extract_scalar(a) {
                Some(Extracted::F32(bits)) => Some(bits),
                _ => None,
            },
            _ => None,
        },
        _ => None,
    }
}

/// Simplifies `lhs op rhs` over `f32` constants: `Some(None)` where
/// nothing applies, `None` where reading a constant fails.
pub fn simplify_binop<F: Fn(u32, u32, BinOp) -> u32>(lhs: JitAST, rhs: JitAST, op: &JitBinOp, fold: &F) -> (r:
    Option<Option<JitAST>>)
    requires
        fold_ok(*fold),
    ensures
        spec_simplify_binop(lhs@, rhs@, *op, folder(*fold)) == match r {
            Some(Some(x)) => Some(Some(x@)),
            Some(None) => Some(None),
            None => None,
        },
{
    let b = match op {
        JitBinOp::Basic(b) => b,
        _ => {
            return Some(None);
        },
    };
    if f32_read_fails_exec(&lhs) || f32_read_fails_exec(&rhs) {
        return None;
    }
    let lv = f32_of_exec(&lhs);
    let rv = f32_of_exec(&rhs);
    let lz = match lv {
        Some(x) => x == 0 || x == 0x8000_0000,
        None => false,
    };
    let rz = match rv {
        Some(x) => x == 0 || x == 0x8000_0000,
        None => false,
    };
    let lo = match lv {
        Some(x) => x == 0x3f80_0000,
        None => false,
    };
    let ro = match rv {
        Some(x) => x == 0x3f80_0000,
        None => false,
    };
    let arith = is_arith_op(b);
    match (lv, rv) {
        (Some(x), Some(y)) => if arith {
            let bits = fold_bits(fold, x, y, b);
            return Some(Some(JitAST::from_f32_bits(bits)));
        },
        _ => {},
    }
    Some(
        match b {
            BinOp::Mul => if rz || lz {
                Some(JitAST::from_f32_bits(0))
            } else if ro {
                Some(lhs)
            } else if lo {
                Some(rhs)
            } else {
                None
            },
            BinOp::Add => if rz {
                Some(lhs)
            } else if lz {
                Some(rhs)
            } else {
                None
            },
            BinOp::Sub => if rz {
                Some(lhs)
            } else {
                None
            },
            BinOp::Div => if ro {
                Some(lhs)
            } else {
                None
            },
            _ => None,
        },
    )
}

/// `a` with its binary operations simplified bottom-up.
pub open spec fn spec_simplify_node(a: SpecJit, ff: spec_fn(u32, u32, BinOp) -> u32) -> Option<SpecJit>
    decreases a,
{
    match a {
        SpecJit::BinOp { lhs, rhs, op } => match (spec_simplify_node(*lhs, ff), spec_simplify_node(*rhs, ff)) {
            (Some(l), Some(r)) => match spec_simplify_binop(l, r, op, ff) {
                Some(Some(x)) => Some(x),
                Some(None) => Some(SpecJit::BinOp { lhs: Box::new(l), rhs: Box::new(r), op }),
                None => None,
            },
            _ => None,
        },
        _ => Some(a),
    }
}

/// Simplifies the binary operations of `ast`, bottom-up; `None` where
/// reading a constant fails.
pub fn simplify_node<F: Fn(u32, u32, BinOp) -> u32>(ast: JitAST, fold: &F) -> (r: Option<JitAST>)
    requires
        fold_ok(*fold),
    ensures
        spec_simplify_node(ast@, folder(*fold)) == match r {
            Some(x) => Some(x@),
            None => None,
        },
    decreases ast,
{
    match ast {
        JitAST::BinOp { lhs, rhs, op } => {
            let l = match simplify_node(*lhs, fold) {
                Some(l) => l,
                None => {
                    return None;
                },
            };
            let r = match simplify_node(*rhs, fold) {
                Some(r) => r,
                None => {
                    return None;
                },
            };
            match simplify_binop(clone_jit(&l), clone_jit(&r), &op, fold) {
                Some(Some(x)) => Some(x),
                Some(None) => Some(JitAST::BinOp { lhs: Box::new(l), rhs: Box::new(r), op }),
                None => None,
            }
        },
        other => Some(other),
    }
}

} // verus!
