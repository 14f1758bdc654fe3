//! Index arithmetic of movement operations: how an output coordinate maps
//! back to a coordinate of the operand.
use vstd::prelude::*;

use super::{MovOp, SpecMovOp, clone_pairs, clone_usizes};
use crate::asts::lowered::scope::call;
use crate::asts::lowered::{
    BinOp, LoweredAST, Scope, SpecAST, bool_ast, clone_ast, f32_bits_ast, i32_ast, le_bytes, spec_bin, u32_ast,
};
use crate::dt::{BasicTy, DType, IntegerTy};

verus! {

/// The views of a list of expressions.
pub open spec fn ast_views(s: Seq<LoweredAST>) -> Seq<SpecAST> {
    s.map_values(|a: LoweredAST| a@)
}

/// Product of `s`, multiplied from the left; `None` when a partial product
/// overflows a `usize`.
pub open spec fn checked_product(s: Seq<usize>) -> Option<nat>
    decreases s.len(),
{
    if s.len() == 0 {
        Some(1)
    } else {
        match checked_product(s.drop_last()) {
            Some(p) => if p * s.last() > usize::MAX {
                None
            } else {
                Some((p * s.last()) as nat)
            },
            None => None,
        }
    }
}

/// The row-major stride of axis `i` of `shape` (the product of the later
/// axes), taken modulo 2^32; `None` when `i` is out of range or the product
/// overflows.
pub open spec fn stride_of(shape: Seq<usize>, i: nat) -> Option<u32> {
    if i + 1 > shape.len() {
        None
    } else {
        match checked_product(shape.subrange(i + 1 as int, shape.len() as int)) {
            Some(p) => Some((p % 0x1_0000_0000) as u32),
            None => None,
        }
    }
}

/// `0 + c0 * stride0 + c1 * stride1 + ...` over the first `k` coordinates;
/// a zero stride adds the coordinate alone.
pub open spec fn linearize_prefix(coords: Seq<SpecAST>, shape: Seq<usize>, k: nat) -> Option<SpecAST>
    decreases k,
{
    if k == 0 {
        Some(u32_ast(0))
    } else {
        match (linearize_prefix(coords, shape, (k - 1) as nat), stride_of(shape, (k - 1) as nat)) {
            (Some(acc), Some(st)) => Some(
                if st > 0 {
                    spec_bin(acc, spec_bin(coords[k - 1], u32_ast(st), BinOp::Mul), BinOp::Add)
                } else {
                    spec_bin(acc, coords[k - 1], BinOp::Add)
                },
            ),
            _ => None,
        }
    }
}

/// The linear index of `coords` in a row-major tensor of shape `shape`.
/// With no coordinates it is the constant `0`; with no shape, the first
/// coordinate. `None` when there are more coordinates than axes or a
/// stride overflows.
pub open spec fn spec_coord_linearize(coords: Seq<SpecAST>, shape: Seq<usize>) -> Option<SpecAST> {
    if coords.len() == 0 || shape.len() == 0 {
        Some(
            if coords.len() > 0 {
                coords[0]
            } else {
                u32_ast(0)
            },
        )
    } else {
        linearize_prefix(coords, shape, coords.len())
    }
}

/// The value of a `u32` expression built from `u32` constants, `+`, `-` and
/// `*` (wrapping, as WGSL's `u32` arithmetic does), `/` and `%` by a
/// non-zero value, the built-in `max` of two values and `select(f, t, c)`
/// (`t` where `c` holds, else `f`); any other subexpression takes its value
/// from `leaf`.
pub open spec fn eval_u32(a: SpecAST, leaf: spec_fn(SpecAST) -> nat) -> nat
    decreases a,
{
    match a {
        SpecAST::BinaryOp { lhs, rhs, op } => if op == BinOp::Add {
            (eval_u32(*lhs, leaf) + eval_u32(*rhs, leaf)) % 0x1_0000_0000
        } else if op == BinOp::Mul {
            (eval_u32(*lhs, leaf) * eval_u32(*rhs, leaf)) % 0x1_0000_0000
        } else if op == BinOp::Sub {
            ((eval_u32(*lhs, leaf) + 0x1_0000_0000) - eval_u32(*rhs, leaf)) as nat % 0x1_0000_0000
        } else if op == BinOp::Div && eval_u32(*rhs, leaf) > 0 {
            eval_u32(*lhs, leaf) / eval_u32(*rhs, leaf)
        } else if op == BinOp::Rem && eval_u32(*rhs, leaf) > 0 {
            eval_u32(*lhs, leaf) % eval_u32(*rhs, leaf)
        } else {
            leaf(a)
        },
        SpecAST::Const { dt, data } => if dt == DType::Basic(BasicTy::Integer(IntegerTy::U32)) && data.len()
            == 1 && data[0] is Const && data[0]->Const_0.len() == 4 {
            let b = data[0]->Const_0;
            (b[0] as nat) + 256 * (b[1] as nat) + 65536 * (b[2] as nat) + 16777216 * (b[3] as nat)
        } else {
            leaf(a)
        },
        SpecAST::FunctionCall { ident, args } => if ident == "max"@ && args.len() == 2 {
            let x = eval_u32(args[0], leaf);
            let y = eval_u32(args[1], leaf);
            if x >= y {
                x
            } else {
                y
            }
        } else if ident == "select"@ && args.len() == 3 {
            if truth(args[2], leaf) {
                eval_u32(args[1], leaf)
            } else {
                eval_u32(args[0], leaf)
            }
        } else {
            leaf(a)
        },
        _ => leaf(a),
    }
}

/// Whether a condition over `u32` expressions holds: `>=` and `<` compare
/// the values of the two sides, `&&` needs both to hold; anything else is
/// taken not to hold.
pub open spec fn truth(a: SpecAST, leaf: spec_fn(SpecAST) -> nat) -> bool
    decreases a,
{
    match a {
        SpecAST::BinaryOp { lhs, rhs, op } => if op == BinOp::Ge {
            eval_u32(*lhs, leaf) >= eval_u32(*rhs, leaf)
        } else if op == BinOp::Lt {
            eval_u32(*lhs, leaf) < eval_u32(*rhs, leaf)
        } else if op == BinOp::LogicalAnd {
            truth(*lhs, leaf) && truth(*rhs, leaf)
        } else {
            false
        },
        _ => false,
    }
}

/// `sum of value(coords[i]) * stride(i)` over the first `k` coordinates.
pub open spec fn weighted_sum(coords: Seq<SpecAST>, shape: Seq<usize>, k: nat, leaf: spec_fn(SpecAST) -> nat) -> int
    decreases k,
{
    if k == 0 {
        0
    } else {
        weighted_sum(coords, shape, (k - 1) as nat, leaf) + eval_u32(coords[k - 1], leaf) * (stride_of(
            shape,
            (k - 1) as nat,
        ).unwrap() as nat)
    }
}

proof fn lemma_u32_ast_value(v: u32, leaf: spec_fn(SpecAST) -> nat)
    ensures
        eval_u32(u32_ast(v), leaf) == v,
{
    let b = le_bytes(v);
    assert(b.len() == 4);
    let b0 = (v % 256) as u8;
    let b1 = ((v / 256) % 256) as u8;
    let b2 = ((v / 65536) % 256) as u8;
    let b3 = (v / 16777216) as u8;
    let n = v as int;
    assert(n % 256 + 256 * ((n / 256) % 256) + 65536 * ((n / 65536) % 256) + 16777216 * (n / 16777216) == n)
        by (nonlinear_arith)
        requires
            0 <= n < 0x1_0000_0000,
    ;
    assert(b0 as int == n % 256);
    assert(b1 as int == (n / 256) % 256);
    assert(b2 as int == (n / 65536) % 256);
    assert(b3 as int == n / 16777216);
    assert(b =~= seq![b0, b1, b2, b3]);
}

/// The linear index's value: where every stride is positive, the emitted
/// expression evaluates to `sum of coordinate * stride` modulo 2^32, each
/// coordinate taking its own value.
pub proof fn lemma_linearize_value(coords: Seq<SpecAST>, shape: Seq<usize>, leaf: spec_fn(SpecAST) -> nat)
    requires
        coords.len() > 0,
        shape.len() > 0,
        spec_coord_linearize(coords, shape) is Some,
        forall|i: nat| i < coords.len() ==> #[trigger] stride_of(shape, i) is Some && stride_of(shape, i).unwrap() > 0,
    ensures
        eval_u32(spec_coord_linearize(coords, shape).unwrap(), leaf) == weighted_sum(coords, shape, coords.len(), leaf)
            % 0x1_0000_0000,
{
    lemma_prefix_value(coords, shape, coords.len(), leaf);
}

proof fn lemma_prefix_value(coords: Seq<SpecAST>, shape: Seq<usize>, k: nat, leaf: spec_fn(SpecAST) -> nat)
    requires
        k <= coords.len(),
        linearize_prefix(coords, shape, k) is Some,
        forall|i: nat| i < coords.len() ==> #[trigger] stride_of(shape, i) is Some && stride_of(shape, i).unwrap() > 0,
    ensures
        eval_u32(linearize_prefix(coords, shape, k).unwrap(), leaf) == weighted_sum(coords, shape, k, leaf)
            % 0x1_0000_0000,
    decreases k,
{
    let m: int = 0x1_0000_0000;
    if k == 0 {
        lemma_u32_ast_value(0, leaf);
    } else {
        let p = (k - 1) as nat;
        lemma_prefix_value(coords, shape, p, leaf);
        let acc = linearize_prefix(coords, shape, p).unwrap();
        let st = stride_of(shape, p).unwrap();
        assert(st > 0);
        lemma_u32_ast_value(st, leaf);
        let x = eval_u32(coords[p as int], leaf) as int;
        let s = weighted_sum(coords, shape, p, leaf);
        let term = spec_bin(coords[p as int], u32_ast(st), BinOp::Mul);
        assert(eval_u32(term, leaf) == (x * st) % m);
        assert(eval_u32(acc, leaf) == s % m);
        vstd::arithmetic::div_mod::lemma_add_mod_noop(s, x * st, m);
        vstd::arithmetic::div_mod::lemma_mod_twice(x * st, m);
    }
}

proof fn lemma_checked_product_none(s: Seq<usize>, k: nat)
    requires
        1 <= k <= s.len(),
        checked_product(s.take(k as int)) is None,
    ensures
        checked_product(s) is None,
    decreases s.len() - k,
{
    if k == s.len() {
        assert(s.take(k as int) =~= s);
    } else {
        assert(s.take((k + 1) as int).drop_last() =~= s.take(k as int));
        lemma_checked_product_none(s, k + 1);
    }
}

/// The stride of axis `i` of `shape`; `None` when `i` is out of range or
/// the product overflows.
pub fn try_stride(shape: &[usize], i: usize) -> (r: Option<u32>)
    ensures
        stride_of(shape@, i as nat) == r,
{
    let n = shape.len();
    if i >= n {
        return None;
    }
    let ghost suffix = shape@.subrange(i + 1, shape@.len() as int);
    let mut acc: usize = 1;
    let mut j: usize = i + 1;
    proof {
        assert(shape@.subrange(i + 1, i + 1) =~= Seq::<usize>::empty());
    }
    while j < n
        invariant
            n == shape@.len(),
            i < n,
            i + 1 <= j <= n,
            suffix == shape@.subrange(i + 1, n as int),
            checked_product(shape@.subrange(i + 1, j as int)) == Some(acc as nat),
        decreases n - j,
    {
        proof {
            assert(suffix.take((j + 1 - (i + 1)) as int) =~= shape@.subrange(i + 1, j + 1));
            assert(shape@.subrange(i + 1, j + 1).drop_last() =~= shape@.subrange(i + 1, j as int));
        }
        acc = match acc.checked_mul(shape[j]) {
            Some(x) => x,
            None => {
                proof {
                    lemma_checked_product_none(suffix, (j + 1 - (i + 1)) as nat);
                }
                return None;
            },
        };
        j = j + 1;
    }
    let r: u32 = #[verifier::truncate] (acc as u32);
    proof {
        assert((r as u64) == (acc as u64) % 0x1_0000_0000u64) by (bit_vector)
            requires
                r == acc as u32,
        ;
    }
    Some(r)
}

/// The stride of axis `i` of `shape`.
pub fn stride(shape: &[usize], i: usize) -> (r: u32)
    requires
        stride_of(shape@, i as nat) is Some,
    ensures
        stride_of(shape@, i as nat) == Some(r),
{
    try_stride(shape, i).unwrap()
}

/// The views of an optional expression.
pub open spec fn opt_ast(r: Option<LoweredAST>) -> Option<SpecAST> {
    match r {
        Some(x) => Some(x@),
        None => None,
    }
}

/// The linear index of `coords` in a row-major tensor of shape `shape`;
/// `None` when there are more coordinates than axes or a stride overflows.
pub fn try_coord_linearize(coords: &[LoweredAST], shape: &[usize]) -> (r: Option<LoweredAST>)
    ensures
        spec_coord_linearize(ast_views(coords@), shape@) == opt_ast(r),
{
    if coords.len() == 0 || shape.len() == 0 {
        if coords.len() > 0 {
            return Some(clone_ast(&coords[0]));
        } else {
            return Some(LoweredAST::from_u32(0));
        }
    }
    let ghost cs = ast_views(coords@);
    let n = coords.len();
    let mut acc = LoweredAST::from_u32(0);
    let mut i: usize = 0;
    while i < n
        invariant
            n == coords@.len(),
            n > 0,
            shape@.len() > 0,
            cs == ast_views(coords@),
            i <= n,
            linearize_prefix(cs, shape@, i as nat) == Some(acc@),
        decreases n - i,
    {
        let st = match try_stride(shape, i) {
            Some(st) => st,
            None => {
                proof {
                    lemma_linearize_none(cs, shape@, (i + 1) as nat, n as nat);
                }
                return None;
            },
        };
        let c = clone_ast(&coords[i]);
        if st > 0 {
            acc = acc + c * LoweredAST::from_u32(st);
        } else {
            acc = acc + c;
        }
        i = i + 1;
    }
    Some(acc)
}

/// The linear index of `coords` in a row-major tensor of shape `shape`.
pub fn coord_linearize(coords: &[LoweredAST], shape: &[usize]) -> (r: LoweredAST)
    requires
        spec_coord_linearize(ast_views(coords@), shape@) is Some,
    ensures
        spec_coord_linearize(ast_views(coords@), shape@) == Some(r@),
{
    try_coord_linearize(coords, shape).unwrap()
}

proof fn lemma_linearize_none(coords: Seq<SpecAST>, shape: Seq<usize>, k: nat, n: nat)
    requires
        1 <= k <= n,
        linearize_prefix(coords, shape, k) is None,
    ensures
        linearize_prefix(coords, shape, n) is None,
    decreases n - k,
{
    if k < n {
        lemma_linearize_none(coords, shape, k + 1, n);
    }
}

/// Coordinates of the linear index `rem` along `in_shape[j..]`: each
/// axis but the last takes `rem / stride` and passes `rem % stride` on;
/// the last takes what is left.
pub open spec fn split_from(rem: SpecAST, in_shape: Seq<usize>, j: nat) -> Option<Seq<SpecAST>>
    decreases in_shape.len() - j,
{
    if j + 1 >= in_shape.len() {
        Some(seq![rem])
    } else {
        match stride_of(in_shape, j) {
            Some(st) => match split_from(spec_bin(rem, u32_ast(st), BinOp::Rem), in_shape, j + 1) {
                Some(rest) => Some(seq![spec_bin(rem, u32_ast(st), BinOp::Div)] + rest),
                None => None,
            },
            None => None,
        }
    }
}

/// The coordinates that an output coordinate of a reshape reads from.
pub open spec fn reshape_coords(c: Seq<SpecAST>, in_shape: Seq<usize>, out_shape: Seq<usize>) -> Option<
    Seq<SpecAST>,
> {
    match spec_coord_linearize(c, out_shape) {
        Some(linear) => if in_shape.len() == 0 {
            Some(seq![linear])
        } else {
            split_from(linear, in_shape, 0)
        },
        None => None,
    }
}

/// The coordinates that an output coordinate of a broadcast reads from:
/// the trailing axes of the operand, with `0` along axes of size one.
pub open spec fn expand_coords(c: Seq<SpecAST>, in_shape: Seq<usize>) -> Option<Seq<SpecAST>> {
    if c.len() < in_shape.len() {
        None
    } else {
        let offset = c.len() - in_shape.len();
        Some(
            Seq::new(
                in_shape.len(),
                |k: int|
                    if in_shape[k] == 1 {
                        u32_ast(0)
                    } else {
                        c[offset + k]
                    },
            ),
        )
    }
}

/// The inverse of the permutation given by the first `n` entries of `perm`:
/// entry `perm[j]` is `j` (the last such `j`), entries no `perm[j]` names are `0`.
pub open spec fn perm_inverse(perm: Seq<usize>, n: nat) -> Seq<usize>
    decreases n,
{
    if n == 0 || n > perm.len() {
        Seq::new(perm.len(), |k: int| 0usize)
    } else {
        perm_inverse(perm, (n - 1) as nat).update(perm[n - 1] as int, (n - 1) as usize)
    }
}

/// The coordinates that an output coordinate of a permutation reads from.
pub open spec fn permute_coords(c: Seq<SpecAST>, perm: Seq<usize>) -> Option<Seq<SpecAST>> {
    let inv = perm_inverse(perm, perm.len());
    if (forall|j: int| 0 <= j < perm.len() ==> perm[j] < perm.len()) && (forall|k: int|
        0 <= k < perm.len() ==> inv[k] < c.len()) {
        Some(Seq::new(perm.len(), |k: int| c[inv[k] as int]))
    } else {
        None
    }
}

/// Each coordinate shifted down (`Sub`) or up (`Add`) by the leading amount
/// of its axis, taken modulo 2^32; axes with a zero amount are left as they are.
pub open spec fn shift_coords(c: Seq<SpecAST>, amounts: Seq<(usize, usize)>, op: BinOp) -> Option<
    Seq<SpecAST>,
> {
    if c.len() > amounts.len() {
        None
    } else {
        Some(
            Seq::new(
                c.len(),
                |j: int|
                    if amounts[j].0 == 0 {
                        c[j]
                    } else {
                        spec_bin(c[j], u32_ast(((amounts[j].0 as nat) % 0x1_0000_0000) as u32), op)
                    },
            ),
        )
    }
}

/// The coordinates that an output coordinate of a flip along `axis` reads
/// from: `(size - 1) - c` along that axis.
pub open spec fn flip_coords(c: Seq<SpecAST>, axis: usize, out_shape: Seq<usize>) -> Option<
    Seq<SpecAST>,
> {
    if axis >= c.len() {
        Some(c)
    } else if axis >= out_shape.len() || out_shape[axis as int] == 0 {
        None
    } else {
        Some(
            c.update(
                axis as int,
                spec_bin(
                    u32_ast(((out_shape[axis as int] - 1) % 0x1_0000_0000) as u32),
                    c[axis as int],
                    BinOp::Sub,
                ),
            ),
        )
    }
}

/// What a pad leaves for the bounds check: the coordinates before the
/// shift, the amounts and the shape of the operand.
pub struct PadCheck {
    pub pre_subtract_coords: Vec<LoweredAST>,
    pub amounts: Vec<(usize, usize)>,
    pub inner_shape: Vec<usize>,
}

/// Mathematical model of a [`PadCheck`].
pub struct SpecPadCheck {
    pub pre: Seq<SpecAST>,
    pub amounts: Seq<(usize, usize)>,
    pub inner_shape: Seq<usize>,
}

impl View for PadCheck {
    type V = SpecPadCheck;

    open spec fn view(&self) -> SpecPadCheck {
        SpecPadCheck {
            pre: ast_views(self.pre_subtract_coords@),
            amounts: self.amounts@,
            inner_shape: self.inner_shape@,
        }
    }
}

/// One step of a chain: the coordinates of the operand of `op` that the
/// output coordinate `c` reads from, and the pad check it leaves, if any.
pub open spec fn chain_step(c: Seq<SpecAST>, op: SpecMovOp, in_shape: Seq<usize>, out_shape: Seq<usize>) -> Option<
    (Seq<SpecAST>, Option<SpecPadCheck>),
> {
    match op {
        SpecMovOp::Reshape(_) => match reshape_coords(c, in_shape, out_shape) {
            Some(r) => Some((r, None)),
            None => None,
        },
        SpecMovOp::Expand(_) => match expand_coords(c, in_shape) {
            Some(r) => Some((r, None)),
            None => None,
        },
        SpecMovOp::Permute(perm) => match permute_coords(c, perm) {
            Some(r) => Some((r, None)),
            None => None,
        },
        SpecMovOp::Pad(amounts) => match shift_coords(c, amounts, BinOp::Sub) {
            Some(r) => Some(
                (r, Some(SpecPadCheck { pre: c, amounts, inner_shape: in_shape })),
            ),
            None => None,
        },
        SpecMovOp::Shrink(amounts) => match shift_coords(c, amounts, BinOp::Add) {
            Some(r) => Some((r, None)),
            None => None,
        },
        SpecMovOp::Flip(axis) => match flip_coords(c, axis, out_shape) {
            Some(r) => Some((r, None)),
            None => None,
        },
    }
}

/// The first `k` steps of a chain applied to the coordinate `c`: step `i`
/// maps from the shape `shapes[i]` to `shapes[i + 1]`. Returns the final
/// coordinates and the pad checks, in the order the pads were met.
pub open spec fn spec_apply_chain(
    c: Seq<SpecAST>,
    chain: Seq<SpecMovOp>,
    shapes: Seq<Seq<usize>>,
    k: nat,
) -> Option<(Seq<SpecAST>, Seq<SpecPadCheck>)>
    decreases k,
{
    if k == 0 {
        Some((c, Seq::empty()))
    } else if k > chain.len() || k >= shapes.len() {
        None
    } else {
        match spec_apply_chain(c, chain, shapes, (k - 1) as nat) {
            Some((cur, checks)) => match chain_step(
                cur,
                chain[k - 1],
                shapes[k as int],
                shapes[k - 1],
            ) {
                Some((next, Some(pc))) => Some((next, checks.push(pc))),
                Some((next, None)) => Some((next, checks)),
                None => None,
            },
            None => None,
        }
    }
}

/// The views of a chain of movements.
pub open spec fn chain_views(chain: Seq<&MovOp>) -> Seq<SpecMovOp> {
    chain.map_values(|m: &MovOp| m@)
}

/// The views of a list of shapes.
pub open spec fn shape_views(shapes: Seq<Vec<usize>>) -> Seq<Seq<usize>> {
    shapes.map_values(|v: Vec<usize>| v@)
}

/// The views of a list of pad checks.
pub open spec fn pad_check_views(p: Seq<PadCheck>) -> Seq<SpecPadCheck> {
    p.map_values(|x: PadCheck| x@)
}

fn clone_asts_slice(v: &[LoweredAST]) -> (r: Vec<LoweredAST>)
    ensures
        ast_views(r@) == ast_views(v@),
{
    let mut out: Vec<LoweredAST> = Vec::new();
    let n = v.len();
    let mut i: usize = 0;
    while i < n
        invariant
            n == v@.len(),
            i <= n,
            out@.len() == i,
            forall|k: int| 0 <= k < i ==> out@[k]@ == v@[k]@,
        decreases n - i,
    {
        out.push(clone_ast(&v[i]));
        i = i + 1;
    }
    proof {
        assert(ast_views(out@) =~= ast_views(v@));
    }
    out
}

fn reshape_step(c: &Vec<LoweredAST>, in_shape: &Vec<usize>, out_shape: &Vec<usize>) -> (r: Option<Vec<LoweredAST>>)
    ensures
        reshape_coords(ast_views(c@), in_shape@, out_shape@) == match r {
            Some(v) => Some(ast_views(v@)),
            None => None,
        },
{
    let linear = match try_coord_linearize(c.as_slice(), out_shape.as_slice()) {
        Some(l) => l,
        None => {
            return None;
        },
    };
    let mut result: Vec<LoweredAST> = Vec::new();
    if in_shape.len() == 0 {
        result.push(linear);
        proof {
            assert(ast_views(result@) =~= seq![linear@]);
        }
        return Some(result);
    }
    let n = in_shape.len();
    let ghost linear0 = linear@;
    let mut rem = linear;
    let mut j: usize = 0;
    proof {
        match split_from(rem@, in_shape@, 0) {
            Some(rest) => {
                assert(ast_views(result@) + rest =~= rest);
            },
            None => {},
        }
    }
    while j + 1 < n
        invariant
            n == in_shape@.len(),
            n >= 1,
            j < n,
            reshape_coords(ast_views(c@), in_shape@, out_shape@) == split_from(linear0, in_shape@, 0),
            match split_from(rem@, in_shape@, j as nat) {
                Some(rest) => split_from(linear0, in_shape@, 0) == Some(ast_views(result@) + rest),
                None => split_from(linear0, in_shape@, 0) is None,
            },
        decreases n - j,
    {
        let st = match try_stride(in_shape.as_slice(), j) {
            Some(st) => st,
            None => {
                proof {
                    assert(split_from(rem@, in_shape@, j as nat) is None);
                }
                return None;
            },
        };
        let ghost rem_v = rem@;
        let ghost prev = ast_views(result@);
        let q = clone_ast(&rem) / LoweredAST::from_u32(st);
        result.push(q);
        rem = rem % LoweredAST::from_u32(st);
        proof {
            assert(ast_views(result@) =~= prev.push(spec_bin(rem_v, u32_ast(st), BinOp::Div)));
            match split_from(rem@, in_shape@, (j + 1) as nat) {
                Some(rest) => {
                    assert(split_from(rem_v, in_shape@, j as nat).unwrap() == seq![
                        spec_bin(rem_v, u32_ast(st), BinOp::Div),
                    ] + rest);
                    assert(ast_views(result@) + rest =~= prev + split_from(
                        rem_v,
                        in_shape@,
                        j as nat,
                    ).unwrap());
                },
                None => {},
            }
        }
        j = j + 1;
    }
    let ghost prev = ast_views(result@);
    result.push(rem);
    proof {
        assert(ast_views(result@) =~= prev + split_from(rem@, in_shape@, j as nat).unwrap());
    }
    Some(result)
}

fn expand_step(c: Vec<LoweredAST>, in_shape: &Vec<usize>) -> (r: Vec<LoweredAST>)
    requires
        expand_coords(ast_views(c@), in_shape@) is Some,
    ensures
        expand_coords(ast_views(c@), in_shape@) == Some(ast_views(r@)),
{
    let clen = c.len();
    let offset = clen - in_shape.len();
    let mut out: Vec<LoweredAST> = Vec::new();
    let n = in_shape.len();
    let mut k: usize = 0;
    while k < n
        invariant
            n == in_shape@.len(),
            offset + n == clen,
            clen == c@.len(),
            k <= n,
            out@.len() == k,
            forall|m: int|
                0 <= m < k ==> out@[m]@ == (if in_shape@[m] == 1 {
                    u32_ast(0)
                } else {
                    c@[offset + m]@
                }),
        decreases n - k,
    {
        if in_shape[k] == 1 {
            out.push(LoweredAST::from_u32(0));
        } else {
            out.push(clone_ast(&c[offset + k]));
        }
        k = k + 1;
    }
    proof {
        let cs = ast_views(c@);
        assert(ast_views(out@) =~= Seq::new(
            in_shape@.len(),
            |m: int|
                if in_shape@[m] == 1 {
                    u32_ast(0)
                } else {
                    cs[offset + m]
                },
        ));
    }
    out
}

proof fn lemma_perm_inverse_len(perm: Seq<usize>, n: nat)
    requires
        forall|j: int| 0 <= j < perm.len() ==> perm[j] < perm.len(),
    ensures
        perm_inverse(perm, n).len() == perm.len(),
    decreases n,
{
    if n > 0 && n <= perm.len() {
        lemma_perm_inverse_len(perm, (n - 1) as nat);
    }
}

fn permute_step(c: &Vec<LoweredAST>, perm: &Vec<usize>) -> (r: Option<Vec<LoweredAST>>)
    ensures
        permute_coords(ast_views(c@), perm@) == match r {
            Some(v) => Some(ast_views(v@)),
            None => None,
        },
{
    let n = perm.len();
    let mut j: usize = 0;
    while j < n
        invariant
            n == perm@.len(),
            j <= n,
            forall|m: int| 0 <= m < j ==> perm@[m] < n,
        decreases n - j,
    {
        if perm[j] >= n {
            proof {
                assert(!(perm@[j as int] < perm@.len()));
            }
            return None;
        }
        j = j + 1;
    }
    let mut inv: Vec<usize> = Vec::new();
    let mut k: usize = 0;
    while k < n
        invariant
            n == perm@.len(),
            k <= n,
            inv@.len() == k,
            forall|m: int| 0 <= m < k ==> inv@[m] == 0,
        decreases n - k,
    {
        inv.push(0);
        k = k + 1;
    }
    proof {
        assert(inv@ =~= perm_inverse(perm@, 0));
    }
    let mut j: usize = 0;
    while j < n
        invariant
            n == perm@.len(),
            j <= n,
            forall|m: int| 0 <= m < n ==> perm@[m] < n,
            inv@ == perm_inverse(perm@, j as nat),
        decreases n - j,
    {
        proof {
            lemma_perm_inverse_len(perm@, j as nat);
        }
        inv.set(perm[j], j);
        j = j + 1;
    }
    let ghost cs = ast_views(c@);
    let mut out: Vec<LoweredAST> = Vec::new();
    let mut k: usize = 0;
    proof {
        lemma_perm_inverse_len(perm@, n as nat);
    }
    while k < n
        invariant
            n == perm@.len(),
            cs == ast_views(c@),
            forall|m: int| 0 <= m < n ==> perm@[m] < n,
            k <= n,
            inv@ == perm_inverse(perm@, n as nat),
            inv@.len() == n,
            forall|m: int| 0 <= m < k ==> inv@[m] < c@.len(),
            out@.len() == k,
            forall|m: int| 0 <= m < k ==> out@[m]@ == c@[inv@[m] as int]@,
        decreases n - k,
    {
        if inv[k] >= c.len() {
            proof {
                assert(!(inv@[k as int] < cs.len()));
            }
            return None;
        }
        out.push(clone_ast(&c[inv[k]]));
        k = k + 1;
    }
    proof {
        assert(ast_views(out@) =~= Seq::new(perm@.len(), |m: int| cs[inv@[m] as int]));
    }
    Some(out)
}

fn shift_step(c: Vec<LoweredAST>, amounts: &Vec<(usize, usize)>, down: bool) -> (r: Vec<LoweredAST>)
    requires
        shift_coords(ast_views(c@), amounts@, if down { BinOp::Sub } else { BinOp::Add }) is Some,
    ensures
        shift_coords(ast_views(c@), amounts@, if down { BinOp::Sub } else { BinOp::Add }) == Some(
            ast_views(r@),
        ),
{
    let ghost op = if down {
        BinOp::Sub
    } else {
        BinOp::Add
    };
    let ghost cs = ast_views(c@);
    let n = c.len();
    let mut out: Vec<LoweredAST> = Vec::new();
    let mut j: usize = 0;
    while j < n
        invariant
            n == c@.len(),
            n <= amounts@.len(),
            cs == ast_views(c@),
            op == (if down {
                BinOp::Sub
            } else {
                BinOp::Add
            }),
            j <= n,
            out@.len() == j,
            forall|m: int|
                0 <= m < j ==> out@[m]@ == (if amounts@[m].0 == 0 {
                    cs[m]
                } else {
                    spec_bin(cs[m], u32_ast(((amounts@[m].0 as nat) % 0x1_0000_0000) as u32), op)
                }),
        decreases n - j,
    {
        let v = clone_ast(&c[j]);
        if amounts[j].0 == 0 {
            out.push(v);
        } else {
            let a: u32 = #[verifier::truncate] (amounts[j].0 as u32);
            proof {
                let x = amounts@[j as int].0;
                assert((a as u64) == (x as u64) % 0x1_0000_0000u64) by (bit_vector)
                    requires
                        a == x as u32,
                ;
            }
            if down {
                out.push(v - LoweredAST::from_u32(a));
            } else {
                out.push(v + LoweredAST::from_u32(a));
            }
        }
        j = j + 1;
    }
    proof {
        assert(ast_views(out@) =~= Seq::new(
            cs.len(),
            |m: int|
                if amounts@[m].0 == 0 {
                    cs[m]
                } else {
                    spec_bin(cs[m], u32_ast(((amounts@[m].0 as nat) % 0x1_0000_0000) as u32), op)
                },
        ));
    }
    out
}

fn flip_step(c: Vec<LoweredAST>, axis: usize, out_shape: &Vec<usize>) -> (r: Vec<LoweredAST>)
    requires
        flip_coords(ast_views(c@), axis, out_shape@) is Some,
    ensures
        flip_coords(ast_views(c@), axis, out_shape@) == Some(ast_views(r@)),
{
    if axis >= c.len() {
        return c;
    }
    let ghost cs = ast_views(c@);
    let size = out_shape[axis] - 1;
    let top: u32 = #[verifier::truncate] (size as u32);
    proof {
        assert((top as u64) == (size as u64) % 0x1_0000_0000u64) by (bit_vector)
            requires
                top == size as u32,
        ;
    }
    let n = c.len();
    let mut out: Vec<LoweredAST> = Vec::new();
    let mut j: usize = 0;
    while j < n
        invariant
            n == c@.len(),
            axis < n,
            cs == ast_views(c@),
            top == ((size as nat) % 0x1_0000_0000) as u32,
            j <= n,
            out@.len() == j,
            forall|m: int|
                0 <= m < j ==> out@[m]@ == (if m == axis {
                    spec_bin(u32_ast(top), cs[m], BinOp::Sub)
                } else {
                    cs[m]
                }),
        decreases n - j,
    {
        let v = clone_ast(&c[j]);
        if j == axis {
            out.push(LoweredAST::from_u32(top) - v);
        } else {
            out.push(v);
        }
        j = j + 1;
    }
    proof {
        assert(ast_views(out@) =~= cs.update(
            axis as int,
            spec_bin(u32_ast(top), cs[axis as int], BinOp::Sub),
        ));
    }
    out
}

/// Maps an output coordinate through a chain of movements, outermost
/// first, back to a coordinate of the chain's base; `shapes[i]` is the
/// shape before step `i` and `shapes[i + 1]` after it. Also returns the
/// checks that each pad leaves. `None` where a step does not apply.
pub fn try_apply_chain(
    coord: Vec<LoweredAST>,
    chain: &[&MovOp],
    shapes: &[Vec<usize>],
) -> (r: Option<(Vec<LoweredAST>, Vec<PadCheck>)>)
    ensures
        spec_apply_chain(ast_views(coord@), chain_views(chain@), shape_views(shapes@), chain@.len())
            == match r {
            Some(p) => Some((ast_views(p.0@), pad_check_views(p.1@))),
            None => None,
        },
{
    let ghost c0 = ast_views(coord@);
    let ghost ch = chain_views(chain@);
    let ghost sh = shape_views(shapes@);
    let mut pad_checks: Vec<PadCheck> = Vec::new();
    let mut c = coord;
    let n = chain.len();
    let mut i: usize = 0;
    while i < n
        invariant
            n == chain@.len(),
            c0 == ast_views(coord@),
            ch == chain_views(chain@),
            sh == shape_views(shapes@),
            sh.len() == shapes@.len(),
            i <= n,
            spec_apply_chain(c0, ch, sh, i as nat) == Some((ast_views(c@), pad_check_views(pad_checks@))),
        decreases n - i,
    {
        if i + 1 >= shapes.len() {
            proof {
                lemma_apply_chain_none(c0, ch, sh, (i + 1) as nat, n as nat);
            }
            return None;
        }
        let in_shape = &shapes[i + 1];
        let out_shape = &shapes[i];
        let op: &MovOp = chain[i];
        let ghost prev_checks = pad_check_views(pad_checks@);
        let ghost cv = ast_views(c@);
        proof {
            assert(ch[i as int] == op@);
            assert(sh[i + 1] == in_shape@);
            assert(sh[i as int] == out_shape@);
        }
        let next = match op {
            MovOp::Reshape(_) => reshape_step(&c, in_shape, out_shape),
            MovOp::Expand(_) => if c.len() < in_shape.len() {
                None
            } else {
                Some(expand_step(c, in_shape))
            },
            MovOp::Permute(perm) => permute_step(&c, perm),
            MovOp::Pad(amounts) => if c.len() > amounts.len() {
                None
            } else {
                pad_checks.push(
                    PadCheck {
                        pre_subtract_coords: clone_asts_slice(c.as_slice()),
                        amounts: clone_pairs(amounts),
                        inner_shape: clone_usizes(in_shape),
                    },
                );
                proof {
                    assert(pad_check_views(pad_checks@) =~= prev_checks.push(
                        pad_checks@.last()@,
                    ));
                }
                Some(shift_step(c, amounts, true))
            },
            MovOp::Shrink(amounts) => if c.len() > amounts.len() {
                None
            } else {
                Some(shift_step(c, amounts, false))
            },
            MovOp::Flip(axis) => if *axis < c.len() && (*axis >= out_shape.len() || out_shape[*axis]
                == 0) {
                None
            } else {
                Some(flip_step(c, *axis, out_shape))
            },
        };
        c = match next {
            Some(v) => v,
            None => {
                proof {
                    assert(chain_step(cv, ch[i as int], sh[i + 1], sh[i as int]) is None);
                    lemma_apply_chain_none(c0, ch, sh, (i + 1) as nat, n as nat);
                }
                return None;
            },
        };
        i = i + 1;
    }
    Some((c, pad_checks))
}

/// Maps an output coordinate through a chain of movements, outermost
/// first, back to a coordinate of the chain's base; `shapes[i]` is the
/// shape before step `i` and `shapes[i + 1]` after it. Also returns the
/// checks that each pad leaves.
pub fn apply_chain(
    coord: Vec<LoweredAST>,
    chain: &[&MovOp],
    shapes: &[Vec<usize>],
    _scope: &mut Scope,
) -> (r: (Vec<LoweredAST>, Vec<PadCheck>))
    requires
        spec_apply_chain(
            ast_views(coord@),
            chain_views(chain@),
            shape_views(shapes@),
            chain@.len(),
        ) is Some,
    ensures
        spec_apply_chain(ast_views(coord@), chain_views(chain@), shape_views(shapes@), chain@.len())
            == Some((ast_views(r.0@), pad_check_views(r.1@))),
        *final(_scope) == *old(_scope),
{
    try_apply_chain(coord, chain, shapes).unwrap()
}

proof fn lemma_apply_chain_none(
    c: Seq<SpecAST>,
    chain: Seq<SpecMovOp>,
    shapes: Seq<Seq<usize>>,
    k: nat,
    n: nat,
)
    requires
        1 <= k <= n,
        spec_apply_chain(c, chain, shapes, k) is None,
    ensures
        spec_apply_chain(c, chain, shapes, n) is None,
    decreases n - k,
{
    if k < n {
        lemma_apply_chain_none(c, chain, shapes, k + 1, n);
    }
}


/// The value a padded position reads: zero of the scalar type of `dt`
/// (`false` for booleans, a `u32` zero for types that are not scalars).
pub open spec fn pad_zero(dt: DType) -> SpecAST {
    match dt.spec_peel_all() {
        DType::Basic(BasicTy::F32) => f32_bits_ast(0),
        DType::Basic(BasicTy::Integer(IntegerTy::I32)) => i32_ast(0),
        DType::Basic(BasicTy::Integer(IntegerTy::U32)) => u32_ast(0),
        DType::Basic(BasicTy::Bool) => bool_ast(false),
        _ => u32_ast(0),
    }
}

/// The in-bounds tests of the first `k` coordinates of a pad check:
/// `lo <= c && c < lo + size` for each axis padded on either side, with `lo`
/// and the size taken modulo 2^32. `None` when an axis has no amount or
/// size, or `lo + size` overflows a `u32`.
pub open spec fn dim_checks(pc: SpecPadCheck, k: nat) -> Option<Seq<SpecAST>>
    decreases k,
{
    if k == 0 {
        Some(Seq::empty())
    } else if k > pc.pre.len() {
        None
    } else {
        match dim_checks(pc, (k - 1) as nat) {
            Some(d) => {
                let j = k - 1;
                if j >= pc.amounts.len() || j >= pc.inner_shape.len() {
                    None
                } else {
                    let lo = (pc.amounts[j].0 as nat) % 0x1_0000_0000;
                    let hi = lo + (pc.inner_shape[j] as nat) % 0x1_0000_0000;
                    if hi > u32::MAX {
                        None
                    } else if lo > 0 || pc.amounts[j].1 > 0 {
                        Some(
                            d.push(
                                spec_bin(
                                    spec_bin(pc.pre[j], u32_ast(lo as u32), BinOp::Ge),
                                    spec_bin(pc.pre[j], u32_ast(hi as u32), BinOp::Lt),
                                    BinOp::LogicalAnd,
                                ),
                            ),
                        )
                    } else {
                        Some(d)
                    }
                }
            },
            None => None,
        }
    }
}

/// `d[0] && d[1] && ...`, grouped from the left.
pub open spec fn and_all(d: Seq<SpecAST>) -> SpecAST
    decreases d.len(),
{
    if d.len() <= 1 {
        d[0]
    } else {
        spec_bin(and_all(d.drop_last()), d.last(), BinOp::LogicalAnd)
    }
}

/// `inner` guarded by the pad check `pc`: `select(zero, inner, in_bounds)`,
/// or `inner` itself where no axis is padded.
pub open spec fn pad_wrap(pc: SpecPadCheck, inner: SpecAST, zero: SpecAST) -> Option<SpecAST> {
    match dim_checks(pc, pc.pre.len()) {
        Some(d) => if d.len() == 0 {
            Some(inner)
        } else {
            Some(
                SpecAST::FunctionCall { ident: "select"@, args: seq![zero, inner, and_all(d)] },
            )
        },
        None => None,
    }
}

/// `loaded` guarded by every check in `checks`, the first check outermost.
pub open spec fn spec_pad_bounds(loaded: SpecAST, checks: Seq<SpecPadCheck>, zero: SpecAST) -> Option<
    SpecAST,
>
    decreases checks.len(),
{
    if checks.len() == 0 {
        Some(loaded)
    } else {
        match spec_pad_bounds(loaded, checks.drop_first(), zero) {
            Some(inner) => pad_wrap(checks[0], inner, zero),
            None => None,
        }
    }
}

/// The value a padded position reads is the zero of the element type: a
/// one-component constant of that type (of `u32` where the element is not a
/// scalar) whose bytes are all zero, which is `0.0` for `f32`, `0` for the
/// integers and `false` for `bool`; four bytes for the 32-bit types, one for
/// `bool`.
#[verifier::spinoff_prover]
pub proof fn lemma_pad_zero_is_zero(dt: DType)
    ensures
        pad_zero(dt) matches SpecAST::Const { dt: zdt, data } && data.len() == 1 && (data[0] matches crate::asts::lowered::SpecConstPart::Const(
            b,
        ) && (forall|i: int| 0 <= i < b.len() ==> b[i] == 0u8) && b.len() == (if zdt == DType::Basic(BasicTy::Bool) {
            1nat
        } else {
            4nat
        })) && (if dt.spec_peel_all() is Basic {
            zdt == dt.spec_peel_all()
        } else {
            zdt == DType::Basic(BasicTy::Integer(IntegerTy::U32))
        }),
{
    assert(le_bytes(0) =~= seq![0u8, 0u8, 0u8, 0u8]);
}

/// Axis `j` of a pad check is padded and the coordinate's value lies within
/// the operand: from the leading amount up to it plus the operand's size.
pub open spec fn axis_in_bounds(pc: SpecPadCheck, j: int, leaf: spec_fn(SpecAST) -> nat) -> bool {
    (pc.amounts[j].0 > 0 || pc.amounts[j].1 > 0) ==> pc.amounts[j].0 <= eval_u32(pc.pre[j], leaf)
        < pc.amounts[j].0 + pc.inner_shape[j]
}

proof fn lemma_and_all_truth(d: Seq<SpecAST>, leaf: spec_fn(SpecAST) -> nat)
    requires
        d.len() > 0,
    ensures
        truth(and_all(d), leaf) <==> forall|i: int| 0 <= i < d.len() ==> #[trigger] truth(d[i], leaf),
    decreases d.len(),
{
    if d.len() > 1 {
        let dl = d.drop_last();
        lemma_and_all_truth(dl, leaf);
        assert(and_all(d) == spec_bin(and_all(dl), d.last(), BinOp::LogicalAnd));
        assert(truth(and_all(d), leaf) == (truth(and_all(dl), leaf) && truth(d.last(), leaf)));
        if truth(and_all(d), leaf) {
            assert forall|i: int| 0 <= i < d.len() implies #[trigger] truth(d[i], leaf) by {
                if i < d.len() - 1 {
                    assert(dl[i] == d[i]);
                    assert(truth(dl[i], leaf));
                }
            }
        }
        if forall|i: int| 0 <= i < d.len() ==> #[trigger] truth(d[i], leaf) {
            assert forall|i: int| 0 <= i < dl.len() implies #[trigger] truth(dl[i], leaf) by {
                assert(dl[i] == d[i]);
                assert(truth(d[i], leaf));
            }
            assert(truth(d[d.len() - 1], leaf));
        }
    }
}

proof fn lemma_dim_checks_truth(pc: SpecPadCheck, k: nat, leaf: spec_fn(SpecAST) -> nat)
    requires
        dim_checks(pc, k) is Some,
        forall|j: int| 0 <= j < k ==> #[trigger] pc.amounts[j].0 < 0x1_0000_0000 && pc.inner_shape[j] < 0x1_0000_0000,
    ensures
        (forall|i: int| 0 <= i < dim_checks(pc, k).unwrap().len() ==> #[trigger] truth(dim_checks(pc, k).unwrap()[i], leaf))
            <==> (forall|j: int| 0 <= j < k ==> #[trigger] axis_in_bounds(pc, j, leaf)),
    decreases k,
{
    if k > 0 {
        let p = (k - 1) as nat;
        lemma_dim_checks_truth(pc, p, leaf);
        let d = dim_checks(pc, p).unwrap();
        let dk = dim_checks(pc, k).unwrap();
        let j = p as int;
        let lo = pc.amounts[j].0;
        let size = pc.inner_shape[j];
        assert(pc.amounts[j].0 < 0x1_0000_0000 && pc.inner_shape[j] < 0x1_0000_0000);
        vstd::arithmetic::div_mod::lemma_small_mod(lo as nat, 0x1_0000_0000);
        vstd::arithmetic::div_mod::lemma_small_mod(size as nat, 0x1_0000_0000);
        if lo > 0 || pc.amounts[j].1 > 0 {
            let lo_n: nat = (pc.amounts[j].0 as nat) % 0x1_0000_0000;
            let hi_n: nat = lo_n + (pc.inner_shape[j] as nat) % 0x1_0000_0000;
            assert(lo_n == lo && hi_n == lo + size);
            assert(hi_n <= u32::MAX);
            lemma_u32_ast_value(lo_n as u32, leaf);
            lemma_u32_ast_value(hi_n as u32, leaf);
            assert((lo_n as u32) as nat == lo_n);
            assert((hi_n as u32) as nat == hi_n);
            let ge = spec_bin(pc.pre[j], u32_ast(lo_n as u32), BinOp::Ge);
            let lt = spec_bin(pc.pre[j], u32_ast(hi_n as u32), BinOp::Lt);
            let chk = spec_bin(ge, lt, BinOp::LogicalAnd);
            assert(truth(ge, leaf) == (eval_u32(pc.pre[j], leaf) >= eval_u32(u32_ast(lo_n as u32), leaf)));
            assert(truth(lt, leaf) == (eval_u32(pc.pre[j], leaf) < eval_u32(u32_ast(hi_n as u32), leaf)));
            assert(truth(chk, leaf) == (truth(ge, leaf) && truth(lt, leaf)));
            assert(dk == d.push(chk));
            let n = d.len() as int;
            assert(dk.len() == n + 1);
            assert(dk[n] == chk);
            assert(truth(chk, leaf) == (eval_u32(pc.pre[j], leaf) >= lo_n && eval_u32(pc.pre[j], leaf) < hi_n));
            assert(truth(dk[n], leaf) <==> axis_in_bounds(pc, j, leaf));
            assert forall|i: int| 0 <= i < n implies dk[i] == d[i] by {}
            if forall|i: int| 0 <= i < dk.len() ==> #[trigger] truth(dk[i], leaf) {
                assert forall|i: int| 0 <= i < d.len() implies #[trigger] truth(d[i], leaf) by {
                    assert(dk[i] == d[i]);
                    assert(truth(dk[i], leaf));
                }
                assert(truth(dk[n], leaf));
                assert forall|jj: int| 0 <= jj < k implies #[trigger] axis_in_bounds(pc, jj, leaf) by {
                    if jj < j {
                        assert(axis_in_bounds(pc, jj, leaf));
                    }
                }
            }
            if forall|jj: int| 0 <= jj < k ==> #[trigger] axis_in_bounds(pc, jj, leaf) {
                assert forall|jj: int| 0 <= jj < p implies #[trigger] axis_in_bounds(pc, jj, leaf) by {
                    assert(axis_in_bounds(pc, jj, leaf));
                }
                assert(axis_in_bounds(pc, j, leaf));
                assert forall|i: int| 0 <= i < dk.len() implies #[trigger] truth(dk[i], leaf) by {
                    if i < n {
                        assert(dk[i] == d[i]);
                        assert(truth(d[i], leaf));
                    }
                }
            }
        } else {
            assert(axis_in_bounds(pc, j, leaf));
            assert(dk == d);
            if forall|jj: int| 0 <= jj < p ==> #[trigger] axis_in_bounds(pc, jj, leaf) {
                assert forall|jj: int| 0 <= jj < k implies #[trigger] axis_in_bounds(pc, jj, leaf) by {
                    if jj < j {
                        assert(axis_in_bounds(pc, jj, leaf));
                    }
                }
            }
            if forall|jj: int| 0 <= jj < k ==> #[trigger] axis_in_bounds(pc, jj, leaf) {
                assert forall|jj: int| 0 <= jj < p implies #[trigger] axis_in_bounds(pc, jj, leaf) by {
                    assert(axis_in_bounds(pc, jj, leaf));
                }
            }
        }
    }
}

/// What a pad check reads: where every padded axis's coordinate lies
/// within the operand it reads the operand's value, and elsewhere the zero
/// it was given.
#[verifier::spinoff_prover]
pub proof fn lemma_pad_wrap_value(pc: SpecPadCheck, inner: SpecAST, zero: SpecAST, leaf: spec_fn(SpecAST) -> nat)
    requires
        pad_wrap(pc, inner, zero) is Some,
        forall|j: int|
            0 <= j < pc.pre.len() ==> #[trigger] pc.amounts[j].0 < 0x1_0000_0000 && pc.inner_shape[j]
                < 0x1_0000_0000,
    ensures
        eval_u32(pad_wrap(pc, inner, zero).unwrap(), leaf) == if forall|j: int|
            0 <= j < pc.pre.len() ==> #[trigger] axis_in_bounds(pc, j, leaf) {
            eval_u32(inner, leaf)
        } else {
            eval_u32(zero, leaf)
        },
{
    let d = dim_checks(pc, pc.pre.len()).unwrap();
    lemma_dim_checks_truth(pc, pc.pre.len(), leaf);
    if d.len() > 0 {
        lemma_and_all_truth(d, leaf);
        let args = seq![zero, inner, and_all(d)];
        assert(args[0] == zero && args[1] == inner && args[2] == and_all(d));
    }
}

fn pad_zero_exec(dt: &DType) -> (r: LoweredAST)
    ensures
        r@ == pad_zero(*dt),
{
    match dt.peel_all() {
        DType::Basic(BasicTy::F32) => LoweredAST::from_f32_bits(0),
        DType::Basic(BasicTy::Integer(IntegerTy::I32)) => LoweredAST::from_i32(0),
        DType::Basic(BasicTy::Integer(IntegerTy::U32)) => LoweredAST::from_u32(0),
        DType::Basic(BasicTy::Bool) => LoweredAST::from_bool(false),
        _ => LoweredAST::from_u32(0),
    }
}

fn in_bounds_checks(pc: &PadCheck) -> (r: Option<Vec<LoweredAST>>)
    ensures
        dim_checks(pc@, pc@.pre.len()) == match r {
            Some(v) => Some(ast_views(v@)),
            None => None,
        },
{
    let ghost p = pc@;
    let mut checks: Vec<LoweredAST> = Vec::new();
    let n = pc.pre_subtract_coords.len();
    let mut j: usize = 0;
    while j < n
        invariant
            p == pc@,
            n == p.pre.len(),
            j <= n,
            dim_checks(p, j as nat) == Some(ast_views(checks@)),
        decreases n - j,
    {
        if j >= pc.amounts.len() || j >= pc.inner_shape.len() {
            proof {
                lemma_dim_checks_none(p, (j + 1) as nat, n as nat);
            }
            return None;
        }
        let a = pc.amounts[j];
        let lo: u32 = #[verifier::truncate] (a.0 as u32);
        let sz: u32 = #[verifier::truncate] (pc.inner_shape[j] as u32);
        proof {
            let x = a.0;
            let y = pc.inner_shape@[j as int];
            assert((lo as u64) == (x as u64) % 0x1_0000_0000u64) by (bit_vector)
                requires
                    lo == x as u32,
            ;
            assert((sz as u64) == (y as u64) % 0x1_0000_0000u64) by (bit_vector)
                requires
                    sz == y as u32,
            ;
        }
        let hi = match lo.checked_add(sz) {
            Some(h) => h,
            None => {
                proof {
                    lemma_dim_checks_none(p, (j + 1) as nat, n as nat);
                }
                return None;
            },
        };
        let ghost prev = ast_views(checks@);
        if lo > 0 || a.1 > 0 {
            let c = &pc.pre_subtract_coords[j];
            let in_dim = clone_ast(c).ge(LoweredAST::from_u32(lo)).logical_and(
                clone_ast(c).lt(LoweredAST::from_u32(hi)),
            );
            checks.push(in_dim);
            proof {
                assert(ast_views(checks@) =~= prev.push(checks@.last()@));
            }
        }
        j = j + 1;
    }
    Some(checks)
}

proof fn lemma_dim_checks_none(pc: SpecPadCheck, k: nat, n: nat)
    requires
        1 <= k <= n,
        n <= pc.pre.len(),
        dim_checks(pc, k) is None,
    ensures
        dim_checks(pc, n) is None,
    decreases n - k,
{
    if k < n {
        lemma_dim_checks_none(pc, k + 1, n);
    }
}

fn and_all_exec(d: &Vec<LoweredAST>) -> (r: LoweredAST)
    requires
        d@.len() >= 1,
    ensures
        r@ == and_all(ast_views(d@)),
{
    let ghost all = ast_views(d@);
    let n = d.len();
    let mut acc = clone_ast(&d[0]);
    proof {
        assert(all.take(1) =~= seq![acc@]);
    }
    let mut k: usize = 1;
    while k < n
        invariant
            n == d@.len(),
            all == ast_views(d@),
            1 <= k <= n,
            acc@ == and_all(all.take(k as int)),
        decreases n - k,
    {
        let x = clone_ast(&d[k]);
        proof {
            assert(all.take((k + 1) as int).drop_last() =~= all.take(k as int));
            assert(all.take((k + 1) as int).last() == x@);
        }
        acc = acc.logical_and(x);
        k = k + 1;
    }
    proof {
        assert(all.take(n as int) =~= all);
    }
    acc
}

fn wrap_one(pc: &PadCheck, inner: LoweredAST, zero: &LoweredAST) -> (r: Option<LoweredAST>)
    ensures
        pad_wrap(pc@, inner@, zero@) == opt_ast(r),
{
    let d = match in_bounds_checks(pc) {
        Some(d) => d,
        None => {
            return None;
        },
    };
    if d.len() > 0 {
        let in_bounds = and_all_exec(&d);
        let mut args: Vec<LoweredAST> = Vec::new();
        args.push(clone_ast(zero));
        args.push(inner);
        args.push(in_bounds);
        proof {
            assert(args@ =~= seq![args@[0], args@[1], args@[2]]);
            crate::asts::lowered::lemma_asts_view_small(args@[0], args@[1], args@[2]);
        }
        Some(call("select", args))
    } else {
        Some(inner)
    }
}

/// Guards `loaded` by the pad checks: each check whose axes are padded
/// wraps the value in `select(zero, value, in_bounds)`, the last check
/// innermost. `None` where a check cannot be built.
fn wrap_from(checks: &Vec<PadCheck>, i: usize, loaded: LoweredAST, zero: &LoweredAST) -> (r: Option<
    LoweredAST,
>)
    requires
        i <= checks@.len(),
    ensures
        spec_pad_bounds(
            loaded@,
            pad_check_views(checks@).subrange(i as int, checks@.len() as int),
            zero@,
        ) == opt_ast(r),
    decreases checks@.len() - i,
{
    let ghost all = pad_check_views(checks@);
    if i == checks.len() {
        proof {
            assert(all.subrange(i as int, i as int) =~= Seq::<SpecPadCheck>::empty());
        }
        return Some(loaded);
    }
    proof {
        lemma_pad_step(loaded@, all, zero@, i as nat);
        assert(all[i as int] == checks@[i as int]@);
    }
    match wrap_from(checks, i + 1, loaded, zero) {
        Some(inner) => wrap_one(&checks[i], inner, zero),
        None => None,
    }
}

/// Guards `loaded` by the pad checks: each check whose axes are padded
/// wraps the value in `select(zero, value, in_bounds)`, the last check
/// innermost. `None` where a check cannot be built.
pub fn try_pad_bounds_check(loaded: LoweredAST, pad_checks: Vec<PadCheck>, base_dt: &DType) -> (r: Option<
    LoweredAST,
>)
    ensures
        spec_pad_bounds(loaded@, pad_check_views(pad_checks@), pad_zero(*base_dt)) == opt_ast(r),
{
    let zero = pad_zero_exec(base_dt);
    proof {
        let all = pad_check_views(pad_checks@);
        assert(all.subrange(0, all.len() as int) =~= all);
    }
    wrap_from(&pad_checks, 0, loaded, &zero)
}

proof fn lemma_pad_step(loaded: SpecAST, checks: Seq<SpecPadCheck>, zero: SpecAST, i: nat)
    requires
        i < checks.len(),
    ensures
        spec_pad_bounds(loaded, checks.subrange(i as int, checks.len() as int), zero) == match spec_pad_bounds(
            loaded,
            checks.subrange(i + 1 as int, checks.len() as int),
            zero,
        ) {
            Some(inner) => pad_wrap(checks[i as int], inner, zero),
            None => None,
        },
{
    let tail = checks.subrange(i as int, checks.len() as int);
    assert(tail.drop_first() =~= checks.subrange(i + 1 as int, checks.len() as int));
    assert(tail[0] == checks[i as int]);
}

/// Guards `loaded` by the pad checks: each check whose axes are padded
/// wraps the value in `select(zero, value, in_bounds)`, the last check
/// innermost.
pub fn pad_bounds_check(
    loaded: LoweredAST,
    pad_checks: Vec<PadCheck>,
    base_dt: &DType,
    _scope: &mut Scope,
) -> (r: LoweredAST)
    requires
        spec_pad_bounds(loaded@, pad_check_views(pad_checks@), pad_zero(*base_dt)) is Some,
    ensures
        spec_pad_bounds(loaded@, pad_check_views(pad_checks@), pad_zero(*base_dt)) == Some(r@),
        *final(_scope) == *old(_scope),
{
    try_pad_bounds_check(loaded, pad_checks, base_dt).unwrap()
}

/// Every value `leaf` gives is a `u32`.
pub open spec fn leaf_bounded(leaf: spec_fn(SpecAST) -> nat) -> bool {
    forall|a: SpecAST| #[trigger] leaf(a) < 0x1_0000_0000
}

/// The values of a list of coordinate expressions.
pub open spec fn values(c: Seq<SpecAST>, leaf: spec_fn(SpecAST) -> nat) -> Seq<nat> {
    c.map_values(|a: SpecAST| eval_u32(a, leaf))
}

/// `sum of v[i] * stride(i)` over the first `k` values.
pub open spec fn wsum_values(v: Seq<nat>, shape: Seq<usize>, k: nat) -> int
    decreases k,
{
    if k == 0 {
        0
    } else {
        wsum_values(v, shape, (k - 1) as nat) + v[k - 1] * (stride_of(shape, (k - 1) as nat).unwrap() as nat)
    }
}

/// The row-major linear index of the coordinate values `v` in `shape`,
/// modulo 2^32: with no values `0`, with no shape the first value.
pub open spec fn linear_value(v: Seq<nat>, shape: Seq<usize>) -> nat {
    if v.len() == 0 {
        0
    } else if shape.len() == 0 {
        v[0]
    } else {
        (wsum_values(v, shape, v.len()) % 0x1_0000_0000) as nat
    }
}

/// The coordinates in `in_shape` (from axis `j` on) of the linear index `rem`.
pub open spec fn split_values(rem: nat, in_shape: Seq<usize>, j: nat) -> Seq<nat>
    decreases in_shape.len() - j,
{
    if j + 1 >= in_shape.len() {
        seq![rem]
    } else {
        let st = stride_of(in_shape, j).unwrap() as nat;
        seq![rem / st] + split_values(rem % st, in_shape, j + 1)
    }
}

/// What one movement does to the values of a coordinate: the operand's
/// coordinate values that output coordinate values `v` read from.
pub open spec fn step_values(v: Seq<nat>, op: SpecMovOp, in_shape: Seq<usize>, out_shape: Seq<usize>) -> Seq<nat> {
    let m: nat = 0x1_0000_0000;
    match op {
        SpecMovOp::Reshape(_) => {
            let l = linear_value(v, out_shape);
            if in_shape.len() == 0 {
                seq![l]
            } else {
                split_values(l, in_shape, 0)
            }
        },
        SpecMovOp::Expand(_) => {
            let off = v.len() - in_shape.len();
            Seq::new(in_shape.len(), |k: int| if in_shape[k] == 1 { 0nat } else { v[off + k] })
        },
        SpecMovOp::Permute(perm) => {
            let inv = perm_inverse(perm, perm.len());
            Seq::new(perm.len(), |k: int| v[inv[k] as int])
        },
        SpecMovOp::Pad(amounts) => Seq::new(
            v.len(),
            |j: int| (((v[j] + m) - (amounts[j].0 as nat % m)) as nat % m) as nat,
        ),
        SpecMovOp::Shrink(amounts) => Seq::new(v.len(), |j: int| ((v[j] + amounts[j].0 as nat % m) % m) as nat),
        SpecMovOp::Flip(axis) => if axis >= v.len() {
            v
        } else {
            v.update(axis as int, ((((out_shape[axis as int] - 1) as nat % m) + m - v[axis as int]) as nat % m) as nat)
        },
    }
}

/// The values after the first `k` movements of a chain.
pub open spec fn chain_values(v: Seq<nat>, chain: Seq<SpecMovOp>, shapes: Seq<Seq<usize>>, k: nat) -> Seq<nat>
    decreases k,
{
    if k == 0 {
        v
    } else {
        step_values(chain_values(v, chain, shapes, (k - 1) as nat), chain[k - 1], shapes[k as int], shapes[k - 1])
    }
}

/// Every stride of the first `n` axes of `shape` is defined and positive.
pub open spec fn strides_positive(shape: Seq<usize>, n: int) -> bool {
    forall|i: nat| i < n ==> #[trigger] stride_of(shape, i) is Some && stride_of(shape, i).unwrap() > 0
}

/// A reshape step whose strides are all positive, on both sides.
pub open spec fn reshape_strides_ok(op: SpecMovOp, in_shape: Seq<usize>, out_shape: Seq<usize>, n: nat) -> bool {
    op is Reshape ==> strides_positive(out_shape, n as int) && strides_positive(in_shape, in_shape.len() - 1)
}

/// Every value of an expression is a `u32` where every leaf value is.
pub proof fn lemma_eval_bounded(a: SpecAST, leaf: spec_fn(SpecAST) -> nat)
    requires
        leaf_bounded(leaf),
    ensures
        eval_u32(a, leaf) < 0x1_0000_0000,
    decreases a,
{
    assert(leaf(a) < 0x1_0000_0000);
    match a {
        SpecAST::BinaryOp { lhs, rhs, op } => {
            lemma_eval_bounded(*lhs, leaf);
            lemma_eval_bounded(*rhs, leaf);
            if op == BinOp::Div && eval_u32(*rhs, leaf) > 0 {
                vstd::arithmetic::div_mod::lemma_div_is_ordered_by_denominator(
                    eval_u32(*lhs, leaf) as int,
                    1,
                    eval_u32(*rhs, leaf) as int,
                );
            }
        },
        SpecAST::FunctionCall { ident, args } => {
            if ident == "max"@ && args.len() == 2 {
                lemma_eval_bounded(args[0], leaf);
                lemma_eval_bounded(args[1], leaf);
            } else if ident == "select"@ && args.len() == 3 {
                lemma_eval_bounded(args[0], leaf);
                lemma_eval_bounded(args[1], leaf);
            }
        },
        SpecAST::Const { dt, data } => {
            if dt == DType::Basic(BasicTy::Integer(IntegerTy::U32)) && data.len() == 1 && data[0] is Const
                && data[0]->Const_0.len() == 4 {
                let b = data[0]->Const_0;
                assert((b[0] as nat) + 256 * (b[1] as nat) + 65536 * (b[2] as nat) + 16777216 * (b[3] as nat)
                    < 0x1_0000_0000) by (nonlinear_arith)
                    requires
                        b[0] < 256,
                        b[1] < 256,
                        b[2] < 256,
                        b[3] < 256,
                ;
            }
        },
        _ => {},
    }
}

proof fn lemma_values_wsum(coords: Seq<SpecAST>, shape: Seq<usize>, k: nat, leaf: spec_fn(SpecAST) -> nat)
    requires
        k <= coords.len(),
    ensures
        weighted_sum(coords, shape, k, leaf) == wsum_values(values(coords, leaf), shape, k),
    decreases k,
{
    if k > 0 {
        lemma_values_wsum(coords, shape, (k - 1) as nat, leaf);
    }
}

proof fn lemma_split_values(rem: SpecAST, in_shape: Seq<usize>, j: nat, leaf: spec_fn(SpecAST) -> nat)
    requires
        split_from(rem, in_shape, j) is Some,
        strides_positive(in_shape, in_shape.len() - 1),
    ensures
        values(split_from(rem, in_shape, j).unwrap(), leaf) == split_values(eval_u32(rem, leaf), in_shape, j),
    decreases in_shape.len() - j,
{
    if j + 1 >= in_shape.len() {
        assert(values(seq![rem], leaf) =~= seq![eval_u32(rem, leaf)]);
    } else {
        let st = stride_of(in_shape, j).unwrap();
        assert(st > 0);
        lemma_u32_ast_value(st, leaf);
        let r2 = spec_bin(rem, u32_ast(st), BinOp::Rem);
        let q = spec_bin(rem, u32_ast(st), BinOp::Div);
        lemma_split_values(r2, in_shape, j + 1, leaf);
        let rest = split_from(r2, in_shape, j + 1).unwrap();
        assert(values(seq![q] + rest, leaf) =~= seq![eval_u32(q, leaf)] + values(rest, leaf));
    }
}

/// Each movement maps coordinate values as `step_values` says: the
/// expressions it emits evaluate to the operand coordinates that the
/// values of the output coordinates read from.
pub proof fn lemma_chain_step_values(
    c: Seq<SpecAST>,
    op: SpecMovOp,
    in_shape: Seq<usize>,
    out_shape: Seq<usize>,
    leaf: spec_fn(SpecAST) -> nat,
)
    requires
        chain_step(c, op, in_shape, out_shape) is Some,
        leaf_bounded(leaf),
        reshape_strides_ok(op, in_shape, out_shape, c.len()),
    ensures
        values(chain_step(c, op, in_shape, out_shape).unwrap().0, leaf) == step_values(
            values(c, leaf),
            op,
            in_shape,
            out_shape,
        ),
{
    let v = values(c, leaf);
    let next = chain_step(c, op, in_shape, out_shape).unwrap().0;
    let m: nat = 0x1_0000_0000;
    assert forall|j: int| 0 <= j < c.len() implies #[trigger] v[j] < m by {
        lemma_eval_bounded(c[j], leaf);
    }
    match op {
        SpecMovOp::Reshape(_) => {
            let linear = spec_coord_linearize(c, out_shape).unwrap();
            if c.len() == 0 {
                lemma_u32_ast_value(0, leaf);
            } else if out_shape.len() > 0 {
                lemma_linearize_value(c, out_shape, leaf);
                lemma_values_wsum(c, out_shape, c.len(), leaf);
            }
            assert(eval_u32(linear, leaf) == linear_value(v, out_shape));
            if in_shape.len() == 0 {
                assert(values(seq![linear], leaf) =~= seq![eval_u32(linear, leaf)]);
            } else {
                lemma_split_values(linear, in_shape, 0, leaf);
            }
        },
        SpecMovOp::Expand(_) => {
            lemma_u32_ast_value(0, leaf);
            assert(values(next, leaf) =~= step_values(v, op, in_shape, out_shape));
        },
        SpecMovOp::Permute(_) => {
            assert(values(next, leaf) =~= step_values(v, op, in_shape, out_shape));
        },
        SpecMovOp::Pad(amounts) => {
            assert forall|j: int| 0 <= j < c.len() implies #[trigger] values(next, leaf)[j] == step_values(
                v,
                op,
                in_shape,
                out_shape,
            )[j] by {
                lemma_u32_ast_value(((amounts[j].0 as nat) % m) as u32, leaf);
            }
            assert(values(next, leaf) =~= step_values(v, op, in_shape, out_shape));
        },
        SpecMovOp::Shrink(amounts) => {
            assert forall|j: int| 0 <= j < c.len() implies #[trigger] values(next, leaf)[j] == step_values(
                v,
                op,
                in_shape,
                out_shape,
            )[j] by {
                lemma_u32_ast_value(((amounts[j].0 as nat) % m) as u32, leaf);
            }
            assert(values(next, leaf) =~= step_values(v, op, in_shape, out_shape));
        },
        SpecMovOp::Flip(axis) => {
            if axis < c.len() {
                lemma_u32_ast_value(((out_shape[axis as int] - 1) % 0x1_0000_0000) as u32, leaf);
            }
            assert(values(next, leaf) =~= step_values(v, op, in_shape, out_shape));
        },
    }
}

/// A whole chain of movements maps coordinate values as `chain_values`
/// says, step after step.
pub proof fn lemma_chain_values(
    c: Seq<SpecAST>,
    chain: Seq<SpecMovOp>,
    shapes: Seq<Seq<usize>>,
    k: nat,
    leaf: spec_fn(SpecAST) -> nat,
)
    requires
        spec_apply_chain(c, chain, shapes, k) is Some,
        leaf_bounded(leaf),
        forall|i: int|
            0 <= i < k ==> #[trigger] reshape_strides_ok(
                chain[i],
                shapes[i + 1],
                shapes[i],
                spec_apply_chain(c, chain, shapes, i as nat).unwrap().0.len(),
            ),
    ensures
        values(spec_apply_chain(c, chain, shapes, k).unwrap().0, leaf) == chain_values(
            values(c, leaf),
            chain,
            shapes,
            k,
        ),
    decreases k,
{
    if k > 0 {
        let p = (k - 1) as nat;
        lemma_apply_chain_prefix_some(c, chain, shapes, p, k);
        lemma_chain_values(c, chain, shapes, p, leaf);
        let cur = spec_apply_chain(c, chain, shapes, p).unwrap().0;
        assert(reshape_strides_ok(chain[p as int], shapes[p as int + 1], shapes[p as int], cur.len()));
        lemma_chain_step_values(cur, chain[p as int], shapes[k as int], shapes[p as int], leaf);
    }
}

proof fn lemma_apply_chain_prefix_some(c: Seq<SpecAST>, chain: Seq<SpecMovOp>, shapes: Seq<Seq<usize>>, k: nat, n: nat)
    requires
        k <= n,
        spec_apply_chain(c, chain, shapes, n) is Some,
    ensures
        spec_apply_chain(c, chain, shapes, k) is Some,
    decreases n - k,
{
    if k < n {
        lemma_apply_chain_prefix_some(c, chain, shapes, k + 1, n);
    }
}

} // verus!
