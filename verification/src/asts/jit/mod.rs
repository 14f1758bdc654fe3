pub mod movement;
pub mod ops;
pub mod measure;
pub mod pattern;
pub mod rewrite;
pub mod rules;
pub mod runner;
pub mod lower_spec;
pub mod lower_total;
pub mod lowering;
pub mod shape;
pub mod simplify;


use vstd::prelude::*;

use crate::asts::lowered::{
    BinOp, LoweredAST, SpecAST, UnaryOp, clone_ast, clone_bytes, le_bytes, u32_le_bytes,
};
use crate::dt::{BasicTy, DType, IntegerTy};

verus! {

/// A movement (view) operation on a tensor.
#[derive(Debug)]
pub enum MovOp {
    Reshape(Vec<usize>),
    Expand(Vec<usize>),
    Permute(Vec<usize>),
    Pad(Vec<(usize, usize)>),
    Shrink(Vec<(usize, usize)>),
    Flip(usize),
}

/// Reductions.
#[derive(Debug, PartialEq, Eq, Structural)]
pub enum ReduceOp {
    Sum,
    Prod,
    Max,
}

/// Binary operations of the tensor language.
#[derive(Debug, PartialEq, Eq, Structural)]
pub enum JitBinOp {
    Basic(BinOp),
    Cdiv,
    Max,
    Cmod,
    Fdiv,
    Pow,
    Floordiv,
    Floormod,
    Threefry,
}

/// Unary operations of the tensor language.
#[derive(Debug, PartialEq, Eq, Structural)]
pub enum JitUnaryOp {
    Basic(UnaryOp),
    Exp2,
    Log2,
    Sin,
    Sqrt,
    Reciprocal,
    Trunc,
    Bitcast,
}

/// Ternary operations: `where(a, b, c)` selects, `mulacc(a, b, c)` is `a * b + c`.
#[derive(Debug, PartialEq, Eq, Structural)]
pub enum TernaryOp {
    Where,
    Mulacc,
}

/// A component of a constant: a tensor expression or raw little-endian bytes.
#[derive(Debug)]
pub enum JitASTOrConst {
    AST(JitAST),
    Const(Vec<u8>),
}

/// A constant of type `dt` made of components.
#[derive(Debug)]
pub struct AstConst {
    pub dt: DType,
    pub data: Vec<JitASTOrConst>,
}

/// A tensor expression. A variable is an input buffer, known by its id, its
/// size in bytes and its element type.
#[derive(Debug)]
pub enum JitAST {
    Var { id: usize, size: u64, dtype: DType },
    Lowered { expr: LoweredAST, dt: DType },
    Const(AstConst),
    BinOp { lhs: Box<JitAST>, rhs: Box<JitAST>, op: JitBinOp },
    UnaryOp { operand: Box<JitAST>, op: JitUnaryOp },
    Cast { operand: Box<JitAST>, dt: DType },
    Ternary { a: Box<JitAST>, b: Box<JitAST>, c: Box<JitAST>, op: TernaryOp },
    Movement { operand: Box<JitAST>, op: MovOp },
    Reduce { operand: Box<JitAST>, axis: usize, op: ReduceOp },
    AllReduce { operand: Box<JitAST>, op: ReduceOp },
}

/// Mathematical model of a [`MovOp`].
pub enum SpecMovOp {
    Reshape(Seq<usize>),
    Expand(Seq<usize>),
    Permute(Seq<usize>),
    Pad(Seq<(usize, usize)>),
    Shrink(Seq<(usize, usize)>),
    Flip(usize),
}

/// Mathematical model of a [`JitASTOrConst`].
pub enum SpecJitPart {
    AST(SpecJit),
    Const(Seq<u8>),
}

/// Mathematical model of a [`JitAST`].
pub enum SpecJit {
    Var { id: usize, size: u64, dtype: DType },
    Lowered { expr: SpecAST, dt: DType },
    Const { dt: DType, data: Seq<SpecJitPart> },
    BinOp { lhs: Box<SpecJit>, rhs: Box<SpecJit>, op: JitBinOp },
    UnaryOp { operand: Box<SpecJit>, op: JitUnaryOp },
    Cast { operand: Box<SpecJit>, dt: DType },
    Ternary { a: Box<SpecJit>, b: Box<SpecJit>, c: Box<SpecJit>, op: TernaryOp },
    Movement { operand: Box<SpecJit>, op: SpecMovOp },
    Reduce { operand: Box<SpecJit>, axis: usize, op: ReduceOp },
    AllReduce { operand: Box<SpecJit>, op: ReduceOp },
}

impl View for MovOp {
    type V = SpecMovOp;

    open spec fn view(&self) -> SpecMovOp {
        match *self {
            MovOp::Reshape(v) => SpecMovOp::Reshape(v@),
            MovOp::Expand(v) => SpecMovOp::Expand(v@),
            MovOp::Permute(v) => SpecMovOp::Permute(v@),
            MovOp::Pad(v) => SpecMovOp::Pad(v@),
            MovOp::Shrink(v) => SpecMovOp::Shrink(v@),
            MovOp::Flip(a) => SpecMovOp::Flip(a),
        }
    }
}

pub open spec fn jit_part_view(c: JitASTOrConst) -> SpecJitPart
    decreases c,
{
    match c {
        JitASTOrConst::AST(a) => SpecJitPart::AST(jit_view(a)),
        JitASTOrConst::Const(b) => SpecJitPart::Const(b@),
    }
}

pub open spec fn jit_parts_view(s: Seq<JitASTOrConst>) -> Seq<SpecJitPart>
    decreases s,
{
    if s.len() == 0 {
        Seq::empty()
    } else {
        jit_parts_view(s.drop_last()).push(jit_part_view(s.last()))
    }
}

pub open spec fn jit_view(a: JitAST) -> SpecJit
    decreases a,
{
    match a {
        JitAST::Var { id, size, dtype } => SpecJit::Var { id, size, dtype },
        JitAST::Lowered { expr, dt } => SpecJit::Lowered { expr: expr@, dt },
        JitAST::Const(c) => SpecJit::Const { dt: c.dt, data: jit_parts_view(c.data@) },
        JitAST::BinOp { lhs, rhs, op } => SpecJit::BinOp {
            lhs: Box::new(jit_view(*lhs)),
            rhs: Box::new(jit_view(*rhs)),
            op,
        },
        JitAST::UnaryOp { operand, op } => SpecJit::UnaryOp {
            operand: Box::new(jit_view(*operand)),
            op,
        },
        JitAST::Cast { operand, dt } => SpecJit::Cast { operand: Box::new(jit_view(*operand)), dt },
        JitAST::Ternary { a, b, c, op } => SpecJit::Ternary {
            a: Box::new(jit_view(*a)),
            b: Box::new(jit_view(*b)),
            c: Box::new(jit_view(*c)),
            op,
        },
        JitAST::Movement { operand, op } => SpecJit::Movement {
            operand: Box::new(jit_view(*operand)),
            op: op@,
        },
        JitAST::Reduce { operand, axis, op } => SpecJit::Reduce {
            operand: Box::new(jit_view(*operand)),
            axis,
            op,
        },
        JitAST::AllReduce { operand, op } => SpecJit::AllReduce {
            operand: Box::new(jit_view(*operand)),
            op,
        },
    }
}

impl View for JitAST {
    type V = SpecJit;

    open spec fn view(&self) -> SpecJit {
        jit_view(*self)
    }
}

impl View for JitASTOrConst {
    type V = SpecJitPart;

    open spec fn view(&self) -> SpecJitPart {
        jit_part_view(*self)
    }
}

impl Clone for ReduceOp {
    fn clone(&self) -> (r: Self)
        ensures
            r == *self,
    {
        match self {
            ReduceOp::Sum => ReduceOp::Sum,
            ReduceOp::Prod => ReduceOp::Prod,
            ReduceOp::Max => ReduceOp::Max,
        }
    }
}

impl Clone for TernaryOp {
    fn clone(&self) -> (r: Self)
        ensures
            r == *self,
    {
        match self {
            TernaryOp::Where => TernaryOp::Where,
            TernaryOp::Mulacc => TernaryOp::Mulacc,
        }
    }
}

impl Clone for JitBinOp {
    fn clone(&self) -> (r: Self)
        ensures
            r == *self,
    {
        match self {
            JitBinOp::Basic(b) => JitBinOp::Basic(b.clone()),
            JitBinOp::Cdiv => JitBinOp::Cdiv,
            JitBinOp::Max => JitBinOp::Max,
            JitBinOp::Cmod => JitBinOp::Cmod,
            JitBinOp::Fdiv => JitBinOp::Fdiv,
            JitBinOp::Pow => JitBinOp::Pow,
            JitBinOp::Floordiv => JitBinOp::Floordiv,
            JitBinOp::Floormod => JitBinOp::Floormod,
            JitBinOp::Threefry => JitBinOp::Threefry,
        }
    }
}

impl Clone for JitUnaryOp {
    fn clone(&self) -> (r: Self)
        ensures
            r == *self,
    {
        match self {
            JitUnaryOp::Basic(u) => JitUnaryOp::Basic(u.clone()),
            JitUnaryOp::Exp2 => JitUnaryOp::Exp2,
            JitUnaryOp::Log2 => JitUnaryOp::Log2,
            JitUnaryOp::Sin => JitUnaryOp::Sin,
            JitUnaryOp::Sqrt => JitUnaryOp::Sqrt,
            JitUnaryOp::Reciprocal => JitUnaryOp::Reciprocal,
            JitUnaryOp::Trunc => JitUnaryOp::Trunc,
            JitUnaryOp::Bitcast => JitUnaryOp::Bitcast,
        }
    }
}

/// Copies a vector of `usize`.
pub fn clone_usizes(v: &Vec<usize>) -> (r: Vec<usize>)
    ensures
        r@ == v@,
{
    let mut out: Vec<usize> = Vec::new();
    let n = v.len();
    let mut i: usize = 0;
    while i < n
        invariant
            n == v@.len(),
            i <= n,
            out@ == v@.take(i as int),
        decreases n - i,
    {
        out.push(v[i]);
        proof {
            assert(v@.take(i + 1) =~= v@.take(i as int).push(v@[i as int]));
        }
        i = i + 1;
    }
    proof {
        assert(v@.take(n as int) =~= v@);
    }
    out
}

/// Copies a vector of pairs of `usize`.
pub fn clone_pairs(v: &Vec<(usize, usize)>) -> (r: Vec<(usize, usize)>)
    ensures
        r@ == v@,
{
    let mut out: Vec<(usize, usize)> = Vec::new();
    let n = v.len();
    let mut i: usize = 0;
    while i < n
        invariant
            n == v@.len(),
            i <= n,
            out@ == v@.take(i as int),
        decreases n - i,
    {
        out.push(v[i]);
        proof {
            assert(v@.take(i + 1) =~= v@.take(i as int).push(v@[i as int]));
        }
        i = i + 1;
    }
    proof {
        assert(v@.take(n as int) =~= v@);
    }
    out
}

impl Clone for MovOp {
    fn clone(&self) -> (r: Self)
        ensures
            r@ == self@,
    {
        match self {
            MovOp::Reshape(v) => MovOp::Reshape(clone_usizes(v)),
            MovOp::Expand(v) => MovOp::Expand(clone_usizes(v)),
            MovOp::Permute(v) => MovOp::Permute(clone_usizes(v)),
            MovOp::Pad(v) => MovOp::Pad(clone_pairs(v)),
            MovOp::Shrink(v) => MovOp::Shrink(clone_pairs(v)),
            MovOp::Flip(a) => MovOp::Flip(*a),
        }
    }
}

fn usizes_eq(a: &Vec<usize>, b: &Vec<usize>) -> (r: bool)
    ensures
        r == (a@ == b@),
{
    if a.len() != b.len() {
        return false;
    }
    let n = a.len();
    let mut i: usize = 0;
    while i < n
        invariant
            n == a@.len(),
            n == b@.len(),
            i <= n,
            forall|k: int| 0 <= k < i ==> a@[k] == b@[k],
        decreases n - i,
    {
        if a[i] != b[i] {
            return false;
        }
        i = i + 1;
    }
    proof {
        assert(a@ =~= b@);
    }
    true
}

fn pairs_eq(a: &Vec<(usize, usize)>, b: &Vec<(usize, usize)>) -> (r: bool)
    ensures
        r == (a@ == b@),
{
    if a.len() != b.len() {
        return false;
    }
    let n = a.len();
    let mut i: usize = 0;
    while i < n
        invariant
            n == a@.len(),
            n == b@.len(),
            i <= n,
            forall|k: int| 0 <= k < i ==> a@[k] == b@[k],
        decreases n - i,
    {
        if a[i].0 != b[i].0 || a[i].1 != b[i].1 {
            return false;
        }
        i = i + 1;
    }
    proof {
        assert(a@ =~= b@);
    }
    true
}

impl MovOp {
    /// Whether two movement operations are the same.
    pub fn same(&self, other: &MovOp) -> (r: bool)
        ensures
            r == (self@ == other@),
    {
        match (self, other) {
            (MovOp::Reshape(a), MovOp::Reshape(b)) => usizes_eq(a, b),
            (MovOp::Expand(a), MovOp::Expand(b)) => usizes_eq(a, b),
            (MovOp::Permute(a), MovOp::Permute(b)) => usizes_eq(a, b),
            (MovOp::Pad(a), MovOp::Pad(b)) => pairs_eq(a, b),
            (MovOp::Shrink(a), MovOp::Shrink(b)) => pairs_eq(a, b),
            (MovOp::Flip(a), MovOp::Flip(b)) => *a == *b,
            _ => false,
        }
    }
}

impl JitBinOp {
    pub fn same(&self, other: &JitBinOp) -> (r: bool)
        ensures
            r == (*self == *other),
    {
        match (self, other) {
            (JitBinOp::Basic(a), JitBinOp::Basic(b)) => crate::asts::lowered::binop_eq(a, b),
            (JitBinOp::Cdiv, JitBinOp::Cdiv) => true,
            (JitBinOp::Max, JitBinOp::Max) => true,
            (JitBinOp::Cmod, JitBinOp::Cmod) => true,
            (JitBinOp::Fdiv, JitBinOp::Fdiv) => true,
            (JitBinOp::Pow, JitBinOp::Pow) => true,
            (JitBinOp::Floordiv, JitBinOp::Floordiv) => true,
            (JitBinOp::Floormod, JitBinOp::Floormod) => true,
            (JitBinOp::Threefry, JitBinOp::Threefry) => true,
            _ => false,
        }
    }
}

impl JitUnaryOp {
    pub fn same(&self, other: &JitUnaryOp) -> (r: bool)
        ensures
            r == (*self == *other),
    {
        match (self, other) {
            (JitUnaryOp::Basic(a), JitUnaryOp::Basic(b)) => crate::asts::lowered::unop_eq(a, b),
            (JitUnaryOp::Exp2, JitUnaryOp::Exp2) => true,
            (JitUnaryOp::Log2, JitUnaryOp::Log2) => true,
            (JitUnaryOp::Sin, JitUnaryOp::Sin) => true,
            (JitUnaryOp::Sqrt, JitUnaryOp::Sqrt) => true,
            (JitUnaryOp::Reciprocal, JitUnaryOp::Reciprocal) => true,
            (JitUnaryOp::Trunc, JitUnaryOp::Trunc) => true,
            (JitUnaryOp::Bitcast, JitUnaryOp::Bitcast) => true,
            _ => false,
        }
    }
}

impl TernaryOp {
    pub fn same(&self, other: &TernaryOp) -> (r: bool)
        ensures
            r == (*self == *other),
    {
        match (self, other) {
            (TernaryOp::Where, TernaryOp::Where) => true,
            (TernaryOp::Mulacc, TernaryOp::Mulacc) => true,
            _ => false,
        }
    }
}

impl ReduceOp {
    pub fn same(&self, other: &ReduceOp) -> (r: bool)
        ensures
            r == (*self == *other),
    {
        match (self, other) {
            (ReduceOp::Sum, ReduceOp::Sum) => true,
            (ReduceOp::Prod, ReduceOp::Prod) => true,
            (ReduceOp::Max, ReduceOp::Max) => true,
            _ => false,
        }
    }
}

/// The view of a list of components, element by element.
pub proof fn lemma_jit_parts_view(s: Seq<JitASTOrConst>)
    ensures
        jit_parts_view(s).len() == s.len(),
        forall|i: int| 0 <= i < s.len() ==> #[trigger] jit_parts_view(s)[i] == s[i]@,
    decreases s.len(),
{
    if s.len() > 0 {
        lemma_jit_parts_view(s.drop_last());
    }
}

/// A scalar constant expression of type `dt` made of the bytes `b`.
pub open spec fn const_jit(dt: DType, b: Seq<u8>) -> SpecJit {
    SpecJit::Const { dt, data: seq![SpecJitPart::Const(b)] }
}

proof fn lemma_jit_parts_single(c: JitASTOrConst)
    ensures
        jit_parts_view(seq![c]) == seq![c@],
{
    assert(seq![c].drop_last() =~= Seq::<JitASTOrConst>::empty());
    assert(jit_parts_view(Seq::<JitASTOrConst>::empty()) =~= Seq::<SpecJitPart>::empty());
    assert(seq![c].last() == c);
    assert(jit_parts_view(seq![c]) =~= seq![c@]);
}

impl JitAST {
    /// A scalar constant of type `dt` made of the bytes `b`.
    pub fn scalar(dt: DType, b: Vec<u8>) -> (r: JitAST)
        ensures
            r@ == const_jit(dt, b@),
    {
        let mut data: Vec<JitASTOrConst> = Vec::new();
        data.push(JitASTOrConst::Const(b));
        proof {
            assert(data@ =~= seq![data@[0]]);
            lemma_jit_parts_single(data@[0]);
        }
        JitAST::Const(AstConst { dt, data })
    }

    /// The constant `v: u32`.
    pub fn from_u32(v: u32) -> (r: JitAST)
        ensures
            r@ == const_jit(DType::Basic(BasicTy::Integer(IntegerTy::U32)), le_bytes(v)),
    {
        JitAST::scalar(DType::Basic(BasicTy::Integer(IntegerTy::U32)), u32_le_bytes(v))
    }

    /// The constant `v: i32`.
    pub fn from_i32(v: i32) -> (r: JitAST)
        ensures
            r@ == const_jit(
                DType::Basic(BasicTy::Integer(IntegerTy::I32)),
                le_bytes(#[verifier::truncate] (v as u32)),
            ),
    {
        let u: u32 = #[verifier::truncate] (v as u32);
        JitAST::scalar(DType::Basic(BasicTy::Integer(IntegerTy::I32)), u32_le_bytes(u))
    }

    /// The `f32` constant with the given bits.
    pub fn from_f32_bits(bits: u32) -> (r: JitAST)
        ensures
            r@ == const_jit(DType::Basic(BasicTy::F32), le_bytes(bits)),
    {
        JitAST::scalar(DType::Basic(BasicTy::F32), u32_le_bytes(bits))
    }

    /// The constant `v: bool`.
    pub fn from_bool(v: bool) -> (r: JitAST)
        ensures
            r@ == const_jit(DType::Basic(BasicTy::Bool), seq![if v { 1u8 } else { 0u8 }]),
    {
        let mut b: Vec<u8> = Vec::new();
        b.push(if v { 1 } else { 0 });
        proof {
            assert(b@ =~= seq![if v { 1u8 } else { 0u8 }]);
        }
        JitAST::scalar(DType::Basic(BasicTy::Bool), b)
    }
}

/// Copies a constant component.
pub fn clone_jit_part(c: &JitASTOrConst) -> (r: JitASTOrConst)
    ensures
        r@ == c@,
    decreases c,
{
    match c {
        JitASTOrConst::AST(a) => JitASTOrConst::AST(clone_jit(a)),
        JitASTOrConst::Const(b) => JitASTOrConst::Const(clone_bytes(b)),
    }
}

fn clone_jit_parts(v: &Vec<JitASTOrConst>) -> (r: Vec<JitASTOrConst>)
    ensures
        jit_parts_view(r@) == jit_parts_view(v@),
    decreases v,
{
    let mut out: Vec<JitASTOrConst> = Vec::new();
    let n = v.len();
    let mut i: usize = 0;
    while i < n
        invariant
            n == v@.len(),
            i <= n,
            jit_parts_view(out@) == jit_parts_view(v@.take(i as int)),
        decreases n - i,
    {
        proof {
            vstd::std_specs::vec::axiom_vec_index_decreases(*v, i as int);
        }
        let c = clone_jit_part(&v[i]);
        let ghost prev = out@;
        out.push(c);
        proof {
            assert(out@.drop_last() =~= prev);
            assert(v@.take((i + 1) as int).drop_last() =~= v@.take(i as int));
        }
        i = i + 1;
    }
    proof {
        assert(v@.take(n as int) =~= v@);
    }
    out
}

/// Copies a tensor expression.
pub fn clone_jit(a: &JitAST) -> (r: JitAST)
    ensures
        r@ == a@,
    decreases a,
{
    match a {
        JitAST::Var { id, size, dtype } => JitAST::Var { id: *id, size: *size, dtype: dtype.clone() },
        JitAST::Lowered { expr, dt } => JitAST::Lowered { expr: clone_ast(expr), dt: dt.clone() },
        JitAST::Const(c) => JitAST::Const(AstConst { dt: c.dt.clone(), data: clone_jit_parts(&c.data) }),
        JitAST::BinOp { lhs, rhs, op } => JitAST::BinOp {
            lhs: Box::new(clone_jit(lhs)),
            rhs: Box::new(clone_jit(rhs)),
            op: op.clone(),
        },
        JitAST::UnaryOp { operand, op } => JitAST::UnaryOp {
            operand: Box::new(clone_jit(operand)),
            op: op.clone(),
        },
        JitAST::Cast { operand, dt } => JitAST::Cast {
            operand: Box::new(clone_jit(operand)),
            dt: dt.clone(),
        },
        JitAST::Ternary { a, b, c, op } => JitAST::Ternary {
            a: Box::new(clone_jit(a)),
            b: Box::new(clone_jit(b)),
            c: Box::new(clone_jit(c)),
            op: op.clone(),
        },
        JitAST::Movement { operand, op } => JitAST::Movement {
            operand: Box::new(clone_jit(operand)),
            op: op.clone(),
        },
        JitAST::Reduce { operand, axis, op } => JitAST::Reduce {
            operand: Box::new(clone_jit(operand)),
            axis: *axis,
            op: op.clone(),
        },
        JitAST::AllReduce { operand, op } => JitAST::AllReduce {
            operand: Box::new(clone_jit(operand)),
            op: op.clone(),
        },
    }
}

impl Clone for JitAST {
    fn clone(&self) -> (r: Self)
        ensures
            r@ == self@,
    {
        clone_jit(self)
    }
}

} // verus!
