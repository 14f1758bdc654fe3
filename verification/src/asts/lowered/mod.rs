pub mod layout;
pub mod ops;
pub mod render_spec;
pub mod renderer;
pub mod scope;
pub mod typing;

use core::marker::PhantomData;

use vstd::prelude::*;

pub use scope::Scope;

use crate::dt::{BasicTy, BasicTyOrStructRef, DType, IntegerTy};

verus! {

/// How a buffer is bound to a shader.
#[derive(Debug)]
pub enum CustomBufferBindingType {
    Uniform,
    Storage { read_only: bool },
}

/// A buffer bound to a shader: its WGSL name, binding kind and data type.
#[derive(Debug)]
pub struct BindingMeta {
    pub ident: String,
    pub ty: CustomBufferBindingType,
    pub dtype: DType,
}

/// A handle on the buffer bound at binding slot `N`, holding values of type `T`.
#[derive(Debug)]
pub struct BindedBuffer<T, const N: usize>(pub PhantomData<T>);

/// A handle on the workgroup-shared variable with index `id`.
#[derive(Debug)]
pub struct SharedData<T> {
    pub id: usize,
    pub _phantom: PhantomData<T>,
}

impl<T> SharedData<T> {
    pub fn new(id: usize) -> (r: Self)
        ensures
            r.id == id,
    {
        Self { id, _phantom: PhantomData }
    }

    /// A reference to the whole shared variable.
    pub fn var_ref(&self) -> (r: VarRefType)
        ensures
            r is Shared,
            r->Shared_0.id == self.id,
            r->Shared_0.by@.len() == 0,
    {
        VarRefType::Shared(VarRef { id: self.id, by: Vec::new() })
    }
}

impl<T, const N: usize> BindedBuffer<T, N> {
    /// A reference to the whole buffer at binding slot `N`.
    pub fn var_ref(&self) -> (r: VarRefType)
        ensures
            r is Global,
            r->Global_0.id == N,
            r->Global_0.by@.len() == 0,
    {
        VarRefType::Global(VarRef { id: N, by: Vec::new() })
    }
}

/// A function of the shader. `args` are in declaration order.
pub struct Functions {
    pub args: Vec<(String, DType)>,
    pub ret: Option<BasicTyOrStructRef>,
    pub ident: String,
    pub entrypoint_ty: Option<EntrypointData>,
    pub body: Scope,
}

/// Built-in values available to an entry point.
#[derive(Debug)]
pub enum EntrypointGlobals {
    GlobalInvocationId,
    LocalInvocationId,
}

/// The kind of entry point a function is.
#[derive(Debug)]
pub enum EntrypointData {
    Compute { workgroup_sz: usize },
    Shader,
}

/// A WGSL struct definition: its name and its fields in declaration order.
#[derive(Debug, PartialEq)]
pub struct Struct {
    pub name: String,
    pub inner: Vec<(String, DType)>,
}

/// The whole shader: struct definitions, bound buffers, shared and private
/// variables, entry point built-ins and functions.
pub struct ShaderIR {
    pub structs: Vec<Struct>,
    pub binded: Vec<BindingMeta>,
    pub shared_vars: Vec<(String, DType)>,
    pub private_vars: Vec<(String, DType)>,
    pub entrypoint_globals: Vec<EntrypointGlobals>,
    pub functions: Vec<Functions>,
}

/// Binary operators of the lowered language.
#[derive(Debug, PartialEq, Eq, Structural)]
pub enum BinOp {
    Add,
    Mul,
    Sub,
    Div,
    Rem,
    BitwiseAnd,
    BitwiseOr,
    BitwiseXor,
    Shr,
    Shl,
    LogicalAnd,
    Eq,
    Ne,
    Gt,
    Lt,
    Ge,
    Le,
}

/// Unary operators of the lowered language.
#[derive(Debug, PartialEq, Eq, Structural)]
pub enum UnaryOp {
    BitwiseNot,
    LogicalNot,
    Neg,
}

/// A variable together with the chain of accessors applied to it.
#[derive(Debug)]
pub struct VarRef {
    pub id: usize,
    pub by: Vec<Accessor>,
}

/// An index (`[e]`) or field (`.name`) access.
#[derive(Debug)]
pub enum Accessor {
    Index(Box<LoweredAST>),
    Field(String),
}

/// Where a referenced variable lives.
#[derive(Debug)]
pub enum VarRefType {
    Local(VarRef),
    Global(VarRef),
    EntryPointGlobal(VarRef),
    Shared(VarRef),
}

/// An index into the child scopes of the current scope.
#[derive(Debug, PartialEq, Eq, Structural)]
pub struct ScopePtr(pub usize);

/// A component of a constant: a computed expression or raw little-endian bytes.
#[derive(Debug)]
pub enum LoweredASTOrConst {
    LoweredAST(LoweredAST),
    Const(Vec<u8>),
}

/// The lowered syntax tree, close to WGSL.
#[derive(Debug)]
pub enum LoweredAST {
    Store { var: VarRefType, val: Box<LoweredAST> },
    Load(VarRefType),
    BinaryOp { lhs: Box<LoweredAST>, rhs: Box<LoweredAST>, op: BinOp },
    Group(Vec<LoweredAST>),
    UnaryOp { operand: Box<LoweredAST>, op: UnaryOp },
    Conditional { cond: Box<LoweredAST>, true_block: ScopePtr, else_block: Option<ScopePtr> },
    ForLoop {
        init: Option<Box<LoweredAST>>,
        halt_cond: Option<Box<LoweredAST>>,
        increment: Option<Box<LoweredAST>>,
        body: ScopePtr,
    },
    WhileLoop { cond: Box<LoweredAST>, body: ScopePtr },
    Const { dt: DType, data: Vec<LoweredASTOrConst> },
    FunctionCall { ident: String, args: Vec<Box<LoweredAST>> },
    Continue,
    Break,
    Return,
}


/// Mathematical model of an [`Accessor`].
pub enum SpecAccessor {
    Index(Box<SpecAST>),
    Field(Seq<char>),
}

/// Mathematical model of a [`VarRef`].
pub struct SpecVarRef {
    pub id: usize,
    pub by: Seq<SpecAccessor>,
}

/// Mathematical model of a [`VarRefType`].
pub enum SpecVarRefType {
    Local(SpecVarRef),
    Global(SpecVarRef),
    EntryPointGlobal(SpecVarRef),
    Shared(SpecVarRef),
}

/// Mathematical model of a [`LoweredASTOrConst`].
pub enum SpecConstPart {
    AST(SpecAST),
    Const(Seq<u8>),
}

/// Mathematical model of a [`LoweredAST`]: the same tree, with sequences in
/// place of vectors and character sequences in place of strings.
pub enum SpecAST {
    Store { var: SpecVarRefType, val: Box<SpecAST> },
    Load(SpecVarRefType),
    BinaryOp { lhs: Box<SpecAST>, rhs: Box<SpecAST>, op: BinOp },
    Group(Seq<SpecAST>),
    UnaryOp { operand: Box<SpecAST>, op: UnaryOp },
    Conditional { cond: Box<SpecAST>, true_block: usize, else_block: Option<usize> },
    ForLoop {
        init: Option<Box<SpecAST>>,
        halt_cond: Option<Box<SpecAST>>,
        increment: Option<Box<SpecAST>>,
        body: usize,
    },
    WhileLoop { cond: Box<SpecAST>, body: usize },
    Const { dt: DType, data: Seq<SpecConstPart> },
    FunctionCall { ident: Seq<char>, args: Seq<SpecAST> },
    Continue,
    Break,
    Return,
}

pub open spec fn accessor_view(a: Accessor) -> SpecAccessor
    decreases a,
{
    match a {
        Accessor::Index(e) => SpecAccessor::Index(Box::new(ast_view(*e))),
        Accessor::Field(s) => SpecAccessor::Field(s@),
    }
}

pub open spec fn accessors_view(s: Seq<Accessor>) -> Seq<SpecAccessor>
    decreases s,
{
    if s.len() == 0 {
        Seq::empty()
    } else {
        accessors_view(s.drop_last()).push(accessor_view(s.last()))
    }
}

pub open spec fn var_ref_view(v: VarRef) -> SpecVarRef
    decreases v,
{
    SpecVarRef { id: v.id, by: accessors_view(v.by@) }
}

pub open spec fn var_ref_type_view(v: VarRefType) -> SpecVarRefType
    decreases v,
{
    match v {
        VarRefType::Local(r) => SpecVarRefType::Local(var_ref_view(r)),
        VarRefType::Global(r) => SpecVarRefType::Global(var_ref_view(r)),
        VarRefType::EntryPointGlobal(r) => SpecVarRefType::EntryPointGlobal(var_ref_view(r)),
        VarRefType::Shared(r) => SpecVarRefType::Shared(var_ref_view(r)),
    }
}

pub open spec fn const_part_view(c: LoweredASTOrConst) -> SpecConstPart
    decreases c,
{
    match c {
        LoweredASTOrConst::LoweredAST(a) => SpecConstPart::AST(ast_view(a)),
        LoweredASTOrConst::Const(b) => SpecConstPart::Const(b@),
    }
}

pub open spec fn const_parts_view(s: Seq<LoweredASTOrConst>) -> Seq<SpecConstPart>
    decreases s,
{
    if s.len() == 0 {
        Seq::empty()
    } else {
        const_parts_view(s.drop_last()).push(const_part_view(s.last()))
    }
}

pub open spec fn asts_view(s: Seq<LoweredAST>) -> Seq<SpecAST>
    decreases s,
{
    if s.len() == 0 {
        Seq::empty()
    } else {
        asts_view(s.drop_last()).push(ast_view(s.last()))
    }
}

pub open spec fn boxed_asts_view(s: Seq<Box<LoweredAST>>) -> Seq<SpecAST>
    decreases s,
{
    if s.len() == 0 {
        Seq::empty()
    } else {
        boxed_asts_view(s.drop_last()).push(ast_view(*s.last()))
    }
}

pub open spec fn opt_ast_view(o: Option<Box<LoweredAST>>) -> Option<Box<SpecAST>>
    decreases o,
{
    match o {
        Some(b) => Some(Box::new(ast_view(*b))),
        None => None,
    }
}

pub open spec fn ast_view(a: LoweredAST) -> SpecAST
    decreases a,
{
    match a {
        LoweredAST::Store { var, val } => SpecAST::Store {
            var: var_ref_type_view(var),
            val: Box::new(ast_view(*val)),
        },
        LoweredAST::Load(v) => SpecAST::Load(var_ref_type_view(v)),
        LoweredAST::BinaryOp { lhs, rhs, op } => SpecAST::BinaryOp {
            lhs: Box::new(ast_view(*lhs)),
            rhs: Box::new(ast_view(*rhs)),
            op,
        },
        LoweredAST::Group(v) => SpecAST::Group(asts_view(v@)),
        LoweredAST::UnaryOp { operand, op } => SpecAST::UnaryOp {
            operand: Box::new(ast_view(*operand)),
            op,
        },
        LoweredAST::Conditional { cond, true_block, else_block } => SpecAST::Conditional {
            cond: Box::new(ast_view(*cond)),
            true_block: true_block.0,
            else_block: match else_block {
                Some(p) => Some(p.0),
                None => None,
            },
        },
        LoweredAST::ForLoop { init, halt_cond, increment, body } => SpecAST::ForLoop {
            init: opt_ast_view(init),
            halt_cond: opt_ast_view(halt_cond),
            increment: opt_ast_view(increment),
            body: body.0,
        },
        LoweredAST::WhileLoop { cond, body } => SpecAST::WhileLoop {
            cond: Box::new(ast_view(*cond)),
            body: body.0,
        },
        LoweredAST::Const { dt, data } => SpecAST::Const { dt, data: const_parts_view(data@) },
        LoweredAST::FunctionCall { ident, args } => SpecAST::FunctionCall {
            ident: ident@,
            args: boxed_asts_view(args@),
        },
        LoweredAST::Continue => SpecAST::Continue,
        LoweredAST::Break => SpecAST::Break,
        LoweredAST::Return => SpecAST::Return,
    }
}

impl View for LoweredAST {
    type V = SpecAST;

    open spec fn view(&self) -> SpecAST {
        ast_view(*self)
    }
}

impl View for VarRefType {
    type V = SpecVarRefType;

    open spec fn view(&self) -> SpecVarRefType {
        var_ref_type_view(*self)
    }
}

impl View for VarRef {
    type V = SpecVarRef;

    open spec fn view(&self) -> SpecVarRef {
        var_ref_view(*self)
    }
}

impl View for Accessor {
    type V = SpecAccessor;

    open spec fn view(&self) -> SpecAccessor {
        accessor_view(*self)
    }
}

impl View for LoweredASTOrConst {
    type V = SpecConstPart;

    open spec fn view(&self) -> SpecConstPart {
        const_part_view(*self)
    }
}


/// Copies an accessor.
pub fn clone_accessor(a: &Accessor) -> (r: Accessor)
    ensures
        r@ == a@,
    decreases a,
{
    match a {
        Accessor::Index(e) => Accessor::Index(Box::new(clone_ast(e))),
        Accessor::Field(s) => Accessor::Field(s.clone()),
    }
}

fn clone_accessors(v: &Vec<Accessor>) -> (r: Vec<Accessor>)
    ensures
        accessors_view(r@) == accessors_view(v@),
    decreases v,
{
    let mut out: Vec<Accessor> = Vec::new();
    let n = v.len();
    let mut i: usize = 0;
    while i < n
        invariant
            n == v@.len(),
            i <= n,
            accessors_view(out@) == accessors_view(v@.take(i as int)),
        decreases n - i,
    {
        proof {
            vstd::std_specs::vec::axiom_vec_index_decreases(*v, i as int);
        }
        let c = clone_accessor(&v[i]);
        let ghost prev = out@;
        out.push(c);
        proof {
            assert(out@.drop_last() =~= prev);
            assert(v@.take(i + 1).drop_last() =~= v@.take(i as int));
        }
        i = i + 1;
    }
    proof {
        assert(v@.take(n as int) =~= v@);
    }
    out
}

/// Copies a variable reference.
pub fn clone_var_ref(v: &VarRef) -> (r: VarRef)
    ensures
        r@ == v@,
    decreases v,
{
    VarRef { id: v.id, by: clone_accessors(&v.by) }
}

/// Copies a reference of any kind.
pub fn clone_var_ref_type(v: &VarRefType) -> (r: VarRefType)
    ensures
        r@ == v@,
    decreases v,
{
    match v {
        VarRefType::Local(x) => VarRefType::Local(clone_var_ref(x)),
        VarRefType::Global(x) => VarRefType::Global(clone_var_ref(x)),
        VarRefType::EntryPointGlobal(x) => VarRefType::EntryPointGlobal(clone_var_ref(x)),
        VarRefType::Shared(x) => VarRefType::Shared(clone_var_ref(x)),
    }
}

/// Copies a byte vector.
pub fn clone_bytes(b: &Vec<u8>) -> (r: Vec<u8>)
    ensures
        r@ == b@,
{
    let mut out: Vec<u8> = Vec::new();
    let n = b.len();
    let mut i: usize = 0;
    while i < n
        invariant
            n == b@.len(),
            i <= n,
            out@ == b@.take(i as int),
        decreases n - i,
    {
        out.push(b[i]);
        proof {
            assert(b@.take(i + 1) =~= b@.take(i as int).push(b@[i as int]));
        }
        i = i + 1;
    }
    proof {
        assert(b@.take(n as int) =~= b@);
    }
    out
}

/// Copies a constant component.
pub fn clone_const_part(c: &LoweredASTOrConst) -> (r: LoweredASTOrConst)
    ensures
        r@ == c@,
    decreases c,
{
    match c {
        LoweredASTOrConst::LoweredAST(a) => LoweredASTOrConst::LoweredAST(clone_ast(a)),
        LoweredASTOrConst::Const(b) => LoweredASTOrConst::Const(clone_bytes(b)),
    }
}

fn clone_const_parts(v: &Vec<LoweredASTOrConst>) -> (r: Vec<LoweredASTOrConst>)
    ensures
        const_parts_view(r@) == const_parts_view(v@),
    decreases v,
{
    let mut out: Vec<LoweredASTOrConst> = Vec::new();
    let n = v.len();
    let mut i: usize = 0;
    while i < n
        invariant
            n == v@.len(),
            i <= n,
            const_parts_view(out@) == const_parts_view(v@.take(i as int)),
        decreases n - i,
    {
        proof {
            vstd::std_specs::vec::axiom_vec_index_decreases(*v, i as int);
        }
        let c = clone_const_part(&v[i]);
        let ghost prev = out@;
        out.push(c);
        proof {
            assert(out@.drop_last() =~= prev);
            assert(v@.take(i + 1).drop_last() =~= v@.take(i as int));
        }
        i = i + 1;
    }
    proof {
        assert(v@.take(n as int) =~= v@);
    }
    out
}

fn clone_asts(v: &Vec<LoweredAST>) -> (r: Vec<LoweredAST>)
    ensures
        asts_view(r@) == asts_view(v@),
    decreases v,
{
    let mut out: Vec<LoweredAST> = Vec::new();
    let n = v.len();
    let mut i: usize = 0;
    while i < n
        invariant
            n == v@.len(),
            i <= n,
            asts_view(out@) == asts_view(v@.take(i as int)),
        decreases n - i,
    {
        proof {
            vstd::std_specs::vec::axiom_vec_index_decreases(*v, i as int);
        }
        let c = clone_ast(&v[i]);
        let ghost prev = out@;
        out.push(c);
        proof {
            assert(out@.drop_last() =~= prev);
            assert(v@.take(i + 1).drop_last() =~= v@.take(i as int));
        }
        i = i + 1;
    }
    proof {
        assert(v@.take(n as int) =~= v@);
    }
    out
}

fn clone_boxed_asts(v: &Vec<Box<LoweredAST>>) -> (r: Vec<Box<LoweredAST>>)
    ensures
        boxed_asts_view(r@) == boxed_asts_view(v@),
    decreases v,
{
    let mut out: Vec<Box<LoweredAST>> = Vec::new();
    let n = v.len();
    let mut i: usize = 0;
    while i < n
        invariant
            n == v@.len(),
            i <= n,
            boxed_asts_view(out@) == boxed_asts_view(v@.take(i as int)),
        decreases n - i,
    {
        proof {
            vstd::std_specs::vec::axiom_vec_index_decreases(*v, i as int);
        }
        let c = clone_ast(&v[i]);
        let ghost prev = out@;
        out.push(Box::new(c));
        proof {
            assert(out@.drop_last() =~= prev);
            assert(v@.take(i + 1).drop_last() =~= v@.take(i as int));
        }
        i = i + 1;
    }
    proof {
        assert(v@.take(n as int) =~= v@);
    }
    out
}

fn clone_opt_ast(o: &Option<Box<LoweredAST>>) -> (r: Option<Box<LoweredAST>>)
    ensures
        opt_ast_view(r) == opt_ast_view(*o),
    decreases o,
{
    match o {
        Some(b) => Some(Box::new(clone_ast(b))),
        None => None,
    }
}

/// Copies a syntax tree.
pub fn clone_ast(a: &LoweredAST) -> (r: LoweredAST)
    ensures
        r@ == a@,
    decreases a,
{
    match a {
        LoweredAST::Store { var, val } => LoweredAST::Store {
            var: clone_var_ref_type(var),
            val: Box::new(clone_ast(val)),
        },
        LoweredAST::Load(v) => LoweredAST::Load(clone_var_ref_type(v)),
        LoweredAST::BinaryOp { lhs, rhs, op } => LoweredAST::BinaryOp {
            lhs: Box::new(clone_ast(lhs)),
            rhs: Box::new(clone_ast(rhs)),
            op: op.clone(),
        },
        LoweredAST::Group(v) => LoweredAST::Group(clone_asts(v)),
        LoweredAST::UnaryOp { operand, op } => LoweredAST::UnaryOp {
            operand: Box::new(clone_ast(operand)),
            op: op.clone(),
        },
        LoweredAST::Conditional { cond, true_block, else_block } => LoweredAST::Conditional {
            cond: Box::new(clone_ast(cond)),
            true_block: ScopePtr(true_block.0),
            else_block: match else_block {
                Some(p) => Some(ScopePtr(p.0)),
                None => None,
            },
        },
        LoweredAST::ForLoop { init, halt_cond, increment, body } => LoweredAST::ForLoop {
            init: clone_opt_ast(init),
            halt_cond: clone_opt_ast(halt_cond),
            increment: clone_opt_ast(increment),
            body: ScopePtr(body.0),
        },
        LoweredAST::WhileLoop { cond, body } => LoweredAST::WhileLoop {
            cond: Box::new(clone_ast(cond)),
            body: ScopePtr(body.0),
        },
        LoweredAST::Const { dt, data } => LoweredAST::Const {
            dt: dt.clone(),
            data: clone_const_parts(data),
        },
        LoweredAST::FunctionCall { ident, args } => LoweredAST::FunctionCall {
            ident: ident.clone(),
            args: clone_boxed_asts(args),
        },
        LoweredAST::Continue => LoweredAST::Continue,
        LoweredAST::Break => LoweredAST::Break,
        LoweredAST::Return => LoweredAST::Return,
    }
}

/// Whether two binary operators are the same.
pub fn binop_eq(a: &BinOp, b: &BinOp) -> (r: bool)
    ensures
        r == (*a == *b),
{
    match (a, b) {
        (BinOp::Add, BinOp::Add) => true,
        (BinOp::Mul, BinOp::Mul) => true,
        (BinOp::Sub, BinOp::Sub) => true,
        (BinOp::Div, BinOp::Div) => true,
        (BinOp::Rem, BinOp::Rem) => true,
        (BinOp::BitwiseAnd, BinOp::BitwiseAnd) => true,
        (BinOp::BitwiseOr, BinOp::BitwiseOr) => true,
        (BinOp::BitwiseXor, BinOp::BitwiseXor) => true,
        (BinOp::Shr, BinOp::Shr) => true,
        (BinOp::Shl, BinOp::Shl) => true,
        (BinOp::LogicalAnd, BinOp::LogicalAnd) => true,
        (BinOp::Eq, BinOp::Eq) => true,
        (BinOp::Ne, BinOp::Ne) => true,
        (BinOp::Gt, BinOp::Gt) => true,
        (BinOp::Lt, BinOp::Lt) => true,
        (BinOp::Ge, BinOp::Ge) => true,
        (BinOp::Le, BinOp::Le) => true,
        _ => false,
    }
}

/// Whether two unary operators are the same.
pub fn unop_eq(a: &UnaryOp, b: &UnaryOp) -> (r: bool)
    ensures
        r == (*a == *b),
{
    match (a, b) {
        (UnaryOp::BitwiseNot, UnaryOp::BitwiseNot) => true,
        (UnaryOp::LogicalNot, UnaryOp::LogicalNot) => true,
        (UnaryOp::Neg, UnaryOp::Neg) => true,
        _ => false,
    }
}

impl Clone for BinOp {
    fn clone(&self) -> (r: Self)
        ensures
            r == *self,
    {
        match self {
            BinOp::Add => BinOp::Add,
            BinOp::Mul => BinOp::Mul,
            BinOp::Sub => BinOp::Sub,
            BinOp::Div => BinOp::Div,
            BinOp::Rem => BinOp::Rem,
            BinOp::BitwiseAnd => BinOp::BitwiseAnd,
            BinOp::BitwiseOr => BinOp::BitwiseOr,
            BinOp::BitwiseXor => BinOp::BitwiseXor,
            BinOp::Shr => BinOp::Shr,
            BinOp::Shl => BinOp::Shl,
            BinOp::LogicalAnd => BinOp::LogicalAnd,
            BinOp::Eq => BinOp::Eq,
            BinOp::Ne => BinOp::Ne,
            BinOp::Gt => BinOp::Gt,
            BinOp::Lt => BinOp::Lt,
            BinOp::Ge => BinOp::Ge,
            BinOp::Le => BinOp::Le,
        }
    }
}

impl Clone for UnaryOp {
    fn clone(&self) -> (r: Self)
        ensures
            r == *self,
    {
        match self {
            UnaryOp::BitwiseNot => UnaryOp::BitwiseNot,
            UnaryOp::LogicalNot => UnaryOp::LogicalNot,
            UnaryOp::Neg => UnaryOp::Neg,
        }
    }
}

impl Clone for LoweredAST {
    fn clone(&self) -> (r: Self)
        ensures
            r@ == self@,
    {
        clone_ast(self)
    }
}

impl Clone for VarRefType {
    fn clone(&self) -> (r: Self)
        ensures
            r@ == self@,
    {
        clone_var_ref_type(self)
    }
}


/// `v` with accessor `a` appended to its chain, keeping its kind.
pub open spec fn spec_with_accessor(v: SpecVarRefType, a: SpecAccessor) -> SpecVarRefType {
    match v {
        SpecVarRefType::Local(r) => SpecVarRefType::Local(SpecVarRef { id: r.id, by: r.by.push(a) }),
        SpecVarRefType::Global(r) => SpecVarRefType::Global(SpecVarRef { id: r.id, by: r.by.push(a) }),
        SpecVarRefType::EntryPointGlobal(r) => SpecVarRefType::EntryPointGlobal(
            SpecVarRef { id: r.id, by: r.by.push(a) },
        ),
        SpecVarRefType::Shared(r) => SpecVarRefType::Shared(SpecVarRef { id: r.id, by: r.by.push(a) }),
    }
}

/// `new` is `old` of the same kind and variable, with `a` appended to its
/// accessor chain.
pub open spec fn appended_accessor(old: VarRefType, new: VarRefType, a: Accessor) -> bool {
    match (old, new) {
        (VarRefType::Local(o), VarRefType::Local(n)) => n.id == o.id && n.by@ == o.by@.push(a),
        (VarRefType::Global(o), VarRefType::Global(n)) => n.id == o.id && n.by@ == o.by@.push(a),
        (VarRefType::EntryPointGlobal(o), VarRefType::EntryPointGlobal(n)) => n.id == o.id && n.by@
            == o.by@.push(a),
        (VarRefType::Shared(o), VarRefType::Shared(n)) => n.id == o.id && n.by@ == o.by@.push(a),
        _ => false,
    }
}

proof fn lemma_push_accessor(by: Seq<Accessor>, a: Accessor)
    ensures
        accessors_view(by.push(a)) == accessors_view(by).push(accessor_view(a)),
{
    assert(by.push(a).drop_last() =~= by);
}

fn push_accessor(v: VarRef, a: Accessor) -> (r: VarRef)
    ensures
        r.id == v.id,
        r.by@ == v.by@.push(a),
        r@ == (SpecVarRef { id: v@.id, by: v@.by.push(a@) }),
{
    let VarRef { id, mut by } = v;
    proof {
        lemma_push_accessor(by@, a);
    }
    by.push(a);
    VarRef { id, by }
}

impl VarRefType {
    fn with_accessor(self, a: Accessor) -> (r: Self)
        ensures
            appended_accessor(self, r, a),
            r@ == spec_with_accessor(self@, a@),
    {
        match self {
            VarRefType::Global(v) => VarRefType::Global(push_accessor(v, a)),
            VarRefType::Local(v) => VarRefType::Local(push_accessor(v, a)),
            VarRefType::Shared(v) => VarRefType::Shared(push_accessor(v, a)),
            VarRefType::EntryPointGlobal(v) => VarRefType::EntryPointGlobal(push_accessor(v, a)),
        }
    }

    /// Indexes the referenced variable: `var[idx]`.
    pub fn i(self, idx: LoweredAST) -> (r: Self)
        ensures
            r@ == spec_with_accessor(self@, SpecAccessor::Index(Box::new(idx@))),
            appended_accessor(self, r, Accessor::Index(Box::new(idx))),
    {
        self.with_accessor(Accessor::Index(Box::new(idx)))
    }

    /// Selects a field of the referenced variable: `var.name`.
    pub fn f(self, name: &str) -> (r: Self)
        ensures
            r@ == spec_with_accessor(self@, SpecAccessor::Field(name@)),
            exists|s: String| #[trigger] appended_accessor(self, r, Accessor::Field(s)) && s@ == name@,
    {
        let s = name.to_owned();
        let r = self.with_accessor(Accessor::Field(s));
        proof {
            assert(appended_accessor(self, r, Accessor::Field(s)));
        }
        r
    }

    /// Reads the referenced variable.
    pub fn load(self) -> (r: LoweredAST)
        ensures
            r@ == SpecAST::Load(self@),
            r == LoweredAST::Load(self),
    {
        LoweredAST::Load(self)
    }

    /// Writes `val` to the referenced variable.
    pub fn store(self, val: LoweredAST) -> (r: LoweredAST)
        ensures
            r@ == (SpecAST::Store { var: self@, val: Box::new(val@) }),
            r == (LoweredAST::Store { var: self, val: Box::new(val) }),
    {
        LoweredAST::Store { var: self, val: Box::new(val) }
    }
}

/// The binary operation `lhs op rhs`.
pub open spec fn spec_bin(lhs: SpecAST, rhs: SpecAST, op: BinOp) -> SpecAST {
    SpecAST::BinaryOp { lhs: Box::new(lhs), rhs: Box::new(rhs), op }
}

/// The unary operation `op operand`.
pub open spec fn spec_un(operand: SpecAST, op: UnaryOp) -> SpecAST {
    SpecAST::UnaryOp { operand: Box::new(operand), op }
}

impl LoweredAST {
    /// Builds `lhs op rhs`.
    pub fn binary(lhs: LoweredAST, rhs: LoweredAST, op: BinOp) -> (r: LoweredAST)
        ensures
            r@ == spec_bin(lhs@, rhs@, op),
            r == (LoweredAST::BinaryOp { lhs: Box::new(lhs), rhs: Box::new(rhs), op }),
    {
        LoweredAST::BinaryOp { lhs: Box::new(lhs), rhs: Box::new(rhs), op }
    }

    /// Builds `op operand`.
    pub fn unary(operand: LoweredAST, op: UnaryOp) -> (r: LoweredAST)
        ensures
            r@ == spec_un(operand@, op),
            r == (LoweredAST::UnaryOp { operand: Box::new(operand), op }),
    {
        LoweredAST::UnaryOp { operand: Box::new(operand), op }
    }

    pub fn eq(self, rhs: Self) -> (r: Self)
        ensures
            r@ == spec_bin(self@, rhs@, BinOp::Eq),
            r == (LoweredAST::BinaryOp { lhs: Box::new(self), rhs: Box::new(rhs), op: BinOp::Eq }),
    {
        Self::binary(self, rhs, BinOp::Eq)
    }

    pub fn ne(self, rhs: Self) -> (r: Self)
        ensures
            r@ == spec_bin(self@, rhs@, BinOp::Ne),
            r == (LoweredAST::BinaryOp { lhs: Box::new(self), rhs: Box::new(rhs), op: BinOp::Ne }),
    {
        Self::binary(self, rhs, BinOp::Ne)
    }

    pub fn gt(self, rhs: Self) -> (r: Self)
        ensures
            r@ == spec_bin(self@, rhs@, BinOp::Gt),
            r == (LoweredAST::BinaryOp { lhs: Box::new(self), rhs: Box::new(rhs), op: BinOp::Gt }),
    {
        Self::binary(self, rhs, BinOp::Gt)
    }

    pub fn lt(self, rhs: Self) -> (r: Self)
        ensures
            r@ == spec_bin(self@, rhs@, BinOp::Lt),
            r == (LoweredAST::BinaryOp { lhs: Box::new(self), rhs: Box::new(rhs), op: BinOp::Lt }),
    {
        Self::binary(self, rhs, BinOp::Lt)
    }

    pub fn ge(self, rhs: Self) -> (r: Self)
        ensures
            r@ == spec_bin(self@, rhs@, BinOp::Ge),
            r == (LoweredAST::BinaryOp { lhs: Box::new(self), rhs: Box::new(rhs), op: BinOp::Ge }),
    {
        Self::binary(self, rhs, BinOp::Ge)
    }

    pub fn le(self, rhs: Self) -> (r: Self)
        ensures
            r@ == spec_bin(self@, rhs@, BinOp::Le),
            r == (LoweredAST::BinaryOp { lhs: Box::new(self), rhs: Box::new(rhs), op: BinOp::Le }),
    {
        Self::binary(self, rhs, BinOp::Le)
    }

    pub fn logical_and(self, rhs: Self) -> (r: Self)
        ensures
            r@ == spec_bin(self@, rhs@, BinOp::LogicalAnd),
            r == (LoweredAST::BinaryOp { lhs: Box::new(self), rhs: Box::new(rhs), op: BinOp::LogicalAnd }),
    {
        Self::binary(self, rhs, BinOp::LogicalAnd)
    }

    /// `a || b`, written as `!(!a && !b)` since the language has no `||`.
    pub fn logical_or(self, rhs: Self) -> (r: Self)
        ensures
            r@ == spec_un(
                spec_bin(
                    spec_un(self@, UnaryOp::LogicalNot),
                    spec_un(rhs@, UnaryOp::LogicalNot),
                    BinOp::LogicalAnd,
                ),
                UnaryOp::LogicalNot,
            ),
            r == (LoweredAST::UnaryOp {
                operand: Box::new(
                    LoweredAST::BinaryOp {
                        lhs: Box::new(LoweredAST::UnaryOp { operand: Box::new(self), op: UnaryOp::LogicalNot }),
                        rhs: Box::new(LoweredAST::UnaryOp { operand: Box::new(rhs), op: UnaryOp::LogicalNot }),
                        op: BinOp::LogicalAnd,
                    },
                ),
                op: UnaryOp::LogicalNot,
            }),
    {
        let l = Self::unary(self, UnaryOp::LogicalNot);
        let r = Self::unary(rhs, UnaryOp::LogicalNot);
        Self::unary(l.logical_and(r), UnaryOp::LogicalNot)
    }

    /// Turns a load of a variable into a store of `val` to it.
    pub fn store(self, val: Self) -> (r: Self)
        requires
            self is Load,
        ensures
            r@ == (SpecAST::Store { var: self->Load_0@, val: Box::new(val@) }),
            r == (LoweredAST::Store { var: self->Load_0, val: Box::new(val) }),
    {
        match self {
            Self::Load(var) => Self::Store { var, val: Box::new(val) },
            _ => Self::Return,
        }
    }
}

/// The view of a constant has one component per component.
pub proof fn lemma_const_parts_len(s: Seq<LoweredASTOrConst>)
    ensures
        const_parts_view(s).len() == s.len(),
    decreases s.len(),
{
    if s.len() > 0 {
        lemma_const_parts_len(s.drop_last());
    }
}

/// The view of a one-component constant.
pub proof fn lemma_const_parts_single(c: LoweredASTOrConst)
    ensures
        const_parts_view(seq![c]) == seq![const_part_view(c)],
{
    assert(seq![c].drop_last() =~= Seq::<LoweredASTOrConst>::empty());
    assert(const_parts_view(Seq::<LoweredASTOrConst>::empty()) =~= Seq::<SpecConstPart>::empty());
    assert(seq![c].last() == c);
    assert(const_parts_view(seq![c]) =~= seq![const_part_view(c)]);
}

/// The view of a list of expressions has its length and ends with the
/// view of its last expression.
pub proof fn lemma_asts_view_last(s: Seq<LoweredAST>)
    ensures
        asts_view(s).len() == s.len(),
        s.len() > 0 ==> asts_view(s).last() == s.last()@,
    decreases s.len(),
{
    if s.len() > 0 {
        lemma_asts_view_last(s.drop_last());
    }
}

/// The view of a short list of expressions.
pub proof fn lemma_asts_view_small(a: LoweredAST, b: LoweredAST, c: LoweredAST)
    ensures
        asts_view(seq![a]) == seq![a@],
        asts_view(seq![a, b]) == seq![a@, b@],
        asts_view(seq![a, b, c]) == seq![a@, b@, c@],
{
    reveal_with_fuel(asts_view, 4);
    assert(seq![a, b, c].drop_last() =~= seq![a, b]);
    assert(seq![a, b].drop_last() =~= seq![a]);
    assert(seq![a].drop_last() =~= Seq::<LoweredAST>::empty());
    assert(asts_view(seq![a]) =~= seq![a@]);
    assert(asts_view(seq![a, b]) =~= seq![a@, b@]);
    assert(asts_view(seq![a, b, c]) =~= seq![a@, b@, c@]);
}

/// The four little-endian bytes of `v`.
pub open spec fn le_bytes(v: u32) -> Seq<u8> {
    seq![(v % 256) as u8, ((v / 256) % 256) as u8, ((v / 65536) % 256) as u8, (v / 16777216) as u8]
}

/// The four little-endian bytes of `v`.
pub fn u32_le_bytes(v: u32) -> (r: Vec<u8>)
    ensures
        r@ == le_bytes(v),
{
    let mut out: Vec<u8> = Vec::new();
    out.push((v % 256) as u8);
    out.push(((v / 256) % 256) as u8);
    out.push(((v / 65536) % 256) as u8);
    out.push((v / 16777216) as u8);
    proof {
        assert(out@ =~= le_bytes(v));
    }
    out
}

/// A `u32` constant.
pub open spec fn u32_ast(v: u32) -> SpecAST {
    SpecAST::Const {
        dt: DType::Basic(BasicTy::Integer(IntegerTy::U32)),
        data: seq![SpecConstPart::Const(le_bytes(v))],
    }
}

/// An `i32` constant, stored as the bytes of its two's complement.
pub open spec fn i32_ast(v: i32) -> SpecAST {
    SpecAST::Const {
        dt: DType::Basic(BasicTy::Integer(IntegerTy::I32)),
        data: seq![SpecConstPart::Const(le_bytes(#[verifier::truncate] (v as u32)))],
    }
}

/// An `f32` constant given by its bits.
pub open spec fn f32_bits_ast(bits: u32) -> SpecAST {
    SpecAST::Const { dt: DType::Basic(BasicTy::F32), data: seq![SpecConstPart::Const(le_bytes(bits))] }
}

/// A `bool` constant, stored as one byte.
pub open spec fn bool_ast(v: bool) -> SpecAST {
    SpecAST::Const {
        dt: DType::Basic(BasicTy::Bool),
        data: seq![SpecConstPart::Const(seq![if v { 1u8 } else { 0u8 }])],
    }
}

impl LoweredAST {
    /// The constant `v: u32`.
    pub fn from_u32(v: u32) -> (r: LoweredAST)
        ensures
            r@ == u32_ast(v),
            r matches LoweredAST::Const { dt, data } && dt == DType::Basic(BasicTy::Integer(IntegerTy::U32)) && data@.len() == 1
                && (data@[0] matches LoweredASTOrConst::Const(b) && b@ == le_bytes(v)),
    {
        let mut data: Vec<LoweredASTOrConst> = Vec::new();
        data.push(LoweredASTOrConst::Const(u32_le_bytes(v)));
        let r = LoweredAST::Const { dt: DType::Basic(BasicTy::Integer(IntegerTy::U32)), data };
        proof {
            assert(data@ =~= seq![data@[0]]);
            lemma_const_parts_single(data@[0]);
        }
        r
    }

    /// The constant `v: i32`.
    pub fn from_i32(v: i32) -> (r: LoweredAST)
        ensures
            r@ == i32_ast(v),
            r matches LoweredAST::Const { dt, data } && dt == DType::Basic(BasicTy::Integer(IntegerTy::I32)) && data@.len() == 1
                && (data@[0] matches LoweredASTOrConst::Const(b) && b@ == le_bytes(#[verifier::truncate] (v as u32))),
    {
        let mut data: Vec<LoweredASTOrConst> = Vec::new();
        let u: u32 = #[verifier::truncate] (v as u32);
        data.push(LoweredASTOrConst::Const(u32_le_bytes(u)));
        let r = LoweredAST::Const { dt: DType::Basic(BasicTy::Integer(IntegerTy::I32)), data };
        proof {
            assert(data@ =~= seq![data@[0]]);
            lemma_const_parts_single(data@[0]);
        }
        r
    }

    /// The `f32` constant with the given bits.
    pub fn from_f32_bits(bits: u32) -> (r: LoweredAST)
        ensures
            r@ == f32_bits_ast(bits),
            r matches LoweredAST::Const { dt, data } && dt == DType::Basic(BasicTy::F32) && data@.len() == 1
                && (data@[0] matches LoweredASTOrConst::Const(b) && b@ == le_bytes(bits)),
    {
        let mut data: Vec<LoweredASTOrConst> = Vec::new();
        data.push(LoweredASTOrConst::Const(u32_le_bytes(bits)));
        let r = LoweredAST::Const { dt: DType::Basic(BasicTy::F32), data };
        proof {
            assert(data@ =~= seq![data@[0]]);
            lemma_const_parts_single(data@[0]);
        }
        r
    }

    /// The constant `v: bool`.
    pub fn from_bool(v: bool) -> (r: LoweredAST)
        ensures
            r@ == bool_ast(v),
            r matches LoweredAST::Const { dt, data } && dt == DType::Basic(BasicTy::Bool) && data@.len() == 1
                && (data@[0] matches LoweredASTOrConst::Const(b) && b@ == seq![if v { 1u8 } else { 0u8 }]),
    {
        let mut bytes: Vec<u8> = Vec::new();
        bytes.push(if v { 1 } else { 0 });
        let mut data: Vec<LoweredASTOrConst> = Vec::new();
        data.push(LoweredASTOrConst::Const(bytes));
        let r = LoweredAST::Const { dt: DType::Basic(BasicTy::Bool), data };
        proof {
            assert(data@ =~= seq![data@[0]]);
            lemma_const_parts_single(data@[0]);
            assert(bytes@ =~= seq![if v { 1u8 } else { 0u8 }]);
        }
        r
    }
}

} // verus!
