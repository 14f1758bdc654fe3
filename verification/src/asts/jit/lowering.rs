//! Lowering of tensor expressions to the lowered language: each node is
//! handled by the first rule of the `Post` kind whose pattern matches it;
//! variables, already lowered expressions and constants without a rule are
//! lowered directly.
use vstd::prelude::*;

use super::lower_spec::{
    LowerEnv, LowerOut, LowerState, apply_spec, combine_spec, declared, fuse_spec, identity_spec,
    movement_spec, moved_spec, reduce_node_spec, reduce_spec, decompose_spec, invocation_x,
    gather_spec, decompose_from, prepend_coords,
    lemma_prepend_coords, local_load, bin_of, where_array_spec, index_if_spec, child_with,
    counted_loop, size_spec, without_axis_spec, merge_axis_spec, filled_spec, SpecFusePlan,
    fuse_plan_spec, fused_spec, fuse_axis_spec, binary_basic_spec, call1_spec, call2_spec, cast_parts, cast_spec, component_name,
    lower_spec,
    lemma_prepend_empty, lemma_prepend_parts, parts_spec, post_spec, prepend_parts, res_view,
    unary_basic_spec, where_spec, PartsOut,
};
use super::measure::{
    jit_size, lemma_chain_base_size, lemma_part_size, lemma_pre_size, lemma_simplify_binop_size,
    lemma_simplify_node_size,
};
use super::movement::{
    ast_views, shape_views, try_apply_chain, try_coord_linearize, try_pad_bounds_check, try_stride,
};
use super::pattern::{Captures, pat_matches};
use super::rewrite::pre_rewrite;
use super::lower_total::lemma_fuse_total;
use super::rules::{PostTransform, RewriteRule, SpecRule, builtin_rules, rules_view};
use super::shape::{chain_base, chain_ops, spec_jit_dt, spec_shape, try_identity_bytes};
use super::simplify::{fold_ok, folder, simplify_binop, simplify_node};
use super::{JitAST, JitASTOrConst, JitBinOp, JitUnaryOp, MovOp, ReduceOp, SpecJit, clone_jit};
use crate::asts::lowered::scope::{
    call, entrypoint, global, local, locals_view, scope_view, scopes_view,
};
use crate::asts::lowered::{
    Accessor, BinOp, LoweredAST, LoweredASTOrConst, Scope, ScopePtr, SpecAST, SpecAccessor,
    SpecVarRef, SpecVarRefType, VarRef, VarRefType, clone_ast, clone_bytes, clone_var_ref_type,
    const_part_view, const_parts_view, spec_with_accessor, SpecConstPart,
    lemma_asts_view_small, u32_le_bytes, u32_ast,
};
use crate::dt::{DType, VecTy};

verus! {

/// Why lowering a tensor expression failed.
#[derive(Debug, PartialEq, Eq, Structural)]
pub enum LowerError {
    /// A constant could not be read, or folding integers overflowed or divided by zero.
    BadConstant,
    /// No rule lowers the node, and it is not a variable, a lowered
    /// expression or a constant.
    Unhandled,
    /// A rule met an operator that it does not lower.
    UnexpectedOp,
    /// A shape, type or index computation does not apply.
    BadShape,
    /// A reduction over a type that has no identity.
    NoIdentity,
    /// An element-wise selection over an array operand that is not a load.
    NotIndexable,
    /// The expression reads no input variable.
    NoInput,
}

/// Gives the load of each input variable: variables get bindings in the
/// order they are first met; a variable whose stride is more than one is
/// loaded whole, another is indexed by the local `idx`.
pub struct VarBinder {
    pub var_map: Vec<(usize, usize)>,
    pub var_strides: Vec<(usize, u32)>,
    pub idx: usize,
}

/// The binding recorded for variable `id` in `m[start..]` (first entry).
pub open spec fn binding_of(m: Seq<(usize, usize)>, id: usize, start: nat) -> Option<usize>
    decreases m.len() - start,
{
    if start >= m.len() {
        None
    } else if m[start as int].0 == id {
        Some(m[start as int].1)
    } else {
        binding_of(m, id, start + 1)
    }
}

/// The stride recorded for variable `id` in `s[start..]` (first entry), one
/// when there is none.
pub open spec fn stride_for(s: Seq<(usize, u32)>, id: usize, start: nat) -> u32
    decreases s.len() - start,
{
    if start >= s.len() {
        1
    } else if s[start as int].0 == id {
        s[start as int].1
    } else {
        stride_for(s, id, start + 1)
    }
}

/// A load of bound buffer `b` with the accessors `by`.
pub open spec fn global_load(b: usize, by: Seq<SpecAccessor>) -> SpecAST {
    SpecAST::Load(SpecVarRefType::Global(SpecVarRef { id: b, by }))
}

/// `[local idx]`.
pub open spec fn index_by_local(idx: usize) -> Seq<SpecAccessor> {
    seq![
        SpecAccessor::Index(
            Box::new(SpecAST::Load(SpecVarRefType::Local(SpecVarRef { id: idx, by: Seq::empty() }))),
        ),
    ]
}

/// What `produce` gives for variable `id` with binder `b`: a load of its
/// binding (a new one, numbered after those recorded, for a new variable).
pub open spec fn produced(b: VarBinder, id: usize) -> SpecAST {
    let bind = match binding_of(b.var_map@, id, 0) {
        Some(x) => x,
        None => b.var_map@.len() as usize,
    };
    global_load(
        bind,
        if stride_for(b.var_strides@, id, 0) > 1 {
            Seq::empty()
        } else {
            index_by_local(b.idx)
        },
    )
}

/// The binder's invariant, the one a map from variables would keep: each
/// variable is recorded once, its binding numbered by its place in the
/// order of first appearance, and each variable has at most one stride.
pub open spec fn binder_wf(b: VarBinder) -> bool {
    &&& forall|i: int| 0 <= i < b.var_map@.len() ==> #[trigger] b.var_map@[i].1 == i
    &&& forall|i: int, j: int|
        0 <= i < j < b.var_map@.len() ==> #[trigger] b.var_map@[i].0 != #[trigger] b.var_map@[j].0
    &&& ids_distinct(b.var_strides@)
}

/// No id occurs twice in `s`.
pub open spec fn ids_distinct(s: Seq<(usize, u32)>) -> bool {
    forall|i: int, j: int| 0 <= i < j < s.len() ==> #[trigger] s[i].0 != #[trigger] s[j].0
}

/// The binder only records new variables, and keeps its invariant.
pub open spec fn binder_grows(old: VarBinder, new: VarBinder) -> bool {
    &&& new.var_strides == old.var_strides
    &&& new.idx == old.idx
    &&& old.var_map@.len() <= new.var_map@.len()
    &&& new.var_map@.subrange(0, old.var_map@.len() as int) == old.var_map@
    &&& binder_wf(old) ==> binder_wf(new)
}

proof fn lemma_binding_of_none(m: Seq<(usize, usize)>, id: usize, start: nat)
    requires
        binding_of(m, id, start) is None,
    ensures
        forall|i: int| start <= i < m.len() ==> #[trigger] m[i].0 != id,
    decreases m.len() - start,
{
    if start < m.len() {
        lemma_binding_of_none(m, id, start + 1);
    }
}

proof fn lemma_binding_of_some(m: Seq<(usize, usize)>, id: usize, start: nat)
    ensures
        binding_of(m, id, start) matches Some(v) ==> exists|i: int|
            start <= i < m.len() && #[trigger] m[i].0 == id && m[i].1 == v && forall|k: int|
                start <= k < i ==> #[trigger] m[k].0 != id,
    decreases m.len() - start,
{
    if start < m.len() {
        lemma_binding_of_some(m, id, start + 1);
        if m[start as int].0 == id {
            assert(m[start as int].0 == id);
        }
    }
}

proof fn lemma_binding_of_prefix(m: Seq<(usize, usize)>, ext: Seq<(usize, usize)>, id: usize, start: nat)
    requires
        m.len() <= ext.len(),
        ext.subrange(0, m.len() as int) == m,
        binding_of(m, id, start) is Some,
    ensures
        binding_of(ext, id, start) == binding_of(m, id, start),
    decreases m.len() - start,
{
    assert(ext[start as int] == ext.subrange(0, m.len() as int)[start as int]);
    if m[start as int].0 != id {
        lemma_binding_of_prefix(m, ext, id, start + 1);
    }
}

/// A variable keeps the load it was first given: once it is recorded, the
/// load `produce` gives for it is the same in every later state of the
/// binder.
pub proof fn lemma_binding_stable(b1: VarBinder, b2: VarBinder, id: usize)
    requires
        binder_grows(b1, b2),
        binding_of(b1.var_map@, id, 0) is Some,
    ensures
        produced(b2, id) == produced(b1, id),
{
    lemma_binding_of_prefix(b1.var_map@, b2.var_map@, id, 0);
}

/// Two different variables never share a binding.
pub proof fn lemma_bindings_distinct(b: VarBinder, x: usize, y: usize)
    requires
        binder_wf(b),
        x != y,
        binding_of(b.var_map@, x, 0) is Some,
        binding_of(b.var_map@, y, 0) is Some,
    ensures
        binding_of(b.var_map@, x, 0) != binding_of(b.var_map@, y, 0),
{
    lemma_binding_of_some(b.var_map@, x, 0);
    lemma_binding_of_some(b.var_map@, y, 0);
    let i = choose|i: int|
        0 <= i < b.var_map@.len() && #[trigger] b.var_map@[i].0 == x && b.var_map@[i].1
            == binding_of(b.var_map@, x, 0)->Some_0 && forall|k: int|
            0 <= k < i ==> #[trigger] b.var_map@[k].0 != x;
    let j = choose|j: int|
        0 <= j < b.var_map@.len() && #[trigger] b.var_map@[j].0 == y && b.var_map@[j].1
            == binding_of(b.var_map@, y, 0)->Some_0 && forall|k: int|
            0 <= k < j ==> #[trigger] b.var_map@[k].0 != y;
    assert(b.var_map@[i].1 == i);
    assert(b.var_map@[j].1 == j);
}

/// The scope only gains locals and child scopes; its statement is kept.
pub open spec fn scope_grows(old: Scope, new: Scope) -> bool {
    &&& new.ast == old.ast
    &&& new.num_inherited_locals == old.num_inherited_locals
    &&& old.local_vars@.len() <= new.local_vars@.len()
    &&& new.local_vars@.subrange(0, old.local_vars@.len() as int) == old.local_vars@
    &&& old.child_scopes@.len() <= new.child_scopes@.len()
    &&& new.child_scopes@.subrange(0, old.child_scopes@.len() as int) == old.child_scopes@
}

proof fn lemma_scope_grows_refl(s: Scope)
    ensures
        scope_grows(s, s),
{
    assert(s.local_vars@.subrange(0, s.local_vars@.len() as int) =~= s.local_vars@);
    assert(s.child_scopes@.subrange(0, s.child_scopes@.len() as int) =~= s.child_scopes@);
}

proof fn lemma_scope_grows_trans(a: Scope, b: Scope, c: Scope)
    requires
        scope_grows(a, b),
        scope_grows(b, c),
    ensures
        scope_grows(a, c),
{
    assert(c.local_vars@.subrange(0, a.local_vars@.len() as int) =~= a.local_vars@) by {
        assert(c.local_vars@.subrange(0, a.local_vars@.len() as int) =~= c.local_vars@.subrange(
            0,
            b.local_vars@.len() as int,
        ).subrange(0, a.local_vars@.len() as int));
    }
    assert(c.child_scopes@.subrange(0, a.child_scopes@.len() as int) =~= a.child_scopes@) by {
        assert(c.child_scopes@.subrange(0, a.child_scopes@.len() as int) =~= c.child_scopes@.subrange(
            0,
            b.child_scopes@.len() as int,
        ).subrange(0, a.child_scopes@.len() as int));
    }
}

proof fn lemma_binder_grows_refl(b: VarBinder)
    ensures
        binder_grows(b, b),
{
    assert(b.var_map@.subrange(0, b.var_map@.len() as int) =~= b.var_map@);
}

proof fn lemma_binder_grows_trans(a: VarBinder, b: VarBinder, c: VarBinder)
    requires
        binder_grows(a, b),
        binder_grows(b, c),
    ensures
        binder_grows(a, c),
{
    assert(c.var_map@.subrange(0, a.var_map@.len() as int) =~= a.var_map@) by {
        assert(c.var_map@.subrange(0, a.var_map@.len() as int) =~= c.var_map@.subrange(
            0,
            b.var_map@.len() as int,
        ).subrange(0, a.var_map@.len() as int));
    }
}

impl VarBinder {
    pub fn new(var_strides: Vec<(usize, u32)>, idx: usize) -> (r: Self)
        ensures
            r.var_map@ == Seq::<(usize, usize)>::empty(),
            r.var_strides == var_strides,
            r.idx == idx,
            ids_distinct(var_strides@) ==> binder_wf(r),
    {
        VarBinder { var_map: Vec::new(), var_strides, idx }
    }

    fn binding(&self, id: usize) -> (r: Option<usize>)
        ensures
            r == binding_of(self.var_map@, id, 0),
    {
        let n = self.var_map.len();
        let mut i: usize = 0;
        while i < n
            invariant
                n == self.var_map@.len(),
                i <= n,
                binding_of(self.var_map@, id, 0) == binding_of(self.var_map@, id, i as nat),
            decreases n - i,
        {
            if self.var_map[i].0 == id {
                return Some(self.var_map[i].1);
            }
            i = i + 1;
        }
        None
    }

    fn stride(&self, id: usize) -> (r: u32)
        ensures
            r == stride_for(self.var_strides@, id, 0),
    {
        let n = self.var_strides.len();
        let mut i: usize = 0;
        while i < n
            invariant
                n == self.var_strides@.len(),
                i <= n,
                stride_for(self.var_strides@, id, 0) == stride_for(self.var_strides@, id, i as nat),
            decreases n - i,
        {
            if self.var_strides[i].0 == id {
                return self.var_strides[i].1;
            }
            i = i + 1;
        }
        1
    }

    /// The load of input variable `var_id`; a variable met for the first
    /// time gets the next binding.
    pub fn produce(&mut self, var_id: usize) -> (r: LoweredAST)
        ensures
            r@ == produced(*old(self), var_id),
            binder_grows(*old(self), *final(self)),
            binding_of(old(self).var_map@, var_id, 0) is Some ==> final(self).var_map@ == old(
                self,
            ).var_map@,
            binding_of(old(self).var_map@, var_id, 0) is None ==> final(self).var_map@ == old(
                self,
            ).var_map@.push((var_id, old(self).var_map@.len() as usize)),
    {
        let ghost bind = match binding_of(old(self).var_map@, var_id, 0) {
            Some(x) => x,
            None => old(self).var_map@.len() as usize,
        };
        let binding = match self.binding(var_id) {
            Some(b) => b,
            None => {
                let b = self.var_map.len();
                self.var_map.push((var_id, b));
                proof {
                    assert(self.var_map@.subrange(0, old(self).var_map@.len() as int) =~= old(
                        self,
                    ).var_map@);
                    lemma_binding_of_none(old(self).var_map@, var_id, 0);
                    if binder_wf(*old(self)) {
                        assert forall|i: int, j: int|
                            0 <= i < j < self.var_map@.len() implies #[trigger] self.var_map@[i].0
                            != #[trigger] self.var_map@[j].0 by {
                            if j == old(self).var_map@.len() {
                                assert(old(self).var_map@[i].0 != var_id);
                            } else {
                                assert(old(self).var_map@[i].0 != old(self).var_map@[j].0);
                            }
                        }
                    }
                }
                b
            },
        };
        proof {
            lemma_binder_grows_refl(*old(self));
        }
        let stride = self.stride(var_id);
        assert(binding == bind);
        assert(stride == stride_for(old(self).var_strides@, var_id, 0));
        if stride > 1 {
            let r = global(binding).load();
            proof {
                assert(r@ == produced(*old(self), var_id));
            }
            r
        } else {
            let r = global(binding).i(local(self.idx).load()).load();
            proof {
                assert(Seq::<SpecAccessor>::empty().push(index_by_local(self.idx)[0]) =~= index_by_local(
                    self.idx,
                ));
                assert(r@ == produced(*old(self), var_id));
            }
            r
        }
    }
}

/// A call of `name` on one argument.
fn call1(name: &str, a: LoweredAST) -> (r: LoweredAST)
    ensures
        r@ == (SpecAST::FunctionCall { ident: name@, args: seq![a@] }),
{
    let mut args: Vec<LoweredAST> = Vec::new();
    args.push(a);
    proof {
        assert(args@ =~= seq![args@[0]]);
        lemma_asts_view_small(args@[0], args@[0], args@[0]);
    }
    call(name, args)
}

/// A call of `name` on two arguments.
fn call2(name: &str, a: LoweredAST, b: LoweredAST) -> (r: LoweredAST)
    ensures
        r@ == (SpecAST::FunctionCall { ident: name@, args: seq![a@, b@] }),
{
    let mut args: Vec<LoweredAST> = Vec::new();
    args.push(a);
    args.push(b);
    proof {
        assert(args@ =~= seq![args@[0], args@[1]]);
        lemma_asts_view_small(args@[0], args@[1], args@[1]);
    }
    call(name, args)
}

/// A call of `name` on three arguments.
fn call3(name: &str, a: LoweredAST, b: LoweredAST, c: LoweredAST) -> (r: LoweredAST)
    ensures
        r@ == (SpecAST::FunctionCall { ident: name@, args: seq![a@, b@, c@] }),
{
    let mut args: Vec<LoweredAST> = Vec::new();
    args.push(a);
    args.push(b);
    args.push(c);
    proof {
        assert(args@ =~= seq![args@[0], args@[1], args@[2]]);
        lemma_asts_view_small(args@[0], args@[1], args@[2]);
    }
    call(name, args)
}

/// `acc op value` for a reduction: `+`, `*`, or a call of `max`.
fn combine(op: &ReduceOp, acc: LoweredAST, value: LoweredAST) -> (r: LoweredAST)
    ensures
        r@ == combine_spec(*op, acc@, value@),
{
    match op {
        ReduceOp::Sum => acc + value,
        ReduceOp::Prod => acc * value,
        ReduceOp::Max => call2("max", acc, value),
    }
}

/// `Vec<Const(bytes)>` repeated `count` times.
fn repeated_bytes(bytes: &Vec<u8>, count: usize) -> (r: Vec<LoweredASTOrConst>)
    ensures
        r@.len() == count,
        const_parts_view(r@) == Seq::new(count as nat, |i: int| SpecConstPart::Const(bytes@)),
{
    let mut data: Vec<LoweredASTOrConst> = Vec::new();
    let mut i: usize = 0;
    proof {
        assert(const_parts_view(data@) =~= Seq::new(0, |j: int| SpecConstPart::Const(bytes@)));
    }
    while i < count
        invariant
            i <= count,
            data@.len() == i,
            const_parts_view(data@) == Seq::new(i as nat, |j: int| SpecConstPart::Const(bytes@)),
        decreases count - i,
    {
        let ghost before = data@;
        data.push(LoweredASTOrConst::Const(clone_bytes(bytes)));
        proof {
            assert(data@.drop_last() =~= before);
            assert(const_part_view(data@.last()) == SpecConstPart::Const(bytes@));
            assert(const_parts_view(data@) == const_parts_view(before).push(SpecConstPart::Const(bytes@)));
            assert(const_parts_view(data@) =~= Seq::new((i + 1) as nat, |j: int| SpecConstPart::Const(bytes@)));
        }
        i = i + 1;
    }
    data
}

/// The identity constant of reduction `op` over values of the type of
/// `operand` (its elements, for an array).
fn identity(operand: &JitAST, op: &ReduceOp) -> (r: Result<LoweredAST, LowerError>)
    ensures
        r matches Ok(x) ==> x@ is Const,
        res_view(r) == identity_spec(spec_jit_dt(operand@), *op),
{
    proof {
        reveal(identity_spec);
    }
    let result_dt = match operand.try_dt() {
        Some(d) => d.peel_array(),
        None => {
            return Err(LowerError::BadShape);
        },
    };
    let scalar_dt = result_dt.peel_all();
    let bytes = match try_identity_bytes(&scalar_dt, op) {
        Some(b) => b,
        None => {
            return Err(LowerError::NoIdentity);
        },
    };
    let count = result_dt.element_count();
    Ok(LoweredAST::Const { dt: result_dt, data: repeated_bytes(&bytes, count) })
}

/// The model's fixed inputs for lowering with `rules`, binder `b` and `fold`.
pub open spec fn env_for<F: Fn(u32, u32, BinOp) -> u32>(rules: Seq<RewriteRule>, b: VarBinder, fold: F) -> LowerEnv {
    LowerEnv { rules: rules_view(rules), strides: b.var_strides@, idx: b.idx, ff: folder(fold) }
}

/// The model's state for scope `s` and binder `b`.
pub open spec fn state_of(s: Scope, b: VarBinder) -> LowerState {
    LowerState {
        map: b.var_map@,
        locals: locals_view(s.local_vars@),
        children: scopes_view(s.child_scopes@),
    }
}

/// Where the model says what a lowering gives, it gave that: the result,
/// the bindings recorded after it, and the scope's locals and children,
/// the rest of the scope unchanged.
pub open spec fn meets(
    o: Option<LowerOut>,
    r: Result<LoweredAST, LowerError>,
    s0: Scope,
    s1: Scope,
    b1: VarBinder,
) -> bool {
    o matches Some(x) ==> {
        &&& res_view(r) == x.res
        &&& b1.var_map@ == x.st.map
        &&& locals_view(s1.local_vars@) == x.st.locals
        &&& s1.ast == s0.ast
        &&& s1.num_inherited_locals == s0.num_inherited_locals
        &&& scopes_view(s1.child_scopes@) == x.st.children
    }
}

/// Where a lowering leaves its state: the scope and the binder only grow.
pub open spec fn grows(s0: Scope, s1: Scope, b0: VarBinder, b1: VarBinder) -> bool {
    scope_grows(s0, s1) && binder_grows(b0, b1)
}

/// Index of the first rule of `rules[start..]` of kind `Post` whose pattern
/// matches `a`.
pub open spec fn first_post(rules: Seq<SpecRule>, a: SpecJit, start: nat) -> Option<nat>
    decreases rules.len() - start,
{
    if start >= rules.len() {
        None
    } else {
        match rules[start as int] {
            SpecRule::Post { pat, .. } => if pat_matches(pat, a) {
                Some(start)
            } else {
                first_post(rules, a, start + 1)
            },
            _ => first_post(rules, a, start + 1),
        }
    }
}

/// `r` is a call of `name` on `n` arguments.
pub open spec fn is_call(r: SpecAST, name: Seq<char>, n: nat) -> bool {
    r matches SpecAST::FunctionCall { ident, args } && ident == name && args.len() == n
}

/// `r` is `a * b + c` for some `a`, `b`, `c`.
pub open spec fn is_mul_add(r: SpecAST) -> bool {
    r matches SpecAST::BinaryOp { lhs, op, .. } && op == BinOp::Add && (*lhs matches SpecAST::BinaryOp {
        op: mul,
        ..
    } && mul == BinOp::Mul)
}

/// What a successful lowering of `matched` by transform `t` gives: a call
/// of the WGSL function the transform names; for `Threefry` a
/// multiplication by the key `2654435761u` plus the right operand; for
/// `Cast` a constant of the target type; for `TernaryWhere` a `select`
/// (or a loop over array elements); for `TernaryMulacc` a multiplication
/// and an addition; for a reduction an accumulator update and its load.
pub open spec fn post_shape(t: PostTransform, matched: SpecJit, r: SpecAST) -> bool {
    match t {
        PostTransform::Cdiv => is_call(r, "ceil_div"@, 2),
        PostTransform::BinopMax => is_call(r, "max"@, 2),
        PostTransform::Cmod => is_call(r, "ceil_mod"@, 2),
        PostTransform::Fdiv => is_call(r, "fdiv"@, 2),
        PostTransform::Pow => is_call(r, "pow"@, 2),
        PostTransform::Floordiv => is_call(r, "floor_div"@, 2),
        PostTransform::Floormod => is_call(r, "floor_mod"@, 2),
        PostTransform::Threefry => r matches SpecAST::BinaryOp { lhs, op, .. } && op == BinOp::Add && (
        *lhs matches SpecAST::BinaryOp { rhs: key, op: mul, .. } && mul == BinOp::Mul && *key
            == crate::asts::lowered::u32_ast(2654435761u32)),
        PostTransform::Exp2 => is_call(r, "exp2"@, 1),
        PostTransform::Log2 => is_call(r, "log2"@, 1),
        PostTransform::Sin => is_call(r, "sin"@, 1),
        PostTransform::Sqrt => is_call(r, "sqrt"@, 1),
        PostTransform::Reciprocal => is_call(r, "reciprocal"@, 1),
        PostTransform::Trunc => is_call(r, "trunc"@, 1),
        PostTransform::Bitcast => is_call(r, "bitcast"@, 1),
        PostTransform::Cast => matched matches SpecJit::Cast { dt, .. } && (r matches SpecAST::Const {
            dt: d,
            data,
        } && d == dt && (data.len() == 1 || data.len() == dt.spec_element_count())),
        PostTransform::TernaryWhere => is_call(r, "select"@, 3) || r is Group,
        PostTransform::TernaryMulacc => is_mul_add(r),
        PostTransform::Movement => matched is Movement,
        PostTransform::BinopBasic => true,
        PostTransform::UnaryopBasic => r is UnaryOp,
        PostTransform::FuseReduce => r is Group,
        PostTransform::Reduce => r matches SpecAST::Group(stmts) && stmts.len() == 2 && stmts[0] is Store
            && stmts[1] is Load,
        PostTransform::AllReduce => r matches SpecAST::Group(stmts) && stmts.len() == 2
            && stmts[0] is Store && stmts[1] is Load,
    }
}

/// What lowering `a` (after the `Pre` rules) by `rules` gives: where a
/// `Post` rule matches, the shape the first such rule's transform promises;
/// where none does, a variable becomes the load its binder gives (the
/// scope unchanged), a lowered expression itself, a constant a constant of
/// the same type with as many components, and anything else `Unhandled`.
pub open spec fn post_lowered(
    rules: Seq<SpecRule>,
    a: SpecJit,
    s0: Scope,
    s1: Scope,
    b0: VarBinder,
    r: Result<LoweredAST, LowerError>,
) -> bool {
    match first_post(rules, a, 0) {
        Some(k) => r matches Ok(x) ==> post_shape(rules[k as int]->Post_transform, a, x@),
        None => match a {
            SpecJit::Var { id, .. } => r matches Ok(x) && x@ == produced(b0, id) && s1 == s0,
            SpecJit::Lowered { expr, .. } => r matches Ok(x) && x@ == expr,
            SpecJit::Const { dt, data } => r matches Ok(x) ==> (x@ matches SpecAST::Const {
                dt: d,
                data: parts,
            } && d == dt && parts.len() == data.len()),
            _ => r == Err::<LoweredAST, LowerError>(LowerError::Unhandled),
        },
    }
}

proof fn lemma_first_post_skips(rules: Seq<SpecRule>, a: SpecJit, start: nat)
    requires
        forall|i: int|
            start <= i < rules.len() ==> !(#[trigger] rules[i] matches SpecRule::Post { pat, .. }
                && pat_matches(pat, a)),
    ensures
        first_post(rules, a, start) is None,
    decreases rules.len() - start,
{
    if start < rules.len() {
        lemma_first_post_skips(rules, a, start + 1);
    }
}

/// No built-in rule lowers an input variable, an already lowered expression
/// or a constant: with the built-in rules alone, a variable lowers to the
/// load its binder gives, a lowered expression to itself and a constant to
/// a constant of its type.
pub proof fn lemma_builtin_rules_skip_leaves(a: SpecJit)
    requires
        a is Var || a is Lowered || a is Const,
    ensures
        first_post(super::rules::builtin_rules_spec(), a, 0) is None,
{
    let rules = super::rules::builtin_rules_spec();
    assert forall|i: int| 0 <= i < rules.len() implies !(#[trigger] rules[i] matches SpecRule::Post {
        pat,
        ..
    } && pat_matches(pat, a)) by {
        match rules[i] {
            SpecRule::Post { pat, .. } => {
                assert(!(pat is Var) && !(pat is Const));
            },
            _ => {},
        }
    }
    lemma_first_post_skips(rules, a, 0);
}

/// `ast` rewritten by the `Pre` rules, then lowered: the result, the
/// bindings recorded and the locals and child scopes declared are those of
/// the model (`lower_spec`), which is defined for every expression.
pub fn graph_rewrite<F: Fn(u32, u32, BinOp) -> u32>(
    ast: JitAST,
    scope: &mut Scope,
    rules: &Vec<RewriteRule>,
    binder: &mut VarBinder,
    fold: &F,
) -> (r: Result<LoweredAST, LowerError>)
    requires
        fold_ok(*fold),
    ensures
        grows(*old(scope), *final(scope), *old(binder), *final(binder)),
        match super::rewrite::spec_pre_rewrite(ast@, rules_view(rules@), folder(*fold)) {
            None => r == Err::<LoweredAST, LowerError>(LowerError::BadConstant),
            Some(p) => post_lowered(rules_view(rules@), p, *old(scope), *final(scope), *old(binder), r),
        },
        lower_spec(env_for(rules@, *old(binder), *fold), ast@, state_of(*old(scope), *old(binder))) is Some,
        meets(
            lower_spec(env_for(rules@, *old(binder), *fold), ast@, state_of(*old(scope), *old(binder))),
            r,
            *old(scope),
            *final(scope),
            *final(binder),
        ),
    decreases jit_size(ast@), 4nat,
{
    proof {
        super::lower_total::lemma_lower_total(env_for(rules@, *binder, *fold), ast@, state_of(*scope, *binder));
    }
    let pre = match pre_rewrite(&ast, rules, fold) {
        Some(p) => p,
        None => {
            proof {
                lemma_scope_grows_refl(*scope);
                lemma_binder_grows_refl(*binder);
            }
            return Err(LowerError::BadConstant);
        },
    };
    proof {
        lemma_pre_size(ast@, rules_view(rules@), folder(*fold));
    }
    graph_rewrite_post(pre, scope, rules, binder, fold)
}

/// Lowers `ast` by the first `Post` rule whose pattern matches it; without
/// one, a variable becomes the load its binder gives, a lowered expression
/// itself, and a constant a constant with its components lowered (see
/// `post_spec`).
pub fn graph_rewrite_post<F: Fn(u32, u32, BinOp) -> u32>(
    ast: JitAST,
    scope: &mut Scope,
    rules: &Vec<RewriteRule>,
    binder: &mut VarBinder,
    fold: &F,
) -> (r: Result<LoweredAST, LowerError>)
    requires
        fold_ok(*fold),
    ensures
        grows(*old(scope), *final(scope), *old(binder), *final(binder)),
        post_lowered(rules_view(rules@), ast@, *old(scope), *final(scope), *old(binder), r),
        meets(
            post_spec(env_for(rules@, *old(binder), *fold), ast@, state_of(*old(scope), *old(binder))),
            r,
            *old(scope),
            *final(scope),
            *final(binder),
        ),
    decreases jit_size(ast@), 3nat,
{
    let ghost rv = rules_view(rules@);
    let n = rules.len();
    let mut i: usize = 0;
    while i < n
        invariant
            n == rules@.len(),
            rv == rules_view(rules@),
            i <= n,
            fold_ok(*fold),
            *scope == *old(scope),
            *binder == *old(binder),
            first_post(rv, ast@, 0) == first_post(rv, ast@, i as nat),
        decreases n - i,
    {
        match &rules[i] {
            RewriteRule::Post { pat, transform } => {
                let mut ctx = Captures::new();
                if pat.matches(&ast, &mut ctx) {
                    proof {
                        assert(rv[i as int] == rules@[i as int]@);
                    }
                    return apply_post(transform, ast, scope, rules, binder, fold);
                }
                proof {
                    assert(rv[i as int] == rules@[i as int]@);
                }
            },
            _ => {
                proof {
                    assert(rv[i as int] == rules@[i as int]@);
                }
            },
        }
        i = i + 1;
    }
    proof {
        lemma_scope_grows_refl(*scope);
        lemma_binder_grows_refl(*binder);
    }
    if let JitAST::Const(c) = &ast {
        proof {
            super::lemma_jit_parts_view(c.data@);
            assert forall|j: int| 0 <= j < c.data@.len() implies jit_size(
                #[trigger] c.data@[j]@->AST_0,
            ) < jit_size(ast@) || !(c.data@[j] is AST) by {
                lemma_part_size(super::jit_parts_view(c.data@), j as nat);
            }
        }
        let ghost s0 = *scope;
        let ghost b0 = *binder;
        let ghost env = env_for(rules@, b0, *fold);
        let ghost cd = super::jit_parts_view(c.data@);
        let ghost whole = ast@;
        let mut data: Vec<LoweredASTOrConst> = Vec::new();
        let m = c.data.len();
        let mut k: usize = 0;
        proof {
            assert(first_post(rv, ast@, 0) is None);
            assert(const_parts_view(data@) =~= Seq::<crate::asts::lowered::SpecConstPart>::empty());
            lemma_prepend_empty(parts_spec(env, whole, cd, 0, state_of(s0, b0)));
        }
        while k < m
            invariant
                m == c.data@.len(),
                k <= m,
                fold_ok(*fold),
                s0 == *old(scope),
                b0 == *old(binder),
                ast@ is Const,
                whole == ast@,
                env == env_for(rules@, b0, *fold),
                first_post(env.rules, whole, 0) is None,
                whole matches SpecJit::Const { data: wd, .. } && wd == cd,
                cd == super::jit_parts_view(c.data@),
                cd.len() == m,
                forall|j: int| 0 <= j < m ==> #[trigger] cd[j] == c.data@[j]@,
                data@.len() == k,
                grows(s0, *scope, b0, *binder),
                forall|j: int| 0 <= j < m ==> jit_size(#[trigger] c.data@[j]@->AST_0) < jit_size(ast@)
                    || !(c.data@[j] is AST),
                parts_spec(env, whole, cd, 0, state_of(s0, b0)) is Some ==> scope.ast == s0.ast
                    && scope.num_inherited_locals == s0.num_inherited_locals && parts_spec(
                    env,
                    whole,
                    cd,
                    0,
                    state_of(s0, b0),
                ) == prepend_parts(
                    const_parts_view(data@),
                    parts_spec(env, whole, cd, k as nat, state_of(*scope, *binder)),
                ),
            decreases m - k,
        {
            let ghost mk = state_of(*scope, *binder);
            let ghost dk = data@;
            let part = match &c.data[k] {
                JitASTOrConst::AST(e) => {
                    proof {
                        assert(c.data@[k as int]@->AST_0 == e@);
                    }
                    let ghost sa = *scope;
                    let ghost ba = *binder;
                    let l = graph_rewrite_post(clone_jit(e), scope, rules, binder, fold);
                    proof {
                        lemma_scope_grows_trans(s0, sa, *scope);
                        lemma_binder_grows_trans(b0, ba, *binder);
                        assert(env_for(rules@, ba, *fold) == env);
                    }
                    match l {
                        Ok(x) => LoweredASTOrConst::LoweredAST(x),
                        Err(err) => {
                            proof {
                                if parts_spec(env, whole, cd, 0, state_of(s0, b0)) is Some {
                                    assert(parts_spec(env, whole, cd, k as nat, mk) == Some(
                                        PartsOut { res: Err(err), st: state_of(*scope, *binder) },
                                    ));
                                    assert(parts_spec(env, whole, cd, 0, state_of(s0, b0)) == Some(
                                        PartsOut { res: Err(err), st: state_of(*scope, *binder) },
                                    ));
                                    assert(first_post(env.rules, whole, 0) is None);
                                    assert(post_spec(env, whole, state_of(s0, b0)) == Some(
                                        LowerOut { res: Err(err), st: state_of(*scope, *binder) },
                                    ));
                                }
                            }
                            return Err(err);
                        },
                    }
                },
                JitASTOrConst::Const(b) => LoweredASTOrConst::Const(clone_bytes(b)),
            };
            proof {
                if parts_spec(env, whole, cd, 0, state_of(s0, b0)) is Some {
                    lemma_prepend_parts(
                        const_parts_view(dk),
                        seq![const_part_view(part)],
                        parts_spec(env, whole, cd, (k + 1) as nat, state_of(*scope, *binder)),
                    );
                }
            }
            data.push(part);
            proof {
                assert(data@.drop_last() =~= dk);
                assert(const_parts_view(data@) == const_parts_view(dk) + seq![const_part_view(part)]);
            }
            k = k + 1;
        }
        proof {
            crate::asts::lowered::lemma_const_parts_len(data@);
            if parts_spec(env, whole, cd, 0, state_of(s0, b0)) is Some {
                assert(const_parts_view(data@) + Seq::<crate::asts::lowered::SpecConstPart>::empty()
                    =~= const_parts_view(data@));
            }
        }
        return Ok(LoweredAST::Const { dt: c.dt.clone(), data });
    }
    match ast {
        JitAST::Var { id, .. } => Ok(binder.produce(id)),
        JitAST::Lowered { expr, .. } => Ok(expr),
        _ => Err(LowerError::Unhandled),
    }
}

proof fn lemma_grows_trans(
    s0: Scope,
    s1: Scope,
    s2: Scope,
    b0: VarBinder,
    b1: VarBinder,
    b2: VarBinder,
)
    requires
        grows(s0, s1, b0, b1),
        grows(s1, s2, b1, b2),
    ensures
        grows(s0, s2, b0, b2),
{
    lemma_scope_grows_trans(s0, s1, s2);
    lemma_binder_grows_trans(b0, b1, b2);
}

proof fn lemma_grows_refl(s: Scope, b: VarBinder)
    ensures
        grows(s, s, b, b),
{
    lemma_scope_grows_refl(s);
    lemma_binder_grows_refl(b);
}

/// Declares an immutable local holding `ast`.
fn add_var(scope: &mut Scope, ast: LoweredAST) -> (r: usize)
    ensures
        scope_grows(*old(scope), *final(scope)),
        r == old(scope).local_vars@.len(),
        locals_view(final(scope).local_vars@) == declared(locals_view(old(scope).local_vars@), false, ast@),
        final(scope).ast == old(scope).ast,
        final(scope).num_inherited_locals == old(scope).num_inherited_locals,
        final(scope).child_scopes == old(scope).child_scopes,
{
    let ghost a = ast@;
    let r = scope.var(ast);
    proof {
        assert(locals_view(scope.local_vars@) =~= declared(locals_view(old(scope).local_vars@), false, a));
        assert(scope.local_vars@.subrange(0, old(scope).local_vars@.len() as int) =~= old(
            scope,
        ).local_vars@);
        assert(scope.child_scopes@.subrange(0, old(scope).child_scopes@.len() as int) =~= old(
            scope,
        ).child_scopes@);
    }
    r
}

/// Declares a mutable local holding `ast`.
fn add_mut(scope: &mut Scope, ast: LoweredAST) -> (r: usize)
    ensures
        scope_grows(*old(scope), *final(scope)),
        r == old(scope).local_vars@.len(),
        locals_view(final(scope).local_vars@) == declared(locals_view(old(scope).local_vars@), true, ast@),
        final(scope).ast == old(scope).ast,
        final(scope).num_inherited_locals == old(scope).num_inherited_locals,
        final(scope).child_scopes == old(scope).child_scopes,
{
    let ghost a = ast@;
    let r = scope.mut_(ast);
    proof {
        assert(locals_view(scope.local_vars@) =~= declared(locals_view(old(scope).local_vars@), true, a));
        assert(scope.local_vars@.subrange(0, old(scope).local_vars@.len() as int) =~= old(
            scope,
        ).local_vars@);
        assert(scope.child_scopes@.subrange(0, old(scope).child_scopes@.len() as int) =~= old(
            scope,
        ).child_scopes@);
    }
    r
}

/// `for (init; cond; incr) { body }` with `body` attached as a new child.
fn attach_for(
    scope: &mut Scope,
    init: Option<LoweredAST>,
    cond: LoweredAST,
    incr: LoweredAST,
    body: Scope,
) -> (r: LoweredAST)
    ensures
        scope_grows(*old(scope), *final(scope)),
        r is ForLoop,
        r@ == (SpecAST::ForLoop {
            init: match init {
                Some(i) => Some(Box::new(i@)),
                None => None,
            },
            halt_cond: Some(Box::new(cond@)),
            increment: Some(Box::new(incr@)),
            body: old(scope).child_scopes@.len() as usize,
        }),
        final(scope).child_scopes@ == old(scope).child_scopes@.push(body),
        final(scope).local_vars == old(scope).local_vars,
        final(scope).ast == old(scope).ast,
        final(scope).num_inherited_locals == old(scope).num_inherited_locals,
{
    let ptr = scope.push_child(body);
    proof {
        assert(scope.local_vars@.subrange(0, old(scope).local_vars@.len() as int) =~= old(
            scope,
        ).local_vars@);
        assert(scope.child_scopes@.subrange(0, old(scope).child_scopes@.len() as int) =~= old(
            scope,
        ).child_scopes@);
    }
    let init_b = match init {
        Some(i) => Some(Box::new(i)),
        None => None,
    };
    proof {
        reveal_with_fuel(crate::asts::lowered::ast_view, 2);
    }
    LoweredAST::ForLoop {
        init: init_b,
        halt_cond: Some(Box::new(cond)),
        increment: Some(Box::new(incr)),
        body: ScopePtr(ptr),
    }
}

/// Applies the lowering transform `t` to `matched`.
#[verifier::spinoff_prover]
fn apply_post<F: Fn(u32, u32, BinOp) -> u32>(
    t: &PostTransform,
    matched: JitAST,
    scope: &mut Scope,
    rules: &Vec<RewriteRule>,
    binder: &mut VarBinder,
    fold: &F,
) -> (r: Result<LoweredAST, LowerError>)
    requires
        fold_ok(*fold),
    ensures
        grows(*old(scope), *final(scope), *old(binder), *final(binder)),
        r matches Ok(x) ==> post_shape(*t, matched@, x@),
        meets(
            apply_spec(env_for(rules@, *old(binder), *fold), *t, matched@, state_of(*old(scope), *old(binder))),
            r,
            *old(scope),
            *final(scope),
            *final(binder),
        ),
    decreases jit_size(matched@), 2nat,
{
    proof {
        lemma_grows_refl(*scope, *binder);
    }
    match t {
        PostTransform::Cdiv => cdiv(matched, scope, rules, binder, fold),
        PostTransform::BinopMax => binop_max(matched, scope, rules, binder, fold),
        PostTransform::Cmod => cmod(matched, scope, rules, binder, fold),
        PostTransform::Fdiv => fdiv(matched, scope, rules, binder, fold),
        PostTransform::Pow => pow(matched, scope, rules, binder, fold),
        PostTransform::Floordiv => floordiv(matched, scope, rules, binder, fold),
        PostTransform::Floormod => floormod(matched, scope, rules, binder, fold),
        PostTransform::Threefry => threefry(matched, scope, rules, binder, fold),
        PostTransform::Exp2 => exp2(matched, scope, rules, binder, fold),
        PostTransform::Log2 => log2(matched, scope, rules, binder, fold),
        PostTransform::Sin => sin(matched, scope, rules, binder, fold),
        PostTransform::Sqrt => sqrt(matched, scope, rules, binder, fold),
        PostTransform::Reciprocal => reciprocal(matched, scope, rules, binder, fold),
        PostTransform::Trunc => trunc(matched, scope, rules, binder, fold),
        PostTransform::Bitcast => bitcast(matched, scope, rules, binder, fold),
        PostTransform::Cast => cast(matched, scope, rules, binder, fold),
        PostTransform::TernaryWhere => ternary_where(matched, scope, rules, binder, fold),
        PostTransform::TernaryMulacc => ternary_mulacc(matched, scope, rules, binder, fold),
        PostTransform::Movement => movement(matched, scope, rules, binder, fold),
        PostTransform::BinopBasic => binop_basic(matched, scope, rules, binder, fold),
        PostTransform::UnaryopBasic => unaryop_basic(matched, scope, rules, binder, fold),
        PostTransform::FuseReduce => fuse_reduce(matched, scope, rules, binder, fold),
        PostTransform::Reduce => reduce(matched, scope, rules, binder, fold),
        PostTransform::AllReduce => all_reduce(matched, scope, rules, binder, fold),
    }
}

/// `ceil_div(lhs, rhs)`: ceil division of the lowered operands.
pub fn cdiv<F: Fn(u32, u32, BinOp) -> u32>(
    matched: JitAST,
    scope: &mut Scope,
    rules: &Vec<RewriteRule>,
    binder: &mut VarBinder,
    fold: &F,
) -> (r: Result<LoweredAST, LowerError>)
    requires
        fold_ok(*fold),
    ensures
        grows(*old(scope), *final(scope), *old(binder), *final(binder)),
        r matches Ok(x) ==> is_call(x@, "ceil_div"@, 2),
        meets(
            call2_spec(env_for(rules@, *old(binder), *fold), matched@, "ceil_div"@, state_of(*old(scope), *old(binder))),
            r,
            *old(scope),
            *final(scope),
            *final(binder),
        ),
    decreases jit_size(matched@), 1nat,
{
    binary_call(matched, "ceil_div", scope, rules, binder, fold)
}

/// `max(lhs, rhs)`: the larger operand of the lowered operands.
pub fn binop_max<F: Fn(u32, u32, BinOp) -> u32>(
    matched: JitAST,
    scope: &mut Scope,
    rules: &Vec<RewriteRule>,
    binder: &mut VarBinder,
    fold: &F,
) -> (r: Result<LoweredAST, LowerError>)
    requires
        fold_ok(*fold),
    ensures
        grows(*old(scope), *final(scope), *old(binder), *final(binder)),
        r matches Ok(x) ==> is_call(x@, "max"@, 2),
        meets(
            call2_spec(env_for(rules@, *old(binder), *fold), matched@, "max"@, state_of(*old(scope), *old(binder))),
            r,
            *old(scope),
            *final(scope),
            *final(binder),
        ),
    decreases jit_size(matched@), 1nat,
{
    binary_call(matched, "max", scope, rules, binder, fold)
}

/// `ceil_mod(lhs, rhs)`: the remainder of ceil division of the lowered operands.
pub fn cmod<F: Fn(u32, u32, BinOp) -> u32>(
    matched: JitAST,
    scope: &mut Scope,
    rules: &Vec<RewriteRule>,
    binder: &mut VarBinder,
    fold: &F,
) -> (r: Result<LoweredAST, LowerError>)
    requires
        fold_ok(*fold),
    ensures
        grows(*old(scope), *final(scope), *old(binder), *final(binder)),
        r matches Ok(x) ==> is_call(x@, "ceil_mod"@, 2),
        meets(
            call2_spec(env_for(rules@, *old(binder), *fold), matched@, "ceil_mod"@, state_of(*old(scope), *old(binder))),
            r,
            *old(scope),
            *final(scope),
            *final(binder),
        ),
    decreases jit_size(matched@), 1nat,
{
    binary_call(matched, "ceil_mod", scope, rules, binder, fold)
}

/// `fdiv(lhs, rhs)`: float division of the lowered operands.
pub fn fdiv<F: Fn(u32, u32, BinOp) -> u32>(
    matched: JitAST,
    scope: &mut Scope,
    rules: &Vec<RewriteRule>,
    binder: &mut VarBinder,
    fold: &F,
) -> (r: Result<LoweredAST, LowerError>)
    requires
        fold_ok(*fold),
    ensures
        grows(*old(scope), *final(scope), *old(binder), *final(binder)),
        r matches Ok(x) ==> is_call(x@, "fdiv"@, 2),
        meets(
            call2_spec(env_for(rules@, *old(binder), *fold), matched@, "fdiv"@, state_of(*old(scope), *old(binder))),
            r,
            *old(scope),
            *final(scope),
            *final(binder),
        ),
    decreases jit_size(matched@), 1nat,
{
    binary_call(matched, "fdiv", scope, rules, binder, fold)
}

/// `pow(lhs, rhs)`: the power of the lowered operands.
pub fn pow<F: Fn(u32, u32, BinOp) -> u32>(
    matched: JitAST,
    scope: &mut Scope,
    rules: &Vec<RewriteRule>,
    binder: &mut VarBinder,
    fold: &F,
) -> (r: Result<LoweredAST, LowerError>)
    requires
        fold_ok(*fold),
    ensures
        grows(*old(scope), *final(scope), *old(binder), *final(binder)),
        r matches Ok(x) ==> is_call(x@, "pow"@, 2),
        meets(
            call2_spec(env_for(rules@, *old(binder), *fold), matched@, "pow"@, state_of(*old(scope), *old(binder))),
            r,
            *old(scope),
            *final(scope),
            *final(binder),
        ),
    decreases jit_size(matched@), 1nat,
{
    binary_call(matched, "pow", scope, rules, binder, fold)
}

/// `floor_div(lhs, rhs)`: floor division of the lowered operands.
pub fn floordiv<F: Fn(u32, u32, BinOp) -> u32>(
    matched: JitAST,
    scope: &mut Scope,
    rules: &Vec<RewriteRule>,
    binder: &mut VarBinder,
    fold: &F,
) -> (r: Result<LoweredAST, LowerError>)
    requires
        fold_ok(*fold),
    ensures
        grows(*old(scope), *final(scope), *old(binder), *final(binder)),
        r matches Ok(x) ==> is_call(x@, "floor_div"@, 2),
        meets(
            call2_spec(env_for(rules@, *old(binder), *fold), matched@, "floor_div"@, state_of(*old(scope), *old(binder))),
            r,
            *old(scope),
            *final(scope),
            *final(binder),
        ),
    decreases jit_size(matched@), 1nat,
{
    binary_call(matched, "floor_div", scope, rules, binder, fold)
}

/// `floor_mod(lhs, rhs)`: the remainder of floor division of the lowered operands.
pub fn floormod<F: Fn(u32, u32, BinOp) -> u32>(
    matched: JitAST,
    scope: &mut Scope,
    rules: &Vec<RewriteRule>,
    binder: &mut VarBinder,
    fold: &F,
) -> (r: Result<LoweredAST, LowerError>)
    requires
        fold_ok(*fold),
    ensures
        grows(*old(scope), *final(scope), *old(binder), *final(binder)),
        r matches Ok(x) ==> is_call(x@, "floor_mod"@, 2),
        meets(
            call2_spec(env_for(rules@, *old(binder), *fold), matched@, "floor_mod"@, state_of(*old(scope), *old(binder))),
            r,
            *old(scope),
            *final(scope),
            *final(binder),
        ),
    decreases jit_size(matched@), 1nat,
{
    binary_call(matched, "floor_mod", scope, rules, binder, fold)
}

/// `exp2(x)` of the lowered operand.
pub fn exp2<F: Fn(u32, u32, BinOp) -> u32>(
    matched: JitAST,
    scope: &mut Scope,
    rules: &Vec<RewriteRule>,
    binder: &mut VarBinder,
    fold: &F,
) -> (r: Result<LoweredAST, LowerError>)
    requires
        fold_ok(*fold),
    ensures
        grows(*old(scope), *final(scope), *old(binder), *final(binder)),
        r matches Ok(x) ==> is_call(x@, "exp2"@, 1),
        meets(
            call1_spec(env_for(rules@, *old(binder), *fold), matched@, "exp2"@, state_of(*old(scope), *old(binder))),
            r,
            *old(scope),
            *final(scope),
            *final(binder),
        ),
    decreases jit_size(matched@), 1nat,
{
    unary_call(matched, "exp2", scope, rules, binder, fold)
}

/// `log2(x)` of the lowered operand.
pub fn log2<F: Fn(u32, u32, BinOp) -> u32>(
    matched: JitAST,
    scope: &mut Scope,
    rules: &Vec<RewriteRule>,
    binder: &mut VarBinder,
    fold: &F,
) -> (r: Result<LoweredAST, LowerError>)
    requires
        fold_ok(*fold),
    ensures
        grows(*old(scope), *final(scope), *old(binder), *final(binder)),
        r matches Ok(x) ==> is_call(x@, "log2"@, 1),
        meets(
            call1_spec(env_for(rules@, *old(binder), *fold), matched@, "log2"@, state_of(*old(scope), *old(binder))),
            r,
            *old(scope),
            *final(scope),
            *final(binder),
        ),
    decreases jit_size(matched@), 1nat,
{
    unary_call(matched, "log2", scope, rules, binder, fold)
}

/// `sin(x)` of the lowered operand.
pub fn sin<F: Fn(u32, u32, BinOp) -> u32>(
    matched: JitAST,
    scope: &mut Scope,
    rules: &Vec<RewriteRule>,
    binder: &mut VarBinder,
    fold: &F,
) -> (r: Result<LoweredAST, LowerError>)
    requires
        fold_ok(*fold),
    ensures
        grows(*old(scope), *final(scope), *old(binder), *final(binder)),
        r matches Ok(x) ==> is_call(x@, "sin"@, 1),
        meets(
            call1_spec(env_for(rules@, *old(binder), *fold), matched@, "sin"@, state_of(*old(scope), *old(binder))),
            r,
            *old(scope),
            *final(scope),
            *final(binder),
        ),
    decreases jit_size(matched@), 1nat,
{
    unary_call(matched, "sin", scope, rules, binder, fold)
}

/// `sqrt(x)` of the lowered operand.
pub fn sqrt<F: Fn(u32, u32, BinOp) -> u32>(
    matched: JitAST,
    scope: &mut Scope,
    rules: &Vec<RewriteRule>,
    binder: &mut VarBinder,
    fold: &F,
) -> (r: Result<LoweredAST, LowerError>)
    requires
        fold_ok(*fold),
    ensures
        grows(*old(scope), *final(scope), *old(binder), *final(binder)),
        r matches Ok(x) ==> is_call(x@, "sqrt"@, 1),
        meets(
            call1_spec(env_for(rules@, *old(binder), *fold), matched@, "sqrt"@, state_of(*old(scope), *old(binder))),
            r,
            *old(scope),
            *final(scope),
            *final(binder),
        ),
    decreases jit_size(matched@), 1nat,
{
    unary_call(matched, "sqrt", scope, rules, binder, fold)
}

/// `reciprocal(x)` of the lowered operand.
pub fn reciprocal<F: Fn(u32, u32, BinOp) -> u32>(
    matched: JitAST,
    scope: &mut Scope,
    rules: &Vec<RewriteRule>,
    binder: &mut VarBinder,
    fold: &F,
) -> (r: Result<LoweredAST, LowerError>)
    requires
        fold_ok(*fold),
    ensures
        grows(*old(scope), *final(scope), *old(binder), *final(binder)),
        r matches Ok(x) ==> is_call(x@, "reciprocal"@, 1),
        meets(
            call1_spec(env_for(rules@, *old(binder), *fold), matched@, "reciprocal"@, state_of(*old(scope), *old(binder))),
            r,
            *old(scope),
            *final(scope),
            *final(binder),
        ),
    decreases jit_size(matched@), 1nat,
{
    unary_call(matched, "reciprocal", scope, rules, binder, fold)
}

/// `trunc(x)` of the lowered operand.
pub fn trunc<F: Fn(u32, u32, BinOp) -> u32>(
    matched: JitAST,
    scope: &mut Scope,
    rules: &Vec<RewriteRule>,
    binder: &mut VarBinder,
    fold: &F,
) -> (r: Result<LoweredAST, LowerError>)
    requires
        fold_ok(*fold),
    ensures
        grows(*old(scope), *final(scope), *old(binder), *final(binder)),
        r matches Ok(x) ==> is_call(x@, "trunc"@, 1),
        meets(
            call1_spec(env_for(rules@, *old(binder), *fold), matched@, "trunc"@, state_of(*old(scope), *old(binder))),
            r,
            *old(scope),
            *final(scope),
            *final(binder),
        ),
    decreases jit_size(matched@), 1nat,
{
    unary_call(matched, "trunc", scope, rules, binder, fold)
}

/// `bitcast(x)` of the lowered operand.
pub fn bitcast<F: Fn(u32, u32, BinOp) -> u32>(
    matched: JitAST,
    scope: &mut Scope,
    rules: &Vec<RewriteRule>,
    binder: &mut VarBinder,
    fold: &F,
) -> (r: Result<LoweredAST, LowerError>)
    requires
        fold_ok(*fold),
    ensures
        grows(*old(scope), *final(scope), *old(binder), *final(binder)),
        r matches Ok(x) ==> is_call(x@, "bitcast"@, 1),
        meets(
            call1_spec(env_for(rules@, *old(binder), *fold), matched@, "bitcast"@, state_of(*old(scope), *old(binder))),
            r,
            *old(scope),
            *final(scope),
            *final(binder),
        ),
    decreases jit_size(matched@), 1nat,
{
    unary_call(matched, "bitcast", scope, rules, binder, fold)
}

/// A whole reduction, lowered as a full reduction of its operand.
pub fn all_reduce<F: Fn(u32, u32, BinOp) -> u32>(
    matched: JitAST,
    scope: &mut Scope,
    rules: &Vec<RewriteRule>,
    binder: &mut VarBinder,
    fold: &F,
) -> (r: Result<LoweredAST, LowerError>)
    requires
        fold_ok(*fold),
    ensures
        grows(*old(scope), *final(scope), *old(binder), *final(binder)),
        r matches Ok(x) ==> (x@ matches SpecAST::Group(stmts) && stmts.len() == 2 && stmts[0] is Store
            && stmts[1] is Load),
        meets(
            reduce_node_spec(env_for(rules@, *old(binder), *fold), matched@, state_of(*old(scope), *old(binder))),
            r,
            *old(scope),
            *final(scope),
            *final(binder),
        ),
    decreases jit_size(matched@), 1nat,
{
    reduce(matched, scope, rules, binder, fold)
}

/// `name(lhs, rhs)` over the lowered operands of a binary operation.
#[verifier::spinoff_prover]
fn binary_call<F: Fn(u32, u32, BinOp) -> u32>(
    matched: JitAST,
    name: &str,
    scope: &mut Scope,
    rules: &Vec<RewriteRule>,
    binder: &mut VarBinder,
    fold: &F,
) -> (r: Result<LoweredAST, LowerError>)
    requires
        fold_ok(*fold),
    ensures
        grows(*old(scope), *final(scope), *old(binder), *final(binder)),
        r matches Ok(x) ==> (x@ matches SpecAST::FunctionCall { ident, args } && ident == name@
            && args.len() == 2),
        meets(
            call2_spec(env_for(rules@, *old(binder), *fold), matched@, name@, state_of(*old(scope), *old(binder))),
            r,
            *old(scope),
            *final(scope),
            *final(binder),
        ),
    decreases jit_size(matched@), 0nat,
{
    proof {
        lemma_grows_refl(*scope, *binder);
    }
    match matched {
        JitAST::BinOp { lhs, rhs, .. } => {
            let ghost s0 = *scope;
            let ghost b0 = *binder;
            let l = graph_rewrite(*lhs, scope, rules, binder, fold)?;
            let ghost s1 = *scope;
            let ghost b1 = *binder;
            let r = graph_rewrite(*rhs, scope, rules, binder, fold);
            proof {
                lemma_grows_trans(s0, s1, *scope, b0, b1, *binder);
            }
            let r = r?;
            Ok(call2(name, l, r))
        },
        _ => Err(LowerError::Unhandled),
    }
}

/// `name(x)` over the lowered operand of a unary operation.
fn unary_call<F: Fn(u32, u32, BinOp) -> u32>(
    matched: JitAST,
    name: &str,
    scope: &mut Scope,
    rules: &Vec<RewriteRule>,
    binder: &mut VarBinder,
    fold: &F,
) -> (r: Result<LoweredAST, LowerError>)
    requires
        fold_ok(*fold),
    ensures
        grows(*old(scope), *final(scope), *old(binder), *final(binder)),
        r matches Ok(x) ==> (x@ matches SpecAST::FunctionCall { ident, args } && ident == name@
            && args.len() == 1),
        meets(
            call1_spec(env_for(rules@, *old(binder), *fold), matched@, name@, state_of(*old(scope), *old(binder))),
            r,
            *old(scope),
            *final(scope),
            *final(binder),
        ),
    decreases jit_size(matched@), 0nat,
{
    proof {
        lemma_grows_refl(*scope, *binder);
    }
    match matched {
        JitAST::UnaryOp { operand, .. } => {
            let o = graph_rewrite(*operand, scope, rules, binder, fold)?;
            Ok(call1(name, o))
        },
        _ => Err(LowerError::Unhandled),
    }
}

/// `lhs * 2654435761u + rhs`.
pub fn threefry<F: Fn(u32, u32, BinOp) -> u32>(
    matched: JitAST,
    scope: &mut Scope,
    rules: &Vec<RewriteRule>,
    binder: &mut VarBinder,
    fold: &F,
) -> (r: Result<LoweredAST, LowerError>)
    requires
        fold_ok(*fold),
    ensures
        grows(*old(scope), *final(scope), *old(binder), *final(binder)),
        r matches Ok(x) ==> (x@ matches SpecAST::BinaryOp { lhs, op, .. } && op == BinOp::Add
            && (*lhs matches SpecAST::BinaryOp { rhs: key, op: mul, .. } && mul == BinOp::Mul && *key
            == crate::asts::lowered::u32_ast(2654435761u32))),
        meets(
            apply_spec(env_for(rules@, *old(binder), *fold), PostTransform::Threefry, matched@, state_of(*old(scope), *old(binder))),
            r,
            *old(scope),
            *final(scope),
            *final(binder),
        ),
    decreases jit_size(matched@), 0nat,
{
    proof {
        lemma_grows_refl(*scope, *binder);
    }
    match matched {
        JitAST::BinOp { lhs, rhs, .. } => {
            let ghost s0 = *scope;
            let ghost b0 = *binder;
            let l = graph_rewrite(*lhs, scope, rules, binder, fold)?;
            let ghost s1 = *scope;
            let ghost b1 = *binder;
            let r = graph_rewrite(*rhs, scope, rules, binder, fold);
            proof {
                lemma_grows_trans(s0, s1, *scope, b0, b1, *binder);
            }
            let r = r?;
            let key = LoweredAST::from_u32(2654435761u32);
            Ok(LoweredAST::binary(LoweredAST::binary(l, key, BinOp::Mul), r, BinOp::Add))
        },
        _ => Err(LowerError::Unhandled),
    }
}

/// `a * b + c`.
pub fn ternary_mulacc<F: Fn(u32, u32, BinOp) -> u32>(
    matched: JitAST,
    scope: &mut Scope,
    rules: &Vec<RewriteRule>,
    binder: &mut VarBinder,
    fold: &F,
) -> (r: Result<LoweredAST, LowerError>)
    requires
        fold_ok(*fold),
    ensures
        grows(*old(scope), *final(scope), *old(binder), *final(binder)),
        r matches Ok(x) ==> is_mul_add(x@),
        meets(
            apply_spec(env_for(rules@, *old(binder), *fold), PostTransform::TernaryMulacc, matched@, state_of(*old(scope), *old(binder))),
            r,
            *old(scope),
            *final(scope),
            *final(binder),
        ),
    decreases jit_size(matched@), 0nat,
{
    proof {
        lemma_grows_refl(*scope, *binder);
    }
    match matched {
        JitAST::Ternary { a, b, c, .. } => {
            let ghost s0 = *scope;
            let ghost b0 = *binder;
            let x = graph_rewrite(*a, scope, rules, binder, fold)?;
            let ghost s1 = *scope;
            let ghost b1 = *binder;
            let y = graph_rewrite(*b, scope, rules, binder, fold);
            proof {
                lemma_grows_trans(s0, s1, *scope, b0, b1, *binder);
            }
            let y = y?;
            let ghost s2 = *scope;
            let ghost b2 = *binder;
            let z = graph_rewrite(*c, scope, rules, binder, fold);
            proof {
                lemma_grows_trans(s0, s2, *scope, b0, b2, *binder);
            }
            let z = z?;
            Ok(LoweredAST::binary(LoweredAST::binary(x, y, BinOp::Mul), z, BinOp::Add))
        },
        _ => Err(LowerError::Unhandled),
    }
}

/// `op x` for a basic unary operation.
pub fn unaryop_basic<F: Fn(u32, u32, BinOp) -> u32>(
    matched: JitAST,
    scope: &mut Scope,
    rules: &Vec<RewriteRule>,
    binder: &mut VarBinder,
    fold: &F,
) -> (r: Result<LoweredAST, LowerError>)
    requires
        fold_ok(*fold),
    ensures
        grows(*old(scope), *final(scope), *old(binder), *final(binder)),
        r matches Ok(x) ==> x@ is UnaryOp,
        matched matches JitAST::UnaryOp { op, .. } && !(op is Basic) ==> r is Err,
        meets(
            unary_basic_spec(env_for(rules@, *old(binder), *fold), matched@, state_of(*old(scope), *old(binder))),
            r,
            *old(scope),
            *final(scope),
            *final(binder),
        ),
    decreases jit_size(matched@), 0nat,
{
    proof {
        lemma_grows_refl(*scope, *binder);
    }
    match matched {
        JitAST::UnaryOp { operand, op } => {
            let o = graph_rewrite(*operand, scope, rules, binder, fold)?;
            match op {
                JitUnaryOp::Basic(u) => Ok(LoweredAST::unary(o, u)),
                _ => Err(LowerError::UnexpectedOp),
            }
        },
        _ => Err(LowerError::Unhandled),
    }
}

/// `lhs op rhs` for a basic binary operation, after simplifying both
/// operands and the operation itself.
pub fn binop_basic<F: Fn(u32, u32, BinOp) -> u32>(
    matched: JitAST,
    scope: &mut Scope,
    rules: &Vec<RewriteRule>,
    binder: &mut VarBinder,
    fold: &F,
) -> (r: Result<LoweredAST, LowerError>)
    requires
        fold_ok(*fold),
    ensures
        grows(*old(scope), *final(scope), *old(binder), *final(binder)),
        meets(
            binary_basic_spec(env_for(rules@, *old(binder), *fold), matched@, state_of(*old(scope), *old(binder))),
            r,
            *old(scope),
            *final(scope),
            *final(binder),
        ),
    decreases jit_size(matched@), 0nat,
{
    proof {
        lemma_grows_refl(*scope, *binder);
    }
    match matched {
        JitAST::BinOp { lhs, rhs, op } => {
            let ghost lv = lhs@;
            let ghost rv = rhs@;
            let l = match simplify_node(*lhs, fold) {
                Some(l) => l,
                None => {
                    return Err(LowerError::BadConstant);
                },
            };
            let r = match simplify_node(*rhs, fold) {
                Some(r) => r,
                None => {
                    return Err(LowerError::BadConstant);
                },
            };
            proof {
                lemma_simplify_node_size(lv, folder(*fold));
                lemma_simplify_node_size(rv, folder(*fold));
                lemma_simplify_binop_size(l@, r@, op, folder(*fold));
            }
            match simplify_binop(clone_jit(&l), clone_jit(&r), &op, fold) {
                None => Err(LowerError::BadConstant),
                Some(Some(simple)) => graph_rewrite(simple, scope, rules, binder, fold),
                Some(None) => {
                    let ghost s0 = *scope;
                    let ghost b0 = *binder;
                    let lw = graph_rewrite(l, scope, rules, binder, fold)?;
                    let ghost s1 = *scope;
                    let ghost b1 = *binder;
                    let rw = graph_rewrite(r, scope, rules, binder, fold);
                    proof {
                        lemma_grows_trans(s0, s1, *scope, b0, b1, *binder);
                    }
                    let rw = rw?;
                    match op {
                        JitBinOp::Basic(b) => Ok(LoweredAST::binary(lw, rw, b)),
                        _ => Err(LowerError::UnexpectedOp),
                    }
                },
            }
        },
        _ => Err(LowerError::Unhandled),
    }
}

/// The lowered reduction `acc = identity; acc = acc op x; acc`.
#[verifier::spinoff_prover]
pub fn lower_reduce<F: Fn(u32, u32, BinOp) -> u32>(
    operand: JitAST,
    op: ReduceOp,
    scope: &mut Scope,
    rules: &Vec<RewriteRule>,
    binder: &mut VarBinder,
    fold: &F,
) -> (r: Result<LoweredAST, LowerError>)
    requires
        fold_ok(*fold),
    ensures
        grows(*old(scope), *final(scope), *old(binder), *final(binder)),
        r matches Ok(x) ==> (x@ matches SpecAST::Group(stmts) && stmts.len() == 2 && stmts[0] is Store
            && stmts[1] is Load),
        meets(
            reduce_spec(env_for(rules@, *old(binder), *fold), operand@, op, state_of(*old(scope), *old(binder))),
            r,
            *old(scope),
            *final(scope),
            *final(binder),
        ),
    decreases jit_size(operand@), 5nat,
{
    proof {
        lemma_grows_refl(*scope, *binder);
    }
    let init = identity(&operand, &op)?;
    let ghost s0 = *scope;
    let ghost b0 = *binder;
    let lowered = graph_rewrite(operand, scope, rules, binder, fold)?;
    let ghost s1 = *scope;
    let acc = add_mut(scope, init);
    proof {
        lemma_binder_grows_refl(*binder);
        lemma_grows_trans(s0, s1, *scope, b0, *binder, *binder);
    }
    let value = combine(&op, local(acc).load(), lowered);
    let store = local(acc).store(value);
    let mut stmts: Vec<LoweredAST> = Vec::new();
    stmts.push(store);
    stmts.push(LoweredAST::Load(local(acc)));
    proof {
        assert(stmts@ =~= seq![stmts@[0], stmts@[1]]);
        lemma_asts_view_small(stmts@[0], stmts@[1], stmts@[1]);
    }
    Ok(LoweredAST::Group(stmts))
}

/// A reduction (along an axis or whole) lowered as a full reduction of its operand.
pub fn reduce<F: Fn(u32, u32, BinOp) -> u32>(
    matched: JitAST,
    scope: &mut Scope,
    rules: &Vec<RewriteRule>,
    binder: &mut VarBinder,
    fold: &F,
) -> (r: Result<LoweredAST, LowerError>)
    requires
        fold_ok(*fold),
    ensures
        grows(*old(scope), *final(scope), *old(binder), *final(binder)),
        r matches Ok(x) ==> (x@ matches SpecAST::Group(stmts) && stmts.len() == 2 && stmts[0] is Store
            && stmts[1] is Load),
        meets(
            reduce_node_spec(env_for(rules@, *old(binder), *fold), matched@, state_of(*old(scope), *old(binder))),
            r,
            *old(scope),
            *final(scope),
            *final(binder),
        ),
    decreases jit_size(matched@), 0nat,
{
    proof {
        lemma_grows_refl(*scope, *binder);
    }
    match matched {
        JitAST::Reduce { operand, op, .. } => lower_reduce(*operand, op, scope, rules, binder, fold),
        JitAST::AllReduce { operand, op } => lower_reduce(*operand, op, scope, rules, binder, fold),
        _ => Err(LowerError::Unhandled),
    }
}


/// Loads of the components `x`, `y`, `z`, `w` of `var`, as many as `src_count`,
/// then zero words up to `dst_count` components.
fn cast_components(var: &VarRefType, src_count: usize, dst_count: usize) -> (r: Vec<
    LoweredASTOrConst,
>)
    requires
        src_count <= 4 || dst_count <= 4,
    ensures
        r@.len() == dst_count,
        const_parts_view(r@) == cast_parts(var@, src_count as nat, dst_count as nat),
{
    proof {
        reveal(cast_parts);
    }
    let ghost want = cast_parts(var@, src_count as nat, dst_count as nat);
    let mut data: Vec<LoweredASTOrConst> = Vec::new();
    let mut i: usize = 0;
    proof {
        assert(const_parts_view(data@) =~= want.take(0));
    }
    while i < dst_count
        invariant
            i <= dst_count,
            data@.len() == i,
            src_count <= 4 || dst_count <= 4,
            want == cast_parts(var@, src_count as nat, dst_count as nat),
            const_parts_view(data@) == want.take(i as int),
        decreases dst_count - i,
    {
        let ghost before = data@;
        proof {
            reveal(cast_parts);
        }
        if i < src_count {
            let v = clone_var_ref_type(var);
            let field = if i == 0 {
                v.f("x")
            } else if i == 1 {
                v.f("y")
            } else if i == 2 {
                v.f("z")
            } else {
                v.f("w")
            };
            proof {
                assert(field@ == spec_with_accessor(var@, SpecAccessor::Field(component_name(i as int))));
            }
            data.push(LoweredASTOrConst::LoweredAST(field.load()));
        } else {
            data.push(LoweredASTOrConst::Const(u32_le_bytes(0)));
        }
        proof {
            assert(data@.drop_last() =~= before);
            assert(const_part_view(data@.last()) == want[i as int]);
            assert(const_parts_view(data@) == const_parts_view(before).push(want[i as int]));
            assert(const_parts_view(data@) =~= want.take(i + 1));
        }
        i = i + 1;
    }
    proof {
        assert(want.take(dst_count as int) =~= want);
    }
    data
}

/// A cast: a constant of the target type whose single component is the
/// lowered operand when the component counts agree, and otherwise the
/// operand's components (through a local when the operand is not a load),
/// padded with zeros.
pub fn cast<F: Fn(u32, u32, BinOp) -> u32>(
    matched: JitAST,
    scope: &mut Scope,
    rules: &Vec<RewriteRule>,
    binder: &mut VarBinder,
    fold: &F,
) -> (r: Result<LoweredAST, LowerError>)
    requires
        fold_ok(*fold),
    ensures
        grows(*old(scope), *final(scope), *old(binder), *final(binder)),
        r matches Ok(x) ==> (matched@ matches SpecJit::Cast { dt, .. } && (x@ matches SpecAST::Const {
            dt: d,
            data,
        } && d == dt && (data.len() == 1 || data.len() == dt.spec_element_count()))),
        meets(
            cast_spec(env_for(rules@, *old(binder), *fold), matched@, state_of(*old(scope), *old(binder))),
            r,
            *old(scope),
            *final(scope),
            *final(binder),
        ),
    decreases jit_size(matched@), 0nat,
{
    proof {
        lemma_grows_refl(*scope, *binder);
    }
    match matched {
        JitAST::Cast { operand, dt } => {
            let src_dt = match operand.try_dt() {
                Some(d) => d,
                None => {
                    return Err(LowerError::BadShape);
                },
            };
            let src_count = src_dt.element_count();
            let dst_count = dt.element_count();
            let ghost s0 = *scope;
            let ghost b0 = *binder;
            let o = graph_rewrite(*operand, scope, rules, binder, fold)?;
            if src_count == dst_count {
                let mut data: Vec<LoweredASTOrConst> = Vec::new();
                data.push(LoweredASTOrConst::LoweredAST(o));
                proof {
                    assert(data@ =~= seq![data@[0]]);
                    crate::asts::lowered::lemma_const_parts_single(data@[0]);
                }
                return Ok(LoweredAST::Const { dt, data });
            }
            if src_count > 4 && dst_count > 4 {
                return Err(LowerError::BadShape);
            }
            let ghost s1 = *scope;
            let var = match o {
                LoweredAST::Load(v) => v,
                other => {
                    let tmp = add_var(scope, other);
                    local(tmp)
                },
            };
            proof {
                lemma_scope_grows_refl(s1);
                lemma_binder_grows_refl(*binder);
                if *scope != s1 {
                    lemma_grows_trans(s0, s1, *scope, b0, *binder, *binder);
                }
            }
            let data = cast_components(&var, src_count, dst_count);
            proof {
                crate::asts::lowered::lemma_const_parts_len(data@);
            }
            Ok(LoweredAST::Const { dt, data })
        },
        _ => Err(LowerError::Unhandled),
    }
}

/// `expr[local loop_idx]` when `dt` is an array (then `expr` must be a
/// load), `expr` itself otherwise.
fn index_if_array(expr: LoweredAST, dt: &DType, loop_idx: usize) -> (r: Result<
    LoweredAST,
    LowerError,
>)
    ensures
        !(dt is Vector && dt->Vector_0 is Array) ==> r == Ok::<LoweredAST, LowerError>(expr),
        dt is Vector && dt->Vector_0 is Array ==> (r is Err <==> !(expr is Load)),
        res_view(r) == index_if_spec(expr@, *dt, loop_idx as nat),
{
    match dt {
        DType::Vector(VecTy::Array(_, _)) => match expr {
            LoweredAST::Load(var) => {
                proof {
                    reveal_with_fuel(crate::asts::lowered::ast_view, 2);
                }
                Ok(LoweredAST::Load(var.i(local(loop_idx).load())))
            },
            _ => Err(LowerError::NotIndexable),
        },
        _ => Ok(expr),
    }
}

/// An element-wise selection over arrays of `n` elements: a loop that
/// stores `select(b[i], a[i], c[i])` into a fresh local array.
fn lower_where_array(
    a: LoweredAST,
    b: LoweredAST,
    c: LoweredAST,
    a_dt: &DType,
    b_dt: &DType,
    c_dt: &DType,
    n: u32,
    result_dt: DType,
    scope: &mut Scope,
) -> (r: Result<LoweredAST, LowerError>)
    requires
        result_dt == *a_dt,
    ensures
        scope_grows(*old(scope), *final(scope)),
        r matches Ok(x) ==> (x@ matches SpecAST::Group(stmts) && stmts.len() == 2 && stmts[0] is ForLoop
            && stmts[1] is Load),
        ({
            let w = where_array_spec(
                locals_view(old(scope).local_vars@),
                scopes_view(old(scope).child_scopes@),
                a@,
                b@,
                c@,
                *a_dt,
                *b_dt,
                *c_dt,
                n,
            );
            &&& res_view(r) == w.0
            &&& locals_view(final(scope).local_vars@) == w.1
            &&& scopes_view(final(scope).child_scopes@) == w.2
        }),
        final(scope).ast == old(scope).ast,
        final(scope).num_inherited_locals == old(scope).num_inherited_locals,
{
    proof {
        reveal(where_array_spec);
    }
    let loop_idx = add_var(scope, LoweredAST::from_u32(0));
    let ghost s1 = *scope;
    let empty: Vec<LoweredASTOrConst> = Vec::new();
    proof {
        assert(const_parts_view(empty@) =~= Seq::<SpecConstPart>::empty());
    }
    let result_id = add_mut(scope, LoweredAST::Const { dt: result_dt, data: empty });
    proof {
        lemma_scope_grows_trans(*old(scope), s1, *scope);
    }
    let mut body = scope.fresh_child();
    let ghost l2 = locals_view(scope.local_vars@);
    let bi = index_if_array(b, b_dt, loop_idx)?;
    let ai = index_if_array(a, a_dt, loop_idx)?;
    let ci = index_if_array(c, c_dt, loop_idx)?;
    body.ast = Some(local(result_id).i(local(loop_idx).load()).store(call3("select", bi, ai, ci)));
    proof {
        assert(scopes_view(body.child_scopes@) =~= Seq::<crate::asts::lowered::scope::SpecScope>::empty());
        assert(locals_view(body.local_vars@).len() == body.local_vars@.len());
    }
    let ghost bodyv = scope_view(body);
    let ghost s2 = *scope;
    let for_loop = attach_for(
        scope,
        Some(local(loop_idx).store(LoweredAST::from_u32(0))),
        local(loop_idx).load().lt(LoweredAST::from_u32(n)),
        local(loop_idx).store(local(loop_idx).load() + LoweredAST::from_u32(1)),
        body,
    );
    proof {
        lemma_scope_grows_trans(*old(scope), s2, *scope);
        assert(scope.child_scopes@.subrange(0, scope.child_scopes@.len() - 1) =~= s2.child_scopes@);
        assert(scopes_view(scope.child_scopes@) == scopes_view(s2.child_scopes@).push(bodyv));
        crate::asts::lowered::scope::lemma_scopes_view(s2.child_scopes@);
        assert(for_loop@ == counted_loop(loop_idx as nat, n, s2.child_scopes@.len(), true));
    }
    let mut stmts: Vec<LoweredAST> = Vec::new();
    stmts.push(for_loop);
    stmts.push(LoweredAST::Load(local(result_id)));
    proof {
        assert(stmts@ =~= seq![stmts@[0], stmts@[1]]);
        lemma_asts_view_small(stmts@[0], stmts@[1], stmts@[1]);
    }
    Ok(LoweredAST::Group(stmts))
}

/// `select(b, a, c)`, element by element when the type of `a` is a sized array.
#[verifier::rlimit(40)]
pub fn ternary_where<F: Fn(u32, u32, BinOp) -> u32>(
    matched: JitAST,
    scope: &mut Scope,
    rules: &Vec<RewriteRule>,
    binder: &mut VarBinder,
    fold: &F,
) -> (r: Result<LoweredAST, LowerError>)
    requires
        fold_ok(*fold),
    ensures
        grows(*old(scope), *final(scope), *old(binder), *final(binder)),
        r matches Ok(x) ==> is_call(x@, "select"@, 3) || x@ is Group,
        meets(
            where_spec(env_for(rules@, *old(binder), *fold), matched@, state_of(*old(scope), *old(binder))),
            r,
            *old(scope),
            *final(scope),
            *final(binder),
        ),
    decreases jit_size(matched@), 0nat,
{
    proof {
        lemma_grows_refl(*scope, *binder);
    }
    match matched {
        JitAST::Ternary { a, b, c, .. } => {
            let a_dt = match a.try_dt() {
                Some(d) => d,
                None => {
                    return Err(LowerError::BadShape);
                },
            };
            let b_dt = match b.try_dt() {
                Some(d) => d,
                None => {
                    return Err(LowerError::BadShape);
                },
            };
            let c_dt = match c.try_dt() {
                Some(d) => d,
                None => {
                    return Err(LowerError::BadShape);
                },
            };
            let result_dt = a_dt.clone();
            let ghost s0 = *scope;
            let ghost b0 = *binder;
            let x = graph_rewrite(*a, scope, rules, binder, fold)?;
            let ghost s1 = *scope;
            let ghost b1 = *binder;
            let y = graph_rewrite(*b, scope, rules, binder, fold);
            proof {
                lemma_grows_trans(s0, s1, *scope, b0, b1, *binder);
            }
            let y = y?;
            let ghost s2 = *scope;
            let ghost b2 = *binder;
            let z = graph_rewrite(*c, scope, rules, binder, fold);
            proof {
                lemma_grows_trans(s0, s2, *scope, b0, b2, *binder);
            }
            let z = z?;
            match result_dt {
                DType::Vector(VecTy::Array(_, Some(n))) => {
                    let ghost s3 = *scope;
                    let r = lower_where_array(x, y, z, &a_dt, &b_dt, &c_dt, n, a_dt.clone(), scope);
                    proof {
                        lemma_binder_grows_refl(*binder);
                        lemma_grows_trans(s0, s3, *scope, b0, *binder, *binder);
                    }
                    r
                },
                _ => Ok(call3("select", y, x, z)),
            }
        },
        _ => Err(LowerError::Unhandled),
    }
}

/// The shapes along the chain of movements at the top of `a`, outermost
/// first and the base's last; `None` when one of them has none.
pub open spec fn chain_shapes(a: SpecJit) -> Option<Seq<Seq<usize>>>
    decreases a,
{
    match spec_shape(a) {
        None => None,
        Some(s) => match a {
            SpecJit::Movement { operand, .. } => match chain_shapes(*operand) {
                Some(rest) => Some(seq![s] + rest),
                None => None,
            },
            _ => Some(seq![s]),
        },
    }
}

proof fn lemma_chain_shapes_len(a: SpecJit)
    ensures
        chain_shapes(a) matches Some(v) ==> v.len() == chain_ops(a).len() + 1,
    decreases a,
{
    match a {
        SpecJit::Movement { operand, .. } => {
            lemma_chain_shapes_len(*operand);
        },
        _ => {},
    }
}

/// Appends to `out` the shapes of `chain_shapes(a)`; false (and `out`
/// unspecified) when one is missing.
fn push_chain_shapes(a: &JitAST, out: &mut Vec<Vec<usize>>) -> (r: bool)
    ensures
        r <==> chain_shapes(a@) is Some,
        r ==> shape_views(final(out)@) == shape_views(old(out)@) + chain_shapes(a@)->Some_0,
    decreases a,
{
    let s = match a.try_shape() {
        Some(s) => s,
        None => {
            return false;
        },
    };
    let ghost sv = s@;
    let ghost before = out@;
    out.push(s);
    proof {
        assert(shape_views(out@) =~= shape_views(before) + seq![sv]);
    }
    match a {
        JitAST::Movement { operand, .. } => {
            let ghost mid = out@;
            let ok = push_chain_shapes(operand, out);
            proof {
                if ok {
                    assert(shape_views(out@) =~= shape_views(before) + (seq![sv] + chain_shapes(
                        operand@,
                    )->Some_0));
                }
            }
            ok
        },
        _ => true,
    }
}

/// The shapes along the chain of movements at the top of `a`.
fn movement_shapes(a: &JitAST) -> (r: Option<Vec<Vec<usize>>>)
    ensures
        match r {
            Some(v) => chain_shapes(a@) == Some(shape_views(v@)),
            None => chain_shapes(a@) is None,
        },
{
    let mut out: Vec<Vec<usize>> = Vec::new();
    proof {
        assert(shape_views(out@) =~= Seq::<Seq<usize>>::empty());
    }
    if push_chain_shapes(a, &mut out) {
        proof {
            assert(Seq::<Seq<usize>>::empty() + chain_shapes(a@)->Some_0 =~= chain_shapes(a@)->Some_0);
        }
        Some(out)
    } else {
        None
    }
}

/// The row-major coordinates of the index `linear` in `shape`, through a
/// chain of locals holding the remainders: `[linear]` for at most one axis.
fn decompose_linear(scope: &mut Scope, linear: LoweredAST, shape: &Vec<usize>) -> (r: Option<
    Vec<LoweredAST>,
>)
    ensures
        scope_grows(*old(scope), *final(scope)),
        r matches Some(v) ==> v@.len() == if shape@.len() <= 1 {
            1
        } else {
            shape@.len()
        },
        decompose_spec(locals_view(old(scope).local_vars@), linear@, shape@) == (
        match r {
            Some(v) => Some(ast_views(v@)),
            None => None,
        },
        locals_view(final(scope).local_vars@)),
        final(scope).ast == old(scope).ast,
        final(scope).num_inherited_locals == old(scope).num_inherited_locals,
        final(scope).child_scopes == old(scope).child_scopes,
{
    proof {
        reveal(decompose_spec);
    }
    let ghost lin = linear@;
    let mut coords: Vec<LoweredAST> = Vec::new();
    if shape.len() <= 1 {
        coords.push(linear);
        proof {
            lemma_scope_grows_refl(*scope);
            assert(ast_views(coords@) =~= seq![lin]);
        }
        return Some(coords);
    }
    let ghost l0 = locals_view(scope.local_vars@);
    let mut rem_var = add_var(scope, linear);
    let ghost whole = decompose_spec(l0, lin, shape@);
    let n = shape.len() - 1;
    let mut i: usize = 0;
    proof {
        assert(ast_views(coords@) =~= Seq::<SpecAST>::empty());
        lemma_prepend_coords(Seq::empty(), Seq::empty(), decompose_from(
            locals_view(scope.local_vars@),
            rem_var as nat,
            shape@,
            0,
        ));
    }
    while i < n
        invariant
            n + 1 == shape@.len(),
            i <= n,
            coords@.len() == i,
            scope_grows(*old(scope), *scope),
            scope.ast == old(scope).ast,
            scope.num_inherited_locals == old(scope).num_inherited_locals,
            scope.child_scopes == old(scope).child_scopes,
            rem_var < locals_view(scope.local_vars@).len(),
            lin == linear@,
            whole == decompose_spec(locals_view(old(scope).local_vars@), lin, shape@),
            whole == prepend_coords(
                ast_views(coords@),
                decompose_from(locals_view(scope.local_vars@), rem_var as nat, shape@, i as nat),
            ),
        decreases n - i,
    {
        let ghost lc = locals_view(scope.local_vars@);
        let ghost cv = ast_views(coords@);
        let stride = match try_stride(shape.as_slice(), i) {
            Some(st) => st,
            None => {
                proof {
                    assert(decompose_from(lc, rem_var as nat, shape@, i as nat) == (None::<Seq<SpecAST>>, lc));
                    assert(whole == (None::<Seq<SpecAST>>, lc));
                    assert(locals_view(scope.local_vars@) == lc);
                }
                return None;
            },
        };
        let ghost sa = *scope;
        let new_rem = add_var(scope, local(rem_var).load() % LoweredAST::from_u32(stride));
        proof {
            lemma_scope_grows_trans(*old(scope), sa, *scope);
        }
        let ghost div = bin_of(local_load(rem_var as nat), u32_ast(stride), BinOp::Div);
        coords.push(local(rem_var).load() / LoweredAST::from_u32(stride));
        proof {
            assert(ast_views(coords@) =~= cv + seq![div]);
            lemma_prepend_coords(cv, seq![div], decompose_from(
                locals_view(scope.local_vars@),
                new_rem as nat,
                shape@,
                (i + 1) as nat,
            ));
        }
        rem_var = new_rem;
        i = i + 1;
    }
    let ghost cv = ast_views(coords@);
    coords.push(local(rem_var).load());
    proof {
        assert(ast_views(coords@) =~= cv + seq![local_load(rem_var as nat)]);
    }
    Some(coords)
}

/// The load of input `binding_id` at the source index of this invocation's
/// element (see `gather_spec`).
fn gather(
    scope: &mut Scope,
    binding_id: usize,
    out_shape: &Vec<usize>,
    chain: &[&MovOp],
    shapes: &[Vec<usize>],
    base_shape: &Vec<usize>,
    base: &JitAST,
) -> (r: Result<LoweredAST, LowerError>)
    ensures
        scope_grows(*old(scope), *final(scope)),
        gather_spec(
            locals_view(old(scope).local_vars@),
            binding_id,
            out_shape@,
            super::movement::chain_views(chain@),
            shape_views(shapes@),
            base_shape@,
            spec_jit_dt(base@),
        ) == (res_view(r), locals_view(final(scope).local_vars@)),
        final(scope).ast == old(scope).ast,
        final(scope).num_inherited_locals == old(scope).num_inherited_locals,
        final(scope).child_scopes == old(scope).child_scopes,
{
    proof {
        reveal(gather_spec);
    }
    let x_load = entrypoint(0).f("x").load();
    proof {
        assert(Seq::<SpecAccessor>::empty().push(SpecAccessor::Field("x"@)) =~= seq![
            SpecAccessor::Field("x"@),
        ]);
        assert(x_load@ == invocation_x());
    }
    let coord = match decompose_linear(scope, x_load, out_shape) {
        Some(c) => c,
        None => {
            return Err(LowerError::BadShape);
        },
    };
    let (result_coord, pad_checks) = match try_apply_chain(coord, chain, shapes) {
        Some(p) => p,
        None => {
            return Err(LowerError::BadShape);
        },
    };
    let source_idx = match try_coord_linearize(result_coord.as_slice(), base_shape.as_slice()) {
        Some(x) => x,
        None => {
            return Err(LowerError::BadShape);
        },
    };
    let base_dt = match base.try_dt() {
        Some(d) => d,
        None => {
            return Err(LowerError::BadShape);
        },
    };
    let ghost src = source_idx@;
    let loaded = global(binding_id).i(source_idx).load();
    proof {
        assert(Seq::<SpecAccessor>::empty().push(SpecAccessor::Index(Box::new(src))) =~= seq![
            SpecAccessor::Index(Box::new(src)),
        ]);
    }
    match try_pad_bounds_check(loaded, pad_checks, &base_dt) {
        Some(x) => Ok(x),
        None => Err(LowerError::BadShape),
    }
}

/// A chain of movements over an input variable, lowered as one load of the
/// variable at the source index of this invocation's element, wrapped in
/// bound checks for padding; over anything else, the lowered base itself.
pub fn movement<F: Fn(u32, u32, BinOp) -> u32>(
    matched: JitAST,
    scope: &mut Scope,
    rules: &Vec<RewriteRule>,
    binder: &mut VarBinder,
    fold: &F,
) -> (r: Result<LoweredAST, LowerError>)
    requires
        fold_ok(*fold),
    ensures
        grows(*old(scope), *final(scope), *old(binder), *final(binder)),
        !(matched is Movement) ==> r == Err::<LoweredAST, LowerError>(LowerError::Unhandled),
        meets(
            movement_spec(env_for(rules@, *old(binder), *fold), matched@, state_of(*old(scope), *old(binder))),
            r,
            *old(scope),
            *final(scope),
            *final(binder),
        ),
    decreases jit_size(matched@), 0nat,
{
    proof {
        lemma_grows_refl(*scope, *binder);
    }
    let ghost mv = matched@;
    let (base, chain) = matched.inner_movement_chain();
    if chain.len() == 0 {
        return Err(LowerError::Unhandled);
    }
    proof {
        if !(mv is Movement) {
            assert(chain_ops(mv) =~= Seq::<super::SpecMovOp>::empty());
            assert(chain@.map_values(|m: &MovOp| m@).len() == chain@.len());
        }
        lemma_chain_base_size(mv);
    }
    let out_shape = match matched.try_shape() {
        Some(s) => s,
        None => {
            return Err(LowerError::BadShape);
        },
    };
    let base_shape = match base.try_shape() {
        Some(s) => s,
        None => {
            return Err(LowerError::BadShape);
        },
    };
    let shapes = match movement_shapes(&matched) {
        Some(s) => s,
        None => {
            return Err(LowerError::BadShape);
        },
    };
    proof {
        assert(jit_size(base@) < jit_size(mv));
        assert(chain_ops(mv).len() == chain@.len());
        assert(super::movement::chain_views(chain@) == chain_ops(mv));
    }
    moved(base, chain.as_slice(), &out_shape, shapes.as_slice(), &base_shape, scope, rules, binder, fold)
}

/// `ast` lowered, as far as the model says (see `graph_rewrite`).
fn lower_node<F: Fn(u32, u32, BinOp) -> u32>(
    ast: JitAST,
    scope: &mut Scope,
    rules: &Vec<RewriteRule>,
    binder: &mut VarBinder,
    fold: &F,
) -> (r: Result<LoweredAST, LowerError>)
    requires
        fold_ok(*fold),
    ensures
        grows(*old(scope), *final(scope), *old(binder), *final(binder)),
        meets(
            lower_spec(env_for(rules@, *old(binder), *fold), ast@, state_of(*old(scope), *old(binder))),
            r,
            *old(scope),
            *final(scope),
            *final(binder),
        ),
    decreases jit_size(ast@), 5nat,
{
    graph_rewrite(ast, scope, rules, binder, fold)
}

/// The base of a chain of movements lowered, then, for a load of an input,
/// the load of the input at the source index (see `moved_spec`).
#[verifier::spinoff_prover]
fn moved<F: Fn(u32, u32, BinOp) -> u32>(
    base: &JitAST,
    chain: &[&MovOp],
    out_shape: &Vec<usize>,
    shapes: &[Vec<usize>],
    base_shape: &Vec<usize>,
    scope: &mut Scope,
    rules: &Vec<RewriteRule>,
    binder: &mut VarBinder,
    fold: &F,
) -> (r: Result<LoweredAST, LowerError>)
    requires
        fold_ok(*fold),
    ensures
        grows(*old(scope), *final(scope), *old(binder), *final(binder)),
        meets(
            moved_spec(
                env_for(rules@, *old(binder), *fold),
                base@,
                super::movement::chain_views(chain@),
                out_shape@,
                shape_views(shapes@),
                base_shape@,
                state_of(*old(scope), *old(binder)),
            ),
            r,
            *old(scope),
            *final(scope),
            *final(binder),
        ),
    decreases jit_size(base@), 6nat,
{
    let ghost s0 = *scope;
    let ghost b0 = *binder;
    let ghost env = env_for(rules@, b0, *fold);
    let ghost o = lower_spec(env, base@, state_of(s0, b0));
    let base_loaded = match lower_node(clone_jit(base), scope, rules, binder, fold) {
        Ok(b) => b,
        Err(e) => {
            return Err(e);
        },
    };
    let ghost bl = base_loaded@;
    proof {
        if o is Some {
            assert(o->Some_0.res == Ok::<SpecAST, LowerError>(bl));
            assert(o->Some_0.st == state_of(*scope, *binder));
        }
    }
    let global_id = match &base_loaded {
        LoweredAST::Load(VarRefType::Global(vr)) => Some(vr.id),
        _ => None,
    };
    proof {
        reveal_with_fuel(crate::asts::lowered::ast_view, 3);
        assert(global_id matches Some(id) ==> (bl matches SpecAST::Load(SpecVarRefType::Global(v))
            && v.id == id));
        assert(global_id is None ==> !(bl matches SpecAST::Load(SpecVarRefType::Global(v))));
    }
    match global_id {
        Some(vid) => {
            let ghost s1 = *scope;
            let r = gather(scope, vid, out_shape, chain, shapes, base_shape, base);
            proof {
                lemma_binder_grows_refl(*binder);
                lemma_grows_trans(s0, s1, *scope, b0, *binder, *binder);
            }
            r
        },
        None => Ok(base_loaded),
    }
}

/// The product of `shape` modulo 2^32; `None` when it overflows `usize`.
fn size_u32(shape: &Vec<usize>) -> (r: Option<u32>)
    ensures
        r == size_spec(shape@),
{
    let mut padded: Vec<usize> = Vec::new();
    padded.push(1);
    let n = shape.len();
    let mut i: usize = 0;
    while i < n
        invariant
            n == shape@.len(),
            i <= n,
            padded@.len() == i + 1,
            padded@ =~= seq![1usize] + shape@.subrange(0, i as int),
        decreases n - i,
    {
        padded.push(shape[i]);
        i = i + 1;
        proof {
            assert(padded@ =~= seq![1usize] + shape@.subrange(0, i as int));
        }
    }
    proof {
        assert(shape@.subrange(0, n as int) =~= shape@);
    }
    try_stride(padded.as_slice(), 0)
}

/// `shape` without axis `ax`.
fn without_axis(shape: &Vec<usize>, ax: usize) -> (r: Vec<usize>)
    requires
        ax < shape@.len(),
    ensures
        r@.len() + 1 == shape@.len(),
        r@ == without_axis_spec(shape@, ax as int),
{
    let mut out: Vec<usize> = Vec::new();
    let n = shape.len();
    let mut i: usize = 0;
    while i < n
        invariant
            n == shape@.len(),
            ax < n,
            i <= n,
            out@.len() == if i <= ax { i as int } else { i - 1 },
            i <= ax ==> out@ =~= shape@.subrange(0, i as int),
            i > ax ==> out@ =~= shape@.subrange(0, ax as int) + shape@.subrange(ax + 1, i as int),
        decreases n - i,
    {
        if i != ax {
            out.push(shape[i]);
        }
        i = i + 1;
    }
    out
}

/// The coordinate of the input: `inner` on axis `ax`, the coordinates of
/// `outer` (one per other axis) on the others.
fn merge_axis(outer: &Vec<LoweredAST>, inner: &LoweredAST, ax: usize, rank: usize) -> (r: Vec<
    LoweredAST,
>)
    requires
        ax < rank,
        rank <= outer@.len() + 1,
    ensures
        r@.len() == rank,
        ast_views(r@) == merge_axis_spec(ast_views(outer@), inner@, ax as int, rank as nat),
{
    let ghost want = merge_axis_spec(ast_views(outer@), inner@, ax as int, rank as nat);
    let mut out: Vec<LoweredAST> = Vec::new();
    let mut d: usize = 0;
    while d < rank
        invariant
            ax < rank,
            rank <= outer@.len() + 1,
            d <= rank,
            out@.len() == d,
            want == merge_axis_spec(ast_views(outer@), inner@, ax as int, rank as nat),
            forall|k: int| 0 <= k < d ==> #[trigger] out@[k]@ == want[k],
        decreases rank - d,
    {
        if d == ax {
            out.push(clone_ast(inner));
        } else {
            let out_d = if d < ax {
                d
            } else {
                d - 1
            };
            out.push(clone_ast(&outer[out_d]));
        }
        d = d + 1;
    }
    proof {
        assert(ast_views(out@) =~= want);
    }
    out
}

/// A constant of type `dt` with each of its `dt.element_count()`
/// components the bytes `bytes`.
fn filled_const(dt: &DType, bytes: &Vec<u8>) -> (r: LoweredAST)
    ensures
        r@ is Const,
        r@ == filled_spec(*dt, bytes@),
{
    LoweredAST::Const { dt: dt.clone(), data: repeated_bytes(bytes, dt.element_count()) }
}

/// What the fused loops of a reduction along an axis need to know of its
/// operand (see `SpecFusePlan`).
struct FusePlan {
    /// The shape of the operand.
    input_shape: Vec<usize>,
    /// The length of the reduced axis, modulo 2^32.
    axis_size: u32,
    /// The shape without the reduced axis.
    intermediate_shape: Vec<usize>,
    /// Its number of elements, modulo 2^32.
    intermediate_size: u32,
    /// The shapes along the chain of movements of the operand.
    shapes: Vec<Vec<usize>>,
    /// The shape of the chain's base.
    base_shape: Vec<usize>,
    /// The type of the result.
    result_dt: DType,
    /// The identity bytes of the outer and the inner reduction.
    outer_identity: Vec<u8>,
    inner_identity: Vec<u8>,
}

impl View for FusePlan {
    type V = SpecFusePlan;

    closed spec fn view(&self) -> SpecFusePlan {
        SpecFusePlan {
            input_shape: self.input_shape@,
            axis_size: self.axis_size,
            intermediate_shape: self.intermediate_shape@,
            intermediate_size: self.intermediate_size,
            shapes: shape_views(self.shapes@),
            base_shape: self.base_shape@,
            result_dt: self.result_dt,
            outer_identity: self.outer_identity@,
            inner_identity: self.inner_identity@,
        }
    }
}

/// The plan for reducing `x` along `ax`, then whole; an error when a shape
/// or type is missing, `ax` is out of range, or a reduction has no identity.
fn fuse_plan(x: &JitAST, ax: usize, inner_op: &ReduceOp, outer_op: &ReduceOp) -> (r: Result<
    FusePlan,
    LowerError,
>)
    ensures
        r matches Ok(p) ==> ax < p.input_shape@.len() && p.intermediate_shape@.len() + 1
            == p.input_shape@.len(),
        fuse_plan_spec(x@, ax, *inner_op, *outer_op) == match r {
            Ok(p) => Ok(p@),
            Err(e) => Err(e),
        },
{
    proof {
        reveal(fuse_plan_spec);
    }
    let input_shape = match x.try_shape() {
        Some(s) => s,
        None => {
            return Err(LowerError::BadShape);
        },
    };
    if ax >= input_shape.len() {
        return Err(LowerError::BadShape);
    }
    let axis_size: u32 = #[verifier::truncate] (input_shape[ax] as u32);
    let intermediate_shape = without_axis(&input_shape, ax);
    let intermediate_size = match size_u32(&intermediate_shape) {
        Some(n) => n,
        None => {
            return Err(LowerError::BadShape);
        },
    };
    let shapes = match movement_shapes(x) {
        Some(s) => s,
        None => {
            return Err(LowerError::BadShape);
        },
    };
    let (base, _chain) = x.inner_movement_chain();
    let base_shape = match base.try_shape() {
        Some(s) => s,
        None => {
            return Err(LowerError::BadShape);
        },
    };
    let result_dt = match x.try_dt() {
        Some(d) => d.peel_array(),
        None => {
            return Err(LowerError::BadShape);
        },
    };
    let scalar_dt = result_dt.peel_all();
    let outer_identity = match try_identity_bytes(&scalar_dt, outer_op) {
        Some(b) => b,
        None => {
            return Err(LowerError::NoIdentity);
        },
    };
    let inner_identity = match try_identity_bytes(&scalar_dt, inner_op) {
        Some(b) => b,
        None => {
            return Err(LowerError::NoIdentity);
        },
    };
    Ok(
        FusePlan {
            input_shape,
            axis_size,
            intermediate_shape,
            intermediate_size,
            shapes,
            base_shape,
            result_dt,
            outer_identity,
            inner_identity,
        },
    )
}

/// The load, inside the inner loop, of the element of input binding
/// `binding_id` at outer index `outer_i` and axis index `inner_i`.
fn fused_element(
    body: &mut Scope,
    outer_i: LoweredAST,
    inner_i: &LoweredAST,
    ax: usize,
    chain: &[&MovOp],
    plan: &FusePlan,
    binding_id: usize,
) -> (r: Result<LoweredAST, LowerError>)
    requires
        ax < plan.input_shape@.len(),
        plan.intermediate_shape@.len() + 1 == plan.input_shape@.len(),
    ensures
        fused_spec(
            locals_view(old(body).local_vars@),
            outer_i@,
            inner_i@,
            ax,
            super::movement::chain_views(chain@),
            plan@,
            binding_id,
        ) == (res_view(r), locals_view(final(body).local_vars@)),
        final(body).ast == old(body).ast,
        final(body).num_inherited_locals == old(body).num_inherited_locals,
        final(body).child_scopes == old(body).child_scopes,
{
    proof {
        reveal(fused_spec);
    }
    let intermediate_coord = match decompose_linear(body, outer_i, &plan.intermediate_shape) {
        Some(c) => c,
        None => {
            return Err(LowerError::BadShape);
        },
    };
    let input_coord = merge_axis(&intermediate_coord, inner_i, ax, plan.input_shape.len());
    let (result_coord, _pad_checks) = match try_apply_chain(
        input_coord,
        chain,
        plan.shapes.as_slice(),
    ) {
        Some(p) => p,
        None => {
            return Err(LowerError::BadShape);
        },
    };
    let source_idx = match try_coord_linearize(result_coord.as_slice(), plan.base_shape.as_slice()) {
        Some(i) => i,
        None => {
            return Err(LowerError::BadShape);
        },
    };
    let ghost src = source_idx@;
    proof {
        assert(Seq::<SpecAccessor>::empty().push(SpecAccessor::Index(Box::new(src))) =~= seq![
            SpecAccessor::Index(Box::new(src)),
        ]);
    }
    Ok(global(binding_id).i(source_idx).load())
}

/// An outer reduction of an inner reduction along axis `ax` of `x`, lowered
/// as two nested loops: the outer one over the elements of the result of the
/// inner reduction, the inner one along the axis, each folding into its own
/// accumulator. The base of `x`'s movements must be an input variable.
#[verifier::spinoff_prover]
fn fuse_axis(
    x: &JitAST,
    ax: usize,
    inner_op: ReduceOp,
    outer_op: ReduceOp,
    scope: &mut Scope,
    binder: &mut VarBinder,
) -> (r: Result<LoweredAST, LowerError>)
    ensures
        grows(*old(scope), *final(scope), *old(binder), *final(binder)),
        r matches Ok(v) ==> (v@ matches SpecAST::Group(stmts) && stmts.len() == 2 && stmts[0] is ForLoop
            && stmts[1] is Load),
        ({
            let o = fuse_axis_spec(x@, ax, inner_op, outer_op, state_of(*old(scope), *old(binder)));
            &&& res_view(r) == o.res
            &&& final(binder).var_map@ == o.st.map
            &&& locals_view(final(scope).local_vars@) == o.st.locals
            &&& scopes_view(final(scope).child_scopes@) == o.st.children
        }),
        final(scope).ast == old(scope).ast,
        final(scope).num_inherited_locals == old(scope).num_inherited_locals,
{
    proof {
        lemma_grows_refl(*scope, *binder);
        reveal(fuse_axis_spec);
    }
    let plan = match fuse_plan(x, ax, &inner_op, &outer_op) {
        Ok(p) => p,
        Err(e) => {
            return Err(e);
        },
    };
    let (base, chain) = x.inner_movement_chain();
    proof {
        assert(super::movement::chain_views(chain@) == chain_ops(x@));
    }
    let var_id = match base {
        JitAST::Var { id, .. } => *id,
        _ => {
            return Err(LowerError::BadShape);
        },
    };
    let ghost bind = match binding_of(binder.var_map@, var_id, 0) {
        Some(b) => b,
        None => binder.var_map@.len() as usize,
    };
    let produced_load = binder.produce(var_id);
    proof {
        assert(produced_load is Load && produced_load->Load_0 is Global
            && produced_load->Load_0->Global_0.id == bind) by {
            reveal_with_fuel(crate::asts::lowered::ast_view, 3);
        }
    }
    let binding_id = match produced_load {
        LoweredAST::Load(VarRefType::Global(vr)) => vr.id,
        _ => {
            return Err(LowerError::BadShape);
        },
    };
    let ghost b1 = *binder;
    proof {
        lemma_scope_grows_refl(*scope);
        lemma_binder_grows_refl(b1);
    }
    let ghost s0 = *scope;
    let outer_acc = add_mut(scope, filled_const(&plan.result_dt, &plan.outer_identity));
    let ghost s1 = *scope;
    let outer_loop_var = add_mut(scope, LoweredAST::from_u32(0));
    proof {
        lemma_scope_grows_trans(s0, s1, *scope);
        lemma_grows_trans(*old(scope), s0, *scope, *old(binder), b1, b1);
    }
    let mut outer_body = scope.fresh_child();
    let inner_acc = add_mut(&mut outer_body, filled_const(&plan.result_dt, &plan.inner_identity));
    let inner_loop_var = add_mut(&mut outer_body, LoweredAST::from_u32(0));
    let mut inner_body = outer_body.fresh_child();
    let ghost l4 = locals_view(inner_body.local_vars@);
    let var_load = match fused_element(
        &mut inner_body,
        local(outer_loop_var).load(),
        &local(inner_loop_var).load(),
        ax,
        chain.as_slice(),
        &plan,
        binding_id,
    ) {
        Ok(v) => v,
        Err(e) => {
            return Err(e);
        },
    };
    inner_body.ast = Some(
        local(inner_acc).store(combine(&inner_op, local(inner_acc).load(), var_load)),
    );
    proof {
        assert(scopes_view(inner_body.child_scopes@) =~= Seq::<crate::asts::lowered::scope::SpecScope>::empty());
    }
    let ghost innerv = scope_view(inner_body);
    let ghost ib = inner_body;
    let ghost ob0 = outer_body;
    let inner_loop = attach_for(
        &mut outer_body,
        None,
        local(inner_loop_var).load().lt(LoweredAST::from_u32(plan.axis_size)),
        local(inner_loop_var).store(local(inner_loop_var).load() + LoweredAST::from_u32(1)),
        inner_body,
    );
    let outer_store = local(outer_acc).store(
        combine(&outer_op, local(outer_acc).load(), LoweredAST::Load(local(inner_acc))),
    );
    let mut body_stmts: Vec<LoweredAST> = Vec::new();
    body_stmts.push(inner_loop);
    body_stmts.push(outer_store);
    proof {
        assert(body_stmts@ =~= seq![body_stmts@[0], body_stmts@[1]]);
        lemma_asts_view_small(body_stmts@[0], body_stmts@[1], body_stmts@[1]);
        assert(ob0.child_scopes@.len() == 0);
        assert(outer_body.child_scopes@ =~= seq![ib]);
        assert(outer_body.child_scopes@.subrange(0, 0) =~= Seq::<Scope>::empty());
        assert(scopes_view(Seq::<Scope>::empty()) =~= Seq::<crate::asts::lowered::scope::SpecScope>::empty());
        assert(scopes_view(outer_body.child_scopes@) =~= seq![innerv]);
    }
    outer_body.ast = Some(LoweredAST::Group(body_stmts));
    let ghost outerv = scope_view(outer_body);
    let ghost s2 = *scope;
    let outer_loop = attach_for(
        scope,
        None,
        local(outer_loop_var).load().lt(LoweredAST::from_u32(plan.intermediate_size)),
        local(outer_loop_var).store(local(outer_loop_var).load() + LoweredAST::from_u32(1)),
        outer_body,
    );
    proof {
        lemma_scope_grows_trans(*old(scope), s2, *scope);
        assert(scope.child_scopes@.subrange(0, scope.child_scopes@.len() - 1) =~= s2.child_scopes@);
        assert(scopes_view(scope.child_scopes@) == scopes_view(s2.child_scopes@).push(outerv));
        crate::asts::lowered::scope::lemma_scopes_view(s2.child_scopes@);
    }
    let mut stmts: Vec<LoweredAST> = Vec::new();
    stmts.push(outer_loop);
    stmts.push(LoweredAST::Load(local(outer_acc)));
    proof {
        assert(stmts@ =~= seq![stmts@[0], stmts@[1]]);
        lemma_asts_view_small(stmts@[0], stmts@[1], stmts@[1]);
    }
    Ok(LoweredAST::Group(stmts))
}

/// Two stacked reductions: a whole reduction of a reduction along an axis
/// becomes two nested loops (`fuse_axis`); otherwise the outer reduction is
/// lowered over the innermost operand.
pub fn fuse_reduce<F: Fn(u32, u32, BinOp) -> u32>(
    matched: JitAST,
    scope: &mut Scope,
    rules: &Vec<RewriteRule>,
    binder: &mut VarBinder,
    fold: &F,
) -> (r: Result<LoweredAST, LowerError>)
    requires
        fold_ok(*fold),
    ensures
        grows(*old(scope), *final(scope), *old(binder), *final(binder)),
        fuse_spec(env_for(rules@, *old(binder), *fold), matched@, state_of(*old(scope), *old(binder))) is Some,
        r matches Ok(x) ==> x@ is Group,
        meets(
            fuse_spec(env_for(rules@, *old(binder), *fold), matched@, state_of(*old(scope), *old(binder))),
            r,
            *old(scope),
            *final(scope),
            *final(binder),
        ),
    decreases jit_size(matched@), 0nat,
{
    proof {
        lemma_grows_refl(*scope, *binder);
        lemma_fuse_total(env_for(rules@, *binder, *fold), matched@, state_of(*scope, *binder));
    }
    let ghost mv = matched@;
    match matched {
        JitAST::AllReduce { operand, op } => {
            let ghost iv = operand@;
            match *operand {
                JitAST::Reduce { operand: x, axis, op: inner_op } => fuse_axis(
                    &x,
                    axis,
                    inner_op,
                    op,
                    scope,
                    binder,
                ),
                JitAST::AllReduce { operand: x, .. } => {
                    proof {
                        assert(jit_size(x@) < jit_size(iv));
                    }
                    lower_reduce(*x, op, scope, rules, binder, fold)
                },
                _ => Err(LowerError::Unhandled),
            }
        },
        JitAST::Reduce { operand, op, .. } => {
            let ghost iv = operand@;
            match *operand {
                JitAST::Reduce { operand: x, .. } => {
                    proof {
                        assert(jit_size(x@) < jit_size(iv));
                    }
                    lower_reduce(*x, op, scope, rules, binder, fold)
                },
                JitAST::AllReduce { operand: x, .. } => {
                    proof {
                        assert(jit_size(x@) < jit_size(iv));
                    }
                    lower_reduce(*x, op, scope, rules, binder, fold)
                },
                _ => Err(LowerError::Unhandled),
            }
        },
        _ => Err(LowerError::Unhandled),
    }
}

/// Lowers `ast` with the built-in rules followed by `user_rules`, into
/// `scope`, taking input loads from `binder` and folding floating-point
/// constants with `fold`, exactly as the model (`lower_spec`) says.
pub fn lower_with_rewrite<F: Fn(u32, u32, BinOp) -> u32>(
    ast: JitAST,
    scope: &mut Scope,
    binder: &mut VarBinder,
    user_rules: Vec<RewriteRule>,
    fold: &F,
) -> (r: Result<LoweredAST, LowerError>)
    requires
        fold_ok(*fold),
    ensures
        grows(*old(scope), *final(scope), *old(binder), *final(binder)),
        match super::rewrite::spec_pre_rewrite(
            ast@,
            super::rules::builtin_rules_spec() + rules_view(user_rules@),
            folder(*fold),
        ) {
            None => r == Err::<LoweredAST, LowerError>(LowerError::BadConstant),
            Some(p) => post_lowered(
                super::rules::builtin_rules_spec() + rules_view(user_rules@),
                p,
                *old(scope),
                *final(scope),
                *old(binder),
                r,
            ),
        },
        lower_spec(
            LowerEnv {
                rules: super::rules::builtin_rules_spec() + rules_view(user_rules@),
                strides: old(binder).var_strides@,
                idx: old(binder).idx,
                ff: folder(*fold),
            },
            ast@,
            state_of(*old(scope), *old(binder)),
        ) is Some,
        meets(
            lower_spec(
                LowerEnv {
                    rules: super::rules::builtin_rules_spec() + rules_view(user_rules@),
                    strides: old(binder).var_strides@,
                    idx: old(binder).idx,
                    ff: folder(*fold),
                },
                ast@,
                state_of(*old(scope), *old(binder)),
            ),
            r,
            *old(scope),
            *final(scope),
            *final(binder),
        ),
{
    proof {
        super::lower_total::lemma_lower_total(
            LowerEnv {
                rules: super::rules::builtin_rules_spec() + rules_view(user_rules@),
                strides: binder.var_strides@,
                idx: binder.idx,
                ff: folder(*fold),
            },
            ast@,
            state_of(*scope, *binder),
        );
    }
    let mut all_rules = builtin_rules();
    let ghost b = all_rules@;
    let mut user = user_rules;
    all_rules.append(&mut user);
    proof {
        assert(rules_view(all_rules@) =~= super::rules::builtin_rules_spec() + rules_view(
            user_rules@,
        ));
    }
    graph_rewrite(ast, scope, &all_rules, binder, fold)
}

} // verus!
