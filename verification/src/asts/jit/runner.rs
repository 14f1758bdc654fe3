//! The compute shader that evaluates a tensor expression: one invocation per
//! output element, input variable `i` bound at slot `i`, the output at the
//! slot after the inputs.
use vstd::prelude::*;
use vstd::string::*;

use super::lower_spec::{LowerEnv, LowerState, invocation_x, lower_spec};
use super::lowering::{LowerError, VarBinder, ids_distinct, lower_with_rewrite, state_of};
use super::rules::{builtin_rules_spec, rules_view};
use super::shape::spec_jit_dt;
use super::simplify::{fold_ok, folder};
use super::{
    JitAST, JitASTOrConst, SpecJit, SpecJitPart, clone_jit, jit_parts_view, lemma_jit_parts_view,
};
use crate::asts::lowered::scope::{entrypoint, global, local, local_view, locals_view, scopes_view};
use crate::asts::lowered::{
    BinOp, BindingMeta, CustomBufferBindingType, EntrypointData, EntrypointGlobals, Functions,
    LoweredAST, Scope, ShaderIR, SpecAST, asts_view, SpecAccessor, SpecVarRef, SpecVarRefType, Struct,
};
use crate::dt::{BasicTyOrStructRef, DType, MaybeAtomic, VecTy};
use crate::text::{decimal, push_decimal};

verus! {

/// The input variables of `a` as (id, size in bytes, element type), in the
/// order they are met (operands left to right, components of constants in
/// order), repeats included.
pub open spec fn var_order(a: SpecJit) -> Seq<(usize, u64, DType)>
    decreases a, 0nat,
{
    match a {
        SpecJit::Var { id, size, dtype } => seq![(id, size, dtype)],
        SpecJit::Lowered { .. } => Seq::empty(),
        SpecJit::Const { data, .. } => parts_var_order(data, data.len()),
        SpecJit::BinOp { lhs, rhs, .. } => var_order(*lhs) + var_order(*rhs),
        SpecJit::UnaryOp { operand, .. } => var_order(*operand),
        SpecJit::Cast { operand, .. } => var_order(*operand),
        SpecJit::Ternary { a, b, c, .. } => var_order(*a) + var_order(*b) + var_order(*c),
        SpecJit::Movement { operand, .. } => var_order(*operand),
        SpecJit::Reduce { operand, .. } => var_order(*operand),
        SpecJit::AllReduce { operand, .. } => var_order(*operand),
    }
}

/// The input variables of the first `k` components of a constant.
pub open spec fn parts_var_order(parts: Seq<SpecJitPart>, k: nat) -> Seq<(usize, u64, DType)>
    decreases parts, k,
{
    if k == 0 || k > parts.len() {
        Seq::empty()
    } else {
        parts_var_order(parts, (k - 1) as nat) + match parts[k - 1] {
            SpecJitPart::AST(e) => var_order(e),
            SpecJitPart::Const(_) => Seq::empty(),
        }
    }
}

/// The ids of a list of variables.
pub open spec fn var_ids(vars: Seq<(usize, u64, DType)>) -> Seq<usize> {
    vars.map_values(|v: (usize, u64, DType)| v.0)
}

/// The number of distinct values in `s`.
pub open spec fn distinct_count(s: Seq<usize>) -> nat
    decreases s.len(),
{
    if s.len() == 0 {
        0
    } else {
        distinct_count(s.drop_last()) + if s.drop_last().contains(s.last()) {
            0nat
        } else {
            1nat
        }
    }
}

proof fn lemma_distinct_count_le(s: Seq<usize>)
    ensures
        distinct_count(s) <= s.len(),
    decreases s.len(),
{
    if s.len() > 0 {
        lemma_distinct_count_le(s.drop_last());
    }
}

/// Appends the input variables of a constant component to `out`.
fn collect_part_vars(c: &JitASTOrConst, out: &mut Vec<(usize, u64, DType)>)
    ensures
        final(out)@ == old(out)@ + match c@ {
            SpecJitPart::AST(e) => var_order(e),
            SpecJitPart::Const(_) => Seq::empty(),
        },
    decreases c,
{
    match c {
        JitASTOrConst::AST(e) => e.collect_vars(out),
        JitASTOrConst::Const(_) => {
            proof {
                assert(out@ =~= old(out)@ + Seq::<(usize, u64, DType)>::empty());
            }
        },
    }
}

/// Appends the input variables of the components `v` of a constant to `out`.
fn collect_parts_vars(v: &Vec<JitASTOrConst>, out: &mut Vec<(usize, u64, DType)>)
    ensures
        final(out)@ == old(out)@ + parts_var_order(jit_parts_view(v@), v@.len()),
    decreases v,
{
    let ghost start = out@;
    let ghost parts = jit_parts_view(v@);
    let n = v.len();
    proof {
        lemma_jit_parts_view(v@);
        assert(start + parts_var_order(parts, 0) =~= start);
    }
    let mut i: usize = 0;
    while i < n
        invariant
            n == v@.len(),
            parts == jit_parts_view(v@),
            parts.len() == n,
            forall|j: int| 0 <= j < n ==> #[trigger] parts[j] == v@[j]@,
            i <= n,
            out@ == start + parts_var_order(parts, i as nat),
        decreases n - i,
    {
        proof {
            vstd::std_specs::vec::axiom_vec_index_decreases(*v, i as int);
        }
        let ghost before = out@;
        collect_part_vars(&v[i], out);
        proof {
            assert(parts[i as int] == v@[i as int]@);
            assert(out@ =~= start + parts_var_order(parts, (i + 1) as nat));
        }
        i = i + 1;
    }
}

impl JitAST {
    /// Appends the input variables of this expression, in order, to `out`.
    pub fn collect_vars(&self, out: &mut Vec<(usize, u64, DType)>)
        ensures
            final(out)@ == old(out)@ + var_order(self@),
        decreases self,
    {
        let ghost start = out@;
        match self {
            JitAST::Var { id, size, dtype } => {
                out.push((*id, *size, dtype.clone()));
                proof {
                    assert(out@ =~= start + var_order(self@));
                }
            },
            JitAST::Lowered { .. } => {
                proof {
                    assert(out@ =~= start + var_order(self@));
                }
            },
            JitAST::Const(c) => {
                proof {
                    lemma_jit_parts_view(c.data@);
                }
                collect_parts_vars(&c.data, out);
            },
            JitAST::BinOp { lhs, rhs, .. } => {
                lhs.collect_vars(out);
                rhs.collect_vars(out);
                proof {
                    assert(out@ =~= start + var_order(self@));
                }
            },
            JitAST::UnaryOp { operand, .. } => {
                operand.collect_vars(out);
            },
            JitAST::Cast { operand, .. } => {
                operand.collect_vars(out);
            },
            JitAST::Ternary { a, b, c, .. } => {
                a.collect_vars(out);
                b.collect_vars(out);
                c.collect_vars(out);
                proof {
                    assert(out@ =~= start + var_order(self@));
                }
            },
            JitAST::Movement { operand, .. } => {
                operand.collect_vars(out);
            },
            JitAST::Reduce { operand, .. } => {
                operand.collect_vars(out);
            },
            JitAST::AllReduce { operand, .. } => {
                operand.collect_vars(out);
            },
        }
    }

    /// The number of distinct input variables, and the element type of the
    /// first one met (none when there is no input).
    pub fn collect_var_info(&self) -> (r: (usize, Option<DType>))
        ensures
            r.0 == distinct_count(var_ids(var_order(self@))),
            r.1 == if var_order(self@).len() > 0 {
                Some(var_order(self@)[0].2)
            } else {
                None::<DType>
            },
    {
        let mut vars: Vec<(usize, u64, DType)> = Vec::new();
        self.collect_vars(&mut vars);
        proof {
            assert(vars@ =~= var_order(self@));
        }
        let ghost ids = var_ids(vars@);
        let n = vars.len();
        let mut count: usize = 0;
        let mut i: usize = 0;
        while i < n
            invariant
                n == vars@.len(),
                ids == var_ids(vars@),
                ids.len() == n,
                i <= n,
                count == distinct_count(ids.take(i as int)),
            decreases n - i,
        {
            let id = vars[i].0;
            let mut seen = false;
            let mut j: usize = 0;
            while j < i
                invariant
                    n == vars@.len(),
                    ids == var_ids(vars@),
                    ids.len() == n,
                    i < n,
                    j <= i,
                    id == ids[i as int],
                    seen <==> ids.take(j as int).contains(id),
                decreases i - j,
            {
                if vars[j].0 == id {
                    seen = true;
                }
                proof {
                    assert(ids[j as int] == vars@[j as int].0);
                    let t0 = ids.take(j as int);
                    let t1 = ids.take((j + 1) as int);
                    assert(t1 =~= t0.push(ids[j as int]));
                    assert(t1.contains(id) <==> (t0.contains(id) || ids[j as int] == id)) by {
                        if t1.contains(id) {
                            let k = choose|k: int| 0 <= k < t1.len() && t1[k] == id;
                            if k < j {
                                assert(t0[k] == id);
                            }
                        }
                        if t0.contains(id) {
                            let k = choose|k: int| 0 <= k < t0.len() && t0[k] == id;
                            assert(t1[k] == id);
                        }
                        if ids[j as int] == id {
                            assert(t1[j as int] == id);
                        }
                    }
                }
                j = j + 1;
            }
            proof {
                assert(ids.take((i + 1) as int).drop_last() =~= ids.take(i as int));
                assert(ids.take((i + 1) as int).last() == id);
                lemma_distinct_count_le(ids.take(i as int));
            }
            if !seen {
                count = count + 1;
            }
            i = i + 1;
        }
        proof {
            assert(ids.take(n as int) =~= ids);
        }
        let dt = if n > 0 {
            Some(vars[0].2.clone())
        } else {
            None
        };
        (count, dt)
    }
}

/// Whether entry `i` of `vars` has an id that an earlier entry has.
fn seen_before(vars: &Vec<(usize, u64, DType)>, i: usize) -> (r: bool)
    requires
        i < vars@.len(),
    ensures
        r == var_ids(vars@).take(i as int).contains(vars@[i as int].0),
{
    let ghost ids = var_ids(vars@);
    let id = vars[i].0;
    let mut seen = false;
    let mut j: usize = 0;
    while j < i
        invariant
            i < vars@.len(),
            ids == var_ids(vars@),
            ids.len() == vars@.len(),
            j <= i,
            id == vars@[i as int].0,
            seen <==> ids.take(j as int).contains(id),
        decreases i - j,
    {
        if vars[j].0 == id {
            seen = true;
        }
        proof {
            assert(ids[j as int] == vars@[j as int].0);
            let t0 = ids.take(j as int);
            let t1 = ids.take((j + 1) as int);
            assert(t1 =~= t0.push(ids[j as int]));
            assert(t1.contains(id) <==> (t0.contains(id) || ids[j as int] == id)) by {
                if t1.contains(id) {
                    let k = choose|k: int| 0 <= k < t1.len() && t1[k] == id;
                    if k < j {
                        assert(t0[k] == id);
                    }
                }
                if t0.contains(id) {
                    let k = choose|k: int| 0 <= k < t0.len() && t0[k] == id;
                    assert(t1[k] == id);
                }
                if ids[j as int] == id {
                    assert(t1[j as int] == id);
                }
            }
        }
        j = j + 1;
    }
    seen
}

/// The size in bytes of a value of type `dt`, where it has one.
fn byte_size_u64(dt: &DType) -> (r: Option<u64>)
    ensures
        match r {
            Some(x) => dt.spec_byte_size() == Some(x as nat),
            None => dt.spec_byte_size() is None,
        },
{
    match dt {
        DType::Basic(_) => Some(4),
        DType::Atomic(_) => Some(4),
        DType::Vector(VecTy::Vec2(_)) => Some(8),
        DType::Vector(VecTy::Vec3(_)) => Some(12),
        DType::Vector(VecTy::Vec4(_)) => Some(16),
        DType::Vector(VecTy::Array(MaybeAtomic::Naked(BasicTyOrStructRef::BasicTy(_)), Some(n))) => Some(
            4 * (*n as u64),
        ),
        DType::Vector(VecTy::Array(MaybeAtomic::Atomic(_), Some(n))) => Some(4 * (*n as u64)),
        _ => None,
    }
}

/// How many words apart consecutive elements of a variable of `size` bytes
/// and element type `dt` lie, as a load sees them: the words of one element
/// when the variable holds several elements, one otherwise. `None` when a
/// size is missing or zero.
pub open spec fn var_stride(size: u64, dt: DType) -> Option<u32> {
    match dt.spec_peel_all().spec_byte_size() {
        None => None,
        Some(scalar) => match dt.spec_byte_size() {
            None => None,
            Some(element) => if element == 0 {
                None
            } else if (size as nat) / element > 1 {
                if scalar == 0 {
                    None
                } else {
                    Some((element / scalar) as u32)
                }
            } else {
                Some(1u32)
            },
        },
    }
}

fn var_stride_exec(size: u64, dt: &DType) -> (r: Option<u32>)
    ensures
        r == var_stride(size, *dt),
{
    let scalar = match byte_size_u64(&dt.peel_all()) {
        Some(x) => x,
        None => {
            return None;
        },
    };
    let element = match byte_size_u64(dt) {
        Some(x) => x,
        None => {
            return None;
        },
    };
    if element == 0 {
        None
    } else if size / element > 1 {
        if scalar == 0 {
            None
        } else {
            Some(#[verifier::truncate] ((element / scalar) as u32))
        }
    } else {
        Some(1)
    }
}

/// The stride of each variable of `vars`, in the order of first
/// appearance, each id once; `None` when the stride of one is undefined.
pub open spec fn strides_of(vars: Seq<(usize, u64, DType)>) -> Option<Seq<(usize, u32)>>
    decreases vars.len(),
{
    if vars.len() == 0 {
        Some(Seq::empty())
    } else {
        match strides_of(vars.drop_last()) {
            None => None,
            Some(prev) => {
                let v = vars.last();
                if var_ids(vars.drop_last()).contains(v.0) {
                    Some(prev)
                } else {
                    match var_stride(v.1, v.2) {
                        Some(st) => Some(prev.push((v.0, st))),
                        None => None,
                    }
                }
            },
        }
    }
}

proof fn lemma_strides_none(vars: Seq<(usize, u64, DType)>, k: nat)
    requires
        k <= vars.len(),
        strides_of(vars.take(k as int)) is None,
    ensures
        strides_of(vars) is None,
    decreases vars.len() - k,
{
    if k < vars.len() {
        assert(vars.take((k + 1) as int).drop_last() =~= vars.take(k as int));
        lemma_strides_none(vars, k + 1);
    } else {
        assert(vars.take(k as int) =~= vars);
    }
}

/// Each input variable gets one stride: no id occurs twice in what
/// `strides_of` gives, and each id in it is the id of one of the variables.
pub proof fn lemma_strides_distinct(vars: Seq<(usize, u64, DType)>)
    ensures
        strides_of(vars) matches Some(s) ==> ids_distinct(s) && forall|i: int|
            0 <= i < s.len() ==> var_ids(vars).contains(#[trigger] s[i].0),
    decreases vars.len(),
{
    if vars.len() > 0 {
        let d = vars.drop_last();
        lemma_strides_distinct(d);
        assert(var_ids(vars) =~= var_ids(d).push(vars.last().0));
        match strides_of(vars) {
            Some(s) => {
                let prev = strides_of(d).unwrap();
                assert forall|i: int| 0 <= i < prev.len() implies var_ids(vars).contains(
                    #[trigger] prev[i].0,
                ) by {
                    let k = choose|k: int| 0 <= k < var_ids(d).len() && var_ids(d)[k] == prev[i].0;
                    assert(var_ids(vars)[k] == prev[i].0);
                }
                if !var_ids(d).contains(vars.last().0) {
                    let v = vars.last().0;
                    assert(var_ids(vars)[d.len() as int] == v);
                    assert forall|i: int, j: int| 0 <= i < j < s.len() implies #[trigger] s[i].0
                        != #[trigger] s[j].0 by {
                        if j == prev.len() {
                            assert(var_ids(d).contains(prev[i].0));
                        }
                    }
                }
            },
            None => {},
        }
    }
}

/// The stride of each input variable of `ast`, as `var_stride` gives it,
/// in the order of first appearance; `BadShape` when one is undefined.
pub fn compute_var_strides(ast: &JitAST) -> (r: Result<Vec<(usize, u32)>, LowerError>)
    ensures
        match r {
            Ok(v) => strides_of(var_order(ast@)) == Some(v@) && ids_distinct(v@),
            Err(e) => strides_of(var_order(ast@)) is None && e == LowerError::BadShape,
        },
{
    let mut vars: Vec<(usize, u64, DType)> = Vec::new();
    ast.collect_vars(&mut vars);
    proof {
        assert(vars@ =~= var_order(ast@));
        assert(vars@.take(0) =~= Seq::<(usize, u64, DType)>::empty());
    }
    let mut out: Vec<(usize, u32)> = Vec::new();
    let n = vars.len();
    let mut i: usize = 0;
    while i < n
        invariant
            n == vars@.len(),
            vars@ == var_order(ast@),
            i <= n,
            strides_of(vars@.take(i as int)) == Some(out@),
        decreases n - i,
    {
        let seen = seen_before(&vars, i);
        let ghost t1 = vars@.take((i + 1) as int);
        proof {
            assert(t1.drop_last() =~= vars@.take(i as int));
            assert(t1.last() == vars@[i as int]);
            assert(var_ids(t1.drop_last()) =~= var_ids(vars@).take(i as int));
        }
        if !seen {
            match var_stride_exec(vars[i].1, &vars[i].2) {
                Some(st) => {
                    out.push((vars[i].0, st));
                },
                None => {
                    proof {
                        lemma_strides_none(vars@, (i + 1) as nat);
                    }
                    return Err(LowerError::BadShape);
                },
            }
        }
        i = i + 1;
    }
    proof {
        assert(vars@.take(n as int) =~= vars@);
        lemma_strides_distinct(vars@);
    }
    Ok(out)
}

/// Whether `dt` can be the element type of an array.
fn wraps_in_array(dt: &DType) -> (r: bool)
    ensures
        r == dt.can_wrap_in_array(),
{
    match dt {
        DType::Vector(VecTy::Array(_, _)) => false,
        DType::Pad(_) => false,
        _ => true,
    }
}

/// `[local 0]`: the index of this invocation's element, as the shader keeps it.
pub open spec fn element_index() -> Seq<SpecAccessor> {
    seq![
        SpecAccessor::Index(
            Box::new(SpecAST::Load(SpecVarRefType::Local(SpecVarRef { id: 0, by: Seq::empty() }))),
        ),
    ]
}

/// The output element of this invocation: `output[local 0]`, the output
/// being bound after the `num_vars` inputs.
pub open spec fn output_ref(num_vars: usize) -> SpecVarRefType {
    SpecVarRefType::Global(SpecVarRef { id: num_vars, by: element_index() })
}

/// Whether `a` stores into `out`: directly, or as the last statement of a group.
pub open spec fn stores_into(a: SpecAST, out: SpecVarRefType) -> bool {
    ||| a matches SpecAST::Store { var, .. } && var == out
    ||| a matches SpecAST::Group(stmts) && stmts.len() > 0 && (stmts.last() matches SpecAST::Store {
        var,
        ..
    } && var == out)
}

/// Binding `i` of an input: `input_<i>`, read only, an array of the element
/// type of `input_dt`.
pub open spec fn input_binding(b: BindingMeta, i: int, input_dt: DType) -> bool {
    &&& b.ident@ == "input_"@ + decimal(i as nat)
    &&& b.ty == (CustomBufferBindingType::Storage { read_only: true })
    &&& b.dtype == input_dt.spec_peel_array().spec_as_array_dtype()
}

/// The bindings of the shader: `input_<i>` for each input, read only, with
/// elements of `input_dt`'s element type, then `output`, read-write, with
/// elements of `output_dt`.
pub open spec fn bindings_ok(
    binded: Seq<BindingMeta>,
    num_vars: usize,
    input_dt: DType,
    output_dt: DType,
) -> bool {
    &&& binded.len() == num_vars + 1
    &&& forall|i: int| 0 <= i < num_vars ==> input_binding(#[trigger] binded[i], i, input_dt)
    &&& binded[num_vars as int].ident@ == "output"@
    &&& binded[num_vars as int].ty == (CustomBufferBindingType::Storage { read_only: false })
    &&& binded[num_vars as int].dtype == output_dt.spec_as_array_dtype()
}

fn make_bindings(num_vars: usize, input_dt: &DType, output_dt: &DType) -> (r: Vec<BindingMeta>)
    requires
        num_vars < usize::MAX,
        input_dt.spec_peel_array().can_wrap_in_array(),
        output_dt.can_wrap_in_array(),
    ensures
        bindings_ok(r@, num_vars, *input_dt, *output_dt),
{
    let in_elem = input_dt.peel_array();
    let mut binded: Vec<BindingMeta> = Vec::new();
    let mut i: usize = 0;
    while i < num_vars
        invariant
            i <= num_vars,
            in_elem == input_dt.spec_peel_array(),
            in_elem.can_wrap_in_array(),
            binded@.len() == i,
            forall|k: int| 0 <= k < i ==> input_binding(#[trigger] binded@[k], k, *input_dt),
        decreases num_vars - i,
    {
        let mut ident = String::from_str("input_");
        push_decimal(&mut ident, i);
        binded.push(
            BindingMeta {
                ident,
                ty: CustomBufferBindingType::Storage { read_only: true },
                dtype: in_elem.as_array_dtype(),
            },
        );
        proof {
            assert(input_binding(binded@[i as int], i as int, *input_dt));
        }
        i = i + 1;
    }
    binded.push(
        BindingMeta {
            ident: String::from_str("output"),
            ty: CustomBufferBindingType::Storage { read_only: false },
            dtype: output_dt.as_array_dtype(),
        },
    );
    proof {
        assert(forall|k: int| 0 <= k < num_vars ==> input_binding(#[trigger] binded@[k], k, *input_dt));
    }
    binded
}

/// The shape of the shader that evaluates an expression with `num_vars`
/// inputs of element type `input_dt` into an output of type `output_dt`:
/// its bindings, no workgroup or private variables, the single entry point
/// `jit_main` (a compute shader with workgroups of 256) whose first local
/// holds the element index and whose statement stores into the output
/// element.
pub open spec fn is_jit_shader(ir: ShaderIR, num_vars: usize, input_dt: DType, output_dt: DType) -> bool {
    &&& bindings_ok(ir.binded@, num_vars, input_dt, output_dt)
    &&& ir.shared_vars@.len() == 0
    &&& ir.private_vars@.len() == 0
    &&& ir.entrypoint_globals@ == seq![EntrypointGlobals::GlobalInvocationId]
    &&& ir.functions@.len() == 1
    &&& ir.functions@[0].args@.len() == 0
    &&& ir.functions@[0].ret is None
    &&& ir.functions@[0].ident@ == "jit_main"@
    &&& ir.functions@[0].entrypoint_ty == Some((EntrypointData::Compute { workgroup_sz: 256 }))
    &&& ir.functions@[0].body.local_vars@.len() > 0
    &&& local_view(ir.functions@[0].body.local_vars@[0]) == (
        "_v"@ + decimal(0),
        false,
        SpecAST::Load(
            SpecVarRefType::EntryPointGlobal(SpecVarRef { id: 0, by: seq![SpecAccessor::Field("x"@)] }),
        ),
    )
    &&& ir.functions@[0].body.ast matches Some(a) && stores_into(a@, output_ref(num_vars))
}

/// What lowering an expression for the shader holds fixed: the built-in
/// rules, the strides of its inputs, the element index in local 0, and the
/// fold of `f32` constants.
pub open spec fn jit_env(strides: Seq<(usize, u32)>, ff: spec_fn(u32, u32, BinOp) -> u32) -> LowerEnv {
    LowerEnv { rules: builtin_rules_spec(), strides, idx: 0, ff }
}

/// The state lowering starts from in the shader: no bindings, the element
/// index in local `_v0`, and no child scopes.
pub open spec fn jit_start() -> LowerState {
    LowerState {
        map: Seq::empty(),
        locals: seq![("_v"@ + decimal(0), false, invocation_x())],
        children: Seq::empty(),
    }
}

/// The statement of the entry point for the lowered expression `x`: `x`
/// stored into the output element, or, for a group, its last statement so
/// stored after the others; none for an empty group.
pub open spec fn stored_output(x: SpecAST, num_vars: usize) -> Option<SpecAST> {
    match x {
        SpecAST::Group(stmts) => if stmts.len() == 0 {
            None
        } else {
            Some(
                SpecAST::Group(
                    stmts.drop_last().push(
                        SpecAST::Store { var: output_ref(num_vars), val: Box::new(stmts.last()) },
                    ),
                ),
            )
        },
        _ => Some(SpecAST::Store { var: output_ref(num_vars), val: Box::new(x) }),
    }
}

/// What the shader built for `a` holds, by the model of its lowering (see
/// `lower_spec`): the model's error, or the entry point whose locals and
/// child scopes are the model's and whose statement stores the model's
/// result into the output element.
pub open spec fn shader_follows_model(
    a: SpecJit,
    num_vars: usize,
    ff: spec_fn(u32, u32, BinOp) -> u32,
    r: Result<ShaderIR, LowerError>,
) -> bool {
    strides_of(var_order(a)) matches Some(st) ==> {
        let o = lower_spec(jit_env(st, ff), a, jit_start())->Some_0;
        &&& lower_spec(jit_env(st, ff), a, jit_start()) is Some
        &&& match o.res {
            Err(e) => r == Err::<ShaderIR, LowerError>(e),
            Ok(x) => match stored_output(x, num_vars) {
                None => r == Err::<ShaderIR, LowerError>(LowerError::BadShape),
                Some(body) => r matches Ok(ir) && ir.functions@[0].body.ast matches Some(stmt) && stmt@
                    == body && locals_view(ir.functions@[0].body.local_vars@) == o.st.locals
                    && scopes_view(ir.functions@[0].body.child_scopes@) == o.st.children,
            },
        }
    }
}

/// The shader that evaluates `ast`, one invocation per output element:
/// input `i` is bound as `input_<i>`, the output as `output` after them;
/// the single entry point `jit_main` (a compute shader with workgroups of
/// 256) keeps its element index in its first local and stores the lowered
/// expression into its output element. `structs` are the struct
/// definitions the shader declares.
pub fn build_shader_ir<F: Fn(u32, u32, BinOp) -> u32>(
    ast: &JitAST,
    num_vars: usize,
    input_dt: &DType,
    output_dt: &DType,
    structs: Vec<Struct>,
    fold: &F,
) -> (r: Result<ShaderIR, LowerError>)
    requires
        fold_ok(*fold),
    ensures
        !input_dt.spec_peel_array().can_wrap_in_array() || !output_dt.can_wrap_in_array()
            || num_vars == usize::MAX ==> r == Err::<ShaderIR, LowerError>(LowerError::BadShape),
        strides_of(var_order(ast@)) is None ==> r == Err::<ShaderIR, LowerError>(
            LowerError::BadShape,
        ),
        r matches Ok(ir) ==> ir.structs == structs && is_jit_shader(
            ir,
            num_vars,
            *input_dt,
            *output_dt,
        ),
        input_dt.spec_peel_array().can_wrap_in_array() && output_dt.can_wrap_in_array() && num_vars
            < usize::MAX ==> shader_follows_model(ast@, num_vars, folder(*fold), r),
{
    if !wraps_in_array(&input_dt.peel_array()) || !wraps_in_array(output_dt) || num_vars
        == usize::MAX {
        return Err(LowerError::BadShape);
    }
    let var_strides = compute_var_strides(ast)?;
    let binded = make_bindings(num_vars, input_dt, output_dt);
    let mut entrypoint_globals: Vec<EntrypointGlobals> = Vec::new();
    entrypoint_globals.push(EntrypointGlobals::GlobalInvocationId);
    let mut scope = Scope::new();
    let idx = scope.var(entrypoint(0).f("x").load());
    proof {
        assert(Seq::<SpecAccessor>::empty().push(SpecAccessor::Field("x"@)) =~= seq![
            SpecAccessor::Field("x"@),
        ]);
    }
    let ghost s0 = scope;
    let mut binder = VarBinder::new(var_strides, idx);
    let ghost sb = scope;
    let ghost bb = binder;
    let user: Vec<super::rules::RewriteRule> = Vec::new();
    let ghost env = jit_env(bb.var_strides@, folder(*fold));
    proof {
        assert(builtin_rules_spec() + rules_view(user@) =~= builtin_rules_spec());
        assert(idx == 0);
        assert(bb.var_map@ =~= Seq::<(usize, usize)>::empty());
        assert((LowerEnv {
            rules: builtin_rules_spec() + rules_view(user@),
            strides: bb.var_strides@,
            idx: bb.idx,
            ff: folder(*fold),
        }) == env);
    }
    let ghost model = lower_spec(env, ast@, jit_start());
    proof {
        super::lower_total::lemma_lower_total(env, ast@, jit_start());
        assert(locals_view(sb.local_vars@) =~= jit_start().locals);
        assert(state_of(sb, bb) == jit_start());
    }
    let body = match lower_with_rewrite(clone_jit(ast), &mut scope, &mut binder, user, fold) {
        Ok(b) => b,
        Err(e) => {
            proof {
                if model is Some {
                    assert(model->Some_0.res == Err::<SpecAST, LowerError>(e));
                }
            }
            return Err(e);
        },
    };
    proof {
        if model is Some {
            assert(body@ == model->Some_0.res->Ok_0);
        }
    }
    proof {
        assert(scope.local_vars@.subrange(0, s0.local_vars@.len() as int) == s0.local_vars@);
        assert(scope.local_vars@[0] == s0.local_vars@[0]);
    }
    let out_ref = global(num_vars).i(local(idx).load());
    proof {
        assert(Seq::<SpecAccessor>::empty().push(element_index()[0]) =~= element_index());
    }
    let output_store = match body {
        LoweredAST::Group(mut stmts) => {
            let ghost sv = stmts@;
            proof {
                crate::asts::lowered::lemma_asts_view_last(sv);
            }
            if stmts.len() == 0 {
                return Err(LowerError::BadShape);
            }
            let result = stmts.pop().unwrap();
            proof {
                assert(stmts@ =~= sv.drop_last());
            }
            stmts.push(out_ref.store(result));
            let g = LoweredAST::Group(stmts);
            proof {
                crate::asts::lowered::lemma_asts_view_last(stmts@);
                assert(stmts@.drop_last() =~= sv.drop_last());
                assert(asts_view(stmts@) == asts_view(sv.drop_last()).push(stmts@.last()@));
                assert(asts_view(sv).drop_last() =~= asts_view(sv.drop_last()));
                assert(asts_view(stmts@) =~= asts_view(sv).drop_last().push(
                    SpecAST::Store { var: output_ref(num_vars), val: Box::new(asts_view(sv).last()) },
                ));
            }
            g
        },
        other => out_ref.store(other),
    };
    scope.ast = Some(output_store);
    let mut functions: Vec<Functions> = Vec::new();
    functions.push(
        Functions {
            args: Vec::new(),
            ret: None,
            ident: String::from_str("jit_main"),
            entrypoint_ty: Some(EntrypointData::Compute { workgroup_sz: 256 }),
            body: scope,
        },
    );
    Ok(
        ShaderIR {
            structs,
            binded,
            shared_vars: Vec::new(),
            private_vars: Vec::new(),
            entrypoint_globals,
            functions,
        },
    )
}

/// What is needed to run an expression: its input variables, their element
/// type, the output type and the size of the output buffer.
pub struct JitRunner<'ast> {
    pub ast: &'ast JitAST,
    pub element_count: u32,
    pub num_vars: usize,
    pub input_dt: DType,
    pub output_dt: DType,
    pub output_size: u64,
}

/// Whether an expression can be run over `element_count` elements: it
/// reads an input, its type is known and has a size, and the output buffer
/// size fits in 64 bits.
pub open spec fn runnable(a: SpecJit, element_count: u32) -> bool {
    &&& var_order(a).len() > 0
    &&& spec_jit_dt(a) matches Some(dt) && (dt.spec_byte_size() matches Some(b) && b
        * element_count <= u64::MAX)
}

/// One bound buffer of the shader: its binding slot, whether the shader
/// only reads it, and its size in bytes (zero when the buffer brings its own).
pub struct ResourceSlot {
    pub binding: u32,
    pub read_only: bool,
    pub size: u64,
}

impl<'ast> JitRunner<'ast> {
    /// The runner of `ast` over `element_count` elements: `NoInput` when
    /// `ast` reads no variable, `BadShape` when its type is unknown or has
    /// no size, or the output size overflows.
    pub fn new(ast: &'ast JitAST, element_count: u32) -> (r: Result<Self, LowerError>)
        ensures
            r is Ok <==> runnable(ast@, element_count),
            var_order(ast@).len() == 0 ==> r == Err::<Self, LowerError>(LowerError::NoInput),
            var_order(ast@).len() > 0 && !runnable(ast@, element_count) ==> r == Err::<
                Self,
                LowerError,
            >(LowerError::BadShape),
            r matches Ok(run) ==> {
                &&& run.ast == ast
                &&& run.element_count == element_count
                &&& run.num_vars == distinct_count(var_ids(var_order(ast@)))
                &&& run.input_dt == var_order(ast@)[0].2
                &&& spec_jit_dt(ast@) == Some(run.output_dt)
                &&& run.output_dt.spec_byte_size() matches Some(b) && run.output_size == b * element_count
            },
    {
        let (num_vars, input_dt) = ast.collect_var_info();
        let input_dt = match input_dt {
            Some(d) => d,
            None => {
                return Err(LowerError::NoInput);
            },
        };
        let output_dt = match ast.try_dt() {
            Some(d) => d,
            None => {
                return Err(LowerError::BadShape);
            },
        };
        let elem_size = match byte_size_u64(&output_dt) {
            Some(b) => b,
            None => {
                return Err(LowerError::BadShape);
            },
        };
        let output_size = match elem_size.checked_mul(element_count as u64) {
            Some(s) => s,
            None => {
                return Err(LowerError::BadShape);
            },
        };
        Ok(JitRunner { ast, element_count, num_vars, input_dt, output_dt, output_size })
    }

    /// The name of the shader's entry point.
    pub fn entry_point(&self) -> (r: &'static str)
        ensures
            r@ == "jit_main"@,
    {
        "jit_main"
    }

    /// The number of workgroups of 256 invocations that cover the elements.
    pub fn workgroup_count(&self) -> (r: u32)
        requires
            self.element_count + 255 <= u32::MAX,
        ensures
            r == (self.element_count + 255) / 256,
    {
        (self.element_count + 255) / 256
    }

    /// The buffers the shader binds: the inputs at slots `0..num_vars`, read
    /// only and sized by their own buffers, then the output, read-write and
    /// `output_size` bytes long. Slots are numbered modulo 2^32.
    pub fn resource_bindings(&self) -> (r: Vec<ResourceSlot>)
        requires
            self.num_vars < usize::MAX,
        ensures
            r@.len() == self.num_vars + 1,
            forall|i: int|
                0 <= i < self.num_vars ==> #[trigger] r@[i].binding == (i as u32) && r@[i].read_only
                    && r@[i].size == 0,
            r@[self.num_vars as int].binding == (self.num_vars as u32),
            !r@[self.num_vars as int].read_only,
            r@[self.num_vars as int].size == self.output_size,
    {
        let mut out: Vec<ResourceSlot> = Vec::new();
        let mut i: usize = 0;
        while i < self.num_vars
            invariant
                i <= self.num_vars,
                out@.len() == i,
                forall|k: int|
                    0 <= k < i ==> #[trigger] out@[k].binding == (k as u32) && out@[k].read_only
                        && out@[k].size == 0,
            decreases self.num_vars - i,
        {
            out.push(ResourceSlot { binding: #[verifier::truncate] (i as u32), read_only: true, size: 0 });
            i = i + 1;
        }
        out.push(
            ResourceSlot {
                binding: #[verifier::truncate] (self.num_vars as u32),
                read_only: false,
                size: self.output_size,
            },
        );
        out
    }
}

} // verus!
