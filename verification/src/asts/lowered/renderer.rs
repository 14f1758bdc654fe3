use vstd::prelude::*;
use vstd::string::*;

use crate::asts::jit::movement::{eval_u32, leaf_bounded, lemma_eval_bounded};
use super::SpecAST;

use super::render_spec::{
    accessors_text, args_texts, array_inner_text, ast_text, basic_const_text, basic_or_ref_text,
    basic_text, binding_text, bindings_text, binop_text, components_text, decls_text, dtype_text,
    entry_global_text, f32_text, func_text, funcs_texts, group_stmt_text, group_texts,
    i32_of_bits, integer_text, members_text, nested_field_text, nested_fields_text, opt_text,
    pad_const_text, pad_type_text, params_texts, present, scalar_bytes_text, scope_text, shader_text,
    struct_const_text, struct_field_text, struct_fields_text, struct_text, structs_texts, u32_le,
    unop_text, var_ident, var_ref_of, vec_const_text, workgroup_text,
};
use super::{
    Accessor, BinOp, BindingMeta, CustomBufferBindingType, EntrypointData, EntrypointGlobals,
    Functions, LoweredAST, LoweredASTOrConst, Scope, ShaderIR, Struct, UnaryOp, VarRef, VarRefType,
};
use super::layout::lookup_struct;
use crate::dt::{BasicTy, BasicTyOrStructRef, DType, IntegerTy, MaybeAtomic, VecTy};
use crate::text::{decimal, join, lemma_join_contains, occurs_in, push_decimal, push_i32, push_tabs, tabs};

verus! {

/// The texts of a list of strings.
pub open spec fn strings_view(v: Seq<String>) -> Seq<Seq<char>> {
    v.map_values(|s: String| s@)
}

/// `f` spells every `f32` bit pattern, and always the same way.
pub open spec fn spells_every_f32<F: Fn(u32) -> String>(f: F) -> bool {
    &&& forall|b: u32| #[trigger] f.requires((b,))
    &&& forall|b: u32, s1: String, s2: String|
        #![trigger f.ensures((b,), s1), f.ensures((b,), s2)]
        f.ensures((b,), s1) && f.ensures((b,), s2) ==> s1@ == s2@
}

/// The text `f` gives the `f32` with bits `b`.
pub open spec fn spelling<F: Fn(u32) -> String>(f: F, b: u32) -> Seq<char> {
    (choose|s: String| f.ensures((b,), s))@
}

/// The text of a rendering, `None` where there is none.
pub open spec fn rendered(r: Option<String>) -> Option<Seq<char>> {
    match r {
        Some(t) => Some(t@),
        None => None,
    }
}

/// The texts of a list of renderings, `None` where there is none.
pub open spec fn rendered_all(r: Option<Vec<String>>) -> Option<Seq<Seq<char>>> {
    match r {
        Some(v) => Some(strings_view(v@)),
        None => None,
    }
}

/// Joins `parts` with `sep` between consecutive parts.
pub fn join_strings(parts: &Vec<String>, sep: &str) -> (r: String)
    ensures
        r@ == join(strings_view(parts@), sep@),
{
    let mut out = String::new();
    let n = parts.len();
    let mut i: usize = 0;
    while i < n
        invariant
            n == parts@.len(),
            i <= n,
            out@ == join(strings_view(parts@).take(i as int), sep@),
        decreases n - i,
    {
        let ghost prev = strings_view(parts@).take(i as int);
        let ghost next = strings_view(parts@).take((i + 1) as int);
        proof {
            assert(next.drop_last() =~= prev);
            assert(next.last() == parts@[i as int]@);
        }
        if i > 0 {
            out.append(sep);
        }
        out.append(parts[i].as_str());
        proof {
            if i == 0 {
                assert(out@ =~= next[0]);
            }
        }
        i = i + 1;
    }
    proof {
        assert(strings_view(parts@).take(n as int) =~= strings_view(parts@));
    }
    out
}

/// A value that renders itself as text, given `Args`.
pub trait Render {
    type Args;

    fn render(&self, args: Self::Args) -> String;
}

/// Renders the lowered tree as WGSL text. `f32_spelling` spells the value
/// of an `f32` constant given by its bits (the renderer adds the `f`).
pub struct LoweredRenderer<'a, F: Fn(u32) -> String> {
    pub(crate) ir: &'a ShaderIR,
    pub(crate) f32_spelling: F,
}

impl<'a, F: Fn(u32) -> String> LoweredRenderer<'a, F> {
    #[verifier::type_invariant]
    spec fn spells(self) -> bool {
        spells_every_f32(self.f32_spelling)
    }

    /// How `f32` values are spelled, by their bits.
    pub closed spec fn ft(&self) -> spec_fn(u32) -> Seq<char> {
        |b: u32| spelling(self.f32_spelling, b)
    }

    /// The shader this renderer renders.
    pub closed spec fn shader(&self) -> ShaderIR {
        *self.ir
    }

    pub fn new(ir: &'a ShaderIR, f32_spelling: F) -> (r: Self)
        requires
            spells_every_f32(f32_spelling),
        ensures
            r.shader() == *ir,
            r.ft() == (|b: u32| spelling(f32_spelling, b)),
    {
        LoweredRenderer { ir, f32_spelling }
    }

    pub fn render_integer_ty(&self, int_ty: &IntegerTy) -> (r: String)
        ensures
            r@ == integer_text(*int_ty),
    {
        match int_ty {
            IntegerTy::U32 => String::from_str("u32"),
            IntegerTy::I32 => String::from_str("i32"),
        }
    }

    pub fn render_basic_ty(&self, b: &BasicTy) -> (r: String)
        ensures
            r@ == basic_text(*b),
    {
        match b {
            BasicTy::F32 => String::from_str("f32"),
            BasicTy::Bool => String::from_str("bool"),
            BasicTy::Integer(int_ty) => self.render_integer_ty(int_ty),
        }
    }

    pub fn render_basic_ty_or_struct_ref(&self, g: &BasicTyOrStructRef) -> (r: String)
        ensures
            r@ == basic_or_ref_text(*g),
    {
        match g {
            BasicTyOrStructRef::BasicTy(b) => self.render_basic_ty(b),
            BasicTyOrStructRef::StructRef { ident } => ident.clone(),
        }
    }

    pub fn render_array_inner(&self, inner: &MaybeAtomic<IntegerTy, BasicTyOrStructRef>) -> (r: String)
        ensures
            r@ == array_inner_text(*inner),
    {
        match inner {
            MaybeAtomic::Naked(b) => self.render_basic_ty_or_struct_ref(b),
            MaybeAtomic::Atomic(a) => self.render_integer_ty(a),
        }
    }

    /// The type that fills `bytes` bytes of padding: `u32` or a vector of
    /// `u32`; `None` for another size.
    pub fn render_pad_type(&self, bytes: usize) -> (r: String)
        requires
            pad_type_text(bytes) is Some,
        ensures
            r@ == pad_type_text(bytes).unwrap(),
    {
        if bytes == 4 {
            String::from_str("u32")
        } else if bytes == 8 {
            String::from_str("vec2<u32>")
        } else if bytes == 12 {
            String::from_str("vec3<u32>")
        } else {
            String::from_str("vec4<u32>")
        }
    }

    /// WGSL spelling of `dt`, which has one: padding is 4, 8, 12 or 16 bytes.
    pub fn render_dtype(&self, dt: &DType) -> (r: String)
        requires
            dtype_text(*dt) is Some,
        ensures
            r@ == dtype_text(*dt).unwrap(),
    {
        match self.dtype_or_none(dt) {
            Some(t) => t,
            None => {
                proof {
                    assert(false);
                }
                String::new()
            },
        }
    }

    /// WGSL spelling of `dt`; `None` where it has none (padding of another size).
    fn dtype_or_none(&self, dt: &DType) -> (r: Option<String>)
        ensures
            rendered(r) == dtype_text(*dt),
    {
        match dt {
            DType::Atomic(int_ty) => {
                let mut s = String::from_str("atomic<");
                s.append(self.render_integer_ty(int_ty).as_str());
                s.append(">");
                Some(s)
            },
            DType::Basic(b) => Some(self.render_basic_ty(b)),
            DType::Vector(v) => match v {
                VecTy::Array(inner, None) => {
                    let mut s = String::from_str("array<");
                    s.append(self.render_array_inner(inner).as_str());
                    s.append(">");
                    Some(s)
                },
                VecTy::Array(inner, Some(n)) => {
                    let mut s = String::from_str("array<");
                    s.append(self.render_array_inner(inner).as_str());
                    s.append(", ");
                    push_decimal(&mut s, *n as usize);
                    s.append(">");
                    Some(s)
                },
                VecTy::Vec2(b) => {
                    let mut s = String::from_str("vec2<");
                    s.append(self.render_basic_ty(b).as_str());
                    s.append(">");
                    Some(s)
                },
                VecTy::Vec3(b) => {
                    let mut s = String::from_str("vec3<");
                    s.append(self.render_basic_ty(b).as_str());
                    s.append(">");
                    Some(s)
                },
                VecTy::Vec4(b) => {
                    let mut s = String::from_str("vec4<");
                    s.append(self.render_basic_ty(b).as_str());
                    s.append(">");
                    Some(s)
                },
            },
            DType::StructRef { ident } => Some(ident.clone()),
            DType::Pad(bytes) => if *bytes == 4 || *bytes == 8 || *bytes == 12 || *bytes == 16 {
                Some(self.render_pad_type(*bytes))
            } else {
                None
            },
        }
    }

    /// One declaration per bound buffer, in binding order.
    pub fn render_binded_buffers(&self) -> (r: Option<String>)
        ensures
            rendered(r) == bindings_text(self.shader().binded@, self.shader().binded@.len()),
    {
        let mut out = String::new();
        let n = self.ir.binded.len();
        let mut i: usize = 0;
        while i < n
            invariant
                n == self.shader().binded@.len(),
                i <= n,
                bindings_text(self.shader().binded@, i as nat) == Some(out@),
            decreases n - i,
        {
            let b = &self.ir.binded[i];
            let t = match self.dtype_or_none(&b.dtype) {
                Some(t) => t,
                None => {
                    proof {
                        if bindings_text(self.shader().binded@, n as nat) is Some {
                            lemma_bindings_prefix(self.shader().binded@, (i + 1) as nat, n as nat);
                        }
                    }
                    return None;
                },
            };
            out.append("@group(0) @binding(");
            push_decimal(&mut out, i);
            out.append(") ");
            match &b.ty {
                CustomBufferBindingType::Storage { read_only } => {
                    if *read_only {
                        out.append("var<read>");
                    } else {
                        out.append("var<read_write>");
                    }
                },
                CustomBufferBindingType::Uniform => {
                    out.append("var<uniform>");
                },
            }
            out.append(" ");
            out.append(b.ident.as_str());
            out.append(": ");
            out.append(t.as_str());
            out.append(";\n");
            i = i + 1;
        }
        Some(out)
    }

    /// `struct ident { ... }` with one member line per field.
    pub fn render_struct(&self, ident: &str, s: &Struct) -> (r: Option<String>)
        ensures
            rendered(r) == struct_text(ident@, *s),
    {
        let mut m = String::new();
        let n = s.inner.len();
        let mut i: usize = 0;
        while i < n
            invariant
                n == s.inner@.len(),
                i <= n,
                members_text(s.inner@, i as nat) == Some(m@),
            decreases n - i,
        {
            let t = match self.dtype_or_none(&s.inner[i].1) {
                Some(t) => t,
                None => {
                    proof {
                        if members_text(s.inner@, n as nat) is Some {
                            lemma_members_prefix(s.inner@, (i + 1) as nat, n as nat);
                        }
                    }
                    return None;
                },
            };
            m.append("\t");
            m.append(s.inner[i].0.as_str());
            m.append(": ");
            m.append(t.as_str());
            m.append(",\n");
            i = i + 1;
        }
        let mut out = String::from_str("struct ");
        out.append(ident);
        out.append(" {\n");
        out.append(m.as_str());
        out.append("}");
        Some(out)
    }

    /// All struct definitions, separated by a blank line.
    pub fn render_structs(&self) -> (r: Option<String>)
        ensures
            rendered(r) == match structs_texts(self.shader().structs@, self.shader().structs@.len()) {
                Some(t) => Some(join(t, "\n\n"@)),
                None => None,
            },
    {
        let mut parts: Vec<String> = Vec::new();
        let n = self.ir.structs.len();
        let mut i: usize = 0;
        while i < n
            invariant
                n == self.shader().structs@.len(),
                i <= n,
                structs_texts(self.shader().structs@, i as nat) == Some(strings_view(parts@)),
            decreases n - i,
        {
            let s = &self.ir.structs[i];
            let t = match self.render_struct(s.name.as_str(), s) {
                Some(t) => t,
                None => {
                    proof {
                        if structs_texts(self.shader().structs@, n as nat) is Some {
                            lemma_structs_prefix(self.shader().structs@, (i + 1) as nat, n as nat);
                        }
                    }
                    return None;
                },
            };
            parts.push(t);
            proof {
                assert(strings_view(parts@) =~= structs_texts(self.shader().structs@, (i + 1) as nat).unwrap());
            }
            i = i + 1;
        }
        Some(join_strings(&parts, "\n\n"))
    }

    /// One `var<workgroup>` declaration per shared variable.
    pub fn render_workgroup_vars(&self) -> (r: Option<String>)
        ensures
            rendered(r) == workgroup_text(self.shader().shared_vars@, self.shader().shared_vars@.len()),
    {
        let mut out = String::new();
        let n = self.ir.shared_vars.len();
        let mut i: usize = 0;
        while i < n
            invariant
                n == self.shader().shared_vars@.len(),
                i <= n,
                workgroup_text(self.shader().shared_vars@, i as nat) == Some(out@),
            decreases n - i,
        {
            let t = match self.dtype_or_none(&self.ir.shared_vars[i].1) {
                Some(t) => t,
                None => {
                    proof {
                        if workgroup_text(self.shader().shared_vars@, n as nat) is Some {
                            lemma_workgroup_prefix(self.shader().shared_vars@, (i + 1) as nat, n as nat);
                        }
                    }
                    return None;
                },
            };
            out.append("var<workgroup> ");
            out.append(self.ir.shared_vars[i].0.as_str());
            out.append(": ");
            out.append(t.as_str());
            out.append(";\n");
            i = i + 1;
        }
        Some(out)
    }
}

proof fn lemma_bindings_prefix(b: Seq<BindingMeta>, k: nat, n: nat)
    requires
        k <= n,
        bindings_text(b, n) is Some,
    ensures
        bindings_text(b, k) is Some,
    decreases n - k,
{
    if k < n {
        lemma_bindings_prefix(b, k + 1, n);
    }
}

proof fn lemma_members_prefix(f: Seq<(String, DType)>, k: nat, n: nat)
    requires
        k <= n,
        members_text(f, n) is Some,
    ensures
        members_text(f, k) is Some,
    decreases n - k,
{
    if k < n {
        lemma_members_prefix(f, k + 1, n);
    }
}

/// What WGSL computes for the binary operator token `t` on two `u32`
/// values: `+`, `-` and `*` wrap modulo 2^32; `/` and `%` by a non-zero
/// value. `None` for another token or a zero divisor.
pub open spec fn wgsl_u32_op(t: Seq<char>, x: nat, y: nat) -> Option<nat> {
    let m: nat = 0x1_0000_0000;
    if t == seq!['+'] {
        Some((x + y) % m)
    } else if t == seq!['-'] {
        Some((((x + m) - y) as nat) % m)
    } else if t == seq!['*'] {
        Some((x * y) % m)
    } else if t == seq!['/'] && y > 0 {
        Some(x / y)
    } else if t == seq!['%'] && y > 0 {
        Some(x % y)
    } else {
        None
    }
}


/// The token written for an arithmetic operator means that operator: what
/// WGSL computes for the token on the values of the two operands is the
/// value of the operation itself (for `/` and `%`, by a non-zero value).
#[verifier::spinoff_prover]
pub proof fn lemma_binop_token_meaning(op: BinOp, lhs: SpecAST, rhs: SpecAST, leaf: spec_fn(SpecAST) -> nat)
    requires
        leaf_bounded(leaf),
        op == BinOp::Add || op == BinOp::Sub || op == BinOp::Mul || ((op == BinOp::Div || op == BinOp::Rem)
            && eval_u32(rhs, leaf) > 0),
    ensures
        wgsl_u32_op(binop_text(op), eval_u32(lhs, leaf), eval_u32(rhs, leaf)) == Some(
            eval_u32(SpecAST::BinaryOp { lhs: Box::new(lhs), rhs: Box::new(rhs), op }, leaf),
        ),
{
    reveal_strlit("+");
    reveal_strlit("-");
    reveal_strlit("*");
    reveal_strlit("/");
    reveal_strlit("%");
    reveal_strlit("&");
    reveal_strlit("|");
    reveal_strlit("^");
    reveal_strlit(">>");
    reveal_strlit("<<");
    reveal_strlit("&&");
    reveal_strlit("==");
    reveal_strlit("!=");
    reveal_strlit(">");
    reveal_strlit("<");
    reveal_strlit(">=");
    reveal_strlit("<=");
    assert(binop_text(BinOp::Add) =~= seq!['+']);
    assert(binop_text(BinOp::Sub) =~= seq!['-']);
    assert(binop_text(BinOp::Mul) =~= seq!['*']);
    assert(binop_text(BinOp::Div) =~= seq!['/']);
    assert(binop_text(BinOp::Rem) =~= seq!['%']);
    assert(binop_text(BinOp::BitwiseAnd) =~= seq!['&']);
    assert(binop_text(BinOp::BitwiseOr) =~= seq!['|']);
    assert(binop_text(BinOp::BitwiseXor) =~= seq!['^']);
    assert(binop_text(BinOp::Shr) =~= seq!['>', '>']);
    assert(binop_text(BinOp::Shl) =~= seq!['<', '<']);
    assert(binop_text(BinOp::LogicalAnd) =~= seq!['&', '&']);
    assert(binop_text(BinOp::Eq) =~= seq!['=', '=']);
    assert(binop_text(BinOp::Ne) =~= seq!['!', '=']);
    assert(binop_text(BinOp::Gt) =~= seq!['>']);
    assert(binop_text(BinOp::Lt) =~= seq!['<']);
    assert(binop_text(BinOp::Ge) =~= seq!['>', '=']);
    assert(binop_text(BinOp::Le) =~= seq!['<', '=']);
    lemma_eval_bounded(lhs, leaf);
    lemma_eval_bounded(rhs, leaf);
    assert(seq!['+'] != seq!['-']) by {
        assert(seq!['+'][0] != seq!['-'][0]);
    }
    assert(seq!['+'] != seq!['*']) by {
        assert(seq!['+'][0] != seq!['*'][0]);
    }
    assert(seq!['-'] != seq!['*']) by {
        assert(seq!['-'][0] != seq!['*'][0]);
    }
    assert(seq!['+'] != seq!['/']) by {
        assert(seq!['+'][0] != seq!['/'][0]);
    }
    assert(seq!['-'] != seq!['/']) by {
        assert(seq!['-'][0] != seq!['/'][0]);
    }
    assert(seq!['*'] != seq!['/']) by {
        assert(seq!['*'][0] != seq!['/'][0]);
    }
    assert(seq!['+'] != seq!['%']) by {
        assert(seq!['+'][0] != seq!['%'][0]);
    }
    assert(seq!['-'] != seq!['%']) by {
        assert(seq!['-'][0] != seq!['%'][0]);
    }
    assert(seq!['*'] != seq!['%']) by {
        assert(seq!['*'][0] != seq!['%'][0]);
    }
    assert(seq!['/'] != seq!['%']) by {
        assert(seq!['/'][0] != seq!['%'][0]);
    }
}

/// The truth of a comparison of two `u32` expressions, by the meaning of
/// its operator.
pub open spec fn comparison_holds(a: SpecAST, leaf: spec_fn(SpecAST) -> nat) -> Option<bool> {
    match a {
        SpecAST::BinaryOp { lhs, rhs, op } => {
            let x = eval_u32(*lhs, leaf);
            let y = eval_u32(*rhs, leaf);
            match op {
                BinOp::Eq => Some(x == y),
                BinOp::Ne => Some(x != y),
                BinOp::Lt => Some(x < y),
                BinOp::Le => Some(x <= y),
                BinOp::Gt => Some(x > y),
                BinOp::Ge => Some(x >= y),
                _ => None,
            }
        },
        _ => None,
    }
}

/// What WGSL decides for the comparison token `t` on two `u32` values.
pub open spec fn wgsl_u32_cmp(t: Seq<char>, x: nat, y: nat) -> Option<bool> {
    if t == seq!['=', '='] {
        Some(x == y)
    } else if t == seq!['!', '='] {
        Some(x != y)
    } else if t == seq!['<'] {
        Some(x < y)
    } else if t == seq!['<', '='] {
        Some(x <= y)
    } else if t == seq!['>'] {
        Some(x > y)
    } else if t == seq!['>', '='] {
        Some(x >= y)
    } else {
        None
    }
}

/// The token written for a comparison means that comparison: WGSL's
/// reading of the token on the operands' values is the comparison's truth.
#[verifier::spinoff_prover]
pub proof fn lemma_comparison_token_meaning(op: BinOp, lhs: SpecAST, rhs: SpecAST, leaf: spec_fn(SpecAST) -> nat)
    requires
        op == BinOp::Eq || op == BinOp::Ne || op == BinOp::Lt || op == BinOp::Le || op == BinOp::Gt || op
            == BinOp::Ge,
    ensures
        wgsl_u32_cmp(binop_text(op), eval_u32(lhs, leaf), eval_u32(rhs, leaf)) == comparison_holds(
            SpecAST::BinaryOp { lhs: Box::new(lhs), rhs: Box::new(rhs), op },
            leaf,
        ),
{
    reveal_strlit("==");
    reveal_strlit("!=");
    reveal_strlit("<");
    reveal_strlit("<=");
    reveal_strlit(">");
    reveal_strlit(">=");
    let eq = seq!['=', '='];
    let ne = seq!['!', '='];
    let lt = seq!['<'];
    let le = seq!['<', '='];
    let gt = seq!['>'];
    let ge = seq!['>', '='];
    assert(binop_text(BinOp::Eq) =~= eq);
    assert(binop_text(BinOp::Ne) =~= ne);
    assert(binop_text(BinOp::Lt) =~= lt);
    assert(binop_text(BinOp::Le) =~= le);
    assert(binop_text(BinOp::Gt) =~= gt);
    assert(binop_text(BinOp::Ge) =~= ge);
    assert(eq != ne && eq != lt && eq != le && eq != gt && eq != ge) by {
        assert(eq[0] != ne[0] && eq.len() != lt.len() && eq[0] != le[0] && eq.len() != gt.len() && eq[0] != ge[0]);
    }
    assert(ne != lt && ne != le && ne != gt && ne != ge) by {
        assert(ne.len() != lt.len() && ne[0] != le[0] && ne.len() != gt.len() && ne[0] != ge[0]);
    }
    assert(lt != le && lt != gt && lt != ge) by {
        assert(lt.len() != le.len() && lt[0] != gt[0] && lt.len() != ge.len());
    }
    assert(le != gt && le != ge) by {
        assert(le.len() != gt.len() && le[0] != ge[0]);
    }
    assert(gt != ge) by {
        assert(gt.len() != ge.len());
    }
}

/// The code of an operator token: its length and characters, as one number.
spec fn token_code(t: Seq<char>) -> int {
    if t.len() == 1 {
        t[0] as int
    } else if t.len() == 2 {
        0x1_0000 + (t[0] as int) * 0x200 + (t[1] as int)
    } else {
        -1
    }
}

/// No two operators are written alike: the operator of a rendered binary
/// operation can be read back from its token.
#[verifier::spinoff_prover]
pub proof fn lemma_binop_tokens_distinct(op1: BinOp, op2: BinOp)
    requires
        op1 != op2,
    ensures
        binop_text(op1) != binop_text(op2),
{
    reveal_strlit("+");
    reveal_strlit("-");
    reveal_strlit("*");
    reveal_strlit("/");
    reveal_strlit("%");
    reveal_strlit("&");
    reveal_strlit("|");
    reveal_strlit("^");
    reveal_strlit(">>");
    reveal_strlit("<<");
    reveal_strlit("&&");
    reveal_strlit("==");
    reveal_strlit("!=");
    reveal_strlit(">");
    reveal_strlit("<");
    reveal_strlit(">=");
    reveal_strlit("<=");
    assert(binop_text(BinOp::Add) =~= seq!['+']);
    assert(binop_text(BinOp::Sub) =~= seq!['-']);
    assert(binop_text(BinOp::Mul) =~= seq!['*']);
    assert(binop_text(BinOp::Div) =~= seq!['/']);
    assert(binop_text(BinOp::Rem) =~= seq!['%']);
    assert(binop_text(BinOp::BitwiseAnd) =~= seq!['&']);
    assert(binop_text(BinOp::BitwiseOr) =~= seq!['|']);
    assert(binop_text(BinOp::BitwiseXor) =~= seq!['^']);
    assert(binop_text(BinOp::Shr) =~= seq!['>', '>']);
    assert(binop_text(BinOp::Shl) =~= seq!['<', '<']);
    assert(binop_text(BinOp::LogicalAnd) =~= seq!['&', '&']);
    assert(binop_text(BinOp::Eq) =~= seq!['=', '=']);
    assert(binop_text(BinOp::Ne) =~= seq!['!', '=']);
    assert(binop_text(BinOp::Gt) =~= seq!['>']);
    assert(binop_text(BinOp::Lt) =~= seq!['<']);
    assert(binop_text(BinOp::Ge) =~= seq!['>', '=']);
    assert(binop_text(BinOp::Le) =~= seq!['<', '=']);
    if binop_text(op1) == binop_text(op2) {
        assert(token_code(binop_text(op1)) == token_code(binop_text(op2)));
    }
}

proof fn lemma_structs_texts_items(s: Seq<Struct>, k: nat)
    requires
        structs_texts(s, k) is Some,
    ensures
        structs_texts(s, k).unwrap().len() == k,
        forall|i: int|
            0 <= i < k ==> #[trigger] struct_text(s[i].name@, s[i]) == Some(structs_texts(s, k).unwrap()[i]),
    decreases k,
{
    if k > 0 {
        lemma_structs_texts_items(s, (k - 1) as nat);
    }
}

/// What rendering all structs gives: the text of every struct occurs in
/// it, and with no structs it is empty.
pub proof fn lemma_structs_rendered(structs: Seq<Struct>)
    requires
        structs_texts(structs, structs.len()) is Some,
    ensures
        ({
            let all = join(structs_texts(structs, structs.len()).unwrap(), "\n\n"@);
            &&& forall|i: int|
                0 <= i < structs.len() ==> #[trigger] struct_text(structs[i].name@, structs[i]) is Some
                    && occurs_in(struct_text(structs[i].name@, structs[i]).unwrap(), all)
            &&& structs.len() == 0 ==> all.len() == 0
        }),
{
    let t = structs_texts(structs, structs.len()).unwrap();
    lemma_structs_texts_items(structs, structs.len());
    assert forall|i: int| 0 <= i < structs.len() implies #[trigger] struct_text(structs[i].name@, structs[i])
        is Some && occurs_in(struct_text(structs[i].name@, structs[i]).unwrap(), join(t, "\n\n"@)) by {
        lemma_join_contains(t, "\n\n"@, i);
    }
}

proof fn lemma_structs_prefix(s: Seq<Struct>, k: nat, n: nat)
    requires
        k <= n,
        structs_texts(s, n) is Some,
    ensures
        structs_texts(s, k) is Some,
    decreases n - k,
{
    if k < n {
        lemma_structs_prefix(s, k + 1, n);
    }
}

proof fn lemma_workgroup_prefix(v: Seq<(String, DType)>, k: nat, n: nat)
    requires
        k <= n,
        workgroup_text(v, n) is Some,
    ensures
        workgroup_text(v, k) is Some,
    decreases n - k,
{
    if k < n {
        lemma_workgroup_prefix(v, k + 1, n);
    }
}

proof fn lemma_accessors_prefix(ir: ShaderIR, ft: spec_fn(u32) -> Seq<char>, s: Scope, accs: Seq<Accessor>, k: nat)
    requires
        k <= accs.len(),
        accessors_text(ir, ft, s, accs) is Some,
    ensures
        accessors_text(ir, ft, s, accs.take(k as int)) is Some,
    decreases accs.len() - k,
{
    if k == accs.len() {
        assert(accs.take(k as int) =~= accs);
    } else {
        lemma_accessors_prefix(ir, ft, s, accs, k + 1);
        assert(accs.take((k + 1) as int).drop_last() =~= accs.take(k as int));
    }
}

proof fn lemma_args_prefix(ir: ShaderIR, ft: spec_fn(u32) -> Seq<char>, s: Scope, args: Seq<Box<LoweredAST>>, k: nat)
    requires
        k <= args.len(),
        args_texts(ir, ft, s, args) is Some,
    ensures
        args_texts(ir, ft, s, args.take(k as int)) is Some,
    decreases args.len() - k,
{
    if k == args.len() {
        assert(args.take(k as int) =~= args);
    } else {
        lemma_args_prefix(ir, ft, s, args, k + 1);
        assert(args.take((k + 1) as int).drop_last() =~= args.take(k as int));
    }
}

proof fn lemma_group_prefix(
    ir: ShaderIR,
    ft: spec_fn(u32) -> Seq<char>,
    s: Scope,
    stmts: Seq<LoweredAST>,
    indent: nat,
    k: nat,
)
    requires
        k <= stmts.len(),
        group_texts(ir, ft, s, stmts, indent) is Some,
    ensures
        group_texts(ir, ft, s, stmts.take(k as int), indent) is Some,
    decreases stmts.len() - k,
{
    if k == stmts.len() {
        assert(stmts.take(k as int) =~= stmts);
    } else {
        lemma_group_prefix(ir, ft, s, stmts, indent, k + 1);
        assert(stmts.take((k + 1) as int).drop_last() =~= stmts.take(k as int));
    }
}

proof fn lemma_components_prefix(
    ir: ShaderIR,
    ft: spec_fn(u32) -> Seq<char>,
    s: Scope,
    b: BasicTy,
    data: Seq<LoweredASTOrConst>,
    off: nat,
    k: nat,
    n: nat,
    indent: nat,
)
    requires
        k <= n,
        components_text(ir, ft, s, b, data, off, n, indent) is Some,
    ensures
        components_text(ir, ft, s, b, data, off, k, indent) is Some,
    decreases n - k,
{
    if k < n {
        lemma_components_prefix(ir, ft, s, b, data, off, k + 1, n, indent);
    }
}

proof fn lemma_nested_prefix(
    ir: ShaderIR,
    ft: spec_fn(u32) -> Seq<char>,
    s: Scope,
    fields: Seq<(String, DType)>,
    k: nat,
    n: nat,
    data: Seq<LoweredASTOrConst>,
    off: nat,
    indent: nat,
)
    requires
        k <= n,
        nested_fields_text(ir, ft, s, fields, n, data, off, indent) is Some,
    ensures
        nested_fields_text(ir, ft, s, fields, k, data, off, indent) is Some,
    decreases n - k,
{
    if k < n {
        lemma_nested_prefix(ir, ft, s, fields, k + 1, n, data, off, indent);
    }
}

proof fn lemma_struct_fields_prefix(
    ir: ShaderIR,
    ft: spec_fn(u32) -> Seq<char>,
    s: Scope,
    fields: Seq<(String, DType)>,
    k: nat,
    n: nat,
    data: Seq<LoweredASTOrConst>,
    indent: nat,
)
    requires
        k <= n,
        struct_fields_text(ir, ft, s, fields, n, data, indent) is Some,
    ensures
        struct_fields_text(ir, ft, s, fields, k, data, indent) is Some,
    decreases n - k,
{
    if k < n {
        lemma_struct_fields_prefix(ir, ft, s, fields, k + 1, n, data, indent);
    }
}

proof fn lemma_decls_prefix(ir: ShaderIR, ft: spec_fn(u32) -> Seq<char>, s: Scope, k: nat, n: nat, indent: nat)
    requires
        k <= n,
        decls_text(ir, ft, s, n, indent) is Some,
    ensures
        decls_text(ir, ft, s, k, indent) is Some,
    decreases n - k,
{
    if k < n {
        lemma_decls_prefix(ir, ft, s, k + 1, n, indent);
    }
}

impl<'a, F: Fn(u32) -> String> LoweredRenderer<'a, F> {
    /// Text of an `f32` constant given by its bits.
    pub fn render_f32_bits(&self, bits: u32) -> (r: String)
        ensures
            r@ == f32_text(self.ft(), bits as nat),
    {
        if bits == 0x7f80_0000 {
            return String::from_str("0x1p+127f");
        }
        if bits == 0xff80_0000 {
            return String::from_str("-0x1p+127f");
        }
        proof {
            use_type_invariant(self);
        }
        let mut out = (self.f32_spelling)(bits);
        proof {
            let c = choose|s2: String| self.f32_spelling.ensures((bits,), s2);
            assert(self.f32_spelling.ensures((bits,), c));
            assert(out@ == spelling(self.f32_spelling, bits));
        }
        out.append("f");
        out
    }

    fn render_scalar_bytes(&self, b: &BasicTy, c: &Vec<u8>) -> (r: String)
        requires
            c@.len() >= 4,
        ensures
            scalar_bytes_text(self.ft(), *b, c@) == Some(r@),
    {
        let u: u32 = c[0] as u32 + (c[1] as u32) * 256 + (c[2] as u32) * 65536 + (c[3] as u32)
            * 16777216;
        match b {
            BasicTy::F32 => self.render_f32_bits(u),
            BasicTy::Bool => if u != 0 {
                String::from_str("true")
            } else {
                String::from_str("false")
            },
            BasicTy::Integer(IntegerTy::I32) => {
                let v: i32 = if u >= 0x8000_0000 {
                    ((u as i64) - 0x1_0000_0000i64) as i32
                } else {
                    u as i32
                };
                let mut out = String::new();
                push_i32(&mut out, v);
                out.append("i");
                proof {
                    assert(Seq::<char>::empty() + crate::text::int_text(v as int) =~= crate::text::int_text(
                        v as int,
                    ));
                }
                out
            },
            BasicTy::Integer(IntegerTy::U32) => {
                let mut out = String::new();
                push_decimal(&mut out, u as usize);
                out.append("u");
                proof {
                    assert(Seq::<char>::empty() + decimal(u as nat) =~= decimal(u as nat));
                }
                out
            },
        }
    }

    fn render_var(&self, curr_scope: &Scope, r: &VarRefType) -> (t: Option<String>)
        ensures
            rendered(t) == match (
                var_ident(self.shader(), *curr_scope, *r),
                accessors_text(self.shader(), self.ft(), *curr_scope, var_ref_of(*r).by@),
            ) {
                (Some(i), Some(x)) => Some(i + x),
                _ => None,
            },
        decreases curr_scope, 0nat, r, 0nat, 0nat,
    {
        let (mut ident, b) = match r {
            VarRefType::EntryPointGlobal(b) => {
                if b.id >= self.ir.entrypoint_globals.len() {
                    return None;
                }
                (String::from_str(self.ir.entrypoint_globals[b.id].name()), b)
            },
            VarRefType::Local(b) => {
                if b.id >= curr_scope.local_vars.len() {
                    return None;
                }
                (curr_scope.local_vars[b.id].name.clone(), b)
            },
            VarRefType::Global(b) => {
                if b.id >= self.ir.binded.len() {
                    return None;
                }
                (self.ir.binded[b.id].ident.clone(), b)
            },
            VarRefType::Shared(b) => {
                if b.id >= self.ir.shared_vars.len() {
                    return None;
                }
                (self.ir.shared_vars[b.id].0.clone(), b)
            },
        };
        let acc = self.render_accessors(curr_scope, &b.by)?;
        ident.append(acc.as_str());
        Some(ident)
    }

    fn render_accessors(&self, curr_scope: &Scope, accs: &Vec<Accessor>) -> (t: Option<String>)
        ensures
            rendered(t) == accessors_text(self.shader(), self.ft(), *curr_scope, accs@),
        decreases curr_scope, 0nat, accs, 0nat, 0nat,
    {
        let mut out = String::new();
        let n = accs.len();
        let mut i: usize = 0;
        proof {
            assert(accs@.take(0) =~= Seq::<Accessor>::empty());
        }
        while i < n
            invariant
                n == accs@.len(),
                i <= n,
                accessors_text(self.shader(), self.ft(), *curr_scope, accs@.take(i as int)) == Some(out@),
            decreases n - i,
        {
            proof {
                assert(accs@.take((i + 1) as int).drop_last() =~= accs@.take(i as int));
                assert(accs@.take((i + 1) as int).last() == accs@[i as int]);
                vstd::std_specs::vec::axiom_vec_index_decreases(*accs, i as int);
            }
            match &accs[i] {
                Accessor::Index(e) => {
                    let t = match self.render_ast(curr_scope, e, 0) {
                        Some(t) => t,
                        None => {
                            proof {
                                if accessors_text(self.shader(), self.ft(), *curr_scope, accs@) is Some {
                                    lemma_accessors_prefix(
                                        self.shader(),
                                        self.ft(),
                                        *curr_scope,
                                        accs@,
                                        (i + 1) as nat,
                                    );
                                }
                            }
                            return None;
                        },
                    };
                    out.append("[");
                    out.append(t.as_str());
                    out.append("]");
                },
                Accessor::Field(name) => {
                    out.append(".");
                    out.append(name.as_str());
                },
            }
            i = i + 1;
        }
        proof {
            assert(accs@.take(n as int) =~= accs@);
        }
        Some(out)
    }

    fn render_args(&self, curr_scope: &Scope, args: &Vec<Box<LoweredAST>>) -> (t: Option<Vec<String>>)
        ensures
            rendered_all(t) == args_texts(self.shader(), self.ft(), *curr_scope, args@),
        decreases curr_scope, 0nat, args, 0nat, 0nat,
    {
        let mut out: Vec<String> = Vec::new();
        let n = args.len();
        let mut i: usize = 0;
        proof {
            assert(args@.take(0) =~= Seq::<Box<LoweredAST>>::empty());
            assert(strings_view(out@) =~= Seq::<Seq<char>>::empty());
        }
        while i < n
            invariant
                n == args@.len(),
                i <= n,
                args_texts(self.shader(), self.ft(), *curr_scope, args@.take(i as int)) == Some(
                    strings_view(out@),
                ),
            decreases n - i,
        {
            proof {
                assert(args@.take((i + 1) as int).drop_last() =~= args@.take(i as int));
                assert(args@.take((i + 1) as int).last() == args@[i as int]);
                vstd::std_specs::vec::axiom_vec_index_decreases(*args, i as int);
            }
            let t = match self.render_ast(curr_scope, &args[i], 0) {
                Some(t) => t,
                None => {
                    proof {
                        if args_texts(self.shader(), self.ft(), *curr_scope, args@) is Some {
                            lemma_args_prefix(self.shader(), self.ft(), *curr_scope, args@, (i + 1) as nat);
                        }
                    }
                    return None;
                },
            };
            out.push(t);
            proof {
                assert(strings_view(out@) =~= args_texts(
                    self.shader(),
                    self.ft(),
                    *curr_scope,
                    args@.take((i + 1) as int),
                ).unwrap());
            }
            i = i + 1;
        }
        proof {
            assert(args@.take(n as int) =~= args@);
        }
        Some(out)
    }

    fn render_group(&self, curr_scope: &Scope, stmts: &Vec<LoweredAST>, indent: usize) -> (t: Option<
        Vec<String>,
    >)
        ensures
            rendered_all(t) == group_texts(self.shader(), self.ft(), *curr_scope, stmts@, indent as nat),
        decreases curr_scope, 0nat, stmts, 0nat, 0nat,
    {
        let mut out: Vec<String> = Vec::new();
        let n = stmts.len();
        let mut i: usize = 0;
        proof {
            assert(stmts@.take(0) =~= Seq::<LoweredAST>::empty());
            assert(strings_view(out@) =~= Seq::<Seq<char>>::empty());
        }
        while i < n
            invariant
                n == stmts@.len(),
                i <= n,
                group_texts(self.shader(), self.ft(), *curr_scope, stmts@.take(i as int), indent as nat)
                    == Some(strings_view(out@)),
            decreases n - i,
        {
            proof {
                assert(stmts@.take((i + 1) as int).drop_last() =~= stmts@.take(i as int));
                assert(stmts@.take((i + 1) as int).last() == stmts@[i as int]);
                vstd::std_specs::vec::axiom_vec_index_decreases(*stmts, i as int);
            }
            let r = match self.render_ast(curr_scope, &stmts[i], indent) {
                Some(r) => r,
                None => {
                    proof {
                        if group_texts(self.shader(), self.ft(), *curr_scope, stmts@, indent as nat) is Some {
                            lemma_group_prefix(
                                self.shader(),
                                self.ft(),
                                *curr_scope,
                                stmts@,
                                indent as nat,
                                (i + 1) as nat,
                            );
                        }
                    }
                    return None;
                },
            };
            let starts_tab = r.as_str().unicode_len() > 0 && r.as_str().get_char(0) == '\t';
            let mut r1 = if starts_tab {
                r
            } else {
                let mut t = crate::text::tab_string(indent);
                t.append(r.as_str());
                t
            };
            let l = r1.as_str().unicode_len();
            let ends_ok = if l > 0 {
                let c = r1.as_str().get_char(l - 1);
                c == '}' || c == ';'
            } else {
                false
            };
            if !ends_ok {
                r1.append(";");
            }
            proof {
                assert(r1@ == group_stmt_text(r@, indent as nat));
            }
            out.push(r1);
            proof {
                assert(strings_view(out@) =~= group_texts(
                    self.shader(),
                    self.ft(),
                    *curr_scope,
                    stmts@.take((i + 1) as int),
                    indent as nat,
                ).unwrap());
            }
            i = i + 1;
        }
        proof {
            assert(stmts@.take(n as int) =~= stmts@);
        }
        Some(out)
    }

    /// The text of an optional part of a `for` header: `Some(None)` when it
    /// is absent, `None` when it has no text.
    fn render_opt(&self, curr_scope: &Scope, o: &Option<Box<LoweredAST>>) -> (t: Option<
        Option<String>,
    >)
        ensures
            match t {
                Some(x) => opt_text(self.shader(), self.ft(), *curr_scope, *o) == Some(rendered(x)),
                None => opt_text(self.shader(), self.ft(), *curr_scope, *o) is None,
            },
        decreases curr_scope, 0nat, o, 0nat, 0nat,
    {
        match o {
            Some(b) => match self.render_ast(curr_scope, b, 0) {
                Some(x) => Some(Some(x)),
                None => None,
            },
            None => Some(None),
        }
    }

    /// A scalar constant from `data[off]`.
    fn render_basic_ty_const(
        &self,
        b: &BasicTy,
        data: &Vec<LoweredASTOrConst>,
        off: usize,
        curr_scope: &Scope,
        indent: usize,
    ) -> (t: Option<String>)
        ensures
            rendered(t) == basic_const_text(
                self.shader(),
                self.ft(),
                *curr_scope,
                *b,
                data@,
                off as nat,
                indent as nat,
            ),
        decreases curr_scope, 0nat, data, 0nat, 0nat,
    {
        if off >= data.len() {
            return None;
        }
        proof {
            vstd::std_specs::vec::axiom_vec_index_decreases(*data, off as int);
        }
        match &data[off] {
            LoweredASTOrConst::Const(c) => if c.len() < 4 {
                None
            } else {
                Some(self.render_scalar_bytes(b, c))
            },
            LoweredASTOrConst::LoweredAST(l) => self.render_ast(curr_scope, l, indent),
        }
    }

    /// `n` scalar constants from `data[off..]`.
    fn render_components(
        &self,
        b: &BasicTy,
        data: &Vec<LoweredASTOrConst>,
        off: usize,
        n: usize,
        curr_scope: &Scope,
        indent: usize,
    ) -> (t: Option<Vec<String>>)
        requires
            n <= 4,
        ensures
            rendered_all(t) == components_text(
                self.shader(),
                self.ft(),
                *curr_scope,
                *b,
                data@,
                off as nat,
                n as nat,
                indent as nat,
            ),
        decreases curr_scope, 0nat, data, 1nat, n,
    {
        let mut out: Vec<String> = Vec::new();
        let dlen = data.len();
        let mut k: usize = 0;
        proof {
            assert(strings_view(out@) =~= Seq::<Seq<char>>::empty());
        }
        while k < n
            invariant
                k <= n,
                n <= 4,
                dlen == data@.len(),
                components_text(self.shader(), self.ft(), *curr_scope, *b, data@, off as nat, k as nat, indent as nat)
                    == Some(strings_view(out@)),
            decreases n - k,
        {
            if off > usize::MAX - k {
                proof {
                    assert(basic_const_text(
                        self.shader(),
                        self.ft(),
                        *curr_scope,
                        *b,
                        data@,
                        (off + k) as nat,
                        indent as nat,
                    ) is None);
                    if components_text(self.shader(), self.ft(), *curr_scope, *b, data@, off as nat, n as nat, indent as nat)
                        is Some {
                        lemma_components_prefix(
                            self.shader(),
                            self.ft(),
                            *curr_scope,
                            *b,
                            data@,
                            off as nat,
                            (k + 1) as nat,
                            n as nat,
                            indent as nat,
                        );
                    }
                }
                return None;
            }
            let t = match self.render_basic_ty_const(b, data, off + k, curr_scope, indent) {
                Some(t) => t,
                None => {
                    proof {
                        if components_text(self.shader(), self.ft(), *curr_scope, *b, data@, off as nat, n as nat, indent as nat)
                            is Some {
                            lemma_components_prefix(
                                self.shader(),
                                self.ft(),
                                *curr_scope,
                                *b,
                                data@,
                                off as nat,
                                (k + 1) as nat,
                                n as nat,
                                indent as nat,
                            );
                        }
                    }
                    return None;
                },
            };
            out.push(t);
            proof {
                assert(strings_view(out@) =~= components_text(
                    self.shader(),
                    self.ft(),
                    *curr_scope,
                    *b,
                    data@,
                    off as nat,
                    (k + 1) as nat,
                    indent as nat,
                ).unwrap());
            }
            k = k + 1;
        }
        Some(out)
    }

    /// A vector constant from `data[off..]`.
    fn render_vec_const(
        &self,
        v: &VecTy,
        data: &Vec<LoweredASTOrConst>,
        off: usize,
        curr_scope: &Scope,
        indent: usize,
    ) -> (t: Option<String>)
        ensures
            rendered(t) == vec_const_text(
                self.shader(),
                self.ft(),
                *curr_scope,
                *v,
                data@,
                off as nat,
                indent as nat,
            ),
        decreases curr_scope, 0nat, data, 2nat, 0nat,
    {
        let (n, inner, head): (usize, &BasicTy, &str) = match v {
            VecTy::Vec2(b) => (2, b, "vec2<"),
            VecTy::Vec3(b) => (3, b, "vec3<"),
            VecTy::Vec4(b) => (4, b, "vec4<"),
            VecTy::Array(_, _) => {
                return None;
            },
        };
        let parts = self.render_components(inner, data, off, n, curr_scope, indent)?;
        let mut out = String::from_str(head);
        out.append(self.render_basic_ty(inner).as_str());
        out.append(">(");
        out.append(join_strings(&parts, ", ").as_str());
        out.append(")");
        Some(out)
    }

    fn render_nested_field(
        &self,
        ty: &DType,
        data: &Vec<LoweredASTOrConst>,
        off: usize,
        curr_scope: &Scope,
        indent: usize,
    ) -> (t: Option<(String, usize)>)
        ensures
            match t {
                Some(p) => nested_field_text(
                    self.shader(),
                    self.ft(),
                    *curr_scope,
                    *ty,
                    data@,
                    off as nat,
                    indent as nat,
                ) == Some((p.0@, p.1 as nat)),
                None => nested_field_text(
                    self.shader(),
                    self.ft(),
                    *curr_scope,
                    *ty,
                    data@,
                    off as nat,
                    indent as nat,
                ) is None,
            },
        decreases curr_scope, 0nat, data, 3nat, 0nat,
    {
        match ty {
            DType::Basic(b) => match self.render_basic_ty_const(b, data, off, curr_scope, indent) {
                Some(t) => Some((t, 1)),
                None => None,
            },
            DType::Vector(v) => match v {
                VecTy::Array(_, _) => None,
                _ => {
                    let used = ty.element_count();
                    match self.render_vec_const(v, data, off, curr_scope, indent) {
                        Some(t) => Some((t, used)),
                        None => None,
                    }
                },
            },
            DType::Pad(e) => Some((String::new(), *e)),
            _ => None,
        }
    }

    fn render_nested_fields(
        &self,
        fields: &Vec<(String, DType)>,
        data: &Vec<LoweredASTOrConst>,
        off: usize,
        curr_scope: &Scope,
        indent: usize,
    ) -> (t: Option<(Vec<String>, usize)>)
        ensures
            match t {
                Some(p) => nested_fields_text(
                    self.shader(),
                    self.ft(),
                    *curr_scope,
                    fields@,
                    fields@.len(),
                    data@,
                    off as nat,
                    indent as nat,
                ) == Some((strings_view(p.0@), p.1 as nat)),
                None => nested_fields_text(
                    self.shader(),
                    self.ft(),
                    *curr_scope,
                    fields@,
                    fields@.len(),
                    data@,
                    off as nat,
                    indent as nat,
                ) is None,
            },
        decreases curr_scope, 0nat, data, 4nat, fields@.len(),
    {
        let mut inits: Vec<String> = Vec::new();
        let mut o: usize = off;
        let n = fields.len();
        let mut k: usize = 0;
        proof {
            assert(strings_view(inits@) =~= Seq::<Seq<char>>::empty());
        }
        while k < n
            invariant
                n == fields@.len(),
                k <= n,
                nested_fields_text(self.shader(), self.ft(), *curr_scope, fields@, k as nat, data@, off as nat, indent as nat)
                    == Some((strings_view(inits@), o as nat)),
            decreases n - k,
        {
            let (t, used) = match self.render_nested_field(&fields[k].1, data, o, curr_scope, indent) {
                Some(p) => p,
                None => {
                    proof {
                        if nested_fields_text(self.shader(), self.ft(), *curr_scope, fields@, n as nat, data@, off as nat, indent as nat)
                            is Some {
                            lemma_nested_prefix(
                                self.shader(),
                                self.ft(),
                                *curr_scope,
                                fields@,
                                (k + 1) as nat,
                                n as nat,
                                data@,
                                off as nat,
                                indent as nat,
                            );
                        }
                    }
                    return None;
                },
            };
            if used > usize::MAX - o {
                proof {
                    if nested_fields_text(self.shader(), self.ft(), *curr_scope, fields@, n as nat, data@, off as nat, indent as nat)
                        is Some {
                        lemma_nested_prefix(
                            self.shader(),
                            self.ft(),
                            *curr_scope,
                            fields@,
                            (k + 1) as nat,
                            n as nat,
                            data@,
                            off as nat,
                            indent as nat,
                        );
                    }
                }
                return None;
            }
            let is_pad = match &fields[k].1 {
                DType::Pad(_) => true,
                _ => false,
            };
            if !is_pad {
                let mut init = fields[k].0.clone();
                init.append(": ");
                init.append(t.as_str());
                inits.push(init);
            }
            o = o + used;
            proof {
                assert(strings_view(inits@) =~= nested_fields_text(
                    self.shader(),
                    self.ft(),
                    *curr_scope,
                    fields@,
                    (k + 1) as nat,
                    data@,
                    off as nat,
                    indent as nat,
                ).unwrap().0);
            }
            k = k + 1;
        }
        Some((inits, o))
    }
}

impl EntrypointGlobals {
    /// The name under which an entry point receives this built-in.
    pub fn name(&self) -> (r: &'static str)
        ensures
            r@ == entry_global_text(*self),
    {
        match self {
            EntrypointGlobals::GlobalInvocationId => "g_id",
            EntrypointGlobals::LocalInvocationId => "l_id",
        }
    }
}

fn binop_str(op: &BinOp) -> (r: &'static str)
    ensures
        r@ == binop_text(*op),
{
    match op {
        BinOp::Add => "+",
        BinOp::BitwiseAnd => "&",
        BinOp::BitwiseOr => "|",
        BinOp::BitwiseXor => "^",
        BinOp::Div => "/",
        BinOp::Eq => "==",
        BinOp::Ge => ">=",
        BinOp::Gt => ">",
        BinOp::Le => "<=",
        BinOp::LogicalAnd => "&&",
        BinOp::Lt => "<",
        BinOp::Mul => "*",
        BinOp::Ne => "!=",
        BinOp::Rem => "%",
        BinOp::Shl => "<<",
        BinOp::Shr => ">>",
        BinOp::Sub => "-",
    }
}

fn unop_str(op: &UnaryOp) -> (r: &'static str)
    ensures
        r@ == unop_text(*op),
{
    match op {
        UnaryOp::BitwiseNot => "!",
        UnaryOp::LogicalNot => "!",
        UnaryOp::Neg => "-",
    }
}

/// The present parts of an optional triple, as a sequence.
pub open spec fn opt_seq(o: Option<Seq<char>>) -> Seq<Seq<char>> {
    match o {
        Some(p) => seq![p],
        None => Seq::empty(),
    }
}

proof fn lemma_present3(a: Option<Seq<char>>, b: Option<Seq<char>>, c: Option<Seq<char>>)
    ensures
        present(seq![a, b, c]) == opt_seq(a) + opt_seq(b) + opt_seq(c),
{
    reveal_with_fuel(present, 4);
    let s3 = seq![a, b, c];
    assert(s3.drop_last() =~= seq![a, b]);
    assert(seq![a, b].drop_last() =~= seq![a]);
    assert(seq![a].drop_last() =~= Seq::<Option<Seq<char>>>::empty());
    assert(present(seq![a]) =~= opt_seq(a));
    assert(present(seq![a, b]) =~= opt_seq(a) + opt_seq(b));
    assert(present(s3) =~= opt_seq(a) + opt_seq(b) + opt_seq(c));
}

impl<'a, F: Fn(u32) -> String> LoweredRenderer<'a, F> {
    /// Text of `ast` in `curr_scope`, indented by `indent` tabs where it is a
    /// statement; `None` where the tree has no text (a reference to a
    /// variable or child scope that does not exist, a constant whose data does
    /// not fit its type).
    #[verifier::spinoff_prover]
    #[verifier::rlimit(50)]
    pub fn render_ast(&self, curr_scope: &Scope, ast: &LoweredAST, indent: usize) -> (r: Option<String>)
        ensures
            rendered(r) == ast_text(self.shader(), self.ft(), *curr_scope, *ast, indent as nat),
        decreases curr_scope, 0nat, ast, 0nat, 0nat,
    {
        let ghost tab = tabs(indent as nat);
        match ast {
            LoweredAST::BinaryOp { lhs, rhs, op } => {
                let mut out = self.render_ast(curr_scope, lhs, 0)?;
                let r = self.render_ast(curr_scope, rhs, 0)?;
                out.append(" ");
                out.append(binop_str(op));
                out.append(" ");
                out.append(r.as_str());
                Some(out)
            },
            LoweredAST::Break => {
                let mut out = crate::text::tab_string(indent);
                out.append("break;");
                Some(out)
            },
            LoweredAST::Continue => {
                let mut out = crate::text::tab_string(indent);
                out.append("continue;");
                Some(out)
            },
            LoweredAST::Return => {
                let mut out = crate::text::tab_string(indent);
                out.append("return;");
                Some(out)
            },
            LoweredAST::Conditional { cond, true_block, else_block } => {
                if true_block.0 >= curr_scope.child_scopes.len() || indent == usize::MAX {
                    return None;
                }
                let c = self.render_ast(curr_scope, cond, 0);
                proof {
                    vstd::std_specs::vec::axiom_vec_index_decreases(
                        curr_scope.child_scopes,
                        true_block.0 as int,
                    );
                }
                let t = if curr_scope.child_scopes[true_block.0].ast.is_some() {
                    self.render_scope(&curr_scope.child_scopes[true_block.0], indent + 1)
                } else {
                    None
                };
                let e: Option<Option<String>> = match else_block {
                    Some(p) => {
                        if p.0 >= curr_scope.child_scopes.len() {
                            None
                        } else {
                            proof {
                                vstd::std_specs::vec::axiom_vec_index_decreases(
                                    curr_scope.child_scopes,
                                    p.0 as int,
                                );
                            }
                            match if curr_scope.child_scopes[p.0].ast.is_some() {
                                self.render_scope(&curr_scope.child_scopes[p.0], indent + 1)
                            } else {
                                None
                            } {
                                Some(b) => Some(Some(b)),
                                None => None,
                            }
                        }
                    },
                    None => Some(None),
                };
                let (c, t, e) = match (c, t, e) {
                    (Some(c), Some(t), Some(e)) => (c, t, e),
                    _ => {
                        return None;
                    },
                };
                let mut out = crate::text::tab_string(indent);
                out.append("if (");
                out.append(c.as_str());
                out.append(") {\n");
                out.append(t.as_str());
                out.append("\n");
                push_tabs(&mut out, indent);
                out.append("}");
                let ghost head = out@;
                match e {
                    Some(b) => {
                        out.append(" else {\n");
                        out.append(b.as_str());
                        out.append("\n");
                        push_tabs(&mut out, indent);
                        out.append("}");
                        proof {
                            assert(out@ =~= head + (" else {\n"@ + b@ + "\n"@ + tab + "}"@));
                        }
                    },
                    None => {
                        proof {
                            assert(out@ =~= head + Seq::<char>::empty());
                        }
                    },
                }
                Some(out)
            },
            LoweredAST::Load(r) => self.render_var(curr_scope, r),
            LoweredAST::Store { var, val } => {
                let v = self.render_var(curr_scope, var)?;
                let t = self.render_ast(curr_scope, val, 0)?;
                let mut out = crate::text::tab_string(indent);
                out.append(v.as_str());
                out.append(" = ");
                out.append(t.as_str());
                out.append(";");
                proof {
                    let i = var_ident(self.shader(), *curr_scope, *var).unwrap();
                    let x = accessors_text(self.shader(), self.ft(), *curr_scope, var_ref_of(*var).by@).unwrap();
                    assert(out@ =~= tab + i + x + " = "@ + t@ + ";"@);
                }
                Some(out)
            },
            LoweredAST::ForLoop { init, halt_cond, increment, body } => {
                let i = self.render_opt(curr_scope, init);
                let h = self.render_opt(curr_scope, halt_cond);
                let n = self.render_opt(curr_scope, increment);
                if body.0 >= curr_scope.child_scopes.len() || indent == usize::MAX {
                    return None;
                }
                proof {
                    vstd::std_specs::vec::axiom_vec_index_decreases(curr_scope.child_scopes, body.0 as int);
                }
                let b = if curr_scope.child_scopes[body.0].ast.is_some() {
                    self.render_scope(&curr_scope.child_scopes[body.0], indent + 1)
                } else {
                    None
                };
                let (i, h, n, b) = match (i, h, n, b) {
                    (Some(i), Some(h), Some(n), Some(b)) => (i, h, n, b),
                    _ => {
                        return None;
                    },
                };
                let ghost oi = rendered(i);
                let ghost oh = rendered(h);
                let ghost on = rendered(n);
                let mut parts: Vec<String> = Vec::new();
                match i {
                    Some(x) => parts.push(x),
                    None => {},
                }
                proof {
                    assert(strings_view(parts@) =~= opt_seq(oi));
                }
                match h {
                    Some(x) => parts.push(x),
                    None => {},
                }
                proof {
                    assert(strings_view(parts@) =~= opt_seq(oi) + opt_seq(oh));
                }
                match n {
                    Some(x) => parts.push(x),
                    None => {},
                }
                proof {
                    assert(strings_view(parts@) =~= opt_seq(oi) + opt_seq(oh) + opt_seq(on));
                    lemma_present3(oi, oh, on);
                }
                let mut out = crate::text::tab_string(indent);
                out.append("for (");
                out.append(join_strings(&parts, "; ").as_str());
                out.append(") {\n");
                out.append(b.as_str());
                out.append("\n");
                push_tabs(&mut out, indent);
                out.append("}");
                Some(out)
            },
            LoweredAST::WhileLoop { cond, body } => {
                if body.0 >= curr_scope.child_scopes.len() || indent == usize::MAX {
                    return None;
                }
                let c = self.render_ast(curr_scope, cond, 0);
                proof {
                    vstd::std_specs::vec::axiom_vec_index_decreases(curr_scope.child_scopes, body.0 as int);
                }
                let b = if curr_scope.child_scopes[body.0].ast.is_some() {
                    self.render_scope(&curr_scope.child_scopes[body.0], indent + 1)
                } else {
                    None
                };
                let (c, b) = match (c, b) {
                    (Some(c), Some(b)) => (c, b),
                    _ => {
                        return None;
                    },
                };
                let mut out = crate::text::tab_string(indent);
                out.append("while (");
                out.append(c.as_str());
                out.append(") {\n");
                out.append(b.as_str());
                out.append("\n");
                push_tabs(&mut out, indent);
                out.append("}");
                Some(out)
            },
            LoweredAST::UnaryOp { operand, op } => {
                let t = self.render_ast(curr_scope, operand, 0)?;
                let mut out = String::from_str(unop_str(op));
                out.append(t.as_str());
                Some(out)
            },
            LoweredAST::Const { dt, data } => match dt {
                DType::Atomic(_) => None,
                DType::Basic(b) => self.render_basic_ty_const(b, data, 0, curr_scope, indent),
                DType::Vector(v) => self.render_vec_const(v, data, 0, curr_scope, indent),
                DType::StructRef { ident } => {
                    let j = lookup_struct(&self.ir.structs, ident);
                    match j {
                        Some(j) => self.render_struct_const(
                            ident.as_str(),
                            &self.ir.structs[j],
                            data,
                            curr_scope,
                            indent,
                        ),
                        None => None,
                    }
                },
                DType::Pad(bytes) => self.render_pad_const(*bytes, data, curr_scope, indent),
            },
            LoweredAST::FunctionCall { ident, args } => {
                let parts = self.render_args(curr_scope, args)?;
                let mut out = ident.clone();
                out.append("(");
                out.append(join_strings(&parts, ", ").as_str());
                out.append(")");
                Some(out)
            },
            LoweredAST::Group(stmts) => {
                let parts = self.render_group(curr_scope, stmts, indent)?;
                Some(join_strings(&parts, "\n"))
            },
        }
    }

    /// A field value of a struct constant at `data[off..]` and the number of
    /// components it takes.
    fn render_struct_field(
        &self,
        ty: &DType,
        data: &Vec<LoweredASTOrConst>,
        off: usize,
        curr_scope: &Scope,
        indent: usize,
    ) -> (t: Option<(String, usize)>)
        ensures
            match t {
                Some(p) => struct_field_text(
                    self.shader(),
                    self.ft(),
                    *curr_scope,
                    *ty,
                    data@,
                    off as nat,
                    indent as nat,
                ) == Some((p.0@, p.1 as nat)),
                None => struct_field_text(
                    self.shader(),
                    self.ft(),
                    *curr_scope,
                    *ty,
                    data@,
                    off as nat,
                    indent as nat,
                ) is None,
            },
        decreases curr_scope, 0nat, data, 5nat, 0nat,
    {
        match ty {
            DType::StructRef { ident } => {
                let j = lookup_struct(&self.ir.structs, ident);
                match j {
                    Some(j) => {
                        let nested = &self.ir.structs[j];
                        let (inits, o) = self.render_nested_fields(
                            &nested.inner,
                            data,
                            off,
                            curr_scope,
                            indent,
                        )?;
                        let mut out = ident.clone();
                        out.append("(");
                        out.append(join_strings(&inits, ", ").as_str());
                        out.append(")");
                        proof {
                            lemma_nested_offset(
                                self.shader(),
                                self.ft(),
                                *curr_scope,
                                nested.inner@,
                                nested.inner@.len(),
                                data@,
                                off as nat,
                                indent as nat,
                            );
                        }
                        Some((out, o - off))
                    },
                    None => None,
                }
            },
            _ => self.render_nested_field(ty, data, off, curr_scope, indent),
        }
    }

    /// Field initializers of a struct constant over `fields`.
    fn render_struct_fields(
        &self,
        fields: &Vec<(String, DType)>,
        data: &Vec<LoweredASTOrConst>,
        curr_scope: &Scope,
        indent: usize,
    ) -> (t: Option<Vec<String>>)
        ensures
            match t {
                Some(v) => struct_fields_text(
                    self.shader(),
                    self.ft(),
                    *curr_scope,
                    fields@,
                    fields@.len(),
                    data@,
                    indent as nat,
                ) matches Some(p) && p.0 == strings_view(v@),
                None => struct_fields_text(
                    self.shader(),
                    self.ft(),
                    *curr_scope,
                    fields@,
                    fields@.len(),
                    data@,
                    indent as nat,
                ) is None,
            },
        decreases curr_scope, 0nat, data, 6nat, fields@.len(),
    {
        let mut inits: Vec<String> = Vec::new();
        let mut o: usize = 0;
        let n = fields.len();
        let mut k: usize = 0;
        proof {
            assert(strings_view(inits@) =~= Seq::<Seq<char>>::empty());
        }
        while k < n
            invariant
                n == fields@.len(),
                k <= n,
                struct_fields_text(self.shader(), self.ft(), *curr_scope, fields@, k as nat, data@, indent as nat)
                    == Some((strings_view(inits@), o as nat)),
            decreases n - k,
        {
            let (t, used) = match self.render_struct_field(&fields[k].1, data, o, curr_scope, indent) {
                Some(p) => p,
                None => {
                    proof {
                        if struct_fields_text(self.shader(), self.ft(), *curr_scope, fields@, n as nat, data@, indent as nat)
                            is Some {
                            lemma_struct_fields_prefix(
                                self.shader(),
                                self.ft(),
                                *curr_scope,
                                fields@,
                                (k + 1) as nat,
                                n as nat,
                                data@,
                                indent as nat,
                            );
                        }
                    }
                    return None;
                },
            };
            if used > usize::MAX - o {
                proof {
                    if struct_fields_text(self.shader(), self.ft(), *curr_scope, fields@, n as nat, data@, indent as nat)
                        is Some {
                        lemma_struct_fields_prefix(
                            self.shader(),
                            self.ft(),
                            *curr_scope,
                            fields@,
                            (k + 1) as nat,
                            n as nat,
                            data@,
                            indent as nat,
                        );
                    }
                }
                return None;
            }
            let is_pad = match &fields[k].1 {
                DType::Pad(_) => true,
                _ => false,
            };
            if !is_pad {
                let mut init = fields[k].0.clone();
                init.append(": ");
                init.append(t.as_str());
                inits.push(init);
            }
            o = o + used;
            proof {
                assert(strings_view(inits@) =~= struct_fields_text(
                    self.shader(),
                    self.ft(),
                    *curr_scope,
                    fields@,
                    (k + 1) as nat,
                    data@,
                    indent as nat,
                ).unwrap().0);
            }
            k = k + 1;
        }
        Some(inits)
    }

    /// A constant of struct type `s` named `ident`.
    fn render_struct_const(
        &self,
        ident: &str,
        s: &Struct,
        data: &Vec<LoweredASTOrConst>,
        curr_scope: &Scope,
        indent: usize,
    ) -> (t: Option<String>)
        ensures
            rendered(t) == struct_const_text(
                self.shader(),
                self.ft(),
                *curr_scope,
                ident@,
                *s,
                data@,
                indent as nat,
            ),
        decreases curr_scope, 0nat, data, 7nat, 0nat,
    {
        let inits = self.render_struct_fields(&s.inner, data, curr_scope, indent)?;
        let mut out = String::from_str(ident);
        out.append("(");
        out.append(join_strings(&inits, ", ").as_str());
        out.append(")");
        Some(out)
    }

    /// A padding constant of `elements` components of `u32`.
    fn render_pad_const(
        &self,
        elements: usize,
        data: &Vec<LoweredASTOrConst>,
        curr_scope: &Scope,
        indent: usize,
    ) -> (t: Option<String>)
        ensures
            rendered(t) == pad_const_text(
                self.shader(),
                self.ft(),
                *curr_scope,
                elements,
                data@,
                indent as nat,
            ),
        decreases curr_scope, 0nat, data, 7nat, 0nat,
    {
        let u = BasicTy::Integer(IntegerTy::U32);
        if elements == 1 {
            self.render_basic_ty_const(&u, data, 0, curr_scope, indent)
        } else if elements == 2 {
            self.render_vec_const(&VecTy::Vec2(u), data, 0, curr_scope, indent)
        } else if elements == 3 {
            self.render_vec_const(&VecTy::Vec3(u), data, 0, curr_scope, indent)
        } else if elements == 4 {
            self.render_vec_const(&VecTy::Vec4(u), data, 0, curr_scope, indent)
        } else {
            None
        }
    }

    /// Declarations of the scope's own locals, then its statement; `None`
    /// for a scope without a statement.
    pub fn render_scope(&self, scope: &Scope, indent: usize) -> (r: Option<String>)
        requires
            scope.ast is Some,
        ensures
            rendered(r) == scope_text(self.shader(), self.ft(), *scope, indent as nat),
        decreases scope, 2nat, scope, 0nat, 0nat,
    {
        let a = match &scope.ast {
            Some(a) => a,
            None => {
                proof {
                    assert(false);
                }
                return None;
            },
        };
        let mut decls = String::new();
        let n = scope.local_vars.len();
        let mut k: usize = if scope.num_inherited_locals < n {
            scope.num_inherited_locals
        } else {
            n
        };
        while k < n
            invariant
                n == scope.local_vars@.len(),
                k <= n,
                decls_text(self.shader(), self.ft(), *scope, k as nat, indent as nat) == Some(decls@),
                k >= scope.num_inherited_locals || k >= n,
            decreases n - k,
        {
            proof {
                vstd::std_specs::vec::axiom_vec_index_decreases(scope.local_vars, k as int);
            }
            let v = &scope.local_vars[k];
            let dt = v.ast.try_dt(self.ir, scope);
            let dtt = match dt {
                Some(d) => self.dtype_or_none(&d),
                None => None,
            };
            let t = self.render_ast(scope, &v.ast, 0);
            let (dtt, t) = match (dtt, t) {
                (Some(x), Some(y)) => (x, y),
                _ => {
                    proof {
                        if decls_text(self.shader(), self.ft(), *scope, n as nat, indent as nat) is Some {
                            lemma_decls_prefix(self.shader(), self.ft(), *scope, (k + 1) as nat, n as nat, indent as nat);
                        }
                    }
                    return None;
                },
            };
            push_tabs(&mut decls, indent);
            if v.mut_ {
                decls.append("var");
            } else {
                decls.append("let");
            }
            decls.append(" ");
            decls.append(v.name.as_str());
            decls.append(": ");
            decls.append(dtt.as_str());
            decls.append(" = ");
            decls.append(t.as_str());
            decls.append(";\n");
            k = k + 1;
        }
        let body = self.render_ast(scope, a, indent)?;
        decls.append(body.as_str());
        Some(decls)
    }
}

proof fn lemma_nested_offset(
    ir: ShaderIR,
    ft: spec_fn(u32) -> Seq<char>,
    s: Scope,
    fields: Seq<(String, DType)>,
    k: nat,
    data: Seq<LoweredASTOrConst>,
    off: nat,
    indent: nat,
)
    requires
        nested_fields_text(ir, ft, s, fields, k, data, off, indent) is Some,
    ensures
        nested_fields_text(ir, ft, s, fields, k, data, off, indent).unwrap().1 >= off,
    decreases k,
{
    if k > 0 {
        lemma_nested_offset(ir, ft, s, fields, (k - 1) as nat, data, off, indent);
    }
}

proof fn lemma_params_prefix(args: Seq<(String, DType)>, k: nat, n: nat)
    requires
        k <= n,
        params_texts(args, n) is Some,
    ensures
        params_texts(args, k) is Some,
    decreases n - k,
{
    if k < n {
        lemma_params_prefix(args, k + 1, n);
    }
}

proof fn lemma_funcs_prefix(ir: ShaderIR, ft: spec_fn(u32) -> Seq<char>, k: nat, n: nat)
    requires
        k <= n,
        funcs_texts(ir, ft, n) is Some,
    ensures
        funcs_texts(ir, ft, k) is Some,
    decreases n - k,
{
    if k < n {
        lemma_funcs_prefix(ir, ft, k + 1, n);
    }
}

impl<'a, F: Fn(u32) -> String> LoweredRenderer<'a, F> {
    /// `name:type` for each parameter, comma separated.
    fn render_params(&self, args: &Vec<(String, DType)>) -> (r: Option<String>)
        ensures
            rendered(r) == match params_texts(args@, args@.len()) {
                Some(p) => Some(join(p, ", "@)),
                None => None,
            },
    {
        let mut parts: Vec<String> = Vec::new();
        let n = args.len();
        let mut i: usize = 0;
        proof {
            assert(strings_view(parts@) =~= Seq::<Seq<char>>::empty());
        }
        while i < n
            invariant
                n == args@.len(),
                i <= n,
                params_texts(args@, i as nat) == Some(strings_view(parts@)),
            decreases n - i,
        {
            let t = match self.dtype_or_none(&args[i].1) {
                Some(t) => t,
                None => {
                    proof {
                        if params_texts(args@, n as nat) is Some {
                            lemma_params_prefix(args@, (i + 1) as nat, n as nat);
                        }
                    }
                    return None;
                },
            };
            let mut p = args[i].0.clone();
            p.append(":");
            p.append(t.as_str());
            parts.push(p);
            proof {
                assert(strings_view(parts@) =~= params_texts(args@, (i + 1) as nat).unwrap());
            }
            i = i + 1;
        }
        Some(join_strings(&parts, ", "))
    }

    /// One function: entry point attribute line, header and body.
    fn render_func(&self, f: &Functions) -> (r: Option<String>)
        ensures
            rendered(r) == func_text(self.shader(), self.ft(), *f),
    {
        let mut out = String::new();
        match &f.entrypoint_ty {
            Some(EntrypointData::Compute { workgroup_sz }) => {
                out.append("@compute @workgroup_size(");
                push_decimal(&mut out, *workgroup_sz);
                out.append(")\n");
            },
            Some(EntrypointData::Shader) => {
                return None;
            },
            None => {},
        }
        let ghost h = out@;
        let a = if f.entrypoint_ty.is_none() {
            self.render_params(&f.args)
        } else {
            Some(String::new())
        };
        let b = if f.body.ast.is_some() {
            self.render_scope(&f.body, 1)
        } else {
            None
        };
        let (a, b) = match (a, b) {
            (Some(a), Some(b)) => (a, b),
            _ => {
                return None;
            },
        };
        out.append("fn ");
        out.append(f.ident.as_str());
        out.append("(");
        out.append(a.as_str());
        out.append(")");
        let ret = match &f.ret {
            Some(r) => {
                let mut t = String::from_str("->");
                t.append(self.render_basic_ty_or_struct_ref(r).as_str());
                t
            },
            None => String::new(),
        };
        out.append(ret.as_str());
        out.append("{\n");
        out.append(b.as_str());
        out.append("\n}");
        proof {
            assert(out@ =~= h + "fn "@ + f.ident@ + "("@ + a@ + ")"@ + ret@ + "{\n"@ + b@ + "\n}"@);
        }
        Some(out)
    }

    /// All functions, separated by a blank line.
    pub fn render_funcs(&self) -> (r: Option<String>)
        ensures
            rendered(r) == match funcs_texts(self.shader(), self.ft(), self.shader().functions@.len()) {
                Some(t) => Some(join(t, "\n\n"@)),
                None => None,
            },
    {
        let mut parts: Vec<String> = Vec::new();
        let n = self.ir.functions.len();
        let mut i: usize = 0;
        proof {
            assert(strings_view(parts@) =~= Seq::<Seq<char>>::empty());
        }
        while i < n
            invariant
                n == self.shader().functions@.len(),
                i <= n,
                funcs_texts(self.shader(), self.ft(), i as nat) == Some(strings_view(parts@)),
            decreases n - i,
        {
            let t = match self.render_func(&self.ir.functions[i]) {
                Some(t) => t,
                None => {
                    proof {
                        if funcs_texts(self.shader(), self.ft(), n as nat) is Some {
                            lemma_funcs_prefix(self.shader(), self.ft(), (i + 1) as nat, n as nat);
                        }
                    }
                    return None;
                },
            };
            parts.push(t);
            proof {
                assert(strings_view(parts@) =~= funcs_texts(self.shader(), self.ft(), (i + 1) as nat).unwrap());
            }
            i = i + 1;
        }
        Some(join_strings(&parts, "\n\n"))
    }

    /// The whole shader: structs, bindings, workgroup variables and
    /// functions, separated by three blank lines; `None` where a part has no
    /// text.
    pub fn translate(&self) -> (r: Option<String>)
        ensures
            rendered(r) == shader_text(self.shader(), self.ft()),
    {
        let structs_str = self.render_structs()?;
        let bindings_str = self.render_binded_buffers()?;
        let workgroup_str = self.render_workgroup_vars()?;
        let funcs_str = self.render_funcs()?;
        let mut parts: Vec<String> = Vec::new();
        parts.push(structs_str);
        parts.push(bindings_str);
        parts.push(workgroup_str);
        parts.push(funcs_str);
        proof {
            let st = structs_texts(self.shader().structs@, self.shader().structs@.len()).unwrap();
            let f = funcs_texts(self.shader(), self.ft(), self.shader().functions@.len()).unwrap();
            assert(strings_view(parts@) =~= seq![
                join(st, "\n\n"@),
                bindings_text(self.shader().binded@, self.shader().binded@.len()).unwrap(),
                workgroup_text(self.shader().shared_vars@, self.shader().shared_vars@.len()).unwrap(),
                join(f, "\n\n"@),
            ]);
        }
        Some(join_strings(&parts, "\n\n\n\n"))
    }
}

} // verus!
