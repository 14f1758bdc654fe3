//! The WGSL text that the renderer produces, as mathematical functions.
//! `None` marks inputs that have no rendering.
use vstd::prelude::*;

use super::layout::find_struct;
use super::typing::spec_ast_dt;
use super::{
    Accessor, BinOp, BindingMeta, CustomBufferBindingType, EntrypointData, EntrypointGlobals,
    Functions, LoweredAST, LoweredASTOrConst, Scope, ShaderIR, Struct, UnaryOp, VarRef, VarRefType,
};
use crate::dt::{BasicTy, BasicTyOrStructRef, DType, IntegerTy, MaybeAtomic, VecTy};
use crate::text::{concat, decimal, int_text, join, tabs};

verus! {

pub open spec fn integer_text(i: IntegerTy) -> Seq<char> {
    match i {
        IntegerTy::U32 => "u32"@,
        IntegerTy::I32 => "i32"@,
    }
}

pub open spec fn basic_text(b: BasicTy) -> Seq<char> {
    match b {
        BasicTy::F32 => "f32"@,
        BasicTy::Bool => "bool"@,
        BasicTy::Integer(i) => integer_text(i),
    }
}

pub open spec fn basic_or_ref_text(g: BasicTyOrStructRef) -> Seq<char> {
    match g {
        BasicTyOrStructRef::BasicTy(b) => basic_text(b),
        BasicTyOrStructRef::StructRef { ident } => ident@,
    }
}

pub open spec fn array_inner_text(m: MaybeAtomic<IntegerTy, BasicTyOrStructRef>) -> Seq<char> {
    match m {
        MaybeAtomic::Naked(b) => basic_or_ref_text(b),
        MaybeAtomic::Atomic(a) => integer_text(a),
    }
}

/// The type used to fill `bytes` bytes of padding: 4, 8, 12 or 16 bytes.
pub open spec fn pad_type_text(bytes: usize) -> Option<Seq<char>> {
    if bytes == 4 {
        Some("u32"@)
    } else if bytes == 8 {
        Some("vec2<u32>"@)
    } else if bytes == 12 {
        Some("vec3<u32>"@)
    } else if bytes == 16 {
        Some("vec4<u32>"@)
    } else {
        None
    }
}

/// WGSL spelling of a type.
pub open spec fn dtype_text(dt: DType) -> Option<Seq<char>> {
    match dt {
        DType::Atomic(i) => Some("atomic<"@ + integer_text(i) + ">"@),
        DType::Basic(b) => Some(basic_text(b)),
        DType::Vector(VecTy::Array(inner, None)) => Some("array<"@ + array_inner_text(inner) + ">"@),
        DType::Vector(VecTy::Array(inner, Some(n))) => Some(
            "array<"@ + array_inner_text(inner) + ", "@ + decimal(n as nat) + ">"@,
        ),
        DType::Vector(VecTy::Vec2(b)) => Some("vec2<"@ + basic_text(b) + ">"@),
        DType::Vector(VecTy::Vec3(b)) => Some("vec3<"@ + basic_text(b) + ">"@),
        DType::Vector(VecTy::Vec4(b)) => Some("vec4<"@ + basic_text(b) + ">"@),
        DType::StructRef { ident } => Some(ident@),
        DType::Pad(bytes) => pad_type_text(bytes),
    }
}

pub open spec fn binop_text(op: BinOp) -> Seq<char> {
    match op {
        BinOp::Add => "+"@,
        BinOp::BitwiseAnd => "&"@,
        BinOp::BitwiseOr => "|"@,
        BinOp::BitwiseXor => "^"@,
        BinOp::Div => "/"@,
        BinOp::Eq => "=="@,
        BinOp::Ge => ">="@,
        BinOp::Gt => ">"@,
        BinOp::Le => "<="@,
        BinOp::LogicalAnd => "&&"@,
        BinOp::Lt => "<"@,
        BinOp::Mul => "*"@,
        BinOp::Ne => "!="@,
        BinOp::Rem => "%"@,
        BinOp::Shl => "<<"@,
        BinOp::Shr => ">>"@,
        BinOp::Sub => "-"@,
    }
}

pub open spec fn unop_text(op: UnaryOp) -> Seq<char> {
    match op {
        UnaryOp::BitwiseNot => "!"@,
        UnaryOp::LogicalNot => "!"@,
        UnaryOp::Neg => "-"@,
    }
}

pub open spec fn entry_global_text(g: EntrypointGlobals) -> Seq<char> {
    match g {
        EntrypointGlobals::GlobalInvocationId => "g_id"@,
        EntrypointGlobals::LocalInvocationId => "l_id"@,
    }
}

/// The variable behind a reference of any kind.
pub open spec fn var_ref_of(v: VarRefType) -> VarRef {
    match v {
        VarRefType::Local(r) => r,
        VarRefType::Global(r) => r,
        VarRefType::EntryPointGlobal(r) => r,
        VarRefType::Shared(r) => r,
    }
}

/// The name a reference renders with.
pub open spec fn var_ident(ir: ShaderIR, s: Scope, v: VarRefType) -> Option<Seq<char>> {
    match v {
        VarRefType::EntryPointGlobal(b) => if b.id < ir.entrypoint_globals@.len() {
            Some(entry_global_text(ir.entrypoint_globals@[b.id as int]))
        } else {
            None
        },
        VarRefType::Local(b) => if b.id < s.local_vars@.len() {
            Some(s.local_vars@[b.id as int].name@)
        } else {
            None
        },
        VarRefType::Global(b) => if b.id < ir.binded@.len() {
            Some(ir.binded@[b.id as int].ident@)
        } else {
            None
        },
        VarRefType::Shared(b) => if b.id < ir.shared_vars@.len() {
            Some(ir.shared_vars@[b.id as int].0@)
        } else {
            None
        },
    }
}

/// Little-endian `u32` from four bytes.
pub open spec fn u32_le(b0: u8, b1: u8, b2: u8, b3: u8) -> nat {
    (b0 as nat) + 256 * (b1 as nat) + 65536 * (b2 as nat) + 16777216 * (b3 as nat)
}

/// The same 32 bits read as a two's-complement integer.
pub open spec fn i32_of_bits(u: nat) -> int {
    if u >= 0x8000_0000 {
        u - 0x1_0000_0000
    } else {
        u as int
    }
}

/// Text of an `f32` given by its bits: the two infinities have fixed
/// spellings; another value is spelled by `ft` and suffixed with `f`.
pub open spec fn f32_text(ft: spec_fn(u32) -> Seq<char>, bits: nat) -> Seq<char> {
    if bits == 0x7f80_0000 {
        "0x1p+127f"@
    } else if bits == 0xff80_0000 {
        "-0x1p+127f"@
    } else {
        ft(bits as u32) + "f"@
    }
}

/// Text of a scalar constant held in raw bytes.
pub open spec fn scalar_bytes_text(ft: spec_fn(u32) -> Seq<char>, b: BasicTy, c: Seq<u8>) -> Option<
    Seq<char>,
> {
    if c.len() < 4 {
        None
    } else {
        let u = u32_le(c[0], c[1], c[2], c[3]);
        Some(
            match b {
                BasicTy::F32 => f32_text(ft, u),
                BasicTy::Bool => if u != 0 {
                    "true"@
                } else {
                    "false"@
                },
                BasicTy::Integer(IntegerTy::I32) => int_text(i32_of_bits(u)) + "i"@,
                BasicTy::Integer(IntegerTy::U32) => decimal(u) + "u"@,
            },
        )
    }
}

/// A statement of a group, indented and terminated.
pub open spec fn group_stmt_text(r: Seq<char>, indent: nat) -> Seq<char> {
    let r1 = if r.len() > 0 && r[0] == '\t' {
        r
    } else {
        tabs(indent) + r
    };
    if r1.len() > 0 && (r1.last() == '}' || r1.last() == ';') {
        r1
    } else {
        r1 + ";"@
    }
}

/// The optional parts of a `for` header that are present.
pub open spec fn present(parts: Seq<Option<Seq<char>>>) -> Seq<Seq<char>>
    decreases parts.len(),
{
    if parts.len() == 0 {
        Seq::empty()
    } else {
        match parts.last() {
            Some(p) => present(parts.drop_last()).push(p),
            None => present(parts.drop_last()),
        }
    }
}

/// Text of an expression or statement, in scope `s`, indented by `indent`
/// tabs where it is a statement.
pub open spec fn ast_text(
    ir: ShaderIR,
    ft: spec_fn(u32) -> Seq<char>,
    s: Scope,
    a: LoweredAST,
    indent: nat,
) -> Option<Seq<char>>
    decreases s, 0nat, a, 0nat, 0nat,
{
    let tab = tabs(indent);
    match a {
        LoweredAST::BinaryOp { lhs, rhs, op } => match (
            ast_text(ir, ft, s, *lhs, 0),
            ast_text(ir, ft, s, *rhs, 0),
        ) {
            (Some(l), Some(r)) => Some(l + " "@ + binop_text(op) + " "@ + r),
            _ => None,
        },
        LoweredAST::Break => Some(tab + "break;"@),
        LoweredAST::Continue => Some(tab + "continue;"@),
        LoweredAST::Return => Some(tab + "return;"@),
        LoweredAST::Conditional { cond, true_block, else_block } => {
            if true_block.0 >= s.child_scopes@.len() || indent >= usize::MAX {
                None
            } else {
                let c = ast_text(ir, ft, s, *cond, 0);
                let t = scope_text(ir, ft, s.child_scopes@[true_block.0 as int], indent + 1);
                let e = match else_block {
                    Some(p) => if p.0 < s.child_scopes@.len() {
                        match scope_text(ir, ft, s.child_scopes@[p.0 as int], indent + 1) {
                            Some(b) => Some(" else {\n"@ + b + "\n"@ + tab + "}"@),
                            None => None,
                        }
                    } else {
                        None
                    },
                    None => Some(Seq::empty()),
                };
                match (c, t, e) {
                    (Some(c), Some(t), Some(e)) => Some(
                        tab + "if ("@ + c + ") {\n"@ + t + "\n"@ + tab + "}"@ + e,
                    ),
                    _ => None,
                }
            }
        },
        LoweredAST::Load(r) => match (var_ident(ir, s, r), accessors_text(ir, ft, s, var_ref_of(r).by@)) {
            (Some(i), Some(x)) => Some(i + x),
            _ => None,
        },
        LoweredAST::Store { var, val } => match (
            var_ident(ir, s, var),
            accessors_text(ir, ft, s, var_ref_of(var).by@),
            ast_text(ir, ft, s, *val, 0),
        ) {
            (Some(i), Some(x), Some(v)) => Some(tab + i + x + " = "@ + v + ";"@),
            _ => None,
        },
        LoweredAST::ForLoop { init, halt_cond, increment, body } => {
            let i = opt_text(ir, ft, s, init);
            let h = opt_text(ir, ft, s, halt_cond);
            let n = opt_text(ir, ft, s, increment);
            if body.0 >= s.child_scopes@.len() || indent >= usize::MAX {
                None
            } else {
                match (i, h, n, scope_text(ir, ft, s.child_scopes@[body.0 as int], indent + 1)) {
                    (Some(i), Some(h), Some(n), Some(b)) => Some(
                        tab + "for ("@ + join(present(seq![i, h, n]), "; "@) + ") {\n"@ + b + "\n"@
                            + tab + "}"@,
                    ),
                    _ => None,
                }
            }
        },
        LoweredAST::WhileLoop { cond, body } => if body.0 >= s.child_scopes@.len() || indent
            >= usize::MAX {
            None
        } else {
            match (
                ast_text(ir, ft, s, *cond, 0),
                scope_text(ir, ft, s.child_scopes@[body.0 as int], indent + 1),
            ) {
                (Some(c), Some(b)) => Some(
                    tab + "while ("@ + c + ") {\n"@ + b + "\n"@ + tab + "}"@,
                ),
                _ => None,
            }
        },
        LoweredAST::UnaryOp { operand, op } => match ast_text(ir, ft, s, *operand, 0) {
            Some(o) => Some(unop_text(op) + o),
            None => None,
        },
        LoweredAST::Const { dt, data } => match dt {
            DType::Atomic(_) => None,
            DType::Basic(b) => basic_const_text(ir, ft, s, b, data@, 0, indent),
            DType::Vector(v) => vec_const_text(ir, ft, s, v, data@, 0, indent),
            DType::StructRef { ident } => match find_struct(ir.structs@, ident@) {
                Some(j) => if j < ir.structs@.len() {
                    struct_const_text(ir, ft, s, ident@, ir.structs@[j as int], data@, indent)
                } else {
                    None
                },
                None => None,
            },
            DType::Pad(bytes) => pad_const_text(ir, ft, s, bytes, data@, indent),
        },
        LoweredAST::FunctionCall { ident, args } => match args_texts(ir, ft, s, args@) {
            Some(t) => Some(ident@ + "("@ + join(t, ", "@) + ")"@),
            None => None,
        },
        LoweredAST::Group(stmts) => match group_texts(ir, ft, s, stmts@, indent) {
            Some(t) => Some(join(t, "\n"@)),
            None => None,
        },
    }
}

/// Text of an optional part of a `for` header; `Some(None)` when absent.
pub open spec fn opt_text(
    ir: ShaderIR,
    ft: spec_fn(u32) -> Seq<char>,
    s: Scope,
    o: Option<Box<LoweredAST>>,
) -> Option<Option<Seq<char>>>
    decreases s, 0nat, o, 0nat, 0nat,
{
    match o {
        Some(b) => match ast_text(ir, ft, s, *b, 0) {
            Some(t) => Some(Some(t)),
            None => None,
        },
        None => Some(None),
    }
}

/// Text of an accessor chain: `[e]` for an index, `.name` for a field.
pub open spec fn accessors_text(ir: ShaderIR, ft: spec_fn(u32) -> Seq<char>, s: Scope, accs: Seq<Accessor>) -> Option<
    Seq<char>,
>
    decreases s, 0nat, accs, 0nat, 0nat,
{
    if accs.len() == 0 {
        Some(Seq::empty())
    } else {
        let last = match accs.last() {
            Accessor::Index(e) => match ast_text(ir, ft, s, *e, 0) {
                Some(t) => Some("["@ + t + "]"@),
                None => None,
            },
            Accessor::Field(name) => Some("."@ + name@),
        };
        match (accessors_text(ir, ft, s, accs.drop_last()), last) {
            (Some(a), Some(l)) => Some(a + l),
            _ => None,
        }
    }
}

/// Texts of the arguments of a call.
pub open spec fn args_texts(ir: ShaderIR, ft: spec_fn(u32) -> Seq<char>, s: Scope, args: Seq<Box<LoweredAST>>) -> Option<
    Seq<Seq<char>>,
>
    decreases s, 0nat, args, 0nat, 0nat,
{
    if args.len() == 0 {
        Some(Seq::empty())
    } else {
        match (args_texts(ir, ft, s, args.drop_last()), ast_text(ir, ft, s, *args.last(), 0)) {
            (Some(a), Some(l)) => Some(a.push(l)),
            _ => None,
        }
    }
}

/// Texts of the statements of a group.
pub open spec fn group_texts(
    ir: ShaderIR,
    ft: spec_fn(u32) -> Seq<char>,
    s: Scope,
    stmts: Seq<LoweredAST>,
    indent: nat,
) -> Option<Seq<Seq<char>>>
    decreases s, 0nat, stmts, 0nat, 0nat,
{
    if stmts.len() == 0 {
        Some(Seq::empty())
    } else {
        match (group_texts(ir, ft, s, stmts.drop_last(), indent), ast_text(ir, ft, s, stmts.last(), indent)) {
            (Some(a), Some(l)) => Some(a.push(group_stmt_text(l, indent))),
            _ => None,
        }
    }
}

/// Text of a scalar constant from `data[off]`.
pub open spec fn basic_const_text(
    ir: ShaderIR,
    ft: spec_fn(u32) -> Seq<char>,
    s: Scope,
    b: BasicTy,
    data: Seq<LoweredASTOrConst>,
    off: nat,
    indent: nat,
) -> Option<Seq<char>>
    decreases s, 0nat, data, 0nat, 0nat,
{
    if off >= data.len() {
        None
    } else {
        match data[off as int] {
            LoweredASTOrConst::Const(c) => scalar_bytes_text(ft, b, c@),
            LoweredASTOrConst::LoweredAST(l) => ast_text(ir, ft, s, l, indent),
        }
    }
}

/// Text of a vector constant from `data[off..]`.
pub open spec fn vec_const_text(
    ir: ShaderIR,
    ft: spec_fn(u32) -> Seq<char>,
    s: Scope,
    v: VecTy,
    data: Seq<LoweredASTOrConst>,
    off: nat,
    indent: nat,
) -> Option<Seq<char>>
    decreases s, 0nat, data, 2nat, 0nat,
{
    let (n, inner, head) = match v {
        VecTy::Vec2(b) => (2nat, b, "vec2<"@),
        VecTy::Vec3(b) => (3nat, b, "vec3<"@),
        VecTy::Vec4(b) => (4nat, b, "vec4<"@),
        VecTy::Array(_, _) => (0nat, BasicTy::F32, Seq::empty()),
    };
    if n == 0 {
        None
    } else {
        match components_text(ir, ft, s, inner, data, off, n, indent) {
            Some(cs) => Some(head + basic_text(inner) + ">("@ + join(cs, ", "@) + ")"@),
            None => None,
        }
    }
}

/// Texts of `n` scalar constants from `data[off..]`.
pub open spec fn components_text(
    ir: ShaderIR,
    ft: spec_fn(u32) -> Seq<char>,
    s: Scope,
    b: BasicTy,
    data: Seq<LoweredASTOrConst>,
    off: nat,
    n: nat,
    indent: nat,
) -> Option<Seq<Seq<char>>>
    decreases s, 0nat, data, 1nat, n,
{
    if n == 0 {
        Some(Seq::empty())
    } else {
        match (
            components_text(ir, ft, s, b, data, off, (n - 1) as nat, indent),
            basic_const_text(ir, ft, s, b, data, (off + n - 1) as nat, indent),
        ) {
            (Some(a), Some(l)) => Some(a.push(l)),
            _ => None,
        }
    }
}

/// Text of a field value inside a nested struct constant and the number of
/// data components it takes: scalars take one, vectors their width, padding
/// its byte count (and renders nothing).
pub open spec fn nested_field_text(
    ir: ShaderIR,
    ft: spec_fn(u32) -> Seq<char>,
    s: Scope,
    ty: DType,
    data: Seq<LoweredASTOrConst>,
    off: nat,
    indent: nat,
) -> Option<(Seq<char>, nat)>
    decreases s, 0nat, data, 3nat, 0nat,
{
    match ty {
        DType::Basic(b) => match basic_const_text(ir, ft, s, b, data, off, indent) {
            Some(t) => Some((t, 1)),
            None => None,
        },
        DType::Vector(v) => match v {
            VecTy::Array(_, _) => None,
            _ => match vec_const_text(ir, ft, s, v, data, off, indent) {
                Some(t) => Some((t, DType::Vector(v).spec_element_count())),
                None => None,
            },
        },
        DType::Pad(e) => Some((Seq::empty(), e as nat)),
        _ => None,
    }
}

/// Field initializers of the first `k` fields of a nested struct constant,
/// starting at `data[off]`, and the offset past them; `None` where that
/// offset does not fit in a `usize`.
pub open spec fn nested_fields_text(
    ir: ShaderIR,
    ft: spec_fn(u32) -> Seq<char>,
    s: Scope,
    fields: Seq<(String, DType)>,
    k: nat,
    data: Seq<LoweredASTOrConst>,
    off: nat,
    indent: nat,
) -> Option<(Seq<Seq<char>>, nat)>
    decreases s, 0nat, data, 4nat, k,
{
    if k == 0 || k > fields.len() {
        if k == 0 {
            Some((Seq::empty(), off))
        } else {
            None
        }
    } else {
        match nested_fields_text(ir, ft, s, fields, (k - 1) as nat, data, off, indent) {
            None => None,
            Some((inits, o)) => {
                let (name, ty) = fields[k - 1];
                match nested_field_text(ir, ft, s, ty, data, o, indent) {
                    None => None,
                    Some((t, used)) => if o + used > usize::MAX {
                        None
                    } else {
                        Some(
                            (
                                if ty is Pad {
                                    inits
                                } else {
                                    inits.push(name@ + ": "@ + t)
                                },
                                o + used,
                            ),
                        )
                    },
                }
            },
        }
    }
}

/// Text of a field value of a struct constant and the number of data
/// components it takes; a field of struct type is rendered as a nested
/// constructor, one level deep.
pub open spec fn struct_field_text(
    ir: ShaderIR,
    ft: spec_fn(u32) -> Seq<char>,
    s: Scope,
    ty: DType,
    data: Seq<LoweredASTOrConst>,
    off: nat,
    indent: nat,
) -> Option<(Seq<char>, nat)>
    decreases s, 0nat, data, 5nat, 0nat,
{
    match ty {
        DType::StructRef { ident } => match find_struct(ir.structs@, ident@) {
            Some(j) => if j < ir.structs@.len() {
                let fields = ir.structs@[j as int].inner@;
                match nested_fields_text(ir, ft, s, fields, fields.len(), data, off, indent) {
                    Some((inits, o)) => Some(
                        (ident@ + "("@ + join(inits, ", "@) + ")"@, (o - off) as nat),
                    ),
                    None => None,
                }
            } else {
                None
            },
            None => None,
        },
        _ => nested_field_text(ir, ft, s, ty, data, off, indent),
    }
}

/// Field initializers of the first `k` fields of a struct constant.
pub open spec fn struct_fields_text(
    ir: ShaderIR,
    ft: spec_fn(u32) -> Seq<char>,
    s: Scope,
    fields: Seq<(String, DType)>,
    k: nat,
    data: Seq<LoweredASTOrConst>,
    indent: nat,
) -> Option<(Seq<Seq<char>>, nat)>
    decreases s, 0nat, data, 6nat, k,
{
    if k == 0 || k > fields.len() {
        if k == 0 {
            Some((Seq::empty(), 0))
        } else {
            None
        }
    } else {
        match struct_fields_text(ir, ft, s, fields, (k - 1) as nat, data, indent) {
            None => None,
            Some((inits, o)) => {
                let (name, ty) = fields[k - 1];
                match struct_field_text(ir, ft, s, ty, data, o, indent) {
                    None => None,
                    Some((t, used)) => if o + used > usize::MAX {
                        None
                    } else {
                        Some(
                            (
                                if ty is Pad {
                                    inits
                                } else {
                                    inits.push(name@ + ": "@ + t)
                                },
                                o + used,
                            ),
                        )
                    },
                }
            },
        }
    }
}

/// Text of a constant of struct type `st` named `ident`:
/// `ident(field: value, ...)`, padding fields left out.
pub open spec fn struct_const_text(
    ir: ShaderIR,
    ft: spec_fn(u32) -> Seq<char>,
    s: Scope,
    ident: Seq<char>,
    st: Struct,
    data: Seq<LoweredASTOrConst>,
    indent: nat,
) -> Option<Seq<char>>
    decreases s, 0nat, data, 7nat, 0nat,
{
    match struct_fields_text(ir, ft, s, st.inner@, st.inner@.len(), data, indent) {
        Some((inits, _)) => Some(ident + "("@ + join(inits, ", "@) + ")"@),
        None => None,
    }
}

/// Text of a padding constant of `elements` components of `u32`.
pub open spec fn pad_const_text(
    ir: ShaderIR,
    ft: spec_fn(u32) -> Seq<char>,
    s: Scope,
    elements: usize,
    data: Seq<LoweredASTOrConst>,
    indent: nat,
) -> Option<Seq<char>>
    decreases s, 0nat, data, 7nat, 0nat,
{
    let u = BasicTy::Integer(IntegerTy::U32);
    if elements == 1 {
        basic_const_text(ir, ft, s, u, data, 0, indent)
    } else if elements == 2 {
        vec_const_text(ir, ft, s, VecTy::Vec2(u), data, 0, indent)
    } else if elements == 3 {
        vec_const_text(ir, ft, s, VecTy::Vec3(u), data, 0, indent)
    } else if elements == 4 {
        vec_const_text(ir, ft, s, VecTy::Vec4(u), data, 0, indent)
    } else {
        None
    }
}

/// Declarations of the locals `num_inherited_locals..k` of `s`.
pub open spec fn decls_text(ir: ShaderIR, ft: spec_fn(u32) -> Seq<char>, s: Scope, k: nat, indent: nat) -> Option<
    Seq<char>,
>
    decreases s, 1nat, s.local_vars@, 0nat, k,
{
    if k <= s.num_inherited_locals || k > s.local_vars@.len() {
        if k <= s.num_inherited_locals {
            Some(Seq::empty())
        } else {
            None
        }
    } else {
        let v = s.local_vars@[k - 1];
        let kw = if v.mut_ {
            "var"@
        } else {
            "let"@
        };
        match (
            decls_text(ir, ft, s, (k - 1) as nat, indent),
            spec_ast_dt(v.ast, ir, s, s.local_vars@.len()),
            ast_text(ir, ft, s, v.ast, 0),
        ) {
            (Some(d), Some(dt), Some(t)) => match dtype_text(dt) {
                Some(dtt) => Some(d + tabs(indent) + kw + " "@ + v.name@ + ": "@ + dtt + " = "@ + t + ";\n"@),
                None => None,
            },
            _ => None,
        }
    }
}

/// Text of a scope: declarations of its own locals, then its statement.
pub open spec fn scope_text(ir: ShaderIR, ft: spec_fn(u32) -> Seq<char>, s: Scope, indent: nat) -> Option<
    Seq<char>,
>
    decreases s, 2nat, s, 0nat, 0nat,
{
    match s.ast {
        None => None,
        Some(a) => match (decls_text(ir, ft, s, s.local_vars@.len(), indent), ast_text(ir, ft, s, a, indent)) {
            (Some(d), Some(b)) => Some(d + b),
            _ => None,
        },
    }
}

/// `@group(0) @binding(i) var<...> ident: type;` followed by a newline.
pub open spec fn binding_text(i: nat, b: BindingMeta) -> Option<Seq<char>> {
    let var_str = match b.ty {
        CustomBufferBindingType::Storage { read_only } => if read_only {
            "var<read>"@
        } else {
            "var<read_write>"@
        },
        CustomBufferBindingType::Uniform => "var<uniform>"@,
    };
    match dtype_text(b.dtype) {
        Some(t) => Some(
            "@group(0) @binding("@ + decimal(i) + ") "@ + var_str + " "@ + b.ident@ + ": "@ + t + ";\n"@,
        ),
        None => None,
    }
}

/// Declarations of the first `k` bound buffers.
pub open spec fn bindings_text(binded: Seq<BindingMeta>, k: nat) -> Option<Seq<char>>
    decreases k,
{
    if k == 0 || k > binded.len() {
        if k == 0 {
            Some(Seq::empty())
        } else {
            None
        }
    } else {
        match (bindings_text(binded, (k - 1) as nat), binding_text((k - 1) as nat, binded[k - 1])) {
            (Some(a), Some(b)) => Some(a + b),
            _ => None,
        }
    }
}

/// Member lines `\tname: type,` of the first `k` fields.
pub open spec fn members_text(fields: Seq<(String, DType)>, k: nat) -> Option<Seq<char>>
    decreases k,
{
    if k == 0 || k > fields.len() {
        if k == 0 {
            Some(Seq::empty())
        } else {
            None
        }
    } else {
        match (members_text(fields, (k - 1) as nat), dtype_text(fields[k - 1].1)) {
            (Some(a), Some(t)) => Some(a + "\t"@ + fields[k - 1].0@ + ": "@ + t + ",\n"@),
            _ => None,
        }
    }
}

/// `struct ident {` followed by one member line per field and `}`.
pub open spec fn struct_text(ident: Seq<char>, st: Struct) -> Option<Seq<char>> {
    match members_text(st.inner@, st.inner@.len()) {
        Some(m) => Some("struct "@ + ident + " {\n"@ + m + "}"@),
        None => None,
    }
}

/// The struct definitions of the first `k` structs, one text per struct.
pub open spec fn structs_texts(structs: Seq<Struct>, k: nat) -> Option<Seq<Seq<char>>>
    decreases k,
{
    if k == 0 || k > structs.len() {
        if k == 0 {
            Some(Seq::empty())
        } else {
            None
        }
    } else {
        match (structs_texts(structs, (k - 1) as nat), struct_text(structs[k - 1].name@, structs[k - 1])) {
            (Some(a), Some(t)) => Some(a.push(t)),
            _ => None,
        }
    }
}

/// `var<workgroup> name: type;` lines for the first `k` shared variables.
pub open spec fn workgroup_text(vars: Seq<(String, DType)>, k: nat) -> Option<Seq<char>>
    decreases k,
{
    if k == 0 || k > vars.len() {
        if k == 0 {
            Some(Seq::empty())
        } else {
            None
        }
    } else {
        match (workgroup_text(vars, (k - 1) as nat), dtype_text(vars[k - 1].1)) {
            (Some(a), Some(t)) => Some(a + "var<workgroup> "@ + vars[k - 1].0@ + ": "@ + t + ";\n"@),
            _ => None,
        }
    }
}

/// `name:type` texts of the first `k` arguments.
pub open spec fn params_texts(args: Seq<(String, DType)>, k: nat) -> Option<Seq<Seq<char>>>
    decreases k,
{
    if k == 0 || k > args.len() {
        if k == 0 {
            Some(Seq::empty())
        } else {
            None
        }
    } else {
        match (params_texts(args, (k - 1) as nat), dtype_text(args[k - 1].1)) {
            (Some(a), Some(t)) => Some(a.push(args[k - 1].0@ + ":"@ + t)),
            _ => None,
        }
    }
}

/// Text of a function: its entry point attribute line, if any, then
/// `fn ident(params)->ret{`, the body indented one tab, and `}`. An entry
/// point lists no parameters.
pub open spec fn func_text(ir: ShaderIR, ft: spec_fn(u32) -> Seq<char>, f: Functions) -> Option<Seq<char>> {
    let args = if f.entrypoint_ty is None {
        match params_texts(f.args@, f.args@.len()) {
            Some(p) => Some(join(p, ", "@)),
            None => None,
        }
    } else {
        Some(Seq::empty())
    };
    let ret = match f.ret {
        Some(r) => "->"@ + basic_or_ref_text(r),
        None => Seq::empty(),
    };
    let header = match f.entrypoint_ty {
        Some(EntrypointData::Compute { workgroup_sz }) => Some(
            "@compute @workgroup_size("@ + decimal(workgroup_sz as nat) + ")\n"@,
        ),
        Some(EntrypointData::Shader) => None,
        None => Some(Seq::empty()),
    };
    match (args, scope_text(ir, ft, f.body, 1), header) {
        (Some(a), Some(b), Some(h)) => Some(
            h + "fn "@ + f.ident@ + "("@ + a + ")"@ + ret + "{\n"@ + b + "\n}"@,
        ),
        _ => None,
    }
}

/// Texts of the first `k` functions.
pub open spec fn funcs_texts(ir: ShaderIR, ft: spec_fn(u32) -> Seq<char>, k: nat) -> Option<Seq<Seq<char>>>
    decreases k,
{
    if k == 0 || k > ir.functions@.len() {
        if k == 0 {
            Some(Seq::empty())
        } else {
            None
        }
    } else {
        match (funcs_texts(ir, ft, (k - 1) as nat), func_text(ir, ft, ir.functions@[k - 1])) {
            (Some(a), Some(t)) => Some(a.push(t)),
            _ => None,
        }
    }
}

/// The whole shader: structs, bindings, workgroup variables and functions,
/// separated by three blank lines.
pub open spec fn shader_text(ir: ShaderIR, ft: spec_fn(u32) -> Seq<char>) -> Option<Seq<char>> {
    match (
        structs_texts(ir.structs@, ir.structs@.len()),
        bindings_text(ir.binded@, ir.binded@.len()),
        workgroup_text(ir.shared_vars@, ir.shared_vars@.len()),
        funcs_texts(ir, ft, ir.functions@.len()),
    ) {
        (Some(st), Some(b), Some(w), Some(f)) => Some(
            join(seq![join(st, "\n\n"@), b, w, join(f, "\n\n"@)], "\n\n\n\n"@),
        ),
        _ => None,
    }
}

} // verus!
