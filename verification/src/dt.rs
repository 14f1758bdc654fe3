use vstd::prelude::*;

use crate::asts::lowered::layout::find_struct;
use crate::asts::lowered::{Accessor, Scope, ShaderIR, Struct};
use crate::asts::lowered::layout::lookup_struct;

verus! {

/// The 32-bit integer types of WGSL.
#[derive(Debug, PartialEq, Eq, Structural)]
pub enum IntegerTy {
    U32,
    I32,
}

/// Scalar WGSL types.
#[derive(Debug, PartialEq, Eq, Structural)]
pub enum BasicTy {
    F32,
    Bool,
    Integer(IntegerTy),
}

/// Either an atomic type `A` or a plain ("naked") type `N`.
#[derive(Debug, PartialEq)]
pub enum MaybeAtomic<A, N> {
    Atomic(A),
    Naked(N),
}

/// An integer type or a reference to a named struct.
#[derive(Debug, PartialEq)]
pub enum IntegerTyOrStructRef {
    Integer(IntegerTy),
    StructRef { ident: String },
}

/// Vector and array types. An array has an element type and, when it is
/// sized, an element count.
#[derive(Debug, PartialEq)]
pub enum VecTy {
    Vec4(BasicTy),
    Vec3(BasicTy),
    Vec2(BasicTy),
    Array(MaybeAtomic<IntegerTy, BasicTyOrStructRef>, Option<u32>),
}

/// A scalar type or a reference to a named struct.
#[derive(Debug, PartialEq)]
pub enum BasicTyOrStructRef {
    StructRef { ident: String },
    BasicTy(BasicTy),
}

/// A scalar type or an inline struct definition.
#[derive(Debug, PartialEq)]
pub enum BasicTyOrStructDef {
    StructDef(Struct),
    BasicTy(BasicTy),
}

/// The type of a WGSL value. `Pad(n)` stands for `n` bytes of padding
/// inserted between struct fields.
#[derive(Debug, PartialEq)]
pub enum DType {
    Vector(VecTy),
    Atomic(IntegerTy),
    Basic(BasicTy),
    StructRef { ident: String },
    Pad(usize),
}

impl Clone for IntegerTy {
    fn clone(&self) -> (r: Self)
        ensures
            r == *self,
    {
        match self {
            IntegerTy::U32 => IntegerTy::U32,
            IntegerTy::I32 => IntegerTy::I32,
        }
    }
}

impl Clone for BasicTy {
    fn clone(&self) -> (r: Self)
        ensures
            r == *self,
    {
        match self {
            BasicTy::F32 => BasicTy::F32,
            BasicTy::Bool => BasicTy::Bool,
            BasicTy::Integer(i) => BasicTy::Integer(i.clone()),
        }
    }
}

impl Clone for BasicTyOrStructRef {
    fn clone(&self) -> (r: Self)
        ensures
            r == *self,
    {
        match self {
            BasicTyOrStructRef::StructRef { ident } => BasicTyOrStructRef::StructRef {
                ident: ident.clone(),
            },
            BasicTyOrStructRef::BasicTy(b) => BasicTyOrStructRef::BasicTy(b.clone()),
        }
    }
}

impl Clone for IntegerTyOrStructRef {
    fn clone(&self) -> (r: Self)
        ensures
            r == *self,
    {
        match self {
            IntegerTyOrStructRef::StructRef { ident } => IntegerTyOrStructRef::StructRef {
                ident: ident.clone(),
            },
            IntegerTyOrStructRef::Integer(i) => IntegerTyOrStructRef::Integer(i.clone()),
        }
    }
}

/// Copies an array element type.
pub fn clone_array_inner(m: &MaybeAtomic<IntegerTy, BasicTyOrStructRef>) -> (r: MaybeAtomic<
    IntegerTy,
    BasicTyOrStructRef,
>)
    ensures
        r == *m,
{
    match m {
        MaybeAtomic::Atomic(a) => MaybeAtomic::Atomic(a.clone()),
        MaybeAtomic::Naked(n) => MaybeAtomic::Naked(n.clone()),
    }
}

impl Clone for VecTy {
    fn clone(&self) -> (r: Self)
        ensures
            r == *self,
    {
        match self {
            VecTy::Vec4(b) => VecTy::Vec4(b.clone()),
            VecTy::Vec3(b) => VecTy::Vec3(b.clone()),
            VecTy::Vec2(b) => VecTy::Vec2(b.clone()),
            VecTy::Array(inner, n) => VecTy::Array(clone_array_inner(inner), *n),
        }
    }
}

impl Clone for DType {
    fn clone(&self) -> (r: Self)
        ensures
            r == *self,
    {
        match self {
            DType::Vector(v) => DType::Vector(v.clone()),
            DType::Atomic(i) => DType::Atomic(i.clone()),
            DType::Basic(b) => DType::Basic(b.clone()),
            DType::StructRef { ident } => DType::StructRef { ident: ident.clone() },
            DType::Pad(n) => DType::Pad(*n),
        }
    }
}

/// The type of one element of an array whose element type is `inner`.
pub open spec fn spec_elem_dtype(inner: MaybeAtomic<IntegerTy, BasicTyOrStructRef>) -> DType {
    match inner {
        MaybeAtomic::Naked(BasicTyOrStructRef::BasicTy(b)) => DType::Basic(b),
        MaybeAtomic::Naked(BasicTyOrStructRef::StructRef { ident }) => DType::StructRef { ident },
        MaybeAtomic::Atomic(i) => DType::Atomic(i),
    }
}

/// Executable counterpart of [`spec_elem_dtype`].
pub fn elem_dtype(inner: &MaybeAtomic<IntegerTy, BasicTyOrStructRef>) -> (r: DType)
    ensures
        r == spec_elem_dtype(*inner),
{
    match inner {
        MaybeAtomic::Naked(BasicTyOrStructRef::BasicTy(b)) => DType::Basic(b.clone()),
        MaybeAtomic::Naked(BasicTyOrStructRef::StructRef { ident }) => DType::StructRef {
            ident: ident.clone(),
        },
        MaybeAtomic::Atomic(i) => DType::Atomic(i.clone()),
    }
}

impl DType {
    /// The element type of an array type; any other type unchanged.
    pub open spec fn spec_peel_array(self) -> DType {
        match self {
            DType::Vector(VecTy::Array(inner, _)) => spec_elem_dtype(inner),
            other => other,
        }
    }

    /// The scalar type under a vector or array type; any other type unchanged.
    pub open spec fn spec_peel_all(self) -> DType {
        match self {
            DType::Vector(VecTy::Vec2(b)) => DType::Basic(b),
            DType::Vector(VecTy::Vec3(b)) => DType::Basic(b),
            DType::Vector(VecTy::Vec4(b)) => DType::Basic(b),
            DType::Vector(VecTy::Array(inner, _)) => spec_elem_dtype(inner),
            other => other,
        }
    }

    /// Number of scalar components: 2, 3 or 4 for vectors, the count of a
    /// sized array, and 1 for anything else.
    pub open spec fn spec_element_count(self) -> nat {
        match self {
            DType::Vector(VecTy::Vec2(_)) => 2,
            DType::Vector(VecTy::Vec3(_)) => 3,
            DType::Vector(VecTy::Vec4(_)) => 4,
            DType::Vector(VecTy::Array(_, Some(n))) => n as nat,
            _ => 1,
        }
    }

    pub fn peel_array(&self) -> (r: DType)
        ensures
            r == self.spec_peel_array(),
    {
        match self {
            DType::Vector(VecTy::Array(inner, _)) => elem_dtype(inner),
            other => other.clone(),
        }
    }

    pub fn peel_all(&self) -> (r: DType)
        ensures
            r == self.spec_peel_all(),
    {
        match self {
            DType::Vector(VecTy::Vec2(b)) => DType::Basic(b.clone()),
            DType::Vector(VecTy::Vec3(b)) => DType::Basic(b.clone()),
            DType::Vector(VecTy::Vec4(b)) => DType::Basic(b.clone()),
            DType::Vector(VecTy::Array(inner, _)) => elem_dtype(inner),
            other => other.clone(),
        }
    }

    pub fn element_count(&self) -> (r: usize)
        ensures
            r == self.spec_element_count(),
    {
        match self {
            DType::Vector(VecTy::Vec2(_)) => 2,
            DType::Vector(VecTy::Vec3(_)) => 3,
            DType::Vector(VecTy::Vec4(_)) => 4,
            DType::Vector(VecTy::Array(_, Some(n))) => *n as usize,
            _ => 1,
        }
    }

    pub fn is_atomic(&self) -> (r: bool)
        ensures
            r == (*self is Atomic),
    {
        match self {
            DType::Atomic(_) => true,
            _ => false,
        }
    }
}

/// Number of UTF-8 bytes of a text, as `str::len` gives it.
pub open spec fn utf8_len(s: Seq<char>) -> usize {
    vstd::utf8::encode_utf8(s).len() as usize
}

/// Index of the first field named `name` in `fields`.
pub open spec fn find_field_from(fields: Seq<(String, DType)>, name: Seq<char>, start: nat) -> Option<
    nat,
>
    decreases fields.len() - start,
{
    if start >= fields.len() {
        None
    } else if fields[start as int].0@ == name {
        Some(start)
    } else {
        find_field_from(fields, name, start + 1)
    }
}

pub open spec fn find_field(fields: Seq<(String, DType)>, name: Seq<char>) -> Option<nat> {
    find_field_from(fields, name, 0)
}

proof fn lemma_find_field_from(fields: Seq<(String, DType)>, name: Seq<char>, start: nat)
    ensures
        find_field_from(fields, name, start) matches Some(k) ==> start <= k < fields.len(),
    decreases fields.len() - start,
{
    if start < fields.len() {
        lemma_find_field_from(fields, name, start + 1);
    }
}

fn lookup_field(fields: &Vec<(String, DType)>, name: &String) -> (r: Option<usize>)
    ensures
        r matches Some(k) ==> find_field(fields@, name@) == Some(k as nat) && k < fields@.len(),
        r is None ==> find_field(fields@, name@) is None,
{
    let n = fields.len();
    let mut i: usize = 0;
    while i < n
        invariant
            n == fields@.len(),
            i <= n,
            find_field(fields@, name@) == find_field_from(fields@, name@, i as nat),
        decreases n - i,
    {
        if fields[i].0 == *name {
            return Some(i);
        }
        i = i + 1;
    }
    None
}

/// The type reached from a value of type `dt` through the accessor chain
/// `acc`, with struct fields looked up in `structs`. `None` where a struct or
/// field does not exist.
pub open spec fn spec_apply_accessor(dt: DType, acc: Seq<Accessor>, structs: Seq<Struct>) -> Option<
    DType,
>
    decreases acc.len(),
{
    if acc.len() == 0 {
        Some(dt)
    } else {
        match dt {
            DType::Vector(VecTy::Array(inner, _)) => spec_apply_accessor(
                spec_elem_dtype(inner),
                acc.drop_first(),
                structs,
            ),
            DType::Vector(VecTy::Vec2(i)) => spec_swizzle(dt, i, acc),
            DType::Vector(VecTy::Vec3(i)) => spec_swizzle(dt, i, acc),
            DType::Vector(VecTy::Vec4(i)) => spec_swizzle(dt, i, acc),
            DType::StructRef { ident } => match find_struct(structs, ident@) {
                None => None,
                Some(j) => match acc[0] {
                    Accessor::Field(name) => match find_field(structs[j as int].inner@, name@) {
                        None => None,
                        Some(k) => spec_apply_accessor(
                            structs[j as int].inner@[k as int].1,
                            acc.drop_first(),
                            structs,
                        ),
                    },
                    Accessor::Index(_) => Some(dt),
                },
            },
            _ => Some(dt),
        }
    }
}

/// A single accessor on a vector: a swizzle of 1 to 4 components, or an index.
pub open spec fn spec_swizzle(dt: DType, i: BasicTy, acc: Seq<Accessor>) -> Option<DType> {
    if acc.len() == 1 {
        match acc[0] {
            Accessor::Field(s) => {
                let n = utf8_len(s@);
                if n == 1 {
                    Some(DType::Basic(i))
                } else if n == 2 {
                    Some(DType::Vector(VecTy::Vec2(i)))
                } else if n == 3 {
                    Some(DType::Vector(VecTy::Vec3(i)))
                } else if n == 4 {
                    Some(DType::Vector(VecTy::Vec4(i)))
                } else {
                    Some(dt)
                }
            },
            Accessor::Index(_) => Some(DType::Basic(i)),
        }
    } else {
        Some(dt)
    }
}

fn apply_accessor_from(dt: DType, acc: &[Accessor], start: usize, ir: &ShaderIR) -> (r: Option<DType>)
    requires
        start <= acc@.len(),
    ensures
        spec_apply_accessor(dt, acc@.skip(start as int), ir.structs@) == r,
    decreases acc@.len() - start,
{
    let ghost rest = acc@.skip(start as int);
    if start == acc.len() {
        return Some(dt);
    }
    proof {
        assert(rest.drop_first() =~= acc@.skip(start + 1));
    }
    match dt {
        DType::Vector(VecTy::Array(inner, n)) => {
            let elem = elem_dtype(&inner);
            apply_accessor_from(elem, acc, start + 1, ir)
        },
        DType::Vector(VecTy::Vec2(i)) => Some(swizzle_from(DType::Vector(VecTy::Vec2(i)), acc, start)),
        DType::Vector(VecTy::Vec3(i)) => Some(swizzle_from(DType::Vector(VecTy::Vec3(i)), acc, start)),
        DType::Vector(VecTy::Vec4(i)) => Some(swizzle_from(DType::Vector(VecTy::Vec4(i)), acc, start)),
        DType::StructRef { ident } => {
            let j = match lookup_struct(&ir.structs, &ident) {
                Some(j) => j,
                None => {
                    return None;
                },
            };
            match &acc[start] {
                Accessor::Field(name) => {
                    let k = match lookup_field(&ir.structs[j].inner, name) {
                        Some(k) => k,
                        None => {
                            return None;
                        },
                    };
                    let field_dt = ir.structs[j].inner[k].1.clone();
                    apply_accessor_from(field_dt, acc, start + 1, ir)
                },
                Accessor::Index(_) => Some(DType::StructRef { ident }),
            }
        },
        other => Some(other),
    }
}

fn swizzle_from(dt: DType, acc: &[Accessor], start: usize) -> (r: DType)
    requires
        start < acc@.len(),
        dt is Vector,
        !(dt->Vector_0 is Array),
    ensures
        Some(r) == match dt {
            DType::Vector(VecTy::Vec2(i)) => spec_swizzle(dt, i, acc@.skip(start as int)),
            DType::Vector(VecTy::Vec3(i)) => spec_swizzle(dt, i, acc@.skip(start as int)),
            DType::Vector(VecTy::Vec4(i)) => spec_swizzle(dt, i, acc@.skip(start as int)),
            _ => None,
        },
{
    let ghost rest = acc@.skip(start as int);
    let i = match &dt {
        DType::Vector(VecTy::Vec2(i)) => i.clone(),
        DType::Vector(VecTy::Vec3(i)) => i.clone(),
        DType::Vector(VecTy::Vec4(i)) => i.clone(),
        _ => BasicTy::F32,
    };
    if start == acc.len() - 1 {
        proof {
            assert(rest.len() == 1);
            assert(rest[0] == acc@[start as int]);
        }
        match &acc[start] {
            Accessor::Field(s) => {
                let n = s.as_str().len();
                if n == 1 {
                    DType::Basic(i)
                } else if n == 2 {
                    DType::Vector(VecTy::Vec2(i))
                } else if n == 3 {
                    DType::Vector(VecTy::Vec3(i))
                } else if n == 4 {
                    DType::Vector(VecTy::Vec4(i))
                } else {
                    dt
                }
            },
            Accessor::Index(_) => DType::Basic(i),
        }
    } else {
        dt
    }
}

impl DType {
    /// The type reached through the accessor chain `acc`. A field of a
    /// struct gives the field's type, an index into an array gives the
    /// element type, a swizzle of 1 to 4 components on a vector gives a
    /// scalar or a shorter vector; any other accessor leaves the type as is.
    pub fn apply_accessor(self, acc: &[Accessor], ir: &ShaderIR, scope: &Scope) -> (r: DType)
        requires
            spec_apply_accessor(self, acc@, ir.structs@) is Some,
        ensures
            spec_apply_accessor(self, acc@, ir.structs@) == Some(r),
    {
        self.try_apply_accessor(acc, ir).unwrap()
    }

    /// The type reached through the accessor chain `acc`, as
    /// `apply_accessor` gives it; `None` where a struct or one of its fields
    /// named in the chain does not exist.
    pub fn try_apply_accessor(self, acc: &[Accessor], ir: &ShaderIR) -> (r: Option<DType>)
        ensures
            spec_apply_accessor(self, acc@, ir.structs@) == r,
    {
        proof {
            assert(acc@.skip(0) =~= acc@);
        }
        apply_accessor_from(self, acc, 0, ir)
    }
}

impl DType {
    /// Whether [`DType::as_array_dtype`] is defined: arrays cannot be nested
    /// and padding has no array form.
    pub open spec fn can_wrap_in_array(self) -> bool {
        !(self matches DType::Vector(VecTy::Array(_, _))) && !(self is Pad)
    }

    /// The runtime-sized array type whose elements have the scalar type of
    /// `self`. Integer elements become atomic; vectors give arrays of their
    /// component type.
    pub open spec fn spec_as_array_dtype(self) -> DType {
        let inner = match self {
            DType::Basic(BasicTy::Integer(i)) => MaybeAtomic::Atomic(i),
            DType::Atomic(i) => MaybeAtomic::Atomic(i),
            DType::Basic(b) => MaybeAtomic::Naked(BasicTyOrStructRef::BasicTy(b)),
            DType::StructRef { ident } => MaybeAtomic::Naked(BasicTyOrStructRef::StructRef { ident }),
            DType::Vector(VecTy::Vec2(b)) => MaybeAtomic::Naked(BasicTyOrStructRef::BasicTy(b)),
            DType::Vector(VecTy::Vec3(b)) => MaybeAtomic::Naked(BasicTyOrStructRef::BasicTy(b)),
            DType::Vector(VecTy::Vec4(b)) => MaybeAtomic::Naked(BasicTyOrStructRef::BasicTy(b)),
            _ => MaybeAtomic::Atomic(IntegerTy::U32),
        };
        DType::Vector(VecTy::Array(inner, None))
    }

    pub fn as_array_dtype(&self) -> (r: DType)
        requires
            self.can_wrap_in_array(),
        ensures
            r == self.spec_as_array_dtype(),
    {
        let inner = match self {
            DType::Basic(BasicTy::Integer(i)) => MaybeAtomic::Atomic(i.clone()),
            DType::Atomic(i) => MaybeAtomic::Atomic(i.clone()),
            DType::Basic(b) => MaybeAtomic::Naked(BasicTyOrStructRef::BasicTy(b.clone())),
            DType::StructRef { ident } => MaybeAtomic::Naked(
                BasicTyOrStructRef::StructRef { ident: ident.clone() },
            ),
            DType::Vector(VecTy::Vec2(b)) => MaybeAtomic::Naked(BasicTyOrStructRef::BasicTy(b.clone())),
            DType::Vector(VecTy::Vec3(b)) => MaybeAtomic::Naked(BasicTyOrStructRef::BasicTy(b.clone())),
            DType::Vector(VecTy::Vec4(b)) => MaybeAtomic::Naked(BasicTyOrStructRef::BasicTy(b.clone())),
            _ => MaybeAtomic::Atomic(IntegerTy::U32),
        };
        DType::Vector(VecTy::Array(inner, None))
    }

    /// Size in bytes of a value of this type, where it is defined: scalars
    /// take 4 bytes, vectors 4 per component, and a sized array of scalars
    /// 4 per element. Structs, runtime-sized arrays and padding have no size
    /// here.
    pub open spec fn spec_byte_size(self) -> Option<nat> {
        match self {
            DType::Basic(_) => Some(4),
            DType::Atomic(_) => Some(4),
            DType::Vector(VecTy::Vec2(_)) => Some(8),
            DType::Vector(VecTy::Vec3(_)) => Some(12),
            DType::Vector(VecTy::Vec4(_)) => Some(16),
            DType::Vector(VecTy::Array(MaybeAtomic::Naked(BasicTyOrStructRef::BasicTy(_)), Some(n))) =>
                Some(4 * (n as nat)),
            DType::Vector(VecTy::Array(MaybeAtomic::Atomic(_), Some(n))) => Some(4 * (n as nat)),
            _ => None,
        }
    }

    pub fn byte_size(&self) -> (r: usize)
        requires
            self.spec_byte_size() matches Some(n) && n <= usize::MAX,
        ensures
            self.spec_byte_size() == Some(r as nat),
    {
        match self {
            DType::Basic(_) => 4,
            DType::Atomic(_) => 4,
            DType::Vector(VecTy::Vec2(_)) => 8,
            DType::Vector(VecTy::Vec3(_)) => 12,
            DType::Vector(VecTy::Vec4(_)) => 16,
            DType::Vector(VecTy::Array(_, Some(n))) => 4 * (*n as usize),
            _ => 0,
        }
    }
}

/// Whether two element types are the same, names compared by their text.
pub open spec fn same_ref(a: BasicTyOrStructRef, b: BasicTyOrStructRef) -> bool {
    match (a, b) {
        (BasicTyOrStructRef::StructRef { ident: x }, BasicTyOrStructRef::StructRef { ident: y }) => x@
            == y@,
        (BasicTyOrStructRef::BasicTy(x), BasicTyOrStructRef::BasicTy(y)) => x == y,
        _ => false,
    }
}

pub open spec fn same_inner(
    a: MaybeAtomic<IntegerTy, BasicTyOrStructRef>,
    b: MaybeAtomic<IntegerTy, BasicTyOrStructRef>,
) -> bool {
    match (a, b) {
        (MaybeAtomic::Atomic(x), MaybeAtomic::Atomic(y)) => x == y,
        (MaybeAtomic::Naked(x), MaybeAtomic::Naked(y)) => same_ref(x, y),
        _ => false,
    }
}

pub open spec fn same_vec(a: VecTy, b: VecTy) -> bool {
    match (a, b) {
        (VecTy::Vec2(x), VecTy::Vec2(y)) => x == y,
        (VecTy::Vec3(x), VecTy::Vec3(y)) => x == y,
        (VecTy::Vec4(x), VecTy::Vec4(y)) => x == y,
        (VecTy::Array(x, n), VecTy::Array(y, m)) => same_inner(x, y) && n == m,
        _ => false,
    }
}

/// Whether two types are the same; struct names are compared by their text.
pub open spec fn same_dtype(a: DType, b: DType) -> bool {
    match (a, b) {
        (DType::Vector(x), DType::Vector(y)) => same_vec(x, y),
        (DType::Atomic(x), DType::Atomic(y)) => x == y,
        (DType::Basic(x), DType::Basic(y)) => x == y,
        (DType::StructRef { ident: x }, DType::StructRef { ident: y }) => x@ == y@,
        (DType::Pad(x), DType::Pad(y)) => x == y,
        _ => false,
    }
}

fn integer_eq(a: &IntegerTy, b: &IntegerTy) -> (r: bool)
    ensures
        r == (*a == *b),
{
    match (a, b) {
        (IntegerTy::U32, IntegerTy::U32) => true,
        (IntegerTy::I32, IntegerTy::I32) => true,
        _ => false,
    }
}

fn basic_eq(a: &BasicTy, b: &BasicTy) -> (r: bool)
    ensures
        r == (*a == *b),
{
    match (a, b) {
        (BasicTy::F32, BasicTy::F32) => true,
        (BasicTy::Bool, BasicTy::Bool) => true,
        (BasicTy::Integer(x), BasicTy::Integer(y)) => integer_eq(x, y),
        _ => false,
    }
}

fn ref_eq(a: &BasicTyOrStructRef, b: &BasicTyOrStructRef) -> (r: bool)
    ensures
        r == same_ref(*a, *b),
{
    match (a, b) {
        (BasicTyOrStructRef::StructRef { ident: x }, BasicTyOrStructRef::StructRef { ident: y }) => x.eq(
            y,
        ),
        (BasicTyOrStructRef::BasicTy(x), BasicTyOrStructRef::BasicTy(y)) => basic_eq(x, y),
        _ => false,
    }
}

fn inner_eq(
    a: &MaybeAtomic<IntegerTy, BasicTyOrStructRef>,
    b: &MaybeAtomic<IntegerTy, BasicTyOrStructRef>,
) -> (r: bool)
    ensures
        r == same_inner(*a, *b),
{
    match (a, b) {
        (MaybeAtomic::Atomic(x), MaybeAtomic::Atomic(y)) => integer_eq(x, y),
        (MaybeAtomic::Naked(x), MaybeAtomic::Naked(y)) => ref_eq(x, y),
        _ => false,
    }
}

fn vec_eq(a: &VecTy, b: &VecTy) -> (r: bool)
    ensures
        r == same_vec(*a, *b),
{
    match (a, b) {
        (VecTy::Vec2(x), VecTy::Vec2(y)) => basic_eq(x, y),
        (VecTy::Vec3(x), VecTy::Vec3(y)) => basic_eq(x, y),
        (VecTy::Vec4(x), VecTy::Vec4(y)) => basic_eq(x, y),
        (VecTy::Array(x, n), VecTy::Array(y, m)) => {
            let same_len = match (n, m) {
                (Some(p), Some(q)) => *p == *q,
                (None, None) => true,
                _ => false,
            };
            inner_eq(x, y) && same_len
        },
        _ => false,
    }
}

impl DType {
    /// Whether `self` and `other` are the same type.
    pub fn same(&self, other: &DType) -> (r: bool)
        ensures
            r == same_dtype(*self, *other),
    {
        match (self, other) {
            (DType::Vector(x), DType::Vector(y)) => vec_eq(x, y),
            (DType::Atomic(x), DType::Atomic(y)) => integer_eq(x, y),
            (DType::Basic(x), DType::Basic(y)) => basic_eq(x, y),
            (DType::StructRef { ident: x }, DType::StructRef { ident: y }) => x.eq(y),
            (DType::Pad(x), DType::Pad(y)) => *x == *y,
            _ => false,
        }
    }
}

} // verus!
