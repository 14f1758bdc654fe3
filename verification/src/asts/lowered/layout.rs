use vstd::prelude::*;

use super::Struct;
use crate::dt::{BasicTyOrStructRef, DType, MaybeAtomic, VecTy, IntegerTy};
use crate::text::{decimal, decimal_string};

verus! {

/// Index of the first struct named `name` in `store[start..]`.
pub open spec fn find_struct_from(store: Seq<Struct>, name: Seq<char>, start: nat) -> Option<nat>
    decreases store.len() - start,
{
    if start >= store.len() {
        None
    } else if store[start as int].name@ == name {
        Some(start)
    } else {
        find_struct_from(store, name, start + 1)
    }
}

/// Index of the first struct named `name` in `store`.
pub open spec fn find_struct(store: Seq<Struct>, name: Seq<char>) -> Option<nat> {
    find_struct_from(store, name, 0)
}

pub proof fn lemma_find_struct_from(store: Seq<Struct>, name: Seq<char>, start: nat)
    ensures
        find_struct_from(store, name, start) matches Some(j) ==> start <= j < store.len()
            && store[j as int].name@ == name,
        find_struct_from(store, name, start) is None ==> forall|k: int|
            start <= k < store.len() ==> store[k].name@ != name,
    decreases store.len() - start,
{
    if start < store.len() {
        lemma_find_struct_from(store, name, start + 1);
    }
}

/// Looks a struct up by name; the first one of that name wins.
pub fn lookup_struct(store: &Vec<Struct>, name: &String) -> (r: Option<usize>)
    ensures
        r matches Some(j) ==> find_struct(store@, name@) == Some(j as nat) && j < store@.len(),
        r is None ==> find_struct(store@, name@) is None,
{
    proof {
        lemma_find_struct_from(store@, name@, 0);
    }
    let n = store.len();
    let mut i: usize = 0;
    while i < n
        invariant
            n == store@.len(),
            i <= n,
            find_struct(store@, name@) == find_struct_from(store@, name@, i as nat),
        decreases n - i,
    {
        if store[i].name == *name {
            return Some(i);
        }
        i = i + 1;
    }
    None
}

/// `off` rounded up to a multiple of `al` (unchanged when `al` is 0).
pub open spec fn round_up(off: nat, al: nat) -> nat {
    if al > 0 && off % al != 0 {
        (off + (al - off % al)) as nat
    } else {
        off
    }
}

pub open spec fn max_nat(a: nat, b: nat) -> nat {
    if a >= b {
        a
    } else {
        b
    }
}

/// WGSL size and alignment of `dt`, following struct references at most
/// `fuel` levels deep. `None` where the computation cannot complete: an
/// unknown struct, nesting deeper than `fuel`, a zero alignment met after a
/// non-zero one, or a size past `usize::MAX`.
pub open spec fn sa_dt(store: Seq<Struct>, dt: DType, fuel: nat) -> Option<(nat, nat)>
    decreases fuel, 3nat, 0nat,
{
    match dt {
        DType::Basic(_) => Some((4, 4)),
        DType::Atomic(_) => Some((4, 4)),
        DType::Vector(VecTy::Vec2(_)) => Some((8, 8)),
        DType::Vector(VecTy::Vec3(_)) => Some((12, 16)),
        DType::Vector(VecTy::Vec4(_)) => Some((16, 16)),
        DType::Vector(VecTy::Array(_, None)) => Some((0, 0)),
        DType::Vector(VecTy::Array(inner, Some(count))) => match sa_inner(store, inner, fuel) {
            Some((es, ea)) => if es * (count as nat) <= usize::MAX {
                Some((max_nat(es * (count as nat), 16), ea))
            } else {
                None
            },
            None => None,
        },
        DType::StructRef { ident } => sa_named(store, ident@, fuel),
        DType::Pad(bytes) => Some((bytes as nat, bytes as nat)),
    }
}

/// Size and alignment of one element of an array with element type `inner`.
pub open spec fn sa_inner(
    store: Seq<Struct>,
    inner: MaybeAtomic<IntegerTy, BasicTyOrStructRef>,
    fuel: nat,
) -> Option<(nat, nat)>
    decreases fuel, 2nat, 0nat,
{
    match inner {
        MaybeAtomic::Atomic(_) => Some((4, 4)),
        MaybeAtomic::Naked(BasicTyOrStructRef::BasicTy(_)) => Some((4, 4)),
        MaybeAtomic::Naked(BasicTyOrStructRef::StructRef { ident }) => sa_named(store, ident@, fuel),
    }
}

/// Size and alignment of the struct named `name`.
pub open spec fn sa_named(store: Seq<Struct>, name: Seq<char>, fuel: nat) -> Option<(nat, nat)>
    decreases fuel, 1nat, 0nat,
{
    match find_struct(store, name) {
        None => None,
        Some(j) => if fuel == 0 || j >= store.len() {
            None
        } else {
            match sa_fold(store, j, (fuel - 1) as nat, store[j as int].inner@.len()) {
                Some((off, ma)) => if round_up(off, ma) <= usize::MAX {
                    Some((round_up(off, ma), ma))
                } else {
                    None
                },
                None => None,
            }
        },
    }
}

/// Offset past the first `k` fields of `store[j]` and their largest alignment.
pub open spec fn sa_fold(store: Seq<Struct>, j: nat, fuel: nat, k: nat) -> Option<(nat, nat)>
    decreases fuel + 1, 0nat, k,
{
    if k == 0 || j >= store.len() || k > store[j as int].inner@.len() {
        if k == 0 {
            Some((0, 0))
        } else {
            None
        }
    } else {
        match sa_fold(store, j, fuel, (k - 1) as nat) {
            None => None,
            Some((off, ma)) => match sa_dt(store, store[j as int].inner@[k - 1].1, fuel) {
                None => None,
                Some((fs, fa)) => {
                    let ma2 = max_nat(ma, fa);
                    if ma2 > 0 && fa == 0 {
                        None
                    } else {
                        let off2 = if ma2 > 0 { round_up(off, fa) } else { off };
                        if off2 + fs <= usize::MAX {
                            Some((off2 + fs, ma2))
                        } else {
                            None
                        }
                    }
                },
            },
        }
    }
}

/// Size and alignment of `dt` in a store of struct definitions.
pub open spec fn spec_size_align(store: Seq<Struct>, dt: DType) -> Option<(nat, nat)> {
    sa_dt(store, dt, store.len())
}

pub proof fn lemma_sa_bounded(store: Seq<Struct>, dt: DType, fuel: nat)
    ensures
        sa_dt(store, dt, fuel) matches Some((s, a)) ==> s <= usize::MAX && a <= usize::MAX,
    decreases fuel, 3nat, 0nat,
{
    match dt {
        DType::Vector(VecTy::Array(inner, Some(count))) => {
            lemma_sa_inner_bounded(store, inner, fuel);
        },
        DType::StructRef { ident } => {
            lemma_sa_named_bounded(store, ident@, fuel);
        },
        _ => {},
    }
}

proof fn lemma_sa_inner_bounded(
    store: Seq<Struct>,
    inner: MaybeAtomic<IntegerTy, BasicTyOrStructRef>,
    fuel: nat,
)
    ensures
        sa_inner(store, inner, fuel) matches Some((s, a)) ==> s <= usize::MAX && a <= usize::MAX,
    decreases fuel, 2nat, 0nat,
{
    match inner {
        MaybeAtomic::Naked(BasicTyOrStructRef::StructRef { ident }) => {
            lemma_sa_named_bounded(store, ident@, fuel);
        },
        _ => {},
    }
}

proof fn lemma_sa_named_bounded(store: Seq<Struct>, name: Seq<char>, fuel: nat)
    ensures
        sa_named(store, name, fuel) matches Some((s, a)) ==> s <= usize::MAX && a <= usize::MAX,
    decreases fuel, 1nat, 0nat,
{
    match find_struct(store, name) {
        Some(j) => if fuel > 0 && j < store.len() {
            lemma_sa_fold_bounded(store, j, (fuel - 1) as nat, store[j as int].inner@.len());
        },
        None => {},
    }
}

proof fn lemma_sa_fold_bounded(store: Seq<Struct>, j: nat, fuel: nat, k: nat)
    ensures
        sa_fold(store, j, fuel, k) matches Some((s, a)) ==> s <= usize::MAX && a <= usize::MAX,
    decreases fuel + 1, 0nat, k,
{
    if k > 0 && j < store.len() && k <= store[j as int].inner@.len() {
        lemma_sa_fold_bounded(store, j, fuel, (k - 1) as nat);
        lemma_sa_bounded(store, store[j as int].inner@[k - 1].1, fuel);
    }
}

fn size_align_fuel(store: &Vec<Struct>, dt: &DType, fuel: usize) -> (r: (usize, usize))
    requires
        sa_dt(store@, *dt, fuel as nat) is Some,
    ensures
        sa_dt(store@, *dt, fuel as nat) == Some((r.0 as nat, r.1 as nat)),
    decreases fuel, 3nat,
{
    match dt {
        DType::Basic(_) => (4, 4),
        DType::Atomic(_) => (4, 4),
        DType::Vector(VecTy::Vec2(_)) => (8, 8),
        DType::Vector(VecTy::Vec3(_)) => (12, 16),
        DType::Vector(VecTy::Vec4(_)) => (16, 16),
        DType::Vector(VecTy::Array(_, None)) => (0, 0),
        DType::Vector(VecTy::Array(inner, Some(count))) => {
            let (elem_sz, elem_al) = inner_size_align(store, inner, fuel);
            let total = elem_sz * (*count as usize);
            (if total >= 16 { total } else { 16 }, elem_al)
        },
        DType::StructRef { ident } => named_size_align(store, ident, fuel),
        DType::Pad(bytes) => (*bytes, *bytes),
    }
}

fn inner_size_align(
    store: &Vec<Struct>,
    inner: &MaybeAtomic<IntegerTy, BasicTyOrStructRef>,
    fuel: usize,
) -> (r: (usize, usize))
    requires
        sa_inner(store@, *inner, fuel as nat) is Some,
    ensures
        sa_inner(store@, *inner, fuel as nat) == Some((r.0 as nat, r.1 as nat)),
    decreases fuel, 2nat,
{
    match inner {
        MaybeAtomic::Atomic(_) => (4, 4),
        MaybeAtomic::Naked(BasicTyOrStructRef::BasicTy(_)) => (4, 4),
        MaybeAtomic::Naked(BasicTyOrStructRef::StructRef { ident }) => named_size_align(
            store,
            ident,
            fuel,
        ),
    }
}

fn named_size_align(store: &Vec<Struct>, name: &String, fuel: usize) -> (r: (usize, usize))
    requires
        sa_named(store@, name@, fuel as nat) is Some,
    ensures
        sa_named(store@, name@, fuel as nat) == Some((r.0 as nat, r.1 as nat)),
    decreases fuel, 1nat,
{
    let j = match lookup_struct(store, name) {
        Some(j) => j,
        None => { return (0, 0); },
    };
    let s = &store[j];
    let n = s.inner.len();
    let ghost f = (fuel - 1) as nat;
    let mut offset: usize = 0;
    let mut max_align: usize = 0;
    let mut k: usize = 0;
    while k < n
        invariant
            fuel > 0,
            f == fuel - 1,
            j < store@.len(),
            *s == store@[j as int],
            n == s.inner@.len(),
            k <= n,
            sa_fold(store@, j as nat, f, n as nat) is Some,
            sa_fold(store@, j as nat, f, k as nat) == Some((offset as nat, max_align as nat)),
        decreases n - k,
    {
        proof {
            lemma_fold_prefix_some(store@, j as nat, f, (k + 1) as nat, n as nat);
        }
        let (field_sz, field_al) = size_align_fuel(store, &s.inner[k].1, fuel - 1);
        if field_al > max_align {
            max_align = field_al;
        }
        if max_align > 0 && offset % field_al != 0 {
            offset = offset + (field_al - offset % field_al);
        }
        offset = offset + field_sz;
        k = k + 1;
    }
    if max_align > 0 && offset % max_align != 0 {
        offset = offset + (max_align - offset % max_align);
    }
    (offset, max_align)
}

proof fn lemma_fold_prefix_some(store: Seq<Struct>, j: nat, fuel: nat, k: nat, n: nat)
    requires
        k <= n,
        sa_fold(store, j, fuel, n) is Some,
    ensures
        sa_fold(store, j, fuel, k) is Some,
    decreases n - k,
{
    if k < n {
        lemma_fold_prefix_some(store, j, fuel, k + 1, n);
    }
}

impl Struct {
    /// WGSL size and alignment of `dt` (in bytes), with struct references
    /// resolved in `struct_store`.
    pub fn wgsl_size_align(struct_store: &Vec<Struct>, dt: &DType) -> (r: (usize, usize))
        requires
            spec_size_align(struct_store@, *dt) is Some,
        ensures
            spec_size_align(struct_store@, *dt) == Some((r.0 as nat, r.1 as nat)),
    {
        size_align_fuel(struct_store, dt, struct_store.len())
    }
}

/// Padding bytes needed to move `offset` up to a multiple of `align`
/// (none when `align` is 0).
pub open spec fn spec_padding(offset: nat, align: nat) -> nat {
    if align == 0 || offset % align == 0 {
        0
    } else {
        (align - offset % align) as nat
    }
}

proof fn lemma_padding_aligns(offset: nat, align: nat)
    requires
        align > 0,
    ensures
        ((offset + spec_padding(offset, align)) as int) % (align as int) == 0,
        spec_padding(offset, align) < align,
{
    let m = offset % align;
    vstd::arithmetic::div_mod::lemma_fundamental_div_mod(offset as int, align as int);
    if m != 0 {
        let q = offset / align;
        assert(offset + (align - m) == (q + 1) * align) by (nonlinear_arith)
            requires
                offset == align * q + m,
        ;
        vstd::arithmetic::div_mod::lemma_mod_multiples_basic((q + 1) as int, align as int);
    }
}

/// The size of a struct is a whole number of its alignments, as WGSL lays
/// structs out.
pub proof fn lemma_struct_size_aligned(store: Seq<Struct>, dt: DType)
    requires
        dt is StructRef,
    ensures
        spec_size_align(store, dt) matches Some((size, align)) ==> (align > 0 ==> size % align == 0),
{
    match spec_size_align(store, dt) {
        Some((size, align)) => {
            if align > 0 {
                let j = find_struct(store, dt->ident@).unwrap();
                let (off, ma) = sa_fold(
                    store,
                    j,
                    (store.len() - 1) as nat,
                    store[j as int].inner@.len(),
                ).unwrap();
                lemma_padding_aligns(off, ma);
                assert(round_up(off, ma) == off + spec_padding(off, ma));
            }
        },
        None => {},
    }
}

/// Size and alignment of field `i` of `store[j]`, struct references followed
/// `fuel` levels deep.
pub open spec fn field_layout(store: Seq<Struct>, j: nat, fuel: nat, i: nat) -> Option<(nat, nat)> {
    sa_dt(store, store[j as int].inner@[i as int].1, fuel)
}

/// Offset at which field `i` of `store[j]` starts in the WGSL layout.
pub open spec fn field_start(store: Seq<Struct>, j: nat, fuel: nat, i: nat) -> nat {
    let (off, ma) = sa_fold(store, j, fuel, i).unwrap();
    let (fs, fa) = field_layout(store, j, fuel, i).unwrap();
    if max_nat(ma, fa) > 0 {
        round_up(off, fa)
    } else {
        off
    }
}

/// The largest alignment among the first `k` fields of `store[j]`.
pub open spec fn max_field_align(store: Seq<Struct>, j: nat, fuel: nat, k: nat) -> nat
    decreases k,
{
    if k == 0 {
        0
    } else {
        max_nat(max_field_align(store, j, fuel, (k - 1) as nat), field_layout(store, j, fuel, (k - 1) as nat).unwrap().1)
    }
}

proof fn lemma_round_up(off: nat, al: nat)
    ensures
        round_up(off, al) >= off,
        al > 0 ==> round_up(off, al) % al == 0,
        al > 0 && off % al == 0 ==> round_up(off, al) == off,
{
    if al > 0 {
        lemma_padding_aligns(off, al);
        assert(round_up(off, al) == off + spec_padding(off, al));
    }
}

/// The layout of the first `k` fields of `store[j]`: each field starts at a
/// multiple of its alignment, after the end of the field before it, and ends
/// within the running offset; the running alignment is the largest of the
/// fields' alignments.
#[verifier::spinoff_prover]
#[verifier::rlimit(40)]
proof fn lemma_fold_layout(store: Seq<Struct>, j: nat, fuel: nat, k: nat)
    requires
        sa_fold(store, j, fuel, k) is Some,
    ensures
        sa_fold(store, j, fuel, k).unwrap().1 == max_field_align(store, j, fuel, k),
        forall|i: nat|
            i < k ==> {
                let (fs, fa) = #[trigger] field_layout(store, j, fuel, i).unwrap();
                &&& field_layout(store, j, fuel, i) is Some
                &&& sa_fold(store, j, fuel, i) is Some
                &&& fa <= sa_fold(store, j, fuel, k).unwrap().1
                &&& (fa > 0 ==> field_start(store, j, fuel, i) % fa == 0)
                &&& field_start(store, j, fuel, i) + fs <= sa_fold(store, j, fuel, k).unwrap().0
            },
        forall|i: nat|
            i + 1 < k ==> field_start(store, j, fuel, i) + (#[trigger] field_layout(store, j, fuel, i)).unwrap().0
                <= field_start(store, j, fuel, i + 1),
    decreases k,
{
    if k > 0 {
        let p = (k - 1) as nat;
        lemma_fold_layout(store, j, fuel, p);
        let (off, ma) = sa_fold(store, j, fuel, p).unwrap();
        let (fs, fa) = field_layout(store, j, fuel, p).unwrap();
        let ma2 = max_nat(ma, fa);
        let off2 = field_start(store, j, fuel, p);
        lemma_round_up(off, fa);
        assert(sa_fold(store, j, fuel, k) == Some((off2 + fs, ma2)));
        assert(fa > 0 || ma2 == 0);
        assert(off <= off2);
        assert forall|i: nat| i < k implies {
            let (fs, fa) = #[trigger] field_layout(store, j, fuel, i).unwrap();
            &&& field_layout(store, j, fuel, i) is Some
            &&& sa_fold(store, j, fuel, i) is Some
            &&& fa <= sa_fold(store, j, fuel, k).unwrap().1
            &&& (fa > 0 ==> field_start(store, j, fuel, i) % fa == 0)
            &&& field_start(store, j, fuel, i) + fs <= sa_fold(store, j, fuel, k).unwrap().0
        } by {
            if i < p {
                assert(field_layout(store, j, fuel, i) is Some);
            }
        }
        assert forall|i: nat| i + 1 < k implies field_start(store, j, fuel, i) + (#[trigger] field_layout(
            store,
            j,
            fuel,
            i,
        )).unwrap().0 <= field_start(store, j, fuel, i + 1) by {
            if i + 1 == p {
                assert(field_start(store, j, fuel, i) + field_layout(store, j, fuel, i).unwrap().0 <= off);
            }
        }
    }
}

/// How WGSL lays out a struct: its alignment is the largest alignment of
/// its fields; each field starts at a multiple of its own alignment, no
/// earlier than the end of the field before it; every field ends within the
/// struct; and the size is a whole number of alignments.
pub proof fn lemma_struct_layout(store: Seq<Struct>, dt: DType)
    requires
        dt is StructRef,
        spec_size_align(store, dt) is Some,
    ensures
        ({
            let j = find_struct(store, dt->ident@).unwrap();
            let fuel = (store.len() - 1) as nat;
            let n = store[j as int].inner@.len();
            let (size, align) = spec_size_align(store, dt).unwrap();
            &&& j < store.len()
            &&& align == max_field_align(store, j, fuel, n)
            &&& (align > 0 ==> size % align == 0)
            &&& forall|i: nat|
                i < n ==> {
                    let (fs, fa) = #[trigger] field_layout(store, j, fuel, i).unwrap();
                    &&& field_layout(store, j, fuel, i) is Some
                    &&& fa <= align
                    &&& (fa > 0 ==> field_start(store, j, fuel, i) % fa == 0)
                    &&& field_start(store, j, fuel, i) + fs <= size
                }
            &&& forall|i: nat|
                i + 1 < n ==> field_start(store, j, fuel, i) + (#[trigger] field_layout(store, j, fuel, i)).unwrap().0
                    <= field_start(store, j, fuel, i + 1)
        }),
{
    let j = find_struct(store, dt->ident@).unwrap();
    let fuel = (store.len() - 1) as nat;
    let n = store[j as int].inner@.len();
    lemma_fold_layout(store, j, fuel, n);
    let (off, ma) = sa_fold(store, j, fuel, n).unwrap();
    lemma_round_up(off, ma);
    lemma_struct_size_aligned(store, dt);
}

/// The field list of a struct as names and types.
pub open spec fn fields_view(s: Seq<(String, DType)>) -> Seq<(Seq<char>, DType)> {
    s.map_values(|f: (String, DType)| (f.0@, f.1))
}

/// The name of the `n`-th padding field inserted into a struct.
pub open spec fn pad_field_name(n: nat) -> Seq<char> {
    "_pad_"@ + decimal(n)
}

/// Walks the first `k` fields of `fields`, inserting a padding field before
/// each field that would otherwise start misaligned. Yields the offset past
/// the last field, the number of padding fields inserted and the new field
/// list; `None` where a field's layout is undefined or an offset passes
/// `usize::MAX`.
pub open spec fn pad_walk(store: Seq<Struct>, fields: Seq<(String, DType)>, k: nat) -> Option<
    (nat, nat, Seq<(Seq<char>, DType)>),
>
    decreases k,
{
    if k == 0 || k > fields.len() {
        if k == 0 {
            Some((0, 0, Seq::empty()))
        } else {
            None
        }
    } else {
        match pad_walk(store, fields, (k - 1) as nat) {
            None => None,
            Some((cur, cnt, out)) => {
                let field = fields[k - 1];
                match spec_size_align(store, field.1) {
                    None => None,
                    Some((fs, fa)) => {
                        let pad = spec_padding(cur, fa);
                        let cur1 = cur + pad;
                        let cnt1 = if pad > 0 { cnt + 1 } else { cnt };
                        let out1 = if pad > 0 {
                            out.push((pad_field_name(cnt), DType::Pad(pad as usize)))
                        } else {
                            out
                        };
                        let cur2 = round_up(cur1, fa);
                        if cur1 > usize::MAX || cur2 + fs > usize::MAX {
                            None
                        } else {
                            Some(((cur2 + fs) as nat, cnt1, out1.push((field.0@, field.1))))
                        }
                    },
                }
            },
        }
    }
}

/// The fields of `s` that are not padding.
pub open spec fn without_pads(s: Seq<(Seq<char>, DType)>) -> Seq<(Seq<char>, DType)>
    decreases s.len(),
{
    if s.len() == 0 {
        s
    } else if s.last().1 is Pad {
        without_pads(s.drop_last())
    } else {
        without_pads(s.drop_last()).push(s.last())
    }
}

impl Struct {
    /// Bytes of padding to insert at `current_offset` so that a field of
    /// type `next_field` starts aligned.
    pub fn required_padding(
        struct_store: &Vec<Struct>,
        current_offset: usize,
        next_field: &DType,
    ) -> (r: usize)
        requires
            spec_size_align(struct_store@, *next_field) is Some,
        ensures
            r == spec_padding(
                current_offset as nat,
                spec_size_align(struct_store@, *next_field).unwrap().1,
            ),
            spec_size_align(struct_store@, *next_field).unwrap().1 > 0 ==> {
                let align = spec_size_align(struct_store@, *next_field).unwrap().1;
                &&& ((current_offset + r) as int) % (align as int) == 0
                &&& r < align
            },
    {
        let (_, next_align) = Self::wgsl_size_align(struct_store, next_field);
        proof {
            if next_align > 0 {
                lemma_padding_aligns(current_offset as nat, next_align as nat);
            }
        }
        if next_align == 0 {
            return 0;
        }
        let misalignment = current_offset % next_align;
        if misalignment == 0 {
            0
        } else {
            next_align - misalignment
        }
    }

    /// The same struct with a padding field (`_pad_0`, `_pad_1`, ...) inserted
    /// before each field that would otherwise start misaligned.
    pub fn with_padding(self, struct_store: &Vec<Struct>) -> (r: Self)
        requires
            pad_walk(struct_store@, self.inner@, self.inner@.len()) is Some,
        ensures
            r.name == self.name,
            fields_view(r.inner@) == pad_walk(struct_store@, self.inner@, self.inner@.len()).unwrap().2,
            without_pads(fields_view(r.inner@)) == without_pads(fields_view(self.inner@)),
    {
        proof {
            lemma_with_padding_keeps_fields(struct_store@, self.inner@, self.inner@.len());
            assert(self.inner@.take(self.inner@.len() as int) =~= self.inner@);
        }
        let mut result: Vec<(String, DType)> = Vec::new();
        let mut current_offset: usize = 0;
        let mut pad_counter: usize = 0;
        let n = self.inner.len();
        let mut k: usize = 0;
        while k < n
            invariant
                n == self.inner@.len(),
                k <= n,
                pad_walk(struct_store@, self.inner@, n as nat) is Some,
                pad_walk(struct_store@, self.inner@, k as nat) == Some(
                    (current_offset as nat, pad_counter as nat, fields_view(result@)),
                ),
            decreases n - k,
        {
            proof {
                lemma_pad_walk_prefix_some(struct_store@, self.inner@, (k + 1) as nat, n as nat);
                lemma_pad_walk_count(struct_store@, self.inner@, k as nat);
            }
            let name = &self.inner[k].0;
            let dtype = &self.inner[k].1;
            let padding_needed = Self::required_padding(struct_store, current_offset, dtype);
            let ghost before = result@;
            if padding_needed > 0 {
                let mut pad_name = String::new();
                pad_name.append("_pad_");
                let num = decimal_string(pad_counter);
                pad_name.append(num.as_str());
                result.push((pad_name, DType::Pad(padding_needed)));
                pad_counter = pad_counter + 1;
                current_offset = current_offset + padding_needed;
            }
            let ghost mid = result@;
            result.push((name.clone(), dtype.clone()));
            let (field_sz, field_al) = Self::wgsl_size_align(struct_store, dtype);
            if field_al > 0 && current_offset % field_al != 0 {
                current_offset = current_offset + (field_al - current_offset % field_al);
            }
            current_offset = current_offset + field_sz;
            proof {
                assert(fields_view(mid) =~= if padding_needed > 0 {
                    fields_view(before).push((pad_field_name((pad_counter - 1) as nat), DType::Pad(padding_needed)))
                } else {
                    fields_view(before)
                });
                assert(fields_view(result@) =~= fields_view(mid).push((name@, *dtype)));
            }
            k = k + 1;
        }
        Self { name: self.name, inner: result }
    }
}

proof fn lemma_pad_walk_prefix_some(store: Seq<Struct>, fields: Seq<(String, DType)>, k: nat, n: nat)
    requires
        k <= n,
        pad_walk(store, fields, n) is Some,
    ensures
        pad_walk(store, fields, k) is Some,
    decreases n - k,
{
    if k < n {
        lemma_pad_walk_prefix_some(store, fields, k + 1, n);
    }
}

/// Padding only inserts fields: the fields of the padded struct that are not
/// padding are the fields of the given struct that are not padding, in
/// the same order.
pub proof fn lemma_with_padding_keeps_fields(store: Seq<Struct>, fields: Seq<(String, DType)>, k: nat)
    requires
        pad_walk(store, fields, k) is Some,
    ensures
        without_pads(pad_walk(store, fields, k).unwrap().2) == without_pads(
            fields_view(fields.take(k as int)),
        ),
    decreases k,
{
    if k > 0 {
        lemma_pad_walk_prefix_some(store, fields, (k - 1) as nat, k);
        lemma_with_padding_keeps_fields(store, fields, (k - 1) as nat);
        let (cur, cnt, out) = pad_walk(store, fields, (k - 1) as nat).unwrap();
        let field = fields[k - 1];
        let (fs, fa) = spec_size_align(store, field.1).unwrap();
        let pad = spec_padding(cur, fa);
        let out1 = if pad > 0 {
            out.push((pad_field_name(cnt), DType::Pad(pad as usize)))
        } else {
            out
        };
        assert(out1.push((field.0@, field.1)).drop_last() =~= out1);
        if pad > 0 {
            assert(out1.drop_last() =~= out);
        }
        assert(fields_view(fields.take(k as int)).drop_last() =~= fields_view(fields.take(k - 1)));
        assert(fields_view(fields.take(k as int)).last() == (field.0@, field.1));
        let x = (field.0@, field.1);
        assert(without_pads(out1.push(x)) == if x.1 is Pad {
            without_pads(out1)
        } else {
            without_pads(out1).push(x)
        });
        assert(without_pads(out1) == without_pads(out));
    }
}

/// Where entry `m` of a field list starts when the entries are laid end to
/// end, each taking its own size.
pub open spec fn packed_start(store: Seq<Struct>, s: Seq<(Seq<char>, DType)>, m: nat) -> nat
    decreases m,
{
    if m == 0 {
        0
    } else {
        packed_start(store, s, (m - 1) as nat) + spec_size_align(store, s[m - 1].1).unwrap().0
    }
}

/// The names of the padding entries of `s`, in order.
pub open spec fn pad_names(s: Seq<(Seq<char>, DType)>) -> Seq<Seq<char>>
    decreases s.len(),
{
    if s.len() == 0 {
        Seq::empty()
    } else if s.last().1 is Pad {
        pad_names(s.drop_last()).push(s.last().0)
    } else {
        pad_names(s.drop_last())
    }
}

proof fn lemma_packed_prefix(store: Seq<Struct>, s: Seq<(Seq<char>, DType)>, t: Seq<(Seq<char>, DType)>, m: nat)
    requires
        m <= s.len(),
        m <= t.len(),
        forall|i: int| 0 <= i < m ==> s[i] == t[i],
    ensures
        packed_start(store, s, m) == packed_start(store, t, m),
    decreases m,
{
    if m > 0 {
        lemma_packed_prefix(store, s, t, (m - 1) as nat);
    }
}

/// What padding a struct whose fields carry no padding yet gives: the
/// inserted entries are the only padding, each of positive size, named
/// `_pad_0`, `_pad_1`, ... in order; laid end to end, the entries end at the
/// offset the walk reached, and every field starts at a multiple of its
/// alignment.
pub proof fn lemma_padding_layout(store: Seq<Struct>, fields: Seq<(String, DType)>, k: nat)
    requires
        pad_walk(store, fields, k) is Some,
        forall|i: int| 0 <= i < fields.len() ==> !(fields[i].1 is Pad),
    ensures
        ({
            let (cur, cnt, out) = pad_walk(store, fields, k).unwrap();
            &&& cur == packed_start(store, out, out.len())
            &&& pad_names(out) == Seq::new(cnt, |n: int| pad_field_name(n as nat))
            &&& forall|m: int| 0 <= m < out.len() && (#[trigger] out[m]).1 is Pad ==> out[m].1->Pad_0 > 0
            &&& forall|m: int|
                0 <= m < out.len() && !((#[trigger] out[m]).1 is Pad) ==> {
                    &&& spec_size_align(store, out[m].1) is Some
                    &&& spec_size_align(store, out[m].1).unwrap().1 > 0 ==> packed_start(store, out, m as nat)
                        % spec_size_align(store, out[m].1).unwrap().1 == 0
                }
        }),
    decreases k,
{
    if k > 0 {
        let p = (k - 1) as nat;
        lemma_pad_walk_prefix_some(store, fields, p, k);
        lemma_padding_layout(store, fields, p);
        let (cur, cnt, out) = pad_walk(store, fields, p).unwrap();
        let field = fields[k - 1];
        let (fs, fa) = spec_size_align(store, field.1).unwrap();
        let pad = spec_padding(cur, fa);
        let cur1 = cur + pad;
        if fa > 0 {
            lemma_padding_aligns(cur, fa);
        }
        lemma_round_up(cur1, fa);
        let out1 = if pad > 0 {
            out.push((pad_field_name(cnt), DType::Pad(pad as usize)))
        } else {
            out
        };
        let x = (field.0@, field.1);
        let out2 = out1.push(x);
        assert(pad_walk(store, fields, k).unwrap() == (cur1 + fs, if pad > 0 { cnt + 1 } else { cnt }, out2));
        lemma_packed_prefix(store, out, out2, out.len());
        lemma_packed_prefix(store, out1, out2, out1.len());
        if pad > 0 {
            assert(out1[out.len() as int] == (pad_field_name(cnt), DType::Pad(pad as usize)));
            assert(spec_size_align(store, DType::Pad(pad as usize)) == Some((pad, pad)));
            assert(packed_start(store, out1, out1.len()) == cur1);
        }
        assert(packed_start(store, out2, out1.len()) == cur1);
        assert(packed_start(store, out2, out2.len()) == cur1 + fs);
        assert(out2.drop_last() =~= out1);
        assert(!(x.1 is Pad));
        assert(pad_names(out2) == pad_names(out1));
        if pad > 0 {
            assert(out1.drop_last() =~= out);
            assert(pad_names(out1) == pad_names(out).push(pad_field_name(cnt)));
            assert(pad_names(out2) =~= Seq::new(cnt + 1, |n: int| pad_field_name(n as nat)));
        } else {
            assert(pad_names(out2) =~= Seq::new(cnt, |n: int| pad_field_name(n as nat)));
        }
        assert forall|m: int|
            0 <= m < out2.len() && !((#[trigger] out2[m]).1 is Pad) implies {
                &&& spec_size_align(store, out2[m].1) is Some
                &&& spec_size_align(store, out2[m].1).unwrap().1 > 0 ==> packed_start(store, out2, m as nat)
                    % spec_size_align(store, out2[m].1).unwrap().1 == 0
            } by {
            if m < out.len() {
                assert(out2[m] == out[m]);
                lemma_packed_prefix(store, out, out2, m as nat);
            } else {
                assert(m == out1.len());
            }
        }
        assert forall|m: int| 0 <= m < out2.len() && (#[trigger] out2[m]).1 is Pad implies out2[m].1->Pad_0 > 0 by {
            if m < out.len() {
                assert(out2[m] == out[m]);
            }
        }
    }
}

proof fn lemma_pad_walk_count(store: Seq<Struct>, fields: Seq<(String, DType)>, k: nat)
    ensures
        pad_walk(store, fields, k) matches Some((_, cnt, _)) ==> cnt <= k,
    decreases k,
{
    if k > 0 {
        lemma_pad_walk_count(store, fields, (k - 1) as nat);
    }
}

} // verus!
