//! Patterns over tensor expressions and the names they capture.
use vstd::prelude::*;

use super::{
    JitAST, JitASTOrConst, JitBinOp, JitUnaryOp, MovOp, ReduceOp, SpecJit, SpecJitPart, SpecMovOp,
    TernaryOp, clone_jit,
};
use super::shape::min_len;
use crate::dt::{DType, same_dtype};
use vstd::string::*;

verus! {

/// A component of a constant pattern: a sub-pattern (`None` matches any
/// expression) or any raw constant.
pub enum PatPart {
    AST(Option<PatJitAST>),
    Const,
}

/// A constant pattern: the type and the component patterns.
pub struct PatConst {
    pub dt: DType,
    pub data: Vec<PatPart>,
}

/// A pattern over tensor expressions. `Var(name)` matches anything and
/// captures it under `name`; a `None` operator or type matches any.
pub enum PatJitAST {
    Var(String),
    Const(PatConst),
    BinOp { lhs: Box<PatJitAST>, rhs: Box<PatJitAST>, op: Option<JitBinOp> },
    UnaryOp { operand: Box<PatJitAST>, op: Option<JitUnaryOp> },
    Cast { operand: Box<PatJitAST>, dt: Option<DType> },
    Ternary { a: Box<PatJitAST>, b: Box<PatJitAST>, c: Box<PatJitAST>, op: Option<TernaryOp> },
    Movement { operand: Box<PatJitAST>, op: Option<MovOp> },
    Reduce { operand: Box<PatJitAST>, axis: Option<usize>, op: Option<ReduceOp> },
    AllReduce { operand: Box<PatJitAST>, op: Option<ReduceOp> },
}

/// Mathematical model of a [`PatPart`].
pub enum SpecPatPart {
    AST(Option<SpecPat>),
    Const,
}

/// Mathematical model of a [`PatJitAST`].
pub enum SpecPat {
    Var(Seq<char>),
    Const { dt: DType, data: Seq<SpecPatPart> },
    BinOp { lhs: Box<SpecPat>, rhs: Box<SpecPat>, op: Option<JitBinOp> },
    UnaryOp { operand: Box<SpecPat>, op: Option<JitUnaryOp> },
    Cast { operand: Box<SpecPat>, dt: Option<DType> },
    Ternary { a: Box<SpecPat>, b: Box<SpecPat>, c: Box<SpecPat>, op: Option<TernaryOp> },
    Movement { operand: Box<SpecPat>, op: Option<SpecMovOp> },
    Reduce { operand: Box<SpecPat>, axis: Option<usize>, op: Option<ReduceOp> },
    AllReduce { operand: Box<SpecPat>, op: Option<ReduceOp> },
}

pub open spec fn pat_part_view(p: PatPart) -> SpecPatPart
    decreases p,
{
    match p {
        PatPart::AST(Some(q)) => SpecPatPart::AST(Some(pat_view(q))),
        PatPart::AST(None) => SpecPatPart::AST(None),
        PatPart::Const => SpecPatPart::Const,
    }
}

pub open spec fn pat_parts_view(s: Seq<PatPart>) -> Seq<SpecPatPart>
    decreases s,
{
    if s.len() == 0 {
        Seq::empty()
    } else {
        pat_parts_view(s.drop_last()).push(pat_part_view(s.last()))
    }
}

pub open spec fn pat_view(p: PatJitAST) -> SpecPat
    decreases p,
{
    match p {
        PatJitAST::Var(n) => SpecPat::Var(n@),
        PatJitAST::Const(c) => SpecPat::Const { dt: c.dt, data: pat_parts_view(c.data@) },
        PatJitAST::BinOp { lhs, rhs, op } => SpecPat::BinOp {
            lhs: Box::new(pat_view(*lhs)),
            rhs: Box::new(pat_view(*rhs)),
            op,
        },
        PatJitAST::UnaryOp { operand, op } => SpecPat::UnaryOp {
            operand: Box::new(pat_view(*operand)),
            op,
        },
        PatJitAST::Cast { operand, dt } => SpecPat::Cast { operand: Box::new(pat_view(*operand)), dt },
        PatJitAST::Ternary { a, b, c, op } => SpecPat::Ternary {
            a: Box::new(pat_view(*a)),
            b: Box::new(pat_view(*b)),
            c: Box::new(pat_view(*c)),
            op,
        },
        PatJitAST::Movement { operand, op } => SpecPat::Movement {
            operand: Box::new(pat_view(*operand)),
            op: match op {
                Some(o) => Some(o@),
                None => None,
            },
        },
        PatJitAST::Reduce { operand, axis, op } => SpecPat::Reduce {
            operand: Box::new(pat_view(*operand)),
            axis,
            op,
        },
        PatJitAST::AllReduce { operand, op } => SpecPat::AllReduce {
            operand: Box::new(pat_view(*operand)),
            op,
        },
    }
}

impl View for PatJitAST {
    type V = SpecPat;

    open spec fn view(&self) -> SpecPat {
        pat_view(*self)
    }
}

impl View for PatPart {
    type V = SpecPatPart;

    open spec fn view(&self) -> SpecPatPart {
        pat_part_view(*self)
    }
}

/// The view of a list of component patterns, element by element.
pub proof fn lemma_pat_parts_view(s: Seq<PatPart>)
    ensures
        pat_parts_view(s).len() == s.len(),
        forall|i: int| 0 <= i < s.len() ==> #[trigger] pat_parts_view(s)[i] == s[i]@,
    decreases s.len(),
{
    if s.len() > 0 {
        lemma_pat_parts_view(s.drop_last());
    }
}

/// Whether an optional required value is absent or equal to `x`.
pub open spec fn opt_ok<T>(req: Option<T>, x: T) -> bool {
    match req {
        Some(r) => r == x,
        None => true,
    }
}

/// Whether pattern `p` matches expression `a`.
pub open spec fn pat_matches(p: SpecPat, a: SpecJit) -> bool
    decreases p, 0nat,
{
    match p {
        SpecPat::Var(_) => true,
        SpecPat::Const { dt: c_dt, data: c_data } => match a {
            SpecJit::Const { dt, data } => same_dtype(c_dt, dt) && parts_match(
                c_data,
                data,
                min_len(c_data.len(), data.len()),
            ),
            _ => false,
        },
        SpecPat::BinOp { lhs, rhs, op } => match a {
            SpecJit::BinOp { lhs: al, rhs: ar, op: aop } => opt_ok(op, aop) && pat_matches(*lhs, *al)
                && pat_matches(*rhs, *ar),
            _ => false,
        },
        SpecPat::UnaryOp { operand, op } => match a {
            SpecJit::UnaryOp { operand: ao, op: aop } => opt_ok(op, aop) && pat_matches(*operand, *ao),
            _ => false,
        },
        SpecPat::Cast { operand, dt } => match a {
            SpecJit::Cast { operand: ao, dt: adt } => (match dt {
                Some(d) => same_dtype(d, adt),
                None => true,
            }) && pat_matches(*operand, *ao),
            _ => false,
        },
        SpecPat::Ternary { a: pa, b: pb, c: pc, op } => match a {
            SpecJit::Ternary { a: xa, b: xb, c: xc, op: aop } => opt_ok(op, aop) && pat_matches(*pa, *xa)
                && pat_matches(*pb, *xb) && pat_matches(*pc, *xc),
            _ => false,
        },
        SpecPat::Movement { operand, op } => match a {
            SpecJit::Movement { operand: ao, op: aop } => (match op {
                Some(o) => o == aop,
                None => true,
            }) && pat_matches(*operand, *ao),
            _ => false,
        },
        SpecPat::Reduce { operand, axis, op } => match a {
            SpecJit::Reduce { operand: ao, axis: aaxis, op: aop } => opt_ok(axis, aaxis) && opt_ok(op, aop)
                && pat_matches(*operand, *ao),
            _ => false,
        },
        SpecPat::AllReduce { operand, op } => match a {
            SpecJit::AllReduce { operand: ao, op: aop } => opt_ok(op, aop) && pat_matches(*operand, *ao),
            _ => false,
        },
    }
}

/// Whether component pattern `p` matches component `x`.
pub open spec fn part_matches(p: SpecPatPart, x: SpecJitPart) -> bool
    decreases p, 0nat,
{
    match (p, x) {
        (SpecPatPart::AST(Some(q)), SpecJitPart::AST(e)) => pat_matches(q, e),
        (SpecPatPart::AST(None), SpecJitPart::AST(_)) => true,
        (SpecPatPart::Const, SpecJitPart::Const(_)) => true,
        _ => false,
    }
}

/// Whether the first `k` component patterns match the first `k` components.
pub open spec fn parts_match(ps: Seq<SpecPatPart>, xs: Seq<SpecJitPart>, k: nat) -> bool
    decreases ps, k,
{
    if k == 0 || k > ps.len() || k > xs.len() {
        k == 0
    } else {
        parts_match(ps, xs, (k - 1) as nat) && part_matches(ps[k - 1], xs[k - 1])
    }
}

/// The captures after matching `p` against `a`, starting from `ctx`: each
/// `Var` met records (or replaces) its name; sub-patterns are tried left to
/// right and matching stops at the first one that fails.
pub open spec fn pat_bind(p: SpecPat, a: SpecJit, ctx: Map<Seq<char>, SpecJit>) -> Map<
    Seq<char>,
    SpecJit,
>
    decreases p, 0nat,
{
    match p {
        SpecPat::Var(n) => ctx.insert(n, a),
        SpecPat::Const { dt: c_dt, data: c_data } => match a {
            SpecJit::Const { dt, data } => if same_dtype(c_dt, dt) {
                parts_bind(c_data, data, min_len(c_data.len(), data.len()), ctx)
            } else {
                ctx
            },
            _ => ctx,
        },
        SpecPat::BinOp { lhs, rhs, op } => match a {
            SpecJit::BinOp { lhs: al, rhs: ar, op: aop } => if !opt_ok(op, aop) {
                ctx
            } else {
                let c1 = pat_bind(*lhs, *al, ctx);
                if pat_matches(*lhs, *al) {
                    pat_bind(*rhs, *ar, c1)
                } else {
                    c1
                }
            },
            _ => ctx,
        },
        SpecPat::UnaryOp { operand, op } => match a {
            SpecJit::UnaryOp { operand: ao, op: aop } => if !opt_ok(op, aop) {
                ctx
            } else {
                pat_bind(*operand, *ao, ctx)
            },
            _ => ctx,
        },
        SpecPat::Cast { operand, dt } => match a {
            SpecJit::Cast { operand: ao, dt: adt } => if !(match dt {
                Some(d) => same_dtype(d, adt),
                None => true,
            }) {
                ctx
            } else {
                pat_bind(*operand, *ao, ctx)
            },
            _ => ctx,
        },
        SpecPat::Ternary { a: pa, b: pb, c: pc, op } => match a {
            SpecJit::Ternary { a: xa, b: xb, c: xc, op: aop } => if !opt_ok(op, aop) {
                ctx
            } else {
                let c1 = pat_bind(*pa, *xa, ctx);
                if !pat_matches(*pa, *xa) {
                    c1
                } else {
                    let c2 = pat_bind(*pb, *xb, c1);
                    if !pat_matches(*pb, *xb) {
                        c2
                    } else {
                        pat_bind(*pc, *xc, c2)
                    }
                }
            },
            _ => ctx,
        },
        SpecPat::Movement { operand, op } => match a {
            SpecJit::Movement { operand: ao, op: aop } => if !(match op {
                Some(o) => o == aop,
                None => true,
            }) {
                ctx
            } else {
                pat_bind(*operand, *ao, ctx)
            },
            _ => ctx,
        },
        SpecPat::Reduce { operand, axis, op } => match a {
            SpecJit::Reduce { operand: ao, axis: aaxis, op: aop } => if !(opt_ok(axis, aaxis) && opt_ok(
                op,
                aop,
            )) {
                ctx
            } else {
                pat_bind(*operand, *ao, ctx)
            },
            _ => ctx,
        },
        SpecPat::AllReduce { operand, op } => match a {
            SpecJit::AllReduce { operand: ao, op: aop } => if !opt_ok(op, aop) {
                ctx
            } else {
                pat_bind(*operand, *ao, ctx)
            },
            _ => ctx,
        },
    }
}

/// The captures after matching component pattern `p` against `x`.
pub open spec fn part_bind(p: SpecPatPart, x: SpecJitPart, ctx: Map<Seq<char>, SpecJit>) -> Map<
    Seq<char>,
    SpecJit,
>
    decreases p, 0nat,
{
    match (p, x) {
        (SpecPatPart::AST(Some(q)), SpecJitPart::AST(e)) => pat_bind(q, e, ctx),
        _ => ctx,
    }
}

/// The captures after matching the first `k` components in order, stopping
/// after the first that fails.
pub open spec fn parts_bind(
    ps: Seq<SpecPatPart>,
    xs: Seq<SpecJitPart>,
    k: nat,
    ctx: Map<Seq<char>, SpecJit>,
) -> Map<Seq<char>, SpecJit>
    decreases ps, k,
{
    if k == 0 || k > ps.len() || k > xs.len() {
        ctx
    } else {
        let c = parts_bind(ps, xs, (k - 1) as nat, ctx);
        if parts_match(ps, xs, (k - 1) as nat) {
            part_bind(ps[k - 1], xs[k - 1], c)
        } else {
            c
        }
    }
}

/// Named captures of a match, in the order they were first recorded.
pub struct Captures {
    pub entries: Vec<(String, JitAST)>,
}

/// Index of the first entry named `k` in `s[start..]`.
pub open spec fn find_name(s: Seq<(String, JitAST)>, k: Seq<char>, start: nat) -> Option<nat>
    decreases s.len() - start,
{
    if start >= s.len() {
        None
    } else if s[start as int].0@ == k {
        Some(start)
    } else {
        find_name(s, k, start + 1)
    }
}

/// The captures as a map from names to expressions (the first entry of a
/// name counts).
pub open spec fn captures_map(s: Seq<(String, JitAST)>) -> Map<Seq<char>, SpecJit> {
    Map::new(
        |k: Seq<char>| find_name(s, k, 0) is Some,
        |k: Seq<char>| s[find_name(s, k, 0).unwrap() as int].1@,
    )
}

impl View for Captures {
    type V = Map<Seq<char>, SpecJit>;

    open spec fn view(&self) -> Map<Seq<char>, SpecJit> {
        captures_map(self.entries@)
    }
}

proof fn lemma_find_name_range(s: Seq<(String, JitAST)>, k: Seq<char>, start: nat)
    ensures
        find_name(s, k, start) matches Some(i) ==> start <= i < s.len() && s[i as int].0@ == k
            && forall|j: int| start <= j < i ==> s[j].0@ != k,
        find_name(s, k, start) is None ==> forall|j: int| start <= j < s.len() ==> s[j].0@ != k,
    decreases s.len() - start,
{
    if start < s.len() {
        lemma_find_name_range(s, k, start + 1);
    }
}

proof fn lemma_find_name_first(s: Seq<(String, JitAST)>, k: Seq<char>, start: nat, i: nat)
    requires
        start <= i < s.len(),
        s[i as int].0@ == k,
        forall|j: int| start <= j < i ==> s[j].0@ != k,
    ensures
        find_name(s, k, start) == Some(i),
    decreases i - start,
{
    if start < i {
        lemma_find_name_first(s, k, start + 1, i);
    }
}

proof fn lemma_captures_set(old_s: Seq<(String, JitAST)>, s: Seq<(String, JitAST)>, i: nat)
    requires
        i < old_s.len(),
        s.len() == old_s.len(),
        find_name(old_s, s[i as int].0@, 0) == Some(i),
        forall|j: int| 0 <= j < s.len() && j != i ==> s[j] == old_s[j],
    ensures
        captures_map(s) == captures_map(old_s).insert(s[i as int].0@, s[i as int].1@),
{
    let k = s[i as int].0@;
    lemma_find_name_range(old_s, k, 0);
    assert forall|k2: Seq<char>| #[trigger] find_name(s, k2, 0) == find_name(old_s, k2, 0) by {
        lemma_find_name_range(old_s, k2, 0);
        lemma_find_name_range(s, k2, 0);
        match find_name(old_s, k2, 0) {
            Some(j) => {
                lemma_find_name_first(s, k2, 0, j);
            },
            None => {},
        }
    }
    let m1 = captures_map(s);
    let m2 = captures_map(old_s).insert(k, s[i as int].1@);
    assert forall|k2: Seq<char>| m1.contains_key(k2) == m2.contains_key(k2) by {
        assert(find_name(s, k2, 0) == find_name(old_s, k2, 0));
    }
    assert forall|k2: Seq<char>| m1.contains_key(k2) implies m1[k2] == m2[k2] by {
        assert(find_name(s, k2, 0) == find_name(old_s, k2, 0));
        lemma_find_name_range(old_s, k2, 0);
    }
    assert(m1 =~= m2);
}

proof fn lemma_captures_push(old_s: Seq<(String, JitAST)>, s: Seq<(String, JitAST)>)
    requires
        s.len() == old_s.len() + 1,
        find_name(old_s, s.last().0@, 0) is None,
        forall|j: int| 0 <= j < old_s.len() ==> s[j] == old_s[j],
    ensures
        captures_map(s) == captures_map(old_s).insert(s.last().0@, s.last().1@),
{
    let k = s.last().0@;
    lemma_find_name_range(old_s, k, 0);
    lemma_find_name_first(s, k, 0, old_s.len());
    assert forall|k2: Seq<char>| k2 != k implies #[trigger] find_name(s, k2, 0) == find_name(
        old_s,
        k2,
        0,
    ) by {
        lemma_find_name_range(old_s, k2, 0);
        lemma_find_name_range(s, k2, 0);
        match find_name(old_s, k2, 0) {
            Some(j) => {
                lemma_find_name_first(s, k2, 0, j);
            },
            None => {
                match find_name(s, k2, 0) {
                    Some(j) => {
                        assert(j < old_s.len() || j == old_s.len());
                    },
                    None => {},
                }
            },
        }
    }
    let m1 = captures_map(s);
    let m2 = captures_map(old_s).insert(k, s.last().1@);
    assert forall|k2: Seq<char>| m1.contains_key(k2) == m2.contains_key(k2) by {
        if k2 != k {
            assert(find_name(s, k2, 0) == find_name(old_s, k2, 0));
        }
    }
    assert forall|k2: Seq<char>| m1.contains_key(k2) implies m1[k2] == m2[k2] by {
        if k2 != k {
            assert(find_name(s, k2, 0) == find_name(old_s, k2, 0));
            lemma_find_name_range(old_s, k2, 0);
        }
    }
    assert(m1 =~= m2);
}

impl Captures {
    pub fn new() -> (r: Self)
        ensures
            r@ == Map::<Seq<char>, SpecJit>::empty(),
    {
        let r = Captures { entries: Vec::new() };
        proof {
            assert(r@ =~= Map::<Seq<char>, SpecJit>::empty());
        }
        r
    }

    fn position(&self, name: &str) -> (r: Option<usize>)
        ensures
            r matches Some(i) ==> find_name(self.entries@, name@, 0) == Some(i as nat) && i
                < self.entries@.len(),
            r is None ==> find_name(self.entries@, name@, 0) is None,
    {
        let key = String::from_str(name);
        let n = self.entries.len();
        let mut i: usize = 0;
        while i < n
            invariant
                key@ == name@,
                n == self.entries@.len(),
                i <= n,
                forall|j: int| 0 <= j < i ==> self.entries@[j].0@ != name@,
            decreases n - i,
        {
            if self.entries[i].0.eq(&key) {
                proof {
                    lemma_find_name_first(self.entries@, name@, 0, i as nat);
                }
                return Some(i);
            }
            i = i + 1;
        }
        proof {
            lemma_find_name_range(self.entries@, name@, 0);
        }
        None
    }

    /// Records `value` under `name`, replacing what was there.
    pub fn insert(&mut self, name: String, value: JitAST)
        ensures
            final(self)@ == old(self)@.insert(name@, value@),
    {
        let ghost k = name@;
        let ghost old_s = self.entries@;
        match self.position(name.as_str()) {
            Some(i) => {
                self.entries.set(i, (name, value));
                proof {
                    lemma_captures_set(old_s, self.entries@, i as nat);
                }
            },
            None => {
                self.entries.push((name, value));
                proof {
                    lemma_captures_push(old_s, self.entries@);
                }
            },
        }
    }

    /// The expression captured under `name`.
    pub fn get(&self, name: &str) -> (r: Option<&JitAST>)
        ensures
            r matches Some(x) ==> self@.contains_key(name@) && self@[name@] == x@,
            r is None ==> !self@.contains_key(name@),
    {
        match self.position(name) {
            Some(i) => Some(&self.entries[i].1),
            None => None,
        }
    }
}

impl PatJitAST {
    /// Whether this pattern matches `ast`; each `Var` met on the way records
    /// the expression it matched in `ctx`.
    pub fn matches(&self, ast: &JitAST, ctx: &mut Captures) -> (r: bool)
        ensures
            r == pat_matches(self@, ast@),
            final(ctx)@ == pat_bind(self@, ast@, old(ctx)@),
        decreases self, 0nat,
    {
        match self {
            PatJitAST::Var(n) => {
                ctx.insert(n.clone(), clone_jit(ast));
                true
            },
            PatJitAST::Const(c1) => match ast {
                JitAST::Const(c2) => if c1.dt.same(&c2.dt) {
                    proof {
                        super::lemma_jit_parts_view(c2.data@);
                        lemma_pat_parts_view(c1.data@);
                    }
                    parts_matches(&c1.data, &c2.data, ctx)
                } else {
                    false
                },
                _ => false,
            },
            PatJitAST::BinOp { lhs: p_lhs, rhs: p_rhs, op: p_op } => match ast {
                JitAST::BinOp { lhs: a_lhs, rhs: a_rhs, op: a_op } => {
                    let op_ok = match p_op {
                        Some(required) => required.same(a_op),
                        None => true,
                    };
                    if !op_ok {
                        return false;
                    }
                    if !p_lhs.matches(a_lhs, ctx) {
                        return false;
                    }
                    p_rhs.matches(a_rhs, ctx)
                },
                _ => false,
            },
            PatJitAST::UnaryOp { operand: p_operand, op: p_op } => match ast {
                JitAST::UnaryOp { operand: a_operand, op: a_op } => {
                    let op_ok = match p_op {
                        Some(required) => required.same(a_op),
                        None => true,
                    };
                    if !op_ok {
                        return false;
                    }
                    p_operand.matches(a_operand, ctx)
                },
                _ => false,
            },
            PatJitAST::Cast { operand: p_operand, dt: p_dt } => match ast {
                JitAST::Cast { operand: a_operand, dt: a_dt } => {
                    let dt_ok = match p_dt {
                        Some(required) => required.same(a_dt),
                        None => true,
                    };
                    if !dt_ok {
                        return false;
                    }
                    p_operand.matches(a_operand, ctx)
                },
                _ => false,
            },
            PatJitAST::Ternary { a: p_a, b: p_b, c: p_c, op: p_op } => match ast {
                JitAST::Ternary { a: a_a, b: a_b, c: a_c, op: a_op } => {
                    let op_ok = match p_op {
                        Some(required) => required.same(a_op),
                        None => true,
                    };
                    if !op_ok {
                        return false;
                    }
                    if !p_a.matches(a_a, ctx) {
                        return false;
                    }
                    if !p_b.matches(a_b, ctx) {
                        return false;
                    }
                    p_c.matches(a_c, ctx)
                },
                _ => false,
            },
            PatJitAST::Movement { operand: p_operand, op: p_op } => match ast {
                JitAST::Movement { operand: a_operand, op: a_op } => {
                    let op_ok = match p_op {
                        Some(required) => required.same(a_op),
                        None => true,
                    };
                    if !op_ok {
                        return false;
                    }
                    p_operand.matches(a_operand, ctx)
                },
                _ => false,
            },
            PatJitAST::Reduce { operand: p_operand, axis: p_axis, op: p_op } => match ast {
                JitAST::Reduce { operand: a_operand, axis: a_axis, op: a_op } => {
                    let axis_ok = match p_axis {
                        Some(required) => *required == *a_axis,
                        None => true,
                    };
                    let op_ok = match p_op {
                        Some(required) => required.same(a_op),
                        None => true,
                    };
                    if !(axis_ok && op_ok) {
                        return false;
                    }
                    p_operand.matches(a_operand, ctx)
                },
                _ => false,
            },
            PatJitAST::AllReduce { operand: p_operand, op: p_op } => match ast {
                JitAST::AllReduce { operand: a_operand, op: a_op } => {
                    let op_ok = match p_op {
                        Some(required) => required.same(a_op),
                        None => true,
                    };
                    if !op_ok {
                        return false;
                    }
                    p_operand.matches(a_operand, ctx)
                },
                _ => false,
            },
        }
    }
}

fn part_matches_exec(p: &PatPart, x: &JitASTOrConst, ctx: &mut Captures) -> (r: bool)
    ensures
        r == part_matches(p@, x@),
        final(ctx)@ == part_bind(p@, x@, old(ctx)@),
    decreases p, 0nat,
{
    match (p, x) {
        (PatPart::AST(Some(q)), JitASTOrConst::AST(e)) => q.matches(e, ctx),
        (PatPart::AST(None), JitASTOrConst::AST(_)) => true,
        (PatPart::Const, JitASTOrConst::Const(_)) => true,
        _ => false,
    }
}

fn parts_matches(ps: &Vec<PatPart>, xs: &Vec<JitASTOrConst>, ctx: &mut Captures) -> (r: bool)
    ensures
        r == parts_match(pat_parts_view(ps@), super::jit_parts_view(xs@), min_len(ps@.len(), xs@.len())),
        final(ctx)@ == parts_bind(
            pat_parts_view(ps@),
            super::jit_parts_view(xs@),
            min_len(ps@.len(), xs@.len()),
            old(ctx)@,
        ),
    decreases ps, 1nat,
{
    let ghost xv = super::jit_parts_view(xs@);
    let ghost pv = pat_parts_view(ps@);
    let n = if ps.len() <= xs.len() {
        ps.len()
    } else {
        xs.len()
    };
    proof {
        super::lemma_jit_parts_view(xs@);
        lemma_pat_parts_view(ps@);
    }
    let mut k: usize = 0;
    while k < n
        invariant
            n == min_len(ps@.len(), xs@.len()),
            xv == super::jit_parts_view(xs@),
            xv.len() == xs@.len(),
            forall|m: int| 0 <= m < xs@.len() ==> xv[m] == xs@[m]@,
            pv == pat_parts_view(ps@),
            pv.len() == ps@.len(),
            forall|m: int| 0 <= m < ps@.len() ==> pv[m] == ps@[m]@,
            k <= n,
            parts_match(pv, xv, k as nat),
            ctx@ == parts_bind(pv, xv, k as nat, old(ctx)@),
        decreases n - k,
    {
        proof {
            vstd::std_specs::vec::axiom_vec_index_decreases(*ps, k as int);
        }
        let ok = part_matches_exec(&ps[k], &xs[k], ctx);
        if !ok {
            proof {
                assert forall|m: nat| k + 1 <= m <= n implies !parts_match(pv, xv, m) && parts_bind(
                    pv,
                    xv,
                    m,
                    old(ctx)@,
                ) == ctx@ by {
                    lemma_parts_stop(pv, xv, (k + 1) as nat, m, old(ctx)@);
                }
            }
            return false;
        }
        k = k + 1;
    }
    true
}

proof fn lemma_parts_stop(ps: Seq<SpecPatPart>, xs: Seq<SpecJitPart>, k: nat, m: nat, ctx: Map<Seq<char>, SpecJit>)
    requires
        1 <= k <= m,
        m <= ps.len(),
        m <= xs.len(),
        !parts_match(ps, xs, k),
    ensures
        !parts_match(ps, xs, m),
        parts_bind(ps, xs, m, ctx) == parts_bind(ps, xs, k, ctx),
    decreases m - k,
{
    if k < m {
        lemma_parts_stop(ps, xs, k, (m - 1) as nat, ctx);
    }
}

} // verus!
