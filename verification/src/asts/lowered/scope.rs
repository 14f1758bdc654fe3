use vstd::prelude::*;

use super::{
    LoweredAST, LoweredASTOrConst, ScopePtr, SpecAST, SpecVarRef, SpecVarRefType, VarRef, VarRefType,
    boxed_asts_view, asts_view, clone_ast, const_parts_view,
};
use crate::text::{decimal, push_decimal};
use crate::asts::IntoWgslStruct;

verus! {

/// A local variable declared in a scope.
pub struct LocalVariables {
    pub name: String,
    pub mut_: bool,
    pub ast: LoweredAST,
}

/// A block of the lowered program: its statement, its local variables (the
/// first `num_inherited_locals` of which come from the enclosing scope) and
/// the nested scopes that its control flow jumps to.
pub struct Scope {
    pub ast: Option<LoweredAST>,
    pub local_vars: Vec<LocalVariables>,
    pub num_inherited_locals: usize,
    pub child_scopes: Vec<Scope>,
}

/// A local variable as name, mutability and initial value.
pub open spec fn local_view(v: LocalVariables) -> (Seq<char>, bool, SpecAST) {
    (v.name@, v.mut_, v.ast@)
}

pub open spec fn locals_view(s: Seq<LocalVariables>) -> Seq<(Seq<char>, bool, SpecAST)> {
    s.map_values(|v: LocalVariables| local_view(v))
}

/// Mathematical model of a [`Scope`].
pub struct SpecScope {
    pub ast: Option<SpecAST>,
    pub locals: Seq<(Seq<char>, bool, SpecAST)>,
    pub inherited: nat,
    pub children: Seq<SpecScope>,
}

/// The model of a scope: its statement, locals and children by their views.
pub open spec fn scope_view(s: Scope) -> SpecScope
    decreases s, 1nat,
{
    SpecScope {
        ast: match s.ast {
            Some(a) => Some(a@),
            None => None,
        },
        locals: locals_view(s.local_vars@),
        inherited: s.num_inherited_locals as nat,
        children: scopes_view(s.child_scopes@),
    }
}

/// The models of a list of scopes.
pub open spec fn scopes_view(s: Seq<Scope>) -> Seq<SpecScope>
    decreases s, 0nat,
{
    if s.len() == 0 {
        Seq::empty()
    } else {
        scopes_view(s.subrange(0, s.len() - 1)).push(scope_view(s[s.len() - 1]))
    }
}

/// The models of a list of scopes: one per scope, in order.
pub proof fn lemma_scopes_view(s: Seq<Scope>)
    ensures
        scopes_view(s).len() == s.len(),
        forall|i: int| 0 <= i < s.len() ==> #[trigger] scopes_view(s)[i] == scope_view(s[i]),
    decreases s.len(),
{
    if s.len() > 0 {
        lemma_scopes_view(s.subrange(0, s.len() - 1));
    }
}

fn clone_locals(v: &Vec<LocalVariables>) -> (r: Vec<LocalVariables>)
    ensures
        locals_view(r@) == locals_view(v@),
{
    let mut out: Vec<LocalVariables> = Vec::new();
    let n = v.len();
    let mut i: usize = 0;
    while i < n
        invariant
            n == v@.len(),
            i <= n,
            out@.len() == i,
            forall|k: int| 0 <= k < i ==> local_view(#[trigger] out@[k]) == local_view(v@[k]),
        decreases n - i,
    {
        let l = &v[i];
        out.push(LocalVariables { name: l.name.clone(), mut_: l.mut_, ast: clone_ast(&l.ast) });
        i = i + 1;
    }
    proof {
        assert(locals_view(out@) =~= locals_view(v@));
    }
    out
}

/// A fresh child of `parent`: no statement, no children, and the parent's
/// locals, all counted as inherited.
pub open spec fn is_fresh_child_of(child: Scope, parent: Scope) -> bool {
    &&& child.ast is None
    &&& locals_view(child.local_vars@) == locals_view(parent.local_vars@)
    &&& child.num_inherited_locals == parent.local_vars@.len()
    &&& child.child_scopes@.len() == 0
}

/// `child` is `built` given the statement `t`.
pub open spec fn with_statement(child: Scope, built: Scope, t: LoweredAST) -> bool {
    &&& child.ast == Some(t)
    &&& child.local_vars == built.local_vars
    &&& child.num_inherited_locals == built.num_inherited_locals
    &&& child.child_scopes == built.child_scopes
}

/// `new` is `old` with one child appended, all else unchanged.
pub open spec fn appended_child(old: Scope, new: Scope) -> bool {
    &&& new.ast == old.ast
    &&& new.local_vars == old.local_vars
    &&& new.num_inherited_locals == old.num_inherited_locals
    &&& new.child_scopes@.len() == old.child_scopes@.len() + 1
    &&& new.child_scopes@.drop_last() == old.child_scopes@
}

impl Scope {
    /// An empty top-level scope.
    pub fn new() -> (r: Self)
        ensures
            r.ast is None,
            r.local_vars@.len() == 0,
            r.num_inherited_locals == 0,
            r.child_scopes@.len() == 0,
    {
        Self { ast: None, local_vars: Vec::new(), num_inherited_locals: 0, child_scopes: Vec::new() }
    }

    /// Declares a local variable and returns its index.
    pub fn add_local(&mut self, name: String, mut_: bool, ast: LoweredAST) -> (r: usize)
        ensures
            r == old(self).local_vars@.len(),
            final(self).local_vars@ == old(self).local_vars@.push(
                LocalVariables { name, mut_, ast },
            ),
            final(self).ast == old(self).ast,
            final(self).num_inherited_locals == old(self).num_inherited_locals,
            final(self).child_scopes == old(self).child_scopes,
    {
        let id = self.local_vars.len();
        self.local_vars.push(LocalVariables { name, mut_, ast });
        id
    }

    /// A fresh child of this scope, not yet attached to it.
    pub fn fresh_child(&self) -> (r: Scope)
        ensures
            is_fresh_child_of(r, *self),
    {
        Scope {
            ast: None,
            local_vars: clone_locals(&self.local_vars),
            num_inherited_locals: self.local_vars.len(),
            child_scopes: Vec::new(),
        }
    }

    /// Opens a child scope that inherits this scope's locals and returns its
    /// index among the children.
    pub fn new_scope(&mut self) -> (r: usize)
        ensures
            r == old(self).child_scopes@.len(),
            appended_child(*old(self), *final(self)),
            is_fresh_child_of(final(self).child_scopes@.last(), *old(self)),
    {
        let child = self.fresh_child();
        self.child_scopes.push(child);
        proof {
            assert(self.child_scopes@.drop_last() =~= old(self).child_scopes@);
        }
        self.child_scopes.len() - 1
    }

    /// `if (cond) { then }`: the body is built by `then` in a fresh child
    /// scope, whose statement becomes what `then` returns.
    pub fn if_(&mut self, cond: LoweredAST, then: impl FnOnce(&mut Self) -> LoweredAST) -> (r: LoweredAST)
        requires
            forall|s: &mut Scope| then.requires((s,)),
        ensures
            r@ == (SpecAST::Conditional {
                cond: Box::new(cond@),
                true_block: old(self).child_scopes@.len() as usize,
                else_block: None,
            }),
            appended_child(*old(self), *final(self)),
            exists|c: &mut Scope, t: LoweredAST|
                #![trigger then.ensures((c,), t)]
                is_fresh_child_of(*c, *old(self)) && then.ensures((c,), t)
                    && with_statement(final(self).child_scopes@.last(), *final(c), t),
    {
        let mut child = self.fresh_child();
        let ast = then(&mut child);
        child.ast = Some(ast);
        self.child_scopes.push(child);
        proof {
            assert(self.child_scopes@.drop_last() =~= old(self).child_scopes@);
        }
        let ptr = ScopePtr(self.child_scopes.len() - 1);
        LoweredAST::Conditional { cond: Box::new(cond), true_block: ptr, else_block: None }
    }

    /// Attaches an `else` branch, built by `el` in a fresh child scope, to
    /// the conditional `chain`.
    pub fn else_(&mut self, chain: LoweredAST, el: impl FnOnce(&mut Self) -> LoweredAST) -> (r: LoweredAST)
        requires
            chain is Conditional,
            forall|s: &mut Scope| el.requires((s,)),
        ensures
            r@ == match chain@ {
                SpecAST::Conditional { cond, true_block, .. } => SpecAST::Conditional {
                    cond,
                    true_block,
                    else_block: Some(old(self).child_scopes@.len() as usize),
                },
                other => other,
            },
            appended_child(*old(self), *final(self)),
            exists|c: &mut Scope, t: LoweredAST|
                #![trigger el.ensures((c,), t)]
                is_fresh_child_of(*c, *old(self)) && el.ensures((c,), t)
                    && with_statement(final(self).child_scopes@.last(), *final(c), t),
    {
        let mut child = self.fresh_child();
        let ast = el(&mut child);
        child.ast = Some(ast);
        self.child_scopes.push(child);
        proof {
            assert(self.child_scopes@.drop_last() =~= old(self).child_scopes@);
        }
        let ptr = ScopePtr(self.child_scopes.len() - 1);
        match chain {
            LoweredAST::Conditional { cond, true_block, else_block: _ } => LoweredAST::Conditional {
                cond,
                true_block,
                else_block: Some(ptr),
            },
            other => other,
        }
    }

    /// `while (cond) { body }`, the body built by `body` in a fresh child scope.
    pub fn while_loop(&mut self, cond: LoweredAST, body: impl FnOnce(&mut Self) -> LoweredAST) -> (r:
        LoweredAST)
        requires
            forall|s: &mut Scope| body.requires((s,)),
        ensures
            r@ == (SpecAST::WhileLoop {
                cond: Box::new(cond@),
                body: old(self).child_scopes@.len() as usize,
            }),
            appended_child(*old(self), *final(self)),
            exists|c: &mut Scope, t: LoweredAST|
                #![trigger body.ensures((c,), t)]
                is_fresh_child_of(*c, *old(self)) && body.ensures((c,), t)
                    && with_statement(final(self).child_scopes@.last(), *final(c), t),
    {
        let mut child = self.fresh_child();
        let ast = body(&mut child);
        child.ast = Some(ast);
        self.child_scopes.push(child);
        proof {
            assert(self.child_scopes@.drop_last() =~= old(self).child_scopes@);
        }
        let ptr = ScopePtr(self.child_scopes.len() - 1);
        LoweredAST::WhileLoop { cond: Box::new(cond), body: ptr }
    }

    /// `for (init; halt_cond; increment) { body }`. `body` fills a fresh
    /// child scope, statement included.
    pub fn for_loop(
        &mut self,
        init: Option<LoweredAST>,
        halt_cond: Option<LoweredAST>,
        increment: Option<LoweredAST>,
        body: impl FnOnce(&mut Self),
    ) -> (r: LoweredAST)
        requires
            forall|s: &mut Scope| body.requires((s,)),
        ensures
            r@ == (SpecAST::ForLoop {
                init: match init {
                    Some(i) => Some(Box::new(i@)),
                    None => None,
                },
                halt_cond: match halt_cond {
                    Some(h) => Some(Box::new(h@)),
                    None => None,
                },
                increment: match increment {
                    Some(i) => Some(Box::new(i@)),
                    None => None,
                },
                body: old(self).child_scopes@.len() as usize,
            }),
            appended_child(*old(self), *final(self)),
            exists|c: &mut Scope|
                #![trigger body.ensures((c,), ())]
                is_fresh_child_of(*c, *old(self)) && body.ensures((c,), ())
                    && final(self).child_scopes@.last() == *final(c),
    {
        let mut child = self.fresh_child();
        body(&mut child);
        self.child_scopes.push(child);
        proof {
            assert(self.child_scopes@.drop_last() =~= old(self).child_scopes@);
        }
        let ptr = ScopePtr(self.child_scopes.len() - 1);
        let init_b = box_opt(init);
        let halt_b = box_opt(halt_cond);
        let incr_b = box_opt(increment);
        LoweredAST::ForLoop { init: init_b, halt_cond: halt_b, increment: incr_b, body: ptr }
    }

    /// Attaches `child` as the last child scope and returns its index.
    pub fn push_child(&mut self, child: Scope) -> (r: usize)
        ensures
            r == old(self).child_scopes@.len(),
            final(self).child_scopes@ == old(self).child_scopes@.push(child),
            final(self).ast == old(self).ast,
            final(self).local_vars == old(self).local_vars,
            final(self).num_inherited_locals == old(self).num_inherited_locals,
    {
        let r = self.child_scopes.len();
        self.child_scopes.push(child);
        r
    }

    /// Declares an immutable local `_v<index>` holding `ast`.
    pub fn var(&mut self, ast: LoweredAST) -> (r: usize)
        ensures
            r == old(self).local_vars@.len(),
            final(self).local_vars@.len() == r + 1,
            final(self).local_vars@.drop_last() == old(self).local_vars@,
            local_view(final(self).local_vars@[r as int]) == ("_v"@ + decimal(r as nat), false, ast@),
            final(self).ast == old(self).ast,
            final(self).num_inherited_locals == old(self).num_inherited_locals,
            final(self).child_scopes == old(self).child_scopes,
    {
        let mut name = String::new();
        name.append("_v");
        push_decimal(&mut name, self.local_vars.len());
        proof {
            assert(Seq::<char>::empty() + "_v"@ =~= "_v"@);
        }
        let ghost g = ast@;
        let r = self.add_local(name, false, ast);
        proof {
            assert(self.local_vars@.drop_last() =~= old(self).local_vars@);
        }
        r
    }

    /// Declares a mutable local `_m<index>` holding `ast`.
    pub fn mut_(&mut self, ast: LoweredAST) -> (r: usize)
        ensures
            r == old(self).local_vars@.len(),
            final(self).local_vars@.len() == r + 1,
            final(self).local_vars@.drop_last() == old(self).local_vars@,
            local_view(final(self).local_vars@[r as int]) == ("_m"@ + decimal(r as nat), true, ast@),
            final(self).ast == old(self).ast,
            final(self).num_inherited_locals == old(self).num_inherited_locals,
            final(self).child_scopes == old(self).child_scopes,
    {
        let mut name = String::new();
        name.append("_m");
        push_decimal(&mut name, self.local_vars.len());
        proof {
            assert(Seq::<char>::empty() + "_m"@ =~= "_m"@);
        }
        let r = self.add_local(name, true, ast);
        proof {
            assert(self.local_vars@.drop_last() =~= old(self).local_vars@);
        }
        r
    }
}

fn box_opt(o: Option<LoweredAST>) -> (r: Option<Box<LoweredAST>>)
    ensures
        super::opt_ast_view(r) == match o {
            Some(i) => Some(Box::new(i@)),
            None => None,
        },
{
    match o {
        Some(i) => Some(Box::new(i)),
        None => None,
    }
}

/// A reference to local variable `id`.
pub fn local(id: usize) -> (r: VarRefType)
    ensures
        r@ == SpecVarRefType::Local(SpecVarRef { id, by: Seq::empty() }),
        r matches VarRefType::Local(v) && v.id == id && v.by@.len() == 0,
{
    let r = VarRefType::Local(VarRef { id, by: Vec::new() });
    proof {
        assert(r@ =~= SpecVarRefType::Local(SpecVarRef { id, by: Seq::empty() }));
    }
    r
}

/// A reference to shared variable `id`.
pub fn shared(id: usize) -> (r: VarRefType)
    ensures
        r@ == SpecVarRefType::Shared(SpecVarRef { id, by: Seq::empty() }),
        r matches VarRefType::Shared(v) && v.id == id && v.by@.len() == 0,
{
    VarRefType::Shared(VarRef { id, by: Vec::new() })
}

/// A reference to bound buffer `id`.
pub fn global(id: usize) -> (r: VarRefType)
    ensures
        r@ == SpecVarRefType::Global(SpecVarRef { id, by: Seq::empty() }),
        r matches VarRefType::Global(v) && v.id == id && v.by@.len() == 0,
{
    VarRefType::Global(VarRef { id, by: Vec::new() })
}

/// A reference to entry point built-in `id`.
pub fn entrypoint(id: usize) -> (r: VarRefType)
    ensures
        r@ == SpecVarRefType::EntryPointGlobal(SpecVarRef { id, by: Seq::empty() }),
        r matches VarRefType::EntryPointGlobal(v) && v.id == id && v.by@.len() == 0,
{
    VarRefType::EntryPointGlobal(VarRef { id, by: Vec::new() })
}

proof fn lemma_boxed_view(b: Seq<Box<LoweredAST>>, a: Seq<LoweredAST>)
    requires
        b.len() == a.len(),
        forall|k: int| 0 <= k < b.len() ==> *b[k] == a[k],
    ensures
        boxed_asts_view(b) == asts_view(a),
    decreases b.len(),
{
    if b.len() > 0 {
        lemma_boxed_view(b.drop_last(), a.drop_last());
    }
}

/// Boxes each element, keeping the order.
pub fn box_all(args: Vec<LoweredAST>) -> (r: Vec<Box<LoweredAST>>)
    ensures
        boxed_asts_view(r@) == asts_view(args@),
        r@.len() == args@.len(),
        forall|k: int| 0 <= k < r@.len() ==> *#[trigger] r@[k] == args@[k],
{
    let ghost all = args@;
    let n = args.len();
    let mut args = args;
    let mut rev: Vec<LoweredAST> = Vec::new();
    while args.len() > 0
        invariant
            all.len() == n,
            args@ == all.take(args@.len() as int),
            rev@.len() + args@.len() == n,
            forall|k: int| 0 <= k < rev@.len() ==> rev@[k] == all[n - 1 - k],
        decreases args.len(),
    {
        let x = args.pop().unwrap();
        rev.push(x);
        proof {
            assert(args@ =~= all.take(args@.len() as int));
        }
    }
    let mut boxed: Vec<Box<LoweredAST>> = Vec::new();
    while rev.len() > 0
        invariant
            all.len() == n,
            boxed@.len() + rev@.len() == n,
            forall|k: int| 0 <= k < rev@.len() ==> rev@[k] == all[n - 1 - k],
            forall|k: int| 0 <= k < boxed@.len() ==> *boxed@[k] == all[k],
        decreases rev.len(),
    {
        let x = rev.pop().unwrap();
        boxed.push(Box::new(x));
    }
    proof {
        lemma_boxed_view(boxed@, all);
    }
    boxed
}

/// A call of the function `ident` with `args`.
pub fn call(ident: &str, args: Vec<LoweredAST>) -> (r: LoweredAST)
    ensures
        r@ == (SpecAST::FunctionCall { ident: ident@, args: asts_view(args@) }),
        r matches LoweredAST::FunctionCall { ident: i, args: a } && i@ == ident@ && a@.len() == args@.len()
            && forall|k: int| 0 <= k < a@.len() ==> *#[trigger] a@[k] == args@[k],
{
    LoweredAST::FunctionCall { ident: ident.to_owned(), args: box_all(args) }
}

/// A sequence of statements.
pub fn group(stmts: Vec<LoweredAST>) -> (r: LoweredAST)
    ensures
        r@ == SpecAST::Group(asts_view(stmts@)),
        r == LoweredAST::Group(stmts),
{
    LoweredAST::Group(stmts)
}

/// A constant of the type `T` maps to, built from `data`.
pub fn cast<T: IntoWgslStruct>(data: Vec<LoweredASTOrConst>) -> (r: LoweredAST)
    requires
        T::dt_defined(),
    ensures
        r@ == (SpecAST::Const { dt: T::spec_dt(), data: const_parts_view(data@) }),
        r == (LoweredAST::Const { dt: T::spec_dt(), data }),
{
    LoweredAST::Const { dt: T::dt(), data }
}

} // verus!
