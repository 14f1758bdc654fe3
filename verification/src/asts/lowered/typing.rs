use vstd::prelude::*;

use super::{BinOp, LoweredAST, Scope, ShaderIR, UnaryOp, VarRefType};
use crate::dt::{BasicTy, DType, IntegerTy, VecTy, spec_apply_accessor};

verus! {

/// Whether `op` yields a boolean.
pub open spec fn is_bool_op(op: BinOp) -> bool {
    match op {
        BinOp::Eq | BinOp::Ne | BinOp::Gt | BinOp::Lt | BinOp::Ge | BinOp::Le | BinOp::LogicalAnd => true,
        _ => false,
    }
}

/// The type of the entry point built-ins (`vec3<u32>`).
pub open spec fn entrypoint_dtype() -> DType {
    DType::Vector(VecTy::Vec3(BasicTy::Integer(IntegerTy::U32)))
}

/// The type of the expression `a`, following local variables at most
/// `fuel` levels deep. A comparison or `&&` is boolean, as is `!`; another
/// operation has the type of its (left) operand, a call the type of its
/// first argument, a constant its declared type, and a load the type of the
/// variable after its accessors. `None` where no type can be given: a
/// statement, an unknown variable or field, a call without arguments, or
/// locals nested deeper than `fuel`.
pub open spec fn spec_ast_dt(a: LoweredAST, ir: ShaderIR, scope: Scope, fuel: nat) -> Option<DType>
    decreases fuel, a,
{
    match a {
        LoweredAST::Load(VarRefType::EntryPointGlobal(g)) => spec_apply_accessor(
            entrypoint_dtype(),
            g.by@,
            ir.structs@,
        ),
        LoweredAST::Load(VarRefType::Local(l)) => if fuel == 0 || l.id >= scope.local_vars@.len() {
            None
        } else {
            match spec_ast_dt(scope.local_vars@[l.id as int].ast, ir, scope, (fuel - 1) as nat) {
                Some(d) => spec_apply_accessor(d, l.by@, ir.structs@),
                None => None,
            }
        },
        LoweredAST::Load(VarRefType::Shared(s)) => if s.id < ir.shared_vars@.len() {
            spec_apply_accessor(ir.shared_vars@[s.id as int].1, s.by@, ir.structs@)
        } else {
            None
        },
        LoweredAST::Load(VarRefType::Global(g)) => if g.id < ir.binded@.len() {
            spec_apply_accessor(ir.binded@[g.id as int].dtype, g.by@, ir.structs@)
        } else {
            None
        },
        LoweredAST::BinaryOp { lhs, op, .. } => if is_bool_op(op) {
            Some(DType::Basic(BasicTy::Bool))
        } else {
            spec_ast_dt(*lhs, ir, scope, fuel)
        },
        LoweredAST::UnaryOp { operand, op } => if op == UnaryOp::LogicalNot {
            Some(DType::Basic(BasicTy::Bool))
        } else {
            spec_ast_dt(*operand, ir, scope, fuel)
        },
        LoweredAST::Const { dt, .. } => Some(dt),
        LoweredAST::FunctionCall { args, .. } => if args@.len() == 0 {
            None
        } else {
            spec_ast_dt(*args@[0], ir, scope, fuel)
        },
        _ => None,
    }
}

fn ast_dt_fuel(a: &LoweredAST, ir: &ShaderIR, scope: &Scope, fuel: usize) -> (r: Option<DType>)
    ensures
        spec_ast_dt(*a, *ir, *scope, fuel as nat) == r,
    decreases fuel, a,
{
    match a {
        LoweredAST::Load(VarRefType::EntryPointGlobal(g)) => DType::Vector(
            VecTy::Vec3(BasicTy::Integer(IntegerTy::U32)),
        ).try_apply_accessor(g.by.as_slice(), ir),
        LoweredAST::Load(VarRefType::Local(l)) => {
            if fuel == 0 || l.id >= scope.local_vars.len() {
                return None;
            }
            match ast_dt_fuel(&scope.local_vars[l.id].ast, ir, scope, fuel - 1) {
                Some(inner) => inner.try_apply_accessor(l.by.as_slice(), ir),
                None => None,
            }
        },
        LoweredAST::Load(VarRefType::Shared(s)) => {
            if s.id >= ir.shared_vars.len() {
                return None;
            }
            ir.shared_vars[s.id].1.clone().try_apply_accessor(s.by.as_slice(), ir)
        },
        LoweredAST::Load(VarRefType::Global(g)) => {
            if g.id >= ir.binded.len() {
                return None;
            }
            ir.binded[g.id].dtype.clone().try_apply_accessor(g.by.as_slice(), ir)
        },
        LoweredAST::BinaryOp { lhs, op, .. } => match op {
            BinOp::Eq | BinOp::Ne | BinOp::Gt | BinOp::Lt | BinOp::Ge | BinOp::Le
            | BinOp::LogicalAnd => Some(DType::Basic(BasicTy::Bool)),
            _ => ast_dt_fuel(lhs, ir, scope, fuel),
        },
        LoweredAST::UnaryOp { operand, op } => match op {
            UnaryOp::LogicalNot => Some(DType::Basic(BasicTy::Bool)),
            _ => ast_dt_fuel(operand, ir, scope, fuel),
        },
        LoweredAST::Const { dt, .. } => Some(dt.clone()),
        LoweredAST::FunctionCall { args, .. } => {
            if args.len() == 0 {
                return None;
            }
            proof {
                vstd::std_specs::vec::axiom_vec_index_decreases(*args, 0);
            }
            ast_dt_fuel(&args[0], ir, scope, fuel)
        },
        _ => None,
    }
}

impl LoweredAST {
    /// The type of this expression in `scope` of shader `ir`, following
    /// local variables through as many levels as the scope has locals.
    pub fn dt(&self, ir: &ShaderIR, scope: &Scope) -> (r: DType)
        requires
            spec_ast_dt(*self, *ir, *scope, scope.local_vars@.len()) is Some,
        ensures
            spec_ast_dt(*self, *ir, *scope, scope.local_vars@.len()) == Some(r),
    {
        self.try_dt(ir, scope).unwrap()
    }

    /// The type of this expression, as `dt` gives it; `None` where it has
    /// none (a statement, an unknown variable or field, a call without
    /// arguments).
    pub fn try_dt(&self, ir: &ShaderIR, scope: &Scope) -> (r: Option<DType>)
        ensures
            spec_ast_dt(*self, *ir, *scope, scope.local_vars@.len()) == r,
    {
        ast_dt_fuel(self, ir, scope, scope.local_vars.len())
    }
}

} // verus!
