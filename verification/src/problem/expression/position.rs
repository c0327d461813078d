//! Where an expression was written.

use crate::parser::position::Position;
use crate::parser::position::SpecPosition;
use crate::parser::position::copy_pos;
use crate::parser::position::opt_pos;
use crate::problem::expression::expr::Expr;
use crate::problem::expression::expr::SpecExpr;
use crate::problem::instance::Instance;
use crate::problem::parameter::Parameter;
use crate::problem::variable::Variable;
use vstd::prelude::*;

verus! {

/// Where the expression was written, if known; a conversion to a class has
/// no position of its own.
pub open spec fn spec_expr_position(e: SpecExpr) -> Option<SpecPosition> {
    match e {
        SpecExpr::BoolValue(_, p) => p,
        SpecExpr::IntValue(_, p) => p,
        SpecExpr::RealValue(_, p) => p,
        SpecExpr::Unary(_, _, p) => p,
        SpecExpr::Binary(_, _, _, p) => p,
        SpecExpr::FunctionCall(_, _, p) => p,
        SpecExpr::Variable(_, p) => p,
        SpecExpr::Parameter(x) => x.position,
        SpecExpr::Instance(_, p) => p,
        SpecExpr::StrucSelf(_, p) => p,
        SpecExpr::StrucAttribute(_, _, p) => p,
        SpecExpr::StrucMetCall(_, _, _, p) => p,
        SpecExpr::ClassSelf(_, p) => p,
        SpecExpr::ClassAttribute(_, _, p) => p,
        SpecExpr::ClassMetCall(_, _, _, p) => p,
        SpecExpr::AsClass(_, _) => None,
        SpecExpr::AsInterval(_, _, _, p) => p,
        SpecExpr::AsInt(_, p) => p,
        SpecExpr::AsReal(_, p) => p,
        SpecExpr::IfThenElse(_, _, _, _, p) => p,
        SpecExpr::Quantifier(_, _, _, p) => p,
        SpecExpr::Unresolved(_, p) => p,
        SpecExpr::UnresolvedFunCall(_, _, p) => p,
        SpecExpr::UnresolvedAttribute(_, _, p) => p,
        SpecExpr::UnresolvedMethCall(_, _, _, p) => p,
    }
}

impl Expr {
    /// Where the expression was written, if known.
    pub fn position(&self) -> (r: Option<Position>)
        ensures
            opt_pos(r) == spec_expr_position(self@),
    {
        match self {
            Expr::BoolValue(_, p) => copy_pos(p),
            Expr::IntValue(_, p) => copy_pos(p),
            Expr::RealValue(_, p) => copy_pos(p),
            Expr::Unary(_, _, p) => copy_pos(p),
            Expr::Binary(_, _, _, p) => copy_pos(p),
            Expr::FunctionCall(_, _, p) => copy_pos(p),
            Expr::Variable(_, p) => copy_pos(p),
            Expr::Parameter(x) => copy_pos(&x.position),
            Expr::Instance(_, p) => copy_pos(p),
            Expr::StrucSelf(_, p) => copy_pos(p),
            Expr::StrucAttribute(_, _, p) => copy_pos(p),
            Expr::StrucMetCall(_, _, _, p) => copy_pos(p),
            Expr::ClassSelf(_, p) => copy_pos(p),
            Expr::ClassAttribute(_, _, p) => copy_pos(p),
            Expr::ClassMetCall(_, _, _, p) => copy_pos(p),
            Expr::AsClass(_, _) => None,
            Expr::AsInterval(_, _, _, p) => copy_pos(p),
            Expr::AsInt(_, p) => copy_pos(p),
            Expr::AsReal(_, p) => copy_pos(p),
            Expr::IfThenElse(_, _, _, _, p) => copy_pos(p),
            Expr::Quantifier(_, _, _, p) => copy_pos(p),
            Expr::Unresolved(_, p) => copy_pos(p),
            Expr::UnresolvedFunCall(_, _, p) => copy_pos(p),
            Expr::UnresolvedAttribute(_, _, p) => copy_pos(p),
            Expr::UnresolvedMethCall(_, _, _, p) => copy_pos(p),
        }
    }
}

} // verus!
