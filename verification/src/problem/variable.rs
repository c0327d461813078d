//! Variables of a problem.

use crate::parser::position::Position;
use crate::parser::position::SpecPosition;
use crate::parser::position::copy_pos;
use crate::parser::position::opt_pos;
use crate::problem::expression::expr::Expr;
use crate::problem::expression::expr::SpecExpr;
use crate::problem::ids::VariableId;
use crate::problem::typing::SpecType;
use crate::problem::typing::Type;
use vstd::prelude::*;

verus! {

pub struct Variable {
    pub id: VariableId,
    pub name: String,
    pub typ: Type,
    pub expr: Option<Expr>,
    pub position: Option<Position>,
}

pub struct SpecVariable {
    pub id: VariableId,
    pub name: Seq<char>,
    pub typ: SpecType,
    pub expr: Option<SpecExpr>,
    pub position: Option<SpecPosition>,
}

/// View of an optional expression.
pub open spec fn opt_expr(e: Option<Expr>) -> Option<SpecExpr> {
    match e {
        Some(e) => Some(e@),
        None => None,
    }
}

/// A copy of an optional expression.
pub fn copy_opt_expr(e: &Option<Expr>) -> (r: Option<Expr>)
    ensures
        opt_expr(r) == opt_expr(*e),
{
    match e {
        Some(e) => Some(e.copy()),
        None => None,
    }
}

impl View for Variable {
    type V = SpecVariable;

    open spec fn view(&self) -> SpecVariable {
        SpecVariable {
            id: self.id,
            name: self.name@,
            typ: self.typ@,
            expr: opt_expr(self.expr),
            position: opt_pos(self.position),
        }
    }
}

impl Variable {
    pub fn new(name: String, typ: Type, expr: Option<Expr>, position: Option<Position>) -> (r:
        Variable)
        ensures
            r.id == VariableId(0),
            r.name@ == name@,
            r.typ@ == typ@,
            opt_expr(r.expr) == opt_expr(expr),
            opt_pos(r.position) == opt_pos(position),
    {
        Variable { id: VariableId(0), name, typ, expr, position }
    }

    pub fn set_id(&mut self, id: VariableId)
        ensures
            final(self)@ == (SpecVariable { id, ..old(self)@ }),
    {
        self.id = id;
    }

    pub fn id(&self) -> (r: VariableId)
        ensures
            r == self.id,
    {
        self.id
    }

    pub fn name(&self) -> (r: &str)
        ensures
            r@ == self.name@,
    {
        self.name.as_str()
    }

    pub fn typ(&self) -> (r: &Type)
        ensures
            r@ == self.typ@,
    {
        &self.typ
    }

    pub fn expr(&self) -> (r: &Option<Expr>)
        ensures
            opt_expr(*r) == opt_expr(self.expr),
    {
        &self.expr
    }

    pub fn position(&self) -> (r: &Option<Position>)
        ensures
            opt_pos(*r) == opt_pos(self.position),
    {
        &self.position
    }

    pub fn set_expr(&mut self, expr: Option<Expr>)
        ensures
            final(self)@ == (SpecVariable { expr: opt_expr(expr), ..old(self)@ }),
    {
        self.expr = expr;
    }

    pub fn copy(&self) -> (r: Variable)
        ensures
            r@ == self@,
    {
        Variable {
            id: self.id,
            name: self.name.clone(),
            typ: self.typ.copy(),
            expr: copy_opt_expr(&self.expr),
            position: copy_pos(&self.position),
        }
    }
}

} // verus!
