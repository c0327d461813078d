//! Named constraints of a problem.

use crate::parser::position::Position;
use crate::parser::position::SpecPosition;
use crate::parser::position::copy_pos;
use crate::parser::position::opt_pos;
use crate::problem::expression::expr::Expr;
use crate::problem::expression::expr::SpecExpr;
use crate::problem::ids::ConstraintId;
use vstd::prelude::*;

verus! {

pub struct Constraint {
    pub id: ConstraintId,
    pub name: String,
    pub expr: Expr,
    pub position: Option<Position>,
}

pub struct SpecConstraint {
    pub id: ConstraintId,
    pub name: Seq<char>,
    pub expr: SpecExpr,
    pub position: Option<SpecPosition>,
}

impl View for Constraint {
    type V = SpecConstraint;

    open spec fn view(&self) -> SpecConstraint {
        SpecConstraint {
            id: self.id,
            name: self.name@,
            expr: self.expr@,
            position: opt_pos(self.position),
        }
    }
}

impl Constraint {
    pub fn new(name: String, expr: Expr, position: Option<Position>) -> (r: Constraint)
        ensures
            r@ == (SpecConstraint {
                id: ConstraintId(0),
                name: name@,
                expr: expr@,
                position: opt_pos(position),
            }),
    {
        Constraint { id: ConstraintId(0), name, expr, position }
    }

    pub fn set_id(&mut self, id: ConstraintId)
        ensures
            final(self)@ == (SpecConstraint { id, ..old(self)@ }),
    {
        self.id = id;
    }

    pub fn id(&self) -> (r: ConstraintId)
        ensures
            r == self.id,
    {
        self.id
    }

    pub fn name(&self) -> (r: &str)
        ensures
            r@ == self.name@,
    {
        self.name.as_str()
    }

    pub fn expr(&self) -> (r: &Expr)
        ensures
            r@ == self.expr@,
    {
        &self.expr
    }

    pub fn position(&self) -> (r: &Option<Position>)
        ensures
            opt_pos(*r) == opt_pos(self.position),
    {
        &self.position
    }

    pub fn copy(&self) -> (r: Constraint)
        ensures
            r@ == self@,
    {
        Constraint {
            id: self.id,
            name: self.name.clone(),
            expr: self.expr.copy(),
            position: copy_pos(&self.position),
        }
    }
}

} // verus!
