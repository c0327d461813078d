//! Attributes of structures and classes.

use crate::parser::position::Position;
use crate::parser::position::SpecPosition;
use crate::parser::position::copy_pos;
use crate::parser::position::opt_pos;
use crate::problem::expression::expr::Expr;
use crate::problem::expression::expr::SpecExpr;
use crate::problem::ids::AttributeId;
use crate::problem::ids::Id;
use crate::problem::typing::SpecType;
use crate::problem::typing::Type;
use crate::problem::variable::copy_opt_expr;
use crate::problem::variable::opt_expr;
use vstd::prelude::*;

verus! {

pub struct Attribute<T: Id> {
    pub id: AttributeId<T>,
    pub name: String,
    pub typ: Type,
    pub expr: Option<Expr>,
    pub position: Option<Position>,
}

pub struct SpecAttribute<T: Id> {
    pub id: AttributeId<T>,
    pub name: Seq<char>,
    pub typ: SpecType,
    pub expr: Option<SpecExpr>,
    pub position: Option<SpecPosition>,
}

impl<T: Id> View for Attribute<T> {
    type V = SpecAttribute<T>;

    open spec fn view(&self) -> SpecAttribute<T> {
        SpecAttribute {
            id: self.id,
            name: self.name@,
            typ: self.typ@,
            expr: opt_expr(self.expr),
            position: opt_pos(self.position),
        }
    }
}

/// View of a list of attributes.
pub open spec fn attrs_view<T: Id>(s: Seq<Attribute<T>>) -> Seq<SpecAttribute<T>> {
    s.map_values(|a: Attribute<T>| a@)
}

/// The names of a list of attributes.
pub open spec fn attr_names<T: Id>(s: Seq<SpecAttribute<T>>) -> Seq<Seq<char>> {
    s.map_values(|a: SpecAttribute<T>| a.name)
}

/// The identifiers of a list of attributes.
pub open spec fn attr_ids<T: Id>(s: Seq<SpecAttribute<T>>) -> Seq<AttributeId<T>> {
    s.map_values(|a: SpecAttribute<T>| a.id)
}

impl<T: Id> Attribute<T> {
    pub fn new(name: String, typ: Type, expr: Option<Expr>, position: Option<Position>) -> (r:
        Attribute<T>)
        ensures
            r.name@ == name@,
            r.typ@ == typ@,
            opt_expr(r.expr) == opt_expr(expr),
            opt_pos(r.position) == opt_pos(position),
    {
        Attribute { id: AttributeId::empty(), name, typ, expr, position }
    }

    pub fn id(&self) -> (r: AttributeId<T>)
        ensures
            r == self.id,
    {
        self.id
    }

    pub fn set_id(&mut self, id: AttributeId<T>)
        ensures
            final(self)@ == (SpecAttribute { id, ..old(self)@ }),
    {
        self.id = id;
    }

    pub fn name(&self) -> (r: &str)
        ensures
            r@ == self.name@,
    {
        self.name.as_str()
    }

    pub fn typ(&self) -> (r: &Type)
        ensures
            r@ == self.typ@,
    {
        &self.typ
    }

    pub fn expr(&self) -> (r: &Option<Expr>)
        ensures
            opt_expr(*r) == opt_expr(self.expr),
    {
        &self.expr
    }

    pub fn position(&self) -> (r: &Option<Position>)
        ensures
            opt_pos(*r) == opt_pos(self.position),
    {
        &self.position
    }

    pub fn copy(&self) -> (r: Attribute<T>)
        ensures
            r@ == self@,
    {
        Attribute {
            id: self.id,
            name: self.name.clone(),
            typ: self.typ.copy(),
            expr: copy_opt_expr(&self.expr),
            position: copy_pos(&self.position),
        }
    }
}

} // verus!
