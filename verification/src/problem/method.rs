//! Methods of structures and classes.

use crate::parser::position::Position;
use crate::parser::position::SpecPosition;
use crate::parser::position::copy_pos;
use crate::parser::position::opt_pos;
use crate::problem::expression::expr::Expr;
use crate::problem::expression::expr::SpecExpr;
use crate::problem::ids::Id;
use crate::problem::ids::MethodId;
use crate::problem::parameter::Parameter;
use crate::problem::parameter::SpecParameter;
use crate::problem::parameter::copy_params;
use crate::problem::parameter::params_types;
use crate::problem::parameter::params_view;
use crate::problem::typing::SpecType;
use crate::problem::typing::Type;
use crate::problem::typing::types_view;
use crate::problem::variable::copy_opt_expr;
use crate::problem::variable::opt_expr;
use vstd::prelude::*;

verus! {

pub struct Method<T: Id> {
    pub id: MethodId<T>,
    pub name: String,
    pub parameters: Vec<Parameter>,
    pub typ: Type,
    pub expr: Option<Expr>,
    pub position: Option<Position>,
}

pub struct SpecMethod<T: Id> {
    pub id: MethodId<T>,
    pub name: Seq<char>,
    pub parameters: Seq<SpecParameter>,
    pub typ: SpecType,
    pub expr: Option<SpecExpr>,
    pub position: Option<SpecPosition>,
}

impl<T: Id> View for Method<T> {
    type V = SpecMethod<T>;

    open spec fn view(&self) -> SpecMethod<T> {
        SpecMethod {
            id: self.id,
            name: self.name@,
            parameters: params_view(self.parameters@),
            typ: self.typ@,
            expr: opt_expr(self.expr),
            position: opt_pos(self.position),
        }
    }
}

/// View of a list of methods.
pub open spec fn meths_view<T: Id>(s: Seq<Method<T>>) -> Seq<SpecMethod<T>> {
    s.map_values(|m: Method<T>| m@)
}

/// The names of a list of methods.
pub open spec fn meth_names<T: Id>(s: Seq<SpecMethod<T>>) -> Seq<Seq<char>> {
    s.map_values(|m: SpecMethod<T>| m.name)
}

/// The identifiers of a list of methods.
pub open spec fn meth_ids<T: Id>(s: Seq<SpecMethod<T>>) -> Seq<MethodId<T>> {
    s.map_values(|m: SpecMethod<T>| m.id)
}

impl<T: Id> Method<T> {
    pub fn new(name: String, typ: Type, expr: Option<Expr>, position: Option<Position>) -> (r:
        Method<T>)
        ensures
            r.name@ == name@,
            r@.parameters == Seq::<SpecParameter>::empty(),
            r.typ@ == typ@,
            opt_expr(r.expr) == opt_expr(expr),
            opt_pos(r.position) == opt_pos(position),
    {
        let r = Method {
            id: MethodId::empty(),
            name,
            parameters: Vec::new(),
            typ,
            expr,
            position,
        };
        assert(params_view(r.parameters@) =~= seq![]);
        r
    }

    pub fn id(&self) -> (r: MethodId<T>)
        ensures
            r == self.id,
    {
        self.id
    }

    pub fn set_id(&mut self, id: MethodId<T>)
        ensures
            final(self)@ == (SpecMethod { id, ..old(self)@ }),
    {
        self.id = id;
    }

    pub fn name(&self) -> (r: &str)
        ensures
            r@ == self.name@,
    {
        self.name.as_str()
    }

    pub fn typ(&self) -> (r: &Type)
        ensures
            r@ == self.typ@,
    {
        &self.typ
    }

    pub fn expr(&self) -> (r: &Option<Expr>)
        ensures
            opt_expr(*r) == opt_expr(self.expr),
    {
        &self.expr
    }

    pub fn clear_expr(&mut self)
        ensures
            final(self)@ == (SpecMethod { expr: None, ..old(self)@ }),
    {
        self.expr = None;
    }

    pub fn position(&self) -> (r: &Option<Position>)
        ensures
            opt_pos(*r) == opt_pos(self.position),
    {
        &self.position
    }

    /// Adds a parameter after the others.
    pub fn add_parameter(&mut self, parameter: Parameter)
        ensures
            final(self)@ == (SpecMethod {
                parameters: old(self)@.parameters.push(parameter@),
                ..old(self)@
            }),
    {
        self.parameters.push(parameter);
        assert(params_view(self.parameters@) =~= params_view(old(self).parameters@).push(
            parameter@,
        ));
    }

    pub fn parameters(&self) -> (r: &Vec<Parameter>)
        ensures
            params_view(r@) == self@.parameters,
    {
        &self.parameters
    }

    /// The types of the parameters, in order.
    pub fn parameters_type(&self) -> (r: Vec<Type>)
        ensures
            types_view(r@) == self@.parameters.map_values(|p: SpecParameter| p.typ),
    {
        params_types(&self.parameters)
    }

    pub fn copy(&self) -> (r: Method<T>)
        ensures
            r@ == self@,
    {
        Method {
            id: self.id,
            name: self.name.clone(),
            parameters: copy_params(&self.parameters),
            typ: self.typ.copy(),
            expr: copy_opt_expr(&self.expr),
            position: copy_pos(&self.position),
        }
    }
}

} // verus!
