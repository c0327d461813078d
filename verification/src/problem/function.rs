//! Functions of a problem.

use crate::parser::position::Position;
use crate::parser::position::SpecPosition;
use crate::parser::position::copy_pos;
use crate::parser::position::opt_pos;
use crate::problem::expression::expr::Expr;
use crate::problem::expression::expr::SpecExpr;
use crate::problem::ids::FunctionId;
use crate::problem::parameter::Parameter;
use crate::problem::parameter::SpecParameter;
use crate::problem::parameter::copy_params;
use crate::problem::parameter::params_types;
use crate::problem::parameter::params_view;
use crate::problem::typing::SpecType;
use crate::problem::typing::Type;
use crate::problem::typing::types_view;
use crate::problem::variable::copy_opt_expr;
use crate::problem::variable::opt_expr;
use vstd::prelude::*;

verus! {

pub struct Function {
    pub id: FunctionId,
    pub name: String,
    pub parameters: Vec<Parameter>,
    pub typ: Type,
    pub expr: Option<Expr>,
    pub position: Option<Position>,
}

pub struct SpecFunction {
    pub id: FunctionId,
    pub name: Seq<char>,
    pub parameters: Seq<SpecParameter>,
    pub typ: SpecType,
    pub expr: Option<SpecExpr>,
    pub position: Option<SpecPosition>,
}

impl View for Function {
    type V = SpecFunction;

    open spec fn view(&self) -> SpecFunction {
        SpecFunction {
            id: self.id,
            name: self.name@,
            parameters: params_view(self.parameters@),
            typ: self.typ@,
            expr: opt_expr(self.expr),
            position: opt_pos(self.position),
        }
    }
}

impl Function {
    pub fn new(name: String, typ: Type, expr: Option<Expr>, position: Option<Position>) -> (r:
        Function)
        ensures
            r@ == (SpecFunction {
                id: FunctionId(0),
                name: name@,
                parameters: seq![],
                typ: typ@,
                expr: opt_expr(expr),
                position: opt_pos(position),
            }),
    {
        let r = Function {
            id: FunctionId(0),
            name,
            parameters: Vec::new(),
            typ,
            expr,
            position,
        };
        assert(params_view(r.parameters@) =~= seq![]);
        r
    }

    pub fn set_id(&mut self, id: FunctionId)
        ensures
            final(self)@ == (SpecFunction { id, ..old(self)@ }),
    {
        self.id = id;
    }

    pub fn id(&self) -> (r: FunctionId)
        ensures
            r == self.id,
    {
        self.id
    }

    pub fn name(&self) -> (r: &str)
        ensures
            r@ == self.name@,
    {
        self.name.as_str()
    }

    pub fn typ(&self) -> (r: &Type)
        ensures
            r@ == self.typ@,
    {
        &self.typ
    }

    pub fn expr(&self) -> (r: &Option<Expr>)
        ensures
            opt_expr(*r) == opt_expr(self.expr),
    {
        &self.expr
    }

    pub fn position(&self) -> (r: &Option<Position>)
        ensures
            opt_pos(*r) == opt_pos(self.position),
    {
        &self.position
    }

    pub fn set_expr(&mut self, expr: Option<Expr>)
        ensures
            final(self)@ == (SpecFunction { expr: opt_expr(expr), ..old(self)@ }),
    {
        self.expr = expr;
    }

    /// Adds a parameter after the others.
    pub fn add_parameter(&mut self, parameter: Parameter)
        ensures
            final(self)@ == (SpecFunction {
                parameters: old(self)@.parameters.push(parameter@),
                ..old(self)@
            }),
    {
        self.parameters.push(parameter);
        assert(params_view(self.parameters@) =~= params_view(old(self).parameters@).push(
            parameter@,
        ));
    }

    pub fn parameters(&self) -> (r: &Vec<Parameter>)
        ensures
            params_view(r@) == self@.parameters,
    {
        &self.parameters
    }

    /// The types of the parameters, in order.
    pub fn parameters_type(&self) -> (r: Vec<Type>)
        ensures
            types_view(r@) == self@.parameters.map_values(|p: SpecParameter| p.typ),
    {
        params_types(&self.parameters)
    }

    pub fn copy(&self) -> (r: Function)
        ensures
            r@ == self@,
    {
        Function {
            id: self.id,
            name: self.name.clone(),
            parameters: copy_params(&self.parameters),
            typ: self.typ.copy(),
            expr: copy_opt_expr(&self.expr),
            position: copy_pos(&self.position),
        }
    }
}

} // verus!
