//! Parameters of functions, methods and quantifiers.

use crate::parser::position::Position;
use crate::parser::position::SpecPosition;
use crate::parser::position::copy_pos;
use crate::parser::position::opt_pos;
use crate::problem::typing::SpecType;
use crate::problem::typing::Type;
use crate::problem::typing::types_view;
use vstd::prelude::*;

verus! {

/// A named, typed parameter.
pub struct Parameter {
    pub name: String,
    pub typ: Type,
    pub position: Option<Position>,
}

/// The mathematical content of a [`Parameter`].
pub struct SpecParameter {
    pub name: Seq<char>,
    pub typ: SpecType,
    pub position: Option<SpecPosition>,
}

impl View for Parameter {
    type V = SpecParameter;

    open spec fn view(&self) -> SpecParameter {
        SpecParameter { name: self.name@, typ: self.typ@, position: opt_pos(self.position) }
    }
}

/// View of a sequence of parameters.
pub open spec fn params_view(s: Seq<Parameter>) -> Seq<SpecParameter> {
    s.map_values(|p: Parameter| p@)
}

/// Two parameters are the same one: same name and type.
pub open spec fn same_param(a: SpecParameter, b: SpecParameter) -> bool {
    a.name == b.name && a.typ == b.typ
}

impl Parameter {
    pub fn new(name: String, typ: Type, position: Option<Position>) -> (r: Parameter)
        ensures
            r.name@ == name@,
            r.typ@ == typ@,
            opt_pos(r.position) == opt_pos(position),
    {
        Parameter { name, typ, position }
    }

    pub fn name(&self) -> (r: &str)
        ensures
            r@ == self.name@,
    {
        self.name.as_str()
    }

    pub fn typ(&self) -> (r: &Type)
        ensures
            r@ == self.typ@,
    {
        &self.typ
    }

    pub fn position(&self) -> (r: &Option<Position>)
        ensures
            opt_pos(*r) == opt_pos(self.position),
    {
        &self.position
    }

    /// A copy of the parameter.
    pub fn copy(&self) -> (r: Parameter)
        ensures
            r@ == self@,
    {
        Parameter { name: self.name.clone(), typ: self.typ.copy(), position: copy_pos(&self.position) }
    }

    /// Whether two parameters are the same one: same name and type.
    pub fn is_same(&self, other: &Parameter) -> (r: bool)
        ensures
            r == same_param(self@, other@),
    {
        self.name == other.name && self.typ.same(&other.typ)
    }
}

/// A copy of a list of parameters.
pub fn copy_params(v: &Vec<Parameter>) -> (r: Vec<Parameter>)
    ensures
        params_view(r@) == params_view(v@),
{
    let mut w: Vec<Parameter> = Vec::new();
    let mut i: usize = 0;
    while i < v.len()
        invariant
            i <= v.len(),
            w@.len() == i,
            forall|j: int| 0 <= j < i ==> w@[j]@ == v@[j]@,
        decreases v.len() - i,
    {
        w.push(v[i].copy());
        i += 1;
    }
    assert(params_view(w@) =~= params_view(v@));
    w
}

/// The types of a list of parameters.
pub fn params_types(v: &Vec<Parameter>) -> (r: Vec<Type>)
    ensures
        types_view(r@) == params_view(v@).map_values(|p: SpecParameter| p.typ),
{
    let mut w: Vec<Type> = Vec::new();
    let mut i: usize = 0;
    while i < v.len()
        invariant
            i <= v.len(),
            w@.len() == i,
            forall|j: int| 0 <= j < i ==> w@[j]@ == v@[j].typ@,
        decreases v.len() - i,
    {
        w.push(v[i].typ.copy());
        i += 1;
    }
    assert(types_view(w@) =~= params_view(v@).map_values(|p: SpecParameter| p.typ));
    w
}

} // verus!
