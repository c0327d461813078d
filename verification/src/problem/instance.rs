//! Instances of structures and classes.

use crate::parser::position::Position;
use crate::parser::position::SpecPosition;
use crate::parser::position::copy_pos;
use crate::parser::position::opt_pos;
use crate::problem::ids::InstanceId;
use crate::problem::typing::SpecType;
use crate::problem::typing::Type;
use vstd::prelude::*;

verus! {

pub struct Instance {
    pub id: InstanceId,
    pub name: String,
    pub typ: Type,
    pub position: Option<Position>,
}

pub struct SpecInstance {
    pub id: InstanceId,
    pub name: Seq<char>,
    pub typ: SpecType,
    pub position: Option<SpecPosition>,
}

impl View for Instance {
    type V = SpecInstance;

    open spec fn view(&self) -> SpecInstance {
        SpecInstance {
            id: self.id,
            name: self.name@,
            typ: self.typ@,
            position: opt_pos(self.position),
        }
    }
}

impl Instance {
    pub fn new(name: String, typ: Type, position: Option<Position>) -> (r: Instance)
        ensures
            r.id == InstanceId(0),
            r.name@ == name@,
            r.typ@ == typ@,
            opt_pos(r.position) == opt_pos(position),
    {
        Instance { id: InstanceId(0), name, typ, position }
    }

    pub fn set_id(&mut self, id: InstanceId)
        ensures
            final(self)@ == (SpecInstance { id, ..old(self)@ }),
    {
        self.id = id;
    }

    pub fn id(&self) -> (r: InstanceId)
        ensures
            r == self.id,
    {
        self.id
    }

    pub fn name(&self) -> (r: &str)
        ensures
            r@ == self.name@,
    {
        self.name.as_str()
    }

    pub fn typ(&self) -> (r: &Type)
        ensures
            r@ == self.typ@,
    {
        &self.typ
    }

    pub fn position(&self) -> (r: &Option<Position>)
        ensures
            opt_pos(*r) == opt_pos(self.position),
    {
        &self.position
    }

    pub fn copy(&self) -> (r: Instance)
        ensures
            r@ == self@,
    {
        Instance {
            id: self.id,
            name: self.name.clone(),
            typ: self.typ.copy(),
            position: copy_pos(&self.position),
        }
    }
}

} // verus!
