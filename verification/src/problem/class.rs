//! Classes: types with instances, attributes and methods, that may extend
//! another class.

use crate::parser::position::Position;
use crate::parser::position::SpecPosition;
use crate::parser::position::opt_pos;
use crate::problem::attribute::Attribute;
use crate::problem::attribute::SpecAttribute;
use crate::problem::attribute::attr_names;
use crate::problem::attribute::attrs_view;
use crate::problem::ids::AttributeId;
use crate::problem::ids::ClassId;
use crate::problem::ids::MethodId;
use crate::problem::method::Method;
use crate::problem::method::SpecMethod;
use crate::problem::method::meth_names;
use crate::problem::method::meths_view;
use crate::problem::naming::first_named;
use crate::problem::structure::renumber_attributes;
use crate::problem::structure::renumber_attrs;
use crate::problem::structure::renumber_methods;
use crate::problem::structure::renumber_meths;
use crate::problem::typing::SpecType;
use crate::problem::typing::Type;
use crate::text::str_eq;
use vstd::prelude::*;

verus! {

pub enum ClassElement {
    Attribute(Attribute<ClassId>),
    Method(Method<ClassId>),
}

pub struct Class {
    pub id: ClassId,
    pub name: String,
    pub typ: Type,
    pub extends: Option<Type>,
    pub attributes: Vec<Attribute<ClassId>>,
    pub methods: Vec<Method<ClassId>>,
    pub position: Option<Position>,
}

pub struct SpecClass {
    pub id: ClassId,
    pub name: Seq<char>,
    pub typ: SpecType,
    pub extends: Option<SpecType>,
    pub attributes: Seq<SpecAttribute<ClassId>>,
    pub methods: Seq<SpecMethod<ClassId>>,
    pub position: Option<SpecPosition>,
}

/// View of an optional type.
pub open spec fn opt_type(t: Option<Type>) -> Option<SpecType> {
    match t {
        Some(t) => Some(t@),
        None => None,
    }
}

impl View for Class {
    type V = SpecClass;

    open spec fn view(&self) -> SpecClass {
        SpecClass {
            id: self.id,
            name: self.name@,
            typ: self.typ@,
            extends: opt_type(self.extends),
            attributes: attrs_view(self.attributes@),
            methods: meths_view(self.methods@),
            position: opt_pos(self.position),
        }
    }
}

/// The class that a class extends, if its `extends` names a class.
pub open spec fn spec_super_class(c: SpecClass) -> Option<ClassId> {
    match c.extends {
        Some(SpecType::Class(id)) => Some(id),
        _ => None,
    }
}

impl Class {
    pub fn new(name: String, extends: Option<Type>, position: Option<Position>) -> (r: Class)
        ensures
            r@ == (SpecClass {
                id: ClassId(0),
                name: name@,
                typ: SpecType::Class(ClassId(0)),
                extends: opt_type(extends),
                attributes: seq![],
                methods: seq![],
                position: opt_pos(position),
            }),
    {
        let id = ClassId(0);
        let r = Class {
            id,
            name,
            typ: Type::Class(id),
            extends,
            attributes: Vec::new(),
            methods: Vec::new(),
            position,
        };
        assert(attrs_view(r.attributes@) =~= seq![]);
        assert(meths_view(r.methods@) =~= seq![]);
        r
    }

    pub fn id(&self) -> (r: ClassId)
        ensures
            r == self.id,
    {
        self.id
    }

    /// Sets the identifier of the class, of its type, and of its
    /// attributes and methods.
    pub fn set_id(&mut self, id: ClassId)
        ensures
            final(self)@ == (SpecClass {
                id,
                typ: SpecType::Class(id),
                attributes: renumber_attrs(old(self)@.attributes, id),
                methods: renumber_meths(old(self)@.methods, id),
                ..old(self)@
            }),
    {
        self.id = id;
        self.typ = Type::Class(id);
        renumber_attributes(&mut self.attributes, id);
        renumber_methods(&mut self.methods, id);
    }

    pub fn name(&self) -> (r: &str)
        ensures
            r@ == self.name@,
    {
        self.name.as_str()
    }

    pub fn typ(&self) -> (r: &Type)
        ensures
            r@ == self.typ@,
    {
        &self.typ
    }

    pub fn extends(&self) -> (r: &Option<Type>)
        ensures
            opt_type(*r) == self@.extends,
    {
        &self.extends
    }

    /// The class that this one extends, if it names one.
    pub fn super_class(&self) -> (r: Option<ClassId>)
        ensures
            r == spec_super_class(self@),
    {
        match &self.extends {
            Some(Type::Class(c)) => Some(*c),
            _ => None,
        }
    }

    pub fn position(&self) -> (r: &Option<Position>)
        ensures
            opt_pos(*r) == opt_pos(self.position),
    {
        &self.position
    }

    /// Adds an attribute after the others; it gets the next identifier.
    pub fn add_attribute(&mut self, attribute: Attribute<ClassId>) -> (r: AttributeId<
        ClassId,
    >)
        ensures
            r == AttributeId(old(self).id, old(self).attributes@.len() as usize),
            final(self)@ == (SpecClass {
                attributes: old(self)@.attributes.push(SpecAttribute { id: r, ..attribute@ }),
                ..old(self)@
            }),
    {
        let id = AttributeId(self.id, self.attributes.len());
        let mut attribute = attribute;
        attribute.set_id(id);
        self.attributes.push(attribute);
        assert(attrs_view(self.attributes@) =~= attrs_view(old(self).attributes@).push(
            SpecAttribute { id, ..attribute@ },
        ));
        id
    }

    /// The attribute of that identifier.
    pub fn get_attribute(&self, id: AttributeId<ClassId>) -> (r: Option<
        &Attribute<ClassId>,
    >)
        ensures
            r is Some <==> id.0 == self.id && id.1 < self.attributes@.len(),
            r matches Some(a) ==> a@ == self@.attributes[id.1 as int],
    {
        if self.id.0 != id.0.0 || id.1 >= self.attributes.len() {
            None
        } else {
            Some(&self.attributes[id.1])
        }
    }

    pub fn attributes(&self) -> (r: &Vec<Attribute<ClassId>>)
        ensures
            attrs_view(r@) == self@.attributes,
    {
        &self.attributes
    }

    /// The first attribute of that name.
    pub fn find_attribute(&self, name: &str) -> (r: Option<&Attribute<ClassId>>)
        ensures
            match first_named(
                attr_names(self@.attributes),
                name@,
                0,
            ) {
                Some(i) => r matches Some(a) && a@ == self@.attributes[i],
                None => r is None,
            },
    {
        let ghost names = attr_names(self@.attributes);
        let mut i: usize = 0;
        while i < self.attributes.len()
            invariant
                i <= self.attributes.len(),
                names == attr_names(self@.attributes),
                first_named(names, name@, 0) == first_named(names, name@, i as int),
            decreases self.attributes.len() - i,
        {
            if str_eq(self.attributes[i].name.as_str(), name) {
                return Some(&self.attributes[i]);
            }
            i += 1;
        }
        None
    }
    /// Adds a method after the others; it gets the next identifier.
    pub fn add_method(&mut self, method: Method<ClassId>) -> (r: MethodId<ClassId>)
        ensures
            r == MethodId(old(self).id, old(self).methods@.len() as usize),
            final(self)@ == (SpecClass {
                methods: old(self)@.methods.push(SpecMethod { id: r, ..method@ }),
                ..old(self)@
            }),
    {
        let id = MethodId(self.id, self.methods.len());
        let mut method = method;
        method.set_id(id);
        self.methods.push(method);
        assert(meths_view(self.methods@) =~= meths_view(old(self).methods@).push(
            SpecMethod { id, ..method@ },
        ));
        id
    }

    /// The method of that identifier.
    pub fn get_method(&self, id: MethodId<ClassId>) -> (r: Option<&Method<ClassId>>)
        ensures
            r is Some <==> id.0 == self.id && id.1 < self.methods@.len(),
            r matches Some(m) ==> m@ == self@.methods[id.1 as int],
    {
        if self.id.0 != id.0.0 || id.1 >= self.methods.len() {
            None
        } else {
            Some(&self.methods[id.1])
        }
    }

    pub fn methods(&self) -> (r: &Vec<Method<ClassId>>)
        ensures
            meths_view(r@) == self@.methods,
    {
        &self.methods
    }

    /// The first method of that name.
    pub fn find_method(&self, name: &str) -> (r: Option<&Method<ClassId>>)
        ensures
            match first_named(
                meth_names(self@.methods),
                name@,
                0,
            ) {
                Some(i) => r matches Some(m) && m@ == self@.methods[i],
                None => r is None,
            },
    {
        let ghost names = meth_names(self@.methods);
        let mut i: usize = 0;
        while i < self.methods.len()
            invariant
                i <= self.methods.len(),
                names == meth_names(self@.methods),
                first_named(names, name@, 0) == first_named(names, name@, i as int),
            decreases self.methods.len() - i,
        {
            if str_eq(self.methods[i].name.as_str(), name) {
                return Some(&self.methods[i]);
            }
            i += 1;
        }
        None
    }
}

} // verus!
