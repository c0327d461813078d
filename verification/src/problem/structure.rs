//! Structures: types with a fixed set of instances, attributes and methods.

use crate::parser::position::Position;
use crate::parser::position::SpecPosition;
use crate::parser::position::opt_pos;
use crate::problem::attribute::Attribute;
use crate::problem::attribute::SpecAttribute;
use crate::problem::attribute::attr_names;
use crate::problem::attribute::attrs_view;
use crate::problem::ids::AttributeId;
use crate::problem::ids::Id;
use crate::problem::ids::MethodId;
use crate::problem::ids::StructureId;
use crate::problem::method::Method;
use crate::problem::method::SpecMethod;
use crate::problem::method::meth_names;
use crate::problem::method::meths_view;
use crate::problem::naming::first_named;
use crate::problem::typing::SpecType;
use crate::problem::typing::Type;
use crate::text::str_eq;
use vstd::prelude::*;

verus! {

pub enum StructureElement {
    Attribute(Attribute<StructureId>),
    Method(Method<StructureId>),
}

pub struct Structure {
    pub id: StructureId,
    pub name: String,
    pub typ: Type,
    pub attributes: Vec<Attribute<StructureId>>,
    pub methods: Vec<Method<StructureId>>,
    pub position: Option<Position>,
}

pub struct SpecStructure {
    pub id: StructureId,
    pub name: Seq<char>,
    pub typ: SpecType,
    pub attributes: Seq<SpecAttribute<StructureId>>,
    pub methods: Seq<SpecMethod<StructureId>>,
    pub position: Option<SpecPosition>,
}

impl View for Structure {
    type V = SpecStructure;

    open spec fn view(&self) -> SpecStructure {
        SpecStructure {
            id: self.id,
            name: self.name@,
            typ: self.typ@,
            attributes: attrs_view(self.attributes@),
            methods: meths_view(self.methods@),
            position: opt_pos(self.position),
        }
    }
}

/// The attributes with their identifiers renumbered for `owner`.
pub open spec fn renumber_attrs<T: Id>(s: Seq<SpecAttribute<T>>, owner: T) -> Seq<
    SpecAttribute<T>,
> {
    Seq::new(s.len(), |n: int| SpecAttribute { id: AttributeId(owner, n as usize), ..s[n] })
}

/// The methods with their identifiers renumbered for `owner`.
pub open spec fn renumber_meths<T: Id>(s: Seq<SpecMethod<T>>, owner: T) -> Seq<SpecMethod<T>> {
    Seq::new(s.len(), |n: int| SpecMethod { id: MethodId(owner, n as usize), ..s[n] })
}

/// Gives the attributes of `v` the identifiers `(owner, index)`.
pub fn renumber_attributes<T: Id>(v: &mut Vec<Attribute<T>>, owner: T)
    ensures
        attrs_view(final(v)@) == renumber_attrs(attrs_view(old(v)@), owner),
{
    let ghost old_view = attrs_view(v@);
    let mut n: usize = 0;
    while n < v.len()
        invariant
            n <= v.len(),
            v@.len() == old_view.len(),
            old_view.len() == old(v)@.len(),
            old_view == attrs_view(old(v)@),
            forall|k: int| 0 <= k < n ==> #[trigger] v@[k]@ == renumber_attrs(old_view, owner)[k],
            forall|k: int| n <= k < v@.len() ==> #[trigger] v@[k]@ == old_view[k],
        decreases v.len() - n,
    {
        let mut a = v.remove(n);
        a.set_id(AttributeId(owner, n));
        v.insert(n, a);
        n += 1;
    }
    assert(attrs_view(v@) =~= renumber_attrs(old_view, owner));
}

/// Gives the methods of `v` the identifiers `(owner, index)`.
pub fn renumber_methods<T: Id>(v: &mut Vec<Method<T>>, owner: T)
    ensures
        meths_view(final(v)@) == renumber_meths(meths_view(old(v)@), owner),
{
    let ghost old_view = meths_view(v@);
    let mut n: usize = 0;
    while n < v.len()
        invariant
            n <= v.len(),
            v@.len() == old_view.len(),
            old_view.len() == old(v)@.len(),
            old_view == meths_view(old(v)@),
            forall|k: int| 0 <= k < n ==> #[trigger] v@[k]@ == renumber_meths(old_view, owner)[k],
            forall|k: int| n <= k < v@.len() ==> #[trigger] v@[k]@ == old_view[k],
        decreases v.len() - n,
    {
        let mut m = v.remove(n);
        m.set_id(MethodId(owner, n));
        v.insert(n, m);
        n += 1;
    }
    assert(meths_view(v@) =~= renumber_meths(old_view, owner));
}

impl Structure {
    pub fn new(name: String, position: Option<Position>) -> (r: Structure)
        ensures
            r@ == (SpecStructure {
                id: StructureId(0),
                name: name@,
                typ: SpecType::Structure(StructureId(0)),
                attributes: seq![],
                methods: seq![],
                position: opt_pos(position),
            }),
    {
        let id = StructureId(0);
        let r = Structure {
            id,
            name,
            typ: Type::Structure(id),
            attributes: Vec::new(),
            methods: Vec::new(),
            position,
        };
        assert(attrs_view(r.attributes@) =~= seq![]);
        assert(meths_view(r.methods@) =~= seq![]);
        r
    }

    pub fn id(&self) -> (r: StructureId)
        ensures
            r == self.id,
    {
        self.id
    }

    /// Sets the identifier of the structure, of its type, and of its
    /// attributes and methods.
    pub fn set_id(&mut self, id: StructureId)
        ensures
            final(self)@ == (SpecStructure {
                id,
                typ: SpecType::Structure(id),
                attributes: renumber_attrs(old(self)@.attributes, id),
                methods: renumber_meths(old(self)@.methods, id),
                ..old(self)@
            }),
    {
        self.id = id;
        self.typ = Type::Structure(id);
        renumber_attributes(&mut self.attributes, id);
        renumber_methods(&mut self.methods, id);
    }

    pub fn name(&self) -> (r: &str)
        ensures
            r@ == self.name@,
    {
        self.name.as_str()
    }

    pub fn typ(&self) -> (r: &Type)
        ensures
            r@ == self.typ@,
    {
        &self.typ
    }

    pub fn position(&self) -> (r: &Option<Position>)
        ensures
            opt_pos(*r) == opt_pos(self.position),
    {
        &self.position
    }

    /// Adds an attribute after the others; it gets the next identifier.
    pub fn add_attribute(&mut self, attribute: Attribute<StructureId>) -> (r: AttributeId<
        StructureId,
    >)
        ensures
            r == AttributeId(old(self).id, old(self).attributes@.len() as usize),
            final(self)@ == (SpecStructure {
                attributes: old(self)@.attributes.push(SpecAttribute { id: r, ..attribute@ }),
                ..old(self)@
            }),
    {
        let id = AttributeId(self.id, self.attributes.len());
        let mut attribute = attribute;
        attribute.set_id(id);
        self.attributes.push(attribute);
        assert(attrs_view(self.attributes@) =~= attrs_view(old(self).attributes@).push(
            SpecAttribute { id, ..attribute@ },
        ));
        id
    }

    /// The attribute of that identifier.
    pub fn get_attribute(&self, id: AttributeId<StructureId>) -> (r: Option<
        &Attribute<StructureId>,
    >)
        ensures
            r is Some <==> id.0 == self.id && id.1 < self.attributes@.len(),
            r matches Some(a) ==> a@ == self@.attributes[id.1 as int],
    {
        if self.id.0 != id.0.0 || id.1 >= self.attributes.len() {
            None
        } else {
            Some(&self.attributes[id.1])
        }
    }

    pub fn attributes(&self) -> (r: &Vec<Attribute<StructureId>>)
        ensures
            attrs_view(r@) == self@.attributes,
    {
        &self.attributes
    }

    /// The first attribute of that name.
    pub fn find_attribute(&self, name: &str) -> (r: Option<&Attribute<StructureId>>)
        ensures
            match first_named(
                attr_names(self@.attributes),
                name@,
                0,
            ) {
                Some(i) => r matches Some(a) && a@ == self@.attributes[i],
                None => r is None,
            },
    {
        let ghost names = attr_names(self@.attributes);
        let mut i: usize = 0;
        while i < self.attributes.len()
            invariant
                i <= self.attributes.len(),
                names == attr_names(self@.attributes),
                first_named(names, name@, 0) == first_named(names, name@, i as int),
            decreases self.attributes.len() - i,
        {
            if str_eq(self.attributes[i].name.as_str(), name) {
                return Some(&self.attributes[i]);
            }
            i += 1;
        }
        None
    }
    /// Adds a method after the others; it gets the next identifier.
    pub fn add_method(&mut self, method: Method<StructureId>) -> (r: MethodId<StructureId>)
        ensures
            r == MethodId(old(self).id, old(self).methods@.len() as usize),
            final(self)@ == (SpecStructure {
                methods: old(self)@.methods.push(SpecMethod { id: r, ..method@ }),
                ..old(self)@
            }),
    {
        let id = MethodId(self.id, self.methods.len());
        let mut method = method;
        method.set_id(id);
        self.methods.push(method);
        assert(meths_view(self.methods@) =~= meths_view(old(self).methods@).push(
            SpecMethod { id, ..method@ },
        ));
        id
    }

    /// The method of that identifier.
    pub fn get_method(&self, id: MethodId<StructureId>) -> (r: Option<&Method<StructureId>>)
        ensures
            r is Some <==> id.0 == self.id && id.1 < self.methods@.len(),
            r matches Some(m) ==> m@ == self@.methods[id.1 as int],
    {
        if self.id.0 != id.0.0 || id.1 >= self.methods.len() {
            None
        } else {
            Some(&self.methods[id.1])
        }
    }

    pub fn methods(&self) -> (r: &Vec<Method<StructureId>>)
        ensures
            meths_view(r@) == self@.methods,
    {
        &self.methods
    }

    /// The first method of that name.
    pub fn find_method(&self, name: &str) -> (r: Option<&Method<StructureId>>)
        ensures
            match first_named(
                meth_names(self@.methods),
                name@,
                0,
            ) {
                Some(i) => r matches Some(m) && m@ == self@.methods[i],
                None => r is None,
            },
    {
        let ghost names = meth_names(self@.methods);
        let mut i: usize = 0;
        while i < self.methods.len()
            invariant
                i <= self.methods.len(),
                names == meth_names(self@.methods),
                first_named(names, name@, 0) == first_named(names, name@, i as int),
            decreases self.methods.len() - i,
        {
            if str_eq(self.methods[i].name.as_str(), name) {
                return Some(&self.methods[i]);
            }
            i += 1;
        }
        None
    }
}

} // verus!
