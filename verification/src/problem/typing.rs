//! Types of the language.

use crate::parser::position::Position;
use crate::parser::position::SpecPosition;
use crate::parser::position::copy_pos;
use crate::parser::position::opt_pos;
use crate::problem::class::Class;
use crate::problem::ids::ClassId;
use crate::problem::ids::StructureId;
use crate::problem::structure::Structure;
use vstd::prelude::*;

verus! {

/// A type of the language.
pub enum Type {
    Bool,
    Int,
    Real,
    Interval(isize, isize),
    Structure(StructureId),
    Class(ClassId),
    Unresolved(String, Option<Position>),
    Undefined,
}

/// The mathematical content of a [`Type`].
pub enum SpecType {
    Bool,
    Int,
    Real,
    Interval(isize, isize),
    Structure(StructureId),
    Class(ClassId),
    Unresolved(Seq<char>, Option<SpecPosition>),
    Undefined,
}

impl View for Type {
    type V = SpecType;

    open spec fn view(&self) -> SpecType {
        match self {
            Type::Bool => SpecType::Bool,
            Type::Int => SpecType::Int,
            Type::Real => SpecType::Real,
            Type::Interval(a, b) => SpecType::Interval(*a, *b),
            Type::Structure(id) => SpecType::Structure(*id),
            Type::Class(id) => SpecType::Class(*id),
            Type::Unresolved(n, p) => SpecType::Unresolved(n@, opt_pos(*p)),
            Type::Undefined => SpecType::Undefined,
        }
    }
}

/// View of a sequence of types.
pub open spec fn types_view(s: Seq<Type>) -> Seq<SpecType> {
    s.map_values(|t: Type| t@)
}

impl SpecType {
    /// Values of the type are finitely many.
    pub open spec fn is_bounded(self) -> bool {
        match self {
            SpecType::Bool => true,
            SpecType::Interval(_, _) => true,
            SpecType::Structure(_) => true,
            SpecType::Class(_) => true,
            _ => false,
        }
    }

    pub open spec fn is_bool(self) -> bool {
        self is Bool
    }

    pub open spec fn is_int(self) -> bool {
        self is Int
    }

    pub open spec fn is_real(self) -> bool {
        self is Real
    }

    /// What `Type::is_interval` answers: it holds of `Bool` alone.
    pub open spec fn is_interval(self) -> bool {
        self is Bool
    }

    pub open spec fn is_undefined(self) -> bool {
        self is Undefined
    }

    /// `Int` or an interval.
    pub open spec fn is_integer(self) -> bool {
        self is Int || self is Interval
    }

    /// `Int`, `Real` or an interval.
    pub open spec fn is_number(self) -> bool {
        self is Int || self is Real || self is Interval
    }

    pub open spec fn is_structure(self) -> bool {
        self is Structure
    }

    pub open spec fn is_class(self) -> bool {
        self is Class
    }

    /// The class of a class type.
    pub open spec fn class(self) -> Option<ClassId> {
        match self {
            SpecType::Class(id) => Some(id),
            _ => None,
        }
    }
}

impl Type {
    /// A copy of the type.
    pub fn copy(&self) -> (r: Type)
        ensures
            r@ == self@,
    {
        match self {
            Type::Bool => Type::Bool,
            Type::Int => Type::Int,
            Type::Real => Type::Real,
            Type::Interval(a, b) => Type::Interval(*a, *b),
            Type::Structure(id) => Type::Structure(*id),
            Type::Class(id) => Type::Class(*id),
            Type::Unresolved(n, p) => Type::Unresolved(n.clone(), copy_pos(p)),
            Type::Undefined => Type::Undefined,
        }
    }

    /// Whether two types are the same.
    pub fn same(&self, other: &Type) -> (r: bool)
        ensures
            r == (self@ == other@),
    {
        match (self, other) {
            (Type::Bool, Type::Bool) => true,
            (Type::Int, Type::Int) => true,
            (Type::Real, Type::Real) => true,
            (Type::Interval(a, b), Type::Interval(c, d)) => *a == *c && *b == *d,
            (Type::Structure(i), Type::Structure(j)) => i.0 == j.0,
            (Type::Class(i), Type::Class(j)) => i.0 == j.0,
            (Type::Unresolved(n1, p1), Type::Unresolved(n2, p2)) => *n1 == *n2 && same_pos(
                p1,
                p2,
            ),
            (Type::Undefined, Type::Undefined) => true,
            _ => false,
        }
    }

    pub fn is_bounded(&self) -> (r: bool)
        ensures
            r == self@.is_bounded(),
    {
        match self {
            Type::Bool => true,
            Type::Int => false,
            Type::Real => false,
            Type::Interval(_, _) => true,
            Type::Structure(_) => true,
            Type::Class(_) => true,
            Type::Unresolved(_, _) => false,
            Type::Undefined => false,
        }
    }

    pub fn is_bool(&self) -> (r: bool)
        ensures
            r == self@.is_bool(),
    {
        match self {
            Type::Bool => true,
            _ => false,
        }
    }

    pub fn is_int(&self) -> (r: bool)
        ensures
            r == self@.is_int(),
    {
        match self {
            Type::Int => true,
            _ => false,
        }
    }

    pub fn is_real(&self) -> (r: bool)
        ensures
            r == self@.is_real(),
    {
        match self {
            Type::Real => true,
            _ => false,
        }
    }

    pub fn is_interval(&self) -> (r: bool)
        ensures
            r == self@.is_interval(),
    {
        match self {
            Type::Bool => true,
            _ => false,
        }
    }

    pub fn is_undefined(&self) -> (r: bool)
        ensures
            r == self@.is_undefined(),
    {
        match self {
            Type::Undefined => true,
            _ => false,
        }
    }

    pub fn is_integer(&self) -> (r: bool)
        ensures
            r == self@.is_integer(),
    {
        match self {
            Type::Int => true,
            Type::Interval(_, _) => true,
            _ => false,
        }
    }

    pub fn is_number(&self) -> (r: bool)
        ensures
            r == self@.is_number(),
    {
        match self {
            Type::Int => true,
            Type::Real => true,
            Type::Interval(_, _) => true,
            _ => false,
        }
    }

    pub fn is_structure(&self) -> (r: bool)
        ensures
            r == self@.is_structure(),
    {
        match self {
            Type::Structure(_) => true,
            _ => false,
        }
    }

    pub fn is_class(&self) -> (r: bool)
        ensures
            r == self@.is_class(),
    {
        match self {
            Type::Class(_) => true,
            _ => false,
        }
    }

    pub fn class(&self) -> (r: Option<ClassId>)
        ensures
            r == self@.class(),
    {
        match self {
            Type::Class(id) => Some(*id),
            _ => None,
        }
    }
}

/// Whether two optional positions are the same.
pub fn same_pos(a: &Option<Position>, b: &Option<Position>) -> (r: bool)
    ensures
        r == (opt_pos(*a) == opt_pos(*b)),
{
    match (a, b) {
        (None, None) => true,
        (Some(x), Some(y)) => x.file == y.file && x.line == y.line && x.column == y.column,
        _ => false,
    }
}

} // verus!
