//! Terms handed to the SMT solver: the sorts, the declared symbols and the
//! term tree, with its mathematical view.

use crate::problem::constraint::Constraint;
use crate::problem::function::Function;
use crate::problem::ids::AttributeId;
use crate::problem::ids::ClassId;
use crate::problem::ids::ConstraintId;
use crate::problem::ids::FunctionId;
use crate::problem::ids::Id;
use crate::problem::ids::InstanceId;
use crate::problem::ids::MethodId;
use crate::problem::ids::StructureId;
use crate::problem::ids::VariableId;
use crate::problem::rational::Rational;
use crate::problem::variable::Variable;
use vstd::prelude::*;

verus! {

/// The sort of a term: a boolean, an integer, a real, or a value of a
/// declared datatype (a structure or a class).
#[derive(Clone, Copy, PartialEq, Eq, Debug, Structural)]
pub enum Sort {
    Bool,
    Int,
    Real,
    Datatype,
}

/// A declared uninterpreted function: a function of the problem, or an
/// attribute or a method of a structure or of a class.
#[derive(Clone, Copy, Debug)]
pub enum Symbol {
    Function(FunctionId),
    StrucAttribute(AttributeId<StructureId>),
    StrucMethod(MethodId<StructureId>),
    ClassAttribute(AttributeId<ClassId>),
    ClassMethod(MethodId<ClassId>),
}

/// A term of the solver's logic.
pub enum Term {
    BoolValue(bool),
    IntValue(isize),
    RealValue(Rational),
    /// The constant declared for a variable of the problem.
    Variable(VariableId, Sort),
    /// The boolean constant declared for a constraint of the problem.
    Constraint(ConstraintId),
    /// An instance of a structure, a constant of the structure's sort.
    StrucInstance(InstanceId),
    /// An instance of a class, as an object of its own class.
    ClassInstance(InstanceId),
    /// An object of the first class as an object of the second, which the
    /// first one extends.
    Object(Box<Term>, ClassId, ClassId),
    Not(Box<Term>),
    Minus(Box<Term>),
    Eq(Box<Term>, Box<Term>),
    And(Vec<Term>),
    Or(Vec<Term>),
    Implies(Box<Term>, Box<Term>),
    Lt(Box<Term>, Box<Term>),
    Le(Box<Term>, Box<Term>),
    Ge(Box<Term>, Box<Term>),
    Gt(Box<Term>, Box<Term>),
    Add(Vec<Term>),
    Sub(Box<Term>, Box<Term>),
    Mul(Vec<Term>),
    Div(Box<Term>, Box<Term>),
    ToReal(Box<Term>),
    ToInt(Box<Term>),
    Ite(Box<Term>, Box<Term>, Box<Term>),
    /// A declared symbol applied to arguments, with the sort of the result.
    Apply(Symbol, Vec<Term>, Sort),
}

/// The mathematical content of a [`Term`].
pub enum SpecTerm {
    BoolValue(bool),
    IntValue(isize),
    RealValue(Rational),
    Variable(VariableId, Sort),
    Constraint(ConstraintId),
    StrucInstance(InstanceId),
    ClassInstance(InstanceId),
    Object(Box<SpecTerm>, ClassId, ClassId),
    Not(Box<SpecTerm>),
    Minus(Box<SpecTerm>),
    Eq(Box<SpecTerm>, Box<SpecTerm>),
    And(Seq<SpecTerm>),
    Or(Seq<SpecTerm>),
    Implies(Box<SpecTerm>, Box<SpecTerm>),
    Lt(Box<SpecTerm>, Box<SpecTerm>),
    Le(Box<SpecTerm>, Box<SpecTerm>),
    Ge(Box<SpecTerm>, Box<SpecTerm>),
    Gt(Box<SpecTerm>, Box<SpecTerm>),
    Add(Seq<SpecTerm>),
    Sub(Box<SpecTerm>, Box<SpecTerm>),
    Mul(Seq<SpecTerm>),
    Div(Box<SpecTerm>, Box<SpecTerm>),
    ToReal(Box<SpecTerm>),
    ToInt(Box<SpecTerm>),
    Ite(Box<SpecTerm>, Box<SpecTerm>, Box<SpecTerm>),
    Apply(Symbol, Seq<SpecTerm>, Sort),
}

/// View of a sequence of terms.
pub open spec fn terms_view(s: Seq<Term>) -> Seq<SpecTerm>
    decreases s,
{
    if s.len() == 0 {
        seq![]
    } else {
        terms_view(s.drop_last()).push(s.last().view())
    }
}

impl View for Term {
    type V = SpecTerm;

    open spec fn view(&self) -> SpecTerm
        decreases self,
    {
        match self {
            Term::BoolValue(b) => SpecTerm::BoolValue(*b),
            Term::IntValue(v) => SpecTerm::IntValue(*v),
            Term::RealValue(r) => SpecTerm::RealValue(*r),
            Term::Variable(id, s) => SpecTerm::Variable(*id, *s),
            Term::Constraint(id) => SpecTerm::Constraint(*id),
            Term::StrucInstance(id) => SpecTerm::StrucInstance(*id),
            Term::ClassInstance(id) => SpecTerm::ClassInstance(*id),
            Term::Object(t, a, b) => SpecTerm::Object(Box::new((**t).view()), *a, *b),
            Term::Not(t) => SpecTerm::Not(Box::new((**t).view())),
            Term::Minus(t) => SpecTerm::Minus(Box::new((**t).view())),
            Term::Eq(l, r) => SpecTerm::Eq(Box::new((**l).view()), Box::new((**r).view())),
            Term::And(v) => SpecTerm::And(terms_view(v@)),
            Term::Or(v) => SpecTerm::Or(terms_view(v@)),
            Term::Implies(l, r) => SpecTerm::Implies(
                Box::new((**l).view()),
                Box::new((**r).view()),
            ),
            Term::Lt(l, r) => SpecTerm::Lt(Box::new((**l).view()), Box::new((**r).view())),
            Term::Le(l, r) => SpecTerm::Le(Box::new((**l).view()), Box::new((**r).view())),
            Term::Ge(l, r) => SpecTerm::Ge(Box::new((**l).view()), Box::new((**r).view())),
            Term::Gt(l, r) => SpecTerm::Gt(Box::new((**l).view()), Box::new((**r).view())),
            Term::Add(v) => SpecTerm::Add(terms_view(v@)),
            Term::Sub(l, r) => SpecTerm::Sub(Box::new((**l).view()), Box::new((**r).view())),
            Term::Mul(v) => SpecTerm::Mul(terms_view(v@)),
            Term::Div(l, r) => SpecTerm::Div(Box::new((**l).view()), Box::new((**r).view())),
            Term::ToReal(t) => SpecTerm::ToReal(Box::new((**t).view())),
            Term::ToInt(t) => SpecTerm::ToInt(Box::new((**t).view())),
            Term::Ite(c, t, e) => SpecTerm::Ite(
                Box::new((**c).view()),
                Box::new((**t).view()),
                Box::new((**e).view()),
            ),
            Term::Apply(f, v, s) => SpecTerm::Apply(*f, terms_view(v@), *s),
        }
    }
}

/// The view of a list of terms has its length, and holds the view of each.
pub proof fn lemma_terms_view(s: Seq<Term>)
    ensures
        terms_view(s).len() == s.len(),
        forall|i: int| 0 <= i < s.len() ==> #[trigger] terms_view(s)[i] == s[i]@,
    decreases s.len(),
{
    if s.len() > 0 {
        lemma_terms_view(s.drop_last());
        assert(terms_view(s) == terms_view(s.drop_last()).push(s.last()@));
        assert forall|i: int| 0 <= i < s.len() implies #[trigger] terms_view(s)[i] == s[i]@ by {
            if i < s.len() - 1 {
                assert(s.drop_last()[i] == s[i]);
            }
        }
    } else {
        assert(terms_view(s) == Seq::<SpecTerm>::empty());
    }
}

/// A list of terms whose view is `s`, built by pushing, is viewed as `s`.
pub proof fn lemma_terms_push(v: Seq<Term>, t: Term)
    ensures
        terms_view(v.push(t)) == terms_view(v).push(t@),
{
    assert(v.push(t).drop_last() == v);
}

/// The view of two lists of terms one after the other.
pub proof fn lemma_terms_concat(a: Seq<Term>, b: Seq<Term>)
    ensures
        terms_view(a + b) == terms_view(a) + terms_view(b),
{
    lemma_terms_view(a);
    lemma_terms_view(b);
    lemma_terms_view(a + b);
    assert(terms_view(a + b) =~= terms_view(a) + terms_view(b));
}

} // verus!
