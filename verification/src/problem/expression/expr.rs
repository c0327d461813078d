//! Expressions of the language: definition, view, copy and structural
//! comparison.

use crate::parser::position::Position;
use crate::parser::position::SpecPosition;
use crate::parser::position::copy_pos;
use crate::parser::position::opt_pos;
use crate::problem::ids::AttributeId;
use crate::problem::ids::ClassId;
use crate::problem::ids::FunctionId;
use crate::problem::ids::Id;
use crate::problem::ids::InstanceId;
use crate::problem::ids::MethodId;
use crate::problem::ids::StructureId;
use crate::problem::ids::VariableId;
use crate::problem::instance::Instance;
use crate::problem::parameter::Parameter;
use crate::problem::parameter::SpecParameter;
use crate::problem::parameter::copy_params;
use crate::problem::parameter::params_view;
use crate::problem::rational::Rational;
use crate::problem::variable::Variable;
use vstd::prelude::*;

verus! {

//-------------------------------------------------- Operators --------------------------------------------------

#[derive(Clone, Copy, PartialEq, Eq, Hash, Debug, Structural)]
pub enum UnaryOp {
    Not,
    Minus,
}

#[derive(Clone, Copy, PartialEq, Eq, Hash, Debug, Structural)]
pub enum BinOp {
    Eq,
    Ne,
    Lt,
    Le,
    Ge,
    Gt,
    And,
    Or,
    Implies,
    Add,
    Sub,
    Mul,
    Div,
}

#[derive(Clone, Copy, PartialEq, Eq, Hash, Debug, Structural)]
pub enum QtOp {
    Forall,
    Exists,
    Sum,
    Prod,
}

//-------------------------------------------------- Expr --------------------------------------------------

pub enum Expr {
    BoolValue(bool, Option<Position>),
    IntValue(isize, Option<Position>),
    RealValue(Rational, Option<Position>),
    Unary(UnaryOp, Box<Expr>, Option<Position>),
    Binary(Box<Expr>, BinOp, Box<Expr>, Option<Position>),
    Variable(VariableId, Option<Position>),
    Parameter(Parameter),
    FunctionCall(FunctionId, Vec<Expr>, Option<Position>),
    Instance(InstanceId, Option<Position>),
    StrucSelf(StructureId, Option<Position>),
    StrucAttribute(Box<Expr>, AttributeId<StructureId>, Option<Position>),
    StrucMetCall(Box<Expr>, MethodId<StructureId>, Vec<Expr>, Option<Position>),
    ClassSelf(ClassId, Option<Position>),
    ClassAttribute(Box<Expr>, AttributeId<ClassId>, Option<Position>),
    ClassMetCall(Box<Expr>, MethodId<ClassId>, Vec<Expr>, Option<Position>),
    AsClass(Box<Expr>, ClassId),
    AsInterval(Box<Expr>, isize, isize, Option<Position>),
    AsInt(Box<Expr>, Option<Position>),
    AsReal(Box<Expr>, Option<Position>),
    IfThenElse(Box<Expr>, Box<Expr>, Vec<(Expr, Expr)>, Box<Expr>, Option<Position>),
    Quantifier(QtOp, Vec<Parameter>, Box<Expr>, Option<Position>),
    Unresolved(String, Option<Position>),
    UnresolvedFunCall(String, Vec<Expr>, Option<Position>),
    UnresolvedAttribute(Box<Expr>, String, Option<Position>),
    UnresolvedMethCall(Box<Expr>, String, Vec<Expr>, Option<Position>),
}

/// The mathematical content of an [`Expr`].
pub enum SpecExpr {
    BoolValue(bool, Option<SpecPosition>),
    IntValue(isize, Option<SpecPosition>),
    RealValue(Rational, Option<SpecPosition>),
    Unary(UnaryOp, Box<SpecExpr>, Option<SpecPosition>),
    Binary(Box<SpecExpr>, BinOp, Box<SpecExpr>, Option<SpecPosition>),
    Variable(VariableId, Option<SpecPosition>),
    Parameter(SpecParameter),
    FunctionCall(FunctionId, Seq<SpecExpr>, Option<SpecPosition>),
    Instance(InstanceId, Option<SpecPosition>),
    StrucSelf(StructureId, Option<SpecPosition>),
    StrucAttribute(Box<SpecExpr>, AttributeId<StructureId>, Option<SpecPosition>),
    StrucMetCall(Box<SpecExpr>, MethodId<StructureId>, Seq<SpecExpr>, Option<SpecPosition>),
    ClassSelf(ClassId, Option<SpecPosition>),
    ClassAttribute(Box<SpecExpr>, AttributeId<ClassId>, Option<SpecPosition>),
    ClassMetCall(Box<SpecExpr>, MethodId<ClassId>, Seq<SpecExpr>, Option<SpecPosition>),
    AsClass(Box<SpecExpr>, ClassId),
    AsInterval(Box<SpecExpr>, isize, isize, Option<SpecPosition>),
    AsInt(Box<SpecExpr>, Option<SpecPosition>),
    AsReal(Box<SpecExpr>, Option<SpecPosition>),
    IfThenElse(
        Box<SpecExpr>,
        Box<SpecExpr>,
        Seq<(SpecExpr, SpecExpr)>,
        Box<SpecExpr>,
        Option<SpecPosition>,
    ),
    Quantifier(QtOp, Seq<SpecParameter>, Box<SpecExpr>, Option<SpecPosition>),
    Unresolved(Seq<char>, Option<SpecPosition>),
    UnresolvedFunCall(Seq<char>, Seq<SpecExpr>, Option<SpecPosition>),
    UnresolvedAttribute(Box<SpecExpr>, Seq<char>, Option<SpecPosition>),
    UnresolvedMethCall(Box<SpecExpr>, Seq<char>, Seq<SpecExpr>, Option<SpecPosition>),
}

/// View of a sequence of expressions.
pub open spec fn exprs_view(s: Seq<Expr>) -> Seq<SpecExpr>
    decreases s,
{
    if s.len() == 0 {
        seq![]
    } else {
        exprs_view(s.drop_last()).push(s.last().view())
    }
}

/// View of a sequence of pairs of expressions.
pub open spec fn pairs_view(s: Seq<(Expr, Expr)>) -> Seq<(SpecExpr, SpecExpr)>
    decreases s,
{
    if s.len() == 0 {
        seq![]
    } else {
        pairs_view(s.drop_last()).push((s.last().0.view(), s.last().1.view()))
    }
}

impl View for Expr {
    type V = SpecExpr;

    open spec fn view(&self) -> SpecExpr
        decreases self,
    {
        match self {
            Expr::BoolValue(v, p) => SpecExpr::BoolValue(*v, opt_pos(*p)),
            Expr::IntValue(v, p) => SpecExpr::IntValue(*v, opt_pos(*p)),
            Expr::RealValue(v, p) => SpecExpr::RealValue(*v, opt_pos(*p)),
            Expr::Unary(o, e, p) => SpecExpr::Unary(*o, Box::new((**e).view()), opt_pos(*p)),
            Expr::Binary(l, o, r, p) => SpecExpr::Binary(
                Box::new((**l).view()),
                *o,
                Box::new((**r).view()),
                opt_pos(*p),
            ),
            Expr::Variable(id, p) => SpecExpr::Variable(*id, opt_pos(*p)),
            Expr::Parameter(x) => SpecExpr::Parameter(x@),
            Expr::FunctionCall(id, v, p) => SpecExpr::FunctionCall(
                *id,
                exprs_view(v@),
                opt_pos(*p),
            ),
            Expr::Instance(id, p) => SpecExpr::Instance(*id, opt_pos(*p)),
            Expr::StrucSelf(id, p) => SpecExpr::StrucSelf(*id, opt_pos(*p)),
            Expr::StrucAttribute(e, id, p) => SpecExpr::StrucAttribute(
                Box::new((**e).view()),
                *id,
                opt_pos(*p),
            ),
            Expr::StrucMetCall(e, id, v, p) => SpecExpr::StrucMetCall(
                Box::new((**e).view()),
                *id,
                exprs_view(v@),
                opt_pos(*p),
            ),
            Expr::ClassSelf(id, p) => SpecExpr::ClassSelf(*id, opt_pos(*p)),
            Expr::ClassAttribute(e, id, p) => SpecExpr::ClassAttribute(
                Box::new((**e).view()),
                *id,
                opt_pos(*p),
            ),
            Expr::ClassMetCall(e, id, v, p) => SpecExpr::ClassMetCall(
                Box::new((**e).view()),
                *id,
                exprs_view(v@),
                opt_pos(*p),
            ),
            Expr::AsClass(e, id) => SpecExpr::AsClass(Box::new((**e).view()), *id),
            Expr::AsInterval(e, a, b, p) => SpecExpr::AsInterval(
                Box::new((**e).view()),
                *a,
                *b,
                opt_pos(*p),
            ),
            Expr::AsInt(e, p) => SpecExpr::AsInt(Box::new((**e).view()), opt_pos(*p)),
            Expr::AsReal(e, p) => SpecExpr::AsReal(Box::new((**e).view()), opt_pos(*p)),
            Expr::IfThenElse(c, t, l, e, p) => SpecExpr::IfThenElse(
                Box::new((**c).view()),
                Box::new((**t).view()),
                pairs_view(l@),
                Box::new((**e).view()),
                opt_pos(*p),
            ),
            Expr::Quantifier(o, v, e, p) => SpecExpr::Quantifier(
                *o,
                params_view(v@),
                Box::new((**e).view()),
                opt_pos(*p),
            ),
            Expr::Unresolved(n, p) => SpecExpr::Unresolved(n@, opt_pos(*p)),
            Expr::UnresolvedFunCall(n, v, p) => SpecExpr::UnresolvedFunCall(
                n@,
                exprs_view(v@),
                opt_pos(*p),
            ),
            Expr::UnresolvedAttribute(e, n, p) => SpecExpr::UnresolvedAttribute(
                Box::new((**e).view()),
                n@,
                opt_pos(*p),
            ),
            Expr::UnresolvedMethCall(e, n, v, p) => SpecExpr::UnresolvedMethCall(
                Box::new((**e).view()),
                n@,
                exprs_view(v@),
                opt_pos(*p),
            ),
        }
    }
}

/// Length and elements of the view of a sequence of expressions.
pub proof fn lemma_exprs_view(s: Seq<Expr>)
    ensures
        exprs_view(s).len() == s.len(),
        forall|i: int| 0 <= i < s.len() ==> #[trigger] exprs_view(s)[i] == s[i]@,
    decreases s.len(),
{
    if s.len() > 0 {
        lemma_exprs_view(s.drop_last());
        assert(exprs_view(s) == exprs_view(s.drop_last()).push(s.last()@));
    } else {
        assert(exprs_view(s) == Seq::<SpecExpr>::empty());
    }
}

/// Length and elements of the view of a sequence of pairs of expressions.
pub proof fn lemma_pairs_view(s: Seq<(Expr, Expr)>)
    ensures
        pairs_view(s).len() == s.len(),
        forall|i: int|
            0 <= i < s.len() ==> #[trigger] pairs_view(s)[i] == (s[i].0@, s[i].1@),
    decreases s.len(),
{
    if s.len() > 0 {
        lemma_pairs_view(s.drop_last());
        assert(pairs_view(s) == pairs_view(s.drop_last()).push((s.last().0@, s.last().1@)));
    } else {
        assert(pairs_view(s) == Seq::<(SpecExpr, SpecExpr)>::empty());
    }
}

/// Two sequences of expressions with equal element views have equal views.
pub proof fn lemma_exprs_view_eq(a: Seq<Expr>, b: Seq<Expr>)
    requires
        a.len() == b.len(),
        forall|i: int| 0 <= i < a.len() ==> #[trigger] a[i]@ == b[i]@,
    ensures
        exprs_view(a) == exprs_view(b),
{
    lemma_exprs_view(a);
    lemma_exprs_view(b);
    assert(exprs_view(a) =~= exprs_view(b));
}

//-------------------------------------------------- Copy --------------------------------------------------

impl Expr {
    /// A copy of the expression.
    pub fn copy(&self) -> (r: Expr)
        ensures
            r@ == self@,
        decreases self,
    {
        match self {
            Expr::BoolValue(v, p) => Expr::BoolValue(*v, copy_pos(p)),
            Expr::IntValue(v, p) => Expr::IntValue(*v, copy_pos(p)),
            Expr::RealValue(v, p) => Expr::RealValue(*v, copy_pos(p)),
            Expr::Unary(o, e, p) => Expr::Unary(*o, Box::new(e.copy()), copy_pos(p)),
            Expr::Binary(l, o, r, p) => Expr::Binary(
                Box::new(l.copy()),
                *o,
                Box::new(r.copy()),
                copy_pos(p),
            ),
            Expr::Variable(id, p) => Expr::Variable(*id, copy_pos(p)),
            Expr::Parameter(x) => Expr::Parameter(x.copy()),
            Expr::FunctionCall(id, v, p) => Expr::FunctionCall(*id, copy_exprs(v), copy_pos(p)),
            Expr::Instance(id, p) => Expr::Instance(*id, copy_pos(p)),
            Expr::StrucSelf(id, p) => Expr::StrucSelf(*id, copy_pos(p)),
            Expr::StrucAttribute(e, id, p) => Expr::StrucAttribute(
                Box::new(e.copy()),
                *id,
                copy_pos(p),
            ),
            Expr::StrucMetCall(e, id, v, p) => Expr::StrucMetCall(
                Box::new(e.copy()),
                *id,
                copy_exprs(v),
                copy_pos(p),
            ),
            Expr::ClassSelf(id, p) => Expr::ClassSelf(*id, copy_pos(p)),
            Expr::ClassAttribute(e, id, p) => Expr::ClassAttribute(
                Box::new(e.copy()),
                *id,
                copy_pos(p),
            ),
            Expr::ClassMetCall(e, id, v, p) => Expr::ClassMetCall(
                Box::new(e.copy()),
                *id,
                copy_exprs(v),
                copy_pos(p),
            ),
            Expr::AsClass(e, id) => Expr::AsClass(Box::new(e.copy()), *id),
            Expr::AsInterval(e, a, b, p) => Expr::AsInterval(
                Box::new(e.copy()),
                *a,
                *b,
                copy_pos(p),
            ),
            Expr::AsInt(e, p) => Expr::AsInt(Box::new(e.copy()), copy_pos(p)),
            Expr::AsReal(e, p) => Expr::AsReal(Box::new(e.copy()), copy_pos(p)),
            Expr::IfThenElse(c, t, l, e, p) => Expr::IfThenElse(
                Box::new(c.copy()),
                Box::new(t.copy()),
                copy_pairs(l),
                Box::new(e.copy()),
                copy_pos(p),
            ),
            Expr::Quantifier(o, v, e, p) => Expr::Quantifier(
                *o,
                copy_params(v),
                Box::new(e.copy()),
                copy_pos(p),
            ),
            Expr::Unresolved(n, p) => Expr::Unresolved(n.clone(), copy_pos(p)),
            Expr::UnresolvedFunCall(n, v, p) => Expr::UnresolvedFunCall(
                n.clone(),
                copy_exprs(v),
                copy_pos(p),
            ),
            Expr::UnresolvedAttribute(e, n, p) => Expr::UnresolvedAttribute(
                Box::new(e.copy()),
                n.clone(),
                copy_pos(p),
            ),
            Expr::UnresolvedMethCall(e, n, v, p) => Expr::UnresolvedMethCall(
                Box::new(e.copy()),
                n.clone(),
                copy_exprs(v),
                copy_pos(p),
            ),
        }
    }
}

/// A copy of a list of expressions.
pub fn copy_exprs(v: &Vec<Expr>) -> (r: Vec<Expr>)
    ensures
        exprs_view(r@) == exprs_view(v@),
    decreases v,
{
    let mut w: Vec<Expr> = Vec::new();
    let mut i: usize = 0;
    while i < v.len()
        invariant
            i <= v.len(),
            w@.len() == i,
            forall|j: int| 0 <= j < i ==> #[trigger] w@[j]@ == v@[j]@,
        decreases v.len() - i,
    {
        proof {
            assert(decreases_to!(*v => v@[i as int]));
        }
        w.push(v[i].copy());
        i += 1;
    }
    proof {
        lemma_exprs_view_eq(w@, v@);
    }
    w
}

/// A copy of a list of pairs of expressions.
pub fn copy_pairs(v: &Vec<(Expr, Expr)>) -> (r: Vec<(Expr, Expr)>)
    ensures
        pairs_view(r@) == pairs_view(v@),
    decreases v,
{
    let mut w: Vec<(Expr, Expr)> = Vec::new();
    let mut i: usize = 0;
    while i < v.len()
        invariant
            i <= v.len(),
            w@.len() == i,
            forall|j: int| 0 <= j < i ==> #[trigger] w@[j].0@ == v@[j].0@ && w@[j].1@ == v@[j].1@,
        decreases v.len() - i,
    {
        proof {
            assert(decreases_to!(*v => v@[i as int]));
            assert(decreases_to!(v@[i as int] => v@[i as int].0));
            assert(decreases_to!(v@[i as int] => v@[i as int].1));
        }
        let a = v[i].0.copy();
        let b = v[i].1.copy();
        w.push((a, b));
        i += 1;
    }
    proof {
        lemma_pairs_view(w@);
        lemma_pairs_view(v@);
        assert(pairs_view(w@) =~= pairs_view(v@));
    }
    w
}

} // verus!
