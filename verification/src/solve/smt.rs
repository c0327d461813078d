//! The encoding of the expressions of a problem as solver terms.

use crate::problem::class::Class;
use crate::problem::class::spec_super_class;
use crate::problem::constraint::Constraint;
use crate::problem::expression::expr::BinOp;
use crate::problem::expression::expr::Expr;
use crate::problem::expression::expr::QtOp;
use crate::problem::expression::expr::SpecExpr;
use crate::problem::expression::expr::UnaryOp;
use crate::problem::expression::expr::copy_pairs;
use crate::problem::expression::expr::exprs_view;
use crate::problem::expression::expr::lemma_exprs_view;
use crate::problem::expression::expr::lemma_pairs_view;
use crate::problem::expression::expr::pairs_view;
use crate::problem::expression::typ::lemma_typ_valid;
use crate::problem::function::Function;
use crate::problem::hierarchy::chain;
use crate::problem::ids::ClassId;
use crate::problem::ids::InstanceId;
use crate::problem::instance::Instance;
use crate::problem::parameter::Parameter;
use crate::problem::parameter::params_view;
use crate::problem::problem::Problem;
use crate::problem::relations::spec_all;
use crate::problem::relations::type_valid;
use crate::problem::structure::Structure;
use crate::problem::typing::Type;
use crate::problem::valid::expr_valid;
use crate::problem::valid::exprs_valid;
use crate::problem::valid::lemma_exprs_valid;
use crate::problem::valid::lemma_pairs_valid;
use crate::problem::valid::pairs_valid;
use crate::problem::valid::params_valid;
use crate::problem::variable::Variable;
use crate::problem::variable::opt_expr;
use crate::solve::encoding::args_terms;
use crate::solve::encoding::binary_term;
use crate::solve::encoding::body_sort;
use crate::solve::encoding::bound_value;
use crate::solve::encoding::cast;
use crate::solve::encoding::cast_term;
use crate::solve::encoding::clamp_term;
use crate::solve::encoding::dyn_term;
use crate::solve::encoding::first_index;
use crate::solve::encoding::instance_term;
use crate::solve::encoding::ite_chain;
use crate::solve::encoding::lemma_args_none;
use crate::solve::encoding::lemma_pairs_none;
use crate::solve::encoding::lemma_values_none;
use crate::solve::encoding::level_terms;
use crate::solve::encoding::operand_sort;
use crate::solve::encoding::pairs_terms;
use crate::solve::encoding::quantifier_term;
use crate::solve::encoding::sort_of;
use crate::solve::encoding::spec_term;
use crate::solve::encoding::value_term;
use crate::solve::encoding::values_terms;
use crate::solve::term::Sort;
use crate::solve::term::SpecTerm;
use crate::solve::term::Symbol;
use crate::solve::term::Term;
use crate::solve::term::lemma_terms_concat;
use crate::solve::term::lemma_terms_push;
use crate::solve::term::lemma_terms_view;
use crate::solve::term::terms_view;
use vstd::string::*;
use vstd::prelude::*;

verus! {

/// The view of an optional term.
pub open spec fn opt_term(r: Option<Term>) -> Option<SpecTerm> {
    match r {
        Some(t) => Some(t@),
        None => None,
    }
}

/// The view of an optional list of terms.
pub open spec fn opt_terms(r: Option<Vec<Term>>) -> Option<Seq<SpecTerm>> {
    match r {
        Some(v) => Some(terms_view(v@)),
        None => None,
    }
}

/// The view of a list of pairs of terms.
pub open spec fn tpairs_view(s: Seq<(Term, Term)>) -> Seq<(SpecTerm, SpecTerm)> {
    s.map_values(|q: (Term, Term)| (q.0@, q.1@))
}

impl Term {
    /// A copy of the term.
    pub fn copy(&self) -> (r: Term)
        ensures
            r@ == self@,
        decreases self,
    {
        match self {
            Term::BoolValue(b) => Term::BoolValue(*b),
            Term::IntValue(v) => Term::IntValue(*v),
            Term::RealValue(v) => Term::RealValue(*v),
            Term::Variable(id, s) => Term::Variable(*id, *s),
            Term::Constraint(id) => Term::Constraint(*id),
            Term::StrucInstance(id) => Term::StrucInstance(*id),
            Term::ClassInstance(id) => Term::ClassInstance(*id),
            Term::Object(t, a, b) => Term::Object(Box::new(t.copy()), *a, *b),
            Term::Not(t) => Term::Not(Box::new(t.copy())),
            Term::Minus(t) => Term::Minus(Box::new(t.copy())),
            Term::Eq(l, r) => Term::Eq(Box::new(l.copy()), Box::new(r.copy())),
            Term::And(v) => Term::And(copy_terms(v)),
            Term::Or(v) => Term::Or(copy_terms(v)),
            Term::Implies(l, r) => Term::Implies(Box::new(l.copy()), Box::new(r.copy())),
            Term::Lt(l, r) => Term::Lt(Box::new(l.copy()), Box::new(r.copy())),
            Term::Le(l, r) => Term::Le(Box::new(l.copy()), Box::new(r.copy())),
            Term::Ge(l, r) => Term::Ge(Box::new(l.copy()), Box::new(r.copy())),
            Term::Gt(l, r) => Term::Gt(Box::new(l.copy()), Box::new(r.copy())),
            Term::Add(v) => Term::Add(copy_terms(v)),
            Term::Sub(l, r) => Term::Sub(Box::new(l.copy()), Box::new(r.copy())),
            Term::Mul(v) => Term::Mul(copy_terms(v)),
            Term::Div(l, r) => Term::Div(Box::new(l.copy()), Box::new(r.copy())),
            Term::ToReal(t) => Term::ToReal(Box::new(t.copy())),
            Term::ToInt(t) => Term::ToInt(Box::new(t.copy())),
            Term::Ite(c, t, e) => Term::Ite(Box::new(c.copy()), Box::new(t.copy()), Box::new(e.copy())),
            Term::Apply(f, v, s) => Term::Apply(*f, copy_terms(v), *s),
        }
    }
}

/// A copy of a list of terms.
fn copy_terms(v: &Vec<Term>) -> (r: Vec<Term>)
    ensures
        terms_view(r@) == terms_view(v@),
    decreases v,
{
    let mut w: Vec<Term> = Vec::new();
    let mut i: usize = 0;
    while i < v.len()
        invariant
            i <= v.len(),
            terms_view(w@) == terms_view(v@.take(i as int)),
        decreases v.len() - i,
    {
        proof {
            assert(decreases_to!(*v => v@[i as int]));
        }
        let t = v[i].copy();
        proof {
            lemma_terms_push(w@, t);
            assert(v@.take(i + 1).drop_last() == v@.take(i as int));
            assert(v@.take(i + 1).last() == v@[i as int]);
        }
        w.push(t);
        i += 1;
    }
    proof {
        assert(v@.take(v.len() as int) == v@);
    }
    w
}

/// The sort of the terms of a type.
pub fn sort_of_type(t: &Type) -> (r: Option<Sort>)
    ensures
        r == sort_of(t@),
{
    match t {
        Type::Bool => Some(Sort::Bool),
        Type::Int => Some(Sort::Int),
        Type::Interval(_, _) => Some(Sort::Int),
        Type::Real => Some(Sort::Real),
        Type::Structure(_) => Some(Sort::Datatype),
        Type::Class(_) => Some(Sort::Datatype),
        _ => None,
    }
}

/// Whether an optional sort is `s`.
fn is_sort(a: Option<Sort>, s: Sort) -> (r: bool)
    ensures
        r == (a == Some(s)),
{
    match a {
        Some(x) => x == s,
        None => false,
    }
}

/// Pushing a pair pushes its view.
proof fn lemma_pairs_push(s: Seq<(Expr, Expr)>, b: (Expr, Expr))
    ensures
        pairs_view(s.push(b)) == pairs_view(s).push((b.0@, b.1@)),
{
    assert(s.push(b).drop_last() == s);
}

/// The value of the outermost binding of `env` whose key is the same as
/// `x`.
fn find_bound(env: &Vec<(Expr, Expr)>, x: &Expr) -> (r: Option<Expr>)
    ensures
        opt_expr(r) == bound_value(pairs_view(env@), x@),
{
    let ghost ev = pairs_view(env@);
    proof {
        lemma_pairs_view(env@);
    }
    let mut r: Option<Expr> = None;
    let mut i: usize = 0;
    while i < env.len()
        invariant
            i <= env.len(),
            ev == pairs_view(env@),
            ev.len() == env.len(),
            forall|k: int| 0 <= k < env.len() ==> #[trigger] ev[k] == (env@[k].0@, env@[k].1@),
            opt_expr(r) == bound_value(ev.take(i as int), x@),
        decreases env.len() - i,
    {
        proof {
            assert(ev.take(i + 1).drop_last() == ev.take(i as int));
            assert(ev.take(i + 1).last() == ev[i as int]);
        }
        if r.is_none() && env[i].0.is_same(x) {
            r = Some(env[i].1.copy());
        }
        i += 1;
    }
    proof {
        assert(ev.take(env.len() as int) == ev);
    }
    r
}

/// The position of the first occurrence of `c` in `v`.
fn first_class_index(v: &Vec<ClassId>, c: ClassId) -> (r: Option<usize>)
    ensures
        r matches Some(k) ==> k < v.len(),
        (match r {
            Some(k) => Some(k as int),
            None => None,
        }) == first_index(v@, c),
{
    let mut r: Option<usize> = None;
    let mut i: usize = 0;
    while i < v.len()
        invariant
            i <= v.len(),
            r matches Some(k) ==> k < i,
            (match r {
                Some(k) => Some(k as int),
                None => None,
            }) == first_index(v@.take(i as int), c),
        decreases v.len() - i,
    {
        proof {
            assert(v@.take(i + 1).drop_last() == v@.take(i as int));
        }
        if r.is_none() && v[i].0 == c.0 {
            r = Some(i);
        }
        i += 1;
    }
    proof {
        assert(v@.take(v.len() as int) == v@);
    }
    r
}

/// An object of class `from` as an object of class `to`, carried up the
/// super classes; none where `to` is not above `from`.
fn cast_object(problem: &Problem, t: Term, from: ClassId, to: ClassId) -> (r: Option<Term>)
    requires
        problem@.wf(),
        from.0 < problem@.classes.len(),
    ensures
        opt_term(r) == cast(problem@, t@, from, to),
{
    let ghost p = problem@;
    let ghost t0 = t@;
    if from.0 == to.0 {
        return Some(t);
    }
    let class = problem.get_class(from).unwrap();
    proof {
        assert(spec_super_class(p.classes[from.0 as int]) matches Some(s) ==> s.0 < p.classes.len());
    }
    let supers = class.super_classes(problem);
    let k = first_class_index(&supers, to)?;
    let ghost path = supers@.take(k + 1);
    let mut acc = t;
    let mut prev = from;
    let mut j: usize = 0;
    while j <= k
        invariant
            k < supers.len(),
            j <= k + 1,
            path == supers@.take(k + 1),
            acc@ == cast_term(t0, from, supers@.take(j as int)),
            prev == (if j == 0 {
                from
            } else {
                supers@[j - 1]
            }),
        decreases k + 1 - j,
    {
        proof {
            assert(supers@.take(j + 1).drop_last() == supers@.take(j as int));
        }
        acc = Term::Object(Box::new(acc), prev, supers[j]);
        prev = supers[j];
        j += 1;
    }
    Some(acc)
}

/// The term of an instance.
fn instance_to_term(problem: &Problem, id: InstanceId) -> (r: Option<Term>)
    ensures
        opt_term(r) == instance_term(problem@, id),
{
    match problem.get_instance(id) {
        Some(inst) => match inst.typ() {
            Type::Structure(_) => Some(Term::StrucInstance(id)),
            Type::Class(_) => Some(Term::ClassInstance(id)),
            _ => None,
        },
        None => None,
    }
}

/// The term of sort `s` of the value `v` bound to a parameter of type `t`.
fn value_to_term(problem: &Problem, v: &Expr, t: &Type, s: Sort) -> (r: Option<Term>)
    requires
        problem@.wf(),
    ensures
        opt_term(r) == value_term(problem@, v@, t@, s),
{
    let ghost p = problem@;
    match v {
        Expr::BoolValue(b, _) => if s == Sort::Bool {
            Some(Term::BoolValue(*b))
        } else {
            None
        },
        Expr::IntValue(i, _) => if s == Sort::Int {
            Some(Term::IntValue(*i))
        } else {
            None
        },
        Expr::Instance(id, _) => {
            if s != Sort::Datatype {
                return None;
            }
            let x = instance_to_term(problem, *id)?;
            let inst = problem.get_instance(*id).unwrap();
            match (inst.typ(), t) {
                (Type::Class(c), Type::Class(a)) => {
                    proof {
                        assert(type_valid(p, p.instances[id.0 as int].typ));
                    }
                    cast_object(problem, x, *c, *a)
                },
                _ => Some(x),
            }
        },
        _ => None,
    }
}

/// The sort of the operands of a binary expression of sort `s` whose left
/// operand has type `t`.
fn operand_sort_of(s: Sort, t: &Type) -> (r: Option<Sort>)
    ensures
        r == operand_sort(s, t@),
{
    match s {
        Sort::Bool => sort_of_type(t),
        Sort::Int => if t.is_integer() {
            Some(Sort::Int)
        } else {
            None
        },
        Sort::Real => if t.is_integer() {
            Some(Sort::Int)
        } else if t.is_real() {
            Some(Sort::Real)
        } else {
            None
        },
        Sort::Datatype => None,
    }
}

/// Two terms as a list.
fn pair_list(l: Term, r: Term) -> (v: Vec<Term>)
    ensures
        terms_view(v@) == seq![l@, r@],
{
    let v = vec![l, r];
    proof {
        lemma_terms_view(v@);
        assert(terms_view(v@) =~= seq![l@, r@]);
    }
    v
}

/// The negation of the equality of two terms.
fn ne_term(l: Term, r: Term) -> (t: Term)
    ensures
        t@ == SpecTerm::Not(Box::new(SpecTerm::Eq(Box::new(l@), Box::new(r@)))),
{
    let e = Term::Eq(Box::new(l), Box::new(r));
    assert(e@ == SpecTerm::Eq(Box::new(l@), Box::new(r@)));
    Term::Not(Box::new(e))
}

/// The real quotient of two integer terms.
fn int_div_term(l: Term, r: Term) -> (t: Term)
    ensures
        t@ == SpecTerm::Div(
            Box::new(SpecTerm::ToReal(Box::new(l@))),
            Box::new(SpecTerm::ToReal(Box::new(r@))),
        ),
{
    let a = Term::ToReal(Box::new(l));
    assert(a@ == SpecTerm::ToReal(Box::new(l@)));
    let b = Term::ToReal(Box::new(r));
    assert(b@ == SpecTerm::ToReal(Box::new(r@)));
    Term::Div(Box::new(a), Box::new(b))
}

/// The term of sort `s` of a binary operation on operands of sort `o`.
fn binary_to_term(s: Sort, o: Sort, op: BinOp, l: Term, r: Term) -> (res: Option<Term>)
    ensures
        opt_term(res) == binary_term(s, o, op, l@, r@),
{
    match (s, o) {
        (Sort::Bool, Sort::Bool) => match op {
            BinOp::Eq => Some(Term::Eq(Box::new(l), Box::new(r))),
            BinOp::Ne => Some(ne_term(l, r)),
            BinOp::And => Some(Term::And(pair_list(l, r))),
            BinOp::Or => Some(Term::Or(pair_list(l, r))),
            BinOp::Implies => Some(Term::Implies(Box::new(l), Box::new(r))),
            _ => None,
        },
        (Sort::Bool, Sort::Datatype) => match op {
            BinOp::Eq => Some(Term::Eq(Box::new(l), Box::new(r))),
            BinOp::Ne => Some(ne_term(l, r)),
            _ => None,
        },
        (Sort::Bool, _) => match op {
            BinOp::Eq => Some(Term::Eq(Box::new(l), Box::new(r))),
            BinOp::Ne => Some(ne_term(l, r)),
            BinOp::Lt => Some(Term::Lt(Box::new(l), Box::new(r))),
            BinOp::Le => Some(Term::Le(Box::new(l), Box::new(r))),
            BinOp::Ge => Some(Term::Ge(Box::new(l), Box::new(r))),
            BinOp::Gt => Some(Term::Gt(Box::new(l), Box::new(r))),
            _ => None,
        },
        (Sort::Int, Sort::Int) => match op {
            BinOp::Add => Some(Term::Add(pair_list(l, r))),
            BinOp::Sub => Some(Term::Sub(Box::new(l), Box::new(r))),
            BinOp::Mul => Some(Term::Mul(pair_list(l, r))),
            _ => None,
        },
        (Sort::Real, Sort::Int) => match op {
            BinOp::Div => Some(int_div_term(l, r)),
            _ => None,
        },
        (Sort::Real, Sort::Real) => match op {
            BinOp::Add => Some(Term::Add(pair_list(l, r))),
            BinOp::Sub => Some(Term::Sub(Box::new(l), Box::new(r))),
            BinOp::Mul => Some(Term::Mul(pair_list(l, r))),
            BinOp::Div => Some(Term::Div(Box::new(l), Box::new(r))),
            _ => None,
        },
        _ => None,
    }
}

/// Conditionals nested from the branches `l`, in order, down to `e`.
fn ite_chain_of(l: Vec<(Term, Term)>, e: Term) -> (r: Term)
    ensures
        r@ == ite_chain(tpairs_view(l@), e@),
{
    let ghost goal = ite_chain(tpairs_view(l@), e@);
    let mut l = l;
    let mut acc = e;
    while l.len() > 0
        invariant
            goal == ite_chain(tpairs_view(l@), acc@),
        decreases l.len(),
    {
        let ghost before = l@;
        let (c, t) = l.pop().unwrap();
        proof {
            assert(tpairs_view(before).drop_last() =~= tpairs_view(l@));
            assert(tpairs_view(before).last() == (c@, t@));
        }
        acc = Term::Ite(Box::new(c), Box::new(t), Box::new(acc));
    }
    proof {
        assert(tpairs_view(l@) =~= seq![]);
    }
    acc
}

/// An integer term clamped to the interval from `min` to `max`.
fn clamp_to_term(t: Term, min: isize, max: isize) -> (r: Term)
    ensures
        r@ == clamp_term(t@, min, max),
{
    let ghost v = t@;
    let t1 = t.copy();
    let t2 = t.copy();
    let m1 = Term::IntValue(min);
    let m2 = Term::IntValue(min);
    let x1 = Term::IntValue(max);
    let x2 = Term::IntValue(max);
    assert(m1@ == SpecTerm::IntValue(min) && m2@ == SpecTerm::IntValue(min));
    assert(x1@ == SpecTerm::IntValue(max) && x2@ == SpecTerm::IntValue(max));
    let lo = Term::Lt(Box::new(t1), Box::new(m1));
    assert(lo@ == SpecTerm::Lt(Box::new(v), Box::new(SpecTerm::IntValue(min))));
    let hi = Term::Gt(Box::new(t2), Box::new(x1));
    assert(hi@ == SpecTerm::Gt(Box::new(v), Box::new(SpecTerm::IntValue(max))));
    let inner = Term::Ite(Box::new(hi), Box::new(x2), Box::new(t));
    assert(inner@ == SpecTerm::Ite(
        Box::new(SpecTerm::Gt(Box::new(v), Box::new(SpecTerm::IntValue(max)))),
        Box::new(SpecTerm::IntValue(max)),
        Box::new(v),
    ));
    Term::Ite(Box::new(lo), Box::new(m2), Box::new(inner))
}

/// The term of a quantifier of sort `s` over the terms `v` of its body.
fn quantifier_to_term(op: QtOp, s: Sort, v: Vec<Term>) -> (r: Option<Term>)
    ensures
        opt_term(r) == quantifier_term(op, s, terms_view(v@)),
{
    proof {
        lemma_terms_view(v@);
    }
    let empty = v.len() == 0;
    match (op, s) {
        (QtOp::Forall, Sort::Bool) => Some(Term::And(v)),
        (QtOp::Exists, Sort::Bool) => Some(Term::Or(v)),
        (QtOp::Sum, Sort::Int) => Some(
            if empty {
                Term::IntValue(0)
            } else {
                Term::Add(v)
            },
        ),
        (QtOp::Sum, Sort::Real) => Some(
            if empty {
                let z = Term::IntValue(0);
                assert(z@ == SpecTerm::IntValue(0));
                Term::ToReal(Box::new(z))
            } else {
                Term::Add(v)
            },
        ),
        (QtOp::Prod, Sort::Int) => Some(
            if empty {
                Term::IntValue(1)
            } else {
                Term::Mul(v)
            },
        ),
        (QtOp::Prod, Sort::Real) => Some(
            if empty {
                let o = Term::IntValue(1);
                assert(o@ == SpecTerm::IntValue(1));
                Term::ToReal(Box::new(o))
            } else {
                Term::Mul(v)
            },
        ),
        _ => None,
    }
}

/// The sort of the body of a quantifier of sort `s`.
fn body_sort_of(op: QtOp, s: Sort) -> (r: Sort)
    ensures
        r == body_sort(op, s),
{
    match op {
        QtOp::Forall => Sort::Bool,
        QtOp::Exists => Sort::Bool,
        _ => s,
    }
}

/// The term of sort `s` of expression `e`, the parameters of the enclosing
/// quantifiers bound by `env`; `None` where the expression has no term of
/// that sort.
#[verifier::rlimit(60)]
pub fn to_term(problem: &Problem, e: &Expr, env: &Vec<(Expr, Expr)>, s: Sort) -> (r: Option<Term>)
    requires
        problem@.wf(),
        expr_valid(problem@, e@),
    ensures
        opt_term(r) == spec_term(problem@, e@, pairs_view(env@), s),
    decreases e, 0nat, 0nat,
{
    let ghost p = problem@;
    let ghost ev = pairs_view(env@);
    match e {
        Expr::BoolValue(b, _) => if s == Sort::Bool {
            Some(Term::BoolValue(*b))
        } else {
            None
        },
        Expr::IntValue(v, _) => if s == Sort::Int {
            Some(Term::IntValue(*v))
        } else {
            None
        },
        Expr::RealValue(v, _) => if s == Sort::Real {
            Some(Term::RealValue(*v))
        } else {
            None
        },
        Expr::Unary(op, x, _) => match (op, s) {
            (UnaryOp::Not, Sort::Bool) => {
                let t = to_term(problem, x, env, s)?;
                Some(Term::Not(Box::new(t)))
            },
            (UnaryOp::Minus, Sort::Int) => {
                let t = to_term(problem, x, env, s)?;
                Some(Term::Minus(Box::new(t)))
            },
            (UnaryOp::Minus, Sort::Real) => {
                let t = to_term(problem, x, env, s)?;
                Some(Term::Minus(Box::new(t)))
            },
            _ => None,
        },
        Expr::Binary(l, op, r, _) => {
            let o = operand_sort_of(s, &l.typ(problem))?;
            let a = to_term(problem, l, env, o);
            let b = to_term(problem, r, env, o);
            match (a, b) {
                (Some(a), Some(b)) => binary_to_term(s, o, *op, a, b),
                _ => None,
            }
        },
        Expr::Variable(id, _) => {
            let v = problem.get_variable(*id)?;
            if is_sort(sort_of_type(v.typ()), s) {
                Some(Term::Variable(*id, s))
            } else {
                None
            }
        },
        Expr::Parameter(x) => match find_bound(env, e) {
            Some(v) => value_to_term(problem, &v, x.typ(), s),
            None => None,
        },
        Expr::StrucSelf(id, _) => match find_bound(env, e) {
            Some(v) => value_to_term(problem, &v, &Type::Structure(*id), s),
            None => None,
        },
        Expr::ClassSelf(id, _) => match find_bound(env, e) {
            Some(v) => value_to_term(problem, &v, &Type::Class(*id), s),
            None => None,
        },
        Expr::FunctionCall(id, a, _) => {
            let f = problem.get_function(*id)?;
            proof {
                lemma_exprs_view(a@);
            }
            if !is_sort(sort_of_type(f.typ()), s) || a.len() != f.parameters().len() {
                return None;
            }
            proof {
                lemma_exprs_view(a@);
            }
            let v = args_to_terms(problem, a, env)?;
            Some(Term::Apply(Symbol::Function(*id), v, s))
        },
        Expr::Instance(id, _) => if s == Sort::Datatype {
            instance_to_term(problem, *id)
        } else {
            None
        },
        Expr::StrucAttribute(x, id, _) => {
            let att = problem.get_struct_attribute(*id);
            if !is_sort(sort_of_type(att.typ()), s) {
                return None;
            }
            let t = to_term(problem, x, env, Sort::Datatype)?;
            let v = vec![t];
            proof {
                lemma_terms_view(v@);
                assert(terms_view(v@) =~= seq![t@]);
            }
            Some(Term::Apply(Symbol::StrucAttribute(*id), v, s))
        },
        Expr::StrucMetCall(x, id, a, _) => {
            let m = problem.get_struct_method(*id);
            proof {
                lemma_exprs_view(a@);
            }
            if !is_sort(sort_of_type(m.typ()), s) || a.len() != m.parameters().len() {
                return None;
            }
            proof {
                lemma_exprs_view(a@);
            }
            let t = dyn_to_term(problem, x, env)?;
            let mut v = args_to_terms(problem, a, env)?;
            let mut w = vec![t];
            proof {
                lemma_terms_view(w@);
                assert(terms_view(w@) =~= seq![t@]);
                lemma_terms_concat(w@, v@);
            }
            w.append(&mut v);
            Some(Term::Apply(Symbol::StrucMethod(*id), w, s))
        },
        Expr::ClassAttribute(x, id, _) => {
            let att = problem.get_class_attribute(*id);
            if !is_sort(sort_of_type(att.typ()), s) {
                return None;
            }
            let t = to_term(problem, x, env, Sort::Datatype)?;
            let v = vec![t];
            proof {
                lemma_terms_view(v@);
                assert(terms_view(v@) =~= seq![t@]);
            }
            Some(Term::Apply(Symbol::ClassAttribute(*id), v, s))
        },
        Expr::ClassMetCall(x, id, a, _) => {
            let m = problem.get_class_method(*id);
            proof {
                lemma_exprs_view(a@);
            }
            if !is_sort(sort_of_type(m.typ()), s) || a.len() != m.parameters().len() {
                return None;
            }
            proof {
                lemma_exprs_view(a@);
            }
            let t = dyn_to_term(problem, x, env)?;
            let mut v = args_to_terms(problem, a, env)?;
            let mut w = vec![t];
            proof {
                lemma_terms_view(w@);
                assert(terms_view(w@) =~= seq![t@]);
                lemma_terms_concat(w@, v@);
            }
            w.append(&mut v);
            Some(Term::Apply(Symbol::ClassMethod(*id), w, s))
        },
        Expr::AsClass(x, id) => {
            if s != Sort::Datatype {
                return None;
            }
            proof {
                lemma_typ_valid(p, x@);
            }
            match x.typ(problem) {
                Type::Class(c) => {
                    let t = to_term(problem, x, env, s)?;
                    cast_object(problem, t, c, *id)
                },
                _ => None,
            }
        },
        Expr::AsInterval(x, min, max, _) => {
            if s != Sort::Int {
                return None;
            }
            let t = to_term(problem, x, env, s)?;
            Some(clamp_to_term(t, *min, *max))
        },
        Expr::AsInt(x, _) => {
            if s != Sort::Int {
                return None;
            }
            let t = x.typ(problem);
            if t.is_integer() {
                to_term(problem, x, env, Sort::Int)
            } else if t.is_real() {
                let y = to_term(problem, x, env, Sort::Real)?;
                Some(Term::ToInt(Box::new(y)))
            } else {
                None
            }
        },
        Expr::AsReal(x, _) => {
            if s != Sort::Real {
                return None;
            }
            let t = x.typ(problem);
            if t.is_integer() {
                let y = to_term(problem, x, env, Sort::Int)?;
                Some(Term::ToReal(Box::new(y)))
            } else if t.is_real() {
                to_term(problem, x, env, Sort::Real)
            } else {
                None
            }
        },
        Expr::IfThenElse(c, t, l, x, _) => {
            proof {
                lemma_pairs_view(l@);
            }
            let c2 = to_term(problem, c, env, Sort::Bool);
            let t2 = to_term(problem, t, env, s);
            let l2 = pairs_to_terms(problem, l, env, s);
            let x2 = to_term(problem, x, env, s);
            match (c2, t2, l2, x2) {
                (Some(c2), Some(t2), Some(l2), Some(x2)) => {
                    let chain = ite_chain_of(l2, x2);
                    Some(Term::Ite(Box::new(c2), Box::new(t2), Box::new(chain)))
                },
                _ => None,
            }
        },
        Expr::Quantifier(op, ps, x, _) => {
            let bs = body_sort_of(*op, s);
            let v = level_to_terms(problem, ps, 0, x, env, bs)?;
            quantifier_to_term(*op, s, v)
        },
        _ => None,
    }
}

/// The term of an expression in the sort of its type.
fn dyn_to_term(problem: &Problem, e: &Expr, env: &Vec<(Expr, Expr)>) -> (r: Option<Term>)
    requires
        problem@.wf(),
        expr_valid(problem@, e@),
    ensures
        opt_term(r) == dyn_term(problem@, e@, pairs_view(env@)),
    decreases e, 1nat, 0nat,
{
    let s = sort_of_type(&e.typ(problem))?;
    to_term(problem, e, env, s)
}

/// The terms of the arguments, each in the sort of its type.
fn args_to_terms(problem: &Problem, a: &Vec<Expr>, env: &Vec<(Expr, Expr)>) -> (r: Option<
    Vec<Term>,
>)
    requires
        problem@.wf(),
        exprs_valid(problem@, exprs_view(a@)),
    ensures
        opt_terms(r) == args_terms(problem@, exprs_view(a@), pairs_view(env@), a.len() as nat),
    decreases a, 0nat, 0nat,
{
    let ghost p = problem@;
    let ghost s = exprs_view(a@);
    let ghost ev = pairs_view(env@);
    proof {
        lemma_exprs_view(a@);
        lemma_exprs_valid(p, s);
    }
    let mut w: Vec<Term> = Vec::new();
    let mut i: usize = 0;
    while i < a.len()
        invariant
            p == problem@,
            p.wf(),
            s == exprs_view(a@),
            ev == pairs_view(env@),
            s.len() == a.len(),
            i <= a.len(),
            forall|k: int| 0 <= k < a.len() ==> #[trigger] s[k] == a@[k]@,
            forall|k: int| 0 <= k < a.len() ==> #[trigger] expr_valid(p, s[k]),
            args_terms(p, s, ev, i as nat) == Some(terms_view(w@)),
        decreases a.len() - i,
    {
        proof {
            assert(decreases_to!(*a => a@[i as int]));
            assert(s[i as int] == a@[i as int]@);
            assert(expr_valid(p, s[i as int]));
        }
        match dyn_to_term(problem, &a[i], env) {
            Some(t) => {
                proof {
                    lemma_terms_push(w@, t);
                }
                w.push(t);
            },
            None => {
                proof {
                    lemma_args_none(p, s, ev, (i + 1) as nat, a.len() as nat);
                }
                return None;
            },
        }
        i += 1;
    }
    Some(w)
}

/// The terms of the branches of a conditional: the condition a boolean, the
/// result of sort `s`.
fn pairs_to_terms(problem: &Problem, l: &Vec<(Expr, Expr)>, env: &Vec<(Expr, Expr)>, s: Sort) -> (r: Option<
    Vec<(Term, Term)>,
>)
    requires
        problem@.wf(),
        pairs_valid(problem@, pairs_view(l@)),
    ensures
        match r {
            Some(v) => pairs_terms(problem@, pairs_view(l@), pairs_view(env@), s, l.len() as nat)
                == Some(tpairs_view(v@)),
            None => pairs_terms(problem@, pairs_view(l@), pairs_view(env@), s, l.len() as nat)
                is None,
        },
    decreases l, 0nat, 0nat,
{
    let ghost p = problem@;
    let ghost sv = pairs_view(l@);
    let ghost ev = pairs_view(env@);
    proof {
        lemma_pairs_view(l@);
        lemma_pairs_valid(p, sv);
    }
    let mut w: Vec<(Term, Term)> = Vec::new();
    let mut i: usize = 0;
    while i < l.len()
        invariant
            p == problem@,
            p.wf(),
            sv == pairs_view(l@),
            ev == pairs_view(env@),
            sv.len() == l.len(),
            i <= l.len(),
            forall|k: int| 0 <= k < l.len() ==> #[trigger] sv[k] == (l@[k].0@, l@[k].1@),
            forall|k: int|
                0 <= k < l.len() ==> expr_valid(p, (#[trigger] sv[k]).0) && expr_valid(p, sv[k].1),
            pairs_terms(p, sv, ev, s, i as nat) == Some(tpairs_view(w@)),
        decreases l.len() - i,
    {
        proof {
            assert(decreases_to!(*l => l@[i as int]));
            assert(decreases_to!(l@[i as int] => l@[i as int].0));
            assert(decreases_to!(l@[i as int] => l@[i as int].1));
            assert(sv[i as int] == (l@[i as int].0@, l@[i as int].1@));
            assert(expr_valid(p, sv[i as int].0));
        }
        let c = to_term(problem, &l[i].0, env, Sort::Bool);
        let t = to_term(problem, &l[i].1, env, s);
        match (c, t) {
            (Some(c), Some(t)) => {
                let ghost before = w@;
                w.push((c, t));
                proof {
                    assert(tpairs_view(w@) =~= tpairs_view(before).push((c@, t@)));
                }
            },
            _ => {
                proof {
                    lemma_pairs_none(p, sv, ev, s, (i + 1) as nat, l.len() as nat);
                }
                return None;
            },
        }
        i += 1;
    }
    Some(w)
}

/// The terms of sort `s` of the body `x` of a quantifier, one for each
/// combination of values of the parameters from the `i`-th on.
pub fn level_to_terms(
    problem: &Problem,
    ps: &Vec<Parameter>,
    i: usize,
    x: &Expr,
    env: &Vec<(Expr, Expr)>,
    s: Sort,
) -> (r: Option<Vec<Term>>)
    requires
        problem@.wf(),
        params_valid(problem@, params_view(ps@)),
        expr_valid(problem@, x@),
    ensures
        opt_terms(r) == level_terms(problem@, params_view(ps@), i as nat, x@, pairs_view(env@), s),
    decreases x, if i < ps.len() {
        ps.len() - i + 1
    } else {
        1
    }, 0nat,
{
    let ghost p = problem@;
    let ghost pv = params_view(ps@);
    let ghost ev = pairs_view(env@);
    if i >= ps.len() {
        let t = to_term(problem, x, env, s)?;
        let v = vec![t];
        proof {
            lemma_terms_view(v@);
            assert(terms_view(v@) =~= seq![t@]);
        }
        return Some(v);
    }
    proof {
        assert(pv[i as int] == ps@[i as int]@);
        assert(type_valid(p, pv[i as int].typ));
    }
    let vals = ps[i].typ().all(problem);
    let ghost vv = exprs_view(vals@);
    proof {
        lemma_exprs_view(vals@);
    }
    let mut out: Vec<Term> = Vec::new();
    let mut k: usize = 0;
    while k < vals.len()
        invariant
            p == problem@,
            p.wf(),
            pv == params_view(ps@),
            ev == pairs_view(env@),
            params_valid(p, pv),
            expr_valid(p, x@),
            i < ps.len(),
            vv == exprs_view(vals@),
            vv == spec_all(p, pv[i as int].typ),
            vv.len() == vals.len(),
            forall|j: int| 0 <= j < vals.len() ==> #[trigger] vv[j] == vals@[j]@,
            k <= vals.len(),
            values_terms(p, pv, i as nat, vv, k as nat, x@, ev, s) == Some(terms_view(out@)),
        decreases vals.len() - k,
    {
        let mut env2 = copy_pairs(env);
        let b = (Expr::Parameter(ps[i].copy()), vals[k].copy());
        let ghost bv = (b.0@, b.1@);
        proof {
            lemma_pairs_push(env2@, b);
        }
        env2.push(b);
        proof {
            assert(pairs_view(env2@) == ev.push((SpecExpr::Parameter(pv[i as int]), vv[k as int])));
        }
        match level_to_terms(problem, ps, i + 1, x, &env2, s) {
            Some(mut part) => {
                proof {
                    lemma_terms_concat(out@, part@);
                }
                out.append(&mut part);
            },
            None => {
                proof {
                    lemma_values_none(p, pv, i as nat, vv, x@, ev, s, (k + 1) as nat, vals.len() as nat);
                }
                return None;
            },
        }
        k += 1;
    }
    Some(out)
}

/// The boolean term of an expression (none where it has none).
pub fn to_bool(problem: &Problem, e: &Expr) -> (r: Option<Term>)
    requires
        problem@.wf(),
        expr_valid(problem@, e@),
    ensures
        opt_term(r) == spec_term(problem@, e@, seq![], Sort::Bool),
{
    let env: Vec<(Expr, Expr)> = Vec::new();
    proof {
        lemma_pairs_view(env@);
        assert(pairs_view(env@) =~= seq![]);
    }
    to_term(problem, e, &env, Sort::Bool)
}

/// The integer term of an expression (none where it has none).
pub fn to_int(problem: &Problem, e: &Expr) -> (r: Option<Term>)
    requires
        problem@.wf(),
        expr_valid(problem@, e@),
    ensures
        opt_term(r) == spec_term(problem@, e@, seq![], Sort::Int),
{
    let env: Vec<(Expr, Expr)> = Vec::new();
    proof {
        lemma_pairs_view(env@);
        assert(pairs_view(env@) =~= seq![]);
    }
    to_term(problem, e, &env, Sort::Int)
}

/// The real term of an expression (none where it has none).
pub fn to_real(problem: &Problem, e: &Expr) -> (r: Option<Term>)
    requires
        problem@.wf(),
        expr_valid(problem@, e@),
    ensures
        opt_term(r) == spec_term(problem@, e@, seq![], Sort::Real),
{
    let env: Vec<(Expr, Expr)> = Vec::new();
    proof {
        lemma_pairs_view(env@);
        assert(pairs_view(env@) =~= seq![]);
    }
    to_term(problem, e, &env, Sort::Real)
}

/// The datatype term of an expression: a structure or class value (none
/// where it has none).
pub fn to_datatype(problem: &Problem, e: &Expr) -> (r: Option<Term>)
    requires
        problem@.wf(),
        expr_valid(problem@, e@),
    ensures
        opt_term(r) == spec_term(problem@, e@, seq![], Sort::Datatype),
{
    let env: Vec<(Expr, Expr)> = Vec::new();
    proof {
        lemma_pairs_view(env@);
        assert(pairs_view(env@) =~= seq![]);
    }
    to_term(problem, e, &env, Sort::Datatype)
}

} // verus!
