//! What the solver is asked about a problem: its assertions and, for an
//! optimization, the objective with its bound.

use crate::problem::expression::type_inference::spec_type_inference;
use crate::problem::problem::Problem;
use crate::problem::problem::SpecProblem;
use crate::problem::search::Bound;
use crate::problem::search::Search;
use crate::problem::search::SpecSearch;
use crate::solve::encoding::spec_term;
use crate::solve::script::assertions;
use crate::solve::script::spec_assertions;
use crate::solve::smt::to_int;
use crate::solve::smt::to_real;
use crate::solve::term::Sort;
use crate::solve::term::SpecTerm;
use crate::solve::term::Term;
use crate::solve::term::terms_view;
use vstd::prelude::*;

verus! {

/// An objective: the bound asserted of it, the term to optimize, and
/// whether it is minimized.
pub struct Objective {
    pub bound: Term,
    pub goal: Term,
    pub minimize: bool,
}

/// Everything handed to the solver: the assertions, the objective if the
/// problem is an optimization, and whether an optimizing solver is needed.
pub struct Script {
    pub assertions: Vec<Term>,
    pub objective: Option<Objective>,
    pub optimize: bool,
}

/// The objective of an optimization, as (bound asserted, term optimized,
/// minimized); none for a plain search. The bound is a lower bound of a
/// minimized objective and an upper bound of a maximized one, an integer
/// or a real after the bound given.
pub open spec fn spec_objective(p: SpecProblem) -> Option<Option<(SpecTerm, SpecTerm, bool)>> {
    match p.search {
        SpecSearch::Solve => Some(None),
        SpecSearch::Optimize(e, b, m) => {
            let x = spec_type_inference(p, e);
            let (t, v) = match b {
                Bound::Int(i) => (spec_term(p, x, seq![], Sort::Int), SpecTerm::IntValue(i)),
                Bound::Real(r) => (spec_term(p, x, seq![], Sort::Real), SpecTerm::RealValue(r)),
            };
            match t {
                Some(t) => Some(
                    Some(
                        (
                            if m {
                                SpecTerm::Ge(Box::new(t), Box::new(v))
                            } else {
                                SpecTerm::Le(Box::new(t), Box::new(v))
                            },
                            t,
                            m,
                        ),
                    ),
                ),
                None => None,
            }
        },
    }
}

/// The view of an optional objective.
pub open spec fn objective_view(o: Option<Objective>) -> Option<(SpecTerm, SpecTerm, bool)> {
    match o {
        Some(x) => Some((x.bound@, x.goal@, x.minimize)),
        None => None,
    }
}

/// The objective of the problem: `Some(None)` for a plain search,
/// `Some(Some(..))` for an optimization, `None` where the objective has no
/// term.
pub fn objective(problem: &Problem) -> (r: Option<Option<Objective>>)
    requires
        problem@.wf(),
        problem@.exprs_resolved(),
    ensures
        match r {
            Some(o) => spec_objective(problem@) == Some(objective_view(o)),
            None => spec_objective(problem@) is None,
        },
{
    match problem.search() {
        Search::Solve => Some(None),
        Search::Optimize(e, b, m) => {
            let x = e.type_inference(problem);
            let ghost vs = match b {
                Bound::Int(i) => SpecTerm::IntValue(*i),
                Bound::Real(r) => SpecTerm::RealValue(*r),
            };
            let (t, v) = match b {
                Bound::Int(i) => {
                    let v = Term::IntValue(*i);
                    assert(v@ == SpecTerm::IntValue(*i));
                    (to_int(problem, &x), v)
                },
                Bound::Real(r) => {
                    let v = Term::RealValue(*r);
                    assert(v@ == SpecTerm::RealValue(*r));
                    (to_real(problem, &x), v)
                },
            };
            assert(v@ == vs);
            match t {
                Some(t) => {
                    let t2 = t.copy();
                    let bound = if *m {
                        Term::Ge(Box::new(t2), Box::new(v))
                    } else {
                        Term::Le(Box::new(t2), Box::new(v))
                    };
                    assert(bound@ == if *m {
                        SpecTerm::Ge(Box::new(t@), Box::new(vs))
                    } else {
                        SpecTerm::Le(Box::new(t@), Box::new(vs))
                    });
                    Some(Some(Objective { bound, goal: t, minimize: *m }))
                },
                None => None,
            }
        },
    }
}

/// What the solver is told about a well formed, resolved problem; `None`
/// where an expression has no term. An optimizing solver is used when
/// `optimize` is asked for or the problem is an optimization.
pub fn init(problem: &Problem, optimize: bool) -> (r: Option<Script>)
    requires
        problem@.wf(),
        problem@.exprs_resolved(),
    ensures
        r is Some <==> (spec_assertions(problem@) is Some && spec_objective(problem@) is Some),
        r matches Some(s) ==> {
            &&& Some(terms_view(s.assertions@)) == spec_assertions(problem@)
            &&& Some(objective_view(s.objective)) == spec_objective(problem@)
            &&& s.optimize == (optimize || problem@.search is Optimize)
        },
{
    let a = assertions(problem);
    let o = objective(problem);
    match (a, o) {
        (Some(a), Some(o)) => Some(
            Script { assertions: a, objective: o, optimize: optimize || problem.search().is_optimize() },
        ),
        _ => None,
    }
}

} // verus!
