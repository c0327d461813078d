//! What the solver is asked: any solution, or an optimal one.

use crate::problem::expression::expr::Expr;
use crate::problem::expression::expr::SpecExpr;
use crate::problem::rational::Rational;
use vstd::prelude::*;

verus! {

/// The bound until which an objective is optimized.
#[derive(Clone, Copy)]
pub enum Bound {
    Int(isize),
    Real(Rational),
}

pub enum Search {
    Solve,
    /// Objective, bound, and whether it is minimized.
    Optimize(Box<Expr>, Bound, bool),
}

pub enum SpecSearch {
    Solve,
    Optimize(SpecExpr, Bound, bool),
}

impl View for Search {
    type V = SpecSearch;

    open spec fn view(&self) -> SpecSearch {
        match self {
            Search::Solve => SpecSearch::Solve,
            Search::Optimize(e, b, m) => SpecSearch::Optimize((**e)@, *b, *m),
        }
    }
}

impl Search {
    pub fn is_optimize(&self) -> (r: bool)
        ensures
            r == (self@ is Optimize),
    {
        match self {
            Search::Solve => false,
            Search::Optimize(_, _, _) => true,
        }
    }

    pub fn copy(&self) -> (r: Search)
        ensures
            r@ == self@,
    {
        match self {
            Search::Solve => Search::Solve,
            Search::Optimize(e, b, m) => Search::Optimize(Box::new(e.copy()), *b, *m),
        }
    }
}

} // verus!
