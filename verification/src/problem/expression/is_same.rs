//! Structural comparison of expressions, positions aside.

use crate::problem::expression::every::NodeCheck;
use crate::problem::expression::every::every;
use crate::problem::expression::every::every_list;
use crate::problem::expression::every::every_pairs;
use crate::problem::expression::every::lemma_every_list;
use crate::problem::expression::every::lemma_every_pairs;
use crate::problem::expression::expr::Expr;
use crate::problem::expression::expr::SpecExpr;
use crate::problem::expression::expr::exprs_view;
use crate::problem::expression::expr::lemma_exprs_view;
use crate::problem::expression::expr::lemma_pairs_view;
use crate::problem::expression::expr::pairs_view;
use crate::problem::instance::Instance;
use crate::problem::parameter::Parameter;
use crate::problem::parameter::params_view;
use crate::problem::parameter::same_param;
use crate::problem::rational::same_value;
use crate::problem::variable::Variable;
use vstd::prelude::*;

verus! {

/// Two expressions are the same when they have the same shape and the same
/// leaves, wherever they were written. An attribute access compares the
/// attribute only. Arguments are compared pairwise up to the shorter list.
pub open spec fn spec_is_same(a: SpecExpr, b: SpecExpr) -> bool
    decreases a, 0nat,
{
    match (a, b) {
        (SpecExpr::BoolValue(x, _), SpecExpr::BoolValue(y, _)) => x == y,
        (SpecExpr::IntValue(x, _), SpecExpr::IntValue(y, _)) => x == y,
        (SpecExpr::RealValue(x, _), SpecExpr::RealValue(y, _)) => same_value(x, y),
        (SpecExpr::Unary(o1, e1, _), SpecExpr::Unary(o2, e2, _)) => o1 == o2 && spec_is_same(
            *e1,
            *e2,
        ),
        (SpecExpr::Binary(l1, o1, r1, _), SpecExpr::Binary(l2, o2, r2, _)) => o1 == o2
            && spec_is_same(*l1, *l2) && spec_is_same(*r1, *r2),
        (SpecExpr::FunctionCall(i1, p1, _), SpecExpr::FunctionCall(i2, p2, _)) => i1 == i2
            && same_prefix(p1, p2, min_len(p1, p2)),
        (SpecExpr::Variable(i1, _), SpecExpr::Variable(i2, _)) => i1 == i2,
        (SpecExpr::Parameter(p1), SpecExpr::Parameter(p2)) => same_param(p1, p2),
        (SpecExpr::Instance(i1, _), SpecExpr::Instance(i2, _)) => i1 == i2,
        (SpecExpr::StrucSelf(i1, _), SpecExpr::StrucSelf(i2, _)) => i1 == i2,
        (SpecExpr::StrucAttribute(_, i1, _), SpecExpr::StrucAttribute(_, i2, _)) => i1 == i2,
        (SpecExpr::StrucMetCall(e1, i1, a1, _), SpecExpr::StrucMetCall(e2, i2, a2, _)) =>
            spec_is_same(*e1, *e2) && i1 == i2 && same_prefix(a1, a2, min_len(a1, a2)),
        (SpecExpr::ClassSelf(i1, _), SpecExpr::ClassSelf(i2, _)) => i1 == i2,
        (SpecExpr::ClassAttribute(_, i1, _), SpecExpr::ClassAttribute(_, i2, _)) => i1 == i2,
        (SpecExpr::ClassMetCall(e1, i1, a1, _), SpecExpr::ClassMetCall(e2, i2, a2, _)) =>
            spec_is_same(*e1, *e2) && i1 == i2 && same_prefix(a1, a2, min_len(a1, a2)),
        (SpecExpr::AsClass(e1, i1), SpecExpr::AsClass(e2, i2)) => i1 == i2 && spec_is_same(
            *e1,
            *e2,
        ),
        (SpecExpr::AsInterval(e1, min1, max1, _), SpecExpr::AsInterval(e2, min2, max2, _)) =>
            min1 == min2 && max1 == max2 && spec_is_same(*e1, *e2),
        (SpecExpr::AsInt(e1, _), SpecExpr::AsInt(e2, _)) => spec_is_same(*e1, *e2),
        (SpecExpr::AsReal(e1, _), SpecExpr::AsReal(e2, _)) => spec_is_same(*e1, *e2),
        (SpecExpr::IfThenElse(c1, t1, l1, e1, _), SpecExpr::IfThenElse(c2, t2, l2, e2, _)) =>
            spec_is_same(*c1, *c2) && spec_is_same(*t1, *t2) && l1.len() == l2.len()
            && same_pairs(l1, l2, l1.len()) && spec_is_same(*e1, *e2),
        (SpecExpr::Quantifier(op1, p1, e1, _), SpecExpr::Quantifier(op2, p2, e2, _)) => op1
            == op2 && p1.len() == p2.len() && (forall|i: int|
            0 <= i < p1.len() ==> #[trigger] same_param(p1[i], p2[i])) && spec_is_same(*e1, *e2),
        _ => false,
    }
}

/// The length of the shorter of two lists.
pub open spec fn min_len(a: Seq<SpecExpr>, b: Seq<SpecExpr>) -> nat {
    if a.len() <= b.len() {
        a.len()
    } else {
        b.len()
    }
}

/// The first `n` expressions of `a` and of `b` are pairwise the same.
pub open spec fn same_prefix(a: Seq<SpecExpr>, b: Seq<SpecExpr>, n: nat) -> bool
    decreases a, n,
{
    if n == 0 || n > a.len() {
        n == 0
    } else {
        same_prefix(a, b, (n - 1) as nat) && spec_is_same(a[n - 1], b[n - 1])
    }
}

/// The first `n` pairs of `a` and of `b` are pairwise the same.
pub open spec fn same_pairs(a: Seq<(SpecExpr, SpecExpr)>, b: Seq<(SpecExpr, SpecExpr)>, n: nat) -> bool
    decreases a, n,
{
    if n == 0 || n > a.len() {
        n == 0
    } else {
        same_pairs(a, b, (n - 1) as nat) && spec_is_same(a[n - 1].0, b[n - 1].0) && spec_is_same(
            a[n - 1].1,
            b[n - 1].1,
        )
    }
}

impl Expr {
    /// Whether the two expressions are the same, positions aside.
    pub fn is_same(&self, other: &Expr) -> (r: bool)
        ensures
            r == spec_is_same(self@, other@),
        decreases self,
    {
        match (self, other) {
            (Expr::BoolValue(x, _), Expr::BoolValue(y, _)) => *x == *y,
            (Expr::IntValue(x, _), Expr::IntValue(y, _)) => *x == *y,
            (Expr::RealValue(x, _), Expr::RealValue(y, _)) => x.same(y),
            (Expr::Unary(o1, e1, _), Expr::Unary(o2, e2, _)) => *o1 == *o2 && e1.is_same(e2),
            (Expr::Binary(l1, o1, r1, _), Expr::Binary(l2, o2, r2, _)) => *o1 == *o2
                && l1.is_same(l2) && r1.is_same(r2),
            (Expr::FunctionCall(i1, p1, _), Expr::FunctionCall(i2, p2, _)) => *i1 == *i2
                && all_same(p1, p2),
            (Expr::Variable(i1, _), Expr::Variable(i2, _)) => *i1 == *i2,
            (Expr::Parameter(p1), Expr::Parameter(p2)) => p1.is_same(p2),
            (Expr::Instance(i1, _), Expr::Instance(i2, _)) => *i1 == *i2,
            (Expr::StrucSelf(i1, _), Expr::StrucSelf(i2, _)) => *i1 == *i2,
            (Expr::StrucAttribute(_, i1, _), Expr::StrucAttribute(_, i2, _)) => i1.0 == i2.0 && i1.1
                == i2.1,
            (Expr::StrucMetCall(e1, i1, a1, _), Expr::StrucMetCall(e2, i2, a2, _)) => e1.is_same(
                e2,
            ) && i1.0 == i2.0 && i1.1 == i2.1 && all_same(a1, a2),
            (Expr::ClassSelf(i1, _), Expr::ClassSelf(i2, _)) => *i1 == *i2,
            (Expr::ClassAttribute(_, i1, _), Expr::ClassAttribute(_, i2, _)) => i1.0 == i2.0 && i1.1
                == i2.1,
            (Expr::ClassMetCall(e1, i1, a1, _), Expr::ClassMetCall(e2, i2, a2, _)) => e1.is_same(
                e2,
            ) && i1.0 == i2.0 && i1.1 == i2.1 && all_same(a1, a2),
            (Expr::AsClass(e1, i1), Expr::AsClass(e2, i2)) => *i1 == *i2 && e1.is_same(e2),
            (Expr::AsInterval(e1, min1, max1, _), Expr::AsInterval(e2, min2, max2, _)) => *min1
                == *min2 && *max1 == *max2 && e1.is_same(e2),
            (Expr::AsInt(e1, _), Expr::AsInt(e2, _)) => e1.is_same(e2),
            (Expr::AsReal(e1, _), Expr::AsReal(e2, _)) => e1.is_same(e2),
            (Expr::IfThenElse(c1, t1, l1, e1, _), Expr::IfThenElse(c2, t2, l2, e2, _)) => {
                proof {
                    lemma_pairs_view(l1@);
                    lemma_pairs_view(l2@);
                }
                c1.is_same(c2) && t1.is_same(t2) && l1.len() == l2.len() && all_pairs_same(l1, l2)
                    && e1.is_same(e2)
            },
            (Expr::Quantifier(op1, p1, e1, _), Expr::Quantifier(op2, p2, e2, _)) => *op1 == *op2
                && p1.len() == p2.len() && all_params_same(p1, p2) && e1.is_same(e2),
            _ => false,
        }
    }
}

/// Whether the arguments are pairwise the same, up to the shorter list.
pub fn all_same(v1: &Vec<Expr>, v2: &Vec<Expr>) -> (r: bool)
    ensures
        r == same_prefix(exprs_view(v1@), exprs_view(v2@), min_len(exprs_view(v1@), exprs_view(v2@))),
    decreases v1,
{
    proof {
        lemma_exprs_view(v1@);
        lemma_exprs_view(v2@);
    }
    let ghost a = exprs_view(v1@);
    let ghost b = exprs_view(v2@);
    let n: usize = if v1.len() <= v2.len() { v1.len() } else { v2.len() };
    let mut i: usize = 0;
    while i < n
        invariant
            n <= v1.len(),
            n <= v2.len(),
            i <= n,
            n == min_len(a, b),
            a == exprs_view(v1@),
            b == exprs_view(v2@),
            a.len() == v1.len(),
            b.len() == v2.len(),
            forall|k: int| 0 <= k < v1.len() ==> #[trigger] a[k] == v1@[k]@,
            forall|k: int| 0 <= k < v2.len() ==> #[trigger] b[k] == v2@[k]@,
            same_prefix(a, b, i as nat),
        decreases n - i,
    {
        proof {
            assert(decreases_to!(*v1 => v1@[i as int]));
        }
        if !v1[i].is_same(&v2[i]) {
            proof {
                assert(!same_prefix(a, b, (i + 1) as nat));
                lemma_same_prefix_stops(a, b, (i + 1) as nat, n as nat);
            }
            return false;
        }
        i += 1;
    }
    true
}

/// Once two prefixes differ, every longer prefix differs.
proof fn lemma_same_prefix_stops(a: Seq<SpecExpr>, b: Seq<SpecExpr>, i: nat, n: nat)
    requires
        i <= n <= a.len(),
        !same_prefix(a, b, i),
    ensures
        !same_prefix(a, b, n),
    decreases n - i,
{
    if i < n {
        lemma_same_prefix_stops(a, b, i, (n - 1) as nat);
    }
}

/// Once two prefixes of pairs differ, every longer prefix differs.
proof fn lemma_same_pairs_stops(
    a: Seq<(SpecExpr, SpecExpr)>,
    b: Seq<(SpecExpr, SpecExpr)>,
    i: nat,
    n: nat,
)
    requires
        i <= n <= a.len(),
        !same_pairs(a, b, i),
    ensures
        !same_pairs(a, b, n),
    decreases n - i,
{
    if i < n {
        lemma_same_pairs_stops(a, b, i, (n - 1) as nat);
    }
}

/// Whether two lists of pairs of the same length are pairwise the same.
fn all_pairs_same(l1: &Vec<(Expr, Expr)>, l2: &Vec<(Expr, Expr)>) -> (r: bool)
    requires
        l1.len() == l2.len(),
    ensures
        r == same_pairs(pairs_view(l1@), pairs_view(l2@), l1.len() as nat),
    decreases l1,
{
    proof {
        lemma_pairs_view(l1@);
        lemma_pairs_view(l2@);
    }
    let ghost a = pairs_view(l1@);
    let ghost b = pairs_view(l2@);
    let mut i: usize = 0;
    while i < l1.len()
        invariant
            l1.len() == l2.len(),
            i <= l1.len(),
            a == pairs_view(l1@),
            b == pairs_view(l2@),
            a.len() == l1.len(),
            b.len() == l2.len(),
            forall|k: int| 0 <= k < l1.len() ==> #[trigger] a[k] == (l1@[k].0@, l1@[k].1@),
            forall|k: int| 0 <= k < l2.len() ==> #[trigger] b[k] == (l2@[k].0@, l2@[k].1@),
            same_pairs(a, b, i as nat),
        decreases l1.len() - i,
    {
        proof {
            assert(decreases_to!(*l1 => l1@[i as int]));
            assert(decreases_to!(l1@[i as int] => l1@[i as int].0));
            assert(decreases_to!(l1@[i as int] => l1@[i as int].1));
            assert(a[i as int] == (l1@[i as int].0@, l1@[i as int].1@));
            assert(b[i as int] == (l2@[i as int].0@, l2@[i as int].1@));
        }
        let x = l1[i].0.is_same(&l2[i].0);
        let y = l1[i].1.is_same(&l2[i].1);
        if !(x && y) {
            proof {
                assert(!same_pairs(a, b, (i + 1) as nat));
                lemma_same_pairs_stops(a, b, (i + 1) as nat, l1.len() as nat);
            }
            return false;
        }
        i += 1;
    }
    true
}

/// Whether two lists of parameters of the same length are pairwise the same.
fn all_params_same(p1: &Vec<Parameter>, p2: &Vec<Parameter>) -> (r: bool)
    requires
        p1.len() == p2.len(),
    ensures
        r == (forall|i: int|
            0 <= i < p1.len() ==> #[trigger] same_param(params_view(p1@)[i], params_view(p2@)[i])),
{
    let mut i: usize = 0;
    while i < p1.len()
        invariant
            p1.len() == p2.len(),
            i <= p1.len(),
            forall|k: int| 0 <= k < i ==> #[trigger] same_param(params_view(p1@)[k], params_view(p2@)[k]),
        decreases p1.len() - i,
    {
        if !p1[i].is_same(&p2[i]) {
            proof {
                assert(!same_param(params_view(p1@)[i as int], params_view(p2@)[i as int]));
            }
            return false;
        }
        i += 1;
    }
    true
}

/// Every resolved expression is the same as itself (an unresolved name is
/// the same as nothing).
pub proof fn law_is_same_reflexive(e: SpecExpr)
    requires
        every(NodeCheck::Resolved, e),
    ensures
        spec_is_same(e, e),
    decreases e, 0nat,
{
    match e {
        SpecExpr::RealValue(x, _) => {
            assert(same_value(x, x));
        },
        SpecExpr::Unary(_, x, _) => law_is_same_reflexive(*x),
        SpecExpr::Binary(l, _, r, _) => {
            law_is_same_reflexive(*l);
            law_is_same_reflexive(*r);
        },
        SpecExpr::FunctionCall(_, a, _) => lemma_same_prefix_reflexive(a, a.len()),
        SpecExpr::StrucMetCall(x, _, a, _) => {
            law_is_same_reflexive(*x);
            lemma_same_prefix_reflexive(a, a.len());
        },
        SpecExpr::ClassMetCall(x, _, a, _) => {
            law_is_same_reflexive(*x);
            lemma_same_prefix_reflexive(a, a.len());
        },
        SpecExpr::AsClass(x, _) => law_is_same_reflexive(*x),
        SpecExpr::AsInterval(x, _, _, _) => law_is_same_reflexive(*x),
        SpecExpr::AsInt(x, _) => law_is_same_reflexive(*x),
        SpecExpr::AsReal(x, _) => law_is_same_reflexive(*x),
        SpecExpr::IfThenElse(c, t, l, x, _) => {
            law_is_same_reflexive(*c);
            law_is_same_reflexive(*t);
            lemma_same_pairs_reflexive(l, l.len());
            law_is_same_reflexive(*x);
        },
        SpecExpr::Quantifier(_, ps, x, _) => {
            law_is_same_reflexive(*x);
        },
        _ => {},
    }
}

/// A list of expressions is pairwise the same as itself.
proof fn lemma_same_prefix_reflexive(a: Seq<SpecExpr>, n: nat)
    requires
        n <= a.len(),
        every_list(NodeCheck::Resolved, a, a.len()),
    ensures
        same_prefix(a, a, n),
    decreases a, n,
{
    if n > 0 {
        lemma_same_prefix_reflexive(a, (n - 1) as nat);
        assert(decreases_to!(a => a[n - 1]));
        lemma_every_list(NodeCheck::Resolved, a, a.len());
        law_is_same_reflexive(a[n - 1]);
    }
}

/// A list of pairs of expressions is pairwise the same as itself.
proof fn lemma_same_pairs_reflexive(a: Seq<(SpecExpr, SpecExpr)>, n: nat)
    requires
        n <= a.len(),
        every_pairs(NodeCheck::Resolved, a, a.len()),
    ensures
        same_pairs(a, a, n),
    decreases a, n,
{
    if n > 0 {
        lemma_same_pairs_reflexive(a, (n - 1) as nat);
        lemma_every_pairs(NodeCheck::Resolved, a, a.len());
        assert(decreases_to!(a => a[n - 1]));
        assert(decreases_to!(a[n - 1] => a[n - 1].0));
        assert(decreases_to!(a[n - 1] => a[n - 1].1));
        law_is_same_reflexive(a[n - 1].0);
        law_is_same_reflexive(a[n - 1].1);
    }
}

/// Being the same is symmetric: `a` is the same as `b` exactly when `b`
/// is the same as `a`.
pub proof fn law_is_same_symmetric(a: SpecExpr, b: SpecExpr)
    ensures
        spec_is_same(a, b) == spec_is_same(b, a),
    decreases a, 0nat,
{
    match (a, b) {
        (SpecExpr::Unary(_, e1, _), SpecExpr::Unary(_, e2, _)) => law_is_same_symmetric(*e1, *e2),
        (SpecExpr::Binary(l1, _, r1, _), SpecExpr::Binary(l2, _, r2, _)) => {
            law_is_same_symmetric(*l1, *l2);
            law_is_same_symmetric(*r1, *r2);
        },
        (SpecExpr::FunctionCall(_, p1, _), SpecExpr::FunctionCall(_, p2, _)) => {
            lemma_same_prefix_symmetric(p1, p2, min_len(p1, p2));
        },
        (SpecExpr::StrucMetCall(e1, _, a1, _), SpecExpr::StrucMetCall(e2, _, a2, _)) => {
            law_is_same_symmetric(*e1, *e2);
            lemma_same_prefix_symmetric(a1, a2, min_len(a1, a2));
        },
        (SpecExpr::ClassMetCall(e1, _, a1, _), SpecExpr::ClassMetCall(e2, _, a2, _)) => {
            law_is_same_symmetric(*e1, *e2);
            lemma_same_prefix_symmetric(a1, a2, min_len(a1, a2));
        },
        (SpecExpr::AsClass(e1, _), SpecExpr::AsClass(e2, _)) => law_is_same_symmetric(*e1, *e2),
        (SpecExpr::AsInterval(e1, _, _, _), SpecExpr::AsInterval(e2, _, _, _)) => law_is_same_symmetric(*e1, *e2),
        (SpecExpr::AsInt(e1, _), SpecExpr::AsInt(e2, _)) => law_is_same_symmetric(*e1, *e2),
        (SpecExpr::AsReal(e1, _), SpecExpr::AsReal(e2, _)) => law_is_same_symmetric(*e1, *e2),
        (SpecExpr::IfThenElse(c1, t1, l1, e1, _), SpecExpr::IfThenElse(c2, t2, l2, e2, _)) => {
            law_is_same_symmetric(*c1, *c2);
            law_is_same_symmetric(*t1, *t2);
            if l1.len() == l2.len() {
                lemma_same_pairs_symmetric(l1, l2, l1.len());
            }
            law_is_same_symmetric(*e1, *e2);
        },
        (SpecExpr::Quantifier(_, p1, e1, _), SpecExpr::Quantifier(_, p2, e2, _)) => {
            law_is_same_symmetric(*e1, *e2);
            if p1.len() == p2.len() {
                if forall|i: int| 0 <= i < p1.len() ==> #[trigger] same_param(p1[i], p2[i]) {
                    assert forall|i: int| 0 <= i < p2.len() implies #[trigger] same_param(p2[i], p1[i]) by {
                        assert(same_param(p1[i], p2[i]));
                    }
                }
                if forall|i: int| 0 <= i < p2.len() ==> #[trigger] same_param(p2[i], p1[i]) {
                    assert forall|i: int| 0 <= i < p1.len() implies #[trigger] same_param(p1[i], p2[i]) by {
                        assert(same_param(p2[i], p1[i]));
                    }
                }
            }
        },
        _ => {},
    }
}

/// Pairwise sameness of two lists is symmetric.
proof fn lemma_same_prefix_symmetric(a: Seq<SpecExpr>, b: Seq<SpecExpr>, n: nat)
    requires
        n <= a.len(),
        n <= b.len(),
    ensures
        same_prefix(a, b, n) == same_prefix(b, a, n),
    decreases a, n,
{
    if n > 0 {
        lemma_same_prefix_symmetric(a, b, (n - 1) as nat);
        assert(decreases_to!(a => a[n - 1]));
        law_is_same_symmetric(a[n - 1], b[n - 1]);
    }
}

/// Pairwise sameness of two lists of pairs is symmetric.
proof fn lemma_same_pairs_symmetric(a: Seq<(SpecExpr, SpecExpr)>, b: Seq<(SpecExpr, SpecExpr)>, n: nat)
    requires
        n <= a.len(),
        n <= b.len(),
    ensures
        same_pairs(a, b, n) == same_pairs(b, a, n),
    decreases a, n,
{
    if n > 0 {
        lemma_same_pairs_symmetric(a, b, (n - 1) as nat);
        assert(decreases_to!(a => a[n - 1]));
        assert(decreases_to!(a[n - 1] => a[n - 1].0));
        assert(decreases_to!(a[n - 1] => a[n - 1].1));
        law_is_same_symmetric(a[n - 1].0, b[n - 1].0);
        law_is_same_symmetric(a[n - 1].1, b[n - 1].1);
    }
}

} // verus!
