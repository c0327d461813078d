//! Properties that hold of every node of an expression.

use crate::problem::expression::expr::SpecExpr;
use crate::problem::parameter::Parameter;
use vstd::prelude::*;

verus! {

/// A property of the nodes of an expression.
#[derive(Clone, Copy)]
pub enum NodeCheck {
    /// No type in the node is `Undefined`.
    TypesDefined,
    /// The node is no unresolved name.
    Resolved,
}

/// Whether the node `e` itself (not its children) has the property.
pub open spec fn node_ok(c: NodeCheck, e: SpecExpr) -> bool {
    match c {
        NodeCheck::TypesDefined => match e {
            SpecExpr::Parameter(x) => !(x.typ is Undefined),
            SpecExpr::Quantifier(_, ps, _, _) => forall|i: int|
                0 <= i < ps.len() ==> !(#[trigger] ps[i].typ is Undefined),
            _ => true,
        },
        NodeCheck::Resolved => match e {
            SpecExpr::Unresolved(_, _) => false,
            SpecExpr::UnresolvedFunCall(_, _, _) => false,
            SpecExpr::UnresolvedAttribute(_, _, _) => false,
            SpecExpr::UnresolvedMethCall(_, _, _, _) => false,
            _ => true,
        },
    }
}

/// Every node of the expression has the property.
pub open spec fn every(c: NodeCheck, e: SpecExpr) -> bool
    decreases e, 0nat,
{
    node_ok(c, e) && match e {
        SpecExpr::Unary(_, x, _) => every(c, *x),
        SpecExpr::Binary(l, _, r, _) => every(c, *l) && every(c, *r),
        SpecExpr::FunctionCall(_, a, _) => every_list(c, a, a.len()),
        SpecExpr::StrucAttribute(x, _, _) => every(c, *x),
        SpecExpr::StrucMetCall(x, _, a, _) => every(c, *x) && every_list(c, a, a.len()),
        SpecExpr::ClassAttribute(x, _, _) => every(c, *x),
        SpecExpr::ClassMetCall(x, _, a, _) => every(c, *x) && every_list(c, a, a.len()),
        SpecExpr::AsClass(x, _) => every(c, *x),
        SpecExpr::AsInterval(x, _, _, _) => every(c, *x),
        SpecExpr::AsInt(x, _) => every(c, *x),
        SpecExpr::AsReal(x, _) => every(c, *x),
        SpecExpr::IfThenElse(i, t, l, x, _) => every(c, *i) && every(c, *t) && every_pairs(
            c,
            l,
            l.len(),
        ) && every(c, *x),
        SpecExpr::Quantifier(_, _, x, _) => every(c, *x),
        SpecExpr::UnresolvedFunCall(_, a, _) => every_list(c, a, a.len()),
        SpecExpr::UnresolvedAttribute(x, _, _) => every(c, *x),
        SpecExpr::UnresolvedMethCall(x, _, a, _) => every(c, *x) && every_list(c, a, a.len()),
        _ => true,
    }
}

/// Every node of the first `n` expressions of the list has the property.
pub open spec fn every_list(c: NodeCheck, s: Seq<SpecExpr>, n: nat) -> bool
    decreases s, n,
{
    if n == 0 || n > s.len() {
        n == 0
    } else {
        every_list(c, s, (n - 1) as nat) && every(c, s[n - 1])
    }
}

/// Every node of the first `n` pairs of expressions of the list has the
/// property.
pub open spec fn every_pairs(c: NodeCheck, s: Seq<(SpecExpr, SpecExpr)>, n: nat) -> bool
    decreases s, n,
{
    if n == 0 || n > s.len() {
        n == 0
    } else {
        every_pairs(c, s, (n - 1) as nat) && every(c, s[n - 1].0) && every(c, s[n - 1].1)
    }
}

/// The property holds of a prefix of a list when it holds of each of its
/// expressions.
pub proof fn lemma_every_list(c: NodeCheck, s: Seq<SpecExpr>, n: nat)
    requires
        n <= s.len(),
    ensures
        every_list(c, s, n) <==> forall|i: int| 0 <= i < n ==> #[trigger] every(c, s[i]),
    decreases n,
{
    if n > 0 {
        lemma_every_list(c, s, (n - 1) as nat);
        if forall|i: int| 0 <= i < n ==> #[trigger] every(c, s[i]) {
            assert(every(c, s[n - 1]));
            assert forall|i: int| 0 <= i < n - 1 implies #[trigger] every(c, s[i]) by {
                assert(every(c, s[i]));
            }
        }
    }
}

/// The property holds of a prefix of a list of pairs when it holds of each
/// expression of its pairs.
pub proof fn lemma_every_pairs(c: NodeCheck, s: Seq<(SpecExpr, SpecExpr)>, n: nat)
    requires
        n <= s.len(),
    ensures
        every_pairs(c, s, n) <==> forall|i: int|
            0 <= i < n ==> every(c, (#[trigger] s[i]).0) && every(c, s[i].1),
    decreases n,
{
    if n > 0 {
        lemma_every_pairs(c, s, (n - 1) as nat);
    }
}

} // verus!
