//! Substitution of sub expressions.

use crate::parser::position::copy_pos;
use crate::problem::expression::every::NodeCheck;
use crate::problem::expression::every::every;
use crate::problem::expression::every::every_list;
use crate::problem::expression::every::every_pairs;
use crate::problem::expression::every::lemma_every_list;
use crate::problem::expression::every::lemma_every_pairs;
use crate::problem::expression::expr::Expr;
use crate::problem::expression::expr::SpecExpr;
use crate::problem::expression::expr::exprs_view;
use crate::problem::expression::expr::lemma_exprs_view;
use crate::problem::expression::expr::lemma_pairs_view;
use crate::problem::expression::expr::pairs_view;
use crate::problem::expression::is_same::law_is_same_reflexive;
use crate::problem::expression::is_same::law_is_same_symmetric;
use crate::problem::expression::is_same::same_pairs;
use crate::problem::expression::is_same::same_prefix;
use crate::problem::expression::is_same::spec_is_same;
use crate::problem::parameter::copy_params;
use crate::problem::parameter::same_param;
use crate::problem::variable::opt_expr;
use vstd::prelude::*;

verus! {

/// `e` with every outermost sub expression that is the same as `old`
/// replaced by `new`; `None` where an unresolved call, attribute or method
/// call is met before that.
pub open spec fn spec_substitute(e: SpecExpr, old: SpecExpr, new: SpecExpr) -> Option<SpecExpr>
    decreases e, 0nat,
{
    if spec_is_same(e, old) {
        Some(new)
    } else {
        match e {
            SpecExpr::Unary(op, x, pos) => match spec_substitute(*x, old, new) {
                Some(y) => Some(SpecExpr::Unary(op, Box::new(y), pos)),
                None => None,
            },
            SpecExpr::Binary(l, op, r, pos) => match (
                spec_substitute(*l, old, new),
                spec_substitute(*r, old, new),
            ) {
                (Some(a), Some(b)) => Some(SpecExpr::Binary(Box::new(a), op, Box::new(b), pos)),
                _ => None,
            },
            SpecExpr::FunctionCall(id, a, pos) => match list_substitute(a, old, new, a.len()) {
                Some(v) => Some(SpecExpr::FunctionCall(id, v, pos)),
                None => None,
            },
            SpecExpr::StrucAttribute(x, id, pos) => match spec_substitute(*x, old, new) {
                Some(y) => Some(SpecExpr::StrucAttribute(Box::new(y), id, pos)),
                None => None,
            },
            SpecExpr::StrucMetCall(x, id, a, pos) => match (
                spec_substitute(*x, old, new),
                list_substitute(a, old, new, a.len()),
            ) {
                (Some(y), Some(v)) => Some(SpecExpr::StrucMetCall(Box::new(y), id, v, pos)),
                _ => None,
            },
            SpecExpr::ClassAttribute(x, id, pos) => match spec_substitute(*x, old, new) {
                Some(y) => Some(SpecExpr::ClassAttribute(Box::new(y), id, pos)),
                None => None,
            },
            SpecExpr::ClassMetCall(x, id, a, pos) => match (
                spec_substitute(*x, old, new),
                list_substitute(a, old, new, a.len()),
            ) {
                (Some(y), Some(v)) => Some(SpecExpr::ClassMetCall(Box::new(y), id, v, pos)),
                _ => None,
            },
            SpecExpr::AsClass(x, id) => match spec_substitute(*x, old, new) {
                Some(y) => Some(SpecExpr::AsClass(Box::new(y), id)),
                None => None,
            },
            SpecExpr::AsInterval(x, min, max, pos) => match spec_substitute(*x, old, new) {
                Some(y) => Some(SpecExpr::AsInterval(Box::new(y), min, max, pos)),
                None => None,
            },
            SpecExpr::AsInt(x, pos) => match spec_substitute(*x, old, new) {
                Some(y) => Some(SpecExpr::AsInt(Box::new(y), pos)),
                None => None,
            },
            SpecExpr::AsReal(x, pos) => match spec_substitute(*x, old, new) {
                Some(y) => Some(SpecExpr::AsReal(Box::new(y), pos)),
                None => None,
            },
            SpecExpr::IfThenElse(c, t, l, x, pos) => match (
                spec_substitute(*c, old, new),
                spec_substitute(*t, old, new),
                pairs_substitute(l, old, new, l.len()),
                spec_substitute(*x, old, new),
            ) {
                (Some(c2), Some(t2), Some(l2), Some(x2)) => Some(
                    SpecExpr::IfThenElse(Box::new(c2), Box::new(t2), l2, Box::new(x2), pos),
                ),
                _ => None,
            },
            SpecExpr::Quantifier(op, ps, x, pos) => match spec_substitute(*x, old, new) {
                Some(y) => Some(SpecExpr::Quantifier(op, ps, Box::new(y), pos)),
                None => None,
            },
            SpecExpr::UnresolvedFunCall(_, _, _) => None,
            SpecExpr::UnresolvedAttribute(_, _, _) => None,
            SpecExpr::UnresolvedMethCall(_, _, _, _) => None,
            _ => Some(e),
        }
    }
}

/// The first `n` expressions of the list, substituted.
pub open spec fn list_substitute(s: Seq<SpecExpr>, old: SpecExpr, new: SpecExpr, n: nat) -> Option<
    Seq<SpecExpr>,
>
    decreases s, n,
{
    if n == 0 || n > s.len() {
        Some(seq![])
    } else {
        match (list_substitute(s, old, new, (n - 1) as nat), spec_substitute(s[n - 1], old, new)) {
            (Some(v), Some(x)) => Some(v.push(x)),
            _ => None,
        }
    }
}

/// The first `n` pairs of the list, substituted.
pub open spec fn pairs_substitute(s: Seq<(SpecExpr, SpecExpr)>, old: SpecExpr, new: SpecExpr, n: nat) -> Option<
    Seq<(SpecExpr, SpecExpr)>,
>
    decreases s, n,
{
    if n == 0 || n > s.len() {
        Some(seq![])
    } else {
        match (
            pairs_substitute(s, old, new, (n - 1) as nat),
            spec_substitute(s[n - 1].0, old, new),
            spec_substitute(s[n - 1].1, old, new),
        ) {
            (Some(v), Some(x), Some(y)) => Some(v.push((x, y))),
            _ => None,
        }
    }
}

/// `e` with the substitutions of the first `n` pairs `(old, new)` of `all`
/// made one after the other.
pub open spec fn spec_substitute_all(e: SpecExpr, all: Seq<(SpecExpr, SpecExpr)>, n: nat) -> Option<
    SpecExpr,
>
    decreases n,
{
    if n == 0 || n > all.len() {
        Some(e)
    } else {
        match spec_substitute_all(e, all, (n - 1) as nat) {
            Some(x) => spec_substitute(x, all[n - 1].0, all[n - 1].1),
            None => None,
        }
    }
}

impl Expr {
    /// The expression with every outermost sub expression that is the same
    /// as `old` replaced by `expr`, or `None` where an unresolved call,
    /// attribute or method call is met before that.
    pub fn substitute_checked(&self, old: &Expr, expr: &Expr) -> (r: Option<Expr>)
        ensures
            opt_expr(r) == spec_substitute(self@, old@, expr@),
        decreases self,
    {
        if self.is_same(old) {
            return Some(expr.copy());
        }
        match self {
            Expr::Unary(op, e, pos) => {
                let y = e.substitute_checked(old, expr)?;
                Some(Expr::Unary(*op, Box::new(y), copy_pos(pos)))
            },
            Expr::Binary(l, op, r, pos) => {
                let a = l.substitute_checked(old, expr);
                let b = r.substitute_checked(old, expr);
                match (a, b) {
                    (Some(a), Some(b)) => Some(Expr::Binary(Box::new(a), *op, Box::new(b), copy_pos(pos))),
                    _ => None,
                }
            },
            Expr::FunctionCall(id, a, pos) => {
                proof {
                    lemma_exprs_view(a@);
                }
                let v = substitute_list(a, old, expr)?;
                Some(Expr::FunctionCall(*id, v, copy_pos(pos)))
            },
            Expr::StrucAttribute(e, id, pos) => {
                let y = e.substitute_checked(old, expr)?;
                Some(Expr::StrucAttribute(Box::new(y), *id, copy_pos(pos)))
            },
            Expr::StrucMetCall(e, id, a, pos) => {
                proof {
                    lemma_exprs_view(a@);
                }
                let y = e.substitute_checked(old, expr);
                let v = substitute_list(a, old, expr);
                match (y, v) {
                    (Some(y), Some(v)) => Some(Expr::StrucMetCall(Box::new(y), *id, v, copy_pos(pos))),
                    _ => None,
                }
            },
            Expr::ClassAttribute(e, id, pos) => {
                let y = e.substitute_checked(old, expr)?;
                Some(Expr::ClassAttribute(Box::new(y), *id, copy_pos(pos)))
            },
            Expr::ClassMetCall(e, id, a, pos) => {
                proof {
                    lemma_exprs_view(a@);
                }
                let y = e.substitute_checked(old, expr);
                let v = substitute_list(a, old, expr);
                match (y, v) {
                    (Some(y), Some(v)) => Some(Expr::ClassMetCall(Box::new(y), *id, v, copy_pos(pos))),
                    _ => None,
                }
            },
            Expr::AsClass(e, id) => {
                let y = e.substitute_checked(old, expr)?;
                Some(Expr::AsClass(Box::new(y), *id))
            },
            Expr::AsInterval(e, min, max, pos) => {
                let y = e.substitute_checked(old, expr)?;
                Some(Expr::AsInterval(Box::new(y), *min, *max, copy_pos(pos)))
            },
            Expr::AsInt(e, pos) => {
                let y = e.substitute_checked(old, expr)?;
                Some(Expr::AsInt(Box::new(y), copy_pos(pos)))
            },
            Expr::AsReal(e, pos) => {
                let y = e.substitute_checked(old, expr)?;
                Some(Expr::AsReal(Box::new(y), copy_pos(pos)))
            },
            Expr::IfThenElse(c, t, l, e, pos) => {
                proof {
                    lemma_pairs_view(l@);
                }
                let c2 = c.substitute_checked(old, expr);
                let t2 = t.substitute_checked(old, expr);
                let l2 = substitute_pairs(l, old, expr);
                let e2 = e.substitute_checked(old, expr);
                match (c2, t2, l2, e2) {
                    (Some(c2), Some(t2), Some(l2), Some(e2)) => Some(
                        Expr::IfThenElse(Box::new(c2), Box::new(t2), l2, Box::new(e2), copy_pos(pos)),
                    ),
                    _ => None,
                }
            },
            Expr::Quantifier(op, ps, e, pos) => {
                let y = e.substitute_checked(old, expr)?;
                Some(Expr::Quantifier(*op, copy_params(ps), Box::new(y), copy_pos(pos)))
            },
            Expr::UnresolvedFunCall(_, _, _) => None,
            Expr::UnresolvedAttribute(_, _, _) => None,
            Expr::UnresolvedMethCall(_, _, _, _) => None,
            _ => Some(self.copy()),
        }
    }

    /// The expression with every outermost sub expression that is the same
    /// as `old` replaced by `expr`.
    pub fn substitute(&self, old: &Expr, expr: &Expr) -> (r: Expr)
        requires
            spec_substitute(self@, old@, expr@) is Some,
        ensures
            Some(r@) == spec_substitute(self@, old@, expr@),
    {
        self.substitute_checked(old, expr).unwrap()
    }

    /// The expression with the substitutions of the pairs `(old, new)` of
    /// `all` made one after the other.
    pub fn substitute_all(&self, all: Vec<(Expr, Expr)>) -> (r: Expr)
        requires
            spec_substitute_all(self@, pairs_view(all@), all.len() as nat) is Some,
        ensures
            Some(r@) == spec_substitute_all(self@, pairs_view(all@), all.len() as nat),
    {
        let ghost s = pairs_view(all@);
        proof {
            lemma_pairs_view(all@);
        }
        let mut expr = self.copy();
        let mut i: usize = 0;
        while i < all.len()
            invariant
                i <= all.len(),
                s == pairs_view(all@),
                s.len() == all.len(),
                forall|k: int| 0 <= k < all.len() ==> #[trigger] s[k] == (all@[k].0@, all@[k].1@),
                spec_substitute_all(self@, s, all.len() as nat) is Some,
                spec_substitute_all(self@, s, i as nat) == Some(expr@),
            decreases all.len() - i,
        {
            proof {
                lemma_substitute_all_some(self@, s, (i + 1) as nat, all.len() as nat);
                assert(s[i as int] == (all@[i as int].0@, all@[i as int].1@));
            }
            expr = expr.substitute(&all[i].0, &all[i].1);
            i += 1;
        }
        expr
    }
}

/// Where all the substitutions go through, every prefix of them does.
proof fn lemma_substitute_all_some(e: SpecExpr, all: Seq<(SpecExpr, SpecExpr)>, i: nat, n: nat)
    requires
        i <= n <= all.len(),
        spec_substitute_all(e, all, n) is Some,
    ensures
        spec_substitute_all(e, all, i) is Some,
    decreases n - i,
{
    if i < n {
        lemma_substitute_all_some(e, all, (i + 1) as nat, n);
    }
}

/// Where a prefix of a list fails, every longer prefix fails.
proof fn lemma_list_substitute_none(s: Seq<SpecExpr>, old: SpecExpr, new: SpecExpr, i: nat, n: nat)
    requires
        i <= n <= s.len(),
        list_substitute(s, old, new, i) is None,
    ensures
        list_substitute(s, old, new, n) is None,
    decreases n - i,
{
    if i < n {
        lemma_list_substitute_none(s, old, new, i, (n - 1) as nat);
    }
}

/// Where a prefix of a list of pairs fails, every longer prefix fails.
proof fn lemma_pairs_substitute_none(
    s: Seq<(SpecExpr, SpecExpr)>,
    old: SpecExpr,
    new: SpecExpr,
    i: nat,
    n: nat,
)
    requires
        i <= n <= s.len(),
        pairs_substitute(s, old, new, i) is None,
    ensures
        pairs_substitute(s, old, new, n) is None,
    decreases n - i,
{
    if i < n {
        lemma_pairs_substitute_none(s, old, new, i, (n - 1) as nat);
    }
}

/// The expressions of the list, substituted.
fn substitute_list(v: &Vec<Expr>, old: &Expr, expr: &Expr) -> (r: Option<Vec<Expr>>)
    ensures
        match r {
            Some(w) => list_substitute(exprs_view(v@), old@, expr@, v.len() as nat) == Some(
                exprs_view(w@),
            ),
            None => list_substitute(exprs_view(v@), old@, expr@, v.len() as nat) is None,
        },
    decreases v,
{
    let ghost s = exprs_view(v@);
    proof {
        lemma_exprs_view(v@);
    }
    let mut w: Vec<Expr> = Vec::new();
    let mut i: usize = 0;
    while i < v.len()
        invariant
            i <= v.len(),
            s == exprs_view(v@),
            s.len() == v.len(),
            forall|k: int| 0 <= k < v.len() ==> #[trigger] s[k] == v@[k]@,
            list_substitute(s, old@, expr@, i as nat) == Some(exprs_view(w@)),
        decreases v.len() - i,
    {
        proof {
            assert(decreases_to!(*v => v@[i as int]));
            assert(s[i as int] == v@[i as int]@);
        }
        match v[i].substitute_checked(old, expr) {
            Some(x) => {
                let ghost before = w@;
                w.push(x);
                proof {
                    assert(w@.drop_last() == before);
                    assert(exprs_view(w@) == exprs_view(w@.drop_last()).push(w@.last()@));
                }
            },
            None => {
                proof {
                    lemma_list_substitute_none(s, old@, expr@, (i + 1) as nat, v.len() as nat);
                }
                return None;
            },
        }
        i += 1;
    }
    Some(w)
}

/// The pairs of expressions of the list, substituted.
fn substitute_pairs(v: &Vec<(Expr, Expr)>, old: &Expr, expr: &Expr) -> (r: Option<Vec<(Expr, Expr)>>)
    ensures
        match r {
            Some(w) => pairs_substitute(pairs_view(v@), old@, expr@, v.len() as nat) == Some(
                pairs_view(w@),
            ),
            None => pairs_substitute(pairs_view(v@), old@, expr@, v.len() as nat) is None,
        },
    decreases v,
{
    let ghost s = pairs_view(v@);
    proof {
        lemma_pairs_view(v@);
    }
    let mut w: Vec<(Expr, Expr)> = Vec::new();
    let mut i: usize = 0;
    while i < v.len()
        invariant
            i <= v.len(),
            s == pairs_view(v@),
            s.len() == v.len(),
            forall|k: int| 0 <= k < v.len() ==> #[trigger] s[k] == (v@[k].0@, v@[k].1@),
            pairs_substitute(s, old@, expr@, i as nat) == Some(pairs_view(w@)),
        decreases v.len() - i,
    {
        proof {
            assert(decreases_to!(*v => v@[i as int]));
            assert(decreases_to!(v@[i as int] => v@[i as int].0));
            assert(decreases_to!(v@[i as int] => v@[i as int].1));
            assert(s[i as int] == (v@[i as int].0@, v@[i as int].1@));
        }
        let x = v[i].0.substitute_checked(old, expr);
        let y = v[i].1.substitute_checked(old, expr);
        match (x, y) {
            (Some(x), Some(y)) => {
                let ghost before = w@;
                w.push((x, y));
                proof {
                    assert(w@.drop_last() == before);
                    assert(pairs_view(w@) == pairs_view(w@.drop_last()).push(
                        (w@.last().0@, w@.last().1@),
                    ));
                }
            },
            _ => {
                proof {
                    lemma_pairs_substitute_none(s, old@, expr@, (i + 1) as nat, v.len() as nat);
                }
                return None;
            },
        }
        i += 1;
    }
    Some(w)
}

//---------- Laws ----------

/// Pairwise sameness of the first `n` expressions of two lists, element by
/// element.
proof fn lemma_same_prefix_all(x: Seq<SpecExpr>, y: Seq<SpecExpr>, n: nat)
    requires
        n <= x.len(),
    ensures
        same_prefix(x, y, n) <==> forall|i: int| 0 <= i < n ==> #[trigger] spec_is_same(x[i], y[i]),
    decreases n,
{
    if n > 0 {
        lemma_same_prefix_all(x, y, (n - 1) as nat);
        if forall|i: int| 0 <= i < n ==> #[trigger] spec_is_same(x[i], y[i]) {
            assert(spec_is_same(x[n - 1], y[n - 1]));
            assert forall|i: int| 0 <= i < n - 1 implies #[trigger] spec_is_same(x[i], y[i]) by {
                assert(spec_is_same(x[i], y[i]));
            }
        }
    }
}

/// Pairwise sameness of the first `n` pairs of two lists, pair by pair.
proof fn lemma_same_pairs_all(x: Seq<(SpecExpr, SpecExpr)>, y: Seq<(SpecExpr, SpecExpr)>, n: nat)
    requires
        n <= x.len(),
    ensures
        same_pairs(x, y, n) <==> forall|i: int|
            0 <= i < n ==> spec_is_same((#[trigger] x[i]).0, y[i].0) && spec_is_same(x[i].1, y[i].1),
    decreases n,
{
    if n > 0 {
        lemma_same_pairs_all(x, y, (n - 1) as nat);
    }
}

/// Substituting an expression by itself in a resolved expression gives an
/// expression that is the same as the one substituted in.
pub proof fn law_substitute_itself(e: SpecExpr, old: SpecExpr)
    requires
        every(NodeCheck::Resolved, e),
    ensures
        spec_substitute(e, old, old) matches Some(r) && spec_is_same(r, e),
    decreases e, 0nat,
{
    if spec_is_same(e, old) {
        law_is_same_symmetric(e, old);
    } else {
        match e {
            SpecExpr::Unary(_, x, _) => law_substitute_itself(*x, old),
            SpecExpr::Binary(l, _, r, _) => {
                law_substitute_itself(*l, old);
                law_substitute_itself(*r, old);
            },
            SpecExpr::FunctionCall(_, a, _) => lemma_list_substitute_itself(a, old, a.len()),
            SpecExpr::StrucAttribute(x, _, _) => law_substitute_itself(*x, old),
            SpecExpr::StrucMetCall(x, _, a, _) => {
                law_substitute_itself(*x, old);
                lemma_list_substitute_itself(a, old, a.len());
            },
            SpecExpr::ClassAttribute(x, _, _) => law_substitute_itself(*x, old),
            SpecExpr::ClassMetCall(x, _, a, _) => {
                law_substitute_itself(*x, old);
                lemma_list_substitute_itself(a, old, a.len());
            },
            SpecExpr::AsClass(x, _) => law_substitute_itself(*x, old),
            SpecExpr::AsInterval(x, _, _, _) => law_substitute_itself(*x, old),
            SpecExpr::AsInt(x, _) => law_substitute_itself(*x, old),
            SpecExpr::AsReal(x, _) => law_substitute_itself(*x, old),
            SpecExpr::IfThenElse(c, t, l, x, _) => {
                law_substitute_itself(*c, old);
                law_substitute_itself(*t, old);
                lemma_pairs_substitute_itself(l, old, l.len());
                law_substitute_itself(*x, old);
            },
            SpecExpr::Quantifier(_, ps, x, _) => {
                law_substitute_itself(*x, old);
                assert forall|i: int| 0 <= i < ps.len() implies #[trigger] same_param(ps[i], ps[i]) by {}
            },
            _ => law_is_same_reflexive(e),
        }
    }
}

/// The first `n` expressions of a resolved list, each with an expression
/// substituted by itself, are pairwise the same as before.
proof fn lemma_list_substitute_itself(a: Seq<SpecExpr>, old: SpecExpr, n: nat)
    requires
        n <= a.len(),
        every_list(NodeCheck::Resolved, a, a.len()),
    ensures
        list_substitute(a, old, old, n) matches Some(v) && v.len() == n && same_prefix(v, a, n),
    decreases a, n,
{
    if n > 0 {
        lemma_list_substitute_itself(a, old, (n - 1) as nat);
        lemma_every_list(NodeCheck::Resolved, a, a.len());
        assert(decreases_to!(a => a[n - 1]));
        law_substitute_itself(a[n - 1], old);
        let v0 = list_substitute(a, old, old, (n - 1) as nat)->Some_0;
        let x = spec_substitute(a[n - 1], old, old)->Some_0;
        let v = v0.push(x);
        lemma_same_prefix_all(v0, a, (n - 1) as nat);
        lemma_same_prefix_all(v, a, n);
        assert forall|i: int| 0 <= i < n implies #[trigger] spec_is_same(v[i], a[i]) by {
            if i < n - 1 {
                assert(v[i] == v0[i]);
            }
        }
    } else {
        assert(same_prefix(seq![], a, 0));
    }
}

/// The first `n` pairs of a resolved list, each with an expression
/// substituted by itself, are pairwise the same as before.
proof fn lemma_pairs_substitute_itself(a: Seq<(SpecExpr, SpecExpr)>, old: SpecExpr, n: nat)
    requires
        n <= a.len(),
        every_pairs(NodeCheck::Resolved, a, a.len()),
    ensures
        pairs_substitute(a, old, old, n) matches Some(v) && v.len() == n && same_pairs(v, a, n),
    decreases a, n,
{
    if n > 0 {
        lemma_pairs_substitute_itself(a, old, (n - 1) as nat);
        lemma_every_pairs(NodeCheck::Resolved, a, a.len());
        assert(decreases_to!(a => a[n - 1]));
        assert(decreases_to!(a[n - 1] => a[n - 1].0));
        assert(decreases_to!(a[n - 1] => a[n - 1].1));
        law_substitute_itself(a[n - 1].0, old);
        law_substitute_itself(a[n - 1].1, old);
        let v0 = pairs_substitute(a, old, old, (n - 1) as nat)->Some_0;
        let x = spec_substitute(a[n - 1].0, old, old)->Some_0;
        let y = spec_substitute(a[n - 1].1, old, old)->Some_0;
        let v = v0.push((x, y));
        lemma_same_pairs_all(v0, a, (n - 1) as nat);
        lemma_same_pairs_all(v, a, n);
        assert forall|i: int| 0 <= i < n implies spec_is_same((#[trigger] v[i]).0, a[i].0) && spec_is_same(v[i].1, a[i].1) by {
            if i < n - 1 {
                assert(v[i] == v0[i]);
            }
        }
    } else {
        assert(same_pairs(seq![], a, 0));
    }
}

/// No node of `e` is the same as `old`.
pub open spec fn free_of(e: SpecExpr, old: SpecExpr) -> bool
    decreases e, 0nat,
{
    !spec_is_same(e, old) && match e {
        SpecExpr::Unary(_, x, _) => free_of(*x, old),
        SpecExpr::Binary(l, _, r, _) => free_of(*l, old) && free_of(*r, old),
        SpecExpr::FunctionCall(_, a, _) => free_of_list(a, old, a.len()),
        SpecExpr::StrucAttribute(x, _, _) => free_of(*x, old),
        SpecExpr::StrucMetCall(x, _, a, _) => free_of(*x, old) && free_of_list(a, old, a.len()),
        SpecExpr::ClassAttribute(x, _, _) => free_of(*x, old),
        SpecExpr::ClassMetCall(x, _, a, _) => free_of(*x, old) && free_of_list(a, old, a.len()),
        SpecExpr::AsClass(x, _) => free_of(*x, old),
        SpecExpr::AsInterval(x, _, _, _) => free_of(*x, old),
        SpecExpr::AsInt(x, _) => free_of(*x, old),
        SpecExpr::AsReal(x, _) => free_of(*x, old),
        SpecExpr::IfThenElse(c, t, l, x, _) => free_of(*c, old) && free_of(*t, old) && free_of_pairs(
            l,
            old,
            l.len(),
        ) && free_of(*x, old),
        SpecExpr::Quantifier(_, _, x, _) => free_of(*x, old),
        _ => true,
    }
}

/// No node of the first `n` expressions of the list is the same as `old`.
pub open spec fn free_of_list(s: Seq<SpecExpr>, old: SpecExpr, n: nat) -> bool
    decreases s, n,
{
    if n == 0 || n > s.len() {
        true
    } else {
        free_of_list(s, old, (n - 1) as nat) && free_of(s[n - 1], old)
    }
}

/// No node of the first `n` pairs of the list is the same as `old`.
pub open spec fn free_of_pairs(s: Seq<(SpecExpr, SpecExpr)>, old: SpecExpr, n: nat) -> bool
    decreases s, n,
{
    if n == 0 || n > s.len() {
        true
    } else {
        free_of_pairs(s, old, (n - 1) as nat) && free_of(s[n - 1].0, old) && free_of(s[n - 1].1, old)
    }
}

/// Substituting in a resolved expression none of whose nodes is the same
/// as `old` gives it back unchanged, whatever it is replaced with.
pub proof fn law_substitute_absent(e: SpecExpr, old: SpecExpr, new: SpecExpr)
    requires
        every(NodeCheck::Resolved, e),
        free_of(e, old),
    ensures
        spec_substitute(e, old, new) == Some(e),
    decreases e, 0nat,
{
    match e {
        SpecExpr::Unary(_, x, _) => law_substitute_absent(*x, old, new),
        SpecExpr::Binary(l, _, r, _) => {
            law_substitute_absent(*l, old, new);
            law_substitute_absent(*r, old, new);
        },
        SpecExpr::FunctionCall(_, a, _) => {
            lemma_list_substitute_absent(a, old, new, a.len());
            assert(a.take(a.len() as int) =~= a);
        },
        SpecExpr::StrucAttribute(x, _, _) => law_substitute_absent(*x, old, new),
        SpecExpr::StrucMetCall(x, _, a, _) => {
            law_substitute_absent(*x, old, new);
            lemma_list_substitute_absent(a, old, new, a.len());
            assert(a.take(a.len() as int) =~= a);
        },
        SpecExpr::ClassAttribute(x, _, _) => law_substitute_absent(*x, old, new),
        SpecExpr::ClassMetCall(x, _, a, _) => {
            law_substitute_absent(*x, old, new);
            lemma_list_substitute_absent(a, old, new, a.len());
            assert(a.take(a.len() as int) =~= a);
        },
        SpecExpr::AsClass(x, _) => law_substitute_absent(*x, old, new),
        SpecExpr::AsInterval(x, _, _, _) => law_substitute_absent(*x, old, new),
        SpecExpr::AsInt(x, _) => law_substitute_absent(*x, old, new),
        SpecExpr::AsReal(x, _) => law_substitute_absent(*x, old, new),
        SpecExpr::IfThenElse(c, t, l, x, _) => {
            law_substitute_absent(*c, old, new);
            law_substitute_absent(*t, old, new);
            lemma_pairs_substitute_absent(l, old, new, l.len());
            assert(l.take(l.len() as int) =~= l);
            law_substitute_absent(*x, old, new);
        },
        SpecExpr::Quantifier(_, _, x, _) => law_substitute_absent(*x, old, new),
        _ => {},
    }
}

/// The first `n` expressions of such a list are kept.
proof fn lemma_list_substitute_absent(s: Seq<SpecExpr>, old: SpecExpr, new: SpecExpr, n: nat)
    requires
        n <= s.len(),
        every_list(NodeCheck::Resolved, s, s.len()),
        free_of_list(s, old, s.len()),
    ensures
        list_substitute(s, old, new, n) == Some(s.take(n as int)),
    decreases s, n,
{
    if n == 0 {
        assert(s.take(0) =~= seq![]);
    } else {
        lemma_list_substitute_absent(s, old, new, (n - 1) as nat);
        lemma_every_list(NodeCheck::Resolved, s, s.len());
        lemma_free_of_list(s, old, s.len());
        assert(decreases_to!(s => s[n - 1]));
        law_substitute_absent(s[n - 1], old, new);
        assert(s.take((n - 1) as int).push(s[n - 1]) =~= s.take(n as int));
    }
}

/// The first `n` pairs of such a list are kept.
proof fn lemma_pairs_substitute_absent(s: Seq<(SpecExpr, SpecExpr)>, old: SpecExpr, new: SpecExpr, n: nat)
    requires
        n <= s.len(),
        every_pairs(NodeCheck::Resolved, s, s.len()),
        free_of_pairs(s, old, s.len()),
    ensures
        pairs_substitute(s, old, new, n) == Some(s.take(n as int)),
    decreases s, n,
{
    if n == 0 {
        assert(s.take(0) =~= seq![]);
    } else {
        lemma_pairs_substitute_absent(s, old, new, (n - 1) as nat);
        lemma_every_pairs(NodeCheck::Resolved, s, s.len());
        lemma_free_of_pairs(s, old, s.len());
        assert(decreases_to!(s => s[n - 1]));
        assert(decreases_to!(s[n - 1] => s[n - 1].0));
        assert(decreases_to!(s[n - 1] => s[n - 1].1));
        law_substitute_absent(s[n - 1].0, old, new);
        law_substitute_absent(s[n - 1].1, old, new);
        assert(s.take((n - 1) as int).push((s[n - 1].0, s[n - 1].1)) =~= s.take(n as int));
    }
}

/// A list is free of `old` when each of its expressions is.
proof fn lemma_free_of_list(s: Seq<SpecExpr>, old: SpecExpr, n: nat)
    requires
        n <= s.len(),
        free_of_list(s, old, n),
    ensures
        forall|i: int| 0 <= i < n ==> #[trigger] free_of(s[i], old),
    decreases n,
{
    if n > 0 {
        lemma_free_of_list(s, old, (n - 1) as nat);
    }
}

/// A list of pairs is free of `old` when each of its expressions is.
proof fn lemma_free_of_pairs(s: Seq<(SpecExpr, SpecExpr)>, old: SpecExpr, n: nat)
    requires
        n <= s.len(),
        free_of_pairs(s, old, n),
    ensures
        forall|i: int| 0 <= i < n ==> free_of((#[trigger] s[i]).0, old) && free_of(s[i].1, old),
    decreases n,
{
    if n > 0 {
        lemma_free_of_pairs(s, old, (n - 1) as nat);
    }
}

} // verus!
