//! The combinations of values of a list of parameters.

use crate::problem::expression::expr::Expr;
use crate::problem::expression::expr::SpecExpr;
use crate::problem::expression::expr::copy_exprs;
use crate::problem::expression::expr::exprs_view;
use crate::problem::expression::expr::lemma_exprs_view;
use crate::problem::ids::Id;
use crate::problem::parameter::Parameter;
use crate::problem::parameter::SpecParameter;
use crate::problem::parameter::params_view;
use crate::problem::problem::Problem;
use crate::problem::problem::SpecProblem;
use crate::problem::relations::spec_all;
use crate::problem::relations::type_valid;
use crate::problem::valid::params_valid;
use vstd::string::*;
use vstd::prelude::*;

verus! {

/// The views of a list of lists of expressions.
pub open spec fn combos_view(s: Seq<Vec<Expr>>) -> Seq<Seq<SpecExpr>> {
    s.map_values(|v: Vec<Expr>| exprs_view(v@))
}

/// The combinations of values of the parameters from the `i`-th on, each a
/// list with one value for each of them, the first parameter varying
/// slowest.
pub open spec fn combos_from(p: SpecProblem, ps: Seq<SpecParameter>, i: nat) -> Seq<Seq<SpecExpr>>
    decreases ps.len() + 1 - i, 0nat,
{
    if i >= ps.len() {
        seq![seq![]]
    } else {
        let vals = spec_all(p, ps[i as int].typ);
        values_combos(p, ps, i, vals, vals.len())
    }
}

/// The combinations of values of the parameters from the `i`-th on whose
/// first value is one of the first `n` values `vals`.
pub open spec fn values_combos(
    p: SpecProblem,
    ps: Seq<SpecParameter>,
    i: nat,
    vals: Seq<SpecExpr>,
    n: nat,
) -> Seq<Seq<SpecExpr>>
    decreases ps.len() - i, n,
{
    if i >= ps.len() || n == 0 || n > vals.len() {
        seq![]
    } else {
        values_combos(p, ps, i, vals, (n - 1) as nat) + combos_from(p, ps, i + 1).map_values(
            |c: Seq<SpecExpr>| seq![vals[n - 1]] + c,
        )
    }
}

/// The combinations of values of the parameters, each a list with one
/// value for each of them, the first parameter varying slowest.
pub fn combinations(problem: &Problem, ps: &Vec<Parameter>, i: usize) -> (r: Vec<Vec<Expr>>)
    requires
        problem@.wf(),
        params_valid(problem@, params_view(ps@)),
    ensures
        combos_view(r@) == combos_from(problem@, params_view(ps@), i as nat),
    decreases ps.len() + 1 - i,
{
    let ghost p = problem@;
    let ghost pv = params_view(ps@);
    if i >= ps.len() {
        let e: Vec<Expr> = Vec::new();
        let r = vec![e];
        proof {
            lemma_exprs_view(e@);
            assert(combos_view(r@) =~= seq![seq![]]);
        }
        return r;
    }
    proof {
        assert(pv[i as int] == ps@[i as int]@);
        assert(type_valid(p, pv[i as int].typ));
    }
    let vals = ps[i].typ().all(problem);
    let ghost vv = exprs_view(vals@);
    proof {
        lemma_exprs_view(vals@);
    }
    let rest = combinations(problem, ps, i + 1);
    let ghost rv = combos_view(rest@);
    let mut out: Vec<Vec<Expr>> = Vec::new();
    let mut k: usize = 0;
    while k < vals.len()
        invariant
            p == problem@,
            pv == params_view(ps@),
            i < ps.len(),
            vv == exprs_view(vals@),
            vv == spec_all(p, pv[i as int].typ),
            vv.len() == vals.len(),
            forall|j: int| 0 <= j < vals.len() ==> #[trigger] vv[j] == vals@[j]@,
            rv == combos_view(rest@),
            rv == combos_from(p, pv, (i + 1) as nat),
            k <= vals.len(),
            combos_view(out@) == values_combos(p, pv, i as nat, vv, k as nat),
        decreases vals.len() - k,
    {
        let ghost before = combos_view(out@);
        let ghost add = rv.map_values(|c: Seq<SpecExpr>| seq![vv[k as int]] + c);
        let mut m: usize = 0;
        while m < rest.len()
            invariant
                vv == exprs_view(vals@),
                vv.len() == vals.len(),
                forall|j: int| 0 <= j < vals.len() ==> #[trigger] vv[j] == vals@[j]@,
                k < vals.len(),
                rv == combos_view(rest@),
                add == rv.map_values(|c: Seq<SpecExpr>| seq![vv[k as int]] + c),
                m <= rest.len(),
                combos_view(out@) == before + add.take(m as int),
            decreases rest.len() - m,
        {
            let mut c: Vec<Expr> = Vec::new();
            c.push(vals[k].copy());
            let mut tail = copy_exprs(&rest[m]);
            proof {
                lemma_exprs_view(c@);
                lemma_exprs_view(tail@);
                lemma_exprs_view(c@ + tail@);
                assert(exprs_view(c@ + tail@) =~= seq![vv[k as int]] + exprs_view(rest@[m as int]@));
            }
            c.append(&mut tail);
            let ghost cv = exprs_view(c@);
            let ghost ob = out@;
            out.push(c);
            proof {
                assert(rv[m as int] == exprs_view(rest@[m as int]@));
                assert(add[m as int] == cv);
                assert(combos_view(out@) =~= combos_view(ob).push(cv));
                assert(add.take(m + 1) =~= add.take(m as int).push(cv));
            }
            m += 1;
        }
        proof {
            assert(add.take(rest.len() as int) =~= add);
        }
        k += 1;
    }
    out
}

/// The product of the numbers of values of the types of the parameters
/// from the `i`-th on.
pub open spec fn sizes_product(p: SpecProblem, ps: Seq<SpecParameter>, i: nat) -> nat
    decreases ps.len() - i,
{
    if i >= ps.len() {
        1
    } else {
        spec_all(p, ps[i as int].typ).len() * sizes_product(p, ps, i + 1)
    }
}

/// The combinations whose first value is one of the first `n` values are
/// `n` times as many as the combinations of the parameters after it.
proof fn lemma_values_combos_len(
    p: SpecProblem,
    ps: Seq<SpecParameter>,
    i: nat,
    vals: Seq<SpecExpr>,
    n: nat,
)
    requires
        i < ps.len(),
        n <= vals.len(),
    ensures
        values_combos(p, ps, i, vals, n).len() == n * combos_from(p, ps, i + 1).len(),
    decreases n,
{
    if n > 0 {
        lemma_values_combos_len(p, ps, i, vals, (n - 1) as nat);
        let c = combos_from(p, ps, i + 1).len();
        assert(combos_from(p, ps, i + 1).map_values(|x: Seq<SpecExpr>| seq![vals[n - 1]] + x).len()
            == c);
        assert((n - 1) * c + c == n * c) by (nonlinear_arith);
    } else {
        assert(0 * combos_from(p, ps, i + 1).len() == 0);
    }
}

/// There are as many combinations of values of the parameters as the
/// product of the numbers of values of their types.
pub proof fn law_combinations_count(p: SpecProblem, ps: Seq<SpecParameter>, i: nat)
    ensures
        combos_from(p, ps, i).len() == sizes_product(p, ps, i),
    decreases ps.len() - i,
{
    if i < ps.len() {
        law_combinations_count(p, ps, i + 1);
        let vals = spec_all(p, ps[i as int].typ);
        lemma_values_combos_len(p, ps, i, vals, vals.len());
    }
}

/// `c` holds one value for each parameter from the `i`-th on, each a
/// value of the parameter's type.
pub open spec fn combo_fits(p: SpecProblem, ps: Seq<SpecParameter>, i: nat, c: Seq<SpecExpr>) -> bool {
    &&& c.len() + i == ps.len()
    &&& forall|j: int| 0 <= j < c.len() ==> #[trigger] spec_all(p, ps[i + j].typ).contains(c[j])
}

/// The combinations whose first value is one of the first `n` values of
/// the `i`-th parameter's type fit, where those of the parameters after it
/// do.
proof fn lemma_values_combos_fit(p: SpecProblem, ps: Seq<SpecParameter>, i: nat, n: nat)
    requires
        i < ps.len(),
        n <= spec_all(p, ps[i as int].typ).len(),
        forall|k: int|
            0 <= k < combos_from(p, ps, i + 1).len() ==> combo_fits(p, ps, i + 1, #[trigger] combos_from(p, ps, i + 1)[k]),
    ensures
        forall|k: int|
            0 <= k < values_combos(p, ps, i, spec_all(p, ps[i as int].typ), n).len() ==> combo_fits(
                p,
                ps,
                i,
                #[trigger] values_combos(p, ps, i, spec_all(p, ps[i as int].typ), n)[k],
            ),
    decreases n,
{
    let vals = spec_all(p, ps[i as int].typ);
    if n > 0 {
        lemma_values_combos_fit(p, ps, i, (n - 1) as nat);
        let before = values_combos(p, ps, i, vals, (n - 1) as nat);
        let rest = combos_from(p, ps, i + 1);
        let more = rest.map_values(|c: Seq<SpecExpr>| seq![vals[n - 1]] + c);
        let all = values_combos(p, ps, i, vals, n);
        assert(all == before + more);
        assert forall|k: int| 0 <= k < all.len() implies combo_fits(p, ps, i, #[trigger] all[k]) by {
            if k < before.len() {
                assert(all[k] == before[k]);
            } else {
                let t = rest[k - before.len()];
                assert(combo_fits(p, ps, i + 1, t));
                let c = seq![vals[n - 1]] + t;
                assert(all[k] == c);
                assert forall|j: int| 0 <= j < c.len() implies #[trigger] spec_all(p, ps[i + j].typ).contains(c[j]) by {
                    if j == 0 {
                        assert(c[0] == vals[n - 1]);
                    } else {
                        assert(c[j] == t[j - 1]);
                        assert(spec_all(p, ps[(i + 1) + (j - 1)].typ).contains(t[j - 1]));
                    }
                }
            }
        }
    }
}

/// Each combination holds one value for each parameter, a value of the
/// parameter's type.
pub proof fn law_combinations_fit(p: SpecProblem, ps: Seq<SpecParameter>, i: nat)
    requires
        i <= ps.len(),
    ensures
        forall|k: int| 0 <= k < combos_from(p, ps, i).len() ==> combo_fits(p, ps, i, #[trigger] combos_from(p, ps, i)[k]),
    decreases ps.len() - i,
{
    if i < ps.len() {
        law_combinations_fit(p, ps, i + 1);
        let vals = spec_all(p, ps[i as int].typ);
        lemma_values_combos_fit(p, ps, i, vals.len());
        let all = combos_from(p, ps, i);
        assert(all == values_combos(p, ps, i, vals, vals.len()));
        assert forall|k: int| 0 <= k < all.len() implies combo_fits(p, ps, i, #[trigger] all[k]) by {
            assert(all[k] == values_combos(p, ps, i, vals, vals.len())[k]);
        }
    } else {
        assert(combos_from(p, ps, i) == seq![Seq::<SpecExpr>::empty()]);
    }
}

} // verus!
