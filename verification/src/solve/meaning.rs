//! What boolean and integer terms mean in a model of the solver, and what
//! the encoding of conditionals, quantifiers and interval casts means there.

use crate::parser::position::SpecPosition;
use crate::problem::expression::expr::BinOp;
use crate::problem::expression::expr::QtOp;
use crate::problem::expression::expr::SpecExpr;
use crate::problem::expression::typ::spec_typ;
use crate::problem::expression::type_inference::spec_type_inference;
use crate::problem::ids::Id;
use crate::problem::parameter::Parameter;
use crate::problem::parameter::SpecParameter;
use crate::problem::problem::SpecProblem;
use crate::problem::relations::spec_all;
use crate::problem::search::Bound;
use crate::problem::search::SpecSearch;
use crate::solve::combine::combos_from;
use crate::solve::combine::values_combos;
use crate::solve::encoding::clamp_term;
use crate::solve::encoding::ite_chain;
use crate::solve::encoding::level_terms;
use crate::solve::encoding::pairs_terms;
use crate::solve::encoding::spec_term;
use crate::solve::encoding::values_terms;
use crate::solve::solve::spec_objective;
use crate::solve::term::Sort;
use crate::solve::term::SpecTerm;
use vstd::prelude::*;

verus! {

//---------- Meaning of terms ----------

/// The truth of a boolean term in a model that gives `bools` and `ints` for
/// the terms it decides itself (variables, constraints, applications,
/// equalities); comparisons are of integers.
pub open spec fn term_bool(t: SpecTerm, bools: spec_fn(SpecTerm) -> bool, ints: spec_fn(SpecTerm) -> int) -> bool
    decreases t, 0nat,
{
    match t {
        SpecTerm::BoolValue(b) => b,
        SpecTerm::Not(x) => !term_bool(*x, bools, ints),
        SpecTerm::And(v) => all_true(v, v.len(), bools, ints),
        SpecTerm::Or(v) => any_true(v, v.len(), bools, ints),
        SpecTerm::Implies(a, b) => term_bool(*a, bools, ints) ==> term_bool(*b, bools, ints),
        SpecTerm::Lt(a, b) => term_int(*a, bools, ints) < term_int(*b, bools, ints),
        SpecTerm::Le(a, b) => term_int(*a, bools, ints) <= term_int(*b, bools, ints),
        SpecTerm::Ge(a, b) => term_int(*a, bools, ints) >= term_int(*b, bools, ints),
        SpecTerm::Gt(a, b) => term_int(*a, bools, ints) > term_int(*b, bools, ints),
        SpecTerm::Ite(c, a, b) => if term_bool(*c, bools, ints) {
            term_bool(*a, bools, ints)
        } else {
            term_bool(*b, bools, ints)
        },
        _ => bools(t),
    }
}

/// The value of an integer term in such a model.
pub open spec fn term_int(t: SpecTerm, bools: spec_fn(SpecTerm) -> bool, ints: spec_fn(SpecTerm) -> int) -> int
    decreases t, 0nat,
{
    match t {
        SpecTerm::IntValue(v) => v as int,
        SpecTerm::Minus(x) => -term_int(*x, bools, ints),
        SpecTerm::Add(v) => sum_ints(v, v.len(), bools, ints),
        SpecTerm::Sub(a, b) => term_int(*a, bools, ints) - term_int(*b, bools, ints),
        SpecTerm::Mul(v) => product_ints(v, v.len(), bools, ints),
        SpecTerm::Ite(c, a, b) => if term_bool(*c, bools, ints) {
            term_int(*a, bools, ints)
        } else {
            term_int(*b, bools, ints)
        },
        _ => ints(t),
    }
}

/// Each of the first `n` terms is true.
pub open spec fn all_true(v: Seq<SpecTerm>, n: nat, bools: spec_fn(SpecTerm) -> bool, ints: spec_fn(SpecTerm) -> int) -> bool
    decreases v, n,
{
    if n == 0 || n > v.len() {
        true
    } else {
        all_true(v, (n - 1) as nat, bools, ints) && term_bool(v[n - 1], bools, ints)
    }
}

/// One of the first `n` terms is true.
pub open spec fn any_true(v: Seq<SpecTerm>, n: nat, bools: spec_fn(SpecTerm) -> bool, ints: spec_fn(SpecTerm) -> int) -> bool
    decreases v, n,
{
    if n == 0 || n > v.len() {
        false
    } else {
        any_true(v, (n - 1) as nat, bools, ints) || term_bool(v[n - 1], bools, ints)
    }
}

/// The sum of the first `n` terms.
pub open spec fn sum_ints(v: Seq<SpecTerm>, n: nat, bools: spec_fn(SpecTerm) -> bool, ints: spec_fn(SpecTerm) -> int) -> int
    decreases v, n,
{
    if n == 0 || n > v.len() {
        0
    } else {
        sum_ints(v, (n - 1) as nat, bools, ints) + term_int(v[n - 1], bools, ints)
    }
}

/// The product of the first `n` terms.
pub open spec fn product_ints(v: Seq<SpecTerm>, n: nat, bools: spec_fn(SpecTerm) -> bool, ints: spec_fn(SpecTerm) -> int) -> int
    decreases v, n,
{
    if n == 0 || n > v.len() {
        1
    } else {
        product_ints(v, (n - 1) as nat, bools, ints) * term_int(v[n - 1], bools, ints)
    }
}

proof fn lemma_all_true(v: Seq<SpecTerm>, n: nat, bools: spec_fn(SpecTerm) -> bool, ints: spec_fn(SpecTerm) -> int)
    requires
        n <= v.len(),
    ensures
        all_true(v, n, bools, ints) <==> forall|k: int| 0 <= k < n ==> #[trigger] term_bool(v[k], bools, ints),
    decreases n,
{
    if n > 0 {
        lemma_all_true(v, (n - 1) as nat, bools, ints);
        if forall|k: int| 0 <= k < n ==> #[trigger] term_bool(v[k], bools, ints) {
            assert(term_bool(v[n - 1], bools, ints));
            assert forall|k: int| 0 <= k < n - 1 implies #[trigger] term_bool(v[k], bools, ints) by {
                assert(term_bool(v[k], bools, ints));
            }
        }
    }
}

proof fn lemma_any_true(v: Seq<SpecTerm>, n: nat, bools: spec_fn(SpecTerm) -> bool, ints: spec_fn(SpecTerm) -> int)
    requires
        n <= v.len(),
    ensures
        any_true(v, n, bools, ints) <==> exists|k: int| 0 <= k < n && #[trigger] term_bool(v[k], bools, ints),
    decreases n,
{
    if n > 0 {
        lemma_any_true(v, (n - 1) as nat, bools, ints);
        if exists|k: int| 0 <= k < n && #[trigger] term_bool(v[k], bools, ints) {
            let k = choose|k: int| 0 <= k < n && #[trigger] term_bool(v[k], bools, ints);
            if k < n - 1 {
                assert(0 <= k < n - 1 && term_bool(v[k], bools, ints));
            }
        }
        if term_bool(v[n - 1], bools, ints) {
            assert(0 <= n - 1 < n && term_bool(v[n - 1], bools, ints));
        }
    }
}

//---------- Meaning of the encoding ----------

/// A conditional with one `elif` means its first branch whose condition
/// holds, else its `else` branch.
pub proof fn law_conditional_meaning(
    p: SpecProblem,
    c: SpecExpr,
    t: SpecExpr,
    x: SpecExpr,
    y: SpecExpr,
    e: SpecExpr,
    pos: Option<SpecPosition>,
    env: Seq<(SpecExpr, SpecExpr)>,
    bools: spec_fn(SpecTerm) -> bool,
    ints: spec_fn(SpecTerm) -> int,
)
    ensures
        spec_term(p, SpecExpr::IfThenElse(Box::new(c), Box::new(t), seq![(x, y)], Box::new(e), pos), env, Sort::Bool)
            matches Some(whole) ==> {
            &&& spec_term(p, c, env, Sort::Bool) is Some
            &&& spec_term(p, t, env, Sort::Bool) is Some
            &&& spec_term(p, x, env, Sort::Bool) is Some
            &&& spec_term(p, y, env, Sort::Bool) is Some
            &&& spec_term(p, e, env, Sort::Bool) is Some
            &&& term_bool(whole, bools, ints) == if term_bool(spec_term(p, c, env, Sort::Bool)->Some_0, bools, ints) {
                term_bool(spec_term(p, t, env, Sort::Bool)->Some_0, bools, ints)
            } else if term_bool(spec_term(p, x, env, Sort::Bool)->Some_0, bools, ints) {
                term_bool(spec_term(p, y, env, Sort::Bool)->Some_0, bools, ints)
            } else {
                term_bool(spec_term(p, e, env, Sort::Bool)->Some_0, bools, ints)
            }
        },
{
    let whole_e = SpecExpr::IfThenElse(Box::new(c), Box::new(t), seq![(x, y)], Box::new(e), pos);
    let l = seq![(x, y)];
    let oc = spec_term(p, c, env, Sort::Bool);
    let ot = spec_term(p, t, env, Sort::Bool);
    let ol = pairs_terms(p, l, env, Sort::Bool, 1);
    let oe = spec_term(p, e, env, Sort::Bool);
    assert(spec_term(p, whole_e, env, Sort::Bool) == match (oc, ot, ol, oe) {
        (Some(c2), Some(t2), Some(l2), Some(x2)) => Some(
            SpecTerm::Ite(Box::new(c2), Box::new(t2), Box::new(ite_chain(l2, x2))),
        ),
        _ => None,
    });
    if let (Some(c2), Some(t2), Some(l2), Some(e2)) = (oc, ot, ol, oe) {
        assert(l[0] == (x, y));
        assert(pairs_terms(p, l, env, Sort::Bool, 0) == Some(Seq::<(SpecTerm, SpecTerm)>::empty()));
        let tx = spec_term(p, x, env, Sort::Bool)->Some_0;
        let ty = spec_term(p, y, env, Sort::Bool)->Some_0;
        assert(l2 =~= seq![(tx, ty)]);
        assert(l2.drop_last() =~= Seq::<(SpecTerm, SpecTerm)>::empty());
        assert(ite_chain(l2, e2) == ite_chain(
            Seq::<(SpecTerm, SpecTerm)>::empty(),
            SpecTerm::Ite(Box::new(tx), Box::new(ty), Box::new(e2)),
        ));
        let inner = SpecTerm::Ite(Box::new(tx), Box::new(ty), Box::new(e2));
        assert(term_bool(inner, bools, ints) == if term_bool(tx, bools, ints) {
            term_bool(ty, bools, ints)
        } else {
            term_bool(e2, bools, ints)
        });
    } else {
        if ol is None {
            assert(l[0] == (x, y));
        }
    }
}

/// A cast of an integer expression to `min..max` means its value clamped
/// into the interval.
pub proof fn law_interval_cast_meaning(
    p: SpecProblem,
    x: SpecExpr,
    min: isize,
    max: isize,
    pos: Option<SpecPosition>,
    env: Seq<(SpecExpr, SpecExpr)>,
    bools: spec_fn(SpecTerm) -> bool,
    ints: spec_fn(SpecTerm) -> int,
)
    requires
        min <= max,
    ensures
        spec_term(p, SpecExpr::AsInterval(Box::new(x), min, max, pos), env, Sort::Int) matches Some(whole) ==> {
            &&& spec_term(p, x, env, Sort::Int) is Some
            &&& term_int(whole, bools, ints) == {
                let v = term_int(spec_term(p, x, env, Sort::Int)->Some_0, bools, ints);
                if v < min {
                    min as int
                } else if v > max {
                    max as int
                } else {
                    v
                }
            }
        },
{
    if let Some(t) = spec_term(p, x, env, Sort::Int) {
        let whole = clamp_term(t, min, max);
        assert(spec_term(p, SpecExpr::AsInterval(Box::new(x), min, max, pos), env, Sort::Int) == Some(whole));
        let v = term_int(t, bools, ints);
        let inner = SpecTerm::Ite(
            Box::new(SpecTerm::Gt(Box::new(t), Box::new(SpecTerm::IntValue(max)))),
            Box::new(SpecTerm::IntValue(max)),
            Box::new(t),
        );
        assert(term_int(SpecTerm::IntValue(min), bools, ints) == min as int);
        assert(term_int(SpecTerm::IntValue(max), bools, ints) == max as int);
        assert(term_bool(SpecTerm::Lt(Box::new(t), Box::new(SpecTerm::IntValue(min))), bools, ints) == (v < min));
        assert(term_bool(SpecTerm::Gt(Box::new(t), Box::new(SpecTerm::IntValue(max))), bools, ints) == (v > max));
        assert(term_int(inner, bools, ints) == if v > max { max as int } else { v });
    }
}


/// The environment with the parameters from the `i`-th on bound to the
/// values of the combination `c`, in order.
pub open spec fn bind_env(env: Seq<(SpecExpr, SpecExpr)>, ps: Seq<SpecParameter>, i: nat, c: Seq<SpecExpr>) -> Seq<
    (SpecExpr, SpecExpr),
>
    decreases c.len(),
{
    if c.len() == 0 {
        env
    } else {
        bind_env(env.push((SpecExpr::Parameter(ps[i as int]), c[0])), ps, i + 1, c.drop_first())
    }
}

/// The terms of a body for the parameters from the `i`-th on are one term
/// for each combination of their values, the body taken with the
/// parameters bound to that combination.
pub open spec fn terms_per_combination(
    p: SpecProblem,
    ps: Seq<SpecParameter>,
    i: nat,
    x: SpecExpr,
    env: Seq<(SpecExpr, SpecExpr)>,
    s: Sort,
) -> bool {
    level_terms(p, ps, i, x, env, s) matches Some(v) ==> {
        &&& v.len() == combos_from(p, ps, i).len()
        &&& forall|k: int|
            0 <= k < v.len() ==> Some(#[trigger] v[k]) == spec_term(
                p,
                x,
                bind_env(env, ps, i, combos_from(p, ps, i)[k]),
                s,
            )
    }
}

/// The terms for the first `n` values of the `i`-th parameter follow the
/// combinations whose first value is one of them.
proof fn lemma_values_terms_combos(
    p: SpecProblem,
    ps: Seq<SpecParameter>,
    i: nat,
    n: nat,
    x: SpecExpr,
    env: Seq<(SpecExpr, SpecExpr)>,
    s: Sort,
)
    requires
        i < ps.len(),
        n <= spec_all(p, ps[i as int].typ).len(),
        forall|e2: Seq<(SpecExpr, SpecExpr)>| #[trigger] terms_per_combination(p, ps, i + 1, x, e2, s),
    ensures
        values_terms(p, ps, i, spec_all(p, ps[i as int].typ), n, x, env, s) matches Some(v) ==> {
            let cs = values_combos(p, ps, i, spec_all(p, ps[i as int].typ), n);
            &&& v.len() == cs.len()
            &&& forall|k: int| 0 <= k < v.len() ==> Some(#[trigger] v[k]) == spec_term(p, x, bind_env(env, ps, i, cs[k]), s)
        },
    decreases n,
{
    let vals = spec_all(p, ps[i as int].typ);
    if n > 0 {
        lemma_values_terms_combos(p, ps, i, (n - 1) as nat, x, env, s);
        let e2 = env.push((SpecExpr::Parameter(ps[i as int]), vals[n - 1]));
        assert(terms_per_combination(p, ps, i + 1, x, e2, s));
        if let Some(v) = values_terms(p, ps, i, vals, n, x, env, s) {
            let a = values_terms(p, ps, i, vals, (n - 1) as nat, x, env, s)->Some_0;
            let b = level_terms(p, ps, i + 1, x, e2, s)->Some_0;
            assert(v == a + b);
            let ca = values_combos(p, ps, i, vals, (n - 1) as nat);
            let rest = combos_from(p, ps, i + 1);
            let cb = rest.map_values(|c: Seq<SpecExpr>| seq![vals[n - 1]] + c);
            let cs = values_combos(p, ps, i, vals, n);
            assert(cs == ca + cb);
            assert forall|k: int| 0 <= k < v.len() implies Some(#[trigger] v[k]) == spec_term(p, x, bind_env(env, ps, i, cs[k]), s) by {
                if k < a.len() {
                    assert(v[k] == a[k]);
                    assert(cs[k] == ca[k]);
                } else {
                    let j = k - a.len();
                    assert(v[k] == b[j]);
                    assert(cs[k] == cb[j]);
                    let c = seq![vals[n - 1]] + rest[j];
                    assert(cb[j] == c);
                    assert(c.drop_first() =~= rest[j]);
                    assert(c[0] == vals[n - 1]);
                    assert(bind_env(env, ps, i, c) == bind_env(e2, ps, i + 1, rest[j]));
                }
            }
        }
    }
}

/// The terms of a body for the parameters from the `i`-th on are one term
/// for each combination of their values, the first parameter varying
/// slowest, the body taken with the parameters bound to that combination.
pub proof fn lemma_terms_per_combination(
    p: SpecProblem,
    ps: Seq<SpecParameter>,
    i: nat,
    x: SpecExpr,
    env: Seq<(SpecExpr, SpecExpr)>,
    s: Sort,
)
    ensures
        terms_per_combination(p, ps, i, x, env, s),
    decreases ps.len() - i,
{
    if i < ps.len() {
        assert forall|e2: Seq<(SpecExpr, SpecExpr)>| #[trigger] terms_per_combination(p, ps, i + 1, x, e2, s) by {
            lemma_terms_per_combination(p, ps, i + 1, x, e2, s);
        }
        let vals = spec_all(p, ps[i as int].typ);
        lemma_values_terms_combos(p, ps, i, vals.len(), x, env, s);
    } else {
        let c = combos_from(p, ps, i);
        assert(c == seq![Seq::<SpecExpr>::empty()]);
        assert(bind_env(env, ps, i, c[0]) == env);
    }
}

/// `forall` over parameters means its body is true for every combination of
/// their values, and `exists` that it is true for one of them.
pub proof fn law_quantifier_meaning(
    p: SpecProblem,
    op: QtOp,
    ps: Seq<SpecParameter>,
    x: SpecExpr,
    pos: Option<SpecPosition>,
    env: Seq<(SpecExpr, SpecExpr)>,
    bools: spec_fn(SpecTerm) -> bool,
    ints: spec_fn(SpecTerm) -> int,
)
    requires
        op == QtOp::Forall || op == QtOp::Exists,
    ensures
        spec_term(p, SpecExpr::Quantifier(op, ps, Box::new(x), pos), env, Sort::Bool) matches Some(whole) ==> {
            let cs = combos_from(p, ps, 0);
            &&& forall|k: int| 0 <= k < cs.len() ==> (#[trigger] spec_term(p, x, bind_env(env, ps, 0, cs[k]), Sort::Bool)) is Some
            &&& op == QtOp::Forall ==> (term_bool(whole, bools, ints) <==> forall|k: int|
                0 <= k < cs.len() ==> term_bool(
                    (#[trigger] spec_term(p, x, bind_env(env, ps, 0, cs[k]), Sort::Bool))->Some_0,
                    bools,
                    ints,
                ))
            &&& op == QtOp::Exists ==> (term_bool(whole, bools, ints) <==> exists|k: int|
                0 <= k < cs.len() && term_bool(
                    (#[trigger] spec_term(p, x, bind_env(env, ps, 0, cs[k]), Sort::Bool))->Some_0,
                    bools,
                    ints,
                ))
        },
{
    lemma_terms_per_combination(p, ps, 0, x, env, Sort::Bool);
    if let Some(v) = level_terms(p, ps, 0, x, env, Sort::Bool) {
        let cs = combos_from(p, ps, 0);
        lemma_all_true(v, v.len(), bools, ints);
        lemma_any_true(v, v.len(), bools, ints);
        assert forall|k: int| 0 <= k < cs.len() implies (#[trigger] spec_term(p, x, bind_env(env, ps, 0, cs[k]), Sort::Bool)) is Some
            && spec_term(p, x, bind_env(env, ps, 0, cs[k]), Sort::Bool)->Some_0 == v[k] by {
            assert(Some(v[k]) == spec_term(p, x, bind_env(env, ps, 0, cs[k]), Sort::Bool));
        }
        if op == QtOp::Exists {
            if term_bool(SpecTerm::Or(v), bools, ints) {
                let k = choose|k: int| 0 <= k < v.len() && #[trigger] term_bool(v[k], bools, ints);
                assert(spec_term(p, x, bind_env(env, ps, 0, cs[k]), Sort::Bool)->Some_0 == v[k]);
            }
            if exists|k: int| 0 <= k < cs.len() && term_bool(
                (#[trigger] spec_term(p, x, bind_env(env, ps, 0, cs[k]), Sort::Bool))->Some_0,
                bools,
                ints,
            ) {
                let k = choose|k: int| 0 <= k < cs.len() && term_bool(
                    (#[trigger] spec_term(p, x, bind_env(env, ps, 0, cs[k]), Sort::Bool))->Some_0,
                    bools,
                    ints,
                );
                assert(term_bool(v[k], bools, ints));
            }
        } else {
            assert forall|k: int| 0 <= k < v.len() implies #[trigger] term_bool(v[k], bools, ints) == term_bool(
                spec_term(p, x, bind_env(env, ps, 0, cs[k]), Sort::Bool)->Some_0,
                bools,
                ints,
            ) by {
                assert(spec_term(p, x, bind_env(env, ps, 0, cs[k]), Sort::Bool)->Some_0 == v[k]);
            }
        }
    }
}

//---------- Operators and objective ----------

/// The comparisons and the arithmetic of integers mean what they say: the
/// term of `l op r`, `l` of an integer type, is true in a model exactly when
/// the values of `l` and `r` compare as `op` does, and its integer value is
/// their sum, difference or product.
pub proof fn law_integer_operator_meaning(
    p: SpecProblem,
    l: SpecExpr,
    op: BinOp,
    r: SpecExpr,
    pos: Option<SpecPosition>,
    env: Seq<(SpecExpr, SpecExpr)>,
    bools: spec_fn(SpecTerm) -> bool,
    ints: spec_fn(SpecTerm) -> int,
)
    requires
        spec_typ(p, l) is Int || spec_typ(p, l) is Interval,
    ensures
        spec_term(p, SpecExpr::Binary(Box::new(l), op, Box::new(r), pos), env, Sort::Bool) matches Some(t) ==> {
            &&& spec_term(p, l, env, Sort::Int) is Some
            &&& spec_term(p, r, env, Sort::Int) is Some
            &&& ({
                let a = term_int(spec_term(p, l, env, Sort::Int)->Some_0, bools, ints);
                let b = term_int(spec_term(p, r, env, Sort::Int)->Some_0, bools, ints);
                &&& op == BinOp::Lt ==> (term_bool(t, bools, ints) <==> a < b)
                &&& op == BinOp::Le ==> (term_bool(t, bools, ints) <==> a <= b)
                &&& op == BinOp::Ge ==> (term_bool(t, bools, ints) <==> a >= b)
                &&& op == BinOp::Gt ==> (term_bool(t, bools, ints) <==> a > b)
                &&& op == BinOp::Ne ==> (term_bool(t, bools, ints) <==> !term_bool(
                    SpecTerm::Eq(
                        Box::new(spec_term(p, l, env, Sort::Int)->Some_0),
                        Box::new(spec_term(p, r, env, Sort::Int)->Some_0),
                    ),
                    bools,
                    ints,
                ))
            })
        },
        spec_term(p, SpecExpr::Binary(Box::new(l), op, Box::new(r), pos), env, Sort::Int) matches Some(t) ==> {
            &&& spec_term(p, l, env, Sort::Int) is Some
            &&& spec_term(p, r, env, Sort::Int) is Some
            &&& ({
                let a = term_int(spec_term(p, l, env, Sort::Int)->Some_0, bools, ints);
                let b = term_int(spec_term(p, r, env, Sort::Int)->Some_0, bools, ints);
                &&& op == BinOp::Add ==> term_int(t, bools, ints) == a + b
                &&& op == BinOp::Sub ==> term_int(t, bools, ints) == a - b
                &&& op == BinOp::Mul ==> term_int(t, bools, ints) == a * b
            })
        },
{
    let e = SpecExpr::Binary(Box::new(l), op, Box::new(r), pos);
    if let (Some(tl), Some(tr)) = (spec_term(p, l, env, Sort::Int), spec_term(p, r, env, Sort::Int)) {
        let a = term_int(tl, bools, ints);
        let b = term_int(tr, bools, ints);
        let v = seq![tl, tr];
        assert(v[0] == tl && v[1] == tr);
        assert(sum_ints(v, 2, bools, ints) == a + b) by {
            assert(sum_ints(v, 0, bools, ints) == 0);
            assert(sum_ints(v, 1, bools, ints) == a);
        }
        assert(product_ints(v, 2, bools, ints) == a * b) by {
            assert(product_ints(v, 0, bools, ints) == 1);
            assert(product_ints(v, 1, bools, ints) == a);
        }
    }
}

/// Logic on booleans means what it says: the term of `l and r`, `l or r`
/// or `l implies r`, `l` boolean, is true in a model exactly when the
/// conjunction, the disjunction or the implication of the values of `l` and
/// `r` is.
pub proof fn law_logic_operator_meaning(
    p: SpecProblem,
    l: SpecExpr,
    op: BinOp,
    r: SpecExpr,
    pos: Option<SpecPosition>,
    env: Seq<(SpecExpr, SpecExpr)>,
    bools: spec_fn(SpecTerm) -> bool,
    ints: spec_fn(SpecTerm) -> int,
)
    requires
        spec_typ(p, l) is Bool,
    ensures
        spec_term(p, SpecExpr::Binary(Box::new(l), op, Box::new(r), pos), env, Sort::Bool) matches Some(t) ==> {
            &&& spec_term(p, l, env, Sort::Bool) is Some
            &&& spec_term(p, r, env, Sort::Bool) is Some
            &&& ({
                let a = term_bool(spec_term(p, l, env, Sort::Bool)->Some_0, bools, ints);
                let b = term_bool(spec_term(p, r, env, Sort::Bool)->Some_0, bools, ints);
                &&& op == BinOp::And ==> (term_bool(t, bools, ints) <==> a && b)
                &&& op == BinOp::Or ==> (term_bool(t, bools, ints) <==> a || b)
                &&& op == BinOp::Implies ==> (term_bool(t, bools, ints) <==> (a ==> b))
            })
        },
{
    if let (Some(tl), Some(tr)) = (spec_term(p, l, env, Sort::Bool), spec_term(p, r, env, Sort::Bool)) {
        let a = term_bool(tl, bools, ints);
        let b = term_bool(tr, bools, ints);
        let v = seq![tl, tr];
        assert(v[0] == tl && v[1] == tr);
        assert(all_true(v, 2, bools, ints) == (a && b)) by {
            assert(all_true(v, 0, bools, ints));
            assert(all_true(v, 1, bools, ints) == a);
        }
        assert(any_true(v, 2, bools, ints) == (a || b)) by {
            assert(!any_true(v, 0, bools, ints));
            assert(any_true(v, 1, bools, ints) == a);
        }
    }
}

/// The bound of an optimization with an integer bound `b`: the term
/// optimized is that of the objective, and a minimized objective is kept at
/// or above `b`, a maximized one at or below it.
pub proof fn law_objective_bound(p: SpecProblem, bools: spec_fn(SpecTerm) -> bool, ints: spec_fn(SpecTerm) -> int)
    ensures
        p.search matches SpecSearch::Optimize(e, Bound::Int(b), m) ==> (spec_objective(p) matches Some(
            Some((bound, goal, mm)),
        ) ==> mm == m && Some(goal) == spec_term(p, spec_type_inference(p, e), seq![], Sort::Int) && (term_bool(bound, bools, ints) <==> if m {
            term_int(goal, bools, ints) >= b
        } else {
            term_int(goal, bools, ints) <= b
        })),
{
    if let SpecSearch::Optimize(e, Bound::Int(b), m) = p.search {
        let x = spec_type_inference(p, e);
        if let Some(t) = spec_term(p, x, seq![], Sort::Int) {
            let v = SpecTerm::IntValue(b);
            assert(term_int(v, bools, ints) == b as int);
            assert(spec_objective(p) == Some(Some((
                if m { SpecTerm::Ge(Box::new(t), Box::new(v)) } else { SpecTerm::Le(Box::new(t), Box::new(v)) },
                t,
                m,
            ))));
        }
    }
}

} // verus!
