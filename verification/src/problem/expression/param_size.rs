//! Checking the number of arguments of the calls of an expression.

use crate::error::Error;
use crate::error::SpecError;
use crate::error::result_view;
use crate::problem::expression::check_type::spec_check_type;
use crate::problem::expression::check_type::then_check;
use crate::problem::expression::every::NodeCheck;
use crate::problem::expression::every::every;
use crate::problem::expression::every::every_list;
use crate::problem::expression::every::every_pairs;
use crate::problem::expression::every::lemma_every_list;
use crate::problem::expression::every::lemma_every_pairs;
use crate::problem::expression::expr::Expr;
use crate::problem::expression::expr::SpecExpr;
use crate::problem::expression::expr::exprs_view;
use crate::problem::expression::expr::lemma_exprs_view;
use crate::problem::expression::expr::lemma_pairs_view;
use crate::problem::expression::expr::pairs_view;
use crate::problem::parameter::Parameter;
use crate::problem::problem::Problem;
use crate::problem::problem::SpecProblem;
use crate::problem::valid::expr_valid;
use crate::problem::valid::exprs_valid;
use crate::problem::valid::lemma_exprs_valid;
use crate::problem::valid::lemma_pairs_valid;
use crate::problem::valid::pairs_valid;
use vstd::prelude::*;

verus! {

/// A call with `size` arguments of something with `expected` parameters.
pub open spec fn size_check(e: SpecExpr, size: nat, expected: nat) -> Result<(), SpecError> {
    if size == expected {
        Ok(())
    } else {
        Err(SpecError::Parameter { expr: e, size: size as usize, expected: expected as usize })
    }
}

/// The check of the number of arguments of every call, children first, the
/// first error found in order. A negation or a minus is type checked
/// instead.
pub open spec fn spec_param_size(p: SpecProblem, e: SpecExpr) -> Result<(), SpecError>
    decreases e, 0nat,
{
    match e {
        SpecExpr::Unary(_, x, _) => spec_check_type(p, *x),
        SpecExpr::Binary(l, _, r, _) => then_check(spec_param_size(p, *l), spec_param_size(p, *r)),
        SpecExpr::FunctionCall(id, a, _) => then_check(
            list_param_size(p, a, a.len()),
            size_check(e, a.len(), p.functions[id.0 as int].parameters.len()),
        ),
        SpecExpr::StrucAttribute(x, _, _) => spec_param_size(p, *x),
        SpecExpr::StrucMetCall(x, id, a, _) => then_check(
            spec_param_size(p, *x),
            then_check(
                list_param_size(p, a, a.len()),
                size_check(e, a.len(), p.struct_meth(id).parameters.len()),
            ),
        ),
        SpecExpr::ClassAttribute(x, _, _) => spec_param_size(p, *x),
        SpecExpr::ClassMetCall(x, id, a, _) => then_check(
            spec_param_size(p, *x),
            then_check(
                list_param_size(p, a, a.len()),
                size_check(e, a.len(), p.class_meth(id).parameters.len()),
            ),
        ),
        SpecExpr::AsClass(x, _) => spec_param_size(p, *x),
        SpecExpr::AsInterval(x, _, _, _) => spec_param_size(p, *x),
        SpecExpr::AsInt(x, _) => spec_param_size(p, *x),
        SpecExpr::AsReal(x, _) => spec_param_size(p, *x),
        SpecExpr::IfThenElse(c, t, l, x, _) => then_check(
            spec_param_size(p, *c),
            then_check(
                spec_param_size(p, *t),
                then_check(pairs_param_size(p, l, l.len()), spec_param_size(p, *x)),
            ),
        ),
        SpecExpr::Quantifier(_, _, x, _) => spec_param_size(p, *x),
        _ => Ok(()),
    }
}

/// The checks of the first `n` expressions of the list, in order.
pub open spec fn list_param_size(p: SpecProblem, s: Seq<SpecExpr>, n: nat) -> Result<(), SpecError>
    decreases s, n,
{
    if n == 0 || n > s.len() {
        Ok(())
    } else {
        then_check(list_param_size(p, s, (n - 1) as nat), spec_param_size(p, s[n - 1]))
    }
}

/// The checks of the first `n` pairs of the list, in order.
pub open spec fn pairs_param_size(p: SpecProblem, s: Seq<(SpecExpr, SpecExpr)>, n: nat) -> Result<
    (),
    SpecError,
>
    decreases s, n,
{
    if n == 0 || n > s.len() {
        Ok(())
    } else {
        then_check(
            pairs_param_size(p, s, (n - 1) as nat),
            then_check(spec_param_size(p, s[n - 1].0), spec_param_size(p, s[n - 1].1)),
        )
    }
}

proof fn lemma_list_param_size_err(p: SpecProblem, s: Seq<SpecExpr>, i: nat, n: nat)
    requires
        i <= n <= s.len(),
        list_param_size(p, s, i) is Err,
    ensures
        list_param_size(p, s, n) == list_param_size(p, s, i),
    decreases n - i,
{
    if i < n {
        lemma_list_param_size_err(p, s, i, (n - 1) as nat);
    }
}

proof fn lemma_pairs_param_size_err(p: SpecProblem, s: Seq<(SpecExpr, SpecExpr)>, i: nat, n: nat)
    requires
        i <= n <= s.len(),
        pairs_param_size(p, s, i) is Err,
    ensures
        pairs_param_size(p, s, n) == pairs_param_size(p, s, i),
    decreases n - i,
{
    if i < n {
        lemma_pairs_param_size_err(p, s, i, (n - 1) as nat);
    }
}

/// The error of a call with `size` arguments of something with `expected`
/// parameters, if they differ.
fn check_size(e: &Expr, size: usize, expected: usize) -> (r: Result<(), Error>)
    ensures
        result_view(r) == size_check(e@, size as nat, expected as nat),
{
    if size == expected {
        Ok(())
    } else {
        Err(Error::Parameter { expr: e.copy(), size, expected })
    }
}

impl Expr {
    /// Checks the number of arguments of every call of the expression,
    /// children first, the first error found in order; the operand of a
    /// negation or a minus is type checked instead.
    pub fn check_parameter_size(&self, problem: &Problem) -> (r: Result<(), Error>)
        requires
            problem@.wf(),
            expr_valid(problem@, self@),
            every(NodeCheck::Resolved, self@),
        ensures
            result_view(r) == spec_param_size(problem@, self@),
        decreases self,
    {
        match self {
            Expr::Unary(_, e, _) => e.check_type(problem),
            Expr::Binary(l, _, r, _) => {
                l.check_parameter_size(problem)?;
                r.check_parameter_size(problem)
            },
            Expr::FunctionCall(id, v, _) => {
                proof {
                    lemma_exprs_view(v@);
                }
                param_size_list(problem, v)?;
                let f = problem.get_function(*id).unwrap();
                check_size(self, v.len(), f.parameters().len())
            },
            Expr::StrucAttribute(e, _, _) => e.check_parameter_size(problem),
            Expr::StrucMetCall(e, id, v, _) => {
                proof {
                    lemma_exprs_view(v@);
                }
                e.check_parameter_size(problem)?;
                param_size_list(problem, v)?;
                let m = problem.get_struct_method(*id);
                check_size(self, v.len(), m.parameters().len())
            },
            Expr::ClassAttribute(e, _, _) => e.check_parameter_size(problem),
            Expr::ClassMetCall(e, id, v, _) => {
                proof {
                    lemma_exprs_view(v@);
                }
                e.check_parameter_size(problem)?;
                param_size_list(problem, v)?;
                let m = problem.get_class_method(*id);
                check_size(self, v.len(), m.parameters().len())
            },
            Expr::AsClass(e, _) => e.check_parameter_size(problem),
            Expr::AsInterval(e, _, _, _) => e.check_parameter_size(problem),
            Expr::AsInt(e, _) => e.check_parameter_size(problem),
            Expr::AsReal(e, _) => e.check_parameter_size(problem),
            Expr::IfThenElse(c, t, l, e, _) => {
                proof {
                    lemma_pairs_view(l@);
                }
                c.check_parameter_size(problem)?;
                t.check_parameter_size(problem)?;
                param_size_pairs(problem, l)?;
                e.check_parameter_size(problem)
            },
            Expr::Quantifier(_, _, e, _) => e.check_parameter_size(problem),
            _ => Ok(()),
        }
    }
}

/// The checks of the expressions, in order.
fn param_size_list(problem: &Problem, v: &Vec<Expr>) -> (r: Result<(), Error>)
    requires
        problem@.wf(),
        exprs_valid(problem@, exprs_view(v@)),
        every_list(NodeCheck::Resolved, exprs_view(v@), v.len() as nat),
    ensures
        result_view(r) == list_param_size(problem@, exprs_view(v@), v.len() as nat),
    decreases v,
{
    let ghost p = problem@;
    let ghost s = exprs_view(v@);
    proof {
        lemma_exprs_view(v@);
        lemma_exprs_valid(p, s);
        lemma_every_list(NodeCheck::Resolved, s, v.len() as nat);
    }
    let mut i: usize = 0;
    while i < v.len()
        invariant
            p == problem@,
            p.wf(),
            i <= v.len(),
            s == exprs_view(v@),
            s.len() == v.len(),
            forall|k: int| 0 <= k < v.len() ==> #[trigger] s[k] == v@[k]@,
            forall|k: int| 0 <= k < v.len() ==> #[trigger] expr_valid(p, s[k]),
            forall|k: int| 0 <= k < v.len() ==> #[trigger] every(NodeCheck::Resolved, s[k]),
            list_param_size(p, s, i as nat) == Ok::<(), SpecError>(()),
        decreases v.len() - i,
    {
        proof {
            assert(decreases_to!(*v => v@[i as int]));
            assert(s[i as int] == v@[i as int]@);
            assert(expr_valid(p, s[i as int]));
            assert(every(NodeCheck::Resolved, s[i as int]));
        }
        match v[i].check_parameter_size(problem) {
            Ok(_) => {},
            Err(e) => {
                proof {
                    lemma_list_param_size_err(p, s, (i + 1) as nat, v.len() as nat);
                }
                return Err(e);
            },
        }
        i += 1;
    }
    Ok(())
}

/// The checks of the pairs of expressions, in order.
fn param_size_pairs(problem: &Problem, v: &Vec<(Expr, Expr)>) -> (r: Result<(), Error>)
    requires
        problem@.wf(),
        pairs_valid(problem@, pairs_view(v@)),
        every_pairs(NodeCheck::Resolved, pairs_view(v@), v.len() as nat),
    ensures
        result_view(r) == pairs_param_size(problem@, pairs_view(v@), v.len() as nat),
    decreases v,
{
    let ghost p = problem@;
    let ghost s = pairs_view(v@);
    proof {
        lemma_pairs_view(v@);
        lemma_pairs_valid(p, s);
        lemma_every_pairs(NodeCheck::Resolved, s, v.len() as nat);
    }
    let mut i: usize = 0;
    while i < v.len()
        invariant
            p == problem@,
            p.wf(),
            i <= v.len(),
            s == pairs_view(v@),
            s.len() == v.len(),
            forall|k: int| 0 <= k < v.len() ==> #[trigger] s[k] == (v@[k].0@, v@[k].1@),
            forall|k: int| 0 <= k < v.len() ==> expr_valid(p, (#[trigger] s[k]).0) && expr_valid(p, s[k].1),
            forall|k: int|
                0 <= k < v.len() ==> every(NodeCheck::Resolved, (#[trigger] s[k]).0) && every(
                    NodeCheck::Resolved,
                    s[k].1,
                ),
            pairs_param_size(p, s, i as nat) == Ok::<(), SpecError>(()),
        decreases v.len() - i,
    {
        proof {
            assert(decreases_to!(*v => v@[i as int]));
            assert(decreases_to!(v@[i as int] => v@[i as int].0));
            assert(decreases_to!(v@[i as int] => v@[i as int].1));
            assert(s[i as int] == (v@[i as int].0@, v@[i as int].1@));
            assert(expr_valid(p, s[i as int].0));
            assert(every(NodeCheck::Resolved, s[i as int].0));
        }
        let a = v[i].0.check_parameter_size(problem);
        if a.is_err() {
            proof {
                lemma_pairs_param_size_err(p, s, (i + 1) as nat, v.len() as nat);
            }
            return a;
        }
        let b = v[i].1.check_parameter_size(problem);
        if b.is_err() {
            proof {
                lemma_pairs_param_size_err(p, s, (i + 1) as nat, v.len() as nat);
            }
            return b;
        }
        i += 1;
    }
    Ok(())
}

} // verus!
