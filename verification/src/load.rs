//! Loading a parsed problem: its types resolved, its declarations checked,
//! its expressions resolved and checked, stage after stage.

use crate::error::Error;
use crate::error::SpecError;
use crate::problem::decl_checks::spec_problem_duplicate;
use crate::problem::decl_checks::spec_problem_empty;
use crate::problem::expr_checks::spec_problem_check_type;
use crate::problem::expr_checks::spec_problem_param_size;
use crate::problem::problem::Problem;
use crate::problem::problem::SpecProblem;
use crate::problem::resolve_exprs::spec_problem_resolve_expr;
use crate::problem::resolve_types::spec_problem_resolve_type;
use crate::problem::type_checks::spec_problem_bounded;
use crate::problem::type_checks::spec_problem_interval;
use crate::report::Report;
use crate::report::SpecReport;
use crate::report::ok_entry;
use crate::report::ok_report;
use vstd::prelude::*;

verus! {

/// The title of the report of the `k`-th stage that went through.
pub open spec fn stage_title(k: int) -> Seq<char> {
    if k == 0 {
        "Resolve T"@
    } else if k == 1 {
        "Unicity  "@
    } else if k == 2 {
        "Interval "@
    } else if k == 3 {
        "Bounded  "@
    } else if k == 4 {
        "Empty    "@
    } else if k == 5 {
        "Resolve E"@
    } else if k == 6 {
        "Parameter"@
    } else {
        "Type     "@
    }
}

/// A stage that went through, `n` before it.
pub open spec fn passed(n: nat, r: (nat, Option<Result<SpecProblem, SpecError>>)) -> (
    nat,
    Option<Result<SpecProblem, SpecError>>,
) {
    (n + r.0, r.1)
}

/// The checks after the expressions are resolved: the number of arguments
/// of the calls, then the types.
pub open spec fn load_checks(p: SpecProblem) -> (nat, Option<Result<SpecProblem, SpecError>>) {
    if !(p.wf() && p.exprs_resolved()) {
        (0, None)
    } else {
        match spec_problem_param_size(p) {
            Err(e) => (0, Some(Err(e))),
            Ok(_) => match spec_problem_check_type(p) {
                Err(e) => (1, Some(Err(e))),
                Ok(_) => (2, Some(Ok(p))),
            },
        }
    }
}

/// The problem is in the shape that the resolution of its expressions
/// needs.
#[verifier::opaque]
pub open spec fn resolvable(p: SpecProblem) -> bool {
    p.wf() && p.exprs_wf()
}

/// The stages from the resolution of the expressions on.
pub open spec fn load_exprs(p: SpecProblem) -> (nat, Option<Result<SpecProblem, SpecError>>) {
    if !resolvable(p) {
        (0, None)
    } else {
        match spec_problem_resolve_expr(p) {
            None => (0, None),
            Some(Err(e)) => (0, Some(Err(e))),
            Some(Ok(q)) => passed(1, load_checks(q)),
        }
    }
}

/// The checks of the declarations, from the intervals on.
pub open spec fn load_decls(p: SpecProblem) -> (nat, Option<Result<SpecProblem, SpecError>>) {
    if !p.wf() {
        (0, None)
    } else {
        match spec_problem_interval(p) {
            Err(e) => (0, Some(Err(e))),
            Ok(_) => match spec_problem_bounded(p) {
                Err(e) => (1, Some(Err(e))),
                Ok(_) => match spec_problem_empty(p) {
                    Err(e) => (2, Some(Err(e))),
                    Ok(_) => passed(3, load_exprs(p)),
                },
            },
        }
    }
}

/// What loading a parsed problem gives: the number of stages that went
/// through, and the loaded problem or the error of the first stage that
/// failed; no result where the problem is not in the shape that the next
/// stage needs.
pub open spec fn spec_load(p: SpecProblem) -> (nat, Option<Result<SpecProblem, SpecError>>) {
    if !p.types_defined() {
        (0, None)
    } else {
        match spec_problem_resolve_type(p) {
            Err(e) => (0, Some(Err(e))),
            Ok(q) => if !q.calls_have_params() {
                (1, None)
            } else {
                match spec_problem_duplicate(q) {
                    Err(e) => (1, Some(Err(e))),
                    Ok(_) => passed(2, load_decls(q)),
                }
            },
        }
    }
}

/// The views of a list of reports.
pub open spec fn reports_view(s: Seq<Report>) -> Seq<SpecReport> {
    s.map_values(|r: Report| r@)
}

/// The reports of the first `n` stages.
pub open spec fn stage_reports(n: nat) -> Seq<SpecReport> {
    Seq::new(n, |k: int| ok_report(stage_title(k)))
}

/// Adds the report of the `k`-th stage when `verbose` asks for it.
fn add_stage(reports: &mut Vec<Report>, verbose: u8, k: usize, title: &str)
    requires
        title@ == stage_title(k as int),
        verbose >= 2 ==> reports_view(old(reports)@).len() >= k,
    ensures
        verbose < 2 ==> final(reports)@ == old(reports)@,
        verbose >= 2 ==> reports_view(final(reports)@) == reports_view(old(reports)@).push(
            ok_report(stage_title(k as int)),
        ),
{
    if verbose >= 2 {
        let ghost before = reports@;
        reports.push(ok_entry(title));
        proof {
            assert(reports_view(reports@) =~= reports_view(before).push(ok_report(stage_title(k as int))));
        }
    }
}

/// Loads a parsed problem: resolves its types, checks that no name is
/// declared twice, that the intervals are well formed, that the parameter
/// types are bounded and that no structure or class is empty, resolves the
/// expressions, then checks the numbers of arguments and the types, stage
/// after stage, each stage run only after the previous went through. With
/// `verbose` of 2 or more, the report of each stage that went through is
/// added to `reports`. `None` where the problem is not in the shape that
/// the next stage needs.
pub fn load(problem: &mut Problem, verbose: u8, reports: &mut Vec<Report>) -> (r: Option<Result<(), Error>>)
    ensures
        match spec_load(old(problem)@).1 {
            Some(Ok(q)) => r matches Some(Ok(_)) && final(problem)@ == q,
            Some(Err(e)) => r matches Some(Err(er)) && er@ == e,
            None => r is None,
        },
        verbose < 2 ==> final(reports)@ == old(reports)@,
        verbose >= 2 ==> reports_view(final(reports)@) == reports_view(old(reports)@) + stage_reports(
            spec_load(old(problem)@).0,
        ),
{
    let ghost p0 = problem@;
    let ghost r0 = reports_view(reports@);
    if !problem.check_types_defined() {
        proof {
            assert(r0 + stage_reports(0) =~= r0);
        }
        return None;
    }
    match problem.resolve_type() {
        Err(e) => {
            proof {
                assert(r0 + stage_reports(0) =~= r0);
            }
            return Some(Err(e));
        },
        Ok(_) => {},
    }
    add_stage(reports, verbose, 0, "Resolve T");
    proof {
        assert(verbose >= 2 ==> r0 + stage_reports(1) =~= reports_view(reports@));
    }
    if !problem.check_calls_have_params() {
        return None;
    }
    match problem.duplicate() {
        Err(e) => return Some(Err(e)),
        Ok(_) => {},
    }
    add_stage(reports, verbose, 1, "Unicity  ");
    let ghost q = problem@;
    proof {
        assert(verbose >= 2 ==> r0 + stage_reports(2) =~= reports_view(reports@));
    }
    let r = load_declarations(problem, verbose, reports);
    proof {
        assert(verbose >= 2 ==> r0 + stage_reports(2 + load_decls(q).0) =~= reports_view(
            reports@,
        ));
    }
    r
}

/// The stages of [`load`] from the checks of the intervals on.
fn load_declarations(problem: &mut Problem, verbose: u8, reports: &mut Vec<Report>) -> (r: Option<
    Result<(), Error>,
>)
    requires
        verbose >= 2 ==> reports_view(old(reports)@).len() >= 2,
    ensures
        match load_decls(old(problem)@).1 {
            Some(Ok(q)) => r matches Some(Ok(_)) && final(problem)@ == q,
            Some(Err(e)) => r matches Some(Err(er)) && er@ == e,
            None => r is None,
        },
        verbose < 2 ==> final(reports)@ == old(reports)@,
        verbose >= 2 ==> reports_view(final(reports)@) == reports_view(old(reports)@) + Seq::new(
            load_decls(old(problem)@).0,
            |k: int| ok_report(stage_title(k + 2)),
        ),
{
    let ghost r0 = reports_view(reports@);
    let ghost p = problem@;
    if !problem.check_wf() {
        proof {
            assert(r0 + Seq::new(0, |k: int| ok_report(stage_title(k + 2))) =~= r0);
        }
        return None;
    }
    match problem.check_interval() {
        Err(e) => {
            proof {
                assert(r0 + Seq::new(0, |k: int| ok_report(stage_title(k + 2))) =~= r0);
            }
            return Some(Err(e));
        },
        Ok(_) => {},
    }
    add_stage(reports, verbose, 2, "Interval ");
    match problem.check_bounded() {
        Err(e) => {
            proof {
                assert(verbose >= 2 ==> r0 + Seq::new(1, |k: int| ok_report(stage_title(k + 2)))
                    =~= reports_view(reports@));
            }
            return Some(Err(e));
        },
        Ok(_) => {},
    }
    add_stage(reports, verbose, 3, "Bounded  ");
    match problem.check_empty() {
        Err(e) => {
            proof {
                assert(verbose >= 2 ==> r0 + Seq::new(2, |k: int| ok_report(stage_title(k + 2)))
                    =~= reports_view(reports@));
            }
            return Some(Err(e));
        },
        Ok(_) => {},
    }
    add_stage(reports, verbose, 4, "Empty    ");
    proof {
        assert(verbose >= 2 ==> r0 + Seq::new(3, |k: int| ok_report(stage_title(k + 2)))
            =~= reports_view(reports@));
    }
    let ghost r1 = reports_view(reports@);
    let r = load_expressions(problem, verbose, reports);
    proof {
        assert(verbose >= 2 ==> r0 + Seq::new(3 + load_exprs(p).0, |k: int| ok_report(stage_title(k + 2)))
            =~= reports_view(reports@));
    }
    r
}

/// The resolution of the expressions, where the problem is in the shape
/// that it needs.
fn resolve_stage(problem: &mut Problem) -> (r: Option<Result<(), Error>>)
    ensures
        !resolvable(old(problem)@) ==> r is None,
        resolvable(old(problem)@) ==> match spec_problem_resolve_expr(old(problem)@) {
            Some(Ok(p)) => r matches Some(Ok(_)) && final(problem)@ == p,
            Some(Err(e)) => r matches Some(Err(er)) && er@ == e,
            None => r is None,
        },
{
    proof {
        reveal(resolvable);
    }
    if !problem.check_wf() || !problem.check_exprs_wf() {
        return None;
    }
    problem.resolve_expr_checked()
}

/// The stages of [`load`] from the resolution of the expressions on.
fn load_expressions(problem: &mut Problem, verbose: u8, reports: &mut Vec<Report>) -> (r: Option<
    Result<(), Error>,
>)
    requires
        verbose >= 2 ==> reports_view(old(reports)@).len() >= 5,
    ensures
        match load_exprs(old(problem)@).1 {
            Some(Ok(q)) => r matches Some(Ok(_)) && final(problem)@ == q,
            Some(Err(e)) => r matches Some(Err(er)) && er@ == e,
            None => r is None,
        },
        verbose < 2 ==> final(reports)@ == old(reports)@,
        verbose >= 2 ==> reports_view(final(reports)@) == reports_view(old(reports)@) + Seq::new(
            load_exprs(old(problem)@).0,
            |k: int| ok_report(stage_title(k + 5)),
        ),
{
    let ghost r0 = reports_view(reports@);
    match resolve_stage(problem) {
        None => {
            proof {
                assert(r0 + Seq::new(0, |k: int| ok_report(stage_title(k + 5))) =~= r0);
            }
            return None;
        },
        Some(Err(e)) => {
            proof {
                assert(r0 + Seq::new(0, |k: int| ok_report(stage_title(k + 5))) =~= r0);
            }
            return Some(Err(e));
        },
        Some(Ok(_)) => {},
    }
    add_stage(reports, verbose, 5, "Resolve E");
    let ghost q = problem@;
    proof {
        assert(verbose >= 2 ==> r0 + Seq::new(1, |k: int| ok_report(stage_title(k + 5)))
            =~= reports_view(reports@));
    }
    let r = load_final_checks(problem, verbose, reports);
    proof {
        assert(verbose >= 2 ==> r0 + Seq::new(1 + load_checks(q).0, |k: int| ok_report(stage_title(k + 5)))
            =~= reports_view(reports@));
    }
    r
}

/// The stages of [`load`] after the resolution of the expressions.
fn load_final_checks(problem: &mut Problem, verbose: u8, reports: &mut Vec<Report>) -> (r: Option<
    Result<(), Error>,
>)
    requires
        verbose >= 2 ==> reports_view(old(reports)@).len() >= 6,
    ensures
        match load_checks(old(problem)@).1 {
            Some(Ok(q)) => r matches Some(Ok(_)) && final(problem)@ == q,
            Some(Err(e)) => r matches Some(Err(er)) && er@ == e,
            None => r is None,
        },
        final(problem)@ == old(problem)@,
        verbose < 2 ==> final(reports)@ == old(reports)@,
        verbose >= 2 ==> reports_view(final(reports)@) == reports_view(old(reports)@) + Seq::new(
            load_checks(old(problem)@).0,
            |k: int| ok_report(stage_title(k + 6)),
        ),
{
    let ghost r0 = reports_view(reports@);
    if !problem.check_wf() || !problem.check_exprs_resolved() {
        proof {
            assert(r0 + Seq::new(0, |k: int| ok_report(stage_title(k + 6))) =~= r0);
        }
        return None;
    }
    match problem.check_parameter_size() {
        Err(e) => {
            proof {
                assert(r0 + Seq::new(0, |k: int| ok_report(stage_title(k + 6))) =~= r0);
            }
            return Some(Err(e));
        },
        Ok(_) => {},
    }
    add_stage(reports, verbose, 6, "Parameter");
    match problem.check_type() {
        Err(e) => {
            proof {
                assert(verbose >= 2 ==> r0 + Seq::new(1, |k: int| ok_report(stage_title(k + 6)))
                    =~= reports_view(reports@));
            }
            return Some(Err(e));
        },
        Ok(_) => {},
    }
    add_stage(reports, verbose, 7, "Type     ");
    proof {
        assert(verbose >= 2 ==> r0 + Seq::new(2, |k: int| ok_report(stage_title(k + 6)))
            =~= reports_view(reports@));
    }
    Some(Ok(()))
}

/// A loaded problem is well formed, its expressions are valid and
/// resolved, every call has as many arguments as parameters and every
/// expression is well typed: it can be handed to the solver.
pub proof fn law_loaded_is_ready(p: SpecProblem)
    ensures
        spec_load(p).1 matches Some(Ok(q)) ==> q.wf() && q.exprs_resolved() && spec_problem_param_size(q)
            is Ok && spec_problem_check_type(q) is Ok,
{
}

} // verus!
