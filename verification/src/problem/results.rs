//! Passes over lists that stop at the first error.

use crate::error::SpecError;
use vstd::prelude::*;

verus! {

/// `f` applied to the first `n` elements of `s`, in order, or the first
/// error.
pub open spec fn map_results<A, B>(s: Seq<A>, f: spec_fn(A) -> Result<B, SpecError>, n: nat) -> Result<
    Seq<B>,
    SpecError,
>
    decreases n,
{
    if n == 0 || n > s.len() {
        Ok(seq![])
    } else {
        match map_results(s, f, (n - 1) as nat) {
            Err(e) => Err(e),
            Ok(v) => match f(s[n - 1]) {
                Ok(x) => Ok(v.push(x)),
                Err(e) => Err(e),
            },
        }
    }
}

/// The checks `f` of the first `n` elements of `s`, in order: the first
/// error, or none.
pub open spec fn check_all<A>(s: Seq<A>, f: spec_fn(A) -> Result<(), SpecError>, n: nat) -> Result<
    (),
    SpecError,
>
    decreases n,
{
    if n == 0 || n > s.len() {
        Ok(())
    } else {
        match check_all(s, f, (n - 1) as nat) {
            Err(e) => Err(e),
            Ok(_) => f(s[n - 1]),
        }
    }
}

/// Once a prefix fails, every longer prefix fails the same way.
pub proof fn lemma_map_results_err<A, B>(s: Seq<A>, f: spec_fn(A) -> Result<B, SpecError>, i: nat, n: nat)
    requires
        i <= n <= s.len(),
        map_results(s, f, i) is Err,
    ensures
        map_results(s, f, n) == map_results(s, f, i),
    decreases n - i,
{
    if i < n {
        lemma_map_results_err(s, f, i, (n - 1) as nat);
    }
}

/// Once a prefix of checks fails, every longer prefix fails the same way.
pub proof fn lemma_check_all_err<A>(s: Seq<A>, f: spec_fn(A) -> Result<(), SpecError>, i: nat, n: nat)
    requires
        i <= n <= s.len(),
        check_all(s, f, i) is Err,
    ensures
        check_all(s, f, n) == check_all(s, f, i),
    decreases n - i,
{
    if i < n {
        lemma_check_all_err(s, f, i, (n - 1) as nat);
    }
}

/// A prefix that succeeds gives one result per element, each that of `f`.
pub proof fn lemma_map_results_ok<A, B>(s: Seq<A>, f: spec_fn(A) -> Result<B, SpecError>, n: nat)
    requires
        n <= s.len(),
        map_results(s, f, n) is Ok,
    ensures
        map_results(s, f, n)->Ok_0.len() == n,
        forall|k: int| 0 <= k < n ==> f(s[k]) == Ok::<B, SpecError>(#[trigger] map_results(s, f, n)->Ok_0[k]),
    decreases n,
{
    if n > 0 {
        lemma_map_results_ok(s, f, (n - 1) as nat);
    }
}

/// Where every check of a prefix passes, each of its checks passes.
pub proof fn lemma_check_all_ok<A>(s: Seq<A>, f: spec_fn(A) -> Result<(), SpecError>, n: nat)
    requires
        n <= s.len(),
        check_all(s, f, n) is Ok,
    ensures
        forall|k: int| 0 <= k < n ==> #[trigger] f(s[k]) is Ok,
    decreases n,
{
    if n > 0 {
        lemma_check_all_ok(s, f, (n - 1) as nat);
    }
}

/// `f` applied to the first `n` elements of `s`, in order, stopping at the
/// first error or the first `None`.
pub open spec fn map_outcomes<A, B>(
    s: Seq<A>,
    f: spec_fn(A) -> Option<Result<B, SpecError>>,
    n: nat,
) -> Option<Result<Seq<B>, SpecError>>
    decreases n,
{
    if n == 0 || n > s.len() {
        Some(Ok(seq![]))
    } else {
        match map_outcomes(s, f, (n - 1) as nat) {
            Some(Ok(v)) => match f(s[n - 1]) {
                Some(Ok(x)) => Some(Ok(v.push(x))),
                Some(Err(e)) => Some(Err(e)),
                None => None,
            },
            other => other,
        }
    }
}

/// Once a prefix stops, every longer prefix stops the same way.
pub proof fn lemma_map_outcomes_stops<A, B>(
    s: Seq<A>,
    f: spec_fn(A) -> Option<Result<B, SpecError>>,
    i: nat,
    n: nat,
)
    requires
        i <= n <= s.len(),
        !(map_outcomes(s, f, i) matches Some(Ok(_))),
    ensures
        map_outcomes(s, f, n) == map_outcomes(s, f, i),
    decreases n - i,
{
    if i < n {
        lemma_map_outcomes_stops(s, f, i, (n - 1) as nat);
    }
}

/// A prefix that goes through gives one result per element, each that of
/// `f`.
pub proof fn lemma_map_outcomes_ok<A, B>(s: Seq<A>, f: spec_fn(A) -> Option<Result<B, SpecError>>, n: nat)
    requires
        n <= s.len(),
        map_outcomes(s, f, n) matches Some(Ok(_)),
    ensures
        map_outcomes(s, f, n)->Some_0->Ok_0.len() == n,
        forall|k: int|
            0 <= k < n ==> f(s[k]) == Some(
                Ok::<B, SpecError>(#[trigger] map_outcomes(s, f, n)->Some_0->Ok_0[k]),
            ),
    decreases n,
{
    if n > 0 {
        lemma_map_outcomes_ok(s, f, (n - 1) as nat);
    }
}

} // verus!
