//! The classes ordered so that each comes after the class it extends.

use crate::problem::class::Class;
use crate::problem::class::SpecClass;
use crate::problem::class::spec_super_class;
use crate::problem::decl_checks::class_cycle_fn;
use crate::problem::hierarchy::chain;
use crate::problem::hierarchy::contains_class;
use crate::problem::hierarchy::lemma_class_ids_bound;
use crate::problem::hierarchy::spec_super_classes;
use crate::problem::hierarchy2::super_classes_of;
use crate::problem::ids::ClassId;
use crate::problem::problem::Problem;
use crate::problem::problem::SpecProblem;
use crate::problem::relations::law_subtype_order;
use crate::problem::relations::law_subtype_reflexive;
use crate::problem::relations::spec_is_subtype_of;
use crate::problem::relations::type_valid;
use crate::problem::results::check_all;
use crate::problem::results::lemma_check_all_ok;
use crate::problem::typing::SpecType;
use vstd::prelude::*;

verus! {

/// The order of the classes: `todo` is walked as a queue; a class whose
/// super class is already in `done` (or that extends none) joins `done`,
/// another goes back to the end of the queue. `stuck` counts the classes
/// put back since the last one that joined; the walk stops when a whole
/// round of the queue put every class back, which happens only where the
/// classes extend one another in a cycle.
pub open spec fn order_walk(p: SpecProblem, todo: Seq<ClassId>, done: Seq<ClassId>, stuck: nat) -> Seq<
    ClassId,
>
    decreases todo.len(), todo.len() + 1 - stuck,
{
    if todo.len() == 0 || stuck >= todo.len() {
        done
    } else {
        let id = todo[0];
        match p.super_of(id) {
            Some(s) => if done.contains(s) {
                order_walk(p, todo.skip(1), done.push(id), 0)
            } else {
                order_walk(p, todo.skip(1).push(id), done, stuck + 1)
            },
            None => order_walk(p, todo.skip(1), done.push(id), 0),
        }
    }
}

/// The identifiers of the classes, in order.
pub open spec fn class_ids(p: SpecProblem) -> Seq<ClassId> {
    p.classes.map_values(|c: SpecClass| c.id)
}

/// Every class of `s` that extends another comes after it.
pub open spec fn after_super(p: SpecProblem, s: Seq<ClassId>) -> bool {
    forall|k: int|
        0 <= k < s.len() ==> (#[trigger] p.super_of(s[k]) matches Some(c) ==> exists|j: int|
            0 <= j < k && s[j] == c)
}

/// The walk keeps every class after the class it extends.
proof fn lemma_walk_after_super(p: SpecProblem, todo: Seq<ClassId>, done: Seq<ClassId>, stuck: nat)
    requires
        after_super(p, done),
    ensures
        after_super(p, order_walk(p, todo, done, stuck)),
    decreases todo.len(), todo.len() + 1 - stuck,
{
    if todo.len() == 0 || stuck >= todo.len() {
    } else {
        let id = todo[0];
        match p.super_of(id) {
            Some(s) => if done.contains(s) {
                let d2 = done.push(id);
                assert forall|k: int| 0 <= k < d2.len() implies (#[trigger] p.super_of(d2[k]) matches Some(c)
                    ==> exists|j: int| 0 <= j < k && d2[j] == c) by {
                    if k < done.len() {
                        assert(d2[k] == done[k]);
                        if let Some(c) = p.super_of(done[k]) {
                            let j = choose|j: int| 0 <= j < k && done[j] == c;
                            assert(d2[j] == c);
                        }
                    } else {
                        let j = choose|j: int| 0 <= j < done.len() && done[j] == s;
                        assert(d2[j] == s);
                    }
                }
                lemma_walk_after_super(p, todo.skip(1), d2, 0);
            } else {
                lemma_walk_after_super(p, todo.skip(1).push(id), done, stuck + 1);
            },
            None => {
                let d2 = done.push(id);
                assert forall|k: int| 0 <= k < d2.len() implies (#[trigger] p.super_of(d2[k]) matches Some(c)
                    ==> exists|j: int| 0 <= j < k && d2[j] == c) by {
                    if k < done.len() {
                        assert(d2[k] == done[k]);
                        if let Some(c) = p.super_of(done[k]) {
                            let j = choose|j: int| 0 <= j < k && done[j] == c;
                            assert(d2[j] == c);
                        }
                    }
                }
                lemma_walk_after_super(p, todo.skip(1), d2, 0);
            },
        }
    }
}

/// In the order of the classes, every class that extends another comes
/// after it.
pub proof fn law_classes_ordered_after_super(p: SpecProblem)
    ensures
        after_super(p, order_walk(p, class_ids(p), seq![], 0)),
{
    lemma_walk_after_super(p, class_ids(p), seq![], 0);
}

//---------- Every class is ordered ----------

/// The class reached from `c` by following `extends` `k` times, staying at
/// a class that extends none.
pub open spec fn climb(p: SpecProblem, c: ClassId, k: nat) -> ClassId
    decreases k,
{
    if k == 0 {
        c
    } else {
        let d = climb(p, c, (k - 1) as nat);
        match p.super_of(d) {
            Some(s) => s,
            None => d,
        }
    }
}

/// Climbing `a` steps then `b` steps is climbing `a + b` steps.
proof fn lemma_climb_add(p: SpecProblem, c: ClassId, a: nat, b: nat)
    ensures
        climb(p, climb(p, c, a), b) == climb(p, c, a + b),
    decreases b,
{
    if b > 0 {
        lemma_climb_add(p, c, a, (b - 1) as nat);
        assert((a + b - 1) as nat == a + (b - 1) as nat);
    }
}

/// Within classes that all extend one of them, climbing stays among them.
proof fn lemma_climb_closed(p: SpecProblem, todo: Seq<ClassId>, c: ClassId, k: nat)
    requires
        todo.contains(c),
        forall|i: int| 0 <= i < todo.len() ==> (#[trigger] p.super_of(todo[i]) matches Some(s) && todo.contains(s)),
    ensures
        todo.contains(climb(p, c, k)),
        p.super_of(climb(p, c, k)) == Some(climb(p, c, k + 1)),
    decreases k,
{
    if k > 0 {
        lemma_climb_closed(p, todo, c, (k - 1) as nat);
    }
    let d = climb(p, c, k);
    let i = choose|i: int| 0 <= i < todo.len() && todo[i] == d;
    assert(p.super_of(todo[i]) matches Some(s) && todo.contains(s));
}

/// A list with a repeated element has a first repetition: an element equal
/// to one before it, after which none repeats.
proof fn lemma_first_repeat(xs: Seq<ClassId>, j: int) -> (r: (int, int))
    requires
        0 <= j <= xs.len(),
        xs.take(j).no_duplicates(),
        !xs.no_duplicates(),
    ensures
        0 <= r.0 < r.1 < xs.len(),
        xs[r.0] == xs[r.1],
        xs.take(r.1).no_duplicates(),
    decreases xs.len() - j,
{
    if j == xs.len() {
        assert(xs.take(j) =~= xs);
        (0, 0)
    } else if xs.take(j).contains(xs[j]) {
        let i = choose|i: int| 0 <= i < j && xs.take(j)[i] == xs[j];
        (i, j)
    } else {
        let t = xs.take(j + 1);
        assert forall|a: int, b: int| 0 <= a < t.len() && 0 <= b < t.len() && a != b implies t[a] != t[b] by {
            if a < j && b < j {
                assert(xs.take(j)[a] == t[a] && xs.take(j)[b] == t[b]);
            } else if a == j {
                assert(xs.take(j)[b] == t[b]);
            } else {
                assert(xs.take(j)[a] == t[a]);
            }
        }
        lemma_first_repeat(xs, j + 1)
    }
}

/// A chain keeps the classes already visited.
proof fn lemma_chain_keeps(p: SpecProblem, todo: Option<ClassId>, visited: Seq<ClassId>, fuel: nat, x: ClassId)
    requires
        visited.contains(x),
    ensures
        chain(p, todo, visited, fuel).contains(x),
    decreases fuel,
{
    if let Some(c) = todo {
        if !(visited.contains(c) || fuel == 0) {
            let i = choose|i: int| 0 <= i < visited.len() && visited[i] == x;
            assert(visited.push(c)[i] == x);
            lemma_chain_keeps(p, p.super_of(c), visited.push(c), (fuel - 1) as nat, x);
        }
    }
}

/// Following `extends` from the class `x` climbs through `m - 1` distinct
/// classes other than `x` and comes back to `x`: the chain from its
/// `t`-th step meets `x`.
proof fn lemma_chain_meets(p: SpecProblem, x: ClassId, m: nat, t: nat, fuel: nat)
    requires
        1 <= t <= m,
        fuel >= m - t + 1,
        climb(p, x, m) == x,
        forall|k: nat| k < m ==> p.super_of(#[trigger] climb(p, x, k)) == Some(climb(p, x, k + 1)),
        forall|a: nat, b: nat| 1 <= a < b < m ==> climb(p, x, a) != climb(p, x, b),
        forall|a: nat| 1 <= a < m ==> #[trigger] climb(p, x, a) != x,
    ensures
        chain(p, Some(climb(p, x, t)), Seq::new((t - 1) as nat, |k: int| climb(p, x, (k + 1) as nat)), fuel).contains(x),
    decreases m - t,
{
    let visited = Seq::new((t - 1) as nat, |k: int| climb(p, x, (k + 1) as nat));
    let y = climb(p, x, t);
    if t == m {
        assert(!visited.contains(x)) by {
            if visited.contains(x) {
                let k = choose|k: int| 0 <= k < visited.len() && visited[k] == x;
                assert(climb(p, x, (k + 1) as nat) != x);
            }
        }
        assert(visited.push(y)[visited.len() as int] == x);
        lemma_chain_keeps(p, p.super_of(y), visited.push(y), (fuel - 1) as nat, x);
    } else {
        assert(!visited.contains(y)) by {
            if visited.contains(y) {
                let k = choose|k: int| 0 <= k < visited.len() && visited[k] == y;
                assert(climb(p, x, (k + 1) as nat) != climb(p, x, t));
            }
        }
        assert(p.super_of(climb(p, x, (t - 1 + 1) as nat)) == Some(climb(p, x, (t - 1 + 1 + 1) as nat)));
        let next = Seq::new(t, |k: int| climb(p, x, (k + 1) as nat));
        assert(visited.push(y) =~= next);
        lemma_chain_meets(p, x, m, t + 1, (fuel - 1) as nat);
    }
}

/// Classes that each extend one of them form a cycle: one of them is among
/// its own super classes.
proof fn lemma_closed_has_cycle(p: SpecProblem, todo: Seq<ClassId>)
    requires
        p.ids_wf(),
        todo.len() > 0,
        forall|i: int| 0 <= i < todo.len() ==> #[trigger] todo[i].0 < p.classes.len(),
        forall|i: int| 0 <= i < todo.len() ==> (#[trigger] p.super_of(todo[i]) matches Some(s) && todo.contains(s)),
    ensures
        exists|i: int|
            0 <= i < p.classes.len() && #[trigger] spec_super_classes(p, p.classes[i]).contains(p.classes[i].id),
{
    let n = p.classes.len();
    let x0 = todo[0];
    let xs = Seq::new(n + 1, |k: int| climb(p, x0, k as nat));
    assert forall|k: int| 0 <= k < xs.len() implies #[trigger] xs[k].0 < n by {
        lemma_climb_closed(p, todo, x0, k as nat);
        let i = choose|i: int| 0 <= i < todo.len() && todo[i] == climb(p, x0, k as nat);
    }
    if xs.no_duplicates() {
        lemma_class_ids_bound(xs, n as int);
    }
    assert(xs.take(0).no_duplicates());
    let (i, j) = lemma_first_repeat(xs, 0);
    let x = xs[i];
    let m = (j - i) as nat;
    assert forall|t: nat| t <= m implies #[trigger] climb(p, x, t) == xs[i + t] by {
        lemma_climb_add(p, x0, i as nat, t);
    }
    assert(climb(p, x, m) == x);
    assert forall|k: nat| k < m implies p.super_of(#[trigger] climb(p, x, k)) == Some(climb(p, x, k + 1)) by {
        lemma_climb_closed(p, todo, x0, (i + k) as nat);
        assert(climb(p, x, k) == xs[i + k]);
        assert(climb(p, x, k + 1) == xs[i + k + 1]);
    }
    assert forall|a: nat, b: nat| 1 <= a < b < m implies climb(p, x, a) != climb(p, x, b) by {
        assert(climb(p, x, a) == xs[i + a]);
        assert(climb(p, x, b) == xs[i + b]);
        assert(xs.take(j)[i + a] == xs[i + a]);
        assert(xs.take(j)[i + b] == xs[i + b]);
    }
    assert forall|a: nat| 1 <= a < m implies #[trigger] climb(p, x, a) != x by {
        assert(climb(p, x, a) == xs[i + a]);
        assert(xs.take(j)[i + a] == xs[i + a]);
        assert(xs.take(j)[i] == xs[i]);
    }
    lemma_chain_meets(p, x, m, 1, n);
    let c = p.classes[x.0 as int];
    assert(c.id == x);
    assert(Seq::new((1 - 1) as nat, |k: int| climb(p, x, (k + 1) as nat)) =~= seq![]);
    assert(climb(p, x, 0) == x);
    assert(p.super_of(climb(p, x, 0)) == Some(climb(p, x, 1)));
    assert(spec_super_class(c) == Some(climb(p, x, 1)));
    assert(spec_super_classes(p, c).contains(c.id));
}

//---------- Super classes ----------

/// The class reached from `t` by following `extends` `k` times; none once
/// a class extends none.
pub open spec fn step_up(p: SpecProblem, t: Option<ClassId>, k: nat) -> Option<ClassId>
    decreases k,
{
    if k == 0 {
        t
    } else {
        match step_up(p, t, (k - 1) as nat) {
            Some(d) => p.super_of(d),
            None => None,
        }
    }
}

/// Following `extends` `a` then `b` times is following it `a + b` times.
proof fn lemma_step_add(p: SpecProblem, t: Option<ClassId>, a: nat, b: nat)
    ensures
        step_up(p, step_up(p, t, a), b) == step_up(p, t, a + b),
    decreases b,
{
    if b > 0 {
        lemma_step_add(p, t, a, (b - 1) as nat);
        assert((a + b - 1) as nat == a + (b - 1) as nat);
    }
}

/// A step reached is reached through every step before it.
proof fn lemma_step_some_before(p: SpecProblem, t: Option<ClassId>, j: nat, k: nat)
    requires
        j <= k,
        step_up(p, t, k) is Some,
    ensures
        step_up(p, t, j) is Some,
    decreases k,
{
    if j < k {
        lemma_step_some_before(p, t, j, (k - 1) as nat);
    }
}

/// The steps from a class of the problem are classes of the problem.
proof fn lemma_step_valid(p: SpecProblem, t: Option<ClassId>, k: nat)
    requires
        p.hierarchy_wf(),
        t matches Some(c) ==> c.0 < p.classes.len(),
    ensures
        step_up(p, t, k) matches Some(c) ==> c.0 < p.classes.len(),
    decreases k,
{
    if k > 0 {
        lemma_step_valid(p, t, (k - 1) as nat);
        if let Some(d) = step_up(p, t, (k - 1) as nat) {
            assert(spec_super_class(p.classes[d.0 as int]) matches Some(x) ==> x.0 < p.classes.len());
        }
    }
}

/// Where the steps from `x` are reached, climbing from `x` meets them.
proof fn lemma_step_climb(p: SpecProblem, x: ClassId, k: nat)
    requires
        step_up(p, Some(x), k) is Some,
    ensures
        climb(p, x, k) == step_up(p, Some(x), k)->Some_0,
    decreases k,
{
    if k > 0 {
        lemma_step_some_before(p, Some(x), (k - 1) as nat, k);
        lemma_step_climb(p, x, (k - 1) as nat);
    }
}

/// A class of a chain is one of the classes visited before or a step from
/// where the chain starts.
proof fn lemma_chain_steps(p: SpecProblem, t: Option<ClassId>, visited: Seq<ClassId>, fuel: nat, y: ClassId)
    requires
        chain(p, t, visited, fuel).contains(y),
    ensures
        visited.contains(y) || exists|k: nat| k < fuel && #[trigger] step_up(p, t, k) == Some(y),
    decreases fuel,
{
    if let Some(c) = t {
        if !(visited.contains(c) || fuel == 0) {
            lemma_chain_steps(p, p.super_of(c), visited.push(c), (fuel - 1) as nat, y);
            if visited.push(c).contains(y) {
                if !visited.contains(y) {
                    let i = choose|i: int| 0 <= i < visited.push(c).len() && visited.push(c)[i] == y;
                    if i < visited.len() {
                        assert(visited[i] == y);
                    }
                    assert(step_up(p, t, 0) == Some(y));
                }
            } else {
                let k = choose|k: nat| k < fuel - 1 && #[trigger] step_up(p, p.super_of(c), k) == Some(y);
                lemma_step_add(p, t, 1, k);
                assert(step_up(p, t, 1) == p.super_of(c));
                assert(step_up(p, t, 1 + k) == Some(y));
            }
        }
    }
}

/// No class is among its own super classes.
pub open spec fn acyclic(p: SpecProblem) -> bool {
    forall|i: int|
        0 <= i < p.classes.len() ==> !#[trigger] spec_super_classes(p, p.classes[i]).contains(p.classes[i].id)
}

/// The first `k + 1` steps reached from `t`.
pub open spec fn steps_seq(p: SpecProblem, t: Option<ClassId>, k: nat) -> Seq<ClassId> {
    Seq::new(k + 1, |i: int| step_up(p, t, i as nat)->Some_0)
}

/// Climbing from the `i`-th step meets the steps after it.
proof fn lemma_climb_steps(p: SpecProblem, t: Option<ClassId>, i: nat, x: ClassId, m: nat)
    requires
        step_up(p, t, i) == Some(x),
        step_up(p, t, i + m) is Some,
    ensures
        forall|a: nat| a <= m ==> Some(#[trigger] climb(p, x, a)) == step_up(p, t, i + a),
    decreases m,
{
    if m > 0 {
        lemma_step_some_before(p, t, (i + m - 1) as nat, i + m);
        assert((i + m - 1) as nat == i + (m - 1) as nat);
        lemma_climb_steps(p, t, i, x, (m - 1) as nat);
        assert(Some(climb(p, x, (m - 1) as nat)) == step_up(p, t, (i + m - 1) as nat));
        assert(step_up(p, t, i + m) == p.super_of(climb(p, x, (m - 1) as nat)));
    }
}

/// A class met again after `m` steps, the classes between distinct from it
/// and from one another, is among its own super classes.
proof fn lemma_climb_cycle(p: SpecProblem, x: ClassId, m: nat)
    requires
        p.ids_wf(),
        x.0 < p.classes.len(),
        1 <= m <= p.classes.len(),
        climb(p, x, m) == x,
        forall|k: nat| k < m ==> p.super_of(#[trigger] climb(p, x, k)) == Some(climb(p, x, k + 1)),
        forall|a: nat, b: nat| 1 <= a < b < m ==> climb(p, x, a) != climb(p, x, b),
        forall|a: nat| 1 <= a < m ==> #[trigger] climb(p, x, a) != x,
    ensures
        spec_super_classes(p, p.classes[x.0 as int]).contains(x),
{
    let n = p.classes.len();
    lemma_chain_meets(p, x, m, 1, n);
    let c = p.classes[x.0 as int];
    assert(c.id == x);
    assert(Seq::new((1 - 1) as nat, |q: int| climb(p, x, (q + 1) as nat)) =~= seq![]);
    assert(climb(p, x, 0) == x);
    assert(p.super_of(climb(p, x, 0)) == Some(climb(p, x, 1)));
    assert(spec_super_class(c) == Some(climb(p, x, 1)));
}

/// Without a cycle, the first `k + 1` steps reached from a class of the
/// problem do not repeat.
proof fn lemma_steps_no_repeat(p: SpecProblem, t: Option<ClassId>, k: nat)
    requires
        p.ids_wf(),
        p.hierarchy_wf(),
        acyclic(p),
        step_up(p, t, k) is Some,
        forall|i: int|
            0 <= i < steps_seq(p, t, k).len() ==> #[trigger] steps_seq(p, t, k)[i].0 < p.classes.len()
                && step_up(p, t, i as nat) == Some(steps_seq(p, t, k)[i]),
    ensures
        steps_seq(p, t, k).no_duplicates(),
{
    let xs = steps_seq(p, t, k);
    if !xs.no_duplicates() {
        assert(xs.take(0).no_duplicates());
        let (i, j) = lemma_first_repeat(xs, 0);
        let x = xs[i];
        let m = (j - i) as nat;
        assert(step_up(p, t, i as nat) == Some(x));
        assert(step_up(p, t, j as nat) == Some(xs[j]));
        assert(i as nat + m == j as nat);
        lemma_climb_steps(p, t, i as nat, x, m);
        assert forall|a: nat| a <= m implies #[trigger] climb(p, x, a) == xs[i + a] by {
            assert(Some(climb(p, x, a)) == step_up(p, t, i as nat + a));
            assert(step_up(p, t, (i + a) as nat) == Some(xs[i + a]));
        }
        assert(climb(p, x, m) == x);
        assert forall|a: nat| a < m implies p.super_of(#[trigger] climb(p, x, a)) == Some(climb(p, x, a + 1)) by {
            assert(Some(climb(p, x, a)) == step_up(p, t, i as nat + a));
            assert(Some(climb(p, x, a + 1)) == step_up(p, t, i as nat + (a + 1)));
            assert(i as nat + (a + 1) == (i as nat + a) + 1);
        }
        assert forall|a: nat, b: nat| 1 <= a < b < m implies climb(p, x, a) != climb(p, x, b) by {
            assert(climb(p, x, a) == xs[i + a]);
            assert(climb(p, x, b) == xs[i + b]);
            assert(xs.take(j)[i + a] == xs[i + a]);
            assert(xs.take(j)[i + b] == xs[i + b]);
        }
        assert forall|a: nat| 1 <= a < m implies #[trigger] climb(p, x, a) != x by {
            assert(climb(p, x, a) == xs[i + a]);
            assert(xs.take(j)[i + a] == xs[i + a]);
            assert(xs.take(j)[i] == xs[i]);
        }
        if m > p.classes.len() {
            let ys = xs.take(j);
            assert forall|q: int| 0 <= q < ys.len() implies #[trigger] ys[q].0 < p.classes.len() by {
                assert(ys[q] == xs[q]);
            }
            lemma_class_ids_bound(ys, p.classes.len() as int);
        }
        lemma_climb_cycle(p, x, m);
        assert(spec_super_classes(p, p.classes[x.0 as int]).contains(p.classes[x.0 as int].id));
    }
}

/// Without a cycle, the first `k + 1` steps reached from a class of the
/// problem are distinct, and fewer than the classes.
proof fn lemma_steps_distinct(p: SpecProblem, t: Option<ClassId>, k: nat)
    requires
        p.ids_wf(),
        p.hierarchy_wf(),
        acyclic(p),
        t matches Some(c) ==> c.0 < p.classes.len(),
        step_up(p, t, k) is Some,
    ensures
        k < p.classes.len(),
        forall|i: nat, j: nat| i < j <= k ==> step_up(p, t, i) != step_up(p, t, j),
{
    let n = p.classes.len();
    let xs = steps_seq(p, t, k);
    assert forall|i: int| 0 <= i < xs.len() implies #[trigger] xs[i].0 < n && step_up(p, t, i as nat) == Some(xs[i]) by {
        lemma_step_some_before(p, t, i as nat, k);
        lemma_step_valid(p, t, i as nat);
    }
    lemma_steps_no_repeat(p, t, k);
    lemma_class_ids_bound(xs, n as int);
    assert forall|i: nat, j: nat| i < j <= k implies step_up(p, t, i) != step_up(p, t, j) by {
        assert(xs[i as int] != xs[j as int]);
    }
}

/// The chain from `t`, after `m` distinct steps, goes on from the `m`-th
/// step with those steps visited.
proof fn lemma_chain_walk(p: SpecProblem, t: Option<ClassId>, m: nat, fuel: nat)
    requires
        m <= fuel,
        forall|i: nat| i < m ==> #[trigger] step_up(p, t, i) is Some,
        forall|i: nat, j: nat| i < j < m ==> step_up(p, t, i) != step_up(p, t, j),
    ensures
        chain(p, t, seq![], fuel) == chain(
            p,
            step_up(p, t, m),
            Seq::new(m, |i: int| step_up(p, t, i as nat)->Some_0),
            (fuel - m) as nat,
        ),
    decreases m,
{
    if m == 0 {
        assert(Seq::new(0, |i: int| step_up(p, t, i as nat)->Some_0) =~= seq![]);
    } else {
        let k = (m - 1) as nat;
        lemma_chain_walk(p, t, k, fuel);
        let v = Seq::new(k, |i: int| step_up(p, t, i as nat)->Some_0);
        assert(step_up(p, t, k) is Some);
        let c = step_up(p, t, k)->Some_0;
        assert(!v.contains(c)) by {
            if v.contains(c) {
                let i = choose|i: int| 0 <= i < v.len() && v[i] == c;
                assert(step_up(p, t, i as nat) is Some);
                assert(step_up(p, t, i as nat) == Some(c));
            }
        }
        assert(v.push(c) =~= Seq::new(m, |i: int| step_up(p, t, i as nat)->Some_0));
        assert(step_up(p, t, m) == p.super_of(c));
    }
}

/// Without a cycle, every class reached by following `extends` from a class
/// is one of its super classes.
proof fn lemma_step_in_supers(p: SpecProblem, c: ClassId, k: nat, y: ClassId)
    requires
        p.ids_wf(),
        p.hierarchy_wf(),
        acyclic(p),
        c.0 < p.classes.len(),
        step_up(p, p.super_of(c), k) == Some(y),
    ensures
        spec_super_classes(p, p.classes[c.0 as int]).contains(y),
{
    let n = p.classes.len();
    let t = p.super_of(c);
    assert(spec_super_class(p.classes[c.0 as int]) matches Some(x) ==> x.0 < n);
    lemma_steps_distinct(p, t, k);
    assert forall|i: nat| i < k implies #[trigger] step_up(p, t, i) is Some by {
        lemma_step_some_before(p, t, i, k);
    }
    lemma_chain_walk(p, t, k, n);
    let v = Seq::new(k, |i: int| step_up(p, t, i as nat)->Some_0);
    assert(!v.contains(y)) by {
        if v.contains(y) {
            let i = choose|i: int| 0 <= i < v.len() && v[i] == y;
            lemma_step_some_before(p, t, i as nat, k);
            assert(step_up(p, t, i as nat) == Some(y));
        }
    }
    assert(v.push(y)[k as int] == y);
    lemma_chain_keeps(p, p.super_of(y), v.push(y), (n - k - 1) as nat, y);
    assert(spec_super_classes(p, p.classes[c.0 as int]) == chain(p, t, seq![], n));
}

/// Without a cycle, a super class of a super class of a class is a super
/// class of it.
proof fn lemma_supers_transitive(p: SpecProblem, c1: ClassId, c2: ClassId, c3: ClassId)
    requires
        p.ids_wf(),
        p.hierarchy_wf(),
        acyclic(p),
        c1.0 < p.classes.len(),
        c2.0 < p.classes.len(),
        spec_super_classes(p, p.classes[c1.0 as int]).contains(c2),
        spec_super_classes(p, p.classes[c2.0 as int]).contains(c3),
    ensures
        spec_super_classes(p, p.classes[c1.0 as int]).contains(c3),
{
    let t1 = p.super_of(c1);
    let t2 = p.super_of(c2);
    assert(spec_super_classes(p, p.classes[c1.0 as int]) == chain(p, t1, seq![], p.classes.len()));
    assert(spec_super_classes(p, p.classes[c2.0 as int]) == chain(p, t2, seq![], p.classes.len()));
    lemma_chain_steps(p, t1, seq![], p.classes.len(), c2);
    lemma_chain_steps(p, t2, seq![], p.classes.len(), c3);
    let k = choose|k: nat| k < p.classes.len() && #[trigger] step_up(p, t1, k) == Some(c2);
    let j = choose|j: nat| j < p.classes.len() && #[trigger] step_up(p, t2, j) == Some(c3);
    lemma_step_add(p, t1, k, 1);
    assert(step_up(p, Some(c2), 1) == t2);
    lemma_step_add(p, t1, k + 1, j);
    lemma_step_add(p, Some(c2), 1, j);
    lemma_step_add(p, t1, k, 1 + j);
    assert(step_up(p, t1, k + 1 + j) == Some(c3));
    lemma_step_in_supers(p, c1, k + 1 + j, c3);
}

/// Where no class is among its own super classes (what
/// [`Problem::check_cycle`] checks), being a sub type is a partial order on
/// classes: transitive and antisymmetric (reflexivity holds of every type).
pub proof fn law_class_subtype_order(p: SpecProblem, c1: ClassId, c2: ClassId, c3: ClassId)
    requires
        p.ids_wf(),
        p.hierarchy_wf(),
        check_all(p.classes, class_cycle_fn(p), p.classes.len()) is Ok,
        c1.0 < p.classes.len(),
        c2.0 < p.classes.len(),
        c3.0 < p.classes.len(),
    ensures
        spec_is_subtype_of(p, SpecType::Class(c1), SpecType::Class(c2)) && spec_is_subtype_of(
            p,
            SpecType::Class(c2),
            SpecType::Class(c3),
        ) ==> spec_is_subtype_of(p, SpecType::Class(c1), SpecType::Class(c3)),
        spec_is_subtype_of(p, SpecType::Class(c1), SpecType::Class(c2)) && spec_is_subtype_of(
            p,
            SpecType::Class(c2),
            SpecType::Class(c1),
        ) ==> c1 == c2,
{
    lemma_check_all_ok(p.classes, class_cycle_fn(p), p.classes.len());
    assert forall|i: int| 0 <= i < p.classes.len() implies !#[trigger] spec_super_classes(p, p.classes[i]).contains(p.classes[i].id) by {
        assert(class_cycle_fn(p)(p.classes[i]) is Ok);
    }
    assert(acyclic(p));
    if c1 != c2 && super_classes_of(p, c1).contains(c2) {
        if c2 != c3 && super_classes_of(p, c2).contains(c3) {
            lemma_supers_transitive(p, c1, c2, c3);
        }
        if super_classes_of(p, c2).contains(c1) {
            lemma_supers_transitive(p, c1, c2, c1);
            assert(p.classes[c1.0 as int].id == c1);
            assert(false);
        }
    }
}

/// Where no class is among its own super classes (what
/// [`Problem::check_cycle`] checks), being a sub type is a partial order on
/// the types of the problem, classes included: reflexive, transitive and
/// antisymmetric; an interval is a sub type of another exactly when its
/// bounds are within the other's.
pub proof fn law_subtype_partial_order(
    p: SpecProblem,
    a: SpecType,
    b: SpecType,
    c: SpecType,
    min1: isize,
    max1: isize,
    min2: isize,
    max2: isize,
)
    requires
        p.ids_wf(),
        p.hierarchy_wf(),
        check_all(p.classes, class_cycle_fn(p), p.classes.len()) is Ok,
        type_valid(p, a),
        type_valid(p, b),
        type_valid(p, c),
    ensures
        spec_is_subtype_of(p, a, a),
        spec_is_subtype_of(p, a, b) && spec_is_subtype_of(p, b, c) ==> spec_is_subtype_of(p, a, c),
        spec_is_subtype_of(p, a, b) && spec_is_subtype_of(p, b, a) ==> a == b,
        spec_is_subtype_of(p, SpecType::Interval(min1, max1), SpecType::Interval(min2, max2)) <==> (min2
            <= min1 && max1 <= max2),
{
    law_subtype_reflexive(p, a);
    law_subtype_order(p, SpecType::Int, SpecType::Int, SpecType::Int, min1, max1, min2, max2);
    if a is Class && b is Class {
        let c3 = if c is Class {
            c->Class_0
        } else {
            b->Class_0
        };
        law_class_subtype_order(p, a->Class_0, b->Class_0, c3);
    } else if !(a is Class) && !(b is Class) {
        let c3 = if c is Class {
            a
        } else {
            c
        };
        law_subtype_order(p, a, b, c3, min1, max1, min2, max2);
    }
}

/// The walk keeps the classes already ordered.
proof fn lemma_walk_keeps(p: SpecProblem, todo: Seq<ClassId>, done: Seq<ClassId>, stuck: nat, x: ClassId)
    requires
        done.contains(x),
    ensures
        order_walk(p, todo, done, stuck).contains(x),
    decreases todo.len(), todo.len() + 1 - stuck,
{
    if !(todo.len() == 0 || stuck >= todo.len()) {
        let id = todo[0];
        let i = choose|i: int| 0 <= i < done.len() && done[i] == x;
        assert(done.push(id)[i] == x);
        match p.super_of(id) {
            Some(s) => if done.contains(s) {
                lemma_walk_keeps(p, todo.skip(1), done.push(id), 0, x);
            } else {
                lemma_walk_keeps(p, todo.skip(1).push(id), done, stuck + 1, x);
            },
            None => lemma_walk_keeps(p, todo.skip(1), done.push(id), 0, x),
        }
    }
}

/// Where no class is among its own super classes, the walk orders every
/// class of the problem, when each is still to do or done and the last
/// `stuck` classes to do were put back because the class they extend is not
/// done.
proof fn lemma_walk_complete(p: SpecProblem, todo: Seq<ClassId>, done: Seq<ClassId>, stuck: nat)
    requires
        p.ids_wf(),
        p.hierarchy_wf(),
        forall|i: int|
            0 <= i < p.classes.len() ==> !#[trigger] spec_super_classes(p, p.classes[i]).contains(p.classes[i].id),
        forall|i: int| 0 <= i < todo.len() ==> #[trigger] todo[i].0 < p.classes.len(),
        forall|c: ClassId|
            #![trigger todo.contains(c)]
            #![trigger done.contains(c)]
            c.0 < p.classes.len() ==> todo.contains(c) || done.contains(c),
        stuck <= todo.len(),
        forall|k: int|
            todo.len() - stuck <= k < todo.len() ==> (#[trigger] p.super_of(todo[k]) matches Some(s) && !done.contains(s)),
    ensures
        forall|c: ClassId| c.0 < p.classes.len() ==> #[trigger] order_walk(p, todo, done, stuck).contains(c),
    decreases todo.len(), todo.len() + 1 - stuck,
{
    let r = order_walk(p, todo, done, stuck);
    if todo.len() == 0 {
        assert forall|c: ClassId| c.0 < p.classes.len() implies #[trigger] r.contains(c) by {
            assert(todo.contains(c) || done.contains(c));
        }
    } else if stuck >= todo.len() {
        assert forall|i: int| 0 <= i < todo.len() implies (#[trigger] p.super_of(todo[i]) matches Some(s) && todo.contains(s)) by {
            assert(p.super_of(todo[i]) matches Some(s) && !done.contains(s));
            let s = p.super_of(todo[i]).unwrap();
            assert(todo[i].0 < p.classes.len());
            assert(spec_super_class(p.classes[todo[i].0 as int]) matches Some(x) ==> x.0 < p.classes.len());
            assert(todo.contains(s) || done.contains(s));
        }
        lemma_closed_has_cycle(p, todo);
        assert(false);
    } else {
        let id = todo[0];
        let t1 = todo.skip(1);
        let d1 = done.push(id);
        assert forall|i: int| 0 <= i < t1.len() implies #[trigger] t1[i].0 < p.classes.len() by {
            assert(t1[i] == todo[i + 1]);
        }
        match p.super_of(id) {
            Some(s) => if done.contains(s) {
                assert forall|c: ClassId| c.0 < p.classes.len() implies t1.contains(c) || d1.contains(c) by {
                    if done.contains(c) {
                        let i = choose|i: int| 0 <= i < done.len() && done[i] == c;
                        assert(d1[i] == c);
                    } else {
                        assert(todo.contains(c));
                        let i = choose|i: int| 0 <= i < todo.len() && todo[i] == c;
                        if i == 0 {
                            assert(d1[done.len() as int] == c);
                        } else {
                            assert(t1[i - 1] == c);
                        }
                    }
                }
                lemma_walk_complete(p, t1, d1, 0);
                assert(r == order_walk(p, t1, d1, 0));
            } else {
                let t2 = t1.push(id);
                assert forall|i: int| 0 <= i < t2.len() implies #[trigger] t2[i].0 < p.classes.len() by {
                    if i < t1.len() {
                        assert(t2[i] == t1[i]);
                    }
                }
                assert forall|c: ClassId| c.0 < p.classes.len() implies t2.contains(c) || done.contains(c) by {
                    if !done.contains(c) {
                        assert(todo.contains(c));
                        let i = choose|i: int| 0 <= i < todo.len() && todo[i] == c;
                        if i == 0 {
                            assert(t2[t1.len() as int] == c);
                        } else {
                            assert(t2[i - 1] == c);
                        }
                    }
                }
                assert forall|k: int| t2.len() - (stuck + 1) <= k < t2.len() implies (#[trigger] p.super_of(t2[k]) matches Some(s) && !done.contains(s)) by {
                    if k < t2.len() - 1 {
                        assert(t2[k] == todo[k + 1]);
                    }
                }
                lemma_walk_complete(p, t2, done, stuck + 1);
                assert(r == order_walk(p, t2, done, stuck + 1));
            },
            None => {
                assert forall|c: ClassId| c.0 < p.classes.len() implies t1.contains(c) || d1.contains(c) by {
                    if done.contains(c) {
                        let i = choose|i: int| 0 <= i < done.len() && done[i] == c;
                        assert(d1[i] == c);
                    } else {
                        assert(todo.contains(c));
                        let i = choose|i: int| 0 <= i < todo.len() && todo[i] == c;
                        if i == 0 {
                            assert(d1[done.len() as int] == c);
                        } else {
                            assert(t1[i - 1] == c);
                        }
                    }
                }
                lemma_walk_complete(p, t1, d1, 0);
                assert(r == order_walk(p, t1, d1, 0));
            },
        }
    }
}

/// Where no class is among its own super classes (what
/// [`Problem::check_cycle`] checks), the order of the classes holds every
/// class of the problem.
pub proof fn law_classes_ordered_complete(p: SpecProblem)
    requires
        p.ids_wf(),
        p.hierarchy_wf(),
        check_all(p.classes, class_cycle_fn(p), p.classes.len()) is Ok,
    ensures
        forall|i: int|
            0 <= i < p.classes.len() ==> #[trigger] order_walk(p, class_ids(p), seq![], 0).contains(ClassId(i as usize)),
{
    lemma_check_all_ok(p.classes, class_cycle_fn(p), p.classes.len());
    assert forall|i: int| 0 <= i < p.classes.len() implies !#[trigger] spec_super_classes(p, p.classes[i]).contains(p.classes[i].id) by {
        assert(class_cycle_fn(p)(p.classes[i]) is Ok);
    }
    let ids = class_ids(p);
    assert forall|c: ClassId| c.0 < p.classes.len() implies ids.contains(c) || seq![].contains(c) by {
        assert(p.classes[c.0 as int].id == c);
        assert(ids[c.0 as int] == c);
    }
    assert forall|i: int| 0 <= i < ids.len() implies #[trigger] ids[i].0 < p.classes.len() by {
        assert(p.classes[i].id == ClassId(i as usize));
    }
    lemma_walk_complete(p, ids, seq![], 0);
    assert forall|i: int| 0 <= i < p.classes.len() implies #[trigger] order_walk(p, class_ids(p), seq![], 0).contains(ClassId(i as usize)) by {
        assert(ClassId(i as usize).0 < p.classes.len());
    }
}

impl Problem {
    /// The classes, each after the class it extends: the order in which the
    /// walk of [`order_walk`] puts them.
    pub fn classes_ordered(&self) -> (r: Vec<ClassId>)
        ensures
            r@ == order_walk(self@, class_ids(self@), seq![], 0),
    {
        let ghost p = self@;
        let classes = self.classes();
        let mut todo: Vec<ClassId> = Vec::new();
        let mut i: usize = 0;
        while i < classes.len()
            invariant
                classes@.map_values(|x: Class| x@) == p.classes,
                i <= classes.len(),
                todo@ == class_ids(p).take(i as int),
            decreases classes.len() - i,
        {
            proof {
                assert(classes@[i as int]@ == p.classes[i as int]);
            }
            todo.push(classes[i].id());
            proof {
                assert(todo@ =~= class_ids(p).take(i + 1));
            }
            i += 1;
        }
        proof {
            assert(class_ids(p).take(classes.len() as int) =~= class_ids(p));
        }
        let mut done: Vec<ClassId> = Vec::new();
        let mut head: usize = 0;
        let mut stuck: usize = 0;
        let ghost goal = order_walk(p, todo@, seq![], 0);
        while head < todo.len() && stuck < todo.len() - head
            invariant
                p == self@,
                classes@.map_values(|x: Class| x@) == p.classes,
                head <= todo.len(),
                goal == order_walk(p, todo@.skip(head as int), done@, stuck as nat),
            decreases todo.len() - head, todo.len() - head + 1 - stuck,
        {
            let id = todo[head];
            let ghost q = todo@.skip(head as int);
            proof {
                assert(q[0] == id);
                assert(q.skip(1) =~= todo@.skip(head + 1));
            }
            let sup = match self.get_class(id) {
                Some(c) => c.super_class(),
                None => None,
            };
            proof {
                assert(sup == p.super_of(id));
            }
            match sup {
                Some(s) => {
                    if contains_class(&done, s) {
                        done.push(id);
                        head += 1;
                        stuck = 0;
                    } else {
                        todo.push(id);
                        proof {
                            assert(todo@.skip(head + 1) =~= q.skip(1).push(id));
                        }
                        head += 1;
                        stuck += 1;
                    }
                },
                None => {
                    done.push(id);
                    head += 1;
                    stuck = 0;
                },
            }
        }
        done
    }
}

} // verus!
