//! The class hierarchy: super classes, sub classes, inherited attributes and
//! methods, and instances.

use crate::problem::class::Class;
use crate::problem::class::SpecClass;
use crate::problem::class::spec_super_class;
use crate::problem::ids::ClassId;
use crate::problem::problem::Problem;
use crate::problem::problem::SpecProblem;
use vstd::prelude::*;
use vstd::set_lib::*;

verus! {

impl SpecProblem {
    /// Every `extends` that names a class names one of the problem.
    pub open spec fn hierarchy_wf(self) -> bool {
        forall|i: int|
            0 <= i < self.classes.len() ==> (#[trigger] spec_super_class(self.classes[i]) matches Some(
                s,
            ) ==> s.0 < self.classes.len())
    }

    /// The class that class `c` extends.
    pub open spec fn super_of(self, c: ClassId) -> Option<ClassId> {
        if c.0 < self.classes.len() {
            spec_super_class(self.classes[c.0 as int])
        } else {
            None
        }
    }
}

/// The classes met when following `extends` from `todo`, after `visited`,
/// until a class comes back (at most `fuel` steps).
pub open spec fn chain(p: SpecProblem, todo: Option<ClassId>, visited: Seq<ClassId>, fuel: nat) -> Seq<
    ClassId,
>
    decreases fuel,
{
    match todo {
        None => visited,
        Some(c) => if visited.contains(c) || fuel == 0 {
            visited
        } else {
            chain(p, p.super_of(c), visited.push(c), (fuel - 1) as nat)
        },
    }
}

/// The super classes of a class, nearest first.
pub open spec fn spec_super_classes(p: SpecProblem, c: SpecClass) -> Seq<ClassId> {
    chain(p, spec_super_class(c), seq![], p.classes.len())
}

/// Distinct class identifiers below `n` are at most `n`.
pub proof fn lemma_class_ids_bound(s: Seq<ClassId>, n: int)
    requires
        0 <= n,
        s.no_duplicates(),
        forall|i: int| 0 <= i < s.len() ==> #[trigger] s[i].0 < n,
    ensures
        s.len() <= n,
{
    let m = s.map_values(|c: ClassId| c.0 as int);
    assert(m.no_duplicates()) by {
        assert forall|i: int, j: int| 0 <= i < m.len() && 0 <= j < m.len() && i != j implies m[i]
            != m[j] by {
            assert(s[i] != s[j]);
        }
    }
    m.unique_seq_to_set();
    lemma_int_range(0, n);
    assert forall|x: int| m.to_set().contains(x) implies set_int_range(0, n).contains(x) by {
        let k = choose|k: int| 0 <= k < m.len() && m[k] == x;
        assert(s[k].0 < n);
    }
    lemma_len_subset(m.to_set(), set_int_range(0, n));
}

impl Class {
    /// The super classes of the class, nearest first, each once.
    pub fn super_classes(&self, problem: &Problem) -> (r: Vec<ClassId>)
        requires
            problem@.hierarchy_wf(),
            spec_super_class(self@) matches Some(s) ==> s.0 < problem@.classes.len(),
        ensures
            r@ == spec_super_classes(problem@, self@),
    {
        let ghost p = problem@;
        let ghost n = problem@.classes.len();
        let mut v: Vec<ClassId> = Vec::new();
        let mut todo: Vec<ClassId> = Vec::new();
        if let Some(c) = self.super_class() {
            todo.push(c);
        }
        while todo.len() > 0
            invariant
                p == problem@,
                n == p.classes.len(),
                p.hierarchy_wf(),
                todo@.len() <= 1,
                v@.no_duplicates(),
                forall|i: int| 0 <= i < v@.len() ==> #[trigger] v@[i].0 < n,
                forall|i: int| 0 <= i < todo@.len() ==> #[trigger] todo@[i].0 < n,
                v@.len() <= n,
                spec_super_classes(p, self@) == chain(
                    p,
                    if todo@.len() == 0 {
                        None
                    } else {
                        Some(todo@[0])
                    },
                    v@,
                    (n - v@.len()) as nat,
                ),
            decreases n - v@.len(), todo@.len(),
        {
            let c = todo.pop().unwrap();
            if !contains_class(&v, c) {
                proof {
                    lemma_class_ids_bound(v@.push(c), n as int);
                }
                v.push(c);
                let cls = problem.get_class(c).unwrap();
                if let Some(s) = cls.super_class() {
                    todo.push(s);
                }
            }
        }
        v
    }
}

/// Whether `c` is among `v`.
pub fn contains_class(v: &Vec<ClassId>, c: ClassId) -> (r: bool)
    ensures
        r == v@.contains(c),
{
    let mut i: usize = 0;
    while i < v.len()
        invariant
            i <= v.len(),
            forall|j: int| 0 <= j < i ==> v@[j] != c,
        decreases v.len() - i,
    {
        if v[i].0 == c.0 {
            return true;
        }
        i += 1;
    }
    false
}

} // verus!
