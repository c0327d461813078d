//! Looking declarations up by name, and checking that names are unique.

use crate::error::Error;
use crate::error::SpecError;
use crate::error::result_view;
use crate::parser::position::Position;
use crate::parser::position::SpecPosition;
use crate::parser::position::copy_pos;
use crate::parser::position::opt_pos;
use vstd::prelude::*;

verus! {

/// Index of the first name equal to `name` among `names[i..]`.
pub open spec fn first_named(names: Seq<Seq<char>>, name: Seq<char>, i: int) -> Option<int>
    decreases names.len() - i,
{
    if i < 0 || i >= names.len() {
        None
    } else if names[i] == name {
        Some(i)
    } else {
        first_named(names, name, i + 1)
    }
}

/// What `first_named` finds: the first index with that name.
pub proof fn lemma_first_named(names: Seq<Seq<char>>, name: Seq<char>, i: int)
    requires
        0 <= i,
    ensures
        first_named(names, name, i) matches Some(k) ==> i <= k < names.len() && names[k] == name
            && forall|j: int| i <= j < k ==> names[j] != name,
        first_named(names, name, i) is None ==> forall|j: int|
            i <= j < names.len() ==> names[j] != name,
    decreases names.len() - i,
{
    if i < names.len() && names[i] != name {
        lemma_first_named(names, name, i + 1);
    }
}

/// A name together with where it was declared.
pub type Naming = (String, Option<Position>);

/// View of a naming.
pub open spec fn naming_view(n: Naming) -> (Seq<char>, Option<SpecPosition>) {
    (n.0@, opt_pos(n.1))
}

/// View of a list of namings.
pub open spec fn namings_view(s: Seq<Naming>) -> Seq<(Seq<char>, Option<SpecPosition>)> {
    s.map_values(|n: Naming| naming_view(n))
}

/// The names of a list of viewed namings.
pub open spec fn names_of(s: Seq<(Seq<char>, Option<SpecPosition>)>) -> Seq<Seq<char>> {
    s.map_values(|n: (Seq<char>, Option<SpecPosition>)| n.0)
}

/// The first pair `(i, j)`, `i < j`, in lexicographic order, of equal names
/// among `names`, starting with `i >= from`.
pub open spec fn first_duplicate(names: Seq<Seq<char>>, from: int) -> Option<(int, int)>
    decreases names.len() - from,
{
    if from < 0 || from >= names.len() {
        None
    } else {
        match first_named(names, names[from], from + 1) {
            Some(j) => Some((from, j)),
            None => first_duplicate(names, from + 1),
        }
    }
}

/// The error for names that are not unique, if they are not.
pub open spec fn spec_check_duplicate(names: Seq<(Seq<char>, Option<SpecPosition>)>) -> Result<
    (),
    SpecError,
> {
    match first_duplicate(names_of(names), 0) {
        None => Ok(()),
        Some((i, j)) => Err(
            SpecError::Duplicate { name: names[i].0, first: names[i].1, second: names[j].1 },
        ),
    }
}

/// Checks that all names differ: the first pair of equal names is reported
/// with both positions.
pub fn check_duplicate(names: Vec<Naming>) -> (r: Result<(), Error>)
    ensures
        result_view(r) == spec_check_duplicate(namings_view(names@)),
{
    let ghost views = namings_view(names@);
    let ghost ns = names_of(views);
    let mut i: usize = 0;
    while i < names.len()
        invariant
            i <= names.len(),
            views == namings_view(names@),
            ns == names_of(views),
            first_duplicate(ns, 0) == first_duplicate(ns, i as int),
        decreases names.len() - i,
    {
        let mut j: usize = i + 1;
        while j < names.len()
            invariant
                i < names.len(),
                i + 1 <= j <= names.len(),
                views == namings_view(names@),
                ns == names_of(views),
                first_named(ns, ns[i as int], i + 1) == first_named(ns, ns[i as int], j as int),
                first_duplicate(ns, 0) == first_duplicate(ns, i as int),
            decreases names.len() - j,
        {
            if names[i].0 == names[j].0 {
                proof {
                    assert(ns[j as int] == ns[i as int]);
                    assert(first_named(ns, ns[i as int], j as int) == Some(j as int));
                    assert(first_duplicate(ns, i as int) == Some((i as int, j as int)));
                    assert(views[i as int] == naming_view(names@[i as int]));
                    assert(views[j as int] == naming_view(names@[j as int]));
                }
                let e = Error::Duplicate {
                    name: names[i].0.clone(),
                    first: copy_pos(&names[i].1),
                    second: copy_pos(&names[j].1),
                };
                proof {
                }
                return Err(e);
            }
            proof {
                assert(ns[j as int] != ns[i as int]);
            }
            j += 1;
        }
        proof {
            assert(first_named(ns, ns[i as int], j as int) is None);
            assert(first_duplicate(ns, i as int) == first_duplicate(ns, i + 1));
        }
        i += 1;
    }
    proof {
        assert(first_duplicate(ns, i as int) is None);
    }
    Ok(())
}

} // verus!
