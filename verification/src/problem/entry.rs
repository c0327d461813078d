//! What a name stands for inside an expression.


use crate::problem::ids::ClassId;
use crate::problem::ids::InstanceId;
use crate::problem::ids::StructureId;
use crate::problem::ids::VariableId;
use crate::problem::instance::Instance;
use crate::problem::parameter::Parameter;
use crate::problem::parameter::SpecParameter;
use crate::problem::variable::Variable;
use crate::text::str_eq;
use vstd::prelude::*;

verus! {

pub enum EntryType {
    Instance(InstanceId),
    Variable(VariableId),
    Parameter(Parameter),
    StrucSelf(StructureId),
    ClassSelf(ClassId),
}

pub enum SpecEntryType {
    Instance(InstanceId),
    Variable(VariableId),
    Parameter(SpecParameter),
    StrucSelf(StructureId),
    ClassSelf(ClassId),
}

impl View for EntryType {
    type V = SpecEntryType;

    open spec fn view(&self) -> SpecEntryType {
        match self {
            EntryType::Instance(id) => SpecEntryType::Instance(*id),
            EntryType::Variable(id) => SpecEntryType::Variable(*id),
            EntryType::Parameter(p) => SpecEntryType::Parameter(p@),
            EntryType::StrucSelf(id) => SpecEntryType::StrucSelf(*id),
            EntryType::ClassSelf(id) => SpecEntryType::ClassSelf(*id),
        }
    }
}

impl EntryType {
    pub fn copy(&self) -> (r: EntryType)
        ensures
            r@ == self@,
    {
        match self {
            EntryType::Instance(id) => EntryType::Instance(*id),
            EntryType::Variable(id) => EntryType::Variable(*id),
            EntryType::Parameter(p) => EntryType::Parameter(p.copy()),
            EntryType::StrucSelf(id) => EntryType::StrucSelf(*id),
            EntryType::ClassSelf(id) => EntryType::ClassSelf(*id),
        }
    }
}

/// A name and what it stands for.
pub struct Entry {
    pub name: String,
    pub typ: EntryType,
}

pub struct SpecEntry {
    pub name: Seq<char>,
    pub typ: SpecEntryType,
}

impl View for Entry {
    type V = SpecEntry;

    open spec fn view(&self) -> SpecEntry {
        SpecEntry { name: self.name@, typ: self.typ@ }
    }
}

impl Entry {
    pub fn new(name: String, typ: EntryType) -> (r: Entry)
        ensures
            r@ == (SpecEntry { name: name@, typ: typ@ }),
    {
        Entry { name, typ }
    }

    /// The entry of a parameter, under its name.
    pub fn new_parameter(p: &Parameter) -> (r: Entry)
        ensures
            r@ == (SpecEntry { name: p@.name, typ: SpecEntryType::Parameter(p@) }),
    {
        Entry { name: p.name.clone(), typ: EntryType::Parameter(p.copy()) }
    }

    pub fn name(&self) -> (r: &str)
        ensures
            r@ == self.name@,
    {
        self.name.as_str()
    }

    pub fn typ(&self) -> (r: &EntryType)
        ensures
            r@ == self.typ@,
    {
        &self.typ
    }

    pub fn copy(&self) -> (r: Entry)
        ensures
            r@ == self@,
    {
        Entry { name: self.name.clone(), typ: self.typ.copy() }
    }
}

/// Index of the last name equal to `name` among `names[..i]`.
pub open spec fn last_named(names: Seq<Seq<char>>, name: Seq<char>, i: int) -> Option<int>
    decreases i,
{
    if i <= 0 || i > names.len() {
        None
    } else if names[i - 1] == name {
        Some(i - 1)
    } else {
        last_named(names, name, i - 1)
    }
}

/// The names of a list of entries.
pub open spec fn entry_names(s: Seq<SpecEntry>) -> Seq<Seq<char>> {
    s.map_values(|e: SpecEntry| e.name)
}

/// Where the last name of the first `i` equal to `name` stands.
pub proof fn lemma_last_named(names: Seq<Seq<char>>, name: Seq<char>, i: int)
    ensures
        last_named(names, name, i) matches Some(k) ==> 0 <= k < i && k < names.len() && names[k]
            == name,
    decreases i,
{
    if i > 0 && i <= names.len() && names[i - 1] != name {
        lemma_last_named(names, name, i - 1);
    }
}

/// What a name stands for among entries: the last entry of that name.
pub open spec fn spec_lookup(s: Seq<SpecEntry>, name: Seq<char>) -> Option<SpecEntry> {
    match last_named(entry_names(s), name, s.len() as int) {
        Some(i) => Some(s[i]),
        None => None,
    }
}

/// Names in scope, later ones hiding earlier ones.
pub struct Entries(pub Vec<Entry>);

impl View for Entries {
    type V = Seq<SpecEntry>;

    open spec fn view(&self) -> Seq<SpecEntry> {
        self.0@.map_values(|e: Entry| e@)
    }
}

impl Entries {
    pub fn new(entries: Vec<Entry>) -> (r: Entries)
        ensures
            r@ == entries@.map_values(|e: Entry| e@),
    {
        Entries(entries)
    }

    pub fn copy(&self) -> (r: Entries)
        ensures
            r@ == self@,
    {
        let mut v: Vec<Entry> = Vec::new();
        let mut i: usize = 0;
        while i < self.0.len()
            invariant
                i <= self.0.len(),
                v@.len() == i,
                forall|j: int| 0 <= j < i ==> #[trigger] v@[j]@ == self.0@[j]@,
            decreases self.0.len() - i,
        {
            v.push(self.0[i].copy());
            i += 1;
        }
        let r = Entries(v);
        assert(r@ =~= self@);
        r
    }

    /// The entries with `entry` after them.
    pub fn add(&self, entry: Entry) -> (r: Entries)
        ensures
            r@ == self@.push(entry@),
    {
        let mut r = self.copy();
        r.0.push(entry);
        assert(r@ =~= self@.push(entry@));
        r
    }

    /// The entries with `entries` after them.
    pub fn add_all(&self, entries: Entries) -> (r: Entries)
        ensures
            r@ == self@ + entries@,
    {
        let mut r = self.copy();
        let mut i: usize = 0;
        while i < entries.0.len()
            invariant
                i <= entries.0.len(),
                r@ == self@ + entries@.take(i as int),
            decreases entries.0.len() - i,
        {
            let ghost prev = r.0@;
            r.0.push(entries.0[i].copy());
            proof {
                assert(r.0@.map_values(|e: Entry| e@) =~= prev.map_values(|e: Entry| e@).push(entries@[i as int]));
                assert(entries@.take(i + 1) =~= entries@.take(i as int).push(entries@[i as int]));
                assert(r@ =~= self@ + entries@.take(i + 1));
            }
            i += 1;
        }
        assert(entries@.take(entries.0.len() as int) =~= entries@);
        r
    }

    /// What `name` stands for: the last entry of that name.
    pub fn get(&self, name: &str) -> (r: Option<Entry>)
        ensures
            match spec_lookup(self@, name@) {
                Some(e) => r matches Some(x) && x@ == e,
                None => r is None,
            },
    {
        let ghost names = entry_names(self@);
        let mut i: usize = self.0.len();
        while i > 0
            invariant
                i <= self.0.len(),
                names == entry_names(self@),
                last_named(names, name@, self.0@.len() as int) == last_named(names, name@, i as int),
            decreases i,
        {
            if str_eq(self.0[i - 1].name.as_str(), name) {
                return Some(self.0[i - 1].copy());
            }
            i -= 1;
        }
        None
    }
}

//---------- Laws ----------

/// Looking a name up among `a` then `b`: the last index of that name in the
/// first `i` names, for `i` within `a`, is its last index in `a`.
pub proof fn lemma_last_named_prefix(a: Seq<Seq<char>>, b: Seq<Seq<char>>, name: Seq<char>, i: int)
    requires
        i <= a.len(),
    ensures
        last_named(a + b, name, i) == last_named(a, name, i),
    decreases i,
{
    if i > 0 {
        assert((a + b)[i - 1] == a[i - 1]);
        lemma_last_named_prefix(a, b, name, i - 1);
    }
}

/// The last index of a name in the first `a.len() + j` names of `a + b`:
/// its last index in the first `j` of `b`, moved by `a.len()`, else its
/// last index in `a`.
pub proof fn lemma_last_named_concat(a: Seq<Seq<char>>, b: Seq<Seq<char>>, name: Seq<char>, j: int)
    requires
        0 <= j <= b.len(),
    ensures
        last_named(a + b, name, a.len() + j) == match last_named(b, name, j) {
            Some(k) => Some(k + a.len()),
            None => last_named(a, name, a.len() as int),
        },
    decreases j,
{
    if j == 0 {
        lemma_last_named_prefix(a, b, name, a.len() as int);
    } else {
        assert((a + b)[a.len() + j - 1] == b[j - 1]);
        lemma_last_named_concat(a, b, name, j - 1);
    }
}

/// Entries added after others hide them: a name stands for its last entry
/// among the added ones, else for what it stood for before.
pub proof fn law_added_entries_hide(a: Seq<SpecEntry>, b: Seq<SpecEntry>, name: Seq<char>)
    ensures
        spec_lookup(a + b, name) == match spec_lookup(b, name) {
            Some(e) => Some(e),
            None => spec_lookup(a, name),
        },
{
    let na = entry_names(a);
    let nb = entry_names(b);
    assert(entry_names(a + b) =~= na + nb);
    assert(na.len() == a.len() && nb.len() == b.len());
    lemma_last_named_concat(na, nb, name, b.len() as int);
    lemma_last_named(nb, name, b.len() as int);
    assert(last_named(entry_names(a + b), name, (a + b).len() as int) == last_named(na + nb, name, (na.len() + nb.len()) as int));
    match last_named(nb, name, b.len() as int) {
        Some(k) => {
            assert(last_named(entry_names(a + b), name, (a + b).len() as int) == Some(k + a.len()));
            assert((a + b)[k + a.len()] == b[k]);
            assert(spec_lookup(b, name) == Some(b[k]));
            assert(spec_lookup(a + b, name) == Some((a + b)[k + a.len()]));
        },
        None => {
            assert(last_named(entry_names(a + b), name, (a + b).len() as int) == last_named(na, name, a.len() as int));
            assert(spec_lookup(b, name) is None);
            lemma_last_named(na, name, a.len() as int);
            if let Some(i) = last_named(na, name, a.len() as int) {
                assert((a + b)[i] == a[i]);
            }
            assert(spec_lookup(a + b, name) == spec_lookup(a, name));
        },
    }
}

/// Adding one entry: its name stands for it, every other name for what it
/// stood for before.
pub proof fn law_added_entry_hides(a: Seq<SpecEntry>, e: SpecEntry, name: Seq<char>)
    ensures
        spec_lookup(a.push(e), name) == if name == e.name {
            Some(e)
        } else {
            spec_lookup(a, name)
        },
{
    law_added_entries_hide(a, seq![e], name);
    assert(a + seq![e] =~= a.push(e));
    let ns = entry_names(seq![e]);
    assert(ns.len() == 1 && ns[0] == e.name);
    assert(last_named(ns, name, 1) == if name == e.name { Some(0int) } else { last_named(ns, name, 0) });
}

/// No name stands for anything among no entries, and adding an entry to
/// entries built from a list answers every name as the entries built from
/// the list with the entry at its end.
pub proof fn law_entries_built_or_added(v: Seq<Entry>, e: Entry, name: Seq<char>)
    ensures
        spec_lookup(seq![], name) is None,
        spec_lookup(v.map_values(|x: Entry| x@).push(e@), name) == spec_lookup(
            v.push(e).map_values(|x: Entry| x@),
            name,
        ),
{
    assert(v.map_values(|x: Entry| x@).push(e@) =~= v.push(e).map_values(|x: Entry| x@));
}

} // verus!
