//! What a type name stands for.


use crate::problem::class::Class;
use crate::problem::entry::last_named;
use crate::problem::entry::lemma_last_named;
use crate::problem::entry::lemma_last_named_concat;
use crate::problem::ids::ClassId;
use crate::problem::ids::StructureId;
use crate::problem::structure::Structure;
use crate::text::str_eq;
use vstd::prelude::*;

verus! {

#[derive(Copy, Clone, PartialEq, Eq, Hash, Debug, Structural)]
pub enum TypeEntryType {
    Structure(StructureId),
    Class(ClassId),
}

/// A type name and the type it stands for.
pub struct TypeEntry {
    pub name: String,
    pub typ: TypeEntryType,
}

pub struct SpecTypeEntry {
    pub name: Seq<char>,
    pub typ: TypeEntryType,
}

impl View for TypeEntry {
    type V = SpecTypeEntry;

    open spec fn view(&self) -> SpecTypeEntry {
        SpecTypeEntry { name: self.name@, typ: self.typ }
    }
}

impl TypeEntry {
    pub fn new(name: String, typ: TypeEntryType) -> (r: TypeEntry)
        ensures
            r@ == (SpecTypeEntry { name: name@, typ }),
    {
        TypeEntry { name, typ }
    }

    pub fn name(&self) -> (r: &str)
        ensures
            r@ == self.name@,
    {
        self.name.as_str()
    }

    pub fn typ(&self) -> (r: TypeEntryType)
        ensures
            r == self.typ,
    {
        self.typ
    }

    pub fn copy(&self) -> (r: TypeEntry)
        ensures
            r@ == self@,
    {
        TypeEntry { name: self.name.clone(), typ: self.typ }
    }
}

/// The names of a list of type entries.
pub open spec fn type_entry_names(s: Seq<SpecTypeEntry>) -> Seq<Seq<char>> {
    s.map_values(|e: SpecTypeEntry| e.name)
}

/// What a type name stands for: the last entry of that name.
pub open spec fn spec_type_lookup(s: Seq<SpecTypeEntry>, name: Seq<char>) -> Option<
    SpecTypeEntry,
> {
    match last_named(type_entry_names(s), name, s.len() as int) {
        Some(i) => Some(s[i]),
        None => None,
    }
}

/// Type names in scope, later ones hiding earlier ones.
pub struct TypeEntries(pub Vec<TypeEntry>);

impl View for TypeEntries {
    type V = Seq<SpecTypeEntry>;

    open spec fn view(&self) -> Seq<SpecTypeEntry> {
        self.0@.map_values(|e: TypeEntry| e@)
    }
}

impl TypeEntries {
    pub fn new(entries: Vec<TypeEntry>) -> (r: TypeEntries)
        ensures
            r@ == entries@.map_values(|e: TypeEntry| e@),
    {
        TypeEntries(entries)
    }

    /// The entries with `entry` after them.
    pub fn add(&self, entry: TypeEntry) -> (r: TypeEntries)
        ensures
            r@ == self@.push(entry@),
    {
        let mut v: Vec<TypeEntry> = Vec::new();
        let mut i: usize = 0;
        while i < self.0.len()
            invariant
                i <= self.0.len(),
                v@.len() == i,
                forall|j: int| 0 <= j < i ==> #[trigger] v@[j]@ == self.0@[j]@,
            decreases self.0.len() - i,
        {
            v.push(self.0[i].copy());
            i += 1;
        }
        v.push(entry);
        let r = TypeEntries(v);
        assert(r@ =~= self@.push(entry@));
        r
    }

    /// What type `name` stands for: the last entry of that name.
    pub fn get(&self, name: &str) -> (r: Option<TypeEntry>)
        ensures
            match spec_type_lookup(self@, name@) {
                Some(e) => r matches Some(x) && x@ == e,
                None => r is None,
            },
    {
        let ghost names = type_entry_names(self@);
        let mut i: usize = self.0.len();
        while i > 0
            invariant
                i <= self.0.len(),
                names == type_entry_names(self@),
                last_named(names, name@, self.0@.len() as int) == last_named(names, name@, i as int),
            decreases i,
        {
            if str_eq(self.0[i - 1].name.as_str(), name) {
                return Some(self.0[i - 1].copy());
            }
            i -= 1;
        }
        None
    }
}

/// Adding a type entry: its name stands for it, every other name for what
/// it stood for before.
pub proof fn law_added_type_entry_hides(a: Seq<SpecTypeEntry>, e: SpecTypeEntry, name: Seq<char>)
    ensures
        spec_type_lookup(a.push(e), name) == if name == e.name {
            Some(e)
        } else {
            spec_type_lookup(a, name)
        },
{
    let na = type_entry_names(a);
    let ne = type_entry_names(seq![e]);
    assert(type_entry_names(a.push(e)) =~= na + ne);
    assert(ne.len() == 1 && ne[0] == e.name);
    lemma_last_named_concat(na, ne, name, 1);
    assert(last_named(ne, name, 1) == if name == e.name { Some(0int) } else { last_named(ne, name, 0) });
    lemma_last_named(na, name, a.len() as int);
    if name != e.name {
        if let Some(i) = last_named(na, name, a.len() as int) {
            assert(a.push(e)[i] == a[i]);
        }
    }
    assert(a.push(e)[a.len() as int] == e);
}

} // verus!
