//! Looking up the type names of a whole problem.

use crate::error::Error;
use crate::error::SpecError;
use crate::problem::attribute::SpecAttribute;
use crate::problem::class::Class;
use crate::problem::class::SpecClass;
use crate::problem::function::SpecFunction;
use crate::problem::ids::ClassId;
use crate::problem::ids::StructureId;
use crate::problem::method::SpecMethod;
use crate::problem::problem::Problem;
use crate::problem::problem::classes_view;
use crate::problem::problem::functions_view;
use crate::problem::problem::structures_view;
use crate::problem::problem::variables_view;
use crate::problem::resolve_types::attr_defined;
use crate::problem::resolve_types::attr_rt_fn;
use crate::problem::resolve_types::class_rt;
use crate::problem::resolve_types::class_rt_fn;
use crate::problem::resolve_types::func_rt_fn;
use crate::problem::resolve_types::meth_defined;
use crate::problem::resolve_types::meth_rt_fn;
use crate::problem::resolve_types::opt_defined;
use crate::problem::resolve_types::params_defined;
use crate::problem::resolve_types::spec_problem_resolve_type;
use crate::problem::resolve_types::spec_type_entries;
use crate::problem::resolve_types::struct_rt;
use crate::problem::resolve_types::struct_rt_fn;
use crate::problem::resolve_types::var_rt_fn;
use crate::problem::results::lemma_map_results_ok;
use crate::problem::results::map_results;
use crate::problem::structure::SpecStructure;
use crate::problem::structure::Structure;
use crate::problem::type_entry::SpecTypeEntry;
use crate::problem::type_entry::TypeEntries;
use crate::problem::type_entry::TypeEntry;
use crate::problem::type_entry::TypeEntryType;
use crate::problem::type_pass::class_exprs_defined;
use crate::problem::type_pass::class_types_defined;
use crate::problem::type_pass::resolve_class_type_exprs;
use crate::problem::type_pass::resolve_class_types;
use crate::problem::type_pass::resolve_constraint_type_exprs;
use crate::problem::type_pass::resolve_function_type_exprs;
use crate::problem::type_pass::resolve_function_types;
use crate::problem::type_pass::resolve_instance_types;
use crate::problem::type_pass::resolve_structure_type_exprs;
use crate::problem::type_pass::resolve_structure_types;
use crate::problem::type_pass::resolve_variable_type_exprs;
use crate::problem::type_pass::resolve_variable_types;
use crate::problem::type_pass::struct_exprs_defined;
use crate::problem::type_pass::struct_types_defined;
use crate::problem::variable::SpecVariable;
use vstd::prelude::*;

verus! {

/// Looking up types keeps the expressions of a structure.
proof fn lemma_struct_rt_exprs(s: SpecStructure, en: Seq<SpecTypeEntry>)
    requires
        struct_rt(s, en) is Ok,
        struct_exprs_defined(s),
    ensures
        struct_exprs_defined(struct_rt(s, en)->Ok_0),
{
    lemma_map_results_ok(s.attributes, attr_rt_fn(en), s.attributes.len());
    let a = map_results(s.attributes, attr_rt_fn(en), s.attributes.len())->Ok_0;
    lemma_map_results_ok(s.methods, meth_rt_fn(en), s.methods.len());
    let m = map_results(s.methods, meth_rt_fn(en), s.methods.len())->Ok_0;
    assert forall|j: int| 0 <= j < a.len() implies opt_defined(#[trigger] a[j].expr) by {
        assert(attr_rt_fn(en)(s.attributes[j]) == Ok::<SpecAttribute<StructureId>, SpecError>(a[j]));
        assert(opt_defined(s.attributes[j].expr));
    }
    assert forall|j: int| 0 <= j < m.len() implies opt_defined(#[trigger] m[j].expr) by {
        assert(meth_rt_fn(en)(s.methods[j]) == Ok::<SpecMethod<StructureId>, SpecError>(m[j]));
        assert(opt_defined(s.methods[j].expr));
    }
}

/// Looking up types keeps the expressions of a class.
proof fn lemma_class_rt_exprs(c: SpecClass, en: Seq<SpecTypeEntry>)
    requires
        class_rt(c, en) is Ok,
        class_exprs_defined(c),
    ensures
        class_exprs_defined(class_rt(c, en)->Ok_0),
{
    lemma_map_results_ok(c.attributes, attr_rt_fn(en), c.attributes.len());
    let a = map_results(c.attributes, attr_rt_fn(en), c.attributes.len())->Ok_0;
    lemma_map_results_ok(c.methods, meth_rt_fn(en), c.methods.len());
    let m = map_results(c.methods, meth_rt_fn(en), c.methods.len())->Ok_0;
    assert forall|j: int| 0 <= j < a.len() implies opt_defined(#[trigger] a[j].expr) by {
        assert(attr_rt_fn(en)(c.attributes[j]) == Ok::<SpecAttribute<ClassId>, SpecError>(a[j]));
        assert(opt_defined(c.attributes[j].expr));
    }
    assert forall|j: int| 0 <= j < m.len() implies opt_defined(#[trigger] m[j].expr) by {
        assert(meth_rt_fn(en)(c.methods[j]) == Ok::<SpecMethod<ClassId>, SpecError>(m[j]));
        assert(opt_defined(c.methods[j].expr));
    }
}

impl Problem {
    /// The type names of the problem: its structures, then its classes.
    pub fn type_entries(&self) -> (r: TypeEntries)
        ensures
            r@ == spec_type_entries(self@),
    {
        let ghost p = self@;
        let mut v: Vec<TypeEntry> = Vec::new();
        let mut i: usize = 0;
        while i < self.structures.len()
            invariant
                p == self@,
                i <= self.structures.len(),
                v@.map_values(|e: TypeEntry| e@) == p.structures.take(i as int).map_values(
                    |s: SpecStructure| SpecTypeEntry { name: s.name, typ: TypeEntryType::Structure(s.id) },
                ),
            decreases self.structures.len() - i,
        {
            let ghost before = v@;
            v.push(TypeEntry::new(self.structures[i].name.clone(), TypeEntryType::Structure(self.structures[i].id)));
            proof {
                assert(p.structures.take(i + 1) =~= p.structures.take(i as int).push(p.structures[i as int]));
                assert(v@.map_values(|e: TypeEntry| e@) =~= before.map_values(|e: TypeEntry| e@).push(v@[i as int]@));
                assert(p.structures.take(i + 1).map_values(
                    |s: SpecStructure| SpecTypeEntry { name: s.name, typ: TypeEntryType::Structure(s.id) },
                ) =~= p.structures.take(i as int).map_values(
                    |s: SpecStructure| SpecTypeEntry { name: s.name, typ: TypeEntryType::Structure(s.id) },
                ).push(SpecTypeEntry { name: p.structures[i as int].name, typ: TypeEntryType::Structure(p.structures[i as int].id) }));
            }
            i += 1;
        }
        let ghost first = v@.map_values(|e: TypeEntry| e@);
        proof {
            assert(p.structures.take(self.structures.len() as int) =~= p.structures);
        }
        let mut j: usize = 0;
        while j < self.classes.len()
            invariant
                p == self@,
                j <= self.classes.len(),
                first == p.structures.map_values(
                    |s: SpecStructure| SpecTypeEntry { name: s.name, typ: TypeEntryType::Structure(s.id) },
                ),
                v@.map_values(|e: TypeEntry| e@) == first + p.classes.take(j as int).map_values(
                    |c: SpecClass| SpecTypeEntry { name: c.name, typ: TypeEntryType::Class(c.id) },
                ),
            decreases self.classes.len() - j,
        {
            let ghost before = v@;
            v.push(TypeEntry::new(self.classes[j].name.clone(), TypeEntryType::Class(self.classes[j].id)));
            proof {
                assert(p.classes.take(j + 1) =~= p.classes.take(j as int).push(p.classes[j as int]));
                assert(v@.map_values(|e: TypeEntry| e@) =~= before.map_values(|e: TypeEntry| e@).push(v@[before.len() as int]@));
                assert(p.classes.take(j + 1).map_values(
                    |c: SpecClass| SpecTypeEntry { name: c.name, typ: TypeEntryType::Class(c.id) },
                ) =~= p.classes.take(j as int).map_values(
                    |c: SpecClass| SpecTypeEntry { name: c.name, typ: TypeEntryType::Class(c.id) },
                ).push(SpecTypeEntry { name: p.classes[j as int].name, typ: TypeEntryType::Class(p.classes[j as int].id) }));
            }
            j += 1;
        }
        proof {
            assert(p.classes.take(self.classes.len() as int) =~= p.classes);
        }
        TypeEntries::new(v)
    }

    /// Looks up the type names of the problem: the types of the structures,
    /// classes, instances, variables and functions, then the expressions of
    /// the structures, classes, variables, functions, constraints and of what
    /// to search for. On an error the problem is left as it was.
    pub fn resolve_type(&mut self) -> (r: Result<(), Error>)
        requires
            old(self)@.types_defined(),
        ensures
            match spec_problem_resolve_type(old(self)@) {
                Ok(p) => r is Ok && final(self)@ == p,
                Err(e) => r matches Err(er) && er@ == e && final(self)@ == old(self)@,
            },
    {
        let ghost p = self@;
        let en = self.type_entries();
        proof {
            assert forall|i: int| 0 <= i < p.structures.len() implies struct_types_defined(#[trigger] p.structures[i]) && struct_exprs_defined(p.structures[i]) by {
                assert forall|j: int| 0 <= j < p.structures[i].attributes.len() implies !(#[trigger] p.structures[i].attributes[j].typ is Undefined) && opt_defined(p.structures[i].attributes[j].expr) by {
                    assert(attr_defined(p.structures[i].attributes[j]));
                }
                assert forall|j: int| 0 <= j < p.structures[i].methods.len() implies !(#[trigger] p.structures[i].methods[j].typ is Undefined) && params_defined(p.structures[i].methods[j].parameters) && opt_defined(p.structures[i].methods[j].expr) by {
                    assert(meth_defined(p.structures[i].methods[j]));
                }
            }
            assert forall|i: int| 0 <= i < p.classes.len() implies class_types_defined(#[trigger] p.classes[i]) && class_exprs_defined(p.classes[i]) by {
                assert forall|j: int| 0 <= j < p.classes[i].attributes.len() implies !(#[trigger] p.classes[i].attributes[j].typ is Undefined) && opt_defined(p.classes[i].attributes[j].expr) by {
                    assert(attr_defined(p.classes[i].attributes[j]));
                }
                assert forall|j: int| 0 <= j < p.classes[i].methods.len() implies !(#[trigger] p.classes[i].methods[j].typ is Undefined) && params_defined(p.classes[i].methods[j].parameters) && opt_defined(p.classes[i].methods[j].expr) by {
                    assert(meth_defined(p.classes[i].methods[j]));
                }
            }
        }
        let s1 = resolve_structure_types(&self.structures, &en)?;
        let c1 = resolve_class_types(&self.classes, &en)?;
        let i1 = resolve_instance_types(&self.instances, &en)?;
        let v1 = resolve_variable_types(&self.variables, &en)?;
        let f1 = resolve_function_types(&self.functions, &en)?;
        proof {
            let ghost e = en@;
            lemma_map_results_ok(p.structures, struct_rt_fn(e), p.structures.len());
            assert forall|k: int| 0 <= k < s1.len() implies struct_exprs_defined(#[trigger] structures_view(s1@)[k]) by {
                assert(struct_rt_fn(e)(p.structures[k]) == Ok::<SpecStructure, SpecError>(structures_view(s1@)[k]));
                lemma_struct_rt_exprs(p.structures[k], e);
            }
            lemma_map_results_ok(p.classes, class_rt_fn(e), p.classes.len());
            assert forall|k: int| 0 <= k < c1.len() implies class_exprs_defined(#[trigger] classes_view(c1@)[k]) by {
                assert(class_rt_fn(e)(p.classes[k]) == Ok::<SpecClass, SpecError>(classes_view(c1@)[k]));
                lemma_class_rt_exprs(p.classes[k], e);
            }
            lemma_map_results_ok(p.variables, var_rt_fn(e), p.variables.len());
            assert forall|k: int| 0 <= k < v1.len() implies opt_defined((#[trigger] variables_view(v1@)[k]).expr) by {
                assert(var_rt_fn(e)(p.variables[k]) == Ok::<SpecVariable, SpecError>(variables_view(v1@)[k]));
            }
            lemma_map_results_ok(p.functions, func_rt_fn(e), p.functions.len());
            assert forall|k: int| 0 <= k < f1.len() implies opt_defined((#[trigger] functions_view(f1@)[k]).expr) by {
                assert(func_rt_fn(e)(p.functions[k]) == Ok::<SpecFunction, SpecError>(functions_view(f1@)[k]));
            }
        }
        let s2 = resolve_structure_type_exprs(&s1, &en)?;
        let c2 = resolve_class_type_exprs(&c1, &en)?;
        let v2 = resolve_variable_type_exprs(&v1, &en)?;
        let f2 = resolve_function_type_exprs(&f1, &en)?;
        let k2 = resolve_constraint_type_exprs(&self.constraints, &en)?;
        let sr = self.search.resolve_type_expr(&en)?;
        self.structures = s2;
        self.classes = c2;
        self.instances = i1;
        self.variables = v2;
        self.functions = f2;
        self.constraints = k2;
        self.search = sr;
        Ok(())
    }
}

} // verus!
