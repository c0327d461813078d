//! Checks on the declarations of a problem: no duplicate names, no empty
//! structure or class, no cycle of classes.

use crate::error::Error;
use crate::error::SpecError;
use crate::error::result_view;
use crate::parser::position::SpecPosition;
use crate::parser::position::copy_pos;
use crate::problem::attribute::Attribute;
use crate::problem::attribute::SpecAttribute;
use crate::problem::attribute::attrs_view;
use crate::problem::class::Class;
use crate::problem::class::SpecClass;
use crate::problem::class::spec_super_class;
use crate::problem::constraint::Constraint;
use crate::problem::constraint::SpecConstraint;
use crate::problem::expression::check_type::then_check;
use crate::problem::function::Function;
use crate::problem::function::SpecFunction;
use crate::problem::hierarchy::contains_class;
use crate::problem::hierarchy::spec_super_classes;
use crate::problem::hierarchy2::classes_below;
use crate::problem::hierarchy2::instances_of_type;
use crate::problem::hierarchy2::instances_with;
use crate::problem::ids::ClassId;
use crate::problem::ids::Id;
use crate::problem::ids::StructureId;
use crate::problem::instance::Instance;
use crate::problem::instance::SpecInstance;
use crate::problem::method::Method;
use crate::problem::method::SpecMethod;
use crate::problem::method::meths_view;
use crate::problem::naming::Naming;
use crate::problem::naming::check_duplicate;
use crate::problem::naming::first_duplicate;
use crate::problem::naming::first_named;
use crate::problem::naming::lemma_first_named;
use crate::problem::naming::names_of;
use crate::problem::naming::naming_view;
use crate::problem::naming::namings_view;
use crate::problem::naming::spec_check_duplicate;
use crate::problem::parameter::Parameter;
use crate::problem::parameter::SpecParameter;
use crate::problem::parameter::params_view;
use crate::problem::problem::Problem;
use crate::problem::problem::SpecProblem;
use crate::problem::problem::classes_view;
use crate::problem::problem::constraints_view;
use crate::problem::problem::functions_view;
use crate::problem::problem::instances_view;
use crate::problem::problem::structures_view;
use crate::problem::problem::variables_view;
use crate::problem::results::check_all;
use crate::problem::results::lemma_check_all_err;
use crate::problem::results::lemma_check_all_ok;
use crate::problem::structure::SpecStructure;
use crate::problem::structure::Structure;
use crate::problem::variable::SpecVariable;
use crate::problem::variable::Variable;
use vstd::string::*;
use vstd::prelude::*;

verus! {

//---------- Names ----------

pub open spec fn struct_namings(s: Seq<SpecStructure>) -> Seq<(Seq<char>, Option<SpecPosition>)> {
    s.map_values(|x: SpecStructure| (x.name, x.position))
}

pub open spec fn class_namings(s: Seq<SpecClass>) -> Seq<(Seq<char>, Option<SpecPosition>)> {
    s.map_values(|x: SpecClass| (x.name, x.position))
}

pub open spec fn instance_namings(s: Seq<SpecInstance>) -> Seq<(Seq<char>, Option<SpecPosition>)> {
    s.map_values(|x: SpecInstance| (x.name, x.position))
}

pub open spec fn variable_namings(s: Seq<SpecVariable>) -> Seq<(Seq<char>, Option<SpecPosition>)> {
    s.map_values(|x: SpecVariable| (x.name, x.position))
}

pub open spec fn function_namings(s: Seq<SpecFunction>) -> Seq<(Seq<char>, Option<SpecPosition>)> {
    s.map_values(|x: SpecFunction| (x.name, x.position))
}

pub open spec fn constraint_namings(s: Seq<SpecConstraint>) -> Seq<(Seq<char>, Option<SpecPosition>)> {
    s.map_values(|x: SpecConstraint| (x.name, x.position))
}

pub open spec fn attribute_namings<T: Id>(s: Seq<SpecAttribute<T>>) -> Seq<(Seq<char>, Option<SpecPosition>)> {
    s.map_values(|x: SpecAttribute<T>| (x.name, x.position))
}

pub open spec fn method_namings<T: Id>(s: Seq<SpecMethod<T>>) -> Seq<(Seq<char>, Option<SpecPosition>)> {
    s.map_values(|x: SpecMethod<T>| (x.name, x.position))
}

pub open spec fn parameter_namings(s: Seq<SpecParameter>) -> Seq<(Seq<char>, Option<SpecPosition>)> {
    s.map_values(|x: SpecParameter| (x.name, x.position))
}

/// The names of the declarations of a problem, with their positions:
/// structures, classes, instances, variables, functions, constraints.
pub open spec fn spec_problem_naming(p: SpecProblem) -> Seq<(Seq<char>, Option<SpecPosition>)> {
    struct_namings(p.structures) + class_namings(p.classes) + instance_namings(p.instances)
        + variable_namings(p.variables) + function_namings(p.functions) + constraint_namings(
        p.constraints,
    )
}

//---------- Duplicate ----------

/// No two parameters of a method share a name.
pub open spec fn meth_dup<T: Id>(m: SpecMethod<T>) -> Result<(), SpecError> {
    spec_check_duplicate(parameter_namings(m.parameters))
}

pub open spec fn meth_dup_fn<T: Id>() -> spec_fn(SpecMethod<T>) -> Result<(), SpecError> {
    |m: SpecMethod<T>| meth_dup(m)
}

/// No two parameters of a function share a name.
pub open spec fn func_dup(f: SpecFunction) -> Result<(), SpecError> {
    spec_check_duplicate(parameter_namings(f.parameters))
}

pub open spec fn func_dup_fn() -> spec_fn(SpecFunction) -> Result<(), SpecError> {
    |f: SpecFunction| func_dup(f)
}

/// No two members of a structure share a name, then no two parameters of
/// one of its methods.
pub open spec fn struct_dup(s: SpecStructure) -> Result<(), SpecError> {
    then_check(
        spec_check_duplicate(attribute_namings(s.attributes) + method_namings(s.methods)),
        check_all(s.methods, meth_dup_fn(), s.methods.len()),
    )
}

pub open spec fn struct_dup_fn() -> spec_fn(SpecStructure) -> Result<(), SpecError> {
    |s: SpecStructure| struct_dup(s)
}

/// No two members of a class share a name, then no two parameters of one of
/// its methods.
pub open spec fn class_dup(c: SpecClass) -> Result<(), SpecError> {
    then_check(
        spec_check_duplicate(attribute_namings(c.attributes) + method_namings(c.methods)),
        check_all(c.methods, meth_dup_fn(), c.methods.len()),
    )
}

pub open spec fn class_dup_fn() -> spec_fn(SpecClass) -> Result<(), SpecError> {
    |c: SpecClass| class_dup(c)
}

/// No two declarations of the problem share a name, then no duplicate in
/// the structures, classes and functions, in order.
pub open spec fn spec_problem_duplicate(p: SpecProblem) -> Result<(), SpecError> {
    then_check(
        spec_check_duplicate(spec_problem_naming(p)),
        then_check(
            check_all(p.structures, struct_dup_fn(), p.structures.len()),
            then_check(
                check_all(p.classes, class_dup_fn(), p.classes.len()),
                check_all(p.functions, func_dup_fn(), p.functions.len()),
            ),
        ),
    )
}

/// The names of the declarations of a problem, in order: its structures,
/// classes, instances, variables, functions and constraints.
pub open spec fn declared_names(p: SpecProblem) -> Seq<Seq<char>> {
    p.structures.map_values(|x: SpecStructure| x.name) + p.classes.map_values(|x: SpecClass| x.name)
        + p.instances.map_values(|x: SpecInstance| x.name) + p.variables.map_values(
        |x: SpecVariable| x.name,
    ) + p.functions.map_values(|x: SpecFunction| x.name) + p.constraints.map_values(
        |x: SpecConstraint| x.name,
    )
}

/// A list with two equal names from `from` on has a first pair of equal
/// names from there.
proof fn lemma_first_duplicate_found(names: Seq<Seq<char>>, from: int, i: int, j: int)
    requires
        0 <= from <= i < j < names.len(),
        names[i] == names[j],
    ensures
        first_duplicate(names, from) matches Some((a, b)) && from <= a < b < names.len() && names[a]
            == names[b],
    decreases names.len() - from,
{
    lemma_first_named(names, names[from], from + 1);
    if first_named(names, names[from], from + 1) is None {
        if from == i {
            assert(names[j] != names[from]);
        } else {
            lemma_first_duplicate_found(names, from + 1, i, j);
        }
    }
}

/// Two declarations of a problem (structures, classes, instances,
/// variables, functions or constraints) that share a name make the check
/// of duplicates fail with a duplicate error, on a name that two
/// declarations share.
pub proof fn law_duplicate_names_refused(p: SpecProblem, i: int, j: int)
    requires
        0 <= i < j < declared_names(p).len(),
        declared_names(p)[i] == declared_names(p)[j],
    ensures
        spec_problem_duplicate(p) matches Err(SpecError::Duplicate { name, .. }) && exists|a: int, b: int|
            0 <= a < b < declared_names(p).len() && declared_names(p)[a] == name && declared_names(p)[b]
                == name,
{
    let names = names_of(spec_problem_naming(p));
    assert(names =~= declared_names(p));
    lemma_first_duplicate_found(names, 0, i, j);
    let (a, b) = first_duplicate(names, 0)->Some_0;
    assert(spec_problem_naming(p)[a].0 == names[a]);
}

/// A failing run of checks fails as one of its checks does.
proof fn lemma_check_all_err_at<A>(s: Seq<A>, f: spec_fn(A) -> Result<(), SpecError>, n: nat)
    requires
        n <= s.len(),
        check_all(s, f, n) is Err,
    ensures
        exists|k: int| 0 <= k < n && #[trigger] f(s[k]) == check_all(s, f, n),
    decreases n,
{
    if n > 0 {
        if check_all(s, f, (n - 1) as nat) is Err {
            lemma_check_all_err_at(s, f, (n - 1) as nat);
            let k = choose|k: int| 0 <= k < n - 1 && #[trigger] f(s[k]) == check_all(s, f, (n - 1) as nat);
            assert(0 <= k < n && f(s[k]) == check_all(s, f, n));
        } else {
            assert(f(s[n - 1]) == check_all(s, f, n));
        }
    }
}

/// The check of duplicate names fails only with a duplicate error.
proof fn lemma_check_duplicate_err(names: Seq<(Seq<char>, Option<SpecPosition>)>)
    ensures
        spec_check_duplicate(names) is Err ==> spec_check_duplicate(names)->Err_0 is Duplicate,
{
}

/// The checks of the methods of a structure or class fail only with a
/// duplicate error.
proof fn lemma_meths_dup_err<T: Id>(ms: Seq<SpecMethod<T>>)
    ensures
        check_all(ms, meth_dup_fn(), ms.len()) is Err ==> check_all(ms, meth_dup_fn(), ms.len())->Err_0 is Duplicate,
{
    if check_all(ms, meth_dup_fn(), ms.len()) is Err {
        lemma_check_all_err_at(ms, meth_dup_fn(), ms.len());
        let k = choose|k: int| 0 <= k < ms.len() && #[trigger] meth_dup_fn()(ms[k]) == check_all(ms, meth_dup_fn(), ms.len());
        lemma_check_duplicate_err(parameter_namings(ms[k].parameters));
    }
}

/// The whole check of duplicates fails only with a duplicate error.
proof fn lemma_problem_dup_err(p: SpecProblem)
    ensures
        spec_problem_duplicate(p) is Err ==> spec_problem_duplicate(p)->Err_0 is Duplicate,
{
    lemma_check_duplicate_err(spec_problem_naming(p));
    if check_all(p.structures, struct_dup_fn(), p.structures.len()) is Err {
        lemma_check_all_err_at(p.structures, struct_dup_fn(), p.structures.len());
        let k = choose|k: int| 0 <= k < p.structures.len() && #[trigger] struct_dup_fn()(p.structures[k]) == check_all(p.structures, struct_dup_fn(), p.structures.len());
        let x = p.structures[k];
        lemma_check_duplicate_err(attribute_namings(x.attributes) + method_namings(x.methods));
        lemma_meths_dup_err(x.methods);
    }
    if check_all(p.classes, class_dup_fn(), p.classes.len()) is Err {
        lemma_check_all_err_at(p.classes, class_dup_fn(), p.classes.len());
        let k = choose|k: int| 0 <= k < p.classes.len() && #[trigger] class_dup_fn()(p.classes[k]) == check_all(p.classes, class_dup_fn(), p.classes.len());
        let x = p.classes[k];
        lemma_check_duplicate_err(attribute_namings(x.attributes) + method_namings(x.methods));
        lemma_meths_dup_err(x.methods);
    }
    if check_all(p.functions, func_dup_fn(), p.functions.len()) is Err {
        lemma_check_all_err_at(p.functions, func_dup_fn(), p.functions.len());
        let k = choose|k: int| 0 <= k < p.functions.len() && #[trigger] func_dup_fn()(p.functions[k]) == check_all(p.functions, func_dup_fn(), p.functions.len());
        lemma_check_duplicate_err(parameter_namings(p.functions[k].parameters));
    }
}

/// Two equal names among a list of named things make its check of
/// duplicates fail.
proof fn lemma_duplicate_found(names: Seq<(Seq<char>, Option<SpecPosition>)>, i: int, j: int)
    requires
        0 <= i < j < names.len(),
        names[i].0 == names[j].0,
    ensures
        spec_check_duplicate(names) is Err,
{
    let ns = names_of(names);
    lemma_first_duplicate_found(ns, 0, i, j);
}

/// Two members (attributes or methods) of a structure that share a name,
/// or two parameters of a function that share one, make the check of
/// duplicates of the problem fail with a duplicate error.
pub proof fn law_member_duplicates_refused(p: SpecProblem, k: int, i: int, j: int)
    ensures
        0 <= k < p.structures.len() && 0 <= i < j < p.structures[k].attributes.len()
            + p.structures[k].methods.len() && (p.structures[k].attributes.map_values(
            |x: SpecAttribute<StructureId>| x.name,
        ) + p.structures[k].methods.map_values(|x: SpecMethod<StructureId>| x.name))[i] == (
        p.structures[k].attributes.map_values(|x: SpecAttribute<StructureId>| x.name)
            + p.structures[k].methods.map_values(|x: SpecMethod<StructureId>| x.name))[j] ==> (
        spec_problem_duplicate(p) is Err && spec_problem_duplicate(p)->Err_0 is Duplicate),
        0 <= k < p.classes.len() && 0 <= i < j < p.classes[k].attributes.len()
            + p.classes[k].methods.len() && (p.classes[k].attributes.map_values(
            |x: SpecAttribute<ClassId>| x.name,
        ) + p.classes[k].methods.map_values(|x: SpecMethod<ClassId>| x.name))[i] == (
        p.classes[k].attributes.map_values(|x: SpecAttribute<ClassId>| x.name)
            + p.classes[k].methods.map_values(|x: SpecMethod<ClassId>| x.name))[j] ==> (
        spec_problem_duplicate(p) is Err && spec_problem_duplicate(p)->Err_0 is Duplicate),
        0 <= k < p.functions.len() && 0 <= i < j < p.functions[k].parameters.len()
            && p.functions[k].parameters[i].name == p.functions[k].parameters[j].name ==> (
        spec_problem_duplicate(p) is Err && spec_problem_duplicate(p)->Err_0 is Duplicate),
{
    lemma_problem_dup_err(p);
    if spec_check_duplicate(spec_problem_naming(p)) is Ok {
        if 0 <= k < p.structures.len() && 0 <= i < j < p.structures[k].attributes.len()
            + p.structures[k].methods.len() {
            let x = p.structures[k];
            let names = attribute_namings(x.attributes) + method_namings(x.methods);
            let plain = x.attributes.map_values(|y: SpecAttribute<StructureId>| y.name) + x.methods.map_values(
                |y: SpecMethod<StructureId>| y.name,
            );
            if plain[i] == plain[j] {
                assert(names_of(names) =~= plain);
                assert(names[i].0 == names_of(names)[i] && names[j].0 == names_of(names)[j]);
                lemma_duplicate_found(names, i, j);
                if check_all(p.structures, struct_dup_fn(), p.structures.len()) is Ok {
                    lemma_check_all_ok(p.structures, struct_dup_fn(), p.structures.len());
                    assert(struct_dup_fn()(p.structures[k]) is Ok);
                }
            }
        }
        if 0 <= k < p.classes.len() && 0 <= i < j < p.classes[k].attributes.len()
            + p.classes[k].methods.len() {
            let x = p.classes[k];
            let names = attribute_namings(x.attributes) + method_namings(x.methods);
            let plain = x.attributes.map_values(|y: SpecAttribute<ClassId>| y.name) + x.methods.map_values(
                |y: SpecMethod<ClassId>| y.name,
            );
            if plain[i] == plain[j] {
                assert(names_of(names) =~= plain);
                assert(names[i].0 == names_of(names)[i] && names[j].0 == names_of(names)[j]);
                lemma_duplicate_found(names, i, j);
                if check_all(p.structures, struct_dup_fn(), p.structures.len()) is Ok {
                    if check_all(p.classes, class_dup_fn(), p.classes.len()) is Ok {
                        lemma_check_all_ok(p.classes, class_dup_fn(), p.classes.len());
                        assert(class_dup_fn()(p.classes[k]) is Ok);
                    }
                }
            }
        }
        if 0 <= k < p.functions.len() && 0 <= i < j < p.functions[k].parameters.len()
            && p.functions[k].parameters[i].name == p.functions[k].parameters[j].name {
            let names = parameter_namings(p.functions[k].parameters);
            lemma_duplicate_found(names, i, j);
            if check_all(p.structures, struct_dup_fn(), p.structures.len()) is Ok && check_all(
                p.classes,
                class_dup_fn(),
                p.classes.len(),
            ) is Ok && check_all(p.functions, func_dup_fn(), p.functions.len()) is Ok {
                lemma_check_all_ok(p.functions, func_dup_fn(), p.functions.len());
                assert(func_dup_fn()(p.functions[k]) is Ok);
            }
        }
    }
}

/// Every method and function has a parameter, which the check of duplicate
/// parameters needs.
pub open spec fn meth_has_params<T: Id>(m: SpecMethod<T>) -> bool {
    m.parameters.len() >= 1
}

pub open spec fn struct_has_params(s: SpecStructure) -> bool {
    forall|j: int| 0 <= j < s.methods.len() ==> meth_has_params(#[trigger] s.methods[j])
}

pub open spec fn class_has_params(c: SpecClass) -> bool {
    forall|j: int| 0 <= j < c.methods.len() ==> meth_has_params(#[trigger] c.methods[j])
}

impl SpecProblem {
    /// Every method of the structures and classes, and every function, has a
    /// parameter.
    pub open spec fn calls_have_params(self) -> bool {
        &&& forall|i: int| 0 <= i < self.structures.len() ==> struct_has_params(#[trigger] self.structures[i])
        &&& forall|i: int| 0 <= i < self.classes.len() ==> class_has_params(#[trigger] self.classes[i])
        &&& forall|i: int| 0 <= i < self.functions.len() ==> (#[trigger] self.functions[i]).parameters.len() >= 1
    }
}

//---------- Empty ----------

/// A structure has an instance.
pub open spec fn struct_empty(p: SpecProblem, s: SpecStructure) -> Result<(), SpecError> {
    if instances_of_type(p.instances, s.typ).len() == 0 {
        Err(SpecError::Empty { name: s.name, category: "Structure"@ })
    } else {
        Ok(())
    }
}

pub open spec fn struct_empty_fn(p: SpecProblem) -> spec_fn(SpecStructure) -> Result<(), SpecError> {
    |s: SpecStructure| struct_empty(p, s)
}

/// A class, or one of its sub classes, has an instance.
pub open spec fn class_empty(p: SpecProblem, c: SpecClass) -> Result<(), SpecError> {
    if instances_with(p, instances_of_type(p.instances, c.typ), classes_below(p, p.classes, c.id)).len() == 0 {
        Err(SpecError::Empty { name: c.name, category: "Class"@ })
    } else {
        Ok(())
    }
}

pub open spec fn class_empty_fn(p: SpecProblem) -> spec_fn(SpecClass) -> Result<(), SpecError> {
    |c: SpecClass| class_empty(p, c)
}

/// No structure and no class is without instances; the first is reported.
pub open spec fn spec_problem_empty(p: SpecProblem) -> Result<(), SpecError> {
    then_check(
        check_all(p.structures, struct_empty_fn(p), p.structures.len()),
        check_all(p.classes, class_empty_fn(p), p.classes.len()),
    )
}

//---------- Cycle ----------

/// The class that a class extends, if any, is one of the problem.
pub open spec fn super_valid(p: SpecProblem, c: SpecClass) -> bool {
    spec_super_class(c) matches Some(x) ==> x.0 < p.classes.len()
}

/// A class is none of its own super classes.
pub open spec fn class_cycle(p: SpecProblem, c: SpecClass) -> Result<(), SpecError> {
    if spec_super_classes(p, c).contains(c.id) {
        Err(SpecError::Cycle { name: c.name, position: c.position })
    } else {
        Ok(())
    }
}

pub open spec fn class_cycle_fn(p: SpecProblem) -> spec_fn(SpecClass) -> Result<(), SpecError> {
    |c: SpecClass| class_cycle(p, c)
}

//---------- Exec ----------

/// Adds the names of the structures.
fn push_structure_namings(v: &Vec<Structure>, out: &mut Vec<Naming>)
    ensures
        namings_view(final(out)@) == namings_view(old(out)@) + struct_namings(structures_view(v@)),
{
    let ghost s = structures_view(v@);
    let ghost start = namings_view(out@);
    let mut i: usize = 0;
    while i < v.len()
        invariant
            i <= v.len(),
            s == structures_view(v@),
            namings_view(out@) == start + struct_namings(s.take(i as int)),
        decreases v.len() - i,
    {
        let ghost before = out@;
        out.push((v[i].name.clone(), copy_pos(&v[i].position)));
        proof {
            assert(s.take(i + 1) =~= s.take(i as int).push(s[i as int]));
            assert(namings_view(out@) =~= namings_view(before).push(naming_view(out@[before.len() as int])));
            assert(struct_namings(s.take(i + 1)) =~= struct_namings(s.take(i as int)).push((s[i as int].name, s[i as int].position)));
        }
        i += 1;
    }
    proof {
        assert(s.take(v.len() as int) =~= s);
    }
}

/// Adds the names of the classes.
fn push_class_namings(v: &Vec<Class>, out: &mut Vec<Naming>)
    ensures
        namings_view(final(out)@) == namings_view(old(out)@) + class_namings(classes_view(v@)),
{
    let ghost s = classes_view(v@);
    let ghost start = namings_view(out@);
    let mut i: usize = 0;
    while i < v.len()
        invariant
            i <= v.len(),
            s == classes_view(v@),
            namings_view(out@) == start + class_namings(s.take(i as int)),
        decreases v.len() - i,
    {
        let ghost before = out@;
        out.push((v[i].name.clone(), copy_pos(&v[i].position)));
        proof {
            assert(s.take(i + 1) =~= s.take(i as int).push(s[i as int]));
            assert(namings_view(out@) =~= namings_view(before).push(naming_view(out@[before.len() as int])));
            assert(class_namings(s.take(i + 1)) =~= class_namings(s.take(i as int)).push((s[i as int].name, s[i as int].position)));
        }
        i += 1;
    }
    proof {
        assert(s.take(v.len() as int) =~= s);
    }
}

/// Adds the names of the instances.
fn push_instance_namings(v: &Vec<Instance>, out: &mut Vec<Naming>)
    ensures
        namings_view(final(out)@) == namings_view(old(out)@) + instance_namings(instances_view(v@)),
{
    let ghost s = instances_view(v@);
    let ghost start = namings_view(out@);
    let mut i: usize = 0;
    while i < v.len()
        invariant
            i <= v.len(),
            s == instances_view(v@),
            namings_view(out@) == start + instance_namings(s.take(i as int)),
        decreases v.len() - i,
    {
        let ghost before = out@;
        out.push((v[i].name.clone(), copy_pos(&v[i].position)));
        proof {
            assert(s.take(i + 1) =~= s.take(i as int).push(s[i as int]));
            assert(namings_view(out@) =~= namings_view(before).push(naming_view(out@[before.len() as int])));
            assert(instance_namings(s.take(i + 1)) =~= instance_namings(s.take(i as int)).push((s[i as int].name, s[i as int].position)));
        }
        i += 1;
    }
    proof {
        assert(s.take(v.len() as int) =~= s);
    }
}

/// Adds the names of the variables.
fn push_variable_namings(v: &Vec<Variable>, out: &mut Vec<Naming>)
    ensures
        namings_view(final(out)@) == namings_view(old(out)@) + variable_namings(variables_view(v@)),
{
    let ghost s = variables_view(v@);
    let ghost start = namings_view(out@);
    let mut i: usize = 0;
    while i < v.len()
        invariant
            i <= v.len(),
            s == variables_view(v@),
            namings_view(out@) == start + variable_namings(s.take(i as int)),
        decreases v.len() - i,
    {
        let ghost before = out@;
        out.push((v[i].name.clone(), copy_pos(&v[i].position)));
        proof {
            assert(s.take(i + 1) =~= s.take(i as int).push(s[i as int]));
            assert(namings_view(out@) =~= namings_view(before).push(naming_view(out@[before.len() as int])));
            assert(variable_namings(s.take(i + 1)) =~= variable_namings(s.take(i as int)).push((s[i as int].name, s[i as int].position)));
        }
        i += 1;
    }
    proof {
        assert(s.take(v.len() as int) =~= s);
    }
}

/// Adds the names of the functions.
fn push_function_namings(v: &Vec<Function>, out: &mut Vec<Naming>)
    ensures
        namings_view(final(out)@) == namings_view(old(out)@) + function_namings(functions_view(v@)),
{
    let ghost s = functions_view(v@);
    let ghost start = namings_view(out@);
    let mut i: usize = 0;
    while i < v.len()
        invariant
            i <= v.len(),
            s == functions_view(v@),
            namings_view(out@) == start + function_namings(s.take(i as int)),
        decreases v.len() - i,
    {
        let ghost before = out@;
        out.push((v[i].name.clone(), copy_pos(&v[i].position)));
        proof {
            assert(s.take(i + 1) =~= s.take(i as int).push(s[i as int]));
            assert(namings_view(out@) =~= namings_view(before).push(naming_view(out@[before.len() as int])));
            assert(function_namings(s.take(i + 1)) =~= function_namings(s.take(i as int)).push((s[i as int].name, s[i as int].position)));
        }
        i += 1;
    }
    proof {
        assert(s.take(v.len() as int) =~= s);
    }
}

/// Adds the names of the constraints.
fn push_constraint_namings(v: &Vec<Constraint>, out: &mut Vec<Naming>)
    ensures
        namings_view(final(out)@) == namings_view(old(out)@) + constraint_namings(constraints_view(v@)),
{
    let ghost s = constraints_view(v@);
    let ghost start = namings_view(out@);
    let mut i: usize = 0;
    while i < v.len()
        invariant
            i <= v.len(),
            s == constraints_view(v@),
            namings_view(out@) == start + constraint_namings(s.take(i as int)),
        decreases v.len() - i,
    {
        let ghost before = out@;
        out.push((v[i].name.clone(), copy_pos(&v[i].position)));
        proof {
            assert(s.take(i + 1) =~= s.take(i as int).push(s[i as int]));
            assert(namings_view(out@) =~= namings_view(before).push(naming_view(out@[before.len() as int])));
            assert(constraint_namings(s.take(i + 1)) =~= constraint_namings(s.take(i as int)).push((s[i as int].name, s[i as int].position)));
        }
        i += 1;
    }
    proof {
        assert(s.take(v.len() as int) =~= s);
    }
}

/// Adds the names of the attributes.
fn push_attribute_namings<T: Id>(v: &Vec<Attribute<T>>, out: &mut Vec<Naming>)
    ensures
        namings_view(final(out)@) == namings_view(old(out)@) + attribute_namings(attrs_view(v@)),
{
    let ghost s = attrs_view(v@);
    let ghost start = namings_view(out@);
    let mut i: usize = 0;
    while i < v.len()
        invariant
            i <= v.len(),
            s == attrs_view(v@),
            namings_view(out@) == start + attribute_namings(s.take(i as int)),
        decreases v.len() - i,
    {
        let ghost before = out@;
        out.push((v[i].name.clone(), copy_pos(&v[i].position)));
        proof {
            assert(s.take(i + 1) =~= s.take(i as int).push(s[i as int]));
            assert(namings_view(out@) =~= namings_view(before).push(naming_view(out@[before.len() as int])));
            assert(attribute_namings(s.take(i + 1)) =~= attribute_namings(s.take(i as int)).push((s[i as int].name, s[i as int].position)));
        }
        i += 1;
    }
    proof {
        assert(s.take(v.len() as int) =~= s);
    }
}

/// Adds the names of the methods.
fn push_method_namings<T: Id>(v: &Vec<Method<T>>, out: &mut Vec<Naming>)
    ensures
        namings_view(final(out)@) == namings_view(old(out)@) + method_namings(meths_view(v@)),
{
    let ghost s = meths_view(v@);
    let ghost start = namings_view(out@);
    let mut i: usize = 0;
    while i < v.len()
        invariant
            i <= v.len(),
            s == meths_view(v@),
            namings_view(out@) == start + method_namings(s.take(i as int)),
        decreases v.len() - i,
    {
        let ghost before = out@;
        out.push((v[i].name.clone(), copy_pos(&v[i].position)));
        proof {
            assert(s.take(i + 1) =~= s.take(i as int).push(s[i as int]));
            assert(namings_view(out@) =~= namings_view(before).push(naming_view(out@[before.len() as int])));
            assert(method_namings(s.take(i + 1)) =~= method_namings(s.take(i as int)).push((s[i as int].name, s[i as int].position)));
        }
        i += 1;
    }
    proof {
        assert(s.take(v.len() as int) =~= s);
    }
}

/// Adds the names of the parameters.
fn push_parameter_namings(v: &Vec<Parameter>, out: &mut Vec<Naming>)
    ensures
        namings_view(final(out)@) == namings_view(old(out)@) + parameter_namings(params_view(v@)),
{
    let ghost s = params_view(v@);
    let ghost start = namings_view(out@);
    let mut i: usize = 0;
    while i < v.len()
        invariant
            i <= v.len(),
            s == params_view(v@),
            namings_view(out@) == start + parameter_namings(s.take(i as int)),
        decreases v.len() - i,
    {
        let ghost before = out@;
        out.push((v[i].name.clone(), copy_pos(&v[i].position)));
        proof {
            assert(s.take(i + 1) =~= s.take(i as int).push(s[i as int]));
            assert(namings_view(out@) =~= namings_view(before).push(naming_view(out@[before.len() as int])));
            assert(parameter_namings(s.take(i + 1)) =~= parameter_namings(s.take(i as int)).push((s[i as int].name, s[i as int].position)));
        }
        i += 1;
    }
    proof {
        assert(s.take(v.len() as int) =~= s);
    }
}

/// Checks that no two parameters share a name.
fn check_params_duplicate(ps: &Vec<Parameter>) -> (r: Result<(), Error>)
    requires
        ps.len() >= 1,
    ensures
        result_view(r) == spec_check_duplicate(parameter_namings(params_view(ps@))),
{
    let mut v: Vec<Naming> = Vec::new();
    push_parameter_namings(ps, &mut v);
    proof {
        assert(namings_view(v@) =~= parameter_namings(params_view(ps@)));
    }
    check_duplicate(v)
}

impl<T: Id> Method<T> {
    /// Checks that no two parameters of the method share a name.
    pub fn duplicate(&self) -> (r: Result<(), Error>)
        requires
            meth_has_params(self@),
        ensures
            result_view(r) == meth_dup(self@),
    {
        check_params_duplicate(&self.parameters)
    }
}

impl Function {
    /// Checks that no two parameters of the function share a name.
    pub fn duplicate(&self) -> (r: Result<(), Error>)
        requires
            self@.parameters.len() >= 1,
        ensures
            result_view(r) == func_dup(self@),
    {
        check_params_duplicate(&self.parameters)
    }
}

/// Checks the parameters of the methods, in order.
pub fn check_meths_duplicate<T: Id>(v: &Vec<Method<T>>) -> (r: Result<(), Error>)
    requires
        forall|i: int| 0 <= i < v.len() ==> meth_has_params((#[trigger] meths_view(v@)[i])),
    ensures
        result_view(r) == check_all(meths_view(v@), meth_dup_fn(), v.len() as nat),
{
    let ghost s = meths_view(v@);
    let mut i: usize = 0;
    while i < v.len()
        invariant
            i <= v.len(),
            s == meths_view(v@),
            forall|k: int| 0 <= k < v.len() ==> meth_has_params((#[trigger] s[k])),
            check_all(s, meth_dup_fn(), i as nat) == Ok::<(), SpecError>(()),
        decreases v.len() - i,
    {
        proof {
            assert(s[i as int] == v@[i as int]@);
        }
        match v[i].duplicate() {
            Ok(_) => {},
            Err(e) => {
                proof {
                    lemma_check_all_err(s, meth_dup_fn(), (i + 1) as nat, v.len() as nat);
                }
                return Err(e);
            },
        }
        i += 1;
    }
    Ok(())
}

impl Structure {
    /// The names of the attributes, then of the methods, of the structure.
    pub fn local_naming(&self) -> (r: Vec<Naming>)
        ensures
            namings_view(r@) == attribute_namings(self@.attributes) + method_namings(self@.methods),
    {
        let mut v: Vec<Naming> = Vec::new();
        push_attribute_namings(&self.attributes, &mut v);
        push_method_namings(&self.methods, &mut v);
        proof {
            assert(namings_view(v@) =~= attribute_namings(self@.attributes) + method_namings(self@.methods));
        }
        v
    }

    /// Checks that no two members of the structure share a name, then that
    /// no two parameters of one of its methods do.
    pub fn duplicate(&self) -> (r: Result<(), Error>)
        requires
            struct_has_params(self@),
        ensures
            result_view(r) == struct_dup(self@),
    {
        check_duplicate(self.local_naming())?;
        check_meths_duplicate(&self.methods)
    }
}

impl Class {
    /// The names of the attributes, then of the methods, of the class.
    pub fn local_naming(&self) -> (r: Vec<Naming>)
        ensures
            namings_view(r@) == attribute_namings(self@.attributes) + method_namings(self@.methods),
    {
        let mut v: Vec<Naming> = Vec::new();
        push_attribute_namings(&self.attributes, &mut v);
        push_method_namings(&self.methods, &mut v);
        proof {
            assert(namings_view(v@) =~= attribute_namings(self@.attributes) + method_namings(self@.methods));
        }
        v
    }

    /// Checks that no two members of the class share a name, then that no
    /// two parameters of one of its methods do.
    pub fn duplicate(&self) -> (r: Result<(), Error>)
        requires
            class_has_params(self@),
        ensures
            result_view(r) == class_dup(self@),
    {
        check_duplicate(self.local_naming())?;
        check_meths_duplicate(&self.methods)
    }

    /// Checks that the class is none of its own super classes.
    pub fn check_cycle(&self, problem: &Problem) -> (r: Result<(), Error>)
        requires
            problem@.hierarchy_wf(),
            spec_super_class(self@) matches Some(s) ==> s.0 < problem@.classes.len(),
        ensures
            result_view(r) == class_cycle(problem@, self@),
    {
        let sup = self.super_classes(problem);
        if contains_class(&sup, self.id) {
            Err(Error::Cycle { name: self.name.clone(), position: copy_pos(&self.position) })
        } else {
            Ok(())
        }
    }
}

/// Checks the structures, in order.
pub fn check_structures_duplicate(v: &Vec<Structure>) -> (r: Result<(), Error>)
    requires
        forall|i: int| 0 <= i < v.len() ==> struct_has_params((#[trigger] structures_view(v@)[i])),
    ensures
        result_view(r) == check_all(structures_view(v@), struct_dup_fn(), v.len() as nat),
{
    let ghost s = structures_view(v@);
    let mut i: usize = 0;
    while i < v.len()
        invariant
            i <= v.len(),
            s == structures_view(v@),
            forall|k: int| 0 <= k < v.len() ==> struct_has_params((#[trigger] s[k])),
            check_all(s, struct_dup_fn(), i as nat) == Ok::<(), SpecError>(()),
        decreases v.len() - i,
    {
        proof {
            assert(s[i as int] == v@[i as int]@);
        }
        match v[i].duplicate() {
            Ok(_) => {},
            Err(e) => {
                proof {
                    lemma_check_all_err(s, struct_dup_fn(), (i + 1) as nat, v.len() as nat);
                }
                return Err(e);
            },
        }
        i += 1;
    }
    Ok(())
}

/// Checks the classes, in order.
pub fn check_classes_duplicate(v: &Vec<Class>) -> (r: Result<(), Error>)
    requires
        forall|i: int| 0 <= i < v.len() ==> class_has_params((#[trigger] classes_view(v@)[i])),
    ensures
        result_view(r) == check_all(classes_view(v@), class_dup_fn(), v.len() as nat),
{
    let ghost s = classes_view(v@);
    let mut i: usize = 0;
    while i < v.len()
        invariant
            i <= v.len(),
            s == classes_view(v@),
            forall|k: int| 0 <= k < v.len() ==> class_has_params((#[trigger] s[k])),
            check_all(s, class_dup_fn(), i as nat) == Ok::<(), SpecError>(()),
        decreases v.len() - i,
    {
        proof {
            assert(s[i as int] == v@[i as int]@);
        }
        match v[i].duplicate() {
            Ok(_) => {},
            Err(e) => {
                proof {
                    lemma_check_all_err(s, class_dup_fn(), (i + 1) as nat, v.len() as nat);
                }
                return Err(e);
            },
        }
        i += 1;
    }
    Ok(())
}

/// Checks the functions, in order.
pub fn check_functions_duplicate(v: &Vec<Function>) -> (r: Result<(), Error>)
    requires
        forall|i: int| 0 <= i < v.len() ==> (#[trigger] functions_view(v@)[i]).parameters.len() >= 1,
    ensures
        result_view(r) == check_all(functions_view(v@), func_dup_fn(), v.len() as nat),
{
    let ghost s = functions_view(v@);
    let mut i: usize = 0;
    while i < v.len()
        invariant
            i <= v.len(),
            s == functions_view(v@),
            forall|k: int| 0 <= k < v.len() ==> (#[trigger] s[k]).parameters.len() >= 1,
            check_all(s, func_dup_fn(), i as nat) == Ok::<(), SpecError>(()),
        decreases v.len() - i,
    {
        proof {
            assert(s[i as int] == v@[i as int]@);
        }
        match v[i].duplicate() {
            Ok(_) => {},
            Err(e) => {
                proof {
                    lemma_check_all_err(s, func_dup_fn(), (i + 1) as nat, v.len() as nat);
                }
                return Err(e);
            },
        }
        i += 1;
    }
    Ok(())
}

/// Checks that the structures have instances, in order.
pub fn check_structures_empty(problem: &Problem, v: &Vec<Structure>) -> (r: Result<(), Error>)
    requires
    ensures
        result_view(r) == check_all(structures_view(v@), struct_empty_fn(problem@), v.len() as nat),
{
    let ghost s = structures_view(v@);
    let mut i: usize = 0;
    while i < v.len()
        invariant
            i <= v.len(),
            s == structures_view(v@),
            check_all(s, struct_empty_fn(problem@), i as nat) == Ok::<(), SpecError>(()),
        decreases v.len() - i,
    {
        proof {
            assert(s[i as int] == v@[i as int]@);
        }
        match v[i].check_empty(problem) {
            Ok(_) => {},
            Err(e) => {
                proof {
                    lemma_check_all_err(s, struct_empty_fn(problem@), (i + 1) as nat, v.len() as nat);
                }
                return Err(e);
            },
        }
        i += 1;
    }
    Ok(())
}

/// Checks that the classes have instances, in order.
pub fn check_classes_empty(problem: &Problem, v: &Vec<Class>) -> (r: Result<(), Error>)
    requires
        problem@.hierarchy_wf(),
    ensures
        result_view(r) == check_all(classes_view(v@), class_empty_fn(problem@), v.len() as nat),
{
    let ghost s = classes_view(v@);
    let mut i: usize = 0;
    while i < v.len()
        invariant
            problem@.hierarchy_wf(),
            i <= v.len(),
            s == classes_view(v@),
            check_all(s, class_empty_fn(problem@), i as nat) == Ok::<(), SpecError>(()),
        decreases v.len() - i,
    {
        proof {
            assert(s[i as int] == v@[i as int]@);
        }
        match v[i].check_empty(problem) {
            Ok(_) => {},
            Err(e) => {
                proof {
                    lemma_check_all_err(s, class_empty_fn(problem@), (i + 1) as nat, v.len() as nat);
                }
                return Err(e);
            },
        }
        i += 1;
    }
    Ok(())
}

/// Checks that no class is its own super class, in order.
pub fn check_classes_cycle(problem: &Problem, v: &Vec<Class>) -> (r: Result<(), Error>)
    requires
        problem@.hierarchy_wf(),
        forall|i: int| 0 <= i < v.len() ==> super_valid(problem@, #[trigger] classes_view(v@)[i]),
    ensures
        result_view(r) == check_all(classes_view(v@), class_cycle_fn(problem@), v.len() as nat),
{
    let ghost s = classes_view(v@);
    let mut i: usize = 0;
    while i < v.len()
        invariant
            problem@.hierarchy_wf(),
            i <= v.len(),
            s == classes_view(v@),
            forall|k: int| 0 <= k < v.len() ==> super_valid(problem@, #[trigger] s[k]),
            check_all(s, class_cycle_fn(problem@), i as nat) == Ok::<(), SpecError>(()),
        decreases v.len() - i,
    {
        proof {
            assert(s[i as int] == v@[i as int]@);
        }
        match v[i].check_cycle(problem) {
            Ok(_) => {},
            Err(e) => {
                proof {
                    lemma_check_all_err(s, class_cycle_fn(problem@), (i + 1) as nat, v.len() as nat);
                }
                return Err(e);
            },
        }
        i += 1;
    }
    Ok(())
}

impl Structure {
    /// Checks that the structure has an instance.
    pub fn check_empty(&self, problem: &Problem) -> (r: Result<(), Error>)
        ensures
            result_view(r) == struct_empty(problem@, self@),
    {
        if self.is_empty(problem) {
            Err(Error::Empty { name: self.name.clone(), category: String::from_str("Structure") })
        } else {
            Ok(())
        }
    }
}

impl Class {
    /// Checks that the class, or one of its sub classes, has an instance.
    pub fn check_empty(&self, problem: &Problem) -> (r: Result<(), Error>)
        requires
            problem@.hierarchy_wf(),
        ensures
            result_view(r) == class_empty(problem@, self@),
    {
        if self.is_empty(problem) {
            Err(Error::Empty { name: self.name.clone(), category: String::from_str("Class") })
        } else {
            Ok(())
        }
    }
}

impl Problem {
    /// The names of the declarations of the problem, with their positions:
    /// structures, classes, instances, variables, functions, constraints.
    pub fn naming(&self) -> (r: Vec<Naming>)
        ensures
            namings_view(r@) == spec_problem_naming(self@),
    {
        let mut v: Vec<Naming> = Vec::new();
        push_structure_namings(&self.structures, &mut v);
        push_class_namings(&self.classes, &mut v);
        push_instance_namings(&self.instances, &mut v);
        push_variable_namings(&self.variables, &mut v);
        push_function_namings(&self.functions, &mut v);
        push_constraint_namings(&self.constraints, &mut v);
        proof {
            assert(namings_view(v@) =~= spec_problem_naming(self@));
        }
        v
    }

    /// Checks that no two declarations share a name, then the structures,
    /// classes and functions for duplicate members and parameters.
    pub fn duplicate(&self) -> (r: Result<(), Error>)
        requires
            self@.calls_have_params(),
        ensures
            result_view(r) == spec_problem_duplicate(self@),
    {
        check_duplicate(self.naming())?;
        check_structures_duplicate(&self.structures)?;
        check_classes_duplicate(&self.classes)?;
        check_functions_duplicate(&self.functions)
    }

    /// Checks that every structure and every class has an instance (a class
    /// through its sub classes too); the first that has none is reported.
    pub fn check_empty(&self) -> (r: Result<(), Error>)
        requires
            self@.hierarchy_wf(),
        ensures
            result_view(r) == spec_problem_empty(self@),
    {
        check_structures_empty(self, &self.structures)?;
        check_classes_empty(self, &self.classes)
    }

    /// Checks that no class is one of its own super classes; the first that
    /// is is reported.
    pub fn check_cycle(&self) -> (r: Result<(), Error>)
        requires
            self@.hierarchy_wf(),
        ensures
            result_view(r) == check_all(self@.classes, class_cycle_fn(self@), self@.classes.len()),
    {
        proof {
            let p = self@;
            assert forall|i: int| 0 <= i < p.classes.len() implies super_valid(p, #[trigger] p.classes[i]) by {
                assert(spec_super_class(p.classes[i]) matches Some(x) ==> x.0 < p.classes.len());
            }
        }
        check_classes_cycle(self, &self.classes)
    }
}

} // verus!
