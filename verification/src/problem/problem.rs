//! A problem: declarations, constraints and what to search for.

use crate::problem::class::Class;
use crate::problem::class::SpecClass;
use crate::problem::constraint::Constraint;
use crate::problem::constraint::SpecConstraint;
use crate::problem::function::Function;
use crate::problem::function::SpecFunction;
use crate::problem::ids::AttributeId;
use crate::problem::ids::ClassId;
use crate::problem::ids::ConstraintId;
use crate::problem::ids::FunctionId;
use crate::problem::ids::InstanceId;
use crate::problem::ids::MethodId;
use crate::problem::ids::StructureId;
use crate::problem::ids::VariableId;
use crate::problem::instance::Instance;
use crate::problem::instance::SpecInstance;
use crate::problem::naming::first_named;
use crate::problem::search::Search;
use crate::problem::search::SpecSearch;
use crate::problem::structure::SpecStructure;
use crate::problem::structure::Structure;
use crate::problem::structure::renumber_attrs;
use crate::problem::structure::renumber_meths;
use crate::problem::typing::SpecType;
use crate::problem::variable::SpecVariable;
use crate::problem::variable::Variable;
use crate::text::str_eq;
use vstd::prelude::*;

verus! {

/// The names of the structures, in order.
pub open spec fn structure_names(s: Seq<SpecStructure>) -> Seq<Seq<char>> {
    s.map_values(|x: SpecStructure| x.name)
}

/// The names of the instances, in order.
pub open spec fn instance_names(s: Seq<SpecInstance>) -> Seq<Seq<char>> {
    s.map_values(|x: SpecInstance| x.name)
}

/// The names of the classes, in order.
pub open spec fn class_names(s: Seq<SpecClass>) -> Seq<Seq<char>> {
    s.map_values(|x: SpecClass| x.name)
}

/// The names of the variables, in order.
pub open spec fn variable_names(s: Seq<SpecVariable>) -> Seq<Seq<char>> {
    s.map_values(|x: SpecVariable| x.name)
}

/// The names of the functions, in order.
pub open spec fn function_names(s: Seq<SpecFunction>) -> Seq<Seq<char>> {
    s.map_values(|x: SpecFunction| x.name)
}

/// View of a list of structures.
pub open spec fn structures_view(s: Seq<Structure>) -> Seq<SpecStructure> {
    s.map_values(|x: Structure| x@)
}

/// View of a list of instances.
pub open spec fn instances_view(s: Seq<Instance>) -> Seq<SpecInstance> {
    s.map_values(|x: Instance| x@)
}

/// View of a list of classes.
pub open spec fn classes_view(s: Seq<Class>) -> Seq<SpecClass> {
    s.map_values(|x: Class| x@)
}

/// View of a list of variables.
pub open spec fn variables_view(s: Seq<Variable>) -> Seq<SpecVariable> {
    s.map_values(|x: Variable| x@)
}

/// View of a list of functions.
pub open spec fn functions_view(s: Seq<Function>) -> Seq<SpecFunction> {
    s.map_values(|x: Function| x@)
}

/// View of a list of constraints.
pub open spec fn constraints_view(s: Seq<Constraint>) -> Seq<SpecConstraint> {
    s.map_values(|x: Constraint| x@)
}

pub struct Problem {
    pub structures: Vec<Structure>,
    pub instances: Vec<Instance>,
    pub classes: Vec<Class>,
    pub variables: Vec<Variable>,
    pub functions: Vec<Function>,
    pub constraints: Vec<Constraint>,
    pub search: Search,
}

pub struct SpecProblem {
    pub structures: Seq<SpecStructure>,
    pub instances: Seq<SpecInstance>,
    pub classes: Seq<SpecClass>,
    pub variables: Seq<SpecVariable>,
    pub functions: Seq<SpecFunction>,
    pub constraints: Seq<SpecConstraint>,
    pub search: SpecSearch,
}

impl View for Problem {
    type V = SpecProblem;

    open spec fn view(&self) -> SpecProblem {
        SpecProblem {
            structures: structures_view(self.structures@),
            instances: instances_view(self.instances@),
            classes: classes_view(self.classes@),
            variables: variables_view(self.variables@),
            functions: functions_view(self.functions@),
            constraints: constraints_view(self.constraints@),
            search: self.search@,
        }
    }
}

impl SpecProblem {
    /// Each declaration carries the identifier of its place.
    pub open spec fn ids_wf(self) -> bool {
        &&& forall|i: int|
            #![trigger self.structures[i]]
            0 <= i < self.structures.len() ==> {
                let s = self.structures[i];
                &&& s.id == StructureId(i as usize)
                &&& s.typ == SpecType::Structure(StructureId(i as usize))
                &&& forall|n: int|
                    0 <= n < s.attributes.len() ==> #[trigger] s.attributes[n].id == AttributeId(
                        StructureId(i as usize),
                        n as usize,
                    )
                &&& forall|n: int|
                    0 <= n < s.methods.len() ==> #[trigger] s.methods[n].id == MethodId(
                        StructureId(i as usize),
                        n as usize,
                    )
            }
        &&& forall|i: int|
            #![trigger self.classes[i]]
            0 <= i < self.classes.len() ==> {
                let s = self.classes[i];
                &&& s.id == ClassId(i as usize)
                &&& s.typ == SpecType::Class(ClassId(i as usize))
                &&& forall|n: int|
                    0 <= n < s.attributes.len() ==> #[trigger] s.attributes[n].id == AttributeId(
                        ClassId(i as usize),
                        n as usize,
                    )
                &&& forall|n: int|
                    0 <= n < s.methods.len() ==> #[trigger] s.methods[n].id == MethodId(
                        ClassId(i as usize),
                        n as usize,
                    )
            }
        &&& forall|i: int|
            0 <= i < self.instances.len() ==> #[trigger] self.instances[i].id == InstanceId(
                i as usize,
            )
        &&& forall|i: int|
            0 <= i < self.variables.len() ==> #[trigger] self.variables[i].id == VariableId(
                i as usize,
            )
        &&& forall|i: int|
            0 <= i < self.functions.len() ==> #[trigger] self.functions[i].id == FunctionId(
                i as usize,
            )
        &&& forall|i: int|
            0 <= i < self.constraints.len() ==> #[trigger] self.constraints[i].id
                == ConstraintId(i as usize)
    }
}

impl Problem {
    /// A problem with no declaration, that asks for any solution.
    pub fn new() -> (r: Problem)
        ensures
            r@.structures.len() == 0,
            r@.instances.len() == 0,
            r@.classes.len() == 0,
            r@.variables.len() == 0,
            r@.functions.len() == 0,
            r@.constraints.len() == 0,
            r@.search == SpecSearch::Solve,
            r@.ids_wf(),
    {
        Problem {
            structures: Vec::new(),
            instances: Vec::new(),
            classes: Vec::new(),
            variables: Vec::new(),
            functions: Vec::new(),
            constraints: Vec::new(),
            search: Search::Solve,
        }
    }

    //---------- Structure ----------

    /// Adds a structure after the others; it gets the next identifier.
    pub fn add_structure(&mut self, structure: Structure) -> (r: StructureId)
        ensures
            r == StructureId(old(self).structures@.len() as usize),
            final(self)@ == (SpecProblem {
                structures: old(self)@.structures.push(SpecStructure { id: r, typ: SpecType::Structure(r), attributes: renumber_attrs(structure@.attributes, r), methods: renumber_meths(structure@.methods, r), ..structure@ }),
                ..old(self)@
            }),
            old(self)@.ids_wf() ==> final(self)@.ids_wf(),
    {
        let id = StructureId(self.structures.len());
        let mut structure = structure;
        structure.set_id(id);
        let ghost added = structure@;
        self.structures.push(structure);
        proof {
            assert(self@.structures =~= old(self)@.structures.push(added));
            assert(self@ == (SpecProblem { structures: old(self)@.structures.push(added), ..old(self)@ }));
        }
        id
    }

    /// The structure of that identifier.
    pub fn get_structure(&self, id: StructureId) -> (r: Option<&Structure>)
        ensures
            r is Some <==> id.0 < self@.structures.len(),
            r matches Some(x) ==> x@ == self@.structures[id.0 as int],
    {
        if id.0 < self.structures.len() {
            Some(&self.structures[id.0])
        } else {
            None
        }
    }

    pub fn structures(&self) -> (r: &Vec<Structure>)
        ensures
            r@.map_values(|x: Structure| x@) == self@.structures,
    {
        &self.structures
    }

    /// The first structure of that name.
    pub fn find_structure(&self, name: &str) -> (r: Option<&Structure>)
        ensures
            match first_named(structure_names(self@.structures), name@, 0) {
                Some(i) => r matches Some(x) && x@ == self@.structures[i],
                None => r is None,
            },
    {
        let ghost names = structure_names(self@.structures);
        let mut i: usize = 0;
        while i < self.structures.len()
            invariant
                i <= self.structures.len(),
                names == structure_names(self@.structures),
                first_named(names, name@, 0) == first_named(names, name@, i as int),
            decreases self.structures.len() - i,
        {
            if str_eq(self.structures[i].name.as_str(), name) {
                return Some(&self.structures[i]);
            }
            i += 1;
        }
        None
    }

    //---------- Instance ----------

    /// Adds a instance after the others; it gets the next identifier.
    pub fn add_instance(&mut self, instance: Instance) -> (r: InstanceId)
        ensures
            r == InstanceId(old(self).instances@.len() as usize),
            final(self)@.instances.len() == old(self)@.instances.len() + 1,
            final(self)@.instances[r.0 as int].id == r,
            final(self)@.instances[r.0 as int].name == instance@.name,
            final(self)@.instances[r.0 as int].typ == instance@.typ,
            final(self)@.instances[r.0 as int].position == instance@.position,
            final(self)@ == (SpecProblem {
                instances: old(self)@.instances.push(SpecInstance { id: r, ..instance@ }),
                ..old(self)@
            }),
            old(self)@.ids_wf() ==> final(self)@.ids_wf(),
    {
        let id = InstanceId(self.instances.len());
        let mut instance = instance;
        instance.set_id(id);
        let ghost added = instance@;
        self.instances.push(instance);
        proof {
            assert(self@.instances =~= old(self)@.instances.push(added));
            assert(self@ == (SpecProblem { instances: old(self)@.instances.push(added), ..old(self)@ }));
        }
        id
    }

    /// The instance of that identifier.
    pub fn get_instance(&self, id: InstanceId) -> (r: Option<&Instance>)
        ensures
            r is Some <==> id.0 < self@.instances.len(),
            r matches Some(x) ==> x@ == self@.instances[id.0 as int],
    {
        if id.0 < self.instances.len() {
            Some(&self.instances[id.0])
        } else {
            None
        }
    }

    pub fn instances(&self) -> (r: &Vec<Instance>)
        ensures
            r@.map_values(|x: Instance| x@) == self@.instances,
    {
        &self.instances
    }

    /// The first instance of that name.
    pub fn find_instance(&self, name: &str) -> (r: Option<&Instance>)
        ensures
            match first_named(instance_names(self@.instances), name@, 0) {
                Some(i) => r matches Some(x) && x@ == self@.instances[i],
                None => r is None,
            },
    {
        let ghost names = instance_names(self@.instances);
        let mut i: usize = 0;
        while i < self.instances.len()
            invariant
                i <= self.instances.len(),
                names == instance_names(self@.instances),
                first_named(names, name@, 0) == first_named(names, name@, i as int),
            decreases self.instances.len() - i,
        {
            if str_eq(self.instances[i].name.as_str(), name) {
                return Some(&self.instances[i]);
            }
            i += 1;
        }
        None
    }

    //---------- Class ----------

    /// Adds a class after the others; it gets the next identifier.
    pub fn add_class(&mut self, class: Class) -> (r: ClassId)
        ensures
            r == ClassId(old(self).classes@.len() as usize),
            final(self)@ == (SpecProblem {
                classes: old(self)@.classes.push(SpecClass { id: r, typ: SpecType::Class(r), attributes: renumber_attrs(class@.attributes, r), methods: renumber_meths(class@.methods, r), ..class@ }),
                ..old(self)@
            }),
            old(self)@.ids_wf() ==> final(self)@.ids_wf(),
    {
        let id = ClassId(self.classes.len());
        let mut class = class;
        class.set_id(id);
        let ghost added = class@;
        self.classes.push(class);
        proof {
            assert(self@.classes =~= old(self)@.classes.push(added));
            assert(self@ == (SpecProblem { classes: old(self)@.classes.push(added), ..old(self)@ }));
        }
        id
    }

    /// The class of that identifier.
    pub fn get_class(&self, id: ClassId) -> (r: Option<&Class>)
        ensures
            r is Some <==> id.0 < self@.classes.len(),
            r matches Some(x) ==> x@ == self@.classes[id.0 as int],
    {
        if id.0 < self.classes.len() {
            Some(&self.classes[id.0])
        } else {
            None
        }
    }

    pub fn classes(&self) -> (r: &Vec<Class>)
        ensures
            r@.map_values(|x: Class| x@) == self@.classes,
    {
        &self.classes
    }

    /// The first class of that name.
    pub fn find_class(&self, name: &str) -> (r: Option<&Class>)
        ensures
            match first_named(class_names(self@.classes), name@, 0) {
                Some(i) => r matches Some(x) && x@ == self@.classes[i],
                None => r is None,
            },
    {
        let ghost names = class_names(self@.classes);
        let mut i: usize = 0;
        while i < self.classes.len()
            invariant
                i <= self.classes.len(),
                names == class_names(self@.classes),
                first_named(names, name@, 0) == first_named(names, name@, i as int),
            decreases self.classes.len() - i,
        {
            if str_eq(self.classes[i].name.as_str(), name) {
                return Some(&self.classes[i]);
            }
            i += 1;
        }
        None
    }

    //---------- Variable ----------

    /// Adds a variable after the others; it gets the next identifier.
    pub fn add_variable(&mut self, variable: Variable) -> (r: VariableId)
        ensures
            r == VariableId(old(self).variables@.len() as usize),
            final(self)@ == (SpecProblem {
                variables: old(self)@.variables.push(SpecVariable { id: r, ..variable@ }),
                ..old(self)@
            }),
            old(self)@.ids_wf() ==> final(self)@.ids_wf(),
    {
        let id = VariableId(self.variables.len());
        let mut variable = variable;
        variable.set_id(id);
        let ghost added = variable@;
        self.variables.push(variable);
        proof {
            assert(self@.variables =~= old(self)@.variables.push(added));
            assert(self@ == (SpecProblem { variables: old(self)@.variables.push(added), ..old(self)@ }));
        }
        id
    }

    /// The variable of that identifier.
    pub fn get_variable(&self, id: VariableId) -> (r: Option<&Variable>)
        ensures
            r is Some <==> id.0 < self@.variables.len(),
            r matches Some(x) ==> x@ == self@.variables[id.0 as int],
    {
        if id.0 < self.variables.len() {
            Some(&self.variables[id.0])
        } else {
            None
        }
    }

    pub fn variables(&self) -> (r: &Vec<Variable>)
        ensures
            r@.map_values(|x: Variable| x@) == self@.variables,
    {
        &self.variables
    }

    /// The first variable of that name.
    pub fn find_variable(&self, name: &str) -> (r: Option<&Variable>)
        ensures
            match first_named(variable_names(self@.variables), name@, 0) {
                Some(i) => r matches Some(x) && x@ == self@.variables[i],
                None => r is None,
            },
    {
        let ghost names = variable_names(self@.variables);
        let mut i: usize = 0;
        while i < self.variables.len()
            invariant
                i <= self.variables.len(),
                names == variable_names(self@.variables),
                first_named(names, name@, 0) == first_named(names, name@, i as int),
            decreases self.variables.len() - i,
        {
            if str_eq(self.variables[i].name.as_str(), name) {
                return Some(&self.variables[i]);
            }
            i += 1;
        }
        None
    }

    //---------- Function ----------

    /// Adds a function after the others; it gets the next identifier.
    pub fn add_function(&mut self, function: Function) -> (r: FunctionId)
        ensures
            r == FunctionId(old(self).functions@.len() as usize),
            final(self)@ == (SpecProblem {
                functions: old(self)@.functions.push(SpecFunction { id: r, ..function@ }),
                ..old(self)@
            }),
            old(self)@.ids_wf() ==> final(self)@.ids_wf(),
    {
        let id = FunctionId(self.functions.len());
        let mut function = function;
        function.set_id(id);
        let ghost added = function@;
        self.functions.push(function);
        proof {
            assert(self@.functions =~= old(self)@.functions.push(added));
            assert(self@ == (SpecProblem { functions: old(self)@.functions.push(added), ..old(self)@ }));
        }
        id
    }

    /// The function of that identifier.
    pub fn get_function(&self, id: FunctionId) -> (r: Option<&Function>)
        ensures
            r is Some <==> id.0 < self@.functions.len(),
            r matches Some(x) ==> x@ == self@.functions[id.0 as int],
    {
        if id.0 < self.functions.len() {
            Some(&self.functions[id.0])
        } else {
            None
        }
    }

    pub fn functions(&self) -> (r: &Vec<Function>)
        ensures
            r@.map_values(|x: Function| x@) == self@.functions,
    {
        &self.functions
    }

    /// The first function of that name.
    pub fn find_function(&self, name: &str) -> (r: Option<&Function>)
        ensures
            match first_named(function_names(self@.functions), name@, 0) {
                Some(i) => r matches Some(x) && x@ == self@.functions[i],
                None => r is None,
            },
    {
        let ghost names = function_names(self@.functions);
        let mut i: usize = 0;
        while i < self.functions.len()
            invariant
                i <= self.functions.len(),
                names == function_names(self@.functions),
                first_named(names, name@, 0) == first_named(names, name@, i as int),
            decreases self.functions.len() - i,
        {
            if str_eq(self.functions[i].name.as_str(), name) {
                return Some(&self.functions[i]);
            }
            i += 1;
        }
        None
    }

    //---------- Constraint ----------

    /// Adds a constraint after the others; it gets the next identifier.
    pub fn add_constraint(&mut self, constraint: Constraint) -> (r: ConstraintId)
        ensures
            r == ConstraintId(old(self).constraints@.len() as usize),
            final(self)@ == (SpecProblem {
                constraints: old(self)@.constraints.push(SpecConstraint { id: r, ..constraint@ }),
                ..old(self)@
            }),
            old(self)@.ids_wf() ==> final(self)@.ids_wf(),
    {
        let id = ConstraintId(self.constraints.len());
        let mut constraint = constraint;
        constraint.set_id(id);
        let ghost added = constraint@;
        self.constraints.push(constraint);
        proof {
            assert(self@.constraints =~= old(self)@.constraints.push(added));
            assert(self@ == (SpecProblem { constraints: old(self)@.constraints.push(added), ..old(self)@ }));
        }
        id
    }

    /// The constraint of that identifier.
    pub fn get_constraint(&self, id: ConstraintId) -> (r: Option<&Constraint>)
        ensures
            r is Some <==> id.0 < self@.constraints.len(),
            r matches Some(x) ==> x@ == self@.constraints[id.0 as int],
    {
        if id.0 < self.constraints.len() {
            Some(&self.constraints[id.0])
        } else {
            None
        }
    }

    pub fn constraints(&self) -> (r: &Vec<Constraint>)
        ensures
            r@.map_values(|x: Constraint| x@) == self@.constraints,
    {
        &self.constraints
    }

    //---------- Search ----------

    pub fn search(&self) -> (r: &Search)
        ensures
            r@ == self@.search,
    {
        &self.search
    }

    pub fn set_search(&mut self, search: Search)
        ensures
            final(self)@ == (SpecProblem { search: search@, ..old(self)@ }),
    {
        self.search = search;
    }
}

} // verus!
