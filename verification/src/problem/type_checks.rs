//! Checks on the types of the declarations of a problem: well-formed
//! intervals, and parameters of bounded types.

use crate::error::Error;
use crate::error::SpecError;
use crate::error::result_view;
use crate::parser::position::copy_pos;
use crate::problem::attribute::Attribute;
use crate::problem::attribute::SpecAttribute;
use crate::problem::attribute::attrs_view;
use crate::problem::class::Class;
use crate::problem::class::SpecClass;
use crate::problem::expression::check_type::then_check;
use crate::problem::expression::to_lang::param_lang;
use crate::problem::function::Function;
use crate::problem::function::SpecFunction;
use crate::problem::ids::Id;
use crate::problem::method::Method;
use crate::problem::method::SpecMethod;
use crate::problem::method::meths_view;
use crate::problem::parameter::Parameter;
use crate::problem::parameter::SpecParameter;
use crate::problem::parameter::params_view;
use crate::problem::problem::Problem;
use crate::problem::problem::SpecProblem;
use crate::problem::problem::classes_view;
use crate::problem::problem::functions_view;
use crate::problem::problem::structures_view;
use crate::problem::problem::variables_view;
use crate::problem::relations::spec_check_interval;
use crate::problem::relations::type_valid;
use crate::problem::results::check_all;
use crate::problem::results::lemma_check_all_err;
use crate::problem::structure::SpecStructure;
use crate::problem::structure::Structure;
use crate::problem::valid::params_valid;
use crate::problem::variable::SpecVariable;
use crate::problem::variable::Variable;
use vstd::prelude::*;

verus! {

//---------- Interval ----------

pub open spec fn param_interval(p: SpecProblem, q: SpecParameter) -> Result<(), SpecError> {
    spec_check_interval(p, q.typ, q.position)
}

pub open spec fn param_interval_fn(p: SpecProblem) -> spec_fn(SpecParameter) -> Result<(), SpecError> {
    |q: SpecParameter| param_interval(p, q)
}

pub open spec fn attr_interval<T: Id>(p: SpecProblem, a: SpecAttribute<T>) -> Result<(), SpecError> {
    spec_check_interval(p, a.typ, a.position)
}

pub open spec fn attr_interval_fn<T: Id>(p: SpecProblem) -> spec_fn(SpecAttribute<T>) -> Result<(), SpecError> {
    |a: SpecAttribute<T>| attr_interval(p, a)
}

/// The type of the method, then of its parameters, are well-formed.
pub open spec fn meth_interval<T: Id>(p: SpecProblem, m: SpecMethod<T>) -> Result<(), SpecError> {
    then_check(
        spec_check_interval(p, m.typ, m.position),
        check_all(m.parameters, param_interval_fn(p), m.parameters.len()),
    )
}

pub open spec fn meth_interval_fn<T: Id>(p: SpecProblem) -> spec_fn(SpecMethod<T>) -> Result<(), SpecError> {
    |m: SpecMethod<T>| meth_interval(p, m)
}

/// The type of the function, then of its parameters, are well-formed.
pub open spec fn func_interval(p: SpecProblem, f: SpecFunction) -> Result<(), SpecError> {
    then_check(
        spec_check_interval(p, f.typ, f.position),
        check_all(f.parameters, param_interval_fn(p), f.parameters.len()),
    )
}

pub open spec fn func_interval_fn(p: SpecProblem) -> spec_fn(SpecFunction) -> Result<(), SpecError> {
    |f: SpecFunction| func_interval(p, f)
}

pub open spec fn var_interval(p: SpecProblem, v: SpecVariable) -> Result<(), SpecError> {
    spec_check_interval(p, v.typ, v.position)
}

pub open spec fn var_interval_fn(p: SpecProblem) -> spec_fn(SpecVariable) -> Result<(), SpecError> {
    |v: SpecVariable| var_interval(p, v)
}

/// The types of the attributes, then of the methods, of the structure are
/// well-formed.
pub open spec fn struct_interval(p: SpecProblem, s: SpecStructure) -> Result<(), SpecError> {
    then_check(
        spec_check_interval(p, s.typ, s.position),
        then_check(
            check_all(s.attributes, attr_interval_fn(p), s.attributes.len()),
            check_all(s.methods, meth_interval_fn(p), s.methods.len()),
        ),
    )
}

pub open spec fn struct_interval_fn(p: SpecProblem) -> spec_fn(SpecStructure) -> Result<(), SpecError> {
    |s: SpecStructure| struct_interval(p, s)
}

/// The types of the attributes, then of the methods, of the class are
/// well-formed.
pub open spec fn class_interval(p: SpecProblem, c: SpecClass) -> Result<(), SpecError> {
    then_check(
        spec_check_interval(p, c.typ, c.position),
        then_check(
            check_all(c.attributes, attr_interval_fn(p), c.attributes.len()),
            check_all(c.methods, meth_interval_fn(p), c.methods.len()),
        ),
    )
}

pub open spec fn class_interval_fn(p: SpecProblem) -> spec_fn(SpecClass) -> Result<(), SpecError> {
    |c: SpecClass| class_interval(p, c)
}

/// Every interval of the structures, classes, variables and functions has
/// its minimum below its maximum; the first that does not is reported.
pub open spec fn spec_problem_interval(p: SpecProblem) -> Result<(), SpecError> {
    then_check(
        check_all(p.structures, struct_interval_fn(p), p.structures.len()),
        then_check(
            check_all(p.classes, class_interval_fn(p), p.classes.len()),
            then_check(
                check_all(p.variables, var_interval_fn(p), p.variables.len()),
                check_all(p.functions, func_interval_fn(p), p.functions.len()),
            ),
        ),
    )
}

//---------- Bounded ----------

/// The parameter is of a bounded type.
pub open spec fn param_bounded(p: SpecProblem, q: SpecParameter) -> Result<(), SpecError> {
    if q.typ.is_bounded() {
        Ok(())
    } else {
        Err(SpecError::Bounded { name: param_lang(p, q), position: q.position })
    }
}

pub open spec fn param_bounded_fn(p: SpecProblem) -> spec_fn(SpecParameter) -> Result<(), SpecError> {
    |q: SpecParameter| param_bounded(p, q)
}

pub open spec fn meth_bounded<T: Id>(p: SpecProblem, m: SpecMethod<T>) -> Result<(), SpecError> {
    check_all(m.parameters, param_bounded_fn(p), m.parameters.len())
}

pub open spec fn meth_bounded_fn<T: Id>(p: SpecProblem) -> spec_fn(SpecMethod<T>) -> Result<(), SpecError> {
    |m: SpecMethod<T>| meth_bounded(p, m)
}

pub open spec fn func_bounded(p: SpecProblem, f: SpecFunction) -> Result<(), SpecError> {
    check_all(f.parameters, param_bounded_fn(p), f.parameters.len())
}

pub open spec fn func_bounded_fn(p: SpecProblem) -> spec_fn(SpecFunction) -> Result<(), SpecError> {
    |f: SpecFunction| func_bounded(p, f)
}

pub open spec fn struct_bounded(p: SpecProblem, s: SpecStructure) -> Result<(), SpecError> {
    check_all(s.methods, meth_bounded_fn(p), s.methods.len())
}

pub open spec fn struct_bounded_fn(p: SpecProblem) -> spec_fn(SpecStructure) -> Result<(), SpecError> {
    |s: SpecStructure| struct_bounded(p, s)
}

pub open spec fn class_bounded(p: SpecProblem, c: SpecClass) -> Result<(), SpecError> {
    check_all(c.methods, meth_bounded_fn(p), c.methods.len())
}

pub open spec fn class_bounded_fn(p: SpecProblem) -> spec_fn(SpecClass) -> Result<(), SpecError> {
    |c: SpecClass| class_bounded(p, c)
}

/// Every parameter of the methods of the structures and classes, and of the
/// functions, is of a bounded type; the first that is not is reported.
pub open spec fn spec_problem_bounded(p: SpecProblem) -> Result<(), SpecError> {
    then_check(
        check_all(p.structures, struct_bounded_fn(p), p.structures.len()),
        then_check(
            check_all(p.classes, class_bounded_fn(p), p.classes.len()),
            check_all(p.functions, func_bounded_fn(p), p.functions.len()),
        ),
    )
}

//---------- Preconditions ----------

pub open spec fn meth_types_valid<T: Id>(p: SpecProblem, m: SpecMethod<T>) -> bool {
    type_valid(p, m.typ) && params_valid(p, m.parameters)
}

pub open spec fn struct_types_valid(p: SpecProblem, s: SpecStructure) -> bool {
    &&& type_valid(p, s.typ)
    &&& forall|j: int| 0 <= j < s.attributes.len() ==> type_valid(p, (#[trigger] s.attributes[j]).typ)
    &&& forall|j: int| 0 <= j < s.methods.len() ==> meth_types_valid(p, #[trigger] s.methods[j])
}

pub open spec fn class_types_valid(p: SpecProblem, c: SpecClass) -> bool {
    &&& type_valid(p, c.typ)
    &&& forall|j: int| 0 <= j < c.attributes.len() ==> type_valid(p, (#[trigger] c.attributes[j]).typ)
    &&& forall|j: int| 0 <= j < c.methods.len() ==> meth_types_valid(p, #[trigger] c.methods[j])
}

/// The types of the declarations of a well-formed problem are valid, in the
/// form the checks ask for.
pub proof fn lemma_decl_types_valid(p: SpecProblem)
    requires
        p.wf(),
    ensures
        forall|i: int| 0 <= i < p.structures.len() ==> struct_types_valid(p, #[trigger] p.structures[i]),
        forall|i: int| 0 <= i < p.classes.len() ==> class_types_valid(p, #[trigger] p.classes[i]),
        forall|i: int| 0 <= i < p.variables.len() ==> type_valid(p, (#[trigger] p.variables[i]).typ),
        forall|i: int| 0 <= i < p.functions.len() ==> meth_types_valid_f(p, #[trigger] p.functions[i]),
{
    assert forall|i: int| 0 <= i < p.structures.len() implies struct_types_valid(p, #[trigger] p.structures[i]) by {
        let s = p.structures[i];
        assert forall|j: int| 0 <= j < s.attributes.len() implies type_valid(p, (#[trigger] s.attributes[j]).typ) by {
            assert(type_valid(p, p.structures[i].attributes[j].typ));
        }
        assert forall|j: int| 0 <= j < s.methods.len() implies meth_types_valid(p, #[trigger] s.methods[j]) by {
            assert(type_valid(p, p.structures[i].methods[j].typ));
        }
    }
    assert forall|i: int| 0 <= i < p.classes.len() implies class_types_valid(p, #[trigger] p.classes[i]) by {
        let c = p.classes[i];
        assert forall|j: int| 0 <= j < c.attributes.len() implies type_valid(p, (#[trigger] c.attributes[j]).typ) by {
            assert(type_valid(p, p.classes[i].attributes[j].typ));
        }
        assert forall|j: int| 0 <= j < c.methods.len() implies meth_types_valid(p, #[trigger] c.methods[j]) by {
            assert(type_valid(p, p.classes[i].methods[j].typ));
        }
    }
    assert forall|i: int| 0 <= i < p.functions.len() implies meth_types_valid_f(p, #[trigger] p.functions[i]) by {
        assert(type_valid(p, p.functions[i].typ));
    }
}

pub open spec fn meth_types_valid_f(p: SpecProblem, f: SpecFunction) -> bool {
    type_valid(p, f.typ) && params_valid(p, f.parameters)
}

//---------- Exec ----------

impl Parameter {
    /// The type of the parameter is well-formed.
    pub fn check_interval(&self, problem: &Problem) -> (r: Result<(), Error>)
        requires
            type_valid(problem@, self@.typ),
        ensures
            result_view(r) == param_interval(problem@, self@),
    {
        self.typ.check_interval(problem, &self.position)
    }

    /// The parameter is of a bounded type.
    pub fn check_bounded(&self, problem: &Problem) -> (r: Result<(), Error>)
        requires
            type_valid(problem@, self@.typ),
        ensures
            result_view(r) == param_bounded(problem@, self@),
    {
        if self.typ.is_bounded() {
            Ok(())
        } else {
            Err(Error::Bounded { name: self.to_lang(problem), position: copy_pos(&self.position) })
        }
    }
}

/// Checks the types of the parameters, in order.
pub fn check_params_interval(problem: &Problem, v: &Vec<Parameter>) -> (r: Result<(), Error>)
    requires
        forall|i: int| 0 <= i < v.len() ==> type_valid(problem@, (#[trigger] params_view(v@)[i]).typ),
    ensures
        result_view(r) == check_all(params_view(v@), param_interval_fn(problem@), v.len() as nat),
{
    let ghost s = params_view(v@);
    let mut i: usize = 0;
    while i < v.len()
        invariant
            i <= v.len(),
            s == params_view(v@),
            forall|k: int| 0 <= k < v.len() ==> type_valid(problem@, (#[trigger] s[k]).typ),
            check_all(s, param_interval_fn(problem@), i as nat) == Ok::<(), SpecError>(()),
        decreases v.len() - i,
    {
        proof {
            assert(s[i as int] == v@[i as int]@);
        }
        match v[i].check_interval(problem) {
            Ok(_) => {},
            Err(e) => {
                proof {
                    lemma_check_all_err(s, param_interval_fn(problem@), (i + 1) as nat, v.len() as nat);
                }
                return Err(e);
            },
        }
        i += 1;
    }
    Ok(())
}

/// Checks that the parameters are of bounded types, in order.
pub fn check_params_bounded(problem: &Problem, v: &Vec<Parameter>) -> (r: Result<(), Error>)
    requires
        forall|i: int| 0 <= i < v.len() ==> type_valid(problem@, (#[trigger] params_view(v@)[i]).typ),
    ensures
        result_view(r) == check_all(params_view(v@), param_bounded_fn(problem@), v.len() as nat),
{
    let ghost s = params_view(v@);
    let mut i: usize = 0;
    while i < v.len()
        invariant
            i <= v.len(),
            s == params_view(v@),
            forall|k: int| 0 <= k < v.len() ==> type_valid(problem@, (#[trigger] s[k]).typ),
            check_all(s, param_bounded_fn(problem@), i as nat) == Ok::<(), SpecError>(()),
        decreases v.len() - i,
    {
        proof {
            assert(s[i as int] == v@[i as int]@);
        }
        match v[i].check_bounded(problem) {
            Ok(_) => {},
            Err(e) => {
                proof {
                    lemma_check_all_err(s, param_bounded_fn(problem@), (i + 1) as nat, v.len() as nat);
                }
                return Err(e);
            },
        }
        i += 1;
    }
    Ok(())
}

impl<T: Id> Attribute<T> {
    /// The type of the attribute is well-formed.
    pub fn check_interval(&self, problem: &Problem) -> (r: Result<(), Error>)
        requires
            type_valid(problem@, self@.typ),
        ensures
            result_view(r) == attr_interval(problem@, self@),
    {
        self.typ.check_interval(problem, &self.position)
    }
}

impl<T: Id> Method<T> {
    /// The type of the method, then those of its parameters, are
    /// well-formed.
    pub fn check_interval(&self, problem: &Problem) -> (r: Result<(), Error>)
        requires
            meth_types_valid(problem@, self@),
        ensures
            result_view(r) == meth_interval(problem@, self@),
    {
        self.typ.check_interval(problem, &self.position)?;
        check_params_interval(problem, &self.parameters)
    }

    /// The parameters of the method are of bounded types.
    pub fn check_bounded(&self, problem: &Problem) -> (r: Result<(), Error>)
        requires
            meth_types_valid(problem@, self@),
        ensures
            result_view(r) == meth_bounded(problem@, self@),
    {
        check_params_bounded(problem, &self.parameters)
    }
}

impl Function {
    /// The type of the function, then those of its parameters, are
    /// well-formed.
    pub fn check_interval(&self, problem: &Problem) -> (r: Result<(), Error>)
        requires
            meth_types_valid_f(problem@, self@),
        ensures
            result_view(r) == func_interval(problem@, self@),
    {
        self.typ.check_interval(problem, &self.position)?;
        check_params_interval(problem, &self.parameters)
    }

    /// The parameters of the function are of bounded types.
    pub fn check_bounded(&self, problem: &Problem) -> (r: Result<(), Error>)
        requires
            meth_types_valid_f(problem@, self@),
        ensures
            result_view(r) == func_bounded(problem@, self@),
    {
        check_params_bounded(problem, &self.parameters)
    }
}

impl Variable {
    /// The type of the variable is well-formed.
    pub fn check_interval(&self, problem: &Problem) -> (r: Result<(), Error>)
        requires
            type_valid(problem@, self@.typ),
        ensures
            result_view(r) == var_interval(problem@, self@),
    {
        self.typ.check_interval(problem, &self.position)
    }
}

/// Checks the types of the attributes, in order.
pub fn check_attrs_interval<T: Id>(problem: &Problem, v: &Vec<Attribute<T>>) -> (r: Result<(), Error>)
    requires
        forall|i: int| 0 <= i < v.len() ==> type_valid(problem@, (#[trigger] attrs_view(v@)[i]).typ),
    ensures
        result_view(r) == check_all(attrs_view(v@), attr_interval_fn(problem@), v.len() as nat),
{
    let ghost s = attrs_view(v@);
    let mut i: usize = 0;
    while i < v.len()
        invariant
            i <= v.len(),
            s == attrs_view(v@),
            forall|k: int| 0 <= k < v.len() ==> type_valid(problem@, (#[trigger] s[k]).typ),
            check_all(s, attr_interval_fn(problem@), i as nat) == Ok::<(), SpecError>(()),
        decreases v.len() - i,
    {
        proof {
            assert(s[i as int] == v@[i as int]@);
        }
        match v[i].check_interval(problem) {
            Ok(_) => {},
            Err(e) => {
                proof {
                    lemma_check_all_err(s, attr_interval_fn(problem@), (i + 1) as nat, v.len() as nat);
                }
                return Err(e);
            },
        }
        i += 1;
    }
    Ok(())
}

/// Checks the types of the methods, in order.
pub fn check_meths_interval<T: Id>(problem: &Problem, v: &Vec<Method<T>>) -> (r: Result<(), Error>)
    requires
        forall|i: int| 0 <= i < v.len() ==> meth_types_valid(problem@, (#[trigger] meths_view(v@)[i])),
    ensures
        result_view(r) == check_all(meths_view(v@), meth_interval_fn(problem@), v.len() as nat),
{
    let ghost s = meths_view(v@);
    let mut i: usize = 0;
    while i < v.len()
        invariant
            i <= v.len(),
            s == meths_view(v@),
            forall|k: int| 0 <= k < v.len() ==> meth_types_valid(problem@, (#[trigger] s[k])),
            check_all(s, meth_interval_fn(problem@), i as nat) == Ok::<(), SpecError>(()),
        decreases v.len() - i,
    {
        proof {
            assert(s[i as int] == v@[i as int]@);
        }
        match v[i].check_interval(problem) {
            Ok(_) => {},
            Err(e) => {
                proof {
                    lemma_check_all_err(s, meth_interval_fn(problem@), (i + 1) as nat, v.len() as nat);
                }
                return Err(e);
            },
        }
        i += 1;
    }
    Ok(())
}

/// Checks that the parameters of the methods are of bounded types, in order.
pub fn check_meths_bounded<T: Id>(problem: &Problem, v: &Vec<Method<T>>) -> (r: Result<(), Error>)
    requires
        forall|i: int| 0 <= i < v.len() ==> meth_types_valid(problem@, (#[trigger] meths_view(v@)[i])),
    ensures
        result_view(r) == check_all(meths_view(v@), meth_bounded_fn(problem@), v.len() as nat),
{
    let ghost s = meths_view(v@);
    let mut i: usize = 0;
    while i < v.len()
        invariant
            i <= v.len(),
            s == meths_view(v@),
            forall|k: int| 0 <= k < v.len() ==> meth_types_valid(problem@, (#[trigger] s[k])),
            check_all(s, meth_bounded_fn(problem@), i as nat) == Ok::<(), SpecError>(()),
        decreases v.len() - i,
    {
        proof {
            assert(s[i as int] == v@[i as int]@);
        }
        match v[i].check_bounded(problem) {
            Ok(_) => {},
            Err(e) => {
                proof {
                    lemma_check_all_err(s, meth_bounded_fn(problem@), (i + 1) as nat, v.len() as nat);
                }
                return Err(e);
            },
        }
        i += 1;
    }
    Ok(())
}

impl Structure {
    /// The types of the attributes, then of the methods, of the structure
    /// are well-formed.
    pub fn check_interval(&self, problem: &Problem) -> (r: Result<(), Error>)
        requires
            struct_types_valid(problem@, self@),
        ensures
            result_view(r) == struct_interval(problem@, self@),
    {
        self.typ.check_interval(problem, &self.position)?;
        check_attrs_interval(problem, &self.attributes)?;
        check_meths_interval(problem, &self.methods)
    }

    /// The parameters of the methods of the structure are of bounded types.
    pub fn check_bounded(&self, problem: &Problem) -> (r: Result<(), Error>)
        requires
            struct_types_valid(problem@, self@),
        ensures
            result_view(r) == struct_bounded(problem@, self@),
    {
        check_meths_bounded(problem, &self.methods)
    }
}

impl Class {
    /// The types of the attributes, then of the methods, of the class are
    /// well-formed.
    pub fn check_interval(&self, problem: &Problem) -> (r: Result<(), Error>)
        requires
            class_types_valid(problem@, self@),
        ensures
            result_view(r) == class_interval(problem@, self@),
    {
        self.typ.check_interval(problem, &self.position)?;
        check_attrs_interval(problem, &self.attributes)?;
        check_meths_interval(problem, &self.methods)
    }

    /// The parameters of the methods of the class are of bounded types.
    pub fn check_bounded(&self, problem: &Problem) -> (r: Result<(), Error>)
        requires
            class_types_valid(problem@, self@),
        ensures
            result_view(r) == class_bounded(problem@, self@),
    {
        check_meths_bounded(problem, &self.methods)
    }
}

/// Checks the types of the structures, in order.
pub fn check_structures_interval(problem: &Problem, v: &Vec<Structure>) -> (r: Result<(), Error>)
    requires
        forall|i: int| 0 <= i < v.len() ==> struct_types_valid(problem@, (#[trigger] structures_view(v@)[i])),
    ensures
        result_view(r) == check_all(structures_view(v@), struct_interval_fn(problem@), v.len() as nat),
{
    let ghost s = structures_view(v@);
    let mut i: usize = 0;
    while i < v.len()
        invariant
            i <= v.len(),
            s == structures_view(v@),
            forall|k: int| 0 <= k < v.len() ==> struct_types_valid(problem@, (#[trigger] s[k])),
            check_all(s, struct_interval_fn(problem@), i as nat) == Ok::<(), SpecError>(()),
        decreases v.len() - i,
    {
        proof {
            assert(s[i as int] == v@[i as int]@);
        }
        match v[i].check_interval(problem) {
            Ok(_) => {},
            Err(e) => {
                proof {
                    lemma_check_all_err(s, struct_interval_fn(problem@), (i + 1) as nat, v.len() as nat);
                }
                return Err(e);
            },
        }
        i += 1;
    }
    Ok(())
}

/// Checks the types of the classes, in order.
pub fn check_classes_interval(problem: &Problem, v: &Vec<Class>) -> (r: Result<(), Error>)
    requires
        forall|i: int| 0 <= i < v.len() ==> class_types_valid(problem@, (#[trigger] classes_view(v@)[i])),
    ensures
        result_view(r) == check_all(classes_view(v@), class_interval_fn(problem@), v.len() as nat),
{
    let ghost s = classes_view(v@);
    let mut i: usize = 0;
    while i < v.len()
        invariant
            i <= v.len(),
            s == classes_view(v@),
            forall|k: int| 0 <= k < v.len() ==> class_types_valid(problem@, (#[trigger] s[k])),
            check_all(s, class_interval_fn(problem@), i as nat) == Ok::<(), SpecError>(()),
        decreases v.len() - i,
    {
        proof {
            assert(s[i as int] == v@[i as int]@);
        }
        match v[i].check_interval(problem) {
            Ok(_) => {},
            Err(e) => {
                proof {
                    lemma_check_all_err(s, class_interval_fn(problem@), (i + 1) as nat, v.len() as nat);
                }
                return Err(e);
            },
        }
        i += 1;
    }
    Ok(())
}

/// Checks the types of the variables, in order.
pub fn check_variables_interval(problem: &Problem, v: &Vec<Variable>) -> (r: Result<(), Error>)
    requires
        forall|i: int| 0 <= i < v.len() ==> type_valid(problem@, (#[trigger] variables_view(v@)[i]).typ),
    ensures
        result_view(r) == check_all(variables_view(v@), var_interval_fn(problem@), v.len() as nat),
{
    let ghost s = variables_view(v@);
    let mut i: usize = 0;
    while i < v.len()
        invariant
            i <= v.len(),
            s == variables_view(v@),
            forall|k: int| 0 <= k < v.len() ==> type_valid(problem@, (#[trigger] s[k]).typ),
            check_all(s, var_interval_fn(problem@), i as nat) == Ok::<(), SpecError>(()),
        decreases v.len() - i,
    {
        proof {
            assert(s[i as int] == v@[i as int]@);
        }
        match v[i].check_interval(problem) {
            Ok(_) => {},
            Err(e) => {
                proof {
                    lemma_check_all_err(s, var_interval_fn(problem@), (i + 1) as nat, v.len() as nat);
                }
                return Err(e);
            },
        }
        i += 1;
    }
    Ok(())
}

/// Checks the types of the functions, in order.
pub fn check_functions_interval(problem: &Problem, v: &Vec<Function>) -> (r: Result<(), Error>)
    requires
        forall|i: int| 0 <= i < v.len() ==> meth_types_valid_f(problem@, (#[trigger] functions_view(v@)[i])),
    ensures
        result_view(r) == check_all(functions_view(v@), func_interval_fn(problem@), v.len() as nat),
{
    let ghost s = functions_view(v@);
    let mut i: usize = 0;
    while i < v.len()
        invariant
            i <= v.len(),
            s == functions_view(v@),
            forall|k: int| 0 <= k < v.len() ==> meth_types_valid_f(problem@, (#[trigger] s[k])),
            check_all(s, func_interval_fn(problem@), i as nat) == Ok::<(), SpecError>(()),
        decreases v.len() - i,
    {
        proof {
            assert(s[i as int] == v@[i as int]@);
        }
        match v[i].check_interval(problem) {
            Ok(_) => {},
            Err(e) => {
                proof {
                    lemma_check_all_err(s, func_interval_fn(problem@), (i + 1) as nat, v.len() as nat);
                }
                return Err(e);
            },
        }
        i += 1;
    }
    Ok(())
}

/// Checks the parameters of the methods of the structures, in order.
pub fn check_structures_bounded(problem: &Problem, v: &Vec<Structure>) -> (r: Result<(), Error>)
    requires
        forall|i: int| 0 <= i < v.len() ==> struct_types_valid(problem@, (#[trigger] structures_view(v@)[i])),
    ensures
        result_view(r) == check_all(structures_view(v@), struct_bounded_fn(problem@), v.len() as nat),
{
    let ghost s = structures_view(v@);
    let mut i: usize = 0;
    while i < v.len()
        invariant
            i <= v.len(),
            s == structures_view(v@),
            forall|k: int| 0 <= k < v.len() ==> struct_types_valid(problem@, (#[trigger] s[k])),
            check_all(s, struct_bounded_fn(problem@), i as nat) == Ok::<(), SpecError>(()),
        decreases v.len() - i,
    {
        proof {
            assert(s[i as int] == v@[i as int]@);
        }
        match v[i].check_bounded(problem) {
            Ok(_) => {},
            Err(e) => {
                proof {
                    lemma_check_all_err(s, struct_bounded_fn(problem@), (i + 1) as nat, v.len() as nat);
                }
                return Err(e);
            },
        }
        i += 1;
    }
    Ok(())
}

/// Checks the parameters of the methods of the classes, in order.
pub fn check_classes_bounded(problem: &Problem, v: &Vec<Class>) -> (r: Result<(), Error>)
    requires
        forall|i: int| 0 <= i < v.len() ==> class_types_valid(problem@, (#[trigger] classes_view(v@)[i])),
    ensures
        result_view(r) == check_all(classes_view(v@), class_bounded_fn(problem@), v.len() as nat),
{
    let ghost s = classes_view(v@);
    let mut i: usize = 0;
    while i < v.len()
        invariant
            i <= v.len(),
            s == classes_view(v@),
            forall|k: int| 0 <= k < v.len() ==> class_types_valid(problem@, (#[trigger] s[k])),
            check_all(s, class_bounded_fn(problem@), i as nat) == Ok::<(), SpecError>(()),
        decreases v.len() - i,
    {
        proof {
            assert(s[i as int] == v@[i as int]@);
        }
        match v[i].check_bounded(problem) {
            Ok(_) => {},
            Err(e) => {
                proof {
                    lemma_check_all_err(s, class_bounded_fn(problem@), (i + 1) as nat, v.len() as nat);
                }
                return Err(e);
            },
        }
        i += 1;
    }
    Ok(())
}

/// Checks the parameters of the functions, in order.
pub fn check_functions_bounded(problem: &Problem, v: &Vec<Function>) -> (r: Result<(), Error>)
    requires
        forall|i: int| 0 <= i < v.len() ==> meth_types_valid_f(problem@, (#[trigger] functions_view(v@)[i])),
    ensures
        result_view(r) == check_all(functions_view(v@), func_bounded_fn(problem@), v.len() as nat),
{
    let ghost s = functions_view(v@);
    let mut i: usize = 0;
    while i < v.len()
        invariant
            i <= v.len(),
            s == functions_view(v@),
            forall|k: int| 0 <= k < v.len() ==> meth_types_valid_f(problem@, (#[trigger] s[k])),
            check_all(s, func_bounded_fn(problem@), i as nat) == Ok::<(), SpecError>(()),
        decreases v.len() - i,
    {
        proof {
            assert(s[i as int] == v@[i as int]@);
        }
        match v[i].check_bounded(problem) {
            Ok(_) => {},
            Err(e) => {
                proof {
                    lemma_check_all_err(s, func_bounded_fn(problem@), (i + 1) as nat, v.len() as nat);
                }
                return Err(e);
            },
        }
        i += 1;
    }
    Ok(())
}

impl Problem {
    /// Every interval of the structures, classes, variables and functions has
    /// its minimum below its maximum; the first that does not is reported.
    pub fn check_interval(&self) -> (r: Result<(), Error>)
        requires
            self@.wf(),
        ensures
            result_view(r) == spec_problem_interval(self@),
    {
        proof {
            lemma_decl_types_valid(self@);
        }
        check_structures_interval(self, &self.structures)?;
        check_classes_interval(self, &self.classes)?;
        check_variables_interval(self, &self.variables)?;
        check_functions_interval(self, &self.functions)
    }

    /// Every parameter of the methods of the structures and classes, and of
    /// the functions, is of a bounded type; the first that is not is
    /// reported.
    pub fn check_bounded(&self) -> (r: Result<(), Error>)
        requires
            self@.wf(),
        ensures
            result_view(r) == spec_problem_bounded(self@),
    {
        proof {
            lemma_decl_types_valid(self@);
        }
        check_structures_bounded(self, &self.structures)?;
        check_classes_bounded(self, &self.classes)?;
        check_functions_bounded(self, &self.functions)
    }
}

} // verus!
