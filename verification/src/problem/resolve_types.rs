//! Looking up the type names of a problem: the types of its declarations,
//! then the parameters of the quantifiers of its expressions.

use crate::error::SpecError;
use crate::problem::attribute::SpecAttribute;
use crate::problem::class::Class;
use crate::problem::class::SpecClass;
use crate::problem::constraint::SpecConstraint;
use crate::problem::expression::every::NodeCheck;
use crate::problem::expression::every::every;
use crate::problem::expression::expr::SpecExpr;
use crate::problem::expression::resolve_type::params_resolve;
use crate::problem::expression::resolve_type::spec_resolve_types;
use crate::problem::function::SpecFunction;
use crate::problem::ids::Id;
use crate::problem::instance::SpecInstance;
use crate::problem::method::SpecMethod;
use crate::problem::parameter::SpecParameter;
use crate::problem::problem::SpecProblem;
use crate::problem::relations::spec_resolve_type;
use crate::problem::results::map_results;
use crate::problem::search::SpecSearch;
use crate::problem::structure::SpecStructure;
use crate::problem::structure::Structure;
use crate::problem::type_entry::SpecTypeEntry;
use crate::problem::type_entry::TypeEntryType;
use crate::problem::typing::SpecType;
use crate::problem::variable::SpecVariable;
use vstd::prelude::*;

verus! {

//---------- What is resolved ----------

/// An optional type with its name looked up.
pub open spec fn opt_type_rt(t: Option<SpecType>, en: Seq<SpecTypeEntry>) -> Result<Option<SpecType>, SpecError> {
    match t {
        Some(t) => match spec_resolve_type(t, en) {
            Ok(x) => Ok(Some(x)),
            Err(e) => Err(e),
        },
        None => Ok(None),
    }
}

/// An optional expression with its type names looked up.
pub open spec fn opt_expr_rt(e: Option<SpecExpr>, en: Seq<SpecTypeEntry>) -> Result<Option<SpecExpr>, SpecError> {
    match e {
        Some(e) => match spec_resolve_types(e, en) {
            Ok(x) => Ok(Some(x)),
            Err(er) => Err(er),
        },
        None => Ok(None),
    }
}

/// An attribute with its type looked up.
pub open spec fn attr_rt<T: Id>(a: SpecAttribute<T>, en: Seq<SpecTypeEntry>) -> Result<SpecAttribute<T>, SpecError> {
    match spec_resolve_type(a.typ, en) {
        Ok(t) => Ok(SpecAttribute { typ: t, ..a }),
        Err(e) => Err(e),
    }
}

pub open spec fn attr_rt_fn<T: Id>(en: Seq<SpecTypeEntry>) -> spec_fn(SpecAttribute<T>) -> Result<SpecAttribute<T>, SpecError> {
    |a: SpecAttribute<T>| attr_rt(a, en)
}

/// A method with its type, then the types of its parameters, looked up.
pub open spec fn meth_rt<T: Id>(m: SpecMethod<T>, en: Seq<SpecTypeEntry>) -> Result<SpecMethod<T>, SpecError> {
    match spec_resolve_type(m.typ, en) {
        Err(e) => Err(e),
        Ok(t) => match params_resolve(m.parameters, en, m.parameters.len()) {
            Err(e) => Err(e),
            Ok(ps) => Ok(SpecMethod { typ: t, parameters: ps, ..m }),
        },
    }
}

pub open spec fn meth_rt_fn<T: Id>(en: Seq<SpecTypeEntry>) -> spec_fn(SpecMethod<T>) -> Result<SpecMethod<T>, SpecError> {
    |m: SpecMethod<T>| meth_rt(m, en)
}

/// A structure with the types of its attributes, then of its methods,
/// looked up.
pub open spec fn struct_rt(s: SpecStructure, en: Seq<SpecTypeEntry>) -> Result<SpecStructure, SpecError> {
    match map_results(s.attributes, attr_rt_fn(en), s.attributes.len()) {
        Err(e) => Err(e),
        Ok(a) => match map_results(s.methods, meth_rt_fn(en), s.methods.len()) {
            Err(e) => Err(e),
            Ok(m) => Ok(SpecStructure { attributes: a, methods: m, ..s }),
        },
    }
}

pub open spec fn struct_rt_fn(en: Seq<SpecTypeEntry>) -> spec_fn(SpecStructure) -> Result<SpecStructure, SpecError> {
    |s: SpecStructure| struct_rt(s, en)
}

/// A class with the class it extends, then the types of its attributes and
/// of its methods, looked up.
pub open spec fn class_rt(c: SpecClass, en: Seq<SpecTypeEntry>) -> Result<SpecClass, SpecError> {
    match opt_type_rt(c.extends, en) {
        Err(e) => Err(e),
        Ok(x) => match map_results(c.attributes, attr_rt_fn(en), c.attributes.len()) {
            Err(e) => Err(e),
            Ok(a) => match map_results(c.methods, meth_rt_fn(en), c.methods.len()) {
                Err(e) => Err(e),
                Ok(m) => Ok(SpecClass { extends: x, attributes: a, methods: m, ..c }),
            },
        },
    }
}

pub open spec fn class_rt_fn(en: Seq<SpecTypeEntry>) -> spec_fn(SpecClass) -> Result<SpecClass, SpecError> {
    |c: SpecClass| class_rt(c, en)
}

/// An instance with its type looked up.
pub open spec fn inst_rt(i: SpecInstance, en: Seq<SpecTypeEntry>) -> Result<SpecInstance, SpecError> {
    match spec_resolve_type(i.typ, en) {
        Ok(t) => Ok(SpecInstance { typ: t, ..i }),
        Err(e) => Err(e),
    }
}

pub open spec fn inst_rt_fn(en: Seq<SpecTypeEntry>) -> spec_fn(SpecInstance) -> Result<SpecInstance, SpecError> {
    |i: SpecInstance| inst_rt(i, en)
}

/// A variable with its type looked up.
pub open spec fn var_rt(v: SpecVariable, en: Seq<SpecTypeEntry>) -> Result<SpecVariable, SpecError> {
    match spec_resolve_type(v.typ, en) {
        Ok(t) => Ok(SpecVariable { typ: t, ..v }),
        Err(e) => Err(e),
    }
}

pub open spec fn var_rt_fn(en: Seq<SpecTypeEntry>) -> spec_fn(SpecVariable) -> Result<SpecVariable, SpecError> {
    |v: SpecVariable| var_rt(v, en)
}

/// A function with its type, then the types of its parameters, looked up.
pub open spec fn func_rt(f: SpecFunction, en: Seq<SpecTypeEntry>) -> Result<SpecFunction, SpecError> {
    match spec_resolve_type(f.typ, en) {
        Err(e) => Err(e),
        Ok(t) => match params_resolve(f.parameters, en, f.parameters.len()) {
            Err(e) => Err(e),
            Ok(ps) => Ok(SpecFunction { typ: t, parameters: ps, ..f }),
        },
    }
}

pub open spec fn func_rt_fn(en: Seq<SpecTypeEntry>) -> spec_fn(SpecFunction) -> Result<SpecFunction, SpecError> {
    |f: SpecFunction| func_rt(f, en)
}

/// An attribute with the type names of its expression looked up.
pub open spec fn attr_rte<T: Id>(a: SpecAttribute<T>, en: Seq<SpecTypeEntry>) -> Result<SpecAttribute<T>, SpecError> {
    match opt_expr_rt(a.expr, en) {
        Ok(e) => Ok(SpecAttribute { expr: e, ..a }),
        Err(e) => Err(e),
    }
}

pub open spec fn attr_rte_fn<T: Id>(en: Seq<SpecTypeEntry>) -> spec_fn(SpecAttribute<T>) -> Result<SpecAttribute<T>, SpecError> {
    |a: SpecAttribute<T>| attr_rte(a, en)
}

/// A method with the type names of its expression looked up.
pub open spec fn meth_rte<T: Id>(m: SpecMethod<T>, en: Seq<SpecTypeEntry>) -> Result<SpecMethod<T>, SpecError> {
    match opt_expr_rt(m.expr, en) {
        Ok(e) => Ok(SpecMethod { expr: e, ..m }),
        Err(e) => Err(e),
    }
}

pub open spec fn meth_rte_fn<T: Id>(en: Seq<SpecTypeEntry>) -> spec_fn(SpecMethod<T>) -> Result<SpecMethod<T>, SpecError> {
    |m: SpecMethod<T>| meth_rte(m, en)
}

/// A structure with the type names of the expressions of its attributes,
/// then of its methods, looked up.
pub open spec fn struct_rte(s: SpecStructure, en: Seq<SpecTypeEntry>) -> Result<SpecStructure, SpecError> {
    match map_results(s.attributes, attr_rte_fn(en), s.attributes.len()) {
        Err(e) => Err(e),
        Ok(a) => match map_results(s.methods, meth_rte_fn(en), s.methods.len()) {
            Err(e) => Err(e),
            Ok(m) => Ok(SpecStructure { attributes: a, methods: m, ..s }),
        },
    }
}

pub open spec fn struct_rte_fn(en: Seq<SpecTypeEntry>) -> spec_fn(SpecStructure) -> Result<SpecStructure, SpecError> {
    |s: SpecStructure| struct_rte(s, en)
}

/// A class with the type names of the expressions of its attributes, then
/// of its methods, looked up.
pub open spec fn class_rte(c: SpecClass, en: Seq<SpecTypeEntry>) -> Result<SpecClass, SpecError> {
    match map_results(c.attributes, attr_rte_fn(en), c.attributes.len()) {
        Err(e) => Err(e),
        Ok(a) => match map_results(c.methods, meth_rte_fn(en), c.methods.len()) {
            Err(e) => Err(e),
            Ok(m) => Ok(SpecClass { attributes: a, methods: m, ..c }),
        },
    }
}

pub open spec fn class_rte_fn(en: Seq<SpecTypeEntry>) -> spec_fn(SpecClass) -> Result<SpecClass, SpecError> {
    |c: SpecClass| class_rte(c, en)
}

/// A variable with the type names of its expression looked up.
pub open spec fn var_rte(v: SpecVariable, en: Seq<SpecTypeEntry>) -> Result<SpecVariable, SpecError> {
    match opt_expr_rt(v.expr, en) {
        Ok(e) => Ok(SpecVariable { expr: e, ..v }),
        Err(e) => Err(e),
    }
}

pub open spec fn var_rte_fn(en: Seq<SpecTypeEntry>) -> spec_fn(SpecVariable) -> Result<SpecVariable, SpecError> {
    |v: SpecVariable| var_rte(v, en)
}

/// A function with the type names of its expression looked up.
pub open spec fn func_rte(f: SpecFunction, en: Seq<SpecTypeEntry>) -> Result<SpecFunction, SpecError> {
    match opt_expr_rt(f.expr, en) {
        Ok(e) => Ok(SpecFunction { expr: e, ..f }),
        Err(e) => Err(e),
    }
}

pub open spec fn func_rte_fn(en: Seq<SpecTypeEntry>) -> spec_fn(SpecFunction) -> Result<SpecFunction, SpecError> {
    |f: SpecFunction| func_rte(f, en)
}

/// A constraint with the type names of its expression looked up.
pub open spec fn cons_rte(c: SpecConstraint, en: Seq<SpecTypeEntry>) -> Result<SpecConstraint, SpecError> {
    match spec_resolve_types(c.expr, en) {
        Ok(e) => Ok(SpecConstraint { expr: e, ..c }),
        Err(e) => Err(e),
    }
}

pub open spec fn cons_rte_fn(en: Seq<SpecTypeEntry>) -> spec_fn(SpecConstraint) -> Result<SpecConstraint, SpecError> {
    |c: SpecConstraint| cons_rte(c, en)
}

/// What to search for, with the type names of its objective looked up.
pub open spec fn search_rte(s: SpecSearch, en: Seq<SpecTypeEntry>) -> Result<SpecSearch, SpecError> {
    match s {
        SpecSearch::Solve => Ok(SpecSearch::Solve),
        SpecSearch::Optimize(e, b, m) => match spec_resolve_types(e, en) {
            Ok(x) => Ok(SpecSearch::Optimize(x, b, m)),
            Err(er) => Err(er),
        },
    }
}

/// The type names of a problem: its structures, then its classes.
pub open spec fn spec_type_entries(p: SpecProblem) -> Seq<SpecTypeEntry> {
    p.structures.map_values(|s: SpecStructure| SpecTypeEntry { name: s.name, typ: TypeEntryType::Structure(s.id) })
        + p.classes.map_values(|c: SpecClass| SpecTypeEntry { name: c.name, typ: TypeEntryType::Class(c.id) })
}

/// The problem with its type names looked up: the types of the structures,
/// classes, instances, variables and functions, then the expressions of the
/// structures, classes, variables, functions, constraints and of what to
/// search for; or the first name that is not found.
pub open spec fn spec_problem_resolve_type(p: SpecProblem) -> Result<SpecProblem, SpecError> {
    let en = spec_type_entries(p);
    match map_results(p.structures, struct_rt_fn(en), p.structures.len()) {
        Err(e) => Err(e),
        Ok(s1) => match map_results(p.classes, class_rt_fn(en), p.classes.len()) {
            Err(e) => Err(e),
            Ok(c1) => match map_results(p.instances, inst_rt_fn(en), p.instances.len()) {
                Err(e) => Err(e),
                Ok(i1) => match map_results(p.variables, var_rt_fn(en), p.variables.len()) {
                    Err(e) => Err(e),
                    Ok(v1) => match map_results(p.functions, func_rt_fn(en), p.functions.len()) {
                        Err(e) => Err(e),
                        Ok(f1) => match map_results(s1, struct_rte_fn(en), s1.len()) {
                            Err(e) => Err(e),
                            Ok(s2) => match map_results(c1, class_rte_fn(en), c1.len()) {
                                Err(e) => Err(e),
                                Ok(c2) => match map_results(v1, var_rte_fn(en), v1.len()) {
                                    Err(e) => Err(e),
                                    Ok(v2) => match map_results(f1, func_rte_fn(en), f1.len()) {
                                        Err(e) => Err(e),
                                        Ok(f2) => match map_results(
                                            p.constraints,
                                            cons_rte_fn(en),
                                            p.constraints.len(),
                                        ) {
                                            Err(e) => Err(e),
                                            Ok(k2) => match search_rte(p.search, en) {
                                                Err(e) => Err(e),
                                                Ok(sr) => Ok(
                                                    SpecProblem {
                                                        structures: s2,
                                                        instances: i1,
                                                        classes: c2,
                                                        variables: v2,
                                                        functions: f2,
                                                        constraints: k2,
                                                        search: sr,
                                                    },
                                                ),
                                            },
                                        },
                                    },
                                },
                            },
                        },
                    },
                },
            },
        },
    }
}

//---------- When it does not panic ----------

/// No `Undefined` type among the parameters.
pub open spec fn params_defined(ps: Seq<SpecParameter>) -> bool {
    forall|i: int| 0 <= i < ps.len() ==> !(#[trigger] ps[i].typ is Undefined)
}

/// No `Undefined` type in an optional expression.
pub open spec fn opt_defined(e: Option<SpecExpr>) -> bool {
    match e {
        Some(x) => every(NodeCheck::TypesDefined, x),
        None => true,
    }
}

pub open spec fn attr_defined<T: Id>(a: SpecAttribute<T>) -> bool {
    !(a.typ is Undefined) && opt_defined(a.expr)
}

pub open spec fn meth_defined<T: Id>(m: SpecMethod<T>) -> bool {
    !(m.typ is Undefined) && params_defined(m.parameters) && opt_defined(m.expr)
}

impl SpecProblem {
    /// No type of the problem is `Undefined`, the one type that names
    /// nothing and cannot be looked up.
    pub open spec fn types_defined(self) -> bool {
        &&& forall|i: int, j: int|
            0 <= i < self.structures.len() && 0 <= j < self.structures[i].attributes.len()
                ==> attr_defined(#[trigger] self.structures[i].attributes[j])
        &&& forall|i: int, j: int|
            0 <= i < self.structures.len() && 0 <= j < self.structures[i].methods.len()
                ==> meth_defined(#[trigger] self.structures[i].methods[j])
        &&& forall|i: int|
            0 <= i < self.classes.len() ==> (#[trigger] self.classes[i].extends matches Some(t)
                ==> !(t is Undefined))
        &&& forall|i: int, j: int|
            0 <= i < self.classes.len() && 0 <= j < self.classes[i].attributes.len()
                ==> attr_defined(#[trigger] self.classes[i].attributes[j])
        &&& forall|i: int, j: int|
            0 <= i < self.classes.len() && 0 <= j < self.classes[i].methods.len()
                ==> meth_defined(#[trigger] self.classes[i].methods[j])
        &&& forall|i: int|
            0 <= i < self.instances.len() ==> !(#[trigger] self.instances[i].typ is Undefined)
        &&& forall|i: int|
            0 <= i < self.variables.len() ==> !(#[trigger] self.variables[i].typ is Undefined)
                && opt_defined(self.variables[i].expr)
        &&& forall|i: int|
            0 <= i < self.functions.len() ==> !(#[trigger] self.functions[i].typ is Undefined)
                && params_defined(self.functions[i].parameters) && opt_defined(
                self.functions[i].expr,
            )
        &&& forall|i: int|
            0 <= i < self.constraints.len() ==> every(
                NodeCheck::TypesDefined,
                #[trigger] self.constraints[i].expr,
            )
        &&& self.search matches SpecSearch::Optimize(e, _, _) ==> every(NodeCheck::TypesDefined, e)
    }
}

} // verus!
