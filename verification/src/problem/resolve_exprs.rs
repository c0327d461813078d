//! What resolving the names of the expressions of a problem gives.

use crate::error::SpecError;
use crate::problem::attribute::SpecAttribute;
use crate::problem::class::SpecClass;
use crate::problem::constraint::SpecConstraint;
use crate::problem::entry::SpecEntry;
use crate::problem::entry::SpecEntryType;
use crate::problem::expression::expr::SpecExpr;
use crate::problem::expression::resolve::param_entries;
use crate::problem::expression::resolve::spec_resolve;
use crate::problem::function::SpecFunction;
use crate::problem::ids::ClassId;
use crate::problem::ids::StructureId;
use crate::problem::instance::Instance;
use crate::problem::instance::SpecInstance;
use crate::problem::method::SpecMethod;
use crate::problem::problem::SpecProblem;
use crate::problem::results::map_outcomes;
use crate::problem::search::SpecSearch;
use crate::problem::structure::SpecStructure;
use crate::problem::valid::expr_valid;
use crate::problem::variable::SpecVariable;
use crate::problem::variable::Variable;
use vstd::prelude::*;

verus! {

/// `self` in an attribute or a method of structure `id`.
pub open spec fn struct_self_entry(id: StructureId) -> SpecEntry {
    SpecEntry { name: "self"@, typ: SpecEntryType::StrucSelf(id) }
}

/// `self` in an attribute or a method of class `id`.
pub open spec fn class_self_entry(id: ClassId) -> SpecEntry {
    SpecEntry { name: "self"@, typ: SpecEntryType::ClassSelf(id) }
}

/// An optional expression with its names resolved.
pub open spec fn opt_resolve(p: SpecProblem, e: Option<SpecExpr>, en: Seq<SpecEntry>) -> Option<
    Result<Option<SpecExpr>, SpecError>,
> {
    match e {
        Some(x) => match spec_resolve(p, x, en) {
            Some(Ok(y)) => Some(Ok(Some(y))),
            Some(Err(er)) => Some(Err(er)),
            None => None,
        },
        None => Some(Ok(None)),
    }
}

/// The entries of an attribute of a structure: `self`.
pub open spec fn struct_attr_entries(a: SpecAttribute<StructureId>) -> Seq<SpecEntry> {
    seq![struct_self_entry(a.id.0)]
}

/// The entries of an attribute of a class: `self`.
pub open spec fn class_attr_entries(a: SpecAttribute<ClassId>) -> Seq<SpecEntry> {
    seq![class_self_entry(a.id.0)]
}

/// The entries of a method of a structure: its parameters, then `self`.
pub open spec fn struct_meth_entries(m: SpecMethod<StructureId>) -> Seq<SpecEntry> {
    param_entries(m.parameters).push(struct_self_entry(m.id.0))
}

/// The entries of a method of a class: its parameters, then `self`.
pub open spec fn class_meth_entries(m: SpecMethod<ClassId>) -> Seq<SpecEntry> {
    param_entries(m.parameters).push(class_self_entry(m.id.0))
}

pub open spec fn struct_attr_re(p: SpecProblem, a: SpecAttribute<StructureId>, en: Seq<SpecEntry>) -> Option<
    Result<SpecAttribute<StructureId>, SpecError>,
> {
    match opt_resolve(p, a.expr, en + struct_attr_entries(a)) {
        Some(Ok(e)) => Some(Ok(SpecAttribute { expr: e, ..a })),
        Some(Err(er)) => Some(Err(er)),
        None => None,
    }
}

pub open spec fn struct_attr_re_fn(p: SpecProblem, en: Seq<SpecEntry>) -> spec_fn(SpecAttribute<StructureId>) -> Option<
    Result<SpecAttribute<StructureId>, SpecError>,
> {
    |a: SpecAttribute<StructureId>| struct_attr_re(p, a, en)
}

pub open spec fn class_attr_re(p: SpecProblem, a: SpecAttribute<ClassId>, en: Seq<SpecEntry>) -> Option<
    Result<SpecAttribute<ClassId>, SpecError>,
> {
    match opt_resolve(p, a.expr, en + class_attr_entries(a)) {
        Some(Ok(e)) => Some(Ok(SpecAttribute { expr: e, ..a })),
        Some(Err(er)) => Some(Err(er)),
        None => None,
    }
}

pub open spec fn class_attr_re_fn(p: SpecProblem, en: Seq<SpecEntry>) -> spec_fn(SpecAttribute<ClassId>) -> Option<
    Result<SpecAttribute<ClassId>, SpecError>,
> {
    |a: SpecAttribute<ClassId>| class_attr_re(p, a, en)
}

pub open spec fn struct_meth_re(p: SpecProblem, m: SpecMethod<StructureId>, en: Seq<SpecEntry>) -> Option<
    Result<SpecMethod<StructureId>, SpecError>,
> {
    match opt_resolve(p, m.expr, en + struct_meth_entries(m)) {
        Some(Ok(e)) => Some(Ok(SpecMethod { expr: e, ..m })),
        Some(Err(er)) => Some(Err(er)),
        None => None,
    }
}

pub open spec fn struct_meth_re_fn(p: SpecProblem, en: Seq<SpecEntry>) -> spec_fn(SpecMethod<StructureId>) -> Option<
    Result<SpecMethod<StructureId>, SpecError>,
> {
    |m: SpecMethod<StructureId>| struct_meth_re(p, m, en)
}

pub open spec fn class_meth_re(p: SpecProblem, m: SpecMethod<ClassId>, en: Seq<SpecEntry>) -> Option<
    Result<SpecMethod<ClassId>, SpecError>,
> {
    match opt_resolve(p, m.expr, en + class_meth_entries(m)) {
        Some(Ok(e)) => Some(Ok(SpecMethod { expr: e, ..m })),
        Some(Err(er)) => Some(Err(er)),
        None => None,
    }
}

pub open spec fn class_meth_re_fn(p: SpecProblem, en: Seq<SpecEntry>) -> spec_fn(SpecMethod<ClassId>) -> Option<
    Result<SpecMethod<ClassId>, SpecError>,
> {
    |m: SpecMethod<ClassId>| class_meth_re(p, m, en)
}

/// A structure with the names of the expressions of its attributes, then
/// of its methods, resolved.
pub open spec fn struct_re(p: SpecProblem, s: SpecStructure, en: Seq<SpecEntry>) -> Option<
    Result<SpecStructure, SpecError>,
> {
    match map_outcomes(s.attributes, struct_attr_re_fn(p, en), s.attributes.len()) {
        Some(Ok(a)) => match map_outcomes(s.methods, struct_meth_re_fn(p, en), s.methods.len()) {
            Some(Ok(m)) => Some(Ok(SpecStructure { attributes: a, methods: m, ..s })),
            Some(Err(er)) => Some(Err(er)),
            None => None,
        },
        Some(Err(er)) => Some(Err(er)),
        None => None,
    }
}

pub open spec fn struct_re_fn(p: SpecProblem, en: Seq<SpecEntry>) -> spec_fn(SpecStructure) -> Option<
    Result<SpecStructure, SpecError>,
> {
    |s: SpecStructure| struct_re(p, s, en)
}

/// A class with the names of the expressions of its attributes, then of its
/// methods, resolved.
pub open spec fn class_re(p: SpecProblem, c: SpecClass, en: Seq<SpecEntry>) -> Option<
    Result<SpecClass, SpecError>,
> {
    match map_outcomes(c.attributes, class_attr_re_fn(p, en), c.attributes.len()) {
        Some(Ok(a)) => match map_outcomes(c.methods, class_meth_re_fn(p, en), c.methods.len()) {
            Some(Ok(m)) => Some(Ok(SpecClass { attributes: a, methods: m, ..c })),
            Some(Err(er)) => Some(Err(er)),
            None => None,
        },
        Some(Err(er)) => Some(Err(er)),
        None => None,
    }
}

pub open spec fn class_re_fn(p: SpecProblem, en: Seq<SpecEntry>) -> spec_fn(SpecClass) -> Option<
    Result<SpecClass, SpecError>,
> {
    |c: SpecClass| class_re(p, c, en)
}

/// A variable with the names of its expression resolved.
pub open spec fn var_re(p: SpecProblem, v: SpecVariable, en: Seq<SpecEntry>) -> Option<
    Result<SpecVariable, SpecError>,
> {
    match opt_resolve(p, v.expr, en) {
        Some(Ok(e)) => Some(Ok(SpecVariable { expr: e, ..v })),
        Some(Err(er)) => Some(Err(er)),
        None => None,
    }
}

pub open spec fn var_re_fn(p: SpecProblem, en: Seq<SpecEntry>) -> spec_fn(SpecVariable) -> Option<
    Result<SpecVariable, SpecError>,
> {
    |v: SpecVariable| var_re(p, v, en)
}

/// A function with the names of its expression resolved, its parameters
/// after the given entries.
pub open spec fn func_re(p: SpecProblem, f: SpecFunction, en: Seq<SpecEntry>) -> Option<
    Result<SpecFunction, SpecError>,
> {
    match opt_resolve(p, f.expr, en + param_entries(f.parameters)) {
        Some(Ok(e)) => Some(Ok(SpecFunction { expr: e, ..f })),
        Some(Err(er)) => Some(Err(er)),
        None => None,
    }
}

pub open spec fn func_re_fn(p: SpecProblem, en: Seq<SpecEntry>) -> spec_fn(SpecFunction) -> Option<
    Result<SpecFunction, SpecError>,
> {
    |f: SpecFunction| func_re(p, f, en)
}

/// A constraint with the names of its expression resolved.
pub open spec fn cons_re(p: SpecProblem, c: SpecConstraint, en: Seq<SpecEntry>) -> Option<
    Result<SpecConstraint, SpecError>,
> {
    match spec_resolve(p, c.expr, en) {
        Some(Ok(e)) => Some(Ok(SpecConstraint { expr: e, ..c })),
        Some(Err(er)) => Some(Err(er)),
        None => None,
    }
}

pub open spec fn cons_re_fn(p: SpecProblem, en: Seq<SpecEntry>) -> spec_fn(SpecConstraint) -> Option<
    Result<SpecConstraint, SpecError>,
> {
    |c: SpecConstraint| cons_re(p, c, en)
}

/// What to search for, with the names of its objective resolved.
pub open spec fn search_re(p: SpecProblem, s: SpecSearch, en: Seq<SpecEntry>) -> Option<
    Result<SpecSearch, SpecError>,
> {
    match s {
        SpecSearch::Solve => Some(Ok(SpecSearch::Solve)),
        SpecSearch::Optimize(e, b, m) => match spec_resolve(p, e, en) {
            Some(Ok(x)) => Some(Ok(SpecSearch::Optimize(x, b, m))),
            Some(Err(er)) => Some(Err(er)),
            None => None,
        },
    }
}

/// The names that the expressions of a problem may use: its instances, then
/// its variables.
pub open spec fn spec_problem_entries(p: SpecProblem) -> Seq<SpecEntry> {
    p.instances.map_values(|i: SpecInstance| SpecEntry { name: i.name, typ: SpecEntryType::Instance(i.id) })
        + p.variables.map_values(|v: SpecVariable| SpecEntry { name: v.name, typ: SpecEntryType::Variable(v.id) })
}

/// The problem with the names of its expressions resolved: those of the
/// structures, classes, variables, functions, constraints and of what to
/// search for; the first name not found; or `None` where an attribute or a
/// method is asked of a value that is neither of a structure nor of a class.
pub open spec fn spec_problem_resolve_expr(p: SpecProblem) -> Option<Result<SpecProblem, SpecError>> {
    let en = spec_problem_entries(p);
    match map_outcomes(p.structures, struct_re_fn(p, en), p.structures.len()) {
        Some(Ok(s)) => match map_outcomes(p.classes, class_re_fn(p, en), p.classes.len()) {
            Some(Ok(c)) => match map_outcomes(p.variables, var_re_fn(p, en), p.variables.len()) {
                Some(Ok(v)) => match map_outcomes(p.functions, func_re_fn(p, en), p.functions.len()) {
                    Some(Ok(f)) => match map_outcomes(
                        p.constraints,
                        cons_re_fn(p, en),
                        p.constraints.len(),
                    ) {
                        Some(Ok(k)) => match search_re(p, p.search, en) {
                            Some(Ok(sr)) => Some(
                                Ok(
                                    SpecProblem {
                                        structures: s,
                                        classes: c,
                                        variables: v,
                                        functions: f,
                                        constraints: k,
                                        search: sr,
                                        ..p
                                    },
                                ),
                            ),
                            Some(Err(er)) => Some(Err(er)),
                            None => None,
                        },
                        Some(Err(er)) => Some(Err(er)),
                        None => None,
                    },
                    Some(Err(er)) => Some(Err(er)),
                    None => None,
                },
                Some(Err(er)) => Some(Err(er)),
                None => None,
            },
            Some(Err(er)) => Some(Err(er)),
            None => None,
        },
        Some(Err(er)) => Some(Err(er)),
        None => None,
    }
}

/// An optional expression is valid.
pub open spec fn opt_valid(p: SpecProblem, e: Option<SpecExpr>) -> bool {
    match e {
        Some(x) => expr_valid(p, x),
        None => true,
    }
}

impl SpecProblem {
    /// Every expression of the problem is valid.
    pub open spec fn exprs_wf(self) -> bool {
        &&& forall|i: int, j: int|
            0 <= i < self.structures.len() && 0 <= j < self.structures[i].attributes.len()
                ==> opt_valid(self, (#[trigger] self.structures[i].attributes[j]).expr)
        &&& forall|i: int, j: int|
            0 <= i < self.structures.len() && 0 <= j < self.structures[i].methods.len()
                ==> opt_valid(self, (#[trigger] self.structures[i].methods[j]).expr)
        &&& forall|i: int, j: int|
            0 <= i < self.classes.len() && 0 <= j < self.classes[i].attributes.len() ==> opt_valid(
                self,
                (#[trigger] self.classes[i].attributes[j]).expr,
            )
        &&& forall|i: int, j: int|
            0 <= i < self.classes.len() && 0 <= j < self.classes[i].methods.len() ==> opt_valid(
                self,
                (#[trigger] self.classes[i].methods[j]).expr,
            )
        &&& forall|i: int|
            0 <= i < self.variables.len() ==> opt_valid(self, (#[trigger] self.variables[i]).expr)
        &&& forall|i: int|
            0 <= i < self.functions.len() ==> opt_valid(self, (#[trigger] self.functions[i]).expr)
        &&& forall|i: int|
            0 <= i < self.constraints.len() ==> expr_valid(self, (#[trigger] self.constraints[i]).expr)
        &&& self.search matches SpecSearch::Optimize(e, _, _) ==> expr_valid(self, e)
    }
}

} // verus!
