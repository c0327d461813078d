//! Looking up the type names of the declarations of a problem.

use crate::error::Error;
use crate::error::SpecError;
use crate::error::res_view;
use crate::parser::position::copy_pos;
use crate::problem::attribute::Attribute;
use crate::problem::attribute::SpecAttribute;
use crate::problem::attribute::attrs_view;
use crate::problem::class::Class;
use crate::problem::class::SpecClass;
use crate::problem::class::opt_type;
use crate::problem::constraint::Constraint;
use crate::problem::constraint::SpecConstraint;
use crate::problem::expression::every::NodeCheck;
use crate::problem::expression::every::every;
use crate::problem::expression::expr::Expr;
use crate::problem::expression::resolve_type::resolve_params;
use crate::problem::function::Function;
use crate::problem::function::SpecFunction;
use crate::problem::ids::Id;
use crate::problem::instance::Instance;
use crate::problem::instance::SpecInstance;
use crate::problem::method::Method;
use crate::problem::method::SpecMethod;
use crate::problem::method::meths_view;
use crate::problem::parameter::copy_params;
use crate::problem::problem::classes_view;
use crate::problem::problem::constraints_view;
use crate::problem::problem::functions_view;
use crate::problem::problem::instances_view;
use crate::problem::problem::structures_view;
use crate::problem::problem::variables_view;
use crate::problem::resolve_types::attr_rt;
use crate::problem::resolve_types::attr_rt_fn;
use crate::problem::resolve_types::attr_rte;
use crate::problem::resolve_types::attr_rte_fn;
use crate::problem::resolve_types::class_rt;
use crate::problem::resolve_types::class_rt_fn;
use crate::problem::resolve_types::class_rte;
use crate::problem::resolve_types::class_rte_fn;
use crate::problem::resolve_types::cons_rte;
use crate::problem::resolve_types::cons_rte_fn;
use crate::problem::resolve_types::func_rt;
use crate::problem::resolve_types::func_rt_fn;
use crate::problem::resolve_types::func_rte;
use crate::problem::resolve_types::func_rte_fn;
use crate::problem::resolve_types::inst_rt;
use crate::problem::resolve_types::inst_rt_fn;
use crate::problem::resolve_types::meth_rt;
use crate::problem::resolve_types::meth_rt_fn;
use crate::problem::resolve_types::meth_rte;
use crate::problem::resolve_types::meth_rte_fn;
use crate::problem::resolve_types::opt_defined;
use crate::problem::resolve_types::opt_expr_rt;
use crate::problem::resolve_types::params_defined;
use crate::problem::resolve_types::search_rte;
use crate::problem::resolve_types::struct_rt;
use crate::problem::resolve_types::struct_rt_fn;
use crate::problem::resolve_types::struct_rte;
use crate::problem::resolve_types::struct_rte_fn;
use crate::problem::resolve_types::var_rt;
use crate::problem::resolve_types::var_rt_fn;
use crate::problem::resolve_types::var_rte;
use crate::problem::resolve_types::var_rte_fn;
use crate::problem::results::lemma_map_results_err;
use crate::problem::results::map_results;
use crate::problem::search::Search;
use crate::problem::search::SpecSearch;
use crate::problem::structure::SpecStructure;
use crate::problem::structure::Structure;
use crate::problem::type_entry::TypeEntries;
use crate::problem::typing::Type;
use crate::problem::variable::SpecVariable;
use crate::problem::variable::Variable;
use crate::problem::variable::copy_opt_expr;
use crate::problem::variable::opt_expr;
use vstd::prelude::*;

verus! {

/// An optional expression with its type names looked up.
pub fn opt_expr_resolve_type(e: &Option<Expr>, entries: &TypeEntries) -> (r: Result<Option<Expr>, Error>)
    requires
        opt_defined(opt_expr(*e)),
    ensures
        match opt_expr_rt(opt_expr(*e), entries@) {
            Ok(x) => r matches Ok(y) && opt_expr(y) == x,
            Err(er) => r matches Err(f) && f@ == er,
        },
{
    match e {
        Some(x) => {
            let y = x.resolve_type(entries)?;
            Ok(Some(y))
        },
        None => Ok(None),
    }
}

impl<T: Id> Attribute<T> {
    /// The attribute with its type looked up.
    pub fn with_resolved_type(&self, entries: &TypeEntries) -> (r: Result<Attribute<T>, Error>)
        requires
            !(self@.typ is Undefined),
        ensures
            res_view(r) == attr_rt(self@, entries@),
    {
        let t = self.typ.resolve_type(entries)?;
        Ok(Attribute { id: self.id, name: self.name.clone(), typ: t, expr: copy_opt_expr(&self.expr), position: copy_pos(&self.position) })
    }

    /// Looks up the type of the attribute; on an error it is left as it was.
    pub fn resolve_type(&mut self, entries: &TypeEntries) -> (r: Result<(), Error>)
        requires
            !(old(self)@.typ is Undefined),
        ensures
            match attr_rt(old(self)@, entries@) {
                Ok(x) => r is Ok && final(self)@ == x,
                Err(e) => r matches Err(er) && er@ == e && final(self)@ == old(self)@,
            },
    {
        let a = self.with_resolved_type(entries)?;
        *self = a;
        Ok(())
    }

    /// The attribute with the type names of its expression looked up.
    pub fn with_resolved_type_expr(&self, entries: &TypeEntries) -> (r: Result<Attribute<T>, Error>)
        requires
            opt_defined(self@.expr),
        ensures
            res_view(r) == attr_rte(self@, entries@),
    {
        let e = opt_expr_resolve_type(&self.expr, entries)?;
        Ok(Attribute { id: self.id, name: self.name.clone(), typ: self.typ.copy(), expr: e, position: copy_pos(&self.position) })
    }

    /// Looks up the type names of the expression of the attribute; on an
    /// error it is left as it was.
    pub fn resolve_type_expr(&mut self, entries: &TypeEntries) -> (r: Result<(), Error>)
        requires
            opt_defined(old(self)@.expr),
        ensures
            match attr_rte(old(self)@, entries@) {
                Ok(x) => r is Ok && final(self)@ == x,
                Err(e) => r matches Err(er) && er@ == e && final(self)@ == old(self)@,
            },
    {
        let a = self.with_resolved_type_expr(entries)?;
        *self = a;
        Ok(())
    }
}

impl<T: Id> Method<T> {
    /// The method with its type, then the types of its parameters, looked up.
    pub fn with_resolved_type(&self, entries: &TypeEntries) -> (r: Result<Method<T>, Error>)
        requires
            !(self@.typ is Undefined),
            params_defined(self@.parameters),
        ensures
            res_view(r) == meth_rt(self@, entries@),
    {
        let t = self.typ.resolve_type(entries)?;
        let ps = resolve_params(&self.parameters, entries)?;
        Ok(Method { id: self.id, name: self.name.clone(), parameters: ps, typ: t, expr: copy_opt_expr(&self.expr), position: copy_pos(&self.position) })
    }

    /// Looks up the types of the method; on an error it is left as it was.
    pub fn resolve_type(&mut self, entries: &TypeEntries) -> (r: Result<(), Error>)
        requires
            !(old(self)@.typ is Undefined),
            params_defined(old(self)@.parameters),
        ensures
            match meth_rt(old(self)@, entries@) {
                Ok(x) => r is Ok && final(self)@ == x,
                Err(e) => r matches Err(er) && er@ == e && final(self)@ == old(self)@,
            },
    {
        let m = self.with_resolved_type(entries)?;
        *self = m;
        Ok(())
    }

    /// The method with the type names of its expression looked up.
    pub fn with_resolved_type_expr(&self, entries: &TypeEntries) -> (r: Result<Method<T>, Error>)
        requires
            opt_defined(self@.expr),
        ensures
            res_view(r) == meth_rte(self@, entries@),
    {
        let e = opt_expr_resolve_type(&self.expr, entries)?;
        Ok(Method { id: self.id, name: self.name.clone(), parameters: copy_params(&self.parameters), typ: self.typ.copy(), expr: e, position: copy_pos(&self.position) })
    }

    /// Looks up the type names of the expression of the method; on an error
    /// it is left as it was.
    pub fn resolve_type_expr(&mut self, entries: &TypeEntries) -> (r: Result<(), Error>)
        requires
            opt_defined(old(self)@.expr),
        ensures
            match meth_rte(old(self)@, entries@) {
                Ok(x) => r is Ok && final(self)@ == x,
                Err(e) => r matches Err(er) && er@ == e && final(self)@ == old(self)@,
            },
    {
        let m = self.with_resolved_type_expr(entries)?;
        *self = m;
        Ok(())
    }
}

impl Function {
    /// The function with its type, then the types of its parameters, looked
    /// up.
    pub fn with_resolved_type(&self, entries: &TypeEntries) -> (r: Result<Function, Error>)
        requires
            !(self@.typ is Undefined),
            params_defined(self@.parameters),
        ensures
            res_view(r) == func_rt(self@, entries@),
    {
        let t = self.typ.resolve_type(entries)?;
        let ps = resolve_params(&self.parameters, entries)?;
        Ok(Function { id: self.id, name: self.name.clone(), parameters: ps, typ: t, expr: copy_opt_expr(&self.expr), position: copy_pos(&self.position) })
    }

    /// The function with the type names of its expression looked up.
    pub fn with_resolved_type_expr(&self, entries: &TypeEntries) -> (r: Result<Function, Error>)
        requires
            opt_defined(self@.expr),
        ensures
            res_view(r) == func_rte(self@, entries@),
    {
        let e = opt_expr_resolve_type(&self.expr, entries)?;
        Ok(Function { id: self.id, name: self.name.clone(), parameters: copy_params(&self.parameters), typ: self.typ.copy(), expr: e, position: copy_pos(&self.position) })
    }
}

impl Variable {
    /// The variable with its type looked up.
    pub fn with_resolved_type(&self, entries: &TypeEntries) -> (r: Result<Variable, Error>)
        requires
            !(self@.typ is Undefined),
        ensures
            res_view(r) == var_rt(self@, entries@),
    {
        let t = self.typ.resolve_type(entries)?;
        Ok(Variable { id: self.id, name: self.name.clone(), typ: t, expr: copy_opt_expr(&self.expr), position: copy_pos(&self.position) })
    }

    /// The variable with the type names of its expression looked up.
    pub fn with_resolved_type_expr(&self, entries: &TypeEntries) -> (r: Result<Variable, Error>)
        requires
            opt_defined(self@.expr),
        ensures
            res_view(r) == var_rte(self@, entries@),
    {
        let e = opt_expr_resolve_type(&self.expr, entries)?;
        Ok(Variable { id: self.id, name: self.name.clone(), typ: self.typ.copy(), expr: e, position: copy_pos(&self.position) })
    }
}

impl Instance {
    /// The instance with its type looked up.
    pub fn with_resolved_type(&self, entries: &TypeEntries) -> (r: Result<Instance, Error>)
        requires
            !(self@.typ is Undefined),
        ensures
            res_view(r) == inst_rt(self@, entries@),
    {
        let t = self.typ.resolve_type(entries)?;
        Ok(Instance { id: self.id, name: self.name.clone(), typ: t, position: copy_pos(&self.position) })
    }
}

impl Constraint {
    /// The constraint with the type names of its expression looked up.
    pub fn with_resolved_type_expr(&self, entries: &TypeEntries) -> (r: Result<Constraint, Error>)
        requires
            every(NodeCheck::TypesDefined, self@.expr),
        ensures
            res_view(r) == cons_rte(self@, entries@),
    {
        let e = self.expr.resolve_type(entries)?;
        Ok(Constraint { id: self.id, name: self.name.clone(), expr: e, position: copy_pos(&self.position) })
    }

    /// Looks up the type names of the expression of the constraint; on an
    /// error it is left as it was.
    pub fn resolve_type_expr(&mut self, entries: &TypeEntries) -> (r: Result<(), Error>)
        requires
            every(NodeCheck::TypesDefined, old(self)@.expr),
        ensures
            match cons_rte(old(self)@, entries@) {
                Ok(x) => r is Ok && final(self)@ == x,
                Err(e) => r matches Err(er) && er@ == e && final(self)@ == old(self)@,
            },
    {
        let c = self.with_resolved_type_expr(entries)?;
        *self = c;
        Ok(())
    }
}

impl Search {
    /// What to search for, with the type names of its objective looked up.
    pub fn resolve_type_expr(&self, entries: &TypeEntries) -> (r: Result<Search, Error>)
        requires
            self@ matches SpecSearch::Optimize(e, _, _) ==> every(NodeCheck::TypesDefined, e),
        ensures
            res_view(r) == search_rte(self@, entries@),
    {
        match self {
            Search::Solve => Ok(Search::Solve),
            Search::Optimize(e, b, m) => {
                let x = e.resolve_type(entries)?;
                Ok(Search::Optimize(Box::new(x), *b, *m))
            },
        }
    }
}

/// The attributes with their types looked up, or the first error.
pub fn resolve_attr_types<T: Id>(v: &Vec<Attribute<T>>, entries: &TypeEntries) -> (r: Result<Vec<Attribute<T>>, Error>)
    requires
        forall|i: int| 0 <= i < v.len() ==> !((#[trigger] attrs_view(v@)[i]).typ is Undefined),
    ensures
        match map_results(attrs_view(v@), attr_rt_fn(entries@), v.len() as nat) {
            Ok(x) => r matches Ok(w) && attrs_view(w@) == x,
            Err(e) => r matches Err(er) && er@ == e,
        },
{
    let ghost s = attrs_view(v@);
    let mut w: Vec<Attribute<T>> = Vec::new();
    let mut i: usize = 0;
    proof {
        assert(attrs_view(w@) =~= seq![]);
    }
    while i < v.len()
        invariant
            i <= v.len(),
            s == attrs_view(v@),
            forall|k: int| 0 <= k < v.len() ==> !((#[trigger] s[k]).typ is Undefined),
            map_results(s, attr_rt_fn(entries@), i as nat) == Ok::<Seq<SpecAttribute<T>>, SpecError>(attrs_view(w@)),
        decreases v.len() - i,
    {
        proof {
            assert(s[i as int] == v@[i as int]@);
        }
        match v[i].with_resolved_type(entries) {
            Ok(x) => {
                let ghost before = w@;
                w.push(x);
                proof {
                    assert(attrs_view(w@) =~= attrs_view(before).push(x@));
                }
            },
            Err(e) => {
                proof {
                    lemma_map_results_err(s, attr_rt_fn(entries@), (i + 1) as nat, v.len() as nat);
                }
                return Err(e);
            },
        }
        i += 1;
    }
    Ok(w)
}

/// The methods with their types looked up, or the first error.
pub fn resolve_meth_types<T: Id>(v: &Vec<Method<T>>, entries: &TypeEntries) -> (r: Result<Vec<Method<T>>, Error>)
    requires
        forall|i: int| 0 <= i < v.len() ==> !((#[trigger] meths_view(v@)[i]).typ is Undefined) && params_defined((#[trigger] meths_view(v@)[i]).parameters),
    ensures
        match map_results(meths_view(v@), meth_rt_fn(entries@), v.len() as nat) {
            Ok(x) => r matches Ok(w) && meths_view(w@) == x,
            Err(e) => r matches Err(er) && er@ == e,
        },
{
    let ghost s = meths_view(v@);
    let mut w: Vec<Method<T>> = Vec::new();
    let mut i: usize = 0;
    proof {
        assert(meths_view(w@) =~= seq![]);
    }
    while i < v.len()
        invariant
            i <= v.len(),
            s == meths_view(v@),
            forall|k: int| 0 <= k < v.len() ==> !((#[trigger] s[k]).typ is Undefined) && params_defined((#[trigger] s[k]).parameters),
            map_results(s, meth_rt_fn(entries@), i as nat) == Ok::<Seq<SpecMethod<T>>, SpecError>(meths_view(w@)),
        decreases v.len() - i,
    {
        proof {
            assert(s[i as int] == v@[i as int]@);
        }
        match v[i].with_resolved_type(entries) {
            Ok(x) => {
                let ghost before = w@;
                w.push(x);
                proof {
                    assert(meths_view(w@) =~= meths_view(before).push(x@));
                }
            },
            Err(e) => {
                proof {
                    lemma_map_results_err(s, meth_rt_fn(entries@), (i + 1) as nat, v.len() as nat);
                }
                return Err(e);
            },
        }
        i += 1;
    }
    Ok(w)
}

/// The attributes with the type names of their expressions looked up, or the first error.
pub fn resolve_attr_type_exprs<T: Id>(v: &Vec<Attribute<T>>, entries: &TypeEntries) -> (r: Result<Vec<Attribute<T>>, Error>)
    requires
        forall|i: int| 0 <= i < v.len() ==> opt_defined((#[trigger] attrs_view(v@)[i]).expr),
    ensures
        match map_results(attrs_view(v@), attr_rte_fn(entries@), v.len() as nat) {
            Ok(x) => r matches Ok(w) && attrs_view(w@) == x,
            Err(e) => r matches Err(er) && er@ == e,
        },
{
    let ghost s = attrs_view(v@);
    let mut w: Vec<Attribute<T>> = Vec::new();
    let mut i: usize = 0;
    proof {
        assert(attrs_view(w@) =~= seq![]);
    }
    while i < v.len()
        invariant
            i <= v.len(),
            s == attrs_view(v@),
            forall|k: int| 0 <= k < v.len() ==> opt_defined((#[trigger] s[k]).expr),
            map_results(s, attr_rte_fn(entries@), i as nat) == Ok::<Seq<SpecAttribute<T>>, SpecError>(attrs_view(w@)),
        decreases v.len() - i,
    {
        proof {
            assert(s[i as int] == v@[i as int]@);
        }
        match v[i].with_resolved_type_expr(entries) {
            Ok(x) => {
                let ghost before = w@;
                w.push(x);
                proof {
                    assert(attrs_view(w@) =~= attrs_view(before).push(x@));
                }
            },
            Err(e) => {
                proof {
                    lemma_map_results_err(s, attr_rte_fn(entries@), (i + 1) as nat, v.len() as nat);
                }
                return Err(e);
            },
        }
        i += 1;
    }
    Ok(w)
}

/// The methods with the type names of their expressions looked up, or the first error.
pub fn resolve_meth_type_exprs<T: Id>(v: &Vec<Method<T>>, entries: &TypeEntries) -> (r: Result<Vec<Method<T>>, Error>)
    requires
        forall|i: int| 0 <= i < v.len() ==> opt_defined((#[trigger] meths_view(v@)[i]).expr),
    ensures
        match map_results(meths_view(v@), meth_rte_fn(entries@), v.len() as nat) {
            Ok(x) => r matches Ok(w) && meths_view(w@) == x,
            Err(e) => r matches Err(er) && er@ == e,
        },
{
    let ghost s = meths_view(v@);
    let mut w: Vec<Method<T>> = Vec::new();
    let mut i: usize = 0;
    proof {
        assert(meths_view(w@) =~= seq![]);
    }
    while i < v.len()
        invariant
            i <= v.len(),
            s == meths_view(v@),
            forall|k: int| 0 <= k < v.len() ==> opt_defined((#[trigger] s[k]).expr),
            map_results(s, meth_rte_fn(entries@), i as nat) == Ok::<Seq<SpecMethod<T>>, SpecError>(meths_view(w@)),
        decreases v.len() - i,
    {
        proof {
            assert(s[i as int] == v@[i as int]@);
        }
        match v[i].with_resolved_type_expr(entries) {
            Ok(x) => {
                let ghost before = w@;
                w.push(x);
                proof {
                    assert(meths_view(w@) =~= meths_view(before).push(x@));
                }
            },
            Err(e) => {
                proof {
                    lemma_map_results_err(s, meth_rte_fn(entries@), (i + 1) as nat, v.len() as nat);
                }
                return Err(e);
            },
        }
        i += 1;
    }
    Ok(w)
}

/// The instances with their types looked up, or the first error.
pub fn resolve_instance_types(v: &Vec<Instance>, entries: &TypeEntries) -> (r: Result<Vec<Instance>, Error>)
    requires
        forall|i: int| 0 <= i < v.len() ==> !((#[trigger] instances_view(v@)[i]).typ is Undefined),
    ensures
        match map_results(instances_view(v@), inst_rt_fn(entries@), v.len() as nat) {
            Ok(x) => r matches Ok(w) && instances_view(w@) == x,
            Err(e) => r matches Err(er) && er@ == e,
        },
{
    let ghost s = instances_view(v@);
    let mut w: Vec<Instance> = Vec::new();
    let mut i: usize = 0;
    proof {
        assert(instances_view(w@) =~= seq![]);
    }
    while i < v.len()
        invariant
            i <= v.len(),
            s == instances_view(v@),
            forall|k: int| 0 <= k < v.len() ==> !((#[trigger] s[k]).typ is Undefined),
            map_results(s, inst_rt_fn(entries@), i as nat) == Ok::<Seq<SpecInstance>, SpecError>(instances_view(w@)),
        decreases v.len() - i,
    {
        proof {
            assert(s[i as int] == v@[i as int]@);
        }
        match v[i].with_resolved_type(entries) {
            Ok(x) => {
                let ghost before = w@;
                w.push(x);
                proof {
                    assert(instances_view(w@) =~= instances_view(before).push(x@));
                }
            },
            Err(e) => {
                proof {
                    lemma_map_results_err(s, inst_rt_fn(entries@), (i + 1) as nat, v.len() as nat);
                }
                return Err(e);
            },
        }
        i += 1;
    }
    Ok(w)
}

/// The variables with their types looked up, or the first error.
pub fn resolve_variable_types(v: &Vec<Variable>, entries: &TypeEntries) -> (r: Result<Vec<Variable>, Error>)
    requires
        forall|i: int| 0 <= i < v.len() ==> !((#[trigger] variables_view(v@)[i]).typ is Undefined),
    ensures
        match map_results(variables_view(v@), var_rt_fn(entries@), v.len() as nat) {
            Ok(x) => r matches Ok(w) && variables_view(w@) == x,
            Err(e) => r matches Err(er) && er@ == e,
        },
{
    let ghost s = variables_view(v@);
    let mut w: Vec<Variable> = Vec::new();
    let mut i: usize = 0;
    proof {
        assert(variables_view(w@) =~= seq![]);
    }
    while i < v.len()
        invariant
            i <= v.len(),
            s == variables_view(v@),
            forall|k: int| 0 <= k < v.len() ==> !((#[trigger] s[k]).typ is Undefined),
            map_results(s, var_rt_fn(entries@), i as nat) == Ok::<Seq<SpecVariable>, SpecError>(variables_view(w@)),
        decreases v.len() - i,
    {
        proof {
            assert(s[i as int] == v@[i as int]@);
        }
        match v[i].with_resolved_type(entries) {
            Ok(x) => {
                let ghost before = w@;
                w.push(x);
                proof {
                    assert(variables_view(w@) =~= variables_view(before).push(x@));
                }
            },
            Err(e) => {
                proof {
                    lemma_map_results_err(s, var_rt_fn(entries@), (i + 1) as nat, v.len() as nat);
                }
                return Err(e);
            },
        }
        i += 1;
    }
    Ok(w)
}

/// The variables with the type names of their expressions looked up, or the first error.
pub fn resolve_variable_type_exprs(v: &Vec<Variable>, entries: &TypeEntries) -> (r: Result<Vec<Variable>, Error>)
    requires
        forall|i: int| 0 <= i < v.len() ==> opt_defined((#[trigger] variables_view(v@)[i]).expr),
    ensures
        match map_results(variables_view(v@), var_rte_fn(entries@), v.len() as nat) {
            Ok(x) => r matches Ok(w) && variables_view(w@) == x,
            Err(e) => r matches Err(er) && er@ == e,
        },
{
    let ghost s = variables_view(v@);
    let mut w: Vec<Variable> = Vec::new();
    let mut i: usize = 0;
    proof {
        assert(variables_view(w@) =~= seq![]);
    }
    while i < v.len()
        invariant
            i <= v.len(),
            s == variables_view(v@),
            forall|k: int| 0 <= k < v.len() ==> opt_defined((#[trigger] s[k]).expr),
            map_results(s, var_rte_fn(entries@), i as nat) == Ok::<Seq<SpecVariable>, SpecError>(variables_view(w@)),
        decreases v.len() - i,
    {
        proof {
            assert(s[i as int] == v@[i as int]@);
        }
        match v[i].with_resolved_type_expr(entries) {
            Ok(x) => {
                let ghost before = w@;
                w.push(x);
                proof {
                    assert(variables_view(w@) =~= variables_view(before).push(x@));
                }
            },
            Err(e) => {
                proof {
                    lemma_map_results_err(s, var_rte_fn(entries@), (i + 1) as nat, v.len() as nat);
                }
                return Err(e);
            },
        }
        i += 1;
    }
    Ok(w)
}

/// The functions with their types looked up, or the first error.
pub fn resolve_function_types(v: &Vec<Function>, entries: &TypeEntries) -> (r: Result<Vec<Function>, Error>)
    requires
        forall|i: int| 0 <= i < v.len() ==> !((#[trigger] functions_view(v@)[i]).typ is Undefined) && params_defined((#[trigger] functions_view(v@)[i]).parameters),
    ensures
        match map_results(functions_view(v@), func_rt_fn(entries@), v.len() as nat) {
            Ok(x) => r matches Ok(w) && functions_view(w@) == x,
            Err(e) => r matches Err(er) && er@ == e,
        },
{
    let ghost s = functions_view(v@);
    let mut w: Vec<Function> = Vec::new();
    let mut i: usize = 0;
    proof {
        assert(functions_view(w@) =~= seq![]);
    }
    while i < v.len()
        invariant
            i <= v.len(),
            s == functions_view(v@),
            forall|k: int| 0 <= k < v.len() ==> !((#[trigger] s[k]).typ is Undefined) && params_defined((#[trigger] s[k]).parameters),
            map_results(s, func_rt_fn(entries@), i as nat) == Ok::<Seq<SpecFunction>, SpecError>(functions_view(w@)),
        decreases v.len() - i,
    {
        proof {
            assert(s[i as int] == v@[i as int]@);
        }
        match v[i].with_resolved_type(entries) {
            Ok(x) => {
                let ghost before = w@;
                w.push(x);
                proof {
                    assert(functions_view(w@) =~= functions_view(before).push(x@));
                }
            },
            Err(e) => {
                proof {
                    lemma_map_results_err(s, func_rt_fn(entries@), (i + 1) as nat, v.len() as nat);
                }
                return Err(e);
            },
        }
        i += 1;
    }
    Ok(w)
}

/// The functions with the type names of their expressions looked up, or the first error.
pub fn resolve_function_type_exprs(v: &Vec<Function>, entries: &TypeEntries) -> (r: Result<Vec<Function>, Error>)
    requires
        forall|i: int| 0 <= i < v.len() ==> opt_defined((#[trigger] functions_view(v@)[i]).expr),
    ensures
        match map_results(functions_view(v@), func_rte_fn(entries@), v.len() as nat) {
            Ok(x) => r matches Ok(w) && functions_view(w@) == x,
            Err(e) => r matches Err(er) && er@ == e,
        },
{
    let ghost s = functions_view(v@);
    let mut w: Vec<Function> = Vec::new();
    let mut i: usize = 0;
    proof {
        assert(functions_view(w@) =~= seq![]);
    }
    while i < v.len()
        invariant
            i <= v.len(),
            s == functions_view(v@),
            forall|k: int| 0 <= k < v.len() ==> opt_defined((#[trigger] s[k]).expr),
            map_results(s, func_rte_fn(entries@), i as nat) == Ok::<Seq<SpecFunction>, SpecError>(functions_view(w@)),
        decreases v.len() - i,
    {
        proof {
            assert(s[i as int] == v@[i as int]@);
        }
        match v[i].with_resolved_type_expr(entries) {
            Ok(x) => {
                let ghost before = w@;
                w.push(x);
                proof {
                    assert(functions_view(w@) =~= functions_view(before).push(x@));
                }
            },
            Err(e) => {
                proof {
                    lemma_map_results_err(s, func_rte_fn(entries@), (i + 1) as nat, v.len() as nat);
                }
                return Err(e);
            },
        }
        i += 1;
    }
    Ok(w)
}

/// The constraints with the type names of their expressions looked up, or the first error.
pub fn resolve_constraint_type_exprs(v: &Vec<Constraint>, entries: &TypeEntries) -> (r: Result<Vec<Constraint>, Error>)
    requires
        forall|i: int| 0 <= i < v.len() ==> every(NodeCheck::TypesDefined, (#[trigger] constraints_view(v@)[i]).expr),
    ensures
        match map_results(constraints_view(v@), cons_rte_fn(entries@), v.len() as nat) {
            Ok(x) => r matches Ok(w) && constraints_view(w@) == x,
            Err(e) => r matches Err(er) && er@ == e,
        },
{
    let ghost s = constraints_view(v@);
    let mut w: Vec<Constraint> = Vec::new();
    let mut i: usize = 0;
    proof {
        assert(constraints_view(w@) =~= seq![]);
    }
    while i < v.len()
        invariant
            i <= v.len(),
            s == constraints_view(v@),
            forall|k: int| 0 <= k < v.len() ==> every(NodeCheck::TypesDefined, (#[trigger] s[k]).expr),
            map_results(s, cons_rte_fn(entries@), i as nat) == Ok::<Seq<SpecConstraint>, SpecError>(constraints_view(w@)),
        decreases v.len() - i,
    {
        proof {
            assert(s[i as int] == v@[i as int]@);
        }
        match v[i].with_resolved_type_expr(entries) {
            Ok(x) => {
                let ghost before = w@;
                w.push(x);
                proof {
                    assert(constraints_view(w@) =~= constraints_view(before).push(x@));
                }
            },
            Err(e) => {
                proof {
                    lemma_map_results_err(s, cons_rte_fn(entries@), (i + 1) as nat, v.len() as nat);
                }
                return Err(e);
            },
        }
        i += 1;
    }
    Ok(w)
}

/// Every attribute and method of the structure has a defined type.
pub open spec fn struct_types_defined(s: SpecStructure) -> bool {
    &&& forall|j: int| 0 <= j < s.attributes.len() ==> !(#[trigger] s.attributes[j].typ is Undefined)
    &&& forall|j: int| 0 <= j < s.methods.len() ==> !(#[trigger] s.methods[j].typ is Undefined) && params_defined(s.methods[j].parameters)
}

/// Every attribute and method of the structure has an expression with
/// defined types, if any.
pub open spec fn struct_exprs_defined(s: SpecStructure) -> bool {
    &&& forall|j: int| 0 <= j < s.attributes.len() ==> opt_defined(#[trigger] s.attributes[j].expr)
    &&& forall|j: int| 0 <= j < s.methods.len() ==> opt_defined(#[trigger] s.methods[j].expr)
}

/// The class extends a defined type, and every attribute and method of it
/// has a defined type.
pub open spec fn class_types_defined(c: SpecClass) -> bool {
    &&& c.extends matches Some(t) ==> !(t is Undefined)
    &&& forall|j: int| 0 <= j < c.attributes.len() ==> !(#[trigger] c.attributes[j].typ is Undefined)
    &&& forall|j: int| 0 <= j < c.methods.len() ==> !(#[trigger] c.methods[j].typ is Undefined) && params_defined(c.methods[j].parameters)
}

/// Every attribute and method of the class has an expression with defined
/// types, if any.
pub open spec fn class_exprs_defined(c: SpecClass) -> bool {
    &&& forall|j: int| 0 <= j < c.attributes.len() ==> opt_defined(#[trigger] c.attributes[j].expr)
    &&& forall|j: int| 0 <= j < c.methods.len() ==> opt_defined(#[trigger] c.methods[j].expr)
}

impl Structure {
    /// The structure with the types of its attributes, then of its methods,
    /// looked up.
    pub fn with_resolved_type(&self, entries: &TypeEntries) -> (r: Result<Structure, Error>)
        requires
            struct_types_defined(self@),
        ensures
            res_view(r) == struct_rt(self@, entries@),
    {
        let a = resolve_attr_types(&self.attributes, entries)?;
        let m = resolve_meth_types(&self.methods, entries)?;
        Ok(Structure { id: self.id, name: self.name.clone(), typ: self.typ.copy(), attributes: a, methods: m, position: copy_pos(&self.position) })
    }

    /// The structure with the type names of the expressions of its
    /// attributes, then of its methods, looked up.
    pub fn with_resolved_type_expr(&self, entries: &TypeEntries) -> (r: Result<Structure, Error>)
        requires
            struct_exprs_defined(self@),
        ensures
            res_view(r) == struct_rte(self@, entries@),
    {
        let a = resolve_attr_type_exprs(&self.attributes, entries)?;
        let m = resolve_meth_type_exprs(&self.methods, entries)?;
        Ok(Structure { id: self.id, name: self.name.clone(), typ: self.typ.copy(), attributes: a, methods: m, position: copy_pos(&self.position) })
    }
}

impl Class {
    /// The class with the class it extends, then the types of its attributes
    /// and of its methods, looked up.
    pub fn with_resolved_type(&self, entries: &TypeEntries) -> (r: Result<Class, Error>)
        requires
            class_types_defined(self@),
        ensures
            res_view(r) == class_rt(self@, entries@),
    {
        let x = match &self.extends {
            Some(t) => Some(t.resolve_type(entries)?),
            None => None,
        };
        let a = resolve_attr_types(&self.attributes, entries)?;
        let m = resolve_meth_types(&self.methods, entries)?;
        Ok(Class { id: self.id, name: self.name.clone(), typ: self.typ.copy(), extends: x, attributes: a, methods: m, position: copy_pos(&self.position) })
    }

    /// The class with the type names of the expressions of its attributes,
    /// then of its methods, looked up.
    pub fn with_resolved_type_expr(&self, entries: &TypeEntries) -> (r: Result<Class, Error>)
        requires
            class_exprs_defined(self@),
        ensures
            res_view(r) == class_rte(self@, entries@),
    {
        let a = resolve_attr_type_exprs(&self.attributes, entries)?;
        let m = resolve_meth_type_exprs(&self.methods, entries)?;
        Ok(Class { id: self.id, name: self.name.clone(), typ: self.typ.copy(), extends: copy_opt_type(&self.extends), attributes: a, methods: m, position: copy_pos(&self.position) })
    }
}

/// A copy of an optional type.
pub fn copy_opt_type(t: &Option<Type>) -> (r: Option<Type>)
    ensures
        opt_type(r) == opt_type(*t),
{
    match t {
        Some(x) => Some(x.copy()),
        None => None,
    }
}

/// The structures with their types looked up, or the first error.
pub fn resolve_structure_types(v: &Vec<Structure>, entries: &TypeEntries) -> (r: Result<Vec<Structure>, Error>)
    requires
        forall|i: int| 0 <= i < v.len() ==> struct_types_defined((#[trigger] structures_view(v@)[i])),
    ensures
        match map_results(structures_view(v@), struct_rt_fn(entries@), v.len() as nat) {
            Ok(x) => r matches Ok(w) && structures_view(w@) == x,
            Err(e) => r matches Err(er) && er@ == e,
        },
{
    let ghost s = structures_view(v@);
    let mut w: Vec<Structure> = Vec::new();
    let mut i: usize = 0;
    proof {
        assert(structures_view(w@) =~= seq![]);
    }
    while i < v.len()
        invariant
            i <= v.len(),
            s == structures_view(v@),
            forall|k: int| 0 <= k < v.len() ==> struct_types_defined((#[trigger] s[k])),
            map_results(s, struct_rt_fn(entries@), i as nat) == Ok::<Seq<SpecStructure>, SpecError>(structures_view(w@)),
        decreases v.len() - i,
    {
        proof {
            assert(s[i as int] == v@[i as int]@);
        }
        match v[i].with_resolved_type(entries) {
            Ok(x) => {
                let ghost before = w@;
                w.push(x);
                proof {
                    assert(structures_view(w@) =~= structures_view(before).push(x@));
                }
            },
            Err(e) => {
                proof {
                    lemma_map_results_err(s, struct_rt_fn(entries@), (i + 1) as nat, v.len() as nat);
                }
                return Err(e);
            },
        }
        i += 1;
    }
    Ok(w)
}

/// The structures with the type names of their expressions looked up, or the first error.
pub fn resolve_structure_type_exprs(v: &Vec<Structure>, entries: &TypeEntries) -> (r: Result<Vec<Structure>, Error>)
    requires
        forall|i: int| 0 <= i < v.len() ==> struct_exprs_defined((#[trigger] structures_view(v@)[i])),
    ensures
        match map_results(structures_view(v@), struct_rte_fn(entries@), v.len() as nat) {
            Ok(x) => r matches Ok(w) && structures_view(w@) == x,
            Err(e) => r matches Err(er) && er@ == e,
        },
{
    let ghost s = structures_view(v@);
    let mut w: Vec<Structure> = Vec::new();
    let mut i: usize = 0;
    proof {
        assert(structures_view(w@) =~= seq![]);
    }
    while i < v.len()
        invariant
            i <= v.len(),
            s == structures_view(v@),
            forall|k: int| 0 <= k < v.len() ==> struct_exprs_defined((#[trigger] s[k])),
            map_results(s, struct_rte_fn(entries@), i as nat) == Ok::<Seq<SpecStructure>, SpecError>(structures_view(w@)),
        decreases v.len() - i,
    {
        proof {
            assert(s[i as int] == v@[i as int]@);
        }
        match v[i].with_resolved_type_expr(entries) {
            Ok(x) => {
                let ghost before = w@;
                w.push(x);
                proof {
                    assert(structures_view(w@) =~= structures_view(before).push(x@));
                }
            },
            Err(e) => {
                proof {
                    lemma_map_results_err(s, struct_rte_fn(entries@), (i + 1) as nat, v.len() as nat);
                }
                return Err(e);
            },
        }
        i += 1;
    }
    Ok(w)
}

/// The classes with their types looked up, or the first error.
pub fn resolve_class_types(v: &Vec<Class>, entries: &TypeEntries) -> (r: Result<Vec<Class>, Error>)
    requires
        forall|i: int| 0 <= i < v.len() ==> class_types_defined((#[trigger] classes_view(v@)[i])),
    ensures
        match map_results(classes_view(v@), class_rt_fn(entries@), v.len() as nat) {
            Ok(x) => r matches Ok(w) && classes_view(w@) == x,
            Err(e) => r matches Err(er) && er@ == e,
        },
{
    let ghost s = classes_view(v@);
    let mut w: Vec<Class> = Vec::new();
    let mut i: usize = 0;
    proof {
        assert(classes_view(w@) =~= seq![]);
    }
    while i < v.len()
        invariant
            i <= v.len(),
            s == classes_view(v@),
            forall|k: int| 0 <= k < v.len() ==> class_types_defined((#[trigger] s[k])),
            map_results(s, class_rt_fn(entries@), i as nat) == Ok::<Seq<SpecClass>, SpecError>(classes_view(w@)),
        decreases v.len() - i,
    {
        proof {
            assert(s[i as int] == v@[i as int]@);
        }
        match v[i].with_resolved_type(entries) {
            Ok(x) => {
                let ghost before = w@;
                w.push(x);
                proof {
                    assert(classes_view(w@) =~= classes_view(before).push(x@));
                }
            },
            Err(e) => {
                proof {
                    lemma_map_results_err(s, class_rt_fn(entries@), (i + 1) as nat, v.len() as nat);
                }
                return Err(e);
            },
        }
        i += 1;
    }
    Ok(w)
}

/// The classes with the type names of their expressions looked up, or the first error.
pub fn resolve_class_type_exprs(v: &Vec<Class>, entries: &TypeEntries) -> (r: Result<Vec<Class>, Error>)
    requires
        forall|i: int| 0 <= i < v.len() ==> class_exprs_defined((#[trigger] classes_view(v@)[i])),
    ensures
        match map_results(classes_view(v@), class_rte_fn(entries@), v.len() as nat) {
            Ok(x) => r matches Ok(w) && classes_view(w@) == x,
            Err(e) => r matches Err(er) && er@ == e,
        },
{
    let ghost s = classes_view(v@);
    let mut w: Vec<Class> = Vec::new();
    let mut i: usize = 0;
    proof {
        assert(classes_view(w@) =~= seq![]);
    }
    while i < v.len()
        invariant
            i <= v.len(),
            s == classes_view(v@),
            forall|k: int| 0 <= k < v.len() ==> class_exprs_defined((#[trigger] s[k])),
            map_results(s, class_rte_fn(entries@), i as nat) == Ok::<Seq<SpecClass>, SpecError>(classes_view(w@)),
        decreases v.len() - i,
    {
        proof {
            assert(s[i as int] == v@[i as int]@);
        }
        match v[i].with_resolved_type_expr(entries) {
            Ok(x) => {
                let ghost before = w@;
                w.push(x);
                proof {
                    assert(classes_view(w@) =~= classes_view(before).push(x@));
                }
            },
            Err(e) => {
                proof {
                    lemma_map_results_err(s, class_rte_fn(entries@), (i + 1) as nat, v.len() as nat);
                }
                return Err(e);
            },
        }
        i += 1;
    }
    Ok(w)
}

} // verus!
