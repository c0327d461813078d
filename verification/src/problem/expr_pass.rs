//! Resolving the names of the expressions of the declarations of a
//! problem.

use crate::error::Error;
use crate::error::SpecError;
use crate::error::res_view;
use crate::parser::position::copy_pos;
use crate::problem::attribute::Attribute;
use crate::problem::attribute::SpecAttribute;
use crate::problem::attribute::attrs_view;
use crate::problem::class::Class;
use crate::problem::class::SpecClass;
use crate::problem::constraint::Constraint;
use crate::problem::constraint::SpecConstraint;
use crate::problem::entry::Entries;
use crate::problem::entry::Entry;
use crate::problem::entry::EntryType;
use crate::problem::entry::SpecEntry;
use crate::problem::entry::SpecEntryType;
use crate::problem::expression::expr::Expr;
use crate::problem::expression::resolve::add_param_entries;
use crate::problem::expression::resolve::entries_valid;
use crate::problem::expression::resolve::entry_valid;
use crate::problem::expression::resolve::param_entries;
use crate::problem::function::Function;
use crate::problem::function::SpecFunction;
use crate::problem::ids::ClassId;
use crate::problem::ids::Id;
use crate::problem::ids::InstanceId;
use crate::problem::ids::StructureId;
use crate::problem::ids::VariableId;
use crate::problem::instance::Instance;
use crate::problem::instance::SpecInstance;
use crate::problem::method::Method;
use crate::problem::method::SpecMethod;
use crate::problem::method::meths_view;
use crate::problem::parameter::SpecParameter;
use crate::problem::parameter::copy_params;
use crate::problem::problem::Problem;
use crate::problem::problem::SpecProblem;
use crate::problem::problem::classes_view;
use crate::problem::problem::constraints_view;
use crate::problem::problem::functions_view;
use crate::problem::problem::structures_view;
use crate::problem::problem::variables_view;
use crate::problem::relations::type_valid;
use crate::problem::resolve_exprs::class_attr_entries;
use crate::problem::resolve_exprs::class_attr_re;
use crate::problem::resolve_exprs::class_attr_re_fn;
use crate::problem::resolve_exprs::class_meth_entries;
use crate::problem::resolve_exprs::class_meth_re;
use crate::problem::resolve_exprs::class_meth_re_fn;
use crate::problem::resolve_exprs::class_re;
use crate::problem::resolve_exprs::class_re_fn;
use crate::problem::resolve_exprs::class_self_entry;
use crate::problem::resolve_exprs::cons_re;
use crate::problem::resolve_exprs::cons_re_fn;
use crate::problem::resolve_exprs::func_re;
use crate::problem::resolve_exprs::func_re_fn;
use crate::problem::resolve_exprs::opt_resolve;
use crate::problem::resolve_exprs::opt_valid;
use crate::problem::resolve_exprs::search_re;
use crate::problem::resolve_exprs::spec_problem_entries;
use crate::problem::resolve_exprs::spec_problem_resolve_expr;
use crate::problem::resolve_exprs::struct_attr_entries;
use crate::problem::resolve_exprs::struct_attr_re;
use crate::problem::resolve_exprs::struct_attr_re_fn;
use crate::problem::resolve_exprs::struct_meth_entries;
use crate::problem::resolve_exprs::struct_meth_re;
use crate::problem::resolve_exprs::struct_meth_re_fn;
use crate::problem::resolve_exprs::struct_re;
use crate::problem::resolve_exprs::struct_re_fn;
use crate::problem::resolve_exprs::struct_self_entry;
use crate::problem::resolve_exprs::var_re;
use crate::problem::resolve_exprs::var_re_fn;
use crate::problem::results::lemma_map_outcomes_stops;
use crate::problem::results::map_outcomes;
use crate::problem::search::Search;
use crate::problem::search::SpecSearch;
use crate::problem::structure::SpecStructure;
use crate::problem::structure::Structure;
use crate::problem::type_pass::copy_opt_type;
use crate::problem::valid::expr_valid;
use crate::problem::valid::params_valid;
use crate::problem::variable::SpecVariable;
use crate::problem::variable::Variable;
use crate::problem::variable::opt_expr;
use vstd::string::*;
use vstd::prelude::*;

verus! {

/// View of an outcome that may not come.
pub open spec fn opt_res_view<A: View>(r: Option<Result<A, Error>>) -> Option<Result<A::V, SpecError>> {
    match r {
        Some(Ok(a)) => Some(Ok(a@)),
        Some(Err(e)) => Some(Err(e@)),
        None => None,
    }
}

/// An optional expression with its names resolved.
pub fn opt_expr_resolve(problem: &Problem, e: &Option<Expr>, entries: &Entries) -> (r: Option<
    Result<Option<Expr>, Error>,
>)
    requires
        problem@.wf(),
        entries_valid(problem@, entries@),
        opt_valid(problem@, opt_expr(*e)),
    ensures
        match opt_resolve(problem@, opt_expr(*e), entries@) {
            Some(Ok(x)) => r matches Some(Ok(y)) && opt_expr(y) == x,
            Some(Err(er)) => r matches Some(Err(f)) && f@ == er,
            None => r is None,
        },
        r matches Some(Ok(y)) ==> opt_valid(problem@, opt_expr(y)),
{
    match e {
        Some(x) => match x.resolve_checked(problem, entries) {
            Some(Ok(y)) => Some(Ok(Some(y))),
            Some(Err(er)) => Some(Err(er)),
            None => None,
        },
        None => Some(Ok(None)),
    }
}

/// The entries `en` with `self` for structure `id` after them.
fn with_struct_self(en: &Entries, id: StructureId) -> (r: Entries)
    ensures
        r@ == en@.push(struct_self_entry(id)),
{
    en.add(Entry::new(String::from_str("self"), EntryType::StrucSelf(id)))
}

/// The entries `en` with `self` for class `id` after them.
fn with_class_self(en: &Entries, id: ClassId) -> (r: Entries)
    ensures
        r@ == en@.push(class_self_entry(id)),
{
    en.add(Entry::new(String::from_str("self"), EntryType::ClassSelf(id)))
}

/// Entries of a well-formed problem extended with valid entries stay valid.
proof fn lemma_entries_append_valid(p: SpecProblem, a: Seq<SpecEntry>, b: Seq<SpecEntry>)
    requires
        entries_valid(p, a),
        entries_valid(p, b),
    ensures
        entries_valid(p, a + b),
{
    assert forall|i: int| 0 <= i < (a + b).len() implies #[trigger] entry_valid(p, (a + b)[i]) by {
        if i < a.len() {
            assert((a + b)[i] == a[i]);
        } else {
            assert((a + b)[i] == b[i - a.len()]);
        }
    }
}

/// The entries of parameters of valid types are valid.
proof fn lemma_param_entries_valid(p: SpecProblem, ps: Seq<SpecParameter>)
    requires
        params_valid(p, ps),
    ensures
        entries_valid(p, param_entries(ps)),
{
    assert forall|i: int| 0 <= i < param_entries(ps).len() implies #[trigger] entry_valid(p, param_entries(ps)[i]) by {
        assert(type_valid(p, ps[i].typ));
    }
}

impl Attribute<StructureId> {
    /// The entries of the attribute: `self`.
    pub fn entries(&self) -> (r: Entries)
        ensures
            r@ == struct_attr_entries(self@),
    {
        let r = with_struct_self(&Entries::new(Vec::new()), self.id.0);
        proof {
            assert(r@ =~= struct_attr_entries(self@));
        }
        r
    }

    /// The attribute with the names of its expression resolved, or `None`
    /// where the expression asks an attribute or a method of a value that is
    /// neither of a structure nor of a class.
    pub fn resolve_expr_checked(&self, problem: &Problem, entries: &Entries) -> (r: Option<
        Result<Attribute<StructureId>, Error>,
    >)
        requires
            problem@.wf(),
            entries_valid(problem@, entries@),
            self@.id.0.0 < problem@.structures.len(),
            opt_valid(problem@, self@.expr),
        ensures
            opt_res_view(r) == struct_attr_re(problem@, self@, entries@),
            r matches Some(Ok(x)) ==> opt_valid(problem@, x@.expr),
    {
        let en = entries.add_all(self.entries());
        proof {
            lemma_entries_append_valid(problem@, entries@, struct_attr_entries(self@));
        }
        match opt_expr_resolve(problem, &self.expr, &en) {
            Some(Ok(e)) => Some(Ok(Attribute { id: self.id, name: self.name.clone(), typ: self.typ.copy(), expr: e, position: copy_pos(&self.position) })),
            Some(Err(er)) => Some(Err(er)),
            None => None,
        }
    }
}

impl Attribute<ClassId> {
    /// The entries of the attribute: `self`.
    pub fn entries(&self) -> (r: Entries)
        ensures
            r@ == class_attr_entries(self@),
    {
        let r = with_class_self(&Entries::new(Vec::new()), self.id.0);
        proof {
            assert(r@ =~= class_attr_entries(self@));
        }
        r
    }

    /// The attribute with the names of its expression resolved, or `None`
    /// where the expression asks an attribute or a method of a value that is
    /// neither of a structure nor of a class.
    pub fn resolve_expr_checked(&self, problem: &Problem, entries: &Entries) -> (r: Option<
        Result<Attribute<ClassId>, Error>,
    >)
        requires
            problem@.wf(),
            entries_valid(problem@, entries@),
            self@.id.0.0 < problem@.classes.len(),
            opt_valid(problem@, self@.expr),
        ensures
            opt_res_view(r) == class_attr_re(problem@, self@, entries@),
            r matches Some(Ok(x)) ==> opt_valid(problem@, x@.expr),
    {
        let en = entries.add_all(self.entries());
        proof {
            lemma_entries_append_valid(problem@, entries@, class_attr_entries(self@));
        }
        match opt_expr_resolve(problem, &self.expr, &en) {
            Some(Ok(e)) => Some(Ok(Attribute { id: self.id, name: self.name.clone(), typ: self.typ.copy(), expr: e, position: copy_pos(&self.position) })),
            Some(Err(er)) => Some(Err(er)),
            None => None,
        }
    }
}

impl Method<StructureId> {
    /// The entries of the method: its parameters, then `self`.
    pub fn entries(&self) -> (r: Entries)
        ensures
            r@ == struct_meth_entries(self@),
    {
        let en = add_param_entries(&Entries::new(Vec::new()), &self.parameters);
        let r = with_struct_self(&en, self.id.0);
        proof {
            assert(r@ =~= struct_meth_entries(self@));
        }
        r
    }

    /// The method with the names of its expression resolved, or `None` where
    /// the expression asks an attribute or a method of a value that is
    /// neither of a structure nor of a class.
    pub fn resolve_expr_checked(&self, problem: &Problem, entries: &Entries) -> (r: Option<
        Result<Method<StructureId>, Error>,
    >)
        requires
            problem@.wf(),
            entries_valid(problem@, entries@),
            self@.id.0.0 < problem@.structures.len(),
            params_valid(problem@, self@.parameters),
            opt_valid(problem@, self@.expr),
        ensures
            opt_res_view(r) == struct_meth_re(problem@, self@, entries@),
            r matches Some(Ok(x)) ==> opt_valid(problem@, x@.expr),
    {
        let en = entries.add_all(self.entries());
        proof {
            lemma_param_entries_valid(problem@, self@.parameters);
            assert(entries_valid(problem@, struct_meth_entries(self@))) by {
                let pe = param_entries(self@.parameters);
                assert forall|i: int| 0 <= i < struct_meth_entries(self@).len() implies #[trigger] entry_valid(problem@, struct_meth_entries(self@)[i]) by {
                    if i < pe.len() {
                        assert(struct_meth_entries(self@)[i] == pe[i]);
                    }
                }
            }
            lemma_entries_append_valid(problem@, entries@, struct_meth_entries(self@));
        }
        match opt_expr_resolve(problem, &self.expr, &en) {
            Some(Ok(e)) => Some(Ok(Method { id: self.id, name: self.name.clone(), parameters: copy_params(&self.parameters), typ: self.typ.copy(), expr: e, position: copy_pos(&self.position) })),
            Some(Err(er)) => Some(Err(er)),
            None => None,
        }
    }
}

impl Method<ClassId> {
    /// The entries of the method: its parameters, then `self`.
    pub fn entries(&self) -> (r: Entries)
        ensures
            r@ == class_meth_entries(self@),
    {
        let en = add_param_entries(&Entries::new(Vec::new()), &self.parameters);
        let r = with_class_self(&en, self.id.0);
        proof {
            assert(r@ =~= class_meth_entries(self@));
        }
        r
    }

    /// The method with the names of its expression resolved, or `None` where
    /// the expression asks an attribute or a method of a value that is
    /// neither of a structure nor of a class.
    pub fn resolve_expr_checked(&self, problem: &Problem, entries: &Entries) -> (r: Option<
        Result<Method<ClassId>, Error>,
    >)
        requires
            problem@.wf(),
            entries_valid(problem@, entries@),
            self@.id.0.0 < problem@.classes.len(),
            params_valid(problem@, self@.parameters),
            opt_valid(problem@, self@.expr),
        ensures
            opt_res_view(r) == class_meth_re(problem@, self@, entries@),
            r matches Some(Ok(x)) ==> opt_valid(problem@, x@.expr),
    {
        let en = entries.add_all(self.entries());
        proof {
            lemma_param_entries_valid(problem@, self@.parameters);
            assert(entries_valid(problem@, class_meth_entries(self@))) by {
                let pe = param_entries(self@.parameters);
                assert forall|i: int| 0 <= i < class_meth_entries(self@).len() implies #[trigger] entry_valid(problem@, class_meth_entries(self@)[i]) by {
                    if i < pe.len() {
                        assert(class_meth_entries(self@)[i] == pe[i]);
                    }
                }
            }
            lemma_entries_append_valid(problem@, entries@, class_meth_entries(self@));
        }
        match opt_expr_resolve(problem, &self.expr, &en) {
            Some(Ok(e)) => Some(Ok(Method { id: self.id, name: self.name.clone(), parameters: copy_params(&self.parameters), typ: self.typ.copy(), expr: e, position: copy_pos(&self.position) })),
            Some(Err(er)) => Some(Err(er)),
            None => None,
        }
    }
}

impl Variable {
    /// The entries of a variable: none.
    pub fn entries(&self) -> (r: Entries)
        ensures
            r@ == Seq::<SpecEntry>::empty(),
    {
        let r = Entries::new(Vec::new());
        proof {
            assert(r@ =~= Seq::<SpecEntry>::empty());
        }
        r
    }

    /// The variable with the names of its expression resolved, or `None`
    /// where the expression asks an attribute or a method of a value that is
    /// neither of a structure nor of a class.
    pub fn resolve_expr_checked(&self, problem: &Problem, entries: &Entries) -> (r: Option<
        Result<Variable, Error>,
    >)
        requires
            problem@.wf(),
            entries_valid(problem@, entries@),
            opt_valid(problem@, self@.expr),
        ensures
            opt_res_view(r) == var_re(problem@, self@, entries@),
            r matches Some(Ok(x)) ==> opt_valid(problem@, x@.expr),
    {
        let en = entries.add_all(self.entries());
        proof {
            assert(en@ =~= entries@);
        }
        match opt_expr_resolve(problem, &self.expr, &en) {
            Some(Ok(e)) => Some(Ok(Variable { id: self.id, name: self.name.clone(), typ: self.typ.copy(), expr: e, position: copy_pos(&self.position) })),
            Some(Err(er)) => Some(Err(er)),
            None => None,
        }
    }
}

impl Function {
    /// The entries of the function: its parameters.
    pub fn entries(&self) -> (r: Entries)
        ensures
            r@ == param_entries(self@.parameters),
    {
        let r = add_param_entries(&Entries::new(Vec::new()), &self.parameters);
        proof {
            assert(r@ =~= param_entries(self@.parameters));
        }
        r
    }

    /// The function with the names of its expression resolved, or `None`
    /// where the expression asks an attribute or a method of a value that is
    /// neither of a structure nor of a class.
    pub fn resolve_expr_checked(&self, problem: &Problem, entries: &Entries) -> (r: Option<
        Result<Function, Error>,
    >)
        requires
            problem@.wf(),
            entries_valid(problem@, entries@),
            params_valid(problem@, self@.parameters),
            opt_valid(problem@, self@.expr),
        ensures
            opt_res_view(r) == func_re(problem@, self@, entries@),
            r matches Some(Ok(x)) ==> opt_valid(problem@, x@.expr),
    {
        let en = entries.add_all(self.entries());
        proof {
            lemma_param_entries_valid(problem@, self@.parameters);
            lemma_entries_append_valid(problem@, entries@, param_entries(self@.parameters));
        }
        match opt_expr_resolve(problem, &self.expr, &en) {
            Some(Ok(e)) => Some(Ok(Function { id: self.id, name: self.name.clone(), parameters: copy_params(&self.parameters), typ: self.typ.copy(), expr: e, position: copy_pos(&self.position) })),
            Some(Err(er)) => Some(Err(er)),
            None => None,
        }
    }
}

impl Constraint {
    /// The constraint with the names of its expression resolved, or `None`
    /// where the expression asks an attribute or a method of a value that is
    /// neither of a structure nor of a class.
    pub fn resolve_expr_checked(&self, problem: &Problem, entries: &Entries) -> (r: Option<
        Result<Constraint, Error>,
    >)
        requires
            problem@.wf(),
            entries_valid(problem@, entries@),
            expr_valid(problem@, self@.expr),
        ensures
            opt_res_view(r) == cons_re(problem@, self@, entries@),
            r matches Some(Ok(x)) ==> expr_valid(problem@, x@.expr),
    {
        match self.expr.resolve_checked(problem, entries) {
            Some(Ok(e)) => Some(Ok(Constraint { id: self.id, name: self.name.clone(), expr: e, position: copy_pos(&self.position) })),
            Some(Err(er)) => Some(Err(er)),
            None => None,
        }
    }

    /// The constraint with the names of its expression resolved.
    pub fn resolve_expr(&self, problem: &Problem, entries: &Entries) -> (r: Result<Constraint, Error>)
        requires
            problem@.wf(),
            entries_valid(problem@, entries@),
            expr_valid(problem@, self@.expr),
            cons_re(problem@, self@, entries@) is Some,
        ensures
            Some(res_view(r)) == cons_re(problem@, self@, entries@),
    {
        self.resolve_expr_checked(problem, entries).unwrap()
    }
}

impl Search {
    /// What to search for, with the names of its objective resolved, or
    /// `None` where the objective asks an attribute or a method of a value
    /// that is neither of a structure nor of a class.
    pub fn resolve_expr_checked(&self, problem: &Problem, entries: &Entries) -> (r: Option<
        Result<Search, Error>,
    >)
        requires
            problem@.wf(),
            entries_valid(problem@, entries@),
            self@ matches SpecSearch::Optimize(e, _, _) ==> expr_valid(problem@, e),
        ensures
            opt_res_view(r) == search_re(problem@, self@, entries@),
            r matches Some(Ok(x)) ==> (x@ matches SpecSearch::Optimize(e, _, _) ==> expr_valid(problem@, e)),
    {
        match self {
            Search::Solve => Some(Ok(Search::Solve)),
            Search::Optimize(e, b, m) => match e.resolve_checked(problem, entries) {
                Some(Ok(x)) => Some(Ok(Search::Optimize(Box::new(x), *b, *m))),
                Some(Err(er)) => Some(Err(er)),
                None => None,
            },
        }
    }

    /// What to search for, with the names of its objective resolved.
    pub fn resolve_expr(&self, problem: &Problem, entries: &Entries) -> (r: Result<Search, Error>)
        requires
            problem@.wf(),
            entries_valid(problem@, entries@),
            self@ matches SpecSearch::Optimize(e, _, _) ==> expr_valid(problem@, e),
            search_re(problem@, self@, entries@) is Some,
        ensures
            Some(res_view(r)) == search_re(problem@, self@, entries@),
    {
        self.resolve_expr_checked(problem, entries).unwrap()
    }
}

/// The attributes with the names of their expressions resolved.
pub fn resolve_struct_attr_exprs(problem: &Problem, v: &Vec<Attribute<StructureId>>, entries: &Entries) -> (r: Option<Result<Vec<Attribute<StructureId>>, Error>>)
    requires
        problem@.wf(),
        entries_valid(problem@, entries@),
        forall|i: int| 0 <= i < v.len() ==> (#[trigger] attrs_view(v@)[i]).id.0.0 < problem@.structures.len() && opt_valid(problem@, (#[trigger] attrs_view(v@)[i]).expr),
    ensures
        match map_outcomes(attrs_view(v@), struct_attr_re_fn(problem@, entries@), v.len() as nat) {
            Some(Ok(x)) => r matches Some(Ok(w)) && attrs_view(w@) == x,
            Some(Err(e)) => r matches Some(Err(er)) && er@ == e,
            None => r is None,
        },
        r matches Some(Ok(w)) ==> forall|k: int| 0 <= k < w.len() ==> opt_valid(problem@, (#[trigger] attrs_view(w@)[k]).expr),
{
    let ghost p = problem@;
    let ghost s = attrs_view(v@);
    let mut w: Vec<Attribute<StructureId>> = Vec::new();
    let mut i: usize = 0;
    proof {
        assert(attrs_view(w@) =~= seq![]);
    }
    while i < v.len()
        invariant
            p == problem@,
            p.wf(),
            entries_valid(p, entries@),
            i <= v.len(),
            s == attrs_view(v@),
            forall|k: int| 0 <= k < v.len() ==> (#[trigger] s[k]).id.0.0 < p.structures.len() && opt_valid(p, (#[trigger] s[k]).expr),
            w.len() == i,
            forall|k: int| 0 <= k < w.len() ==> opt_valid(p, (#[trigger] attrs_view(w@)[k]).expr),
            map_outcomes(s, struct_attr_re_fn(problem@, entries@), i as nat) == Some(Ok::<Seq<SpecAttribute<StructureId>>, SpecError>(attrs_view(w@))),
        decreases v.len() - i,
    {
        proof {
            assert(s[i as int] == v@[i as int]@);
        }
        match v[i].resolve_expr_checked(problem, entries) {
            Some(Ok(x)) => {
                let ghost before = w@;
                w.push(x);
                proof {
                    assert(attrs_view(w@) =~= attrs_view(before).push(x@));
                }
            },
            Some(Err(e)) => {
                proof {
                    lemma_map_outcomes_stops(s, struct_attr_re_fn(problem@, entries@), (i + 1) as nat, v.len() as nat);
                }
                return Some(Err(e));
            },
            None => {
                proof {
                    lemma_map_outcomes_stops(s, struct_attr_re_fn(problem@, entries@), (i + 1) as nat, v.len() as nat);
                }
                return None;
            },
        }
        i += 1;
    }
    Some(Ok(w))
}

/// The attributes with the names of their expressions resolved.
pub fn resolve_class_attr_exprs(problem: &Problem, v: &Vec<Attribute<ClassId>>, entries: &Entries) -> (r: Option<Result<Vec<Attribute<ClassId>>, Error>>)
    requires
        problem@.wf(),
        entries_valid(problem@, entries@),
        forall|i: int| 0 <= i < v.len() ==> (#[trigger] attrs_view(v@)[i]).id.0.0 < problem@.classes.len() && opt_valid(problem@, (#[trigger] attrs_view(v@)[i]).expr),
    ensures
        match map_outcomes(attrs_view(v@), class_attr_re_fn(problem@, entries@), v.len() as nat) {
            Some(Ok(x)) => r matches Some(Ok(w)) && attrs_view(w@) == x,
            Some(Err(e)) => r matches Some(Err(er)) && er@ == e,
            None => r is None,
        },
        r matches Some(Ok(w)) ==> forall|k: int| 0 <= k < w.len() ==> opt_valid(problem@, (#[trigger] attrs_view(w@)[k]).expr),
{
    let ghost p = problem@;
    let ghost s = attrs_view(v@);
    let mut w: Vec<Attribute<ClassId>> = Vec::new();
    let mut i: usize = 0;
    proof {
        assert(attrs_view(w@) =~= seq![]);
    }
    while i < v.len()
        invariant
            p == problem@,
            p.wf(),
            entries_valid(p, entries@),
            i <= v.len(),
            s == attrs_view(v@),
            forall|k: int| 0 <= k < v.len() ==> (#[trigger] s[k]).id.0.0 < p.classes.len() && opt_valid(p, (#[trigger] s[k]).expr),
            w.len() == i,
            forall|k: int| 0 <= k < w.len() ==> opt_valid(p, (#[trigger] attrs_view(w@)[k]).expr),
            map_outcomes(s, class_attr_re_fn(problem@, entries@), i as nat) == Some(Ok::<Seq<SpecAttribute<ClassId>>, SpecError>(attrs_view(w@))),
        decreases v.len() - i,
    {
        proof {
            assert(s[i as int] == v@[i as int]@);
        }
        match v[i].resolve_expr_checked(problem, entries) {
            Some(Ok(x)) => {
                let ghost before = w@;
                w.push(x);
                proof {
                    assert(attrs_view(w@) =~= attrs_view(before).push(x@));
                }
            },
            Some(Err(e)) => {
                proof {
                    lemma_map_outcomes_stops(s, class_attr_re_fn(problem@, entries@), (i + 1) as nat, v.len() as nat);
                }
                return Some(Err(e));
            },
            None => {
                proof {
                    lemma_map_outcomes_stops(s, class_attr_re_fn(problem@, entries@), (i + 1) as nat, v.len() as nat);
                }
                return None;
            },
        }
        i += 1;
    }
    Some(Ok(w))
}

/// The methods with the names of their expressions resolved.
pub fn resolve_struct_meth_exprs(problem: &Problem, v: &Vec<Method<StructureId>>, entries: &Entries) -> (r: Option<Result<Vec<Method<StructureId>>, Error>>)
    requires
        problem@.wf(),
        entries_valid(problem@, entries@),
        forall|i: int| 0 <= i < v.len() ==> (#[trigger] meths_view(v@)[i]).id.0.0 < problem@.structures.len() && params_valid(problem@, (#[trigger] meths_view(v@)[i]).parameters) && opt_valid(problem@, (#[trigger] meths_view(v@)[i]).expr),
    ensures
        match map_outcomes(meths_view(v@), struct_meth_re_fn(problem@, entries@), v.len() as nat) {
            Some(Ok(x)) => r matches Some(Ok(w)) && meths_view(w@) == x,
            Some(Err(e)) => r matches Some(Err(er)) && er@ == e,
            None => r is None,
        },
        r matches Some(Ok(w)) ==> forall|k: int| 0 <= k < w.len() ==> opt_valid(problem@, (#[trigger] meths_view(w@)[k]).expr),
{
    let ghost p = problem@;
    let ghost s = meths_view(v@);
    let mut w: Vec<Method<StructureId>> = Vec::new();
    let mut i: usize = 0;
    proof {
        assert(meths_view(w@) =~= seq![]);
    }
    while i < v.len()
        invariant
            p == problem@,
            p.wf(),
            entries_valid(p, entries@),
            i <= v.len(),
            s == meths_view(v@),
            forall|k: int| 0 <= k < v.len() ==> (#[trigger] s[k]).id.0.0 < p.structures.len() && params_valid(p, (#[trigger] s[k]).parameters) && opt_valid(p, (#[trigger] s[k]).expr),
            w.len() == i,
            forall|k: int| 0 <= k < w.len() ==> opt_valid(p, (#[trigger] meths_view(w@)[k]).expr),
            map_outcomes(s, struct_meth_re_fn(problem@, entries@), i as nat) == Some(Ok::<Seq<SpecMethod<StructureId>>, SpecError>(meths_view(w@))),
        decreases v.len() - i,
    {
        proof {
            assert(s[i as int] == v@[i as int]@);
        }
        match v[i].resolve_expr_checked(problem, entries) {
            Some(Ok(x)) => {
                let ghost before = w@;
                w.push(x);
                proof {
                    assert(meths_view(w@) =~= meths_view(before).push(x@));
                }
            },
            Some(Err(e)) => {
                proof {
                    lemma_map_outcomes_stops(s, struct_meth_re_fn(problem@, entries@), (i + 1) as nat, v.len() as nat);
                }
                return Some(Err(e));
            },
            None => {
                proof {
                    lemma_map_outcomes_stops(s, struct_meth_re_fn(problem@, entries@), (i + 1) as nat, v.len() as nat);
                }
                return None;
            },
        }
        i += 1;
    }
    Some(Ok(w))
}

/// The methods with the names of their expressions resolved.
pub fn resolve_class_meth_exprs(problem: &Problem, v: &Vec<Method<ClassId>>, entries: &Entries) -> (r: Option<Result<Vec<Method<ClassId>>, Error>>)
    requires
        problem@.wf(),
        entries_valid(problem@, entries@),
        forall|i: int| 0 <= i < v.len() ==> (#[trigger] meths_view(v@)[i]).id.0.0 < problem@.classes.len() && params_valid(problem@, (#[trigger] meths_view(v@)[i]).parameters) && opt_valid(problem@, (#[trigger] meths_view(v@)[i]).expr),
    ensures
        match map_outcomes(meths_view(v@), class_meth_re_fn(problem@, entries@), v.len() as nat) {
            Some(Ok(x)) => r matches Some(Ok(w)) && meths_view(w@) == x,
            Some(Err(e)) => r matches Some(Err(er)) && er@ == e,
            None => r is None,
        },
        r matches Some(Ok(w)) ==> forall|k: int| 0 <= k < w.len() ==> opt_valid(problem@, (#[trigger] meths_view(w@)[k]).expr),
{
    let ghost p = problem@;
    let ghost s = meths_view(v@);
    let mut w: Vec<Method<ClassId>> = Vec::new();
    let mut i: usize = 0;
    proof {
        assert(meths_view(w@) =~= seq![]);
    }
    while i < v.len()
        invariant
            p == problem@,
            p.wf(),
            entries_valid(p, entries@),
            i <= v.len(),
            s == meths_view(v@),
            forall|k: int| 0 <= k < v.len() ==> (#[trigger] s[k]).id.0.0 < p.classes.len() && params_valid(p, (#[trigger] s[k]).parameters) && opt_valid(p, (#[trigger] s[k]).expr),
            w.len() == i,
            forall|k: int| 0 <= k < w.len() ==> opt_valid(p, (#[trigger] meths_view(w@)[k]).expr),
            map_outcomes(s, class_meth_re_fn(problem@, entries@), i as nat) == Some(Ok::<Seq<SpecMethod<ClassId>>, SpecError>(meths_view(w@))),
        decreases v.len() - i,
    {
        proof {
            assert(s[i as int] == v@[i as int]@);
        }
        match v[i].resolve_expr_checked(problem, entries) {
            Some(Ok(x)) => {
                let ghost before = w@;
                w.push(x);
                proof {
                    assert(meths_view(w@) =~= meths_view(before).push(x@));
                }
            },
            Some(Err(e)) => {
                proof {
                    lemma_map_outcomes_stops(s, class_meth_re_fn(problem@, entries@), (i + 1) as nat, v.len() as nat);
                }
                return Some(Err(e));
            },
            None => {
                proof {
                    lemma_map_outcomes_stops(s, class_meth_re_fn(problem@, entries@), (i + 1) as nat, v.len() as nat);
                }
                return None;
            },
        }
        i += 1;
    }
    Some(Ok(w))
}

/// What the names of the expressions of a structure need to be resolved.
pub open spec fn struct_resolvable(p: SpecProblem, s: SpecStructure) -> bool {
    &&& forall|j: int| 0 <= j < s.attributes.len() ==> (#[trigger] s.attributes[j]).id.0.0 < p.structures.len() && opt_valid(p, s.attributes[j].expr)
    &&& forall|j: int| 0 <= j < s.methods.len() ==> (#[trigger] s.methods[j]).id.0.0 < p.structures.len() && params_valid(p, s.methods[j].parameters) && opt_valid(p, s.methods[j].expr)
}

/// The expressions of the structure are valid.
pub open spec fn struct_exprs_valid(p: SpecProblem, s: SpecStructure) -> bool {
    &&& forall|j: int| 0 <= j < s.attributes.len() ==> opt_valid(p, (#[trigger] s.attributes[j]).expr)
    &&& forall|j: int| 0 <= j < s.methods.len() ==> opt_valid(p, (#[trigger] s.methods[j]).expr)
}

/// What the names of the expressions of a class need to be resolved.
pub open spec fn class_resolvable(p: SpecProblem, c: SpecClass) -> bool {
    &&& forall|j: int| 0 <= j < c.attributes.len() ==> (#[trigger] c.attributes[j]).id.0.0 < p.classes.len() && opt_valid(p, c.attributes[j].expr)
    &&& forall|j: int| 0 <= j < c.methods.len() ==> (#[trigger] c.methods[j]).id.0.0 < p.classes.len() && params_valid(p, c.methods[j].parameters) && opt_valid(p, c.methods[j].expr)
}

/// The expressions of the class are valid.
pub open spec fn class_exprs_valid(p: SpecProblem, c: SpecClass) -> bool {
    &&& forall|j: int| 0 <= j < c.attributes.len() ==> opt_valid(p, (#[trigger] c.attributes[j]).expr)
    &&& forall|j: int| 0 <= j < c.methods.len() ==> opt_valid(p, (#[trigger] c.methods[j]).expr)
}

impl Structure {
    /// The structure with the names of the expressions of its attributes,
    /// then of its methods, resolved, or `None` where one of them asks an
    /// attribute or a method of a value that is neither of a structure nor of
    /// a class.
    pub fn resolve_expr_checked(&self, problem: &Problem, entries: &Entries) -> (r: Option<
        Result<Structure, Error>,
    >)
        requires
            problem@.wf(),
            entries_valid(problem@, entries@),
            struct_resolvable(problem@, self@),
        ensures
            opt_res_view(r) == struct_re(problem@, self@, entries@),
            r matches Some(Ok(x)) ==> struct_exprs_valid(problem@, x@),
    {
        let a = match resolve_struct_attr_exprs(problem, &self.attributes, entries) {
            Some(Ok(a)) => a,
            Some(Err(e)) => return Some(Err(e)),
            None => return None,
        };
        let m = match resolve_struct_meth_exprs(problem, &self.methods, entries) {
            Some(Ok(m)) => m,
            Some(Err(e)) => return Some(Err(e)),
            None => return None,
        };
        Some(Ok(Structure { id: self.id, name: self.name.clone(), typ: self.typ.copy(), attributes: a, methods: m, position: copy_pos(&self.position) }))
    }

    /// The structure with the names of its expressions resolved.
    pub fn resolve_expr(&self, problem: &Problem, entries: &Entries) -> (r: Result<Structure, Error>)
        requires
            problem@.wf(),
            entries_valid(problem@, entries@),
            struct_resolvable(problem@, self@),
            struct_re(problem@, self@, entries@) is Some,
        ensures
            Some(res_view(r)) == struct_re(problem@, self@, entries@),
    {
        self.resolve_expr_checked(problem, entries).unwrap()
    }
}

impl Class {
    /// The class with the names of the expressions of its attributes, then of
    /// its methods, resolved, or `None` where one of them asks an attribute or
    /// a method of a value that is neither of a structure nor of a class.
    pub fn resolve_expr_checked(&self, problem: &Problem, entries: &Entries) -> (r: Option<
        Result<Class, Error>,
    >)
        requires
            problem@.wf(),
            entries_valid(problem@, entries@),
            class_resolvable(problem@, self@),
        ensures
            opt_res_view(r) == class_re(problem@, self@, entries@),
            r matches Some(Ok(x)) ==> class_exprs_valid(problem@, x@),
    {
        let a = match resolve_class_attr_exprs(problem, &self.attributes, entries) {
            Some(Ok(a)) => a,
            Some(Err(e)) => return Some(Err(e)),
            None => return None,
        };
        let m = match resolve_class_meth_exprs(problem, &self.methods, entries) {
            Some(Ok(m)) => m,
            Some(Err(e)) => return Some(Err(e)),
            None => return None,
        };
        Some(Ok(Class { id: self.id, name: self.name.clone(), typ: self.typ.copy(), extends: copy_opt_type(&self.extends), attributes: a, methods: m, position: copy_pos(&self.position) }))
    }

    /// The class with the names of its expressions resolved.
    pub fn resolve_expr(&self, problem: &Problem, entries: &Entries) -> (r: Result<Class, Error>)
        requires
            problem@.wf(),
            entries_valid(problem@, entries@),
            class_resolvable(problem@, self@),
            class_re(problem@, self@, entries@) is Some,
        ensures
            Some(res_view(r)) == class_re(problem@, self@, entries@),
    {
        self.resolve_expr_checked(problem, entries).unwrap()
    }
}

/// The structures with the names of their expressions resolved.
pub fn resolve_structure_exprs(problem: &Problem, v: &Vec<Structure>, entries: &Entries) -> (r: Option<Result<Vec<Structure>, Error>>)
    requires
        problem@.wf(),
        entries_valid(problem@, entries@),
        forall|i: int| 0 <= i < v.len() ==> struct_resolvable(problem@, (#[trigger] structures_view(v@)[i])),
    ensures
        match map_outcomes(structures_view(v@), struct_re_fn(problem@, entries@), v.len() as nat) {
            Some(Ok(x)) => r matches Some(Ok(w)) && structures_view(w@) == x,
            Some(Err(e)) => r matches Some(Err(er)) && er@ == e,
            None => r is None,
        },
        r matches Some(Ok(w)) ==> forall|k: int| 0 <= k < w.len() ==> struct_exprs_valid(problem@, (#[trigger] structures_view(w@)[k])),
{
    let ghost p = problem@;
    let ghost s = structures_view(v@);
    let mut w: Vec<Structure> = Vec::new();
    let mut i: usize = 0;
    proof {
        assert(structures_view(w@) =~= seq![]);
    }
    while i < v.len()
        invariant
            p == problem@,
            p.wf(),
            entries_valid(p, entries@),
            i <= v.len(),
            s == structures_view(v@),
            forall|k: int| 0 <= k < v.len() ==> struct_resolvable(p, (#[trigger] s[k])),
            w.len() == i,
            forall|k: int| 0 <= k < w.len() ==> struct_exprs_valid(p, (#[trigger] structures_view(w@)[k])),
            map_outcomes(s, struct_re_fn(problem@, entries@), i as nat) == Some(Ok::<Seq<SpecStructure>, SpecError>(structures_view(w@))),
        decreases v.len() - i,
    {
        proof {
            assert(s[i as int] == v@[i as int]@);
        }
        match v[i].resolve_expr_checked(problem, entries) {
            Some(Ok(x)) => {
                let ghost before = w@;
                w.push(x);
                proof {
                    assert(structures_view(w@) =~= structures_view(before).push(x@));
                }
            },
            Some(Err(e)) => {
                proof {
                    lemma_map_outcomes_stops(s, struct_re_fn(problem@, entries@), (i + 1) as nat, v.len() as nat);
                }
                return Some(Err(e));
            },
            None => {
                proof {
                    lemma_map_outcomes_stops(s, struct_re_fn(problem@, entries@), (i + 1) as nat, v.len() as nat);
                }
                return None;
            },
        }
        i += 1;
    }
    Some(Ok(w))
}

/// The classes with the names of their expressions resolved.
pub fn resolve_class_exprs(problem: &Problem, v: &Vec<Class>, entries: &Entries) -> (r: Option<Result<Vec<Class>, Error>>)
    requires
        problem@.wf(),
        entries_valid(problem@, entries@),
        forall|i: int| 0 <= i < v.len() ==> class_resolvable(problem@, (#[trigger] classes_view(v@)[i])),
    ensures
        match map_outcomes(classes_view(v@), class_re_fn(problem@, entries@), v.len() as nat) {
            Some(Ok(x)) => r matches Some(Ok(w)) && classes_view(w@) == x,
            Some(Err(e)) => r matches Some(Err(er)) && er@ == e,
            None => r is None,
        },
        r matches Some(Ok(w)) ==> forall|k: int| 0 <= k < w.len() ==> class_exprs_valid(problem@, (#[trigger] classes_view(w@)[k])),
{
    let ghost p = problem@;
    let ghost s = classes_view(v@);
    let mut w: Vec<Class> = Vec::new();
    let mut i: usize = 0;
    proof {
        assert(classes_view(w@) =~= seq![]);
    }
    while i < v.len()
        invariant
            p == problem@,
            p.wf(),
            entries_valid(p, entries@),
            i <= v.len(),
            s == classes_view(v@),
            forall|k: int| 0 <= k < v.len() ==> class_resolvable(p, (#[trigger] s[k])),
            w.len() == i,
            forall|k: int| 0 <= k < w.len() ==> class_exprs_valid(p, (#[trigger] classes_view(w@)[k])),
            map_outcomes(s, class_re_fn(problem@, entries@), i as nat) == Some(Ok::<Seq<SpecClass>, SpecError>(classes_view(w@))),
        decreases v.len() - i,
    {
        proof {
            assert(s[i as int] == v@[i as int]@);
        }
        match v[i].resolve_expr_checked(problem, entries) {
            Some(Ok(x)) => {
                let ghost before = w@;
                w.push(x);
                proof {
                    assert(classes_view(w@) =~= classes_view(before).push(x@));
                }
            },
            Some(Err(e)) => {
                proof {
                    lemma_map_outcomes_stops(s, class_re_fn(problem@, entries@), (i + 1) as nat, v.len() as nat);
                }
                return Some(Err(e));
            },
            None => {
                proof {
                    lemma_map_outcomes_stops(s, class_re_fn(problem@, entries@), (i + 1) as nat, v.len() as nat);
                }
                return None;
            },
        }
        i += 1;
    }
    Some(Ok(w))
}

/// The variables with the names of their expressions resolved.
pub fn resolve_variable_exprs(problem: &Problem, v: &Vec<Variable>, entries: &Entries) -> (r: Option<Result<Vec<Variable>, Error>>)
    requires
        problem@.wf(),
        entries_valid(problem@, entries@),
        forall|i: int| 0 <= i < v.len() ==> opt_valid(problem@, (#[trigger] variables_view(v@)[i]).expr),
    ensures
        match map_outcomes(variables_view(v@), var_re_fn(problem@, entries@), v.len() as nat) {
            Some(Ok(x)) => r matches Some(Ok(w)) && variables_view(w@) == x,
            Some(Err(e)) => r matches Some(Err(er)) && er@ == e,
            None => r is None,
        },
        r matches Some(Ok(w)) ==> forall|k: int| 0 <= k < w.len() ==> opt_valid(problem@, (#[trigger] variables_view(w@)[k]).expr),
{
    let ghost p = problem@;
    let ghost s = variables_view(v@);
    let mut w: Vec<Variable> = Vec::new();
    let mut i: usize = 0;
    proof {
        assert(variables_view(w@) =~= seq![]);
    }
    while i < v.len()
        invariant
            p == problem@,
            p.wf(),
            entries_valid(p, entries@),
            i <= v.len(),
            s == variables_view(v@),
            forall|k: int| 0 <= k < v.len() ==> opt_valid(p, (#[trigger] s[k]).expr),
            w.len() == i,
            forall|k: int| 0 <= k < w.len() ==> opt_valid(p, (#[trigger] variables_view(w@)[k]).expr),
            map_outcomes(s, var_re_fn(problem@, entries@), i as nat) == Some(Ok::<Seq<SpecVariable>, SpecError>(variables_view(w@))),
        decreases v.len() - i,
    {
        proof {
            assert(s[i as int] == v@[i as int]@);
        }
        match v[i].resolve_expr_checked(problem, entries) {
            Some(Ok(x)) => {
                let ghost before = w@;
                w.push(x);
                proof {
                    assert(variables_view(w@) =~= variables_view(before).push(x@));
                }
            },
            Some(Err(e)) => {
                proof {
                    lemma_map_outcomes_stops(s, var_re_fn(problem@, entries@), (i + 1) as nat, v.len() as nat);
                }
                return Some(Err(e));
            },
            None => {
                proof {
                    lemma_map_outcomes_stops(s, var_re_fn(problem@, entries@), (i + 1) as nat, v.len() as nat);
                }
                return None;
            },
        }
        i += 1;
    }
    Some(Ok(w))
}

/// The functions with the names of their expressions resolved.
pub fn resolve_function_exprs(problem: &Problem, v: &Vec<Function>, entries: &Entries) -> (r: Option<Result<Vec<Function>, Error>>)
    requires
        problem@.wf(),
        entries_valid(problem@, entries@),
        forall|i: int| 0 <= i < v.len() ==> params_valid(problem@, (#[trigger] functions_view(v@)[i]).parameters) && opt_valid(problem@, (#[trigger] functions_view(v@)[i]).expr),
    ensures
        match map_outcomes(functions_view(v@), func_re_fn(problem@, entries@), v.len() as nat) {
            Some(Ok(x)) => r matches Some(Ok(w)) && functions_view(w@) == x,
            Some(Err(e)) => r matches Some(Err(er)) && er@ == e,
            None => r is None,
        },
        r matches Some(Ok(w)) ==> forall|k: int| 0 <= k < w.len() ==> opt_valid(problem@, (#[trigger] functions_view(w@)[k]).expr),
{
    let ghost p = problem@;
    let ghost s = functions_view(v@);
    let mut w: Vec<Function> = Vec::new();
    let mut i: usize = 0;
    proof {
        assert(functions_view(w@) =~= seq![]);
    }
    while i < v.len()
        invariant
            p == problem@,
            p.wf(),
            entries_valid(p, entries@),
            i <= v.len(),
            s == functions_view(v@),
            forall|k: int| 0 <= k < v.len() ==> params_valid(p, (#[trigger] s[k]).parameters) && opt_valid(p, (#[trigger] s[k]).expr),
            w.len() == i,
            forall|k: int| 0 <= k < w.len() ==> opt_valid(p, (#[trigger] functions_view(w@)[k]).expr),
            map_outcomes(s, func_re_fn(problem@, entries@), i as nat) == Some(Ok::<Seq<SpecFunction>, SpecError>(functions_view(w@))),
        decreases v.len() - i,
    {
        proof {
            assert(s[i as int] == v@[i as int]@);
        }
        match v[i].resolve_expr_checked(problem, entries) {
            Some(Ok(x)) => {
                let ghost before = w@;
                w.push(x);
                proof {
                    assert(functions_view(w@) =~= functions_view(before).push(x@));
                }
            },
            Some(Err(e)) => {
                proof {
                    lemma_map_outcomes_stops(s, func_re_fn(problem@, entries@), (i + 1) as nat, v.len() as nat);
                }
                return Some(Err(e));
            },
            None => {
                proof {
                    lemma_map_outcomes_stops(s, func_re_fn(problem@, entries@), (i + 1) as nat, v.len() as nat);
                }
                return None;
            },
        }
        i += 1;
    }
    Some(Ok(w))
}

/// The constraints with the names of their expressions resolved.
pub fn resolve_constraint_exprs(problem: &Problem, v: &Vec<Constraint>, entries: &Entries) -> (r: Option<Result<Vec<Constraint>, Error>>)
    requires
        problem@.wf(),
        entries_valid(problem@, entries@),
        forall|i: int| 0 <= i < v.len() ==> expr_valid(problem@, (#[trigger] constraints_view(v@)[i]).expr),
    ensures
        match map_outcomes(constraints_view(v@), cons_re_fn(problem@, entries@), v.len() as nat) {
            Some(Ok(x)) => r matches Some(Ok(w)) && constraints_view(w@) == x,
            Some(Err(e)) => r matches Some(Err(er)) && er@ == e,
            None => r is None,
        },
        r matches Some(Ok(w)) ==> forall|k: int| 0 <= k < w.len() ==> expr_valid(problem@, (#[trigger] constraints_view(w@)[k]).expr),
{
    let ghost p = problem@;
    let ghost s = constraints_view(v@);
    let mut w: Vec<Constraint> = Vec::new();
    let mut i: usize = 0;
    proof {
        assert(constraints_view(w@) =~= seq![]);
    }
    while i < v.len()
        invariant
            p == problem@,
            p.wf(),
            entries_valid(p, entries@),
            i <= v.len(),
            s == constraints_view(v@),
            forall|k: int| 0 <= k < v.len() ==> expr_valid(p, (#[trigger] s[k]).expr),
            w.len() == i,
            forall|k: int| 0 <= k < w.len() ==> expr_valid(p, (#[trigger] constraints_view(w@)[k]).expr),
            map_outcomes(s, cons_re_fn(problem@, entries@), i as nat) == Some(Ok::<Seq<SpecConstraint>, SpecError>(constraints_view(w@))),
        decreases v.len() - i,
    {
        proof {
            assert(s[i as int] == v@[i as int]@);
        }
        match v[i].resolve_expr_checked(problem, entries) {
            Some(Ok(x)) => {
                let ghost before = w@;
                w.push(x);
                proof {
                    assert(constraints_view(w@) =~= constraints_view(before).push(x@));
                }
            },
            Some(Err(e)) => {
                proof {
                    lemma_map_outcomes_stops(s, cons_re_fn(problem@, entries@), (i + 1) as nat, v.len() as nat);
                }
                return Some(Err(e));
            },
            None => {
                proof {
                    lemma_map_outcomes_stops(s, cons_re_fn(problem@, entries@), (i + 1) as nat, v.len() as nat);
                }
                return None;
            },
        }
        i += 1;
    }
    Some(Ok(w))
}

impl Problem {
    /// The names that the expressions of the problem may use: its instances,
    /// then its variables.
    pub fn entries(&self) -> (r: Entries)
        ensures
            r@ == spec_problem_entries(self@),
    {
        let ghost p = self@;
        let mut v: Vec<Entry> = Vec::new();
        let mut i: usize = 0;
        while i < self.instances.len()
            invariant
                p == self@,
                i <= self.instances.len(),
                v@.map_values(|e: Entry| e@) == p.instances.take(i as int).map_values(
                    |x: SpecInstance| SpecEntry { name: x.name, typ: SpecEntryType::Instance(x.id) },
                ),
            decreases self.instances.len() - i,
        {
            let ghost before = v@;
            v.push(Entry::new(self.instances[i].name.clone(), EntryType::Instance(self.instances[i].id)));
            proof {
                assert(p.instances.take(i + 1) =~= p.instances.take(i as int).push(p.instances[i as int]));
                assert(v@.map_values(|e: Entry| e@) =~= before.map_values(|e: Entry| e@).push(v@[i as int]@));
                assert(p.instances.take(i + 1).map_values(
                    |x: SpecInstance| SpecEntry { name: x.name, typ: SpecEntryType::Instance(x.id) },
                ) =~= p.instances.take(i as int).map_values(
                    |x: SpecInstance| SpecEntry { name: x.name, typ: SpecEntryType::Instance(x.id) },
                ).push(SpecEntry { name: p.instances[i as int].name, typ: SpecEntryType::Instance(p.instances[i as int].id) }));
            }
            i += 1;
        }
        let ghost first = v@.map_values(|e: Entry| e@);
        proof {
            assert(p.instances.take(self.instances.len() as int) =~= p.instances);
        }
        let mut j: usize = 0;
        while j < self.variables.len()
            invariant
                p == self@,
                j <= self.variables.len(),
                first == p.instances.map_values(
                    |x: SpecInstance| SpecEntry { name: x.name, typ: SpecEntryType::Instance(x.id) },
                ),
                v@.map_values(|e: Entry| e@) == first + p.variables.take(j as int).map_values(
                    |x: SpecVariable| SpecEntry { name: x.name, typ: SpecEntryType::Variable(x.id) },
                ),
            decreases self.variables.len() - j,
        {
            let ghost before = v@;
            v.push(Entry::new(self.variables[j].name.clone(), EntryType::Variable(self.variables[j].id)));
            proof {
                assert(p.variables.take(j + 1) =~= p.variables.take(j as int).push(p.variables[j as int]));
                assert(v@.map_values(|e: Entry| e@) =~= before.map_values(|e: Entry| e@).push(v@[before.len() as int]@));
                assert(p.variables.take(j + 1).map_values(
                    |x: SpecVariable| SpecEntry { name: x.name, typ: SpecEntryType::Variable(x.id) },
                ) =~= p.variables.take(j as int).map_values(
                    |x: SpecVariable| SpecEntry { name: x.name, typ: SpecEntryType::Variable(x.id) },
                ).push(SpecEntry { name: p.variables[j as int].name, typ: SpecEntryType::Variable(p.variables[j as int].id) }));
            }
            j += 1;
        }
        proof {
            assert(p.variables.take(self.variables.len() as int) =~= p.variables);
        }
        Entries::new(v)
    }

    /// Resolves the names of the expressions of the problem: those of the
    /// structures, classes, variables, functions, constraints and of what to
    /// search for. `None` where one of them asks an attribute or a method of
    /// a value that is neither of a structure nor of a class. The problem
    /// changes only where the whole resolution goes through.
    pub fn resolve_expr_checked(&mut self) -> (r: Option<Result<(), Error>>)
        requires
            old(self)@.wf(),
            old(self)@.exprs_wf(),
        ensures
            match spec_problem_resolve_expr(old(self)@) {
                Some(Ok(p)) => r matches Some(Ok(_)) && final(self)@ == p,
                Some(Err(e)) => r matches Some(Err(er)) && er@ == e && final(self)@ == old(self)@,
                None => r is None && final(self)@ == old(self)@,
            },
    {
        let ghost p = self@;
        let en = self.entries();
        proof {
            let e = spec_problem_entries(p);
            assert forall|i: int| 0 <= i < e.len() implies #[trigger] entry_valid(p, e[i]) by {
                if i < p.instances.len() {
                    assert(p.instances[i].id == InstanceId(i as usize));
                } else {
                    let k = i - p.instances.len();
                    assert(p.variables[k].id == VariableId(k as usize));
                }
            }
            assert forall|i: int| 0 <= i < p.structures.len() implies struct_resolvable(p, #[trigger] p.structures[i]) by {
                let s = p.structures[i];
                assert forall|j: int| 0 <= j < s.attributes.len() implies (#[trigger] s.attributes[j]).id.0.0 < p.structures.len() && opt_valid(p, s.attributes[j].expr) by {
                    assert(s.attributes[j] == p.structures[i].attributes[j]);
                }
                assert forall|j: int| 0 <= j < s.methods.len() implies (#[trigger] s.methods[j]).id.0.0 < p.structures.len() && params_valid(p, s.methods[j].parameters) && opt_valid(p, s.methods[j].expr) by {
                    assert(s.methods[j] == p.structures[i].methods[j]);
                }
            }
            assert forall|i: int| 0 <= i < p.classes.len() implies class_resolvable(p, #[trigger] p.classes[i]) by {
                let c = p.classes[i];
                assert forall|j: int| 0 <= j < c.attributes.len() implies (#[trigger] c.attributes[j]).id.0.0 < p.classes.len() && opt_valid(p, c.attributes[j].expr) by {
                    assert(c.attributes[j] == p.classes[i].attributes[j]);
                }
                assert forall|j: int| 0 <= j < c.methods.len() implies (#[trigger] c.methods[j]).id.0.0 < p.classes.len() && params_valid(p, c.methods[j].parameters) && opt_valid(p, c.methods[j].expr) by {
                    assert(c.methods[j] == p.classes[i].methods[j]);
                }
            }
            assert forall|i: int| 0 <= i < p.functions.len() implies params_valid(p, (#[trigger] p.functions[i]).parameters) && opt_valid(p, p.functions[i].expr) by {
                assert(params_valid(p, p.functions[i].parameters));
            }
        }
        let s = match resolve_structure_exprs(self, &self.structures, &en) {
            Some(Ok(x)) => x,
            Some(Err(e)) => return Some(Err(e)),
            None => return None,
        };
        let c = match resolve_class_exprs(self, &self.classes, &en) {
            Some(Ok(x)) => x,
            Some(Err(e)) => return Some(Err(e)),
            None => return None,
        };
        let v = match resolve_variable_exprs(self, &self.variables, &en) {
            Some(Ok(x)) => x,
            Some(Err(e)) => return Some(Err(e)),
            None => return None,
        };
        let f = match resolve_function_exprs(self, &self.functions, &en) {
            Some(Ok(x)) => x,
            Some(Err(e)) => return Some(Err(e)),
            None => return None,
        };
        let k = match resolve_constraint_exprs(self, &self.constraints, &en) {
            Some(Ok(x)) => x,
            Some(Err(e)) => return Some(Err(e)),
            None => return None,
        };
        let sr = match self.search.resolve_expr_checked(self, &en) {
            Some(Ok(x)) => x,
            Some(Err(e)) => return Some(Err(e)),
            None => return None,
        };
        self.structures = s;
        self.classes = c;
        self.variables = v;
        self.functions = f;
        self.constraints = k;
        self.search = sr;
        Some(Ok(()))
    }

    /// Resolves the names of the expressions of the problem: those of the
    /// structures, classes, variables, functions, constraints and of what to
    /// search for. The problem changes only where the whole resolution goes
    /// through.
    pub fn resolve_expr(&mut self) -> (r: Result<(), Error>)
        requires
            old(self)@.wf(),
            old(self)@.exprs_wf(),
            spec_problem_resolve_expr(old(self)@) is Some,
        ensures
            spec_problem_resolve_expr(old(self)@) matches Some(Ok(p)) ==> r is Ok && final(self)@
                == p,
            spec_problem_resolve_expr(old(self)@) matches Some(Err(e)) ==> r matches Err(er) && er@
                == e && final(self)@ == old(self)@,
    {
        self.resolve_expr_checked().unwrap()
    }
}

} // verus!
