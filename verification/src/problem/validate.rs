//! Checks, at run time, of the shape that each pass over a problem needs:
//! identifiers in their places, types that refer to declarations, valid
//! and resolved expressions.

use crate::problem::attribute::Attribute;
use crate::problem::attribute::attrs_view;
use crate::problem::class::Class;
use crate::problem::class::spec_super_class;
use crate::problem::constraint::Constraint;
use crate::problem::decl_checks::class_has_params;
use crate::problem::decl_checks::meth_has_params;
use crate::problem::decl_checks::struct_has_params;
use crate::problem::expr_checks::expr_ready;
use crate::problem::expr_checks::opt_ready;
use crate::problem::expression::every::NodeCheck;
use crate::problem::expression::every::every;
use crate::problem::expression::every::every_list;
use crate::problem::expression::every::every_pairs;
use crate::problem::expression::every::lemma_every_list;
use crate::problem::expression::every::lemma_every_pairs;
use crate::problem::expression::every::node_ok;
use crate::problem::expression::expr::Expr;
use crate::problem::expression::expr::exprs_view;
use crate::problem::expression::expr::lemma_exprs_view;
use crate::problem::expression::expr::lemma_pairs_view;
use crate::problem::expression::expr::pairs_view;
use crate::problem::function::Function;
use crate::problem::ids::AttributeId;
use crate::problem::ids::ClassId;
use crate::problem::ids::ConstraintId;
use crate::problem::ids::FunctionId;
use crate::problem::ids::Id;
use crate::problem::ids::InstanceId;
use crate::problem::ids::MethodId;
use crate::problem::ids::StructureId;
use crate::problem::ids::VariableId;
use crate::problem::instance::Instance;
use crate::problem::method::Method;
use crate::problem::method::meths_view;
use crate::problem::parameter::Parameter;
use crate::problem::parameter::params_view;
use crate::problem::problem::Problem;
use crate::problem::relations::type_valid;
use crate::problem::resolve_exprs::opt_valid;
use crate::problem::resolve_types::attr_defined;
use crate::problem::resolve_types::meth_defined;
use crate::problem::resolve_types::opt_defined;
use crate::problem::resolve_types::params_defined;
use crate::problem::search::Search;
use crate::problem::structure::Structure;
use crate::problem::typing::SpecType;
use crate::problem::typing::Type;
use crate::problem::valid::expr_valid;
use crate::problem::valid::exprs_valid;
use crate::problem::valid::lemma_exprs_valid;
use crate::problem::valid::lemma_pairs_valid;
use crate::problem::valid::pairs_valid;
use crate::problem::valid::params_valid;
use crate::problem::variable::Variable;
use crate::problem::variable::opt_expr;
use vstd::prelude::*;

verus! {

/// Whether a type refers to declarations of the problem.
pub fn type_ok(problem: &Problem, t: &Type) -> (r: bool)
    ensures
        r == type_valid(problem@, t@),
{
    match t {
        Type::Structure(id) => id.0 < problem.structures().len(),
        Type::Class(id) => id.0 < problem.classes().len(),
        _ => true,
    }
}

/// Whether the types of the parameters refer to declarations of the
/// problem.
pub fn params_ok(problem: &Problem, ps: &Vec<Parameter>) -> (r: bool)
    ensures
        r == params_valid(problem@, params_view(ps@)),
{
    let ghost pv = params_view(ps@);
    let mut i: usize = 0;
    while i < ps.len()
        invariant
            pv == params_view(ps@),
            i <= ps.len(),
            forall|k: int| 0 <= k < i ==> #[trigger] type_valid(problem@, pv[k].typ),
        decreases ps.len() - i,
    {
        proof {
            assert(pv[i as int] == ps@[i as int]@);
        }
        if !type_ok(problem, ps[i].typ()) {
            assert(!type_valid(problem@, pv[i as int].typ));
            return false;
        }
        i += 1;
    }
    true
}

/// Whether no parameter has the type `Undefined`.
pub fn params_defined_ok(ps: &Vec<Parameter>) -> (r: bool)
    ensures
        r == params_defined(params_view(ps@)),
{
    let ghost pv = params_view(ps@);
    let mut i: usize = 0;
    while i < ps.len()
        invariant
            pv == params_view(ps@),
            i <= ps.len(),
            forall|k: int| 0 <= k < i ==> !(#[trigger] pv[k].typ is Undefined),
        decreases ps.len() - i,
    {
        proof {
            assert(pv[i as int] == ps@[i as int]@);
        }
        if ps[i].typ().is_undefined() {
            assert(pv[i as int].typ is Undefined);
            return false;
        }
        i += 1;
    }
    true
}

/// Whether every identifier of the expression names a declaration of the
/// problem and every type in it refers to one.
pub fn expr_ok(problem: &Problem, e: &Expr) -> (r: bool)
    ensures
        r == expr_valid(problem@, e@),
    decreases e,
{
    let ghost p = problem@;
    match e {
        Expr::Unary(_, x, _) => expr_ok(problem, x),
        Expr::Binary(l, _, r, _) => expr_ok(problem, l) && expr_ok(problem, r),
        Expr::Variable(id, _) => id.0 < problem.variables().len(),
        Expr::Parameter(x) => type_ok(problem, x.typ()),
        Expr::FunctionCall(id, a, _) => id.0 < problem.functions().len() && exprs_ok(problem, a),
        Expr::Instance(id, _) => id.0 < problem.instances().len(),
        Expr::StrucSelf(id, _) => id.0 < problem.structures().len(),
        Expr::StrucAttribute(x, id, _) => struct_attr_ok(problem, *id) && expr_ok(problem, x),
        Expr::StrucMetCall(x, id, a, _) => struct_meth_ok(problem, *id) && expr_ok(problem, x)
            && exprs_ok(problem, a),
        Expr::ClassSelf(id, _) => id.0 < problem.classes().len(),
        Expr::ClassAttribute(x, id, _) => class_attr_ok(problem, *id) && expr_ok(problem, x),
        Expr::ClassMetCall(x, id, a, _) => class_meth_ok(problem, *id) && expr_ok(problem, x)
            && exprs_ok(problem, a),
        Expr::AsClass(x, id) => id.0 < problem.classes().len() && expr_ok(problem, x),
        Expr::AsInterval(x, _, _, _) => expr_ok(problem, x),
        Expr::AsInt(x, _) => expr_ok(problem, x),
        Expr::AsReal(x, _) => expr_ok(problem, x),
        Expr::IfThenElse(c, t, l, x, _) => expr_ok(problem, c) && expr_ok(problem, t) && pairs_ok(
            problem,
            l,
        ) && expr_ok(problem, x),
        Expr::Quantifier(_, ps, x, _) => params_ok(problem, ps) && expr_ok(problem, x),
        Expr::UnresolvedFunCall(_, a, _) => exprs_ok(problem, a),
        Expr::UnresolvedAttribute(x, _, _) => expr_ok(problem, x),
        Expr::UnresolvedMethCall(x, _, a, _) => expr_ok(problem, x) && exprs_ok(problem, a),
        _ => true,
    }
}

/// Whether `id` names an attribute of a structure of the problem.
fn struct_attr_ok(problem: &Problem, id: AttributeId<StructureId>) -> (r: bool)
    ensures
        r == problem@.has_struct_attr(id),
{
    let v = problem.structures();
    if id.0.0 < v.len() {
        proof {
            assert(v@[id.0.0 as int]@ == problem@.structures[id.0.0 as int]);
        }
        id.1 < v[id.0.0].attributes().len()
    } else {
        false
    }
}

/// Whether `id` names a method of a structure of the problem.
fn struct_meth_ok(problem: &Problem, id: MethodId<StructureId>) -> (r: bool)
    ensures
        r == problem@.has_struct_meth(id),
{
    let v = problem.structures();
    if id.0.0 < v.len() {
        proof {
            assert(v@[id.0.0 as int]@ == problem@.structures[id.0.0 as int]);
        }
        id.1 < v[id.0.0].methods().len()
    } else {
        false
    }
}

/// Whether `id` names an attribute of a class of the problem.
fn class_attr_ok(problem: &Problem, id: AttributeId<ClassId>) -> (r: bool)
    ensures
        r == problem@.has_class_attr(id),
{
    let v = problem.classes();
    if id.0.0 < v.len() {
        proof {
            assert(v@[id.0.0 as int]@ == problem@.classes[id.0.0 as int]);
        }
        id.1 < v[id.0.0].attributes().len()
    } else {
        false
    }
}

/// Whether `id` names a method of a class of the problem.
fn class_meth_ok(problem: &Problem, id: MethodId<ClassId>) -> (r: bool)
    ensures
        r == problem@.has_class_meth(id),
{
    let v = problem.classes();
    if id.0.0 < v.len() {
        proof {
            assert(v@[id.0.0 as int]@ == problem@.classes[id.0.0 as int]);
        }
        id.1 < v[id.0.0].methods().len()
    } else {
        false
    }
}

/// Whether every expression of the list is valid.
fn exprs_ok(problem: &Problem, a: &Vec<Expr>) -> (r: bool)
    ensures
        r == exprs_valid(problem@, exprs_view(a@)),
    decreases a,
{
    let ghost s = exprs_view(a@);
    proof {
        lemma_exprs_view(a@);
        lemma_exprs_valid(problem@, s);
    }
    let mut i: usize = 0;
    while i < a.len()
        invariant
            s == exprs_view(a@),
            s.len() == a.len(),
            forall|k: int| 0 <= k < a.len() ==> #[trigger] s[k] == a@[k]@,
            exprs_valid(problem@, s) <==> forall|k: int| 0 <= k < s.len() ==> #[trigger] expr_valid(problem@, s[k]),
            i <= a.len(),
            forall|k: int| 0 <= k < i ==> #[trigger] expr_valid(problem@, s[k]),
        decreases a.len() - i,
    {
        proof {
            assert(decreases_to!(*a => a@[i as int]));
        }
        if !expr_ok(problem, &a[i]) {
            assert(!expr_valid(problem@, s[i as int]));
            return false;
        }
        i += 1;
    }
    true
}

/// Whether both expressions of every pair are valid.
fn pairs_ok(problem: &Problem, l: &Vec<(Expr, Expr)>) -> (r: bool)
    ensures
        r == pairs_valid(problem@, pairs_view(l@)),
    decreases l,
{
    let ghost s = pairs_view(l@);
    proof {
        lemma_pairs_view(l@);
        lemma_pairs_valid(problem@, s);
    }
    let mut i: usize = 0;
    while i < l.len()
        invariant
            s == pairs_view(l@),
            s.len() == l.len(),
            forall|k: int| 0 <= k < l.len() ==> #[trigger] s[k] == (l@[k].0@, l@[k].1@),
            pairs_valid(problem@, s) <==> forall|k: int| 0 <= k < s.len() ==> expr_valid(problem@, (#[trigger] s[k]).0) && expr_valid(problem@, s[k].1),
            i <= l.len(),
            forall|k: int| 0 <= k < i ==> expr_valid(problem@, (#[trigger] s[k]).0) && expr_valid(problem@, s[k].1),
        decreases l.len() - i,
    {
        proof {
            assert(decreases_to!(*l => l@[i as int]));
            assert(decreases_to!(l@[i as int] => l@[i as int].0));
            assert(decreases_to!(l@[i as int] => l@[i as int].1));
        }
        if !expr_ok(problem, &l[i].0) || !expr_ok(problem, &l[i].1) {
            assert(!(expr_valid(problem@, s[i as int].0) && expr_valid(problem@, s[i as int].1)));
            return false;
        }
        i += 1;
    }
    true
}

/// Whether the node itself (not its children) has the property.
fn node_check(c: NodeCheck, e: &Expr) -> (r: bool)
    ensures
        r == node_ok(c, e@),
{
    match c {
        NodeCheck::TypesDefined => match e {
            Expr::Parameter(x) => !x.typ().is_undefined(),
            Expr::Quantifier(_, ps, _, _) => params_defined_ok(ps),
            _ => true,
        },
        NodeCheck::Resolved => match e {
            Expr::Unresolved(_, _) => false,
            Expr::UnresolvedFunCall(_, _, _) => false,
            Expr::UnresolvedAttribute(_, _, _) => false,
            Expr::UnresolvedMethCall(_, _, _, _) => false,
            _ => true,
        },
    }
}

/// Whether every node of the expression has the property.
pub fn every_ok(c: NodeCheck, e: &Expr) -> (r: bool)
    ensures
        r == every(c, e@),
    decreases e,
{
    if !node_check(c, e) {
        return false;
    }
    assert(node_ok(c, e@));
    proof {
        match e {
            Expr::FunctionCall(_, a, _) => lemma_exprs_view(a@),
            Expr::StrucMetCall(_, _, a, _) => lemma_exprs_view(a@),
            Expr::ClassMetCall(_, _, a, _) => lemma_exprs_view(a@),
            Expr::UnresolvedFunCall(_, a, _) => lemma_exprs_view(a@),
            Expr::UnresolvedMethCall(_, _, a, _) => lemma_exprs_view(a@),
            Expr::IfThenElse(_, _, l, _, _) => lemma_pairs_view(l@),
            _ => {},
        }
    }
    match e {
        Expr::Unary(_, x, _) => every_ok(c, x),
        Expr::Binary(l, _, r, _) => every_ok(c, l) && every_ok(c, r),
        Expr::FunctionCall(_, a, _) => every_list_ok(c, a),
        Expr::StrucAttribute(x, _, _) => every_ok(c, x),
        Expr::StrucMetCall(x, _, a, _) => every_ok(c, x) && every_list_ok(c, a),
        Expr::ClassAttribute(x, _, _) => every_ok(c, x),
        Expr::ClassMetCall(x, _, a, _) => every_ok(c, x) && every_list_ok(c, a),
        Expr::AsClass(x, _) => every_ok(c, x),
        Expr::AsInterval(x, _, _, _) => every_ok(c, x),
        Expr::AsInt(x, _) => every_ok(c, x),
        Expr::AsReal(x, _) => every_ok(c, x),
        Expr::IfThenElse(i, t, l, x, _) => every_ok(c, i) && every_ok(c, t) && every_pairs_ok(c, l)
            && every_ok(c, x),
        Expr::Quantifier(_, _, x, _) => every_ok(c, x),
        Expr::UnresolvedFunCall(_, a, _) => every_list_ok(c, a),
        Expr::UnresolvedAttribute(x, _, _) => every_ok(c, x),
        Expr::UnresolvedMethCall(x, _, a, _) => every_ok(c, x) && every_list_ok(c, a),
        _ => true,
    }
}

/// Whether every node of every expression of the list has the property.
fn every_list_ok(c: NodeCheck, a: &Vec<Expr>) -> (r: bool)
    ensures
        r == every_list(c, exprs_view(a@), a.len() as nat),
    decreases a,
{
    let ghost s = exprs_view(a@);
    proof {
        lemma_exprs_view(a@);
        lemma_every_list(c, s, a.len() as nat);
    }
    let mut i: usize = 0;
    while i < a.len()
        invariant
            s == exprs_view(a@),
            s.len() == a.len(),
            forall|k: int| 0 <= k < a.len() ==> #[trigger] s[k] == a@[k]@,
            every_list(c, s, a.len() as nat) <==> forall|k: int| 0 <= k < a.len() ==> #[trigger] every(c, s[k]),
            i <= a.len(),
            forall|k: int| 0 <= k < i ==> #[trigger] every(c, s[k]),
        decreases a.len() - i,
    {
        proof {
            assert(decreases_to!(*a => a@[i as int]));
        }
        if !every_ok(c, &a[i]) {
            assert(!every(c, s[i as int]));
            return false;
        }
        i += 1;
    }
    true
}

/// Whether every node of both expressions of every pair has the property.
fn every_pairs_ok(c: NodeCheck, l: &Vec<(Expr, Expr)>) -> (r: bool)
    ensures
        r == every_pairs(c, pairs_view(l@), l.len() as nat),
    decreases l,
{
    let ghost s = pairs_view(l@);
    proof {
        lemma_pairs_view(l@);
        lemma_every_pairs(c, s, l.len() as nat);
    }
    let mut i: usize = 0;
    while i < l.len()
        invariant
            s == pairs_view(l@),
            s.len() == l.len(),
            forall|k: int| 0 <= k < l.len() ==> #[trigger] s[k] == (l@[k].0@, l@[k].1@),
            every_pairs(c, s, l.len() as nat) <==> forall|k: int| 0 <= k < l.len() ==> every(c, (#[trigger] s[k]).0) && every(c, s[k].1),
            i <= l.len(),
            forall|k: int| 0 <= k < i ==> every(c, (#[trigger] s[k]).0) && every(c, s[k].1),
        decreases l.len() - i,
    {
        proof {
            assert(decreases_to!(*l => l@[i as int]));
            assert(decreases_to!(l@[i as int] => l@[i as int].0));
            assert(decreases_to!(l@[i as int] => l@[i as int].1));
        }
        if !every_ok(c, &l[i].0) || !every_ok(c, &l[i].1) {
            assert(!(every(c, s[i as int].0) && every(c, s[i as int].1)));
            return false;
        }
        i += 1;
    }
    true
}

/// Whether an optional expression is valid.
fn opt_valid_ok(problem: &Problem, e: &Option<Expr>) -> (r: bool)
    ensures
        r == opt_valid(problem@, opt_expr(*e)),
{
    match e {
        Some(x) => expr_ok(problem, x),
        None => true,
    }
}

/// Whether an optional expression is valid and resolved.
fn opt_ready_ok(problem: &Problem, e: &Option<Expr>) -> (r: bool)
    ensures
        r == opt_ready(problem@, opt_expr(*e)),
{
    match e {
        Some(x) => expr_ok(problem, x) && every_ok(NodeCheck::Resolved, x),
        None => true,
    }
}

/// Whether no type of an optional expression is `Undefined`.
fn opt_defined_ok(e: &Option<Expr>) -> (r: bool)
    ensures
        r == opt_defined(opt_expr(*e)),
{
    match e {
        Some(x) => every_ok(NodeCheck::TypesDefined, x),
        None => true,
    }
}

/// Whether no type of the attribute is `Undefined`.
fn attr_defined_ok<T: Id>(a: &Attribute<T>) -> (r: bool)
    ensures
        r == attr_defined(a@),
{
    !a.typ().is_undefined() && opt_defined_ok(a.expr())
}

/// Whether no type of the method is `Undefined`.
fn meth_defined_ok<T: Id>(m: &Method<T>) -> (r: bool)
    ensures
        r == meth_defined(m@),
{
    !m.typ().is_undefined() && params_defined_ok(m.parameters()) && opt_defined_ok(m.expr())
}

/// Whether the types of the method refer to declarations of the problem.
fn meth_types_ok<T: Id>(problem: &Problem, m: &Method<T>) -> (r: bool)
    ensures
        r == (type_valid(problem@, m@.typ) && params_valid(problem@, m@.parameters)),
{
    type_ok(problem, m.typ()) && params_ok(problem, m.parameters())
}

/// Whether every method has a parameter.
fn meths_have_params<T: Id>(v: &Vec<Method<T>>) -> (r: bool)
    ensures
        r == (forall|j: int| 0 <= j < meths_view(v@).len() ==> meth_has_params(#[trigger] meths_view(v@)[j])),
{
    let mut i: usize = 0;
    while i < v.len()
        invariant
            i <= v.len(),
            forall|j: int| 0 <= j < i ==> meth_has_params(#[trigger] meths_view(v@)[j]),
        decreases v.len() - i,
    {
        proof {
            assert(meths_view(v@)[i as int] == v@[i as int]@);
        }
        if v[i].parameters().len() == 0 {
            assert(!meth_has_params(meths_view(v@)[i as int]));
            return false;
        }
        i += 1;
    }
    true
}

/// Whether the attributes carry the identifiers of their places in the
/// declaration `owner`.
fn attr_ids_ok_structure(v: &Vec<Attribute<StructureId>>, owner: StructureId) -> (r: bool)
    ensures
        r == (forall|n: int| 0 <= n < attrs_view(v@).len() ==> #[trigger] attrs_view(v@)[n].id == AttributeId(owner, n as usize)),
{
    let mut i: usize = 0;
    while i < v.len()
        invariant
            i <= v.len(),
            forall|n: int| 0 <= n < i ==> #[trigger] attrs_view(v@)[n].id == AttributeId(owner, n as usize),
        decreases v.len() - i,
    {
        proof {
            assert(attrs_view(v@)[i as int] == v@[i as int]@);
        }
        let id = v[i].id();
        if !(id.0 == owner && id.1 == i) {
            assert(attrs_view(v@)[i as int].id != AttributeId(owner, i));
            return false;
        }
        i += 1;
    }
    true
}

/// Whether the methods carry the identifiers of their places in the
/// declaration `owner`.
fn meth_ids_ok_structure(v: &Vec<Method<StructureId>>, owner: StructureId) -> (r: bool)
    ensures
        r == (forall|n: int| 0 <= n < meths_view(v@).len() ==> #[trigger] meths_view(v@)[n].id == MethodId(owner, n as usize)),
{
    let mut i: usize = 0;
    while i < v.len()
        invariant
            i <= v.len(),
            forall|n: int| 0 <= n < i ==> #[trigger] meths_view(v@)[n].id == MethodId(owner, n as usize),
        decreases v.len() - i,
    {
        proof {
            assert(meths_view(v@)[i as int] == v@[i as int]@);
        }
        let id = v[i].id();
        if !(id.0 == owner && id.1 == i) {
            assert(meths_view(v@)[i as int].id != MethodId(owner, i));
            return false;
        }
        i += 1;
    }
    true
}

/// Whether the attributes carry the identifiers of their places in the
/// declaration `owner`.
fn attr_ids_ok_class(v: &Vec<Attribute<ClassId>>, owner: ClassId) -> (r: bool)
    ensures
        r == (forall|n: int| 0 <= n < attrs_view(v@).len() ==> #[trigger] attrs_view(v@)[n].id == AttributeId(owner, n as usize)),
{
    let mut i: usize = 0;
    while i < v.len()
        invariant
            i <= v.len(),
            forall|n: int| 0 <= n < i ==> #[trigger] attrs_view(v@)[n].id == AttributeId(owner, n as usize),
        decreases v.len() - i,
    {
        proof {
            assert(attrs_view(v@)[i as int] == v@[i as int]@);
        }
        let id = v[i].id();
        if !(id.0 == owner && id.1 == i) {
            assert(attrs_view(v@)[i as int].id != AttributeId(owner, i));
            return false;
        }
        i += 1;
    }
    true
}

/// Whether the methods carry the identifiers of their places in the
/// declaration `owner`.
fn meth_ids_ok_class(v: &Vec<Method<ClassId>>, owner: ClassId) -> (r: bool)
    ensures
        r == (forall|n: int| 0 <= n < meths_view(v@).len() ==> #[trigger] meths_view(v@)[n].id == MethodId(owner, n as usize)),
{
    let mut i: usize = 0;
    while i < v.len()
        invariant
            i <= v.len(),
            forall|n: int| 0 <= n < i ==> #[trigger] meths_view(v@)[n].id == MethodId(owner, n as usize),
        decreases v.len() - i,
    {
        proof {
            assert(meths_view(v@)[i as int] == v@[i as int]@);
        }
        let id = v[i].id();
        if !(id.0 == owner && id.1 == i) {
            assert(meths_view(v@)[i as int].id != MethodId(owner, i));
            return false;
        }
        i += 1;
    }
    true
}

impl Problem {
    /// Whether each declaration carries the identifier of its place, the
    /// class hierarchy stays within the problem and every declared type
    /// refers to declarations of the problem.
    pub fn check_wf(&self) -> (r: bool)
        ensures
            r == self@.wf(),
    {
        let ids = self.ids_structures() && self.ids_classes() && self.ids_instances()
            && self.ids_variables() && self.ids_functions() && self.ids_constraints();
        let hier = self.hierarchy_classes();
        let types = self.types_variables() && self.types_instances() && self.types_functions()
            && self.types_structures_attributes() && self.types_structures_methods()
            && self.types_classes() && self.types_classes_attributes()
            && self.types_classes_methods();
        ids && hier && types
    }

    /// Whether no type of the problem is `Undefined`.
    pub fn check_types_defined(&self) -> (r: bool)
        ensures
            r == self@.types_defined(),
    {
        let search = match self.search() {
            Search::Optimize(e, _, _) => every_ok(NodeCheck::TypesDefined, e),
            Search::Solve => true,
        };
        self.defined_structures_attributes() && self.defined_structures_methods()
            && self.defined_classes() && self.defined_classes_attributes()
            && self.defined_classes_methods() && self.defined_instances()
            && self.defined_variables() && self.defined_functions() && self.defined_constraints()
            && search
    }

    /// Whether every method and every function has a parameter.
    pub fn check_calls_have_params(&self) -> (r: bool)
        ensures
            r == self@.calls_have_params(),
    {
        self.params_structures() && self.params_classes() && self.params_functions()
    }

    /// Whether every expression of the problem is valid.
    pub fn check_exprs_wf(&self) -> (r: bool)
        ensures
            r == self@.exprs_wf(),
    {
        let search = match self.search() {
            Search::Optimize(e, _, _) => expr_ok(self, e),
            Search::Solve => true,
        };
        self.valid_structures_attributes() && self.valid_structures_methods()
            && self.valid_classes_attributes() && self.valid_classes_methods()
            && self.valid_variables() && self.valid_functions() && self.valid_constraints()
            && search
    }

    /// Whether every expression of the problem is valid and resolved.
    pub fn check_exprs_resolved(&self) -> (r: bool)
        ensures
            r == self@.exprs_resolved(),
    {
        let search = match self.search() {
            Search::Optimize(e, _, _) => expr_ok(self, e) && every_ok(NodeCheck::Resolved, e),
            Search::Solve => true,
        };
        self.ready_structures_attributes() && self.ready_structures_methods()
            && self.ready_classes_attributes() && self.ready_classes_methods()
            && self.ready_variables() && self.ready_functions() && self.ready_constraints()
            && search
    }

    fn valid_structures_attributes(&self) -> (r: bool)
        ensures
            r == (forall|i: int, j: int| #![trigger self@.structures[i].attributes[j]] 0 <= i < self@.structures.len() && 0 <= j < self@.structures[i].attributes.len() ==> opt_valid(self@, self@.structures[i].attributes[j].expr)),
    {
        let ghost p = self@;
        let v = self.structures();
        let mut i: usize = 0;
        while i < v.len()
            invariant
                p == self@,
                
                v@.map_values(|x: Structure| x@) == p.structures,
                i <= v.len(),
                forall|a: int, b: int| #![trigger p.structures[a].attributes[b]] 0 <= a < i && 0 <= b < p.structures[a].attributes.len() ==> opt_valid(p, p.structures[a].attributes[b].expr),
            decreases v.len() - i,
        {
            let w = v[i].attributes();
            proof {
                assert(v@[i as int]@ == p.structures[i as int]);
            }
            let mut j: usize = 0;
            while j < w.len()
                invariant
                    p == self@,
                    
                    v@.map_values(|x: Structure| x@) == p.structures,
                    i < v.len(),
                    attrs_view(w@) == p.structures[i as int].attributes,
                    j <= w.len(),
                    forall|a: int, b: int| #![trigger p.structures[a].attributes[b]] 0 <= a < i && 0 <= b < p.structures[a].attributes.len() ==> opt_valid(p, p.structures[a].attributes[b].expr),
                    forall|b: int| #![trigger p.structures[i as int].attributes[b]] 0 <= b < j ==> opt_valid(p, p.structures[i as int].attributes[b].expr),
                decreases w.len() - j,
            {
                proof {
                    assert(w@[j as int]@ == p.structures[i as int].attributes[j as int]);
                }
                if !(opt_valid_ok(self, (&w[j]).expr())) {
                    assert(!(opt_valid(p, p.structures[i as int].attributes[j as int].expr)));
                    return false;
                }
                j += 1;
            }
            proof {
                assert forall|a: int, b: int| #![trigger p.structures[a].attributes[b]] 0 <= a < i + 1 && 0 <= b < p.structures[a].attributes.len() implies opt_valid(p, p.structures[a].attributes[b].expr) by {
                    if a == i {
                        assert(opt_valid(p, p.structures[i as int].attributes[b].expr));
                    }
                }
            }
            i += 1;
        }
        true
    }

    fn valid_structures_methods(&self) -> (r: bool)
        ensures
            r == (forall|i: int, j: int| #![trigger self@.structures[i].methods[j]] 0 <= i < self@.structures.len() && 0 <= j < self@.structures[i].methods.len() ==> opt_valid(self@, self@.structures[i].methods[j].expr)),
    {
        let ghost p = self@;
        let v = self.structures();
        let mut i: usize = 0;
        while i < v.len()
            invariant
                p == self@,
                
                v@.map_values(|x: Structure| x@) == p.structures,
                i <= v.len(),
                forall|a: int, b: int| #![trigger p.structures[a].methods[b]] 0 <= a < i && 0 <= b < p.structures[a].methods.len() ==> opt_valid(p, p.structures[a].methods[b].expr),
            decreases v.len() - i,
        {
            let w = v[i].methods();
            proof {
                assert(v@[i as int]@ == p.structures[i as int]);
            }
            let mut j: usize = 0;
            while j < w.len()
                invariant
                    p == self@,
                    
                    v@.map_values(|x: Structure| x@) == p.structures,
                    i < v.len(),
                    meths_view(w@) == p.structures[i as int].methods,
                    j <= w.len(),
                    forall|a: int, b: int| #![trigger p.structures[a].methods[b]] 0 <= a < i && 0 <= b < p.structures[a].methods.len() ==> opt_valid(p, p.structures[a].methods[b].expr),
                    forall|b: int| #![trigger p.structures[i as int].methods[b]] 0 <= b < j ==> opt_valid(p, p.structures[i as int].methods[b].expr),
                decreases w.len() - j,
            {
                proof {
                    assert(w@[j as int]@ == p.structures[i as int].methods[j as int]);
                }
                if !(opt_valid_ok(self, (&w[j]).expr())) {
                    assert(!(opt_valid(p, p.structures[i as int].methods[j as int].expr)));
                    return false;
                }
                j += 1;
            }
            proof {
                assert forall|a: int, b: int| #![trigger p.structures[a].methods[b]] 0 <= a < i + 1 && 0 <= b < p.structures[a].methods.len() implies opt_valid(p, p.structures[a].methods[b].expr) by {
                    if a == i {
                        assert(opt_valid(p, p.structures[i as int].methods[b].expr));
                    }
                }
            }
            i += 1;
        }
        true
    }

    fn valid_classes_attributes(&self) -> (r: bool)
        ensures
            r == (forall|i: int, j: int| #![trigger self@.classes[i].attributes[j]] 0 <= i < self@.classes.len() && 0 <= j < self@.classes[i].attributes.len() ==> opt_valid(self@, self@.classes[i].attributes[j].expr)),
    {
        let ghost p = self@;
        let v = self.classes();
        let mut i: usize = 0;
        while i < v.len()
            invariant
                p == self@,
                
                v@.map_values(|x: Class| x@) == p.classes,
                i <= v.len(),
                forall|a: int, b: int| #![trigger p.classes[a].attributes[b]] 0 <= a < i && 0 <= b < p.classes[a].attributes.len() ==> opt_valid(p, p.classes[a].attributes[b].expr),
            decreases v.len() - i,
        {
            let w = v[i].attributes();
            proof {
                assert(v@[i as int]@ == p.classes[i as int]);
            }
            let mut j: usize = 0;
            while j < w.len()
                invariant
                    p == self@,
                    
                    v@.map_values(|x: Class| x@) == p.classes,
                    i < v.len(),
                    attrs_view(w@) == p.classes[i as int].attributes,
                    j <= w.len(),
                    forall|a: int, b: int| #![trigger p.classes[a].attributes[b]] 0 <= a < i && 0 <= b < p.classes[a].attributes.len() ==> opt_valid(p, p.classes[a].attributes[b].expr),
                    forall|b: int| #![trigger p.classes[i as int].attributes[b]] 0 <= b < j ==> opt_valid(p, p.classes[i as int].attributes[b].expr),
                decreases w.len() - j,
            {
                proof {
                    assert(w@[j as int]@ == p.classes[i as int].attributes[j as int]);
                }
                if !(opt_valid_ok(self, (&w[j]).expr())) {
                    assert(!(opt_valid(p, p.classes[i as int].attributes[j as int].expr)));
                    return false;
                }
                j += 1;
            }
            proof {
                assert forall|a: int, b: int| #![trigger p.classes[a].attributes[b]] 0 <= a < i + 1 && 0 <= b < p.classes[a].attributes.len() implies opt_valid(p, p.classes[a].attributes[b].expr) by {
                    if a == i {
                        assert(opt_valid(p, p.classes[i as int].attributes[b].expr));
                    }
                }
            }
            i += 1;
        }
        true
    }

    fn valid_classes_methods(&self) -> (r: bool)
        ensures
            r == (forall|i: int, j: int| #![trigger self@.classes[i].methods[j]] 0 <= i < self@.classes.len() && 0 <= j < self@.classes[i].methods.len() ==> opt_valid(self@, self@.classes[i].methods[j].expr)),
    {
        let ghost p = self@;
        let v = self.classes();
        let mut i: usize = 0;
        while i < v.len()
            invariant
                p == self@,
                
                v@.map_values(|x: Class| x@) == p.classes,
                i <= v.len(),
                forall|a: int, b: int| #![trigger p.classes[a].methods[b]] 0 <= a < i && 0 <= b < p.classes[a].methods.len() ==> opt_valid(p, p.classes[a].methods[b].expr),
            decreases v.len() - i,
        {
            let w = v[i].methods();
            proof {
                assert(v@[i as int]@ == p.classes[i as int]);
            }
            let mut j: usize = 0;
            while j < w.len()
                invariant
                    p == self@,
                    
                    v@.map_values(|x: Class| x@) == p.classes,
                    i < v.len(),
                    meths_view(w@) == p.classes[i as int].methods,
                    j <= w.len(),
                    forall|a: int, b: int| #![trigger p.classes[a].methods[b]] 0 <= a < i && 0 <= b < p.classes[a].methods.len() ==> opt_valid(p, p.classes[a].methods[b].expr),
                    forall|b: int| #![trigger p.classes[i as int].methods[b]] 0 <= b < j ==> opt_valid(p, p.classes[i as int].methods[b].expr),
                decreases w.len() - j,
            {
                proof {
                    assert(w@[j as int]@ == p.classes[i as int].methods[j as int]);
                }
                if !(opt_valid_ok(self, (&w[j]).expr())) {
                    assert(!(opt_valid(p, p.classes[i as int].methods[j as int].expr)));
                    return false;
                }
                j += 1;
            }
            proof {
                assert forall|a: int, b: int| #![trigger p.classes[a].methods[b]] 0 <= a < i + 1 && 0 <= b < p.classes[a].methods.len() implies opt_valid(p, p.classes[a].methods[b].expr) by {
                    if a == i {
                        assert(opt_valid(p, p.classes[i as int].methods[b].expr));
                    }
                }
            }
            i += 1;
        }
        true
    }

    fn valid_variables(&self) -> (r: bool)
        ensures
            r == (forall|i: int| #![trigger self@.variables[i]] 0 <= i < self@.variables.len() ==> opt_valid(self@, self@.variables[i].expr)),
    {
        let ghost p = self@;
        let v = self.variables();
        let mut i: usize = 0;
        while i < v.len()
            invariant
                p == self@,
                
                v@.map_values(|x: Variable| x@) == p.variables,
                i <= v.len(),
                forall|a: int| #![trigger p.variables[a]] 0 <= a < i ==> opt_valid(p, p.variables[a].expr),
            decreases v.len() - i,
        {
            proof {
                assert(v@[i as int]@ == p.variables[i as int]);
            }
            if !(opt_valid_ok(self, (&v[i]).expr())) {
                assert(!(opt_valid(p, p.variables[i as int].expr)));
                return false;
            }
            i += 1;
        }
        true
    }

    fn valid_functions(&self) -> (r: bool)
        ensures
            r == (forall|i: int| #![trigger self@.functions[i]] 0 <= i < self@.functions.len() ==> opt_valid(self@, self@.functions[i].expr)),
    {
        let ghost p = self@;
        let v = self.functions();
        let mut i: usize = 0;
        while i < v.len()
            invariant
                p == self@,
                
                v@.map_values(|x: Function| x@) == p.functions,
                i <= v.len(),
                forall|a: int| #![trigger p.functions[a]] 0 <= a < i ==> opt_valid(p, p.functions[a].expr),
            decreases v.len() - i,
        {
            proof {
                assert(v@[i as int]@ == p.functions[i as int]);
            }
            if !(opt_valid_ok(self, (&v[i]).expr())) {
                assert(!(opt_valid(p, p.functions[i as int].expr)));
                return false;
            }
            i += 1;
        }
        true
    }

    fn valid_constraints(&self) -> (r: bool)
        ensures
            r == (forall|i: int| #![trigger self@.constraints[i]] 0 <= i < self@.constraints.len() ==> expr_valid(self@, self@.constraints[i].expr)),
    {
        let ghost p = self@;
        let v = self.constraints();
        let mut i: usize = 0;
        while i < v.len()
            invariant
                p == self@,
                
                v@.map_values(|x: Constraint| x@) == p.constraints,
                i <= v.len(),
                forall|a: int| #![trigger p.constraints[a]] 0 <= a < i ==> expr_valid(p, p.constraints[a].expr),
            decreases v.len() - i,
        {
            proof {
                assert(v@[i as int]@ == p.constraints[i as int]);
            }
            if !(expr_ok(self, (&v[i]).expr())) {
                assert(!(expr_valid(p, p.constraints[i as int].expr)));
                return false;
            }
            i += 1;
        }
        true
    }

    fn ready_structures_attributes(&self) -> (r: bool)
        ensures
            r == (forall|i: int, j: int| #![trigger self@.structures[i].attributes[j]] 0 <= i < self@.structures.len() && 0 <= j < self@.structures[i].attributes.len() ==> opt_ready(self@, self@.structures[i].attributes[j].expr)),
    {
        let ghost p = self@;
        let v = self.structures();
        let mut i: usize = 0;
        while i < v.len()
            invariant
                p == self@,
                
                v@.map_values(|x: Structure| x@) == p.structures,
                i <= v.len(),
                forall|a: int, b: int| #![trigger p.structures[a].attributes[b]] 0 <= a < i && 0 <= b < p.structures[a].attributes.len() ==> opt_ready(p, p.structures[a].attributes[b].expr),
            decreases v.len() - i,
        {
            let w = v[i].attributes();
            proof {
                assert(v@[i as int]@ == p.structures[i as int]);
            }
            let mut j: usize = 0;
            while j < w.len()
                invariant
                    p == self@,
                    
                    v@.map_values(|x: Structure| x@) == p.structures,
                    i < v.len(),
                    attrs_view(w@) == p.structures[i as int].attributes,
                    j <= w.len(),
                    forall|a: int, b: int| #![trigger p.structures[a].attributes[b]] 0 <= a < i && 0 <= b < p.structures[a].attributes.len() ==> opt_ready(p, p.structures[a].attributes[b].expr),
                    forall|b: int| #![trigger p.structures[i as int].attributes[b]] 0 <= b < j ==> opt_ready(p, p.structures[i as int].attributes[b].expr),
                decreases w.len() - j,
            {
                proof {
                    assert(w@[j as int]@ == p.structures[i as int].attributes[j as int]);
                }
                if !(opt_ready_ok(self, (&w[j]).expr())) {
                    assert(!(opt_ready(p, p.structures[i as int].attributes[j as int].expr)));
                    return false;
                }
                j += 1;
            }
            proof {
                assert forall|a: int, b: int| #![trigger p.structures[a].attributes[b]] 0 <= a < i + 1 && 0 <= b < p.structures[a].attributes.len() implies opt_ready(p, p.structures[a].attributes[b].expr) by {
                    if a == i {
                        assert(opt_ready(p, p.structures[i as int].attributes[b].expr));
                    }
                }
            }
            i += 1;
        }
        true
    }

    fn ready_structures_methods(&self) -> (r: bool)
        ensures
            r == (forall|i: int, j: int| #![trigger self@.structures[i].methods[j]] 0 <= i < self@.structures.len() && 0 <= j < self@.structures[i].methods.len() ==> opt_ready(self@, self@.structures[i].methods[j].expr)),
    {
        let ghost p = self@;
        let v = self.structures();
        let mut i: usize = 0;
        while i < v.len()
            invariant
                p == self@,
                
                v@.map_values(|x: Structure| x@) == p.structures,
                i <= v.len(),
                forall|a: int, b: int| #![trigger p.structures[a].methods[b]] 0 <= a < i && 0 <= b < p.structures[a].methods.len() ==> opt_ready(p, p.structures[a].methods[b].expr),
            decreases v.len() - i,
        {
            let w = v[i].methods();
            proof {
                assert(v@[i as int]@ == p.structures[i as int]);
            }
            let mut j: usize = 0;
            while j < w.len()
                invariant
                    p == self@,
                    
                    v@.map_values(|x: Structure| x@) == p.structures,
                    i < v.len(),
                    meths_view(w@) == p.structures[i as int].methods,
                    j <= w.len(),
                    forall|a: int, b: int| #![trigger p.structures[a].methods[b]] 0 <= a < i && 0 <= b < p.structures[a].methods.len() ==> opt_ready(p, p.structures[a].methods[b].expr),
                    forall|b: int| #![trigger p.structures[i as int].methods[b]] 0 <= b < j ==> opt_ready(p, p.structures[i as int].methods[b].expr),
                decreases w.len() - j,
            {
                proof {
                    assert(w@[j as int]@ == p.structures[i as int].methods[j as int]);
                }
                if !(opt_ready_ok(self, (&w[j]).expr())) {
                    assert(!(opt_ready(p, p.structures[i as int].methods[j as int].expr)));
                    return false;
                }
                j += 1;
            }
            proof {
                assert forall|a: int, b: int| #![trigger p.structures[a].methods[b]] 0 <= a < i + 1 && 0 <= b < p.structures[a].methods.len() implies opt_ready(p, p.structures[a].methods[b].expr) by {
                    if a == i {
                        assert(opt_ready(p, p.structures[i as int].methods[b].expr));
                    }
                }
            }
            i += 1;
        }
        true
    }

    fn ready_classes_attributes(&self) -> (r: bool)
        ensures
            r == (forall|i: int, j: int| #![trigger self@.classes[i].attributes[j]] 0 <= i < self@.classes.len() && 0 <= j < self@.classes[i].attributes.len() ==> opt_ready(self@, self@.classes[i].attributes[j].expr)),
    {
        let ghost p = self@;
        let v = self.classes();
        let mut i: usize = 0;
        while i < v.len()
            invariant
                p == self@,
                
                v@.map_values(|x: Class| x@) == p.classes,
                i <= v.len(),
                forall|a: int, b: int| #![trigger p.classes[a].attributes[b]] 0 <= a < i && 0 <= b < p.classes[a].attributes.len() ==> opt_ready(p, p.classes[a].attributes[b].expr),
            decreases v.len() - i,
        {
            let w = v[i].attributes();
            proof {
                assert(v@[i as int]@ == p.classes[i as int]);
            }
            let mut j: usize = 0;
            while j < w.len()
                invariant
                    p == self@,
                    
                    v@.map_values(|x: Class| x@) == p.classes,
                    i < v.len(),
                    attrs_view(w@) == p.classes[i as int].attributes,
                    j <= w.len(),
                    forall|a: int, b: int| #![trigger p.classes[a].attributes[b]] 0 <= a < i && 0 <= b < p.classes[a].attributes.len() ==> opt_ready(p, p.classes[a].attributes[b].expr),
                    forall|b: int| #![trigger p.classes[i as int].attributes[b]] 0 <= b < j ==> opt_ready(p, p.classes[i as int].attributes[b].expr),
                decreases w.len() - j,
            {
                proof {
                    assert(w@[j as int]@ == p.classes[i as int].attributes[j as int]);
                }
                if !(opt_ready_ok(self, (&w[j]).expr())) {
                    assert(!(opt_ready(p, p.classes[i as int].attributes[j as int].expr)));
                    return false;
                }
                j += 1;
            }
            proof {
                assert forall|a: int, b: int| #![trigger p.classes[a].attributes[b]] 0 <= a < i + 1 && 0 <= b < p.classes[a].attributes.len() implies opt_ready(p, p.classes[a].attributes[b].expr) by {
                    if a == i {
                        assert(opt_ready(p, p.classes[i as int].attributes[b].expr));
                    }
                }
            }
            i += 1;
        }
        true
    }

    fn ready_classes_methods(&self) -> (r: bool)
        ensures
            r == (forall|i: int, j: int| #![trigger self@.classes[i].methods[j]] 0 <= i < self@.classes.len() && 0 <= j < self@.classes[i].methods.len() ==> opt_ready(self@, self@.classes[i].methods[j].expr)),
    {
        let ghost p = self@;
        let v = self.classes();
        let mut i: usize = 0;
        while i < v.len()
            invariant
                p == self@,
                
                v@.map_values(|x: Class| x@) == p.classes,
                i <= v.len(),
                forall|a: int, b: int| #![trigger p.classes[a].methods[b]] 0 <= a < i && 0 <= b < p.classes[a].methods.len() ==> opt_ready(p, p.classes[a].methods[b].expr),
            decreases v.len() - i,
        {
            let w = v[i].methods();
            proof {
                assert(v@[i as int]@ == p.classes[i as int]);
            }
            let mut j: usize = 0;
            while j < w.len()
                invariant
                    p == self@,
                    
                    v@.map_values(|x: Class| x@) == p.classes,
                    i < v.len(),
                    meths_view(w@) == p.classes[i as int].methods,
                    j <= w.len(),
                    forall|a: int, b: int| #![trigger p.classes[a].methods[b]] 0 <= a < i && 0 <= b < p.classes[a].methods.len() ==> opt_ready(p, p.classes[a].methods[b].expr),
                    forall|b: int| #![trigger p.classes[i as int].methods[b]] 0 <= b < j ==> opt_ready(p, p.classes[i as int].methods[b].expr),
                decreases w.len() - j,
            {
                proof {
                    assert(w@[j as int]@ == p.classes[i as int].methods[j as int]);
                }
                if !(opt_ready_ok(self, (&w[j]).expr())) {
                    assert(!(opt_ready(p, p.classes[i as int].methods[j as int].expr)));
                    return false;
                }
                j += 1;
            }
            proof {
                assert forall|a: int, b: int| #![trigger p.classes[a].methods[b]] 0 <= a < i + 1 && 0 <= b < p.classes[a].methods.len() implies opt_ready(p, p.classes[a].methods[b].expr) by {
                    if a == i {
                        assert(opt_ready(p, p.classes[i as int].methods[b].expr));
                    }
                }
            }
            i += 1;
        }
        true
    }

    fn ready_variables(&self) -> (r: bool)
        ensures
            r == (forall|i: int| #![trigger self@.variables[i]] 0 <= i < self@.variables.len() ==> opt_ready(self@, self@.variables[i].expr)),
    {
        let ghost p = self@;
        let v = self.variables();
        let mut i: usize = 0;
        while i < v.len()
            invariant
                p == self@,
                
                v@.map_values(|x: Variable| x@) == p.variables,
                i <= v.len(),
                forall|a: int| #![trigger p.variables[a]] 0 <= a < i ==> opt_ready(p, p.variables[a].expr),
            decreases v.len() - i,
        {
            proof {
                assert(v@[i as int]@ == p.variables[i as int]);
            }
            if !(opt_ready_ok(self, (&v[i]).expr())) {
                assert(!(opt_ready(p, p.variables[i as int].expr)));
                return false;
            }
            i += 1;
        }
        true
    }

    fn ready_functions(&self) -> (r: bool)
        ensures
            r == (forall|i: int| #![trigger self@.functions[i]] 0 <= i < self@.functions.len() ==> opt_ready(self@, self@.functions[i].expr)),
    {
        let ghost p = self@;
        let v = self.functions();
        let mut i: usize = 0;
        while i < v.len()
            invariant
                p == self@,
                
                v@.map_values(|x: Function| x@) == p.functions,
                i <= v.len(),
                forall|a: int| #![trigger p.functions[a]] 0 <= a < i ==> opt_ready(p, p.functions[a].expr),
            decreases v.len() - i,
        {
            proof {
                assert(v@[i as int]@ == p.functions[i as int]);
            }
            if !(opt_ready_ok(self, (&v[i]).expr())) {
                assert(!(opt_ready(p, p.functions[i as int].expr)));
                return false;
            }
            i += 1;
        }
        true
    }

    fn ready_constraints(&self) -> (r: bool)
        ensures
            r == (forall|i: int| #![trigger self@.constraints[i]] 0 <= i < self@.constraints.len() ==> expr_ready(self@, self@.constraints[i].expr)),
    {
        let ghost p = self@;
        let v = self.constraints();
        let mut i: usize = 0;
        while i < v.len()
            invariant
                p == self@,
                
                v@.map_values(|x: Constraint| x@) == p.constraints,
                i <= v.len(),
                forall|a: int| #![trigger p.constraints[a]] 0 <= a < i ==> expr_ready(p, p.constraints[a].expr),
            decreases v.len() - i,
        {
            proof {
                assert(v@[i as int]@ == p.constraints[i as int]);
            }
            if !((expr_ok(self, (&v[i]).expr()) && every_ok(NodeCheck::Resolved, (&v[i]).expr()))) {
                assert(!(expr_ready(p, p.constraints[i as int].expr)));
                return false;
            }
            i += 1;
        }
        true
    }

    fn defined_structures_attributes(&self) -> (r: bool)
        ensures
            r == (forall|i: int, j: int| #![trigger self@.structures[i].attributes[j]] 0 <= i < self@.structures.len() && 0 <= j < self@.structures[i].attributes.len() ==> attr_defined(self@.structures[i].attributes[j])),
    {
        let ghost p = self@;
        let v = self.structures();
        let mut i: usize = 0;
        while i < v.len()
            invariant
                p == self@,
                
                v@.map_values(|x: Structure| x@) == p.structures,
                i <= v.len(),
                forall|a: int, b: int| #![trigger p.structures[a].attributes[b]] 0 <= a < i && 0 <= b < p.structures[a].attributes.len() ==> attr_defined(p.structures[a].attributes[b]),
            decreases v.len() - i,
        {
            let w = v[i].attributes();
            proof {
                assert(v@[i as int]@ == p.structures[i as int]);
            }
            let mut j: usize = 0;
            while j < w.len()
                invariant
                    p == self@,
                    
                    v@.map_values(|x: Structure| x@) == p.structures,
                    i < v.len(),
                    attrs_view(w@) == p.structures[i as int].attributes,
                    j <= w.len(),
                    forall|a: int, b: int| #![trigger p.structures[a].attributes[b]] 0 <= a < i && 0 <= b < p.structures[a].attributes.len() ==> attr_defined(p.structures[a].attributes[b]),
                    forall|b: int| #![trigger p.structures[i as int].attributes[b]] 0 <= b < j ==> attr_defined(p.structures[i as int].attributes[b]),
                decreases w.len() - j,
            {
                proof {
                    assert(w@[j as int]@ == p.structures[i as int].attributes[j as int]);
                }
                if !(attr_defined_ok((&w[j]))) {
                    assert(!(attr_defined(p.structures[i as int].attributes[j as int])));
                    return false;
                }
                j += 1;
            }
            proof {
                assert forall|a: int, b: int| #![trigger p.structures[a].attributes[b]] 0 <= a < i + 1 && 0 <= b < p.structures[a].attributes.len() implies attr_defined(p.structures[a].attributes[b]) by {
                    if a == i {
                        assert(attr_defined(p.structures[i as int].attributes[b]));
                    }
                }
            }
            i += 1;
        }
        true
    }

    fn defined_structures_methods(&self) -> (r: bool)
        ensures
            r == (forall|i: int, j: int| #![trigger self@.structures[i].methods[j]] 0 <= i < self@.structures.len() && 0 <= j < self@.structures[i].methods.len() ==> meth_defined(self@.structures[i].methods[j])),
    {
        let ghost p = self@;
        let v = self.structures();
        let mut i: usize = 0;
        while i < v.len()
            invariant
                p == self@,
                
                v@.map_values(|x: Structure| x@) == p.structures,
                i <= v.len(),
                forall|a: int, b: int| #![trigger p.structures[a].methods[b]] 0 <= a < i && 0 <= b < p.structures[a].methods.len() ==> meth_defined(p.structures[a].methods[b]),
            decreases v.len() - i,
        {
            let w = v[i].methods();
            proof {
                assert(v@[i as int]@ == p.structures[i as int]);
            }
            let mut j: usize = 0;
            while j < w.len()
                invariant
                    p == self@,
                    
                    v@.map_values(|x: Structure| x@) == p.structures,
                    i < v.len(),
                    meths_view(w@) == p.structures[i as int].methods,
                    j <= w.len(),
                    forall|a: int, b: int| #![trigger p.structures[a].methods[b]] 0 <= a < i && 0 <= b < p.structures[a].methods.len() ==> meth_defined(p.structures[a].methods[b]),
                    forall|b: int| #![trigger p.structures[i as int].methods[b]] 0 <= b < j ==> meth_defined(p.structures[i as int].methods[b]),
                decreases w.len() - j,
            {
                proof {
                    assert(w@[j as int]@ == p.structures[i as int].methods[j as int]);
                }
                if !(meth_defined_ok((&w[j]))) {
                    assert(!(meth_defined(p.structures[i as int].methods[j as int])));
                    return false;
                }
                j += 1;
            }
            proof {
                assert forall|a: int, b: int| #![trigger p.structures[a].methods[b]] 0 <= a < i + 1 && 0 <= b < p.structures[a].methods.len() implies meth_defined(p.structures[a].methods[b]) by {
                    if a == i {
                        assert(meth_defined(p.structures[i as int].methods[b]));
                    }
                }
            }
            i += 1;
        }
        true
    }

    fn defined_classes_attributes(&self) -> (r: bool)
        ensures
            r == (forall|i: int, j: int| #![trigger self@.classes[i].attributes[j]] 0 <= i < self@.classes.len() && 0 <= j < self@.classes[i].attributes.len() ==> attr_defined(self@.classes[i].attributes[j])),
    {
        let ghost p = self@;
        let v = self.classes();
        let mut i: usize = 0;
        while i < v.len()
            invariant
                p == self@,
                
                v@.map_values(|x: Class| x@) == p.classes,
                i <= v.len(),
                forall|a: int, b: int| #![trigger p.classes[a].attributes[b]] 0 <= a < i && 0 <= b < p.classes[a].attributes.len() ==> attr_defined(p.classes[a].attributes[b]),
            decreases v.len() - i,
        {
            let w = v[i].attributes();
            proof {
                assert(v@[i as int]@ == p.classes[i as int]);
            }
            let mut j: usize = 0;
            while j < w.len()
                invariant
                    p == self@,
                    
                    v@.map_values(|x: Class| x@) == p.classes,
                    i < v.len(),
                    attrs_view(w@) == p.classes[i as int].attributes,
                    j <= w.len(),
                    forall|a: int, b: int| #![trigger p.classes[a].attributes[b]] 0 <= a < i && 0 <= b < p.classes[a].attributes.len() ==> attr_defined(p.classes[a].attributes[b]),
                    forall|b: int| #![trigger p.classes[i as int].attributes[b]] 0 <= b < j ==> attr_defined(p.classes[i as int].attributes[b]),
                decreases w.len() - j,
            {
                proof {
                    assert(w@[j as int]@ == p.classes[i as int].attributes[j as int]);
                }
                if !(attr_defined_ok((&w[j]))) {
                    assert(!(attr_defined(p.classes[i as int].attributes[j as int])));
                    return false;
                }
                j += 1;
            }
            proof {
                assert forall|a: int, b: int| #![trigger p.classes[a].attributes[b]] 0 <= a < i + 1 && 0 <= b < p.classes[a].attributes.len() implies attr_defined(p.classes[a].attributes[b]) by {
                    if a == i {
                        assert(attr_defined(p.classes[i as int].attributes[b]));
                    }
                }
            }
            i += 1;
        }
        true
    }

    fn defined_classes_methods(&self) -> (r: bool)
        ensures
            r == (forall|i: int, j: int| #![trigger self@.classes[i].methods[j]] 0 <= i < self@.classes.len() && 0 <= j < self@.classes[i].methods.len() ==> meth_defined(self@.classes[i].methods[j])),
    {
        let ghost p = self@;
        let v = self.classes();
        let mut i: usize = 0;
        while i < v.len()
            invariant
                p == self@,
                
                v@.map_values(|x: Class| x@) == p.classes,
                i <= v.len(),
                forall|a: int, b: int| #![trigger p.classes[a].methods[b]] 0 <= a < i && 0 <= b < p.classes[a].methods.len() ==> meth_defined(p.classes[a].methods[b]),
            decreases v.len() - i,
        {
            let w = v[i].methods();
            proof {
                assert(v@[i as int]@ == p.classes[i as int]);
            }
            let mut j: usize = 0;
            while j < w.len()
                invariant
                    p == self@,
                    
                    v@.map_values(|x: Class| x@) == p.classes,
                    i < v.len(),
                    meths_view(w@) == p.classes[i as int].methods,
                    j <= w.len(),
                    forall|a: int, b: int| #![trigger p.classes[a].methods[b]] 0 <= a < i && 0 <= b < p.classes[a].methods.len() ==> meth_defined(p.classes[a].methods[b]),
                    forall|b: int| #![trigger p.classes[i as int].methods[b]] 0 <= b < j ==> meth_defined(p.classes[i as int].methods[b]),
                decreases w.len() - j,
            {
                proof {
                    assert(w@[j as int]@ == p.classes[i as int].methods[j as int]);
                }
                if !(meth_defined_ok((&w[j]))) {
                    assert(!(meth_defined(p.classes[i as int].methods[j as int])));
                    return false;
                }
                j += 1;
            }
            proof {
                assert forall|a: int, b: int| #![trigger p.classes[a].methods[b]] 0 <= a < i + 1 && 0 <= b < p.classes[a].methods.len() implies meth_defined(p.classes[a].methods[b]) by {
                    if a == i {
                        assert(meth_defined(p.classes[i as int].methods[b]));
                    }
                }
            }
            i += 1;
        }
        true
    }

    fn defined_classes(&self) -> (r: bool)
        ensures
            r == (forall|i: int| #![trigger self@.classes[i]] 0 <= i < self@.classes.len() ==> (self@.classes[i].extends matches Some(t) ==> !(t is Undefined))),
    {
        let ghost p = self@;
        let v = self.classes();
        let mut i: usize = 0;
        while i < v.len()
            invariant
                p == self@,
                
                v@.map_values(|x: Class| x@) == p.classes,
                i <= v.len(),
                forall|a: int| #![trigger p.classes[a]] 0 <= a < i ==> (p.classes[a].extends matches Some(t) ==> !(t is Undefined)),
            decreases v.len() - i,
        {
            proof {
                assert(v@[i as int]@ == p.classes[i as int]);
            }
            if !(match (&v[i]).extends() { Some(t) => !t.is_undefined(), None => true }) {
                assert(!((p.classes[i as int].extends matches Some(t) ==> !(t is Undefined))));
                return false;
            }
            i += 1;
        }
        true
    }

    fn defined_instances(&self) -> (r: bool)
        ensures
            r == (forall|i: int| #![trigger self@.instances[i]] 0 <= i < self@.instances.len() ==> !(self@.instances[i].typ is Undefined)),
    {
        let ghost p = self@;
        let v = self.instances();
        let mut i: usize = 0;
        while i < v.len()
            invariant
                p == self@,
                
                v@.map_values(|x: Instance| x@) == p.instances,
                i <= v.len(),
                forall|a: int| #![trigger p.instances[a]] 0 <= a < i ==> !(p.instances[a].typ is Undefined),
            decreases v.len() - i,
        {
            proof {
                assert(v@[i as int]@ == p.instances[i as int]);
            }
            if !(!(&v[i]).typ().is_undefined()) {
                assert(!(!(p.instances[i as int].typ is Undefined)));
                return false;
            }
            i += 1;
        }
        true
    }

    fn defined_variables(&self) -> (r: bool)
        ensures
            r == (forall|i: int| #![trigger self@.variables[i]] 0 <= i < self@.variables.len() ==> (!(self@.variables[i].typ is Undefined) && opt_defined(self@.variables[i].expr))),
    {
        let ghost p = self@;
        let v = self.variables();
        let mut i: usize = 0;
        while i < v.len()
            invariant
                p == self@,
                
                v@.map_values(|x: Variable| x@) == p.variables,
                i <= v.len(),
                forall|a: int| #![trigger p.variables[a]] 0 <= a < i ==> (!(p.variables[a].typ is Undefined) && opt_defined(p.variables[a].expr)),
            decreases v.len() - i,
        {
            proof {
                assert(v@[i as int]@ == p.variables[i as int]);
            }
            if !((!(&v[i]).typ().is_undefined() && opt_defined_ok((&v[i]).expr()))) {
                assert(!((!(p.variables[i as int].typ is Undefined) && opt_defined(p.variables[i as int].expr))));
                return false;
            }
            i += 1;
        }
        true
    }

    fn defined_functions(&self) -> (r: bool)
        ensures
            r == (forall|i: int| #![trigger self@.functions[i]] 0 <= i < self@.functions.len() ==> (!(self@.functions[i].typ is Undefined) && params_defined(self@.functions[i].parameters) && opt_defined(self@.functions[i].expr))),
    {
        let ghost p = self@;
        let v = self.functions();
        let mut i: usize = 0;
        while i < v.len()
            invariant
                p == self@,
                
                v@.map_values(|x: Function| x@) == p.functions,
                i <= v.len(),
                forall|a: int| #![trigger p.functions[a]] 0 <= a < i ==> (!(p.functions[a].typ is Undefined) && params_defined(p.functions[a].parameters) && opt_defined(p.functions[a].expr)),
            decreases v.len() - i,
        {
            proof {
                assert(v@[i as int]@ == p.functions[i as int]);
            }
            if !((!(&v[i]).typ().is_undefined() && params_defined_ok((&v[i]).parameters()) && opt_defined_ok((&v[i]).expr()))) {
                assert(!((!(p.functions[i as int].typ is Undefined) && params_defined(p.functions[i as int].parameters) && opt_defined(p.functions[i as int].expr))));
                return false;
            }
            i += 1;
        }
        true
    }

    fn defined_constraints(&self) -> (r: bool)
        ensures
            r == (forall|i: int| #![trigger self@.constraints[i]] 0 <= i < self@.constraints.len() ==> every(NodeCheck::TypesDefined, self@.constraints[i].expr)),
    {
        let ghost p = self@;
        let v = self.constraints();
        let mut i: usize = 0;
        while i < v.len()
            invariant
                p == self@,
                
                v@.map_values(|x: Constraint| x@) == p.constraints,
                i <= v.len(),
                forall|a: int| #![trigger p.constraints[a]] 0 <= a < i ==> every(NodeCheck::TypesDefined, p.constraints[a].expr),
            decreases v.len() - i,
        {
            proof {
                assert(v@[i as int]@ == p.constraints[i as int]);
            }
            if !(every_ok(NodeCheck::TypesDefined, (&v[i]).expr())) {
                assert(!(every(NodeCheck::TypesDefined, p.constraints[i as int].expr)));
                return false;
            }
            i += 1;
        }
        true
    }

    fn params_structures(&self) -> (r: bool)
        ensures
            r == (forall|i: int| #![trigger self@.structures[i]] 0 <= i < self@.structures.len() ==> struct_has_params(self@.structures[i])),
    {
        let ghost p = self@;
        let v = self.structures();
        let mut i: usize = 0;
        while i < v.len()
            invariant
                p == self@,
                
                v@.map_values(|x: Structure| x@) == p.structures,
                i <= v.len(),
                forall|a: int| #![trigger p.structures[a]] 0 <= a < i ==> struct_has_params(p.structures[a]),
            decreases v.len() - i,
        {
            proof {
                assert(v@[i as int]@ == p.structures[i as int]);
            }
            if !(meths_have_params((&v[i]).methods())) {
                assert(!(struct_has_params(p.structures[i as int])));
                return false;
            }
            i += 1;
        }
        true
    }

    fn params_classes(&self) -> (r: bool)
        ensures
            r == (forall|i: int| #![trigger self@.classes[i]] 0 <= i < self@.classes.len() ==> class_has_params(self@.classes[i])),
    {
        let ghost p = self@;
        let v = self.classes();
        let mut i: usize = 0;
        while i < v.len()
            invariant
                p == self@,
                
                v@.map_values(|x: Class| x@) == p.classes,
                i <= v.len(),
                forall|a: int| #![trigger p.classes[a]] 0 <= a < i ==> class_has_params(p.classes[a]),
            decreases v.len() - i,
        {
            proof {
                assert(v@[i as int]@ == p.classes[i as int]);
            }
            if !(meths_have_params((&v[i]).methods())) {
                assert(!(class_has_params(p.classes[i as int])));
                return false;
            }
            i += 1;
        }
        true
    }

    fn params_functions(&self) -> (r: bool)
        ensures
            r == (forall|i: int| #![trigger self@.functions[i]] 0 <= i < self@.functions.len() ==> self@.functions[i].parameters.len() >= 1),
    {
        let ghost p = self@;
        let v = self.functions();
        let mut i: usize = 0;
        while i < v.len()
            invariant
                p == self@,
                
                v@.map_values(|x: Function| x@) == p.functions,
                i <= v.len(),
                forall|a: int| #![trigger p.functions[a]] 0 <= a < i ==> p.functions[a].parameters.len() >= 1,
            decreases v.len() - i,
        {
            proof {
                assert(v@[i as int]@ == p.functions[i as int]);
            }
            if !((&v[i]).parameters().len() >= 1) {
                assert(!(p.functions[i as int].parameters.len() >= 1));
                return false;
            }
            i += 1;
        }
        true
    }

    fn types_variables(&self) -> (r: bool)
        ensures
            r == (forall|i: int| #![trigger self@.variables[i]] 0 <= i < self@.variables.len() ==> type_valid(self@, self@.variables[i].typ)),
    {
        let ghost p = self@;
        let v = self.variables();
        let mut i: usize = 0;
        while i < v.len()
            invariant
                p == self@,
                
                v@.map_values(|x: Variable| x@) == p.variables,
                i <= v.len(),
                forall|a: int| #![trigger p.variables[a]] 0 <= a < i ==> type_valid(p, p.variables[a].typ),
            decreases v.len() - i,
        {
            proof {
                assert(v@[i as int]@ == p.variables[i as int]);
            }
            if !(type_ok(self, (&v[i]).typ())) {
                assert(!(type_valid(p, p.variables[i as int].typ)));
                return false;
            }
            i += 1;
        }
        true
    }

    fn types_instances(&self) -> (r: bool)
        ensures
            r == (forall|i: int| #![trigger self@.instances[i]] 0 <= i < self@.instances.len() ==> type_valid(self@, self@.instances[i].typ)),
    {
        let ghost p = self@;
        let v = self.instances();
        let mut i: usize = 0;
        while i < v.len()
            invariant
                p == self@,
                
                v@.map_values(|x: Instance| x@) == p.instances,
                i <= v.len(),
                forall|a: int| #![trigger p.instances[a]] 0 <= a < i ==> type_valid(p, p.instances[a].typ),
            decreases v.len() - i,
        {
            proof {
                assert(v@[i as int]@ == p.instances[i as int]);
            }
            if !(type_ok(self, (&v[i]).typ())) {
                assert(!(type_valid(p, p.instances[i as int].typ)));
                return false;
            }
            i += 1;
        }
        true
    }

    fn types_functions(&self) -> (r: bool)
        ensures
            r == (forall|i: int| #![trigger self@.functions[i]] 0 <= i < self@.functions.len() ==> (type_valid(self@, self@.functions[i].typ) && params_valid(self@, self@.functions[i].parameters))),
    {
        let ghost p = self@;
        let v = self.functions();
        let mut i: usize = 0;
        while i < v.len()
            invariant
                p == self@,
                
                v@.map_values(|x: Function| x@) == p.functions,
                i <= v.len(),
                forall|a: int| #![trigger p.functions[a]] 0 <= a < i ==> (type_valid(p, p.functions[a].typ) && params_valid(p, p.functions[a].parameters)),
            decreases v.len() - i,
        {
            proof {
                assert(v@[i as int]@ == p.functions[i as int]);
            }
            if !((type_ok(self, (&v[i]).typ()) && params_ok(self, (&v[i]).parameters()))) {
                assert(!((type_valid(p, p.functions[i as int].typ) && params_valid(p, p.functions[i as int].parameters))));
                return false;
            }
            i += 1;
        }
        true
    }

    fn types_classes(&self) -> (r: bool)
        ensures
            r == (forall|i: int| #![trigger self@.classes[i]] 0 <= i < self@.classes.len() ==> (self@.classes[i].extends matches Some(t) ==> type_valid(self@, t))),
    {
        let ghost p = self@;
        let v = self.classes();
        let mut i: usize = 0;
        while i < v.len()
            invariant
                p == self@,
                
                v@.map_values(|x: Class| x@) == p.classes,
                i <= v.len(),
                forall|a: int| #![trigger p.classes[a]] 0 <= a < i ==> (p.classes[a].extends matches Some(t) ==> type_valid(p, t)),
            decreases v.len() - i,
        {
            proof {
                assert(v@[i as int]@ == p.classes[i as int]);
            }
            if !(match (&v[i]).extends() { Some(t) => type_ok(self, t), None => true }) {
                assert(!((p.classes[i as int].extends matches Some(t) ==> type_valid(p, t))));
                return false;
            }
            i += 1;
        }
        true
    }

    fn types_structures_attributes(&self) -> (r: bool)
        ensures
            r == (forall|i: int, j: int| #![trigger self@.structures[i].attributes[j]] 0 <= i < self@.structures.len() && 0 <= j < self@.structures[i].attributes.len() ==> type_valid(self@, self@.structures[i].attributes[j].typ)),
    {
        let ghost p = self@;
        let v = self.structures();
        let mut i: usize = 0;
        while i < v.len()
            invariant
                p == self@,
                
                v@.map_values(|x: Structure| x@) == p.structures,
                i <= v.len(),
                forall|a: int, b: int| #![trigger p.structures[a].attributes[b]] 0 <= a < i && 0 <= b < p.structures[a].attributes.len() ==> type_valid(p, p.structures[a].attributes[b].typ),
            decreases v.len() - i,
        {
            let w = v[i].attributes();
            proof {
                assert(v@[i as int]@ == p.structures[i as int]);
            }
            let mut j: usize = 0;
            while j < w.len()
                invariant
                    p == self@,
                    
                    v@.map_values(|x: Structure| x@) == p.structures,
                    i < v.len(),
                    attrs_view(w@) == p.structures[i as int].attributes,
                    j <= w.len(),
                    forall|a: int, b: int| #![trigger p.structures[a].attributes[b]] 0 <= a < i && 0 <= b < p.structures[a].attributes.len() ==> type_valid(p, p.structures[a].attributes[b].typ),
                    forall|b: int| #![trigger p.structures[i as int].attributes[b]] 0 <= b < j ==> type_valid(p, p.structures[i as int].attributes[b].typ),
                decreases w.len() - j,
            {
                proof {
                    assert(w@[j as int]@ == p.structures[i as int].attributes[j as int]);
                }
                if !(type_ok(self, (&w[j]).typ())) {
                    assert(!(type_valid(p, p.structures[i as int].attributes[j as int].typ)));
                    return false;
                }
                j += 1;
            }
            proof {
                assert forall|a: int, b: int| #![trigger p.structures[a].attributes[b]] 0 <= a < i + 1 && 0 <= b < p.structures[a].attributes.len() implies type_valid(p, p.structures[a].attributes[b].typ) by {
                    if a == i {
                        assert(type_valid(p, p.structures[i as int].attributes[b].typ));
                    }
                }
            }
            i += 1;
        }
        true
    }

    fn types_structures_methods(&self) -> (r: bool)
        ensures
            r == (forall|i: int, j: int| #![trigger self@.structures[i].methods[j]] 0 <= i < self@.structures.len() && 0 <= j < self@.structures[i].methods.len() ==> (type_valid(self@, self@.structures[i].methods[j].typ) && params_valid(self@, self@.structures[i].methods[j].parameters))),
    {
        let ghost p = self@;
        let v = self.structures();
        let mut i: usize = 0;
        while i < v.len()
            invariant
                p == self@,
                
                v@.map_values(|x: Structure| x@) == p.structures,
                i <= v.len(),
                forall|a: int, b: int| #![trigger p.structures[a].methods[b]] 0 <= a < i && 0 <= b < p.structures[a].methods.len() ==> (type_valid(p, p.structures[a].methods[b].typ) && params_valid(p, p.structures[a].methods[b].parameters)),
            decreases v.len() - i,
        {
            let w = v[i].methods();
            proof {
                assert(v@[i as int]@ == p.structures[i as int]);
            }
            let mut j: usize = 0;
            while j < w.len()
                invariant
                    p == self@,
                    
                    v@.map_values(|x: Structure| x@) == p.structures,
                    i < v.len(),
                    meths_view(w@) == p.structures[i as int].methods,
                    j <= w.len(),
                    forall|a: int, b: int| #![trigger p.structures[a].methods[b]] 0 <= a < i && 0 <= b < p.structures[a].methods.len() ==> (type_valid(p, p.structures[a].methods[b].typ) && params_valid(p, p.structures[a].methods[b].parameters)),
                    forall|b: int| #![trigger p.structures[i as int].methods[b]] 0 <= b < j ==> (type_valid(p, p.structures[i as int].methods[b].typ) && params_valid(p, p.structures[i as int].methods[b].parameters)),
                decreases w.len() - j,
            {
                proof {
                    assert(w@[j as int]@ == p.structures[i as int].methods[j as int]);
                }
                if !(meth_types_ok(self, (&w[j]))) {
                    assert(!((type_valid(p, p.structures[i as int].methods[j as int].typ) && params_valid(p, p.structures[i as int].methods[j as int].parameters))));
                    return false;
                }
                j += 1;
            }
            proof {
                assert forall|a: int, b: int| #![trigger p.structures[a].methods[b]] 0 <= a < i + 1 && 0 <= b < p.structures[a].methods.len() implies (type_valid(p, p.structures[a].methods[b].typ) && params_valid(p, p.structures[a].methods[b].parameters)) by {
                    if a == i {
                        assert((type_valid(p, p.structures[i as int].methods[b].typ) && params_valid(p, p.structures[i as int].methods[b].parameters)));
                    }
                }
            }
            i += 1;
        }
        true
    }

    fn types_classes_attributes(&self) -> (r: bool)
        ensures
            r == (forall|i: int, j: int| #![trigger self@.classes[i].attributes[j]] 0 <= i < self@.classes.len() && 0 <= j < self@.classes[i].attributes.len() ==> type_valid(self@, self@.classes[i].attributes[j].typ)),
    {
        let ghost p = self@;
        let v = self.classes();
        let mut i: usize = 0;
        while i < v.len()
            invariant
                p == self@,
                
                v@.map_values(|x: Class| x@) == p.classes,
                i <= v.len(),
                forall|a: int, b: int| #![trigger p.classes[a].attributes[b]] 0 <= a < i && 0 <= b < p.classes[a].attributes.len() ==> type_valid(p, p.classes[a].attributes[b].typ),
            decreases v.len() - i,
        {
            let w = v[i].attributes();
            proof {
                assert(v@[i as int]@ == p.classes[i as int]);
            }
            let mut j: usize = 0;
            while j < w.len()
                invariant
                    p == self@,
                    
                    v@.map_values(|x: Class| x@) == p.classes,
                    i < v.len(),
                    attrs_view(w@) == p.classes[i as int].attributes,
                    j <= w.len(),
                    forall|a: int, b: int| #![trigger p.classes[a].attributes[b]] 0 <= a < i && 0 <= b < p.classes[a].attributes.len() ==> type_valid(p, p.classes[a].attributes[b].typ),
                    forall|b: int| #![trigger p.classes[i as int].attributes[b]] 0 <= b < j ==> type_valid(p, p.classes[i as int].attributes[b].typ),
                decreases w.len() - j,
            {
                proof {
                    assert(w@[j as int]@ == p.classes[i as int].attributes[j as int]);
                }
                if !(type_ok(self, (&w[j]).typ())) {
                    assert(!(type_valid(p, p.classes[i as int].attributes[j as int].typ)));
                    return false;
                }
                j += 1;
            }
            proof {
                assert forall|a: int, b: int| #![trigger p.classes[a].attributes[b]] 0 <= a < i + 1 && 0 <= b < p.classes[a].attributes.len() implies type_valid(p, p.classes[a].attributes[b].typ) by {
                    if a == i {
                        assert(type_valid(p, p.classes[i as int].attributes[b].typ));
                    }
                }
            }
            i += 1;
        }
        true
    }

    fn types_classes_methods(&self) -> (r: bool)
        ensures
            r == (forall|i: int, j: int| #![trigger self@.classes[i].methods[j]] 0 <= i < self@.classes.len() && 0 <= j < self@.classes[i].methods.len() ==> (type_valid(self@, self@.classes[i].methods[j].typ) && params_valid(self@, self@.classes[i].methods[j].parameters))),
    {
        let ghost p = self@;
        let v = self.classes();
        let mut i: usize = 0;
        while i < v.len()
            invariant
                p == self@,
                
                v@.map_values(|x: Class| x@) == p.classes,
                i <= v.len(),
                forall|a: int, b: int| #![trigger p.classes[a].methods[b]] 0 <= a < i && 0 <= b < p.classes[a].methods.len() ==> (type_valid(p, p.classes[a].methods[b].typ) && params_valid(p, p.classes[a].methods[b].parameters)),
            decreases v.len() - i,
        {
            let w = v[i].methods();
            proof {
                assert(v@[i as int]@ == p.classes[i as int]);
            }
            let mut j: usize = 0;
            while j < w.len()
                invariant
                    p == self@,
                    
                    v@.map_values(|x: Class| x@) == p.classes,
                    i < v.len(),
                    meths_view(w@) == p.classes[i as int].methods,
                    j <= w.len(),
                    forall|a: int, b: int| #![trigger p.classes[a].methods[b]] 0 <= a < i && 0 <= b < p.classes[a].methods.len() ==> (type_valid(p, p.classes[a].methods[b].typ) && params_valid(p, p.classes[a].methods[b].parameters)),
                    forall|b: int| #![trigger p.classes[i as int].methods[b]] 0 <= b < j ==> (type_valid(p, p.classes[i as int].methods[b].typ) && params_valid(p, p.classes[i as int].methods[b].parameters)),
                decreases w.len() - j,
            {
                proof {
                    assert(w@[j as int]@ == p.classes[i as int].methods[j as int]);
                }
                if !(meth_types_ok(self, (&w[j]))) {
                    assert(!((type_valid(p, p.classes[i as int].methods[j as int].typ) && params_valid(p, p.classes[i as int].methods[j as int].parameters))));
                    return false;
                }
                j += 1;
            }
            proof {
                assert forall|a: int, b: int| #![trigger p.classes[a].methods[b]] 0 <= a < i + 1 && 0 <= b < p.classes[a].methods.len() implies (type_valid(p, p.classes[a].methods[b].typ) && params_valid(p, p.classes[a].methods[b].parameters)) by {
                    if a == i {
                        assert((type_valid(p, p.classes[i as int].methods[b].typ) && params_valid(p, p.classes[i as int].methods[b].parameters)));
                    }
                }
            }
            i += 1;
        }
        true
    }

    fn hierarchy_classes(&self) -> (r: bool)
        ensures
            r == (forall|i: int| #![trigger self@.classes[i]] 0 <= i < self@.classes.len() ==> (spec_super_class(self@.classes[i]) matches Some(s) ==> s.0 < self@.classes.len())),
    {
        let ghost p = self@;
        let v = self.classes();
        let mut i: usize = 0;
        while i < v.len()
            invariant
                p == self@,
                
                v@.map_values(|x: Class| x@) == p.classes,
                i <= v.len(),
                forall|a: int| #![trigger p.classes[a]] 0 <= a < i ==> (spec_super_class(p.classes[a]) matches Some(s) ==> s.0 < p.classes.len()),
            decreases v.len() - i,
        {
            proof {
                assert(v@[i as int]@ == p.classes[i as int]);
            }
            if !(match (&v[i]).super_class() { Some(s) => s.0 < self.classes().len(), None => true }) {
                assert(!((spec_super_class(p.classes[i as int]) matches Some(s) ==> s.0 < p.classes.len())));
                return false;
            }
            i += 1;
        }
        true
    }

    fn ids_structures(&self) -> (r: bool)
        ensures
            r == (forall|i: int| #![trigger self@.structures[i]] 0 <= i < self@.structures.len() ==> (self@.structures[i].id == StructureId(i as usize) && self@.structures[i].typ == SpecType::Structure(StructureId(i as usize)) && (forall|n: int| 0 <= n < self@.structures[i].attributes.len() ==> #[trigger] self@.structures[i].attributes[n].id == AttributeId(StructureId(i as usize), n as usize)) && (forall|n: int| 0 <= n < self@.structures[i].methods.len() ==> #[trigger] self@.structures[i].methods[n].id == MethodId(StructureId(i as usize), n as usize)))),
    {
        let ghost p = self@;
        let v = self.structures();
        let mut i: usize = 0;
        while i < v.len()
            invariant
                p == self@,
                
                v@.map_values(|x: Structure| x@) == p.structures,
                i <= v.len(),
                forall|a: int| #![trigger p.structures[a]] 0 <= a < i ==> (p.structures[a].id == StructureId(a as usize) && p.structures[a].typ == SpecType::Structure(StructureId(a as usize)) && (forall|n: int| 0 <= n < p.structures[a].attributes.len() ==> #[trigger] p.structures[a].attributes[n].id == AttributeId(StructureId(a as usize), n as usize)) && (forall|n: int| 0 <= n < p.structures[a].methods.len() ==> #[trigger] p.structures[a].methods[n].id == MethodId(StructureId(a as usize), n as usize))),
            decreases v.len() - i,
        {
            proof {
                assert(v@[i as int]@ == p.structures[i as int]);
            }
            if !(((&v[i]).id().0 == i && (match (&v[i]).typ() { Type::Structure(s) => s.0 == i, _ => false }) && attr_ids_ok_structure((&v[i]).attributes(), StructureId(i)) && meth_ids_ok_structure((&v[i]).methods(), StructureId(i)))) {
                assert(!((p.structures[i as int].id == StructureId((i as int) as usize) && p.structures[i as int].typ == SpecType::Structure(StructureId((i as int) as usize)) && (forall|n: int| 0 <= n < p.structures[i as int].attributes.len() ==> #[trigger] p.structures[i as int].attributes[n].id == AttributeId(StructureId((i as int) as usize), n as usize)) && (forall|n: int| 0 <= n < p.structures[i as int].methods.len() ==> #[trigger] p.structures[i as int].methods[n].id == MethodId(StructureId((i as int) as usize), n as usize)))));
                return false;
            }
            i += 1;
        }
        true
    }

    fn ids_classes(&self) -> (r: bool)
        ensures
            r == (forall|i: int| #![trigger self@.classes[i]] 0 <= i < self@.classes.len() ==> (self@.classes[i].id == ClassId(i as usize) && self@.classes[i].typ == SpecType::Class(ClassId(i as usize)) && (forall|n: int| 0 <= n < self@.classes[i].attributes.len() ==> #[trigger] self@.classes[i].attributes[n].id == AttributeId(ClassId(i as usize), n as usize)) && (forall|n: int| 0 <= n < self@.classes[i].methods.len() ==> #[trigger] self@.classes[i].methods[n].id == MethodId(ClassId(i as usize), n as usize)))),
    {
        let ghost p = self@;
        let v = self.classes();
        let mut i: usize = 0;
        while i < v.len()
            invariant
                p == self@,
                
                v@.map_values(|x: Class| x@) == p.classes,
                i <= v.len(),
                forall|a: int| #![trigger p.classes[a]] 0 <= a < i ==> (p.classes[a].id == ClassId(a as usize) && p.classes[a].typ == SpecType::Class(ClassId(a as usize)) && (forall|n: int| 0 <= n < p.classes[a].attributes.len() ==> #[trigger] p.classes[a].attributes[n].id == AttributeId(ClassId(a as usize), n as usize)) && (forall|n: int| 0 <= n < p.classes[a].methods.len() ==> #[trigger] p.classes[a].methods[n].id == MethodId(ClassId(a as usize), n as usize))),
            decreases v.len() - i,
        {
            proof {
                assert(v@[i as int]@ == p.classes[i as int]);
            }
            if !(((&v[i]).id().0 == i && (match (&v[i]).typ() { Type::Class(s) => s.0 == i, _ => false }) && attr_ids_ok_class((&v[i]).attributes(), ClassId(i)) && meth_ids_ok_class((&v[i]).methods(), ClassId(i)))) {
                assert(!((p.classes[i as int].id == ClassId((i as int) as usize) && p.classes[i as int].typ == SpecType::Class(ClassId((i as int) as usize)) && (forall|n: int| 0 <= n < p.classes[i as int].attributes.len() ==> #[trigger] p.classes[i as int].attributes[n].id == AttributeId(ClassId((i as int) as usize), n as usize)) && (forall|n: int| 0 <= n < p.classes[i as int].methods.len() ==> #[trigger] p.classes[i as int].methods[n].id == MethodId(ClassId((i as int) as usize), n as usize)))));
                return false;
            }
            i += 1;
        }
        true
    }

    fn ids_instances(&self) -> (r: bool)
        ensures
            r == (forall|i: int| #![trigger self@.instances[i]] 0 <= i < self@.instances.len() ==> self@.instances[i].id == InstanceId(i as usize)),
    {
        let ghost p = self@;
        let v = self.instances();
        let mut i: usize = 0;
        while i < v.len()
            invariant
                p == self@,
                
                v@.map_values(|x: Instance| x@) == p.instances,
                i <= v.len(),
                forall|a: int| #![trigger p.instances[a]] 0 <= a < i ==> p.instances[a].id == InstanceId(a as usize),
            decreases v.len() - i,
        {
            proof {
                assert(v@[i as int]@ == p.instances[i as int]);
            }
            if !((&v[i]).id().0 == i) {
                assert(!(p.instances[i as int].id == InstanceId((i as int) as usize)));
                return false;
            }
            i += 1;
        }
        true
    }

    fn ids_variables(&self) -> (r: bool)
        ensures
            r == (forall|i: int| #![trigger self@.variables[i]] 0 <= i < self@.variables.len() ==> self@.variables[i].id == VariableId(i as usize)),
    {
        let ghost p = self@;
        let v = self.variables();
        let mut i: usize = 0;
        while i < v.len()
            invariant
                p == self@,
                
                v@.map_values(|x: Variable| x@) == p.variables,
                i <= v.len(),
                forall|a: int| #![trigger p.variables[a]] 0 <= a < i ==> p.variables[a].id == VariableId(a as usize),
            decreases v.len() - i,
        {
            proof {
                assert(v@[i as int]@ == p.variables[i as int]);
            }
            if !((&v[i]).id().0 == i) {
                assert(!(p.variables[i as int].id == VariableId((i as int) as usize)));
                return false;
            }
            i += 1;
        }
        true
    }

    fn ids_functions(&self) -> (r: bool)
        ensures
            r == (forall|i: int| #![trigger self@.functions[i]] 0 <= i < self@.functions.len() ==> self@.functions[i].id == FunctionId(i as usize)),
    {
        let ghost p = self@;
        let v = self.functions();
        let mut i: usize = 0;
        while i < v.len()
            invariant
                p == self@,
                
                v@.map_values(|x: Function| x@) == p.functions,
                i <= v.len(),
                forall|a: int| #![trigger p.functions[a]] 0 <= a < i ==> p.functions[a].id == FunctionId(a as usize),
            decreases v.len() - i,
        {
            proof {
                assert(v@[i as int]@ == p.functions[i as int]);
            }
            if !((&v[i]).id().0 == i) {
                assert(!(p.functions[i as int].id == FunctionId((i as int) as usize)));
                return false;
            }
            i += 1;
        }
        true
    }

    fn ids_constraints(&self) -> (r: bool)
        ensures
            r == (forall|i: int| #![trigger self@.constraints[i]] 0 <= i < self@.constraints.len() ==> self@.constraints[i].id == ConstraintId(i as usize)),
    {
        let ghost p = self@;
        let v = self.constraints();
        let mut i: usize = 0;
        while i < v.len()
            invariant
                p == self@,
                
                v@.map_values(|x: Constraint| x@) == p.constraints,
                i <= v.len(),
                forall|a: int| #![trigger p.constraints[a]] 0 <= a < i ==> p.constraints[a].id == ConstraintId(a as usize),
            decreases v.len() - i,
        {
            proof {
                assert(v@[i as int]@ == p.constraints[i as int]);
            }
            if !((&v[i]).id().0 == i) {
                assert(!(p.constraints[i as int].id == ConstraintId((i as int) as usize)));
                return false;
            }
            i += 1;
        }
        true
    }
}

} // verus!
