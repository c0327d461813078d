//! What the solver is told about a problem: the bounds of the interval
//! variables, the definitions of attributes, methods, variables and
//! functions, and the constraints, in that order.

use crate::problem::attribute::attrs_view;
use crate::problem::class::SpecClass;
use crate::problem::constraint::Constraint;
use crate::problem::expr_checks::expr_ready;
use crate::problem::expr_checks::opt_ready;
use crate::problem::expression::every::NodeCheck;
use crate::problem::expression::every::every;
use crate::problem::expression::every::every_list;
use crate::problem::expression::expr::BinOp;
use crate::problem::expression::expr::Expr;
use crate::problem::expression::expr::SpecExpr;
use crate::problem::expression::expr::exprs_view;
use crate::problem::expression::expr::lemma_exprs_view;
use crate::problem::expression::expr::lemma_pairs_view;
use crate::problem::expression::expr::pairs_view;
use crate::problem::expression::type_inference::spec_type_inference;
use crate::problem::function::Function;
use crate::problem::hierarchy2::instances_of_type;
use crate::problem::ids::AttributeId;
use crate::problem::ids::ClassId;
use crate::problem::ids::FunctionId;
use crate::problem::ids::Id;
use crate::problem::ids::InstanceId;
use crate::problem::ids::MethodId;
use crate::problem::ids::StructureId;
use crate::problem::ids::VariableId;
use crate::problem::instance::Instance;
use crate::problem::method::meths_view;
use crate::problem::parameter::Parameter;
use crate::problem::parameter::SpecParameter;
use crate::problem::parameter::params_view;
use crate::problem::problem::Problem;
use crate::problem::problem::SpecProblem;
use crate::problem::relations::type_valid;
use crate::problem::structure::SpecStructure;
use crate::problem::typing::SpecType;
use crate::problem::typing::Type;
use crate::problem::valid::expr_valid;
use crate::problem::valid::exprs_valid;
use crate::problem::valid::params_valid;
use crate::problem::variable::Variable;
use crate::solve::encoding::level_terms;
use crate::solve::encoding::spec_term;
use crate::solve::smt::level_to_terms;
use crate::solve::smt::opt_terms;
use crate::solve::smt::to_bool;
use crate::solve::term::Sort;
use crate::solve::term::SpecTerm;
use crate::solve::term::Term;
use crate::solve::term::lemma_terms_concat;
use crate::solve::term::lemma_terms_view;
use crate::solve::term::terms_view;
use vstd::string::*;
use vstd::prelude::*;

verus! {

/// Both lists of terms one after the other; none where either is none.
pub open spec fn cat_opt(a: Option<Seq<SpecTerm>>, b: Option<Seq<SpecTerm>>) -> Option<Seq<SpecTerm>> {
    match (a, b) {
        (Some(x), Some(y)) => Some(x + y),
        _ => None,
    }
}

/// The expressions of a list of parameters.
pub open spec fn param_exprs(ps: Seq<SpecParameter>) -> Seq<SpecExpr> {
    ps.map_values(|q: SpecParameter| SpecExpr::Parameter(q))
}

/// The equation `l = r`, after type inference.
pub open spec fn equation(p: SpecProblem, l: SpecExpr, r: SpecExpr) -> SpecExpr {
    spec_type_inference(p, SpecExpr::Binary(Box::new(l), BinOp::Eq, Box::new(r), None))
}

/// The terms of a definition `body` for each of the first `n` instances
/// `insts`, `key` (the `self` of the definition) bound to the instance, one
/// for each combination of values of the parameters `ps`.
pub open spec fn instance_defs(
    p: SpecProblem,
    key: SpecExpr,
    insts: Seq<InstanceId>,
    ps: Seq<SpecParameter>,
    body: SpecExpr,
    n: nat,
) -> Option<Seq<SpecTerm>>
    decreases n,
{
    if n == 0 || n > insts.len() {
        Some(seq![])
    } else {
        cat_opt(
            instance_defs(p, key, insts, ps, body, (n - 1) as nat),
            level_terms(p, ps, 0, body, seq![(key, SpecExpr::Instance(insts[n - 1], None))], Sort::Bool),
        )
    }
}

/// The definitions of the first `n` attributes of structure `s`, for each of
/// its instances.
pub open spec fn struct_attr_defs(p: SpecProblem, s: SpecStructure, n: nat) -> Option<Seq<SpecTerm>>
    decreases n,
{
    if n == 0 || n > s.attributes.len() {
        Some(seq![])
    } else {
        let a = s.attributes[n - 1];
        let me = SpecExpr::StrucSelf(s.id, None);
        cat_opt(
            struct_attr_defs(p, s, (n - 1) as nat),
            match a.expr {
                Some(x) => {
                    let insts = instances_of_type(p.instances, s.typ);
                    let body = equation(p, SpecExpr::StrucAttribute(Box::new(me), a.id, None), x);
                    instance_defs(p, me, insts, seq![], body, insts.len())
                },
                None => Some(seq![]),
            },
        )
    }
}

/// The definitions of the first `n` methods of structure `s`, for each of
/// its instances and each combination of values of the parameters.
pub open spec fn struct_meth_defs(p: SpecProblem, s: SpecStructure, n: nat) -> Option<Seq<SpecTerm>>
    decreases n,
{
    if n == 0 || n > s.methods.len() {
        Some(seq![])
    } else {
        let m = s.methods[n - 1];
        let me = SpecExpr::StrucSelf(s.id, None);
        cat_opt(
            struct_meth_defs(p, s, (n - 1) as nat),
            match m.expr {
                Some(x) => {
                    let insts = instances_of_type(p.instances, s.typ);
                    let call = SpecExpr::StrucMetCall(
                        Box::new(me),
                        m.id,
                        param_exprs(m.parameters),
                        None,
                    );
                    instance_defs(p, me, insts, m.parameters, equation(p, call, x), insts.len())
                },
                None => Some(seq![]),
            },
        )
    }
}

/// The definitions of the first `n` attributes of class `c`, for each of
/// its own instances.
pub open spec fn class_attr_defs(p: SpecProblem, c: SpecClass, n: nat) -> Option<Seq<SpecTerm>>
    decreases n,
{
    if n == 0 || n > c.attributes.len() {
        Some(seq![])
    } else {
        let a = c.attributes[n - 1];
        let me = SpecExpr::ClassSelf(c.id, None);
        cat_opt(
            class_attr_defs(p, c, (n - 1) as nat),
            match a.expr {
                Some(x) => {
                    let insts = instances_of_type(p.instances, c.typ);
                    let body = equation(p, SpecExpr::ClassAttribute(Box::new(me), a.id, None), x);
                    instance_defs(p, me, insts, seq![], body, insts.len())
                },
                None => Some(seq![]),
            },
        )
    }
}

/// The definitions of the first `n` methods of class `c`, for each of its
/// own instances and each combination of values of the parameters.
pub open spec fn class_meth_defs(p: SpecProblem, c: SpecClass, n: nat) -> Option<Seq<SpecTerm>>
    decreases n,
{
    if n == 0 || n > c.methods.len() {
        Some(seq![])
    } else {
        let m = c.methods[n - 1];
        let me = SpecExpr::ClassSelf(c.id, None);
        cat_opt(
            class_meth_defs(p, c, (n - 1) as nat),
            match m.expr {
                Some(x) => {
                    let insts = instances_of_type(p.instances, c.typ);
                    let call = SpecExpr::ClassMetCall(
                        Box::new(me),
                        m.id,
                        param_exprs(m.parameters),
                        None,
                    );
                    instance_defs(p, me, insts, m.parameters, equation(p, call, x), insts.len())
                },
                None => Some(seq![]),
            },
        )
    }
}

/// The definitions of the first `n` structures.
pub open spec fn structures_defs(p: SpecProblem, n: nat) -> Option<Seq<SpecTerm>>
    decreases n,
{
    if n == 0 || n > p.structures.len() {
        Some(seq![])
    } else {
        let s = p.structures[n - 1];
        cat_opt(
            structures_defs(p, (n - 1) as nat),
            cat_opt(
                struct_attr_defs(p, s, s.attributes.len()),
                struct_meth_defs(p, s, s.methods.len()),
            ),
        )
    }
}

/// The definitions of the first `n` classes.
pub open spec fn classes_defs(p: SpecProblem, n: nat) -> Option<Seq<SpecTerm>>
    decreases n,
{
    if n == 0 || n > p.classes.len() {
        Some(seq![])
    } else {
        let c = p.classes[n - 1];
        cat_opt(
            classes_defs(p, (n - 1) as nat),
            cat_opt(class_attr_defs(p, c, c.attributes.len()), class_meth_defs(p, c, c.methods.len())),
        )
    }
}

/// The bounds of the first `n` variables whose type is an interval.
pub open spec fn var_bounds(p: SpecProblem, n: nat) -> Seq<SpecTerm>
    decreases n,
{
    if n == 0 || n > p.variables.len() {
        seq![]
    } else {
        let v = p.variables[n - 1];
        var_bounds(p, (n - 1) as nat) + match v.typ {
            SpecType::Interval(min, max) => seq![
                SpecTerm::Ge(
                    Box::new(SpecTerm::Variable(v.id, Sort::Int)),
                    Box::new(SpecTerm::IntValue(min)),
                ),
                SpecTerm::Le(
                    Box::new(SpecTerm::Variable(v.id, Sort::Int)),
                    Box::new(SpecTerm::IntValue(max)),
                ),
            ],
            _ => seq![],
        }
    }
}

/// The definitions of the first `n` variables.
pub open spec fn var_defs(p: SpecProblem, n: nat) -> Option<Seq<SpecTerm>>
    decreases n,
{
    if n == 0 || n > p.variables.len() {
        Some(seq![])
    } else {
        let v = p.variables[n - 1];
        cat_opt(
            var_defs(p, (n - 1) as nat),
            match v.expr {
                Some(x) => match spec_term(
                    p,
                    equation(p, SpecExpr::Variable(v.id, None), x),
                    seq![],
                    Sort::Bool,
                ) {
                    Some(t) => Some(seq![t]),
                    None => None,
                },
                None => Some(seq![]),
            },
        )
    }
}

/// The definitions of the first `n` functions, one for each combination of
/// values of the parameters.
pub open spec fn fun_defs(p: SpecProblem, n: nat) -> Option<Seq<SpecTerm>>
    decreases n,
{
    if n == 0 || n > p.functions.len() {
        Some(seq![])
    } else {
        let f = p.functions[n - 1];
        cat_opt(
            fun_defs(p, (n - 1) as nat),
            match f.expr {
                Some(x) => level_terms(
                    p,
                    f.parameters,
                    0,
                    equation(p, SpecExpr::FunctionCall(f.id, param_exprs(f.parameters), None), x),
                    seq![],
                    Sort::Bool,
                ),
                None => Some(seq![]),
            },
        )
    }
}

/// The first `n` constraints: each named constant equals its expression,
/// and holds.
pub open spec fn constraint_defs(p: SpecProblem, n: nat) -> Option<Seq<SpecTerm>>
    decreases n,
{
    if n == 0 || n > p.constraints.len() {
        Some(seq![])
    } else {
        let c = p.constraints[n - 1];
        cat_opt(
            constraint_defs(p, (n - 1) as nat),
            match spec_term(p, spec_type_inference(p, c.expr), seq![], Sort::Bool) {
                Some(t) => Some(
                    seq![
                        SpecTerm::Eq(Box::new(SpecTerm::Constraint(c.id)), Box::new(t)),
                        SpecTerm::Constraint(c.id),
                    ],
                ),
                None => None,
            },
        )
    }
}

/// Everything asserted of a problem, in order; none where an expression has
/// no term.
pub open spec fn spec_assertions(p: SpecProblem) -> Option<Seq<SpecTerm>> {
    cat_opt(
        Some(var_bounds(p, p.variables.len())),
        cat_opt(
            structures_defs(p, p.structures.len()),
            cat_opt(
                classes_defs(p, p.classes.len()),
                cat_opt(
                    var_defs(p, p.variables.len()),
                    cat_opt(fun_defs(p, p.functions.len()), constraint_defs(p, p.constraints.len())),
                ),
            ),
        ),
    )
}

/// Both lists of terms one after the other; none where either is none.
fn join_terms(a: Option<Vec<Term>>, b: Option<Vec<Term>>) -> (r: Option<Vec<Term>>)
    ensures
        opt_terms(r) == cat_opt(opt_terms(a), opt_terms(b)),
{
    match (a, b) {
        (Some(mut x), Some(mut y)) => {
            proof {
                lemma_terms_concat(x@, y@);
            }
            x.append(&mut y);
            Some(x)
        },
        _ => None,
    }
}

/// The expressions of the parameters are valid and resolved.
proof fn lemma_param_exprs(p: SpecProblem, ps: Seq<SpecParameter>, n: nat)
    requires
        params_valid(p, ps),
        n <= ps.len(),
    ensures
        every_list(NodeCheck::Resolved, param_exprs(ps), n),
        exprs_valid(p, param_exprs(ps).take(n as int)),
    decreases n,
{
    if n > 0 {
        lemma_param_exprs(p, ps, (n - 1) as nat);
        let e = param_exprs(ps)[n - 1];
        assert(e == SpecExpr::Parameter(ps[n - 1]));
        assert(type_valid(p, ps[n - 1].typ));
        assert(expr_valid(p, e));
        assert(every(NodeCheck::Resolved, e));
        assert(param_exprs(ps).take(n as int).drop_last() == param_exprs(ps).take(n - 1));
        assert(param_exprs(ps).take(n as int).last() == e);
    } else {
        assert(param_exprs(ps).take(0) =~= seq![]);
    }
}

/// The expressions of a list of parameters.
fn param_exprs_of(ps: &Vec<Parameter>) -> (r: Vec<Expr>)
    ensures
        exprs_view(r@) == param_exprs(params_view(ps@)),
{
    let ghost pv = params_view(ps@);
    let mut v: Vec<Expr> = Vec::new();
    let mut i: usize = 0;
    while i < ps.len()
        invariant
            i <= ps.len(),
            pv == params_view(ps@),
            v.len() == i,
            forall|k: int| 0 <= k < i ==> #[trigger] v@[k]@ == SpecExpr::Parameter(pv[k]),
        decreases ps.len() - i,
    {
        v.push(Expr::Parameter(ps[i].copy()));
        i += 1;
    }
    proof {
        lemma_exprs_view(v@);
        assert(exprs_view(v@) =~= param_exprs(pv));
    }
    v
}

/// The equation `l = r`, after type inference.
fn equation_of(problem: &Problem, l: Expr, r: &Expr) -> (e: Expr)
    requires
        problem@.wf(),
        expr_valid(problem@, l@),
        every(NodeCheck::Resolved, l@),
        expr_valid(problem@, r@),
        every(NodeCheck::Resolved, r@),
    ensures
        e@ == equation(problem@, l@, r@),
        expr_valid(problem@, e@),
{
    let b = Expr::Binary(Box::new(l), BinOp::Eq, Box::new(r.copy()), None);
    b.type_inference(problem)
}

/// The terms of a definition `body` for each instance of `insts`, `key`
/// bound to the instance.
fn instance_defs_of(
    problem: &Problem,
    key: &Expr,
    insts: &Vec<InstanceId>,
    ps: &Vec<Parameter>,
    body: &Expr,
) -> (r: Option<Vec<Term>>)
    requires
        problem@.wf(),
        params_valid(problem@, params_view(ps@)),
        expr_valid(problem@, body@),
    ensures
        opt_terms(r) == instance_defs(
            problem@,
            key@,
            insts@,
            params_view(ps@),
            body@,
            insts.len() as nat,
        ),
{
    let mut acc: Option<Vec<Term>> = Some(Vec::new());
    proof {
        assert(terms_view(Seq::<Term>::empty()) =~= seq![]);
    }
    let mut k: usize = 0;
    while k < insts.len()
        invariant
            problem@.wf(),
            params_valid(problem@, params_view(ps@)),
            expr_valid(problem@, body@),
            k <= insts.len(),
            opt_terms(acc) == instance_defs(
                problem@,
                key@,
                insts@,
                params_view(ps@),
                body@,
                k as nat,
            ),
        decreases insts.len() - k,
    {
        let b = (key.copy(), Expr::Instance(insts[k], None));
        let env = vec![b];
        proof {
            lemma_pairs_view(env@);
            assert(pairs_view(env@) =~= seq![(key@, SpecExpr::Instance(insts@[k as int], None))]);
        }
        let part = level_to_terms(problem, ps, 0, body, &env, Sort::Bool);
        acc = join_terms(acc, part);
        k += 1;
    }
    acc
}

/// The definitions of the attributes of the structure of index `i`, for each of its
/// instances.
fn struct_attr_defs_of(problem: &Problem, i: usize) -> (r: Option<Vec<Term>>)
    requires
        problem@.wf(),
        problem@.exprs_resolved(),
        i < problem@.structures.len(),
    ensures
        opt_terms(r) == struct_attr_defs(problem@, problem@.structures[i as int], problem@.structures[i as int].attributes.len()),
{
    let ghost p = problem@;
    let s = &problem.structures()[i];
    let ghost sv = p.structures[i as int];
    proof {
        assert(s@ == sv);
    }
    let insts = s.instances(problem);
    let attrs = s.attributes();
    let noparams: Vec<Parameter> = Vec::new();
    proof {
        assert(params_view(noparams@) =~= seq![]);
    }
    let mut acc: Option<Vec<Term>> = Some(Vec::new());
    proof {
        assert(terms_view(Seq::<Term>::empty()) =~= seq![]);
    }
    let mut j: usize = 0;
    while j < attrs.len()
        invariant
            p == problem@,
            p.wf(),
            p.exprs_resolved(),
            i < p.structures.len(),
            sv == p.structures[i as int],
            s@ == sv,
            attrs_view(attrs@) == sv.attributes,
            insts@ == instances_of_type(p.instances, sv.typ),
            params_view(noparams@) == Seq::<SpecParameter>::empty(),
            j <= attrs.len(),
            opt_terms(acc) == struct_attr_defs(p, sv, j as nat),
        decreases attrs.len() - j,
    {
        let a = &attrs[j];
        proof {
            assert(a@ == sv.attributes[j as int]);
            assert(sv.attributes[j as int].id == AttributeId(StructureId(i as usize), j as usize));
            assert(sv.id == StructureId(i as usize));
            assert(opt_ready(p, p.structures[i as int].attributes[j as int].expr));
        }
        let part = match a.expr() {
            Some(x) => {
                let me = Expr::StrucSelf(s.id(), None);
                let lhs = strucself_attr_expr(problem, s.id(), a.id());
                let body = equation_of(problem, lhs, x);
                instance_defs_of(problem, &me, &insts, &noparams, &body)
            },
            None => Some(Vec::new()),
        };
        proof {
            assert(terms_view(Seq::<Term>::empty()) =~= seq![]);
        }
        acc = join_terms(acc, part);
        j += 1;
    }
    acc
}

/// The definitions of the methods of the structure of index `i`, for each of its
/// instances and each combination of values of the parameters.
fn struct_meth_defs_of(problem: &Problem, i: usize) -> (r: Option<Vec<Term>>)
    requires
        problem@.wf(),
        problem@.exprs_resolved(),
        i < problem@.structures.len(),
    ensures
        opt_terms(r) == struct_meth_defs(problem@, problem@.structures[i as int], problem@.structures[i as int].methods.len()),
{
    let ghost p = problem@;
    let s = &problem.structures()[i];
    let ghost sv = p.structures[i as int];
    proof {
        assert(s@ == sv);
    }
    let insts = s.instances(problem);
    let meths = s.methods();
    let mut acc: Option<Vec<Term>> = Some(Vec::new());
    proof {
        assert(terms_view(Seq::<Term>::empty()) =~= seq![]);
    }
    let mut j: usize = 0;
    while j < meths.len()
        invariant
            p == problem@,
            p.wf(),
            p.exprs_resolved(),
            i < p.structures.len(),
            sv == p.structures[i as int],
            s@ == sv,
            meths_view(meths@) == sv.methods,
            insts@ == instances_of_type(p.instances, sv.typ),
            j <= meths.len(),
            opt_terms(acc) == struct_meth_defs(p, sv, j as nat),
        decreases meths.len() - j,
    {
        let m = &meths[j];
        proof {
            assert(m@ == sv.methods[j as int]);
            assert(sv.methods[j as int].id == MethodId(StructureId(i as usize), j as usize));
            assert(sv.id == StructureId(i as usize));
            assert(opt_ready(p, p.structures[i as int].methods[j as int].expr));
            assert(params_valid(p, p.structures[i as int].methods[j as int].parameters));
        }
        let part = match m.expr() {
            Some(x) => {
                let me = Expr::StrucSelf(s.id(), None);
                let args = param_exprs_of(m.parameters());
                proof {
                    lemma_param_exprs(p, m@.parameters, m@.parameters.len());
                    assert(param_exprs(m@.parameters).take(m@.parameters.len() as int) == param_exprs(
                        m@.parameters,
                    ));
                    lemma_exprs_view(args@);
                }
                let call = strucself_call_expr(problem, s.id(), m.id(), args);
                let body = equation_of(problem, call, x);
                instance_defs_of(problem, &me, &insts, m.parameters(), &body)
            },
            None => Some(Vec::new()),
        };
        proof {
            assert(terms_view(Seq::<Term>::empty()) =~= seq![]);
        }
        acc = join_terms(acc, part);
        j += 1;
    }
    acc
}

/// The definitions of the attributes of the class of index `i`, for each of its
/// instances.
fn class_attr_defs_of(problem: &Problem, i: usize) -> (r: Option<Vec<Term>>)
    requires
        problem@.wf(),
        problem@.exprs_resolved(),
        i < problem@.classes.len(),
    ensures
        opt_terms(r) == class_attr_defs(problem@, problem@.classes[i as int], problem@.classes[i as int].attributes.len()),
{
    let ghost p = problem@;
    let s = &problem.classes()[i];
    let ghost sv = p.classes[i as int];
    proof {
        assert(s@ == sv);
    }
    let insts = s.instances(problem);
    let attrs = s.attributes();
    let noparams: Vec<Parameter> = Vec::new();
    proof {
        assert(params_view(noparams@) =~= seq![]);
    }
    let mut acc: Option<Vec<Term>> = Some(Vec::new());
    proof {
        assert(terms_view(Seq::<Term>::empty()) =~= seq![]);
    }
    let mut j: usize = 0;
    while j < attrs.len()
        invariant
            p == problem@,
            p.wf(),
            p.exprs_resolved(),
            i < p.classes.len(),
            sv == p.classes[i as int],
            s@ == sv,
            attrs_view(attrs@) == sv.attributes,
            insts@ == instances_of_type(p.instances, sv.typ),
            params_view(noparams@) == Seq::<SpecParameter>::empty(),
            j <= attrs.len(),
            opt_terms(acc) == class_attr_defs(p, sv, j as nat),
        decreases attrs.len() - j,
    {
        let a = &attrs[j];
        proof {
            assert(a@ == sv.attributes[j as int]);
            assert(sv.attributes[j as int].id == AttributeId(ClassId(i as usize), j as usize));
            assert(sv.id == ClassId(i as usize));
            assert(opt_ready(p, p.classes[i as int].attributes[j as int].expr));
        }
        let part = match a.expr() {
            Some(x) => {
                let me = Expr::ClassSelf(s.id(), None);
                let lhs = classself_attr_expr(problem, s.id(), a.id());
                let body = equation_of(problem, lhs, x);
                instance_defs_of(problem, &me, &insts, &noparams, &body)
            },
            None => Some(Vec::new()),
        };
        proof {
            assert(terms_view(Seq::<Term>::empty()) =~= seq![]);
        }
        acc = join_terms(acc, part);
        j += 1;
    }
    acc
}

/// The definitions of the methods of the class of index `i`, for each of its
/// instances and each combination of values of the parameters.
fn class_meth_defs_of(problem: &Problem, i: usize) -> (r: Option<Vec<Term>>)
    requires
        problem@.wf(),
        problem@.exprs_resolved(),
        i < problem@.classes.len(),
    ensures
        opt_terms(r) == class_meth_defs(problem@, problem@.classes[i as int], problem@.classes[i as int].methods.len()),
{
    let ghost p = problem@;
    let s = &problem.classes()[i];
    let ghost sv = p.classes[i as int];
    proof {
        assert(s@ == sv);
    }
    let insts = s.instances(problem);
    let meths = s.methods();
    let mut acc: Option<Vec<Term>> = Some(Vec::new());
    proof {
        assert(terms_view(Seq::<Term>::empty()) =~= seq![]);
    }
    let mut j: usize = 0;
    while j < meths.len()
        invariant
            p == problem@,
            p.wf(),
            p.exprs_resolved(),
            i < p.classes.len(),
            sv == p.classes[i as int],
            s@ == sv,
            meths_view(meths@) == sv.methods,
            insts@ == instances_of_type(p.instances, sv.typ),
            j <= meths.len(),
            opt_terms(acc) == class_meth_defs(p, sv, j as nat),
        decreases meths.len() - j,
    {
        let m = &meths[j];
        proof {
            assert(m@ == sv.methods[j as int]);
            assert(sv.methods[j as int].id == MethodId(ClassId(i as usize), j as usize));
            assert(sv.id == ClassId(i as usize));
            assert(opt_ready(p, p.classes[i as int].methods[j as int].expr));
            assert(params_valid(p, p.classes[i as int].methods[j as int].parameters));
        }
        let part = match m.expr() {
            Some(x) => {
                let me = Expr::ClassSelf(s.id(), None);
                let args = param_exprs_of(m.parameters());
                proof {
                    lemma_param_exprs(p, m@.parameters, m@.parameters.len());
                    assert(param_exprs(m@.parameters).take(m@.parameters.len() as int) == param_exprs(
                        m@.parameters,
                    ));
                    lemma_exprs_view(args@);
                }
                let call = classself_call_expr(problem, s.id(), m.id(), args);
                let body = equation_of(problem, call, x);
                instance_defs_of(problem, &me, &insts, m.parameters(), &body)
            },
            None => Some(Vec::new()),
        };
        proof {
            assert(terms_view(Seq::<Term>::empty()) =~= seq![]);
        }
        acc = join_terms(acc, part);
        j += 1;
    }
    acc
}

/// The attribute `id` of `self`.
fn strucself_attr_expr(problem: &Problem, me: StructureId, id: AttributeId<StructureId>) -> (e: Expr)
    requires
        me.0 < problem@.structures.len(),
        problem@.has_struct_attr(id),
    ensures
        e@ == SpecExpr::StrucAttribute(Box::new(SpecExpr::StrucSelf(me, None)), id, None),
        expr_valid(problem@, e@),
        every(NodeCheck::Resolved, e@),
{
    let x = Expr::StrucSelf(me, None);
    assert(x@ == SpecExpr::StrucSelf(me, None));
    assert(expr_valid(problem@, x@));
    assert(every(NodeCheck::Resolved, x@));
    Expr::StrucAttribute(Box::new(x), id, None)
}

/// The call of method `id` on `self` with the arguments `args`.
fn strucself_call_expr(problem: &Problem, me: StructureId, id: MethodId<StructureId>, args: Vec<Expr>) -> (e: Expr)
    requires
        me.0 < problem@.structures.len(),
        problem@.has_struct_meth(id),
        exprs_valid(problem@, exprs_view(args@)),
        every_list(NodeCheck::Resolved, exprs_view(args@), args.len() as nat),
    ensures
        e@ == SpecExpr::StrucMetCall(Box::new(SpecExpr::StrucSelf(me, None)), id, exprs_view(args@), None),
        expr_valid(problem@, e@),
        every(NodeCheck::Resolved, e@),
{
    let x = Expr::StrucSelf(me, None);
    assert(x@ == SpecExpr::StrucSelf(me, None));
    assert(expr_valid(problem@, x@));
    assert(every(NodeCheck::Resolved, x@));
    proof {
        lemma_exprs_view(args@);
    }
    Expr::StrucMetCall(Box::new(x), id, args, None)
}

/// The attribute `id` of `self`.
fn classself_attr_expr(problem: &Problem, me: ClassId, id: AttributeId<ClassId>) -> (e: Expr)
    requires
        me.0 < problem@.classes.len(),
        problem@.has_class_attr(id),
    ensures
        e@ == SpecExpr::ClassAttribute(Box::new(SpecExpr::ClassSelf(me, None)), id, None),
        expr_valid(problem@, e@),
        every(NodeCheck::Resolved, e@),
{
    let x = Expr::ClassSelf(me, None);
    assert(x@ == SpecExpr::ClassSelf(me, None));
    assert(expr_valid(problem@, x@));
    assert(every(NodeCheck::Resolved, x@));
    Expr::ClassAttribute(Box::new(x), id, None)
}

/// The call of method `id` on `self` with the arguments `args`.
fn classself_call_expr(problem: &Problem, me: ClassId, id: MethodId<ClassId>, args: Vec<Expr>) -> (e: Expr)
    requires
        me.0 < problem@.classes.len(),
        problem@.has_class_meth(id),
        exprs_valid(problem@, exprs_view(args@)),
        every_list(NodeCheck::Resolved, exprs_view(args@), args.len() as nat),
    ensures
        e@ == SpecExpr::ClassMetCall(Box::new(SpecExpr::ClassSelf(me, None)), id, exprs_view(args@), None),
        expr_valid(problem@, e@),
        every(NodeCheck::Resolved, e@),
{
    let x = Expr::ClassSelf(me, None);
    assert(x@ == SpecExpr::ClassSelf(me, None));
    assert(expr_valid(problem@, x@));
    assert(every(NodeCheck::Resolved, x@));
    proof {
        lemma_exprs_view(args@);
    }
    Expr::ClassMetCall(Box::new(x), id, args, None)
}

/// The definitions of the structures, in order.
fn structures_defs_of(problem: &Problem) -> (r: Option<Vec<Term>>)
    requires
        problem@.wf(),
        problem@.exprs_resolved(),
    ensures
        opt_terms(r) == structures_defs(problem@, problem@.structures.len()),
{
    let n = problem.structures().len();
    let mut acc: Option<Vec<Term>> = Some(Vec::new());
    proof {
        assert(terms_view(Seq::<Term>::empty()) =~= seq![]);
    }
    let mut i: usize = 0;
    while i < n
        invariant
            problem@.wf(),
            problem@.exprs_resolved(),
            n == problem@.structures.len(),
            i <= n,
            opt_terms(acc) == structures_defs(problem@, i as nat),
        decreases n - i,
    {
        let a = struct_attr_defs_of(problem, i);
        let m = struct_meth_defs_of(problem, i);
        let part = join_terms(a, m);
        acc = join_terms(acc, part);
        i += 1;
    }
    acc
}

/// The definitions of the classes, in order.
fn classes_defs_of(problem: &Problem) -> (r: Option<Vec<Term>>)
    requires
        problem@.wf(),
        problem@.exprs_resolved(),
    ensures
        opt_terms(r) == classes_defs(problem@, problem@.classes.len()),
{
    let n = problem.classes().len();
    let mut acc: Option<Vec<Term>> = Some(Vec::new());
    proof {
        assert(terms_view(Seq::<Term>::empty()) =~= seq![]);
    }
    let mut i: usize = 0;
    while i < n
        invariant
            problem@.wf(),
            problem@.exprs_resolved(),
            n == problem@.classes.len(),
            i <= n,
            opt_terms(acc) == classes_defs(problem@, i as nat),
        decreases n - i,
    {
        let a = class_attr_defs_of(problem, i);
        let m = class_meth_defs_of(problem, i);
        let part = join_terms(a, m);
        acc = join_terms(acc, part);
        i += 1;
    }
    acc
}

/// The bounds of the variables whose type is an interval.
fn var_bounds_of(problem: &Problem) -> (r: Vec<Term>)
    ensures
        terms_view(r@) == var_bounds(problem@, problem@.variables.len()),
{
    let ghost p = problem@;
    let vars = problem.variables();
    let mut acc: Vec<Term> = Vec::new();
    proof {
        assert(terms_view(acc@) =~= seq![]);
    }
    let mut i: usize = 0;
    while i < vars.len()
        invariant
            p == problem@,
            vars@.map_values(|x: Variable| x@) == p.variables,
            i <= vars.len(),
            terms_view(acc@) == var_bounds(p, i as nat),
        decreases vars.len() - i,
    {
        let v = &vars[i];
        proof {
            assert(v@ == p.variables[i as int]);
        }
        match v.typ() {
            Type::Interval(min, max) => {
                let a = Term::Variable(v.id(), Sort::Int);
                let b = Term::IntValue(*min);
                assert(a@ == SpecTerm::Variable(v.id, Sort::Int) && b@ == SpecTerm::IntValue(*min));
                let lo = Term::Ge(Box::new(a), Box::new(b));
                let c = Term::Variable(v.id(), Sort::Int);
                let d = Term::IntValue(*max);
                assert(c@ == SpecTerm::Variable(v.id, Sort::Int) && d@ == SpecTerm::IntValue(*max));
                let hi = Term::Le(Box::new(c), Box::new(d));
                let mut two = vec![lo, hi];
                proof {
                    lemma_terms_view(two@);
                    lemma_terms_concat(acc@, two@);
                }
                acc.append(&mut two);
            },
            _ => {},
        }
        proof {
            assert(terms_view(acc@) =~= var_bounds(p, (i + 1) as nat));
        }
        i += 1;
    }
    acc
}

/// The definitions of the variables, in order.
fn var_defs_of(problem: &Problem) -> (r: Option<Vec<Term>>)
    requires
        problem@.wf(),
        problem@.exprs_resolved(),
    ensures
        opt_terms(r) == var_defs(problem@, problem@.variables.len()),
{
    let ghost p = problem@;
    let vars = problem.variables();
    let mut acc: Option<Vec<Term>> = Some(Vec::new());
    proof {
        assert(terms_view(Seq::<Term>::empty()) =~= seq![]);
    }
    let mut i: usize = 0;
    while i < vars.len()
        invariant
            p == problem@,
            p.wf(),
            p.exprs_resolved(),
            vars@.map_values(|x: Variable| x@) == p.variables,
            i <= vars.len(),
            opt_terms(acc) == var_defs(p, i as nat),
        decreases vars.len() - i,
    {
        let v = &vars[i];
        proof {
            assert(v@ == p.variables[i as int]);
            assert(opt_ready(p, p.variables[i as int].expr));
            assert(p.variables[i as int].id == VariableId(i as usize));
        }
        let part = match v.expr() {
            Some(x) => {
                let lhs = Expr::Variable(v.id(), None);
                assert(expr_valid(p, lhs@));
                let e = equation_of(problem, lhs, x);
                match to_bool(problem, &e) {
                    Some(t) => {
                        let w = vec![t];
                        proof {
                            lemma_terms_view(w@);
                            assert(terms_view(w@) =~= seq![t@]);
                        }
                        Some(w)
                    },
                    None => None,
                }
            },
            None => Some(Vec::new()),
        };
        proof {
            assert(terms_view(Seq::<Term>::empty()) =~= seq![]);
        }
        acc = join_terms(acc, part);
        i += 1;
    }
    acc
}

/// The definitions of the functions, in order.
fn fun_defs_of(problem: &Problem) -> (r: Option<Vec<Term>>)
    requires
        problem@.wf(),
        problem@.exprs_resolved(),
    ensures
        opt_terms(r) == fun_defs(problem@, problem@.functions.len()),
{
    let ghost p = problem@;
    let funs = problem.functions();
    let mut acc: Option<Vec<Term>> = Some(Vec::new());
    proof {
        assert(terms_view(Seq::<Term>::empty()) =~= seq![]);
    }
    let mut i: usize = 0;
    while i < funs.len()
        invariant
            p == problem@,
            p.wf(),
            p.exprs_resolved(),
            funs@.map_values(|x: Function| x@) == p.functions,
            i <= funs.len(),
            opt_terms(acc) == fun_defs(p, i as nat),
        decreases funs.len() - i,
    {
        let f = &funs[i];
        proof {
            assert(f@ == p.functions[i as int]);
            assert(opt_ready(p, p.functions[i as int].expr));
            assert(p.functions[i as int].id == FunctionId(i as usize));
            assert(params_valid(p, p.functions[i as int].parameters));
        }
        let part = match f.expr() {
            Some(x) => {
                let args = param_exprs_of(f.parameters());
                proof {
                    lemma_param_exprs(p, f@.parameters, f@.parameters.len());
                    assert(param_exprs(f@.parameters).take(f@.parameters.len() as int) == param_exprs(
                        f@.parameters,
                    ));
                    lemma_exprs_view(args@);
                }
                let call = Expr::FunctionCall(f.id(), args, None);
                assert(expr_valid(p, call@));
                let e = equation_of(problem, call, x);
                let env: Vec<(Expr, Expr)> = Vec::new();
                proof {
                    lemma_pairs_view(env@);
                    assert(pairs_view(env@) =~= seq![]);
                }
                level_to_terms(problem, f.parameters(), 0, &e, &env, Sort::Bool)
            },
            None => Some(Vec::new()),
        };
        proof {
            assert(terms_view(Seq::<Term>::empty()) =~= seq![]);
        }
        acc = join_terms(acc, part);
        i += 1;
    }
    acc
}

/// The constraints, in order: each named constant equals its expression,
/// and holds.
fn constraint_defs_of(problem: &Problem) -> (r: Option<Vec<Term>>)
    requires
        problem@.wf(),
        problem@.exprs_resolved(),
    ensures
        opt_terms(r) == constraint_defs(problem@, problem@.constraints.len()),
{
    let ghost p = problem@;
    let cs = problem.constraints();
    let mut acc: Option<Vec<Term>> = Some(Vec::new());
    proof {
        assert(terms_view(Seq::<Term>::empty()) =~= seq![]);
    }
    let mut i: usize = 0;
    while i < cs.len()
        invariant
            p == problem@,
            p.wf(),
            p.exprs_resolved(),
            cs@.map_values(|x: Constraint| x@) == p.constraints,
            i <= cs.len(),
            opt_terms(acc) == constraint_defs(p, i as nat),
        decreases cs.len() - i,
    {
        let c = &cs[i];
        proof {
            assert(c@ == p.constraints[i as int]);
            assert(expr_ready(p, p.constraints[i as int].expr));
        }
        let e = c.expr().type_inference(problem);
        let part = match to_bool(problem, &e) {
            Some(t) => {
                let k = Term::Constraint(c.id());
                assert(k@ == SpecTerm::Constraint(c@.id));
                let eq = Term::Eq(Box::new(k), Box::new(t));
                let k2 = Term::Constraint(c.id());
                assert(k2@ == SpecTerm::Constraint(c@.id));
                let w = vec![eq, k2];
                proof {
                    lemma_terms_view(w@);
                    assert(terms_view(w@) =~= seq![
                        SpecTerm::Eq(Box::new(SpecTerm::Constraint(c@.id)), Box::new(t@)),
                        SpecTerm::Constraint(c@.id),
                    ]);
                }
                Some(w)
            },
            None => None,
        };
        acc = join_terms(acc, part);
        i += 1;
    }
    acc
}

/// Everything asserted of a problem, in order: the bounds of the interval
/// variables, the definitions of the structures, the classes, the variables
/// and the functions, then the constraints; `None` where an expression has
/// no term.
pub fn assertions(problem: &Problem) -> (r: Option<Vec<Term>>)
    requires
        problem@.wf(),
        problem@.exprs_resolved(),
    ensures
        opt_terms(r) == spec_assertions(problem@),
{
    let b = Some(var_bounds_of(problem));
    let s = structures_defs_of(problem);
    let c = classes_defs_of(problem);
    let v = var_defs_of(problem);
    let f = fun_defs_of(problem);
    let k = constraint_defs_of(problem);
    join_terms(b, join_terms(s, join_terms(c, join_terms(v, join_terms(f, k)))))
}

} // verus!
