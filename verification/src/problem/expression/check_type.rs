//! Type checking of resolved expressions.

use crate::error::Error;
use crate::error::SpecError;
use crate::error::result_view;
use crate::parser::position::SpecPosition;
use crate::problem::class::Class;
use crate::problem::expression::every::NodeCheck;
use crate::problem::expression::every::every;
use crate::problem::expression::every::every_list;
use crate::problem::expression::every::lemma_every_list;
use crate::problem::expression::expr::BinOp;
use crate::problem::expression::expr::Expr;
use crate::problem::expression::expr::QtOp;
use crate::problem::expression::expr::SpecExpr;
use crate::problem::expression::expr::UnaryOp;
use crate::problem::expression::expr::exprs_view;
use crate::problem::expression::expr::lemma_exprs_view;
use crate::problem::expression::expr::lemma_pairs_view;
use crate::problem::expression::expr::pairs_view;
use crate::problem::expression::typ::lemma_typ_valid;
use crate::problem::expression::typ::spec_typ;
use crate::problem::parameter::Parameter;
use crate::problem::parameter::SpecParameter;
use crate::problem::parameter::params_view;
use crate::problem::problem::Problem;
use crate::problem::problem::SpecProblem;
use crate::problem::relations::law_compatible_reflexive;
use crate::problem::relations::spec_is_compatible_with;
use crate::problem::relations::spec_is_subtype_of;
use crate::problem::relations::type_valid;
use crate::problem::typing::SpecType;
use crate::problem::typing::Type;
use crate::problem::typing::types_view;
use crate::problem::valid::expr_valid;
use crate::problem::valid::exprs_valid;
use crate::problem::valid::lemma_exprs_valid;
use crate::problem::valid::lemma_pairs_valid;
use crate::problem::valid::pairs_valid;
use vstd::prelude::*;

verus! {

/// `a`, and when it succeeds, `b`.
pub open spec fn then_check(a: Result<(), SpecError>, b: Result<(), SpecError>) -> Result<(), SpecError> {
    match a {
        Err(e) => Err(e),
        Ok(_) => b,
    }
}

/// A type error on `e` of type `t`, where one of `expected` was due.
pub open spec fn type_error(e: SpecExpr, t: SpecType, expected: Seq<SpecType>) -> Result<(), SpecError> {
    Err(SpecError::Type { expr: e, typ: t, expected })
}

/// `e`, of type `t`, is a boolean.
pub open spec fn spec_check_bool(e: SpecExpr, t: SpecType) -> Result<(), SpecError> {
    if t.is_bool() {
        Ok(())
    } else {
        type_error(e, t, seq![SpecType::Bool])
    }
}

/// `e`, of type `t`, is a number.
pub open spec fn spec_check_number(e: SpecExpr, t: SpecType) -> Result<(), SpecError> {
    if t.is_number() {
        Ok(())
    } else {
        type_error(e, t, seq![SpecType::Int, SpecType::Real])
    }
}

/// `e`, of type `t`, is an integer.
pub open spec fn spec_check_integer(e: SpecExpr, t: SpecType) -> Result<(), SpecError> {
    if t.is_integer() {
        Ok(())
    } else {
        type_error(e, t, seq![SpecType::Int])
    }
}

/// `right`, of type `rt`, is compatible with type `lt`.
pub open spec fn spec_check_compatible(p: SpecProblem, lt: SpecType, right: SpecExpr, rt: SpecType) -> Result<
    (),
    SpecError,
> {
    if spec_is_compatible_with(p, rt, lt) {
        Ok(())
    } else {
        type_error(right, rt, seq![lt])
    }
}

/// `right`, of type `rt`, is of a sub type of `lt`.
pub open spec fn spec_check_subtype(p: SpecProblem, lt: SpecType, right: SpecExpr, rt: SpecType) -> Result<
    (),
    SpecError,
> {
    if spec_is_subtype_of(p, rt, lt) {
        Ok(())
    } else {
        type_error(right, rt, seq![lt])
    }
}

/// The first `n` arguments are of sub types of the types of their
/// parameters, up to the shorter list, checked in order.
pub open spec fn args_subtype(p: SpecProblem, ps: Seq<SpecParameter>, args: Seq<SpecExpr>, n: nat) -> Result<
    (),
    SpecError,
>
    decreases n,
{
    if n == 0 || n > ps.len() || n > args.len() {
        Ok(())
    } else {
        then_check(
            args_subtype(p, ps, args, (n - 1) as nat),
            spec_check_subtype(p, ps[n - 1].typ, args[n - 1], spec_typ(p, args[n - 1])),
        )
    }
}

/// The shorter length of a list of parameters and a list of arguments.
pub open spec fn zip_len(ps: Seq<SpecParameter>, args: Seq<SpecExpr>) -> nat {
    if ps.len() <= args.len() {
        ps.len()
    } else {
        args.len()
    }
}

/// The conditions of the first `n` branches are booleans, checked in order.
pub open spec fn conds_bool(p: SpecProblem, l: Seq<(SpecExpr, SpecExpr)>, n: nat) -> Result<(), SpecError>
    decreases n,
{
    if n == 0 || n > l.len() {
        Ok(())
    } else {
        then_check(conds_bool(p, l, (n - 1) as nat), spec_check_bool(l[n - 1].0, spec_typ(p, l[n - 1].0)))
    }
}

/// The results of the first `n` branches are of sub types of `t`, checked in
/// order.
pub open spec fn results_subtype(p: SpecProblem, t: SpecType, l: Seq<(SpecExpr, SpecExpr)>, n: nat) -> Result<
    (),
    SpecError,
>
    decreases n,
{
    if n == 0 || n > l.len() {
        Ok(())
    } else {
        then_check(
            results_subtype(p, t, l, (n - 1) as nat),
            spec_check_subtype(p, t, l[n - 1].1, spec_typ(p, l[n - 1].1)),
        )
    }
}

/// The check of the operands of a binary operator, after the operands have
/// been checked themselves.
pub open spec fn binary_check(p: SpecProblem, l: SpecExpr, op: BinOp, r: SpecExpr) -> Result<(), SpecError> {
    let lt = spec_typ(p, l);
    let rt = spec_typ(p, r);
    match op {
        BinOp::Eq | BinOp::Ne => spec_check_compatible(p, lt, r, rt),
        BinOp::Lt | BinOp::Le | BinOp::Ge | BinOp::Gt | BinOp::Add | BinOp::Sub | BinOp::Mul =>
            then_check(
            spec_check_number(l, lt),
            then_check(spec_check_number(r, rt), spec_check_compatible(p, lt, r, rt)),
        ),
        BinOp::And | BinOp::Or | BinOp::Implies => then_check(
            spec_check_bool(l, lt),
            spec_check_bool(r, rt),
        ),
        BinOp::Div => then_check(spec_check_number(l, lt), spec_check_number(r, rt)),
    }
}

/// The type check of a resolved expression: operands of the types their
/// operators ask for, arguments of sub types of their parameters, the value
/// of an attribute or method call of the type of its owner, and the first
/// error found, in order.
pub open spec fn spec_check_type(p: SpecProblem, e: SpecExpr) -> Result<(), SpecError>
    decreases e, 0nat,
{
    match e {
        SpecExpr::Unary(op, x, _) => then_check(
            spec_check_type(p, *x),
            match op {
                UnaryOp::Not => spec_check_bool(*x, spec_typ(p, *x)),
                UnaryOp::Minus => spec_check_number(*x, spec_typ(p, *x)),
            },
        ),
        SpecExpr::Binary(l, op, r, _) => then_check(
            spec_check_type(p, *l),
            then_check(spec_check_type(p, *r), binary_check(p, *l, op, *r)),
        ),
        SpecExpr::FunctionCall(id, a, _) => then_check(
            list_check_type(p, a, a.len()),
            args_subtype(
                p,
                p.functions[id.0 as int].parameters,
                a,
                zip_len(p.functions[id.0 as int].parameters, a),
            ),
        ),
        SpecExpr::StrucAttribute(x, id, _) => spec_check_subtype(
            p,
            p.structures[id.0.0 as int].typ,
            *x,
            spec_typ(p, *x),
        ),
        SpecExpr::StrucMetCall(x, id, a, _) => then_check(
            spec_check_subtype(p, p.structures[id.0.0 as int].typ, *x, spec_typ(p, *x)),
            args_subtype(
                p,
                p.struct_meth(id).parameters,
                a,
                zip_len(p.struct_meth(id).parameters, a),
            ),
        ),
        SpecExpr::ClassAttribute(x, id, _) => spec_check_subtype(
            p,
            p.classes[id.0.0 as int].typ,
            *x,
            spec_typ(p, *x),
        ),
        SpecExpr::ClassMetCall(x, id, a, _) => then_check(
            spec_check_subtype(p, p.classes[id.0.0 as int].typ, *x, spec_typ(p, *x)),
            args_subtype(
                p,
                p.class_meth(id).parameters,
                a,
                zip_len(p.class_meth(id).parameters, a),
            ),
        ),
        SpecExpr::AsClass(x, id) => spec_check_subtype(p, SpecType::Class(id), *x, spec_typ(p, *x)),
        SpecExpr::AsInterval(x, _, _, _) => spec_check_integer(*x, spec_typ(p, *x)),
        SpecExpr::AsInt(x, _) => spec_check_number(*x, spec_typ(p, *x)),
        SpecExpr::AsReal(x, _) => spec_check_number(*x, spec_typ(p, *x)),
        SpecExpr::IfThenElse(c, t, l, x, _) => then_check(
            spec_check_bool(*c, spec_typ(p, *c)),
            then_check(
                conds_bool(p, l, l.len()),
                then_check(
                    spec_check_subtype(p, spec_typ(p, e), *t, spec_typ(p, *t)),
                    then_check(
                        results_subtype(p, spec_typ(p, e), l, l.len()),
                        spec_check_subtype(p, spec_typ(p, e), *x, spec_typ(p, *x)),
                    ),
                ),
            ),
        ),
        SpecExpr::Quantifier(op, _, x, _) => then_check(
            spec_check_type(p, *x),
            match op {
                QtOp::Forall | QtOp::Exists => spec_check_bool(*x, spec_typ(p, *x)),
                QtOp::Sum | QtOp::Prod => spec_check_number(*x, spec_typ(p, *x)),
            },
        ),
        _ => Ok(()),
    }
}

/// The type checks of the first `n` expressions of the list, in order.
pub open spec fn list_check_type(p: SpecProblem, s: Seq<SpecExpr>, n: nat) -> Result<(), SpecError>
    decreases s, n,
{
    if n == 0 || n > s.len() {
        Ok(())
    } else {
        then_check(list_check_type(p, s, (n - 1) as nat), spec_check_type(p, s[n - 1]))
    }
}

/// Once a sequence of checks fails, every longer one fails the same way.
proof fn lemma_list_check_err(p: SpecProblem, s: Seq<SpecExpr>, i: nat, n: nat)
    requires
        i <= n <= s.len(),
        list_check_type(p, s, i) is Err,
    ensures
        list_check_type(p, s, n) == list_check_type(p, s, i),
    decreases n - i,
{
    if i < n {
        lemma_list_check_err(p, s, i, (n - 1) as nat);
    }
}

proof fn lemma_args_subtype_err(p: SpecProblem, ps: Seq<SpecParameter>, a: Seq<SpecExpr>, i: nat, n: nat)
    requires
        i <= n <= ps.len(),
        n <= a.len(),
        args_subtype(p, ps, a, i) is Err,
    ensures
        args_subtype(p, ps, a, n) == args_subtype(p, ps, a, i),
    decreases n - i,
{
    if i < n {
        lemma_args_subtype_err(p, ps, a, i, (n - 1) as nat);
    }
}

proof fn lemma_conds_bool_err(p: SpecProblem, l: Seq<(SpecExpr, SpecExpr)>, i: nat, n: nat)
    requires
        i <= n <= l.len(),
        conds_bool(p, l, i) is Err,
    ensures
        conds_bool(p, l, n) == conds_bool(p, l, i),
    decreases n - i,
{
    if i < n {
        lemma_conds_bool_err(p, l, i, (n - 1) as nat);
    }
}

proof fn lemma_results_subtype_err(p: SpecProblem, t: SpecType, l: Seq<(SpecExpr, SpecExpr)>, i: nat, n: nat)
    requires
        i <= n <= l.len(),
        results_subtype(p, t, l, i) is Err,
    ensures
        results_subtype(p, t, l, n) == results_subtype(p, t, l, i),
    decreases n - i,
{
    if i < n {
        lemma_results_subtype_err(p, t, l, i, (n - 1) as nat);
    }
}

/// Checks that `expr`, of type `expr_type`, is a boolean.
pub fn check_type_bool(expr: &Expr, expr_type: &Type) -> (r: Result<(), Error>)
    ensures
        result_view(r) == spec_check_bool(expr@, expr_type@),
{
    if expr_type.is_bool() {
        Ok(())
    } else {
        let mut expected: Vec<Type> = Vec::new();
        expected.push(Type::Bool);
        proof {
            assert(types_view(expected@) =~= seq![SpecType::Bool]);
        }
        Err(Error::Type { expr: expr.copy(), typ: expr_type.copy(), expected })
    }
}

/// Checks that `expr`, of type `expr_type`, is a number.
pub fn check_type_number(expr: &Expr, expr_type: &Type) -> (r: Result<(), Error>)
    ensures
        result_view(r) == spec_check_number(expr@, expr_type@),
{
    if expr_type.is_number() {
        Ok(())
    } else {
        let mut expected: Vec<Type> = Vec::new();
        expected.push(Type::Int);
        expected.push(Type::Real);
        proof {
            assert(types_view(expected@) =~= seq![SpecType::Int, SpecType::Real]);
        }
        Err(Error::Type { expr: expr.copy(), typ: expr_type.copy(), expected })
    }
}

/// Checks that `expr`, of type `expr_type`, is an integer.
pub fn check_type_integer(expr: &Expr, expr_type: &Type) -> (r: Result<(), Error>)
    ensures
        result_view(r) == spec_check_integer(expr@, expr_type@),
{
    if expr_type.is_integer() {
        Ok(())
    } else {
        let mut expected: Vec<Type> = Vec::new();
        expected.push(Type::Int);
        proof {
            assert(types_view(expected@) =~= seq![SpecType::Int]);
        }
        Err(Error::Type { expr: expr.copy(), typ: expr_type.copy(), expected })
    }
}

/// Checks that `right`, of type `right_type`, is compatible with
/// `left_type`.
pub fn check_compatible_type(problem: &Problem, left_type: &Type, right: &Expr, right_type: &Type) -> (r:
    Result<(), Error>)
    requires
        problem@.hierarchy_wf(),
        type_valid(problem@, right_type@),
    ensures
        result_view(r) == spec_check_compatible(problem@, left_type@, right@, right_type@),
{
    if right_type.is_compatible_with(problem, left_type) {
        Ok(())
    } else {
        let mut expected: Vec<Type> = Vec::new();
        expected.push(left_type.copy());
        proof {
            assert(types_view(expected@) =~= seq![left_type@]);
        }
        Err(Error::Type { expr: right.copy(), typ: right_type.copy(), expected })
    }
}

/// Checks that `right`, of type `right_type`, is of a sub type of
/// `left_type`.
pub fn check_subtype_type(problem: &Problem, left_type: &Type, right: &Expr, right_type: &Type) -> (r:
    Result<(), Error>)
    requires
        problem@.hierarchy_wf(),
        type_valid(problem@, right_type@),
    ensures
        result_view(r) == spec_check_subtype(problem@, left_type@, right@, right_type@),
{
    if right_type.is_subtype_of(problem, left_type) {
        Ok(())
    } else {
        let mut expected: Vec<Type> = Vec::new();
        expected.push(left_type.copy());
        proof {
            assert(types_view(expected@) =~= seq![left_type@]);
        }
        Err(Error::Type { expr: right.copy(), typ: right_type.copy(), expected })
    }
}

/// The type of a valid expression, with its validity.
fn valid_typ(problem: &Problem, e: &Expr) -> (r: Type)
    requires
        problem@.wf(),
        expr_valid(problem@, e@),
    ensures
        r@ == spec_typ(problem@, e@),
        type_valid(problem@, r@),
{
    proof {
        lemma_typ_valid(problem@, e@);
    }
    e.typ(problem)
}

/// Checks the arguments against the parameters, up to the shorter list.
fn check_args(problem: &Problem, ps: &Vec<Parameter>, args: &Vec<Expr>) -> (r: Result<(), Error>)
    requires
        problem@.wf(),
        exprs_valid(problem@, exprs_view(args@)),
    ensures
        result_view(r) == args_subtype(
            problem@,
            params_view(ps@),
            exprs_view(args@),
            zip_len(params_view(ps@), exprs_view(args@)),
        ),
{
    let ghost p = problem@;
    let ghost pv = params_view(ps@);
    let ghost av = exprs_view(args@);
    proof {
        lemma_exprs_view(args@);
        lemma_exprs_valid(p, av);
    }
    let n: usize = if ps.len() <= args.len() { ps.len() } else { args.len() };
    let mut i: usize = 0;
    while i < n
        invariant
            p == problem@,
            p.wf(),
            pv == params_view(ps@),
            av == exprs_view(args@),
            av.len() == args.len(),
            forall|k: int| 0 <= k < args.len() ==> #[trigger] av[k] == args@[k]@,
            forall|k: int| 0 <= k < args.len() ==> #[trigger] expr_valid(p, av[k]),
            n <= ps.len(),
            n <= args.len(),
            n == zip_len(pv, av),
            i <= n,
            args_subtype(p, pv, av, i as nat) == Ok::<(), SpecError>(()),
        decreases n - i,
    {
        proof {
            assert(av[i as int] == args@[i as int]@);
            assert(expr_valid(p, av[i as int]));
        }
        let t = valid_typ(problem, &args[i]);
        match check_subtype_type(problem, ps[i].typ(), &args[i], &t) {
            Ok(_) => {},
            Err(e) => {
                proof {
                    lemma_args_subtype_err(p, pv, av, (i + 1) as nat, n as nat);
                }
                return Err(e);
            },
        }
        i += 1;
    }
    Ok(())
}

impl Expr {
    /// The type check of the expression: the first type error, in order, or
    /// none.
    pub fn check_type(&self, problem: &Problem) -> (r: Result<(), Error>)
        requires
            problem@.wf(),
            expr_valid(problem@, self@),
            every(NodeCheck::Resolved, self@),
        ensures
            result_view(r) == spec_check_type(problem@, self@),
        decreases self,
    {
        let ghost p = problem@;
        match self {
            Expr::Unary(op, e, _) => {
                e.check_type(problem)?;
                let t = valid_typ(problem, e);
                match op {
                    UnaryOp::Not => check_type_bool(e, &t),
                    UnaryOp::Minus => check_type_number(e, &t),
                }
            },
            Expr::Binary(l, op, r, _) => {
                l.check_type(problem)?;
                r.check_type(problem)?;
                let lt = valid_typ(problem, l);
                let rt = valid_typ(problem, r);
                match op {
                    BinOp::Eq | BinOp::Ne => check_compatible_type(problem, &lt, r, &rt),
                    BinOp::Lt | BinOp::Le | BinOp::Ge | BinOp::Gt | BinOp::Add | BinOp::Sub
                    | BinOp::Mul => {
                        check_type_number(l, &lt)?;
                        check_type_number(r, &rt)?;
                        check_compatible_type(problem, &lt, r, &rt)
                    },
                    BinOp::And | BinOp::Or | BinOp::Implies => {
                        check_type_bool(l, &lt)?;
                        check_type_bool(r, &rt)
                    },
                    BinOp::Div => {
                        check_type_number(l, &lt)?;
                        check_type_number(r, &rt)
                    },
                }
            },
            Expr::FunctionCall(id, a, _) => {
                proof {
                    lemma_exprs_view(a@);
                }
                check_type_list(problem, a)?;
                let f = problem.get_function(*id).unwrap();
                check_args(problem, f.parameters(), a)
            },
            Expr::StrucAttribute(e, id, _) => {
                let et = valid_typ(problem, e);
                let s = problem.get_structure(id.0).unwrap();
                check_subtype_type(problem, s.typ(), e, &et)
            },
            Expr::StrucMetCall(e, id, a, _) => {
                let et = valid_typ(problem, e);
                let s = problem.get_structure(id.0).unwrap();
                let m = problem.get_struct_method(*id);
                check_subtype_type(problem, s.typ(), e, &et)?;
                check_args(problem, m.parameters(), a)
            },
            Expr::ClassAttribute(e, id, _) => {
                let et = valid_typ(problem, e);
                let c = problem.get_class(id.0).unwrap();
                check_subtype_type(problem, c.typ(), e, &et)
            },
            Expr::ClassMetCall(e, id, a, _) => {
                let et = valid_typ(problem, e);
                let c = problem.get_class(id.0).unwrap();
                let m = problem.get_class_method(*id);
                check_subtype_type(problem, c.typ(), e, &et)?;
                check_args(problem, m.parameters(), a)
            },
            Expr::AsClass(e, id) => {
                let et = valid_typ(problem, e);
                check_subtype_type(problem, &Type::Class(*id), e, &et)
            },
            Expr::AsInterval(e, _, _, _) => {
                let et = valid_typ(problem, e);
                check_type_integer(e, &et)
            },
            Expr::AsInt(e, _) => {
                let et = valid_typ(problem, e);
                check_type_number(e, &et)
            },
            Expr::AsReal(e, _) => {
                let et = valid_typ(problem, e);
                check_type_number(e, &et)
            },
            Expr::IfThenElse(c, t, l, e, _) => {
                proof {
                    lemma_pairs_view(l@);
                }
                let ct = valid_typ(problem, c);
                check_type_bool(c, &ct)?;
                check_conds(problem, l)?;
                let typ = valid_typ(problem, self);
                let tt = valid_typ(problem, t);
                check_subtype_type(problem, &typ, t, &tt)?;
                check_results(problem, &typ, l)?;
                let et = valid_typ(problem, e);
                check_subtype_type(problem, &typ, e, &et)
            },
            Expr::Quantifier(op, _, e, _) => {
                e.check_type(problem)?;
                let et = valid_typ(problem, e);
                match op {
                    QtOp::Forall | QtOp::Exists => check_type_bool(e, &et),
                    QtOp::Sum | QtOp::Prod => check_type_number(e, &et),
                }
            },
            _ => Ok(()),
        }
    }
}

/// The type checks of the expressions, in order.
fn check_type_list(problem: &Problem, v: &Vec<Expr>) -> (r: Result<(), Error>)
    requires
        problem@.wf(),
        exprs_valid(problem@, exprs_view(v@)),
        every_list(NodeCheck::Resolved, exprs_view(v@), v.len() as nat),
    ensures
        result_view(r) == list_check_type(problem@, exprs_view(v@), v.len() as nat),
    decreases v,
{
    let ghost p = problem@;
    let ghost s = exprs_view(v@);
    proof {
        lemma_exprs_view(v@);
        lemma_exprs_valid(p, s);
        lemma_every_list(NodeCheck::Resolved, s, v.len() as nat);
    }
    let mut i: usize = 0;
    while i < v.len()
        invariant
            p == problem@,
            p.wf(),
            i <= v.len(),
            s == exprs_view(v@),
            s.len() == v.len(),
            forall|k: int| 0 <= k < v.len() ==> #[trigger] s[k] == v@[k]@,
            forall|k: int| 0 <= k < v.len() ==> #[trigger] expr_valid(p, s[k]),
            forall|k: int| 0 <= k < v.len() ==> #[trigger] every(NodeCheck::Resolved, s[k]),
            list_check_type(p, s, i as nat) == Ok::<(), SpecError>(()),
        decreases v.len() - i,
    {
        proof {
            assert(decreases_to!(*v => v@[i as int]));
            assert(s[i as int] == v@[i as int]@);
            assert(expr_valid(p, s[i as int]));
            assert(every(NodeCheck::Resolved, s[i as int]));
        }
        match v[i].check_type(problem) {
            Ok(_) => {},
            Err(e) => {
                proof {
                    lemma_list_check_err(p, s, (i + 1) as nat, v.len() as nat);
                }
                return Err(e);
            },
        }
        i += 1;
    }
    Ok(())
}

/// The conditions of the branches are booleans, checked in order.
fn check_conds(problem: &Problem, l: &Vec<(Expr, Expr)>) -> (r: Result<(), Error>)
    requires
        problem@.wf(),
        pairs_valid(problem@, pairs_view(l@)),
    ensures
        result_view(r) == conds_bool(problem@, pairs_view(l@), l.len() as nat),
{
    let ghost p = problem@;
    let ghost s = pairs_view(l@);
    proof {
        lemma_pairs_view(l@);
        lemma_pairs_valid(p, s);
    }
    let mut i: usize = 0;
    while i < l.len()
        invariant
            p == problem@,
            p.wf(),
            i <= l.len(),
            s == pairs_view(l@),
            s.len() == l.len(),
            forall|k: int| 0 <= k < l.len() ==> #[trigger] s[k] == (l@[k].0@, l@[k].1@),
            forall|k: int| 0 <= k < l.len() ==> expr_valid(p, (#[trigger] s[k]).0) && expr_valid(p, s[k].1),
            conds_bool(p, s, i as nat) == Ok::<(), SpecError>(()),
        decreases l.len() - i,
    {
        proof {
            assert(s[i as int] == (l@[i as int].0@, l@[i as int].1@));
            assert(expr_valid(p, s[i as int].0));
        }
        let t = valid_typ(problem, &l[i].0);
        match check_type_bool(&l[i].0, &t) {
            Ok(_) => {},
            Err(e) => {
                proof {
                    lemma_conds_bool_err(p, s, (i + 1) as nat, l.len() as nat);
                }
                return Err(e);
            },
        }
        i += 1;
    }
    Ok(())
}

/// The results of the branches are of sub types of `typ`, checked in order.
fn check_results(problem: &Problem, typ: &Type, l: &Vec<(Expr, Expr)>) -> (r: Result<(), Error>)
    requires
        problem@.wf(),
        pairs_valid(problem@, pairs_view(l@)),
    ensures
        result_view(r) == results_subtype(problem@, typ@, pairs_view(l@), l.len() as nat),
{
    let ghost p = problem@;
    let ghost s = pairs_view(l@);
    proof {
        lemma_pairs_view(l@);
        lemma_pairs_valid(p, s);
    }
    let mut i: usize = 0;
    while i < l.len()
        invariant
            p == problem@,
            p.wf(),
            i <= l.len(),
            s == pairs_view(l@),
            s.len() == l.len(),
            forall|k: int| 0 <= k < l.len() ==> #[trigger] s[k] == (l@[k].0@, l@[k].1@),
            forall|k: int| 0 <= k < l.len() ==> expr_valid(p, (#[trigger] s[k]).0) && expr_valid(p, s[k].1),
            results_subtype(p, typ@, s, i as nat) == Ok::<(), SpecError>(()),
        decreases l.len() - i,
    {
        proof {
            assert(s[i as int] == (l@[i as int].0@, l@[i as int].1@));
            assert(expr_valid(p, s[i as int].1));
        }
        let t = valid_typ(problem, &l[i].1);
        match check_subtype_type(problem, typ, &l[i].1, &t) {
            Ok(_) => {},
            Err(e) => {
                proof {
                    lemma_results_subtype_err(p, typ@, s, (i + 1) as nat, l.len() as nat);
                }
                return Err(e);
            },
        }
        i += 1;
    }
    Ok(())
}

//---------- Laws ----------

/// An operation on well typed operands of the types its operator is for
/// passes the type check: a quotient of two numbers (`Int`, `Real` or an
/// interval), a comparison, sum, difference or product of two integers or
/// of two reals, logic on two booleans, an equality of two values of the
/// same type; an operator given a boolean where it wants a number, or a
/// number where it wants a boolean, is refused with a type error.
pub proof fn law_operand_types(p: SpecProblem, l: SpecExpr, op: BinOp, r: SpecExpr, pos: Option<SpecPosition>)
    requires
        spec_check_type(p, l) is Ok,
        spec_check_type(p, r) is Ok,
    ensures
        ({
            let lt = spec_typ(p, l);
            let rt = spec_typ(p, r);
            let e = SpecExpr::Binary(Box::new(l), op, Box::new(r), pos);
            let number = |t: SpecType| t is Int || t is Real || t is Interval;
            let integer = |t: SpecType| t is Int || t is Interval;
            let arith = op == BinOp::Lt || op == BinOp::Le || op == BinOp::Ge || op == BinOp::Gt || op
                == BinOp::Add || op == BinOp::Sub || op == BinOp::Mul;
            let logic = op == BinOp::And || op == BinOp::Or || op == BinOp::Implies;
            &&& op == BinOp::Div && number(lt) && number(rt) ==> spec_check_type(p, e) is Ok
            &&& arith && integer(lt) && integer(rt) ==> spec_check_type(p, e) is Ok
            &&& arith && lt is Real && rt is Real ==> spec_check_type(p, e) is Ok
            &&& logic && lt is Bool && rt is Bool ==> spec_check_type(p, e) is Ok
            &&& (op == BinOp::Eq || op == BinOp::Ne) && lt == rt ==> spec_check_type(p, e) is Ok
            &&& (arith || op == BinOp::Div) && (lt is Bool || rt is Bool) ==> (spec_check_type(p, e) is Err
                && spec_check_type(p, e)->Err_0 is Type)
            &&& logic && (number(lt) || number(rt)) ==> (spec_check_type(p, e) is Err
                && spec_check_type(p, e)->Err_0 is Type)
        }),
{
    law_compatible_reflexive(p, spec_typ(p, l));
}

} // verus!
