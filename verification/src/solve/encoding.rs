//! What an expression of the problem becomes in the solver's logic: the
//! definition of its encoding, sort by sort.

use crate::problem::class::Class;
use crate::problem::expression::expr::BinOp;
use crate::problem::expression::expr::QtOp;
use crate::problem::expression::expr::SpecExpr;
use crate::problem::expression::expr::UnaryOp;
use crate::problem::expression::is_same::spec_is_same;
use crate::problem::expression::typ::spec_typ;
use crate::problem::function::Function;
use crate::problem::hierarchy2::super_classes_of;
use crate::problem::ids::ClassId;
use crate::problem::ids::InstanceId;
use crate::problem::instance::Instance;
use crate::problem::parameter::Parameter;
use crate::problem::parameter::SpecParameter;
use crate::problem::problem::SpecProblem;
use crate::problem::relations::spec_all;
use crate::problem::structure::Structure;
use crate::problem::typing::SpecType;
use crate::problem::variable::Variable;
use crate::solve::term::Sort;
use crate::solve::term::SpecTerm;
use crate::solve::term::Symbol;
use vstd::prelude::*;

verus! {

/// The sort of the terms of a type: `Int` for the integers and intervals,
/// `Datatype` for structures and classes; none for the other types.
pub open spec fn sort_of(t: SpecType) -> Option<Sort> {
    match t {
        SpecType::Bool => Some(Sort::Bool),
        SpecType::Int => Some(Sort::Int),
        SpecType::Interval(_, _) => Some(Sort::Int),
        SpecType::Real => Some(Sort::Real),
        SpecType::Structure(_) => Some(Sort::Datatype),
        SpecType::Class(_) => Some(Sort::Datatype),
        _ => None,
    }
}

/// The value of the outermost binding whose key (a parameter of an
/// enclosing quantifier, or `self`) is the same as `x`.
pub open spec fn bound_value(env: Seq<(SpecExpr, SpecExpr)>, x: SpecExpr) -> Option<SpecExpr>
    decreases env.len(),
{
    if env.len() == 0 {
        None
    } else {
        match bound_value(env.drop_last(), x) {
            Some(v) => Some(v),
            None => if spec_is_same(env.last().0, x) {
                Some(env.last().1)
            } else {
                None
            },
        }
    }
}

/// The position of the first occurrence of `c` in `s`.
pub open spec fn first_index(s: Seq<ClassId>, c: ClassId) -> Option<int>
    decreases s.len(),
{
    if s.len() == 0 {
        None
    } else {
        match first_index(s.drop_last(), c) {
            Some(k) => Some(k),
            None => if s.last() == c {
                Some(s.len() - 1)
            } else {
                None
            },
        }
    }
}

/// The classes met going up from class `from` to class `to`, `to`
/// included; none where `to` is not above `from`.
pub open spec fn cast_path(p: SpecProblem, from: ClassId, to: ClassId) -> Option<Seq<ClassId>> {
    if from == to {
        Some(seq![])
    } else {
        let s = super_classes_of(p, from);
        match first_index(s, to) {
            Some(k) => Some(s.take(k + 1)),
            None => None,
        }
    }
}

/// An object of class `from` carried up the classes of `path`, one super
/// class after the other.
pub open spec fn cast_term(t: SpecTerm, from: ClassId, path: Seq<ClassId>) -> SpecTerm
    decreases path.len(),
{
    if path.len() == 0 {
        t
    } else {
        SpecTerm::Object(
            Box::new(cast_term(t, from, path.drop_last())),
            if path.len() == 1 {
                from
            } else {
                path[path.len() - 2]
            },
            path.last(),
        )
    }
}

/// An object of class `from` as an object of class `to`.
pub open spec fn cast(p: SpecProblem, t: SpecTerm, from: ClassId, to: ClassId) -> Option<SpecTerm> {
    match cast_path(p, from, to) {
        Some(path) => Some(cast_term(t, from, path)),
        None => None,
    }
}

/// The term of an instance: a constant of its structure, or an object of
/// its own class.
pub open spec fn instance_term(p: SpecProblem, id: InstanceId) -> Option<SpecTerm> {
    if id.0 < p.instances.len() {
        match p.instances[id.0 as int].typ {
            SpecType::Structure(_) => Some(SpecTerm::StrucInstance(id)),
            SpecType::Class(_) => Some(SpecTerm::ClassInstance(id)),
            _ => None,
        }
    } else {
        None
    }
}

/// The term, of sort `s`, of the value `v` bound to a parameter of type
/// `t`: an instance of a class is carried up to the class of the parameter.
pub open spec fn value_term(p: SpecProblem, v: SpecExpr, t: SpecType, s: Sort) -> Option<SpecTerm> {
    match v {
        SpecExpr::BoolValue(b, _) => if s == Sort::Bool {
            Some(SpecTerm::BoolValue(b))
        } else {
            None
        },
        SpecExpr::IntValue(i, _) => if s == Sort::Int {
            Some(SpecTerm::IntValue(i))
        } else {
            None
        },
        SpecExpr::Instance(id, _) => if s == Sort::Datatype {
            match (instance_term(p, id), p.instances[id.0 as int].typ, t) {
                (Some(x), SpecType::Class(c), SpecType::Class(a)) => cast(p, x, c, a),
                (x, _, _) => x,
            }
        } else {
            None
        },
        _ => None,
    }
}

/// The sort in which the operands of a binary expression of sort `s` are
/// taken, after the type `t` of the left operand.
pub open spec fn operand_sort(s: Sort, t: SpecType) -> Option<Sort> {
    match s {
        Sort::Bool => sort_of(t),
        Sort::Int => if t.is_integer() {
            Some(Sort::Int)
        } else {
            None
        },
        Sort::Real => if t.is_integer() {
            Some(Sort::Int)
        } else if t.is_real() {
            Some(Sort::Real)
        } else {
            None
        },
        Sort::Datatype => None,
    }
}

/// The term of sort `s` of a binary operation on operands `l` and `r` of
/// sort `o`: logic on booleans, comparisons of numbers, equality of
/// datatype values, arithmetic, and the real quotient of two integers.
pub open spec fn binary_term(s: Sort, o: Sort, op: BinOp, l: SpecTerm, r: SpecTerm) -> Option<
    SpecTerm,
> {
    let bl = Box::new(l);
    let br = Box::new(r);
    match (s, o) {
        (Sort::Bool, Sort::Bool) => match op {
            BinOp::Eq => Some(SpecTerm::Eq(bl, br)),
            BinOp::Ne => Some(SpecTerm::Not(Box::new(SpecTerm::Eq(bl, br)))),
            BinOp::And => Some(SpecTerm::And(seq![l, r])),
            BinOp::Or => Some(SpecTerm::Or(seq![l, r])),
            BinOp::Implies => Some(SpecTerm::Implies(bl, br)),
            _ => None,
        },
        (Sort::Bool, Sort::Datatype) => match op {
            BinOp::Eq => Some(SpecTerm::Eq(bl, br)),
            BinOp::Ne => Some(SpecTerm::Not(Box::new(SpecTerm::Eq(bl, br)))),
            _ => None,
        },
        (Sort::Bool, _) => match op {
            BinOp::Eq => Some(SpecTerm::Eq(bl, br)),
            BinOp::Ne => Some(SpecTerm::Not(Box::new(SpecTerm::Eq(bl, br)))),
            BinOp::Lt => Some(SpecTerm::Lt(bl, br)),
            BinOp::Le => Some(SpecTerm::Le(bl, br)),
            BinOp::Ge => Some(SpecTerm::Ge(bl, br)),
            BinOp::Gt => Some(SpecTerm::Gt(bl, br)),
            _ => None,
        },
        (Sort::Int, Sort::Int) => match op {
            BinOp::Add => Some(SpecTerm::Add(seq![l, r])),
            BinOp::Sub => Some(SpecTerm::Sub(bl, br)),
            BinOp::Mul => Some(SpecTerm::Mul(seq![l, r])),
            _ => None,
        },
        (Sort::Real, Sort::Int) => match op {
            BinOp::Div => Some(
                SpecTerm::Div(Box::new(SpecTerm::ToReal(bl)), Box::new(SpecTerm::ToReal(br))),
            ),
            _ => None,
        },
        (Sort::Real, Sort::Real) => match op {
            BinOp::Add => Some(SpecTerm::Add(seq![l, r])),
            BinOp::Sub => Some(SpecTerm::Sub(bl, br)),
            BinOp::Mul => Some(SpecTerm::Mul(seq![l, r])),
            BinOp::Div => Some(SpecTerm::Div(bl, br)),
            _ => None,
        },
        _ => None,
    }
}

/// Conditionals nested from the branches `l`, in order, down to `e`.
pub open spec fn ite_chain(l: Seq<(SpecTerm, SpecTerm)>, e: SpecTerm) -> SpecTerm
    decreases l.len(),
{
    if l.len() == 0 {
        e
    } else {
        ite_chain(l.drop_last(), SpecTerm::Ite(Box::new(l.last().0), Box::new(l.last().1), Box::new(e)))
    }
}

/// The value of an integer expression clamped to the interval from `min`
/// to `max`.
pub open spec fn clamp_term(t: SpecTerm, min: isize, max: isize) -> SpecTerm {
    SpecTerm::Ite(
        Box::new(SpecTerm::Lt(Box::new(t), Box::new(SpecTerm::IntValue(min)))),
        Box::new(SpecTerm::IntValue(min)),
        Box::new(
            SpecTerm::Ite(
                Box::new(SpecTerm::Gt(Box::new(t), Box::new(SpecTerm::IntValue(max)))),
                Box::new(SpecTerm::IntValue(max)),
                Box::new(t),
            ),
        ),
    )
}

/// The term of a quantifier of sort `s` over the terms `v` of its body, one
/// for each combination of values of its parameters: their conjunction for
/// `forall`, their disjunction for `exists`, their sum or product (0 or 1
/// for no term).
pub open spec fn quantifier_term(op: QtOp, s: Sort, v: Seq<SpecTerm>) -> Option<SpecTerm> {
    match (op, s) {
        (QtOp::Forall, Sort::Bool) => Some(SpecTerm::And(v)),
        (QtOp::Exists, Sort::Bool) => Some(SpecTerm::Or(v)),
        (QtOp::Sum, Sort::Int) => Some(
            if v.len() == 0 {
                SpecTerm::IntValue(0)
            } else {
                SpecTerm::Add(v)
            },
        ),
        (QtOp::Sum, Sort::Real) => Some(
            if v.len() == 0 {
                SpecTerm::ToReal(Box::new(SpecTerm::IntValue(0)))
            } else {
                SpecTerm::Add(v)
            },
        ),
        (QtOp::Prod, Sort::Int) => Some(
            if v.len() == 0 {
                SpecTerm::IntValue(1)
            } else {
                SpecTerm::Mul(v)
            },
        ),
        (QtOp::Prod, Sort::Real) => Some(
            if v.len() == 0 {
                SpecTerm::ToReal(Box::new(SpecTerm::IntValue(1)))
            } else {
                SpecTerm::Mul(v)
            },
        ),
        _ => None,
    }
}

/// The sort of the body of a quantifier of sort `s`.
pub open spec fn body_sort(op: QtOp, s: Sort) -> Sort {
    match op {
        QtOp::Forall => Sort::Bool,
        QtOp::Exists => Sort::Bool,
        _ => s,
    }
}

/// The term of sort `s` of expression `e`, the parameters of the enclosing
/// quantifiers and `self` bound by `env`; none where the expression has no
/// term of that sort.
pub open spec fn spec_term(p: SpecProblem, e: SpecExpr, env: Seq<(SpecExpr, SpecExpr)>, s: Sort) -> Option<
    SpecTerm,
>
    decreases e, 0nat, 0nat,
{
    match e {
        SpecExpr::BoolValue(b, _) => if s == Sort::Bool {
            Some(SpecTerm::BoolValue(b))
        } else {
            None
        },
        SpecExpr::IntValue(v, _) => if s == Sort::Int {
            Some(SpecTerm::IntValue(v))
        } else {
            None
        },
        SpecExpr::RealValue(v, _) => if s == Sort::Real {
            Some(SpecTerm::RealValue(v))
        } else {
            None
        },
        SpecExpr::Unary(op, x, _) => match (op, s) {
            (UnaryOp::Not, Sort::Bool) => match spec_term(p, *x, env, s) {
                Some(t) => Some(SpecTerm::Not(Box::new(t))),
                None => None,
            },
            (UnaryOp::Minus, Sort::Int) => match spec_term(p, *x, env, s) {
                Some(t) => Some(SpecTerm::Minus(Box::new(t))),
                None => None,
            },
            (UnaryOp::Minus, Sort::Real) => match spec_term(p, *x, env, s) {
                Some(t) => Some(SpecTerm::Minus(Box::new(t))),
                None => None,
            },
            _ => None,
        },
        SpecExpr::Binary(l, op, r, _) => match operand_sort(s, spec_typ(p, *l)) {
            Some(o) => match (spec_term(p, *l, env, o), spec_term(p, *r, env, o)) {
                (Some(a), Some(b)) => binary_term(s, o, op, a, b),
                _ => None,
            },
            None => None,
        },
        SpecExpr::Variable(id, _) => if id.0 < p.variables.len() && sort_of(
            p.variables[id.0 as int].typ,
        ) == Some(s) {
            Some(SpecTerm::Variable(id, s))
        } else {
            None
        },
        SpecExpr::Parameter(x) => match bound_value(env, e) {
            Some(v) => value_term(p, v, x.typ, s),
            None => None,
        },
        SpecExpr::StrucSelf(id, _) => match bound_value(env, e) {
            Some(v) => value_term(p, v, SpecType::Structure(id), s),
            None => None,
        },
        SpecExpr::ClassSelf(id, _) => match bound_value(env, e) {
            Some(v) => value_term(p, v, SpecType::Class(id), s),
            None => None,
        },
        SpecExpr::FunctionCall(id, a, _) => if id.0 < p.functions.len() && sort_of(
            p.functions[id.0 as int].typ,
        ) == Some(s) && a.len() == p.functions[id.0 as int].parameters.len() {
            match args_terms(p, a, env, a.len()) {
                Some(v) => Some(SpecTerm::Apply(Symbol::Function(id), v, s)),
                None => None,
            }
        } else {
            None
        },
        SpecExpr::Instance(id, _) => if s == Sort::Datatype {
            instance_term(p, id)
        } else {
            None
        },
        SpecExpr::StrucAttribute(x, id, _) => if p.has_struct_attr(id) && sort_of(
            p.struct_attr(id).typ,
        ) == Some(s) {
            match spec_term(p, *x, env, Sort::Datatype) {
                Some(t) => Some(SpecTerm::Apply(Symbol::StrucAttribute(id), seq![t], s)),
                None => None,
            }
        } else {
            None
        },
        SpecExpr::StrucMetCall(x, id, a, _) => if p.has_struct_meth(id) && sort_of(
            p.struct_meth(id).typ,
        ) == Some(s) && a.len() == p.struct_meth(id).parameters.len() {
            match (dyn_term(p, *x, env), args_terms(p, a, env, a.len())) {
                (Some(t), Some(v)) => Some(
                    SpecTerm::Apply(Symbol::StrucMethod(id), seq![t] + v, s),
                ),
                _ => None,
            }
        } else {
            None
        },
        SpecExpr::ClassAttribute(x, id, _) => if p.has_class_attr(id) && sort_of(
            p.class_attr(id).typ,
        ) == Some(s) {
            match spec_term(p, *x, env, Sort::Datatype) {
                Some(t) => Some(SpecTerm::Apply(Symbol::ClassAttribute(id), seq![t], s)),
                None => None,
            }
        } else {
            None
        },
        SpecExpr::ClassMetCall(x, id, a, _) => if p.has_class_meth(id) && sort_of(
            p.class_meth(id).typ,
        ) == Some(s) && a.len() == p.class_meth(id).parameters.len() {
            match (dyn_term(p, *x, env), args_terms(p, a, env, a.len())) {
                (Some(t), Some(v)) => Some(
                    SpecTerm::Apply(Symbol::ClassMethod(id), seq![t] + v, s),
                ),
                _ => None,
            }
        } else {
            None
        },
        SpecExpr::AsClass(x, id) => if s == Sort::Datatype {
            match spec_typ(p, *x) {
                SpecType::Class(c) => match spec_term(p, *x, env, s) {
                    Some(t) => cast(p, t, c, id),
                    None => None,
                },
                _ => None,
            }
        } else {
            None
        },
        SpecExpr::AsInterval(x, min, max, _) => if s == Sort::Int {
            match spec_term(p, *x, env, s) {
                Some(t) => Some(clamp_term(t, min, max)),
                None => None,
            }
        } else {
            None
        },
        SpecExpr::AsInt(x, _) => if s == Sort::Int {
            if spec_typ(p, *x).is_integer() {
                spec_term(p, *x, env, Sort::Int)
            } else if spec_typ(p, *x).is_real() {
                match spec_term(p, *x, env, Sort::Real) {
                    Some(t) => Some(SpecTerm::ToInt(Box::new(t))),
                    None => None,
                }
            } else {
                None
            }
        } else {
            None
        },
        SpecExpr::AsReal(x, _) => if s == Sort::Real {
            if spec_typ(p, *x).is_integer() {
                match spec_term(p, *x, env, Sort::Int) {
                    Some(t) => Some(SpecTerm::ToReal(Box::new(t))),
                    None => None,
                }
            } else if spec_typ(p, *x).is_real() {
                spec_term(p, *x, env, Sort::Real)
            } else {
                None
            }
        } else {
            None
        },
        SpecExpr::IfThenElse(c, t, l, x, _) => match (
            spec_term(p, *c, env, Sort::Bool),
            spec_term(p, *t, env, s),
            pairs_terms(p, l, env, s, l.len()),
            spec_term(p, *x, env, s),
        ) {
            (Some(c2), Some(t2), Some(l2), Some(x2)) => Some(
                SpecTerm::Ite(Box::new(c2), Box::new(t2), Box::new(ite_chain(l2, x2))),
            ),
            _ => None,
        },
        SpecExpr::Quantifier(op, ps, x, _) => match level_terms(p, ps, 0, *x, env, body_sort(op, s)) {
            Some(v) => quantifier_term(op, s, v),
            None => None,
        },
        _ => None,
    }
}

/// The term of an expression in the sort of its type.
pub open spec fn dyn_term(p: SpecProblem, e: SpecExpr, env: Seq<(SpecExpr, SpecExpr)>) -> Option<
    SpecTerm,
>
    decreases e, 1nat, 0nat,
{
    match sort_of(spec_typ(p, e)) {
        Some(s) => spec_term(p, e, env, s),
        None => None,
    }
}

/// The terms of the first `n` arguments, each in the sort of its type.
pub open spec fn args_terms(p: SpecProblem, a: Seq<SpecExpr>, env: Seq<(SpecExpr, SpecExpr)>, n: nat) -> Option<
    Seq<SpecTerm>,
>
    decreases a, n, 0nat,
{
    if n == 0 || n > a.len() {
        Some(seq![])
    } else {
        match (args_terms(p, a, env, (n - 1) as nat), dyn_term(p, a[n - 1], env)) {
            (Some(v), Some(t)) => Some(v.push(t)),
            _ => None,
        }
    }
}

/// The terms of the first `n` branches of a conditional: the condition a
/// boolean, the result of sort `s`.
pub open spec fn pairs_terms(
    p: SpecProblem,
    l: Seq<(SpecExpr, SpecExpr)>,
    env: Seq<(SpecExpr, SpecExpr)>,
    s: Sort,
    n: nat,
) -> Option<Seq<(SpecTerm, SpecTerm)>>
    decreases l, n, 0nat,
{
    if n == 0 || n > l.len() {
        Some(seq![])
    } else {
        match (
            pairs_terms(p, l, env, s, (n - 1) as nat),
            spec_term(p, l[n - 1].0, env, Sort::Bool),
            spec_term(p, l[n - 1].1, env, s),
        ) {
            (Some(v), Some(c), Some(t)) => Some(v.push((c, t))),
            _ => None,
        }
    }
}

/// The terms of sort `s` of the body `x` of a quantifier, one for each
/// combination of values of the parameters from the `i`-th on, the first
/// parameter varying slowest.
pub open spec fn level_terms(
    p: SpecProblem,
    ps: Seq<SpecParameter>,
    i: nat,
    x: SpecExpr,
    env: Seq<(SpecExpr, SpecExpr)>,
    s: Sort,
) -> Option<Seq<SpecTerm>>
    decreases x, if i < ps.len() {
        ps.len() - i + 1
    } else {
        1
    }, 0nat,
{
    if i >= ps.len() {
        match spec_term(p, x, env, s) {
            Some(t) => Some(seq![t]),
            None => None,
        }
    } else {
        let vals = spec_all(p, ps[i as int].typ);
        values_terms(p, ps, i, vals, vals.len(), x, env, s)
    }
}

/// The terms of the body for the first `n` values `vals` of the `i`-th
/// parameter, each with all the combinations of the parameters after it.
pub open spec fn values_terms(
    p: SpecProblem,
    ps: Seq<SpecParameter>,
    i: nat,
    vals: Seq<SpecExpr>,
    n: nat,
    x: SpecExpr,
    env: Seq<(SpecExpr, SpecExpr)>,
    s: Sort,
) -> Option<Seq<SpecTerm>>
    decreases x, ps.len() - i, n + 1,
{
    if i >= ps.len() || n == 0 || n > vals.len() {
        Some(seq![])
    } else {
        match (
            values_terms(p, ps, i, vals, (n - 1) as nat, x, env, s),
            level_terms(p, ps, i + 1, x, env.push((SpecExpr::Parameter(ps[i as int]), vals[n - 1])), s),
        ) {
            (Some(a), Some(b)) => Some(a + b),
            _ => None,
        }
    }
}

/// Once a prefix of the arguments has no term, no longer prefix has one.
pub proof fn lemma_args_none(
    p: SpecProblem,
    a: Seq<SpecExpr>,
    env: Seq<(SpecExpr, SpecExpr)>,
    k: nat,
    n: nat,
)
    requires
        k <= n <= a.len(),
        args_terms(p, a, env, k) is None,
    ensures
        args_terms(p, a, env, n) is None,
    decreases n,
{
    if n > k {
        lemma_args_none(p, a, env, k, (n - 1) as nat);
    }
}

/// Once a prefix of the branches has no term, no longer prefix has one.
pub proof fn lemma_pairs_none(
    p: SpecProblem,
    l: Seq<(SpecExpr, SpecExpr)>,
    env: Seq<(SpecExpr, SpecExpr)>,
    s: Sort,
    k: nat,
    n: nat,
)
    requires
        k <= n <= l.len(),
        pairs_terms(p, l, env, s, k) is None,
    ensures
        pairs_terms(p, l, env, s, n) is None,
    decreases n,
{
    if n > k {
        lemma_pairs_none(p, l, env, s, k, (n - 1) as nat);
    }
}

/// Once a prefix of the values has no terms, no longer prefix has.
pub proof fn lemma_values_none(
    p: SpecProblem,
    ps: Seq<SpecParameter>,
    i: nat,
    vals: Seq<SpecExpr>,
    x: SpecExpr,
    env: Seq<(SpecExpr, SpecExpr)>,
    s: Sort,
    k: nat,
    n: nat,
)
    requires
        i < ps.len(),
        0 < k <= n <= vals.len(),
        values_terms(p, ps, i, vals, k, x, env, s) is None,
    ensures
        values_terms(p, ps, i, vals, n, x, env, s) is None,
    decreases n,
{
    if n > k {
        lemma_values_none(p, ps, i, vals, x, env, s, k, (n - 1) as nat);
    }
}

/// The terms of the body of a quantifier over the first `m` values `vals`
/// of its single parameter `x`: one term each, in order, the parameter
/// bound to the value.
proof fn lemma_values_terms_single(
    p: SpecProblem,
    x: SpecParameter,
    vals: Seq<SpecExpr>,
    m: nat,
    body: SpecExpr,
    env: Seq<(SpecExpr, SpecExpr)>,
    s: Sort,
)
    requires
        m <= vals.len(),
    ensures
        values_terms(p, seq![x], 0, vals, m, body, env, s) is Some <==> forall|k: int|
            0 <= k < m ==> (#[trigger] spec_term(
                p,
                body,
                env.push((SpecExpr::Parameter(x), vals[k])),
                s,
            )) is Some,
        values_terms(p, seq![x], 0, vals, m, body, env, s) matches Some(v) ==> v.len() == m && forall|
            k: int,
        |
            0 <= k < m ==> Some(v[k]) == #[trigger] spec_term(
                p,
                body,
                env.push((SpecExpr::Parameter(x), vals[k])),
                s,
            ),
    decreases m,
{
    if m > 0 {
        lemma_values_terms_single(p, x, vals, (m - 1) as nat, body, env, s);
        let e2 = env.push((SpecExpr::Parameter(x), vals[m - 1]));
        assert(level_terms(p, seq![x], 1, body, e2, s) == match spec_term(p, body, e2, s) {
            Some(t) => Some(seq![t]),
            None => None,
        });
    }
}

/// A quantifier over a single parameter has one term of its body for each
/// value of the parameter's type, in order, the parameter bound to that
/// value; it has terms only where each of them does.
pub proof fn law_quantifier_one_term_per_value(
    p: SpecProblem,
    x: SpecParameter,
    body: SpecExpr,
    env: Seq<(SpecExpr, SpecExpr)>,
    s: Sort,
)
    ensures
        level_terms(p, seq![x], 0, body, env, s) is Some <==> forall|k: int|
            0 <= k < spec_all(p, x.typ).len() ==> (#[trigger] spec_term(
                p,
                body,
                env.push((SpecExpr::Parameter(x), spec_all(p, x.typ)[k])),
                s,
            )) is Some,
        level_terms(p, seq![x], 0, body, env, s) matches Some(v) ==> v.len() == spec_all(
            p,
            x.typ,
        ).len() && forall|k: int|
            0 <= k < v.len() ==> Some(v[k]) == #[trigger] spec_term(
                p,
                body,
                env.push((SpecExpr::Parameter(x), spec_all(p, x.typ)[k])),
                s,
            ),
{
    let vals = spec_all(p, x.typ);
    assert(seq![x][0] == x);
    lemma_values_terms_single(p, x, vals, vals.len(), body, env, s);
}

} // verus!
