//! The type of an expression.

use crate::problem::class::Class;
use crate::problem::class::spec_super_class;
use crate::problem::expression::expr::BinOp;
use crate::problem::expression::expr::Expr;
use crate::problem::expression::expr::QtOp;
use crate::problem::expression::expr::SpecExpr;
use crate::problem::expression::expr::UnaryOp;
use crate::problem::expression::expr::lemma_pairs_view;
use crate::problem::expression::expr::pairs_view;
use crate::problem::hierarchy::spec_super_classes;
use crate::problem::hierarchy2::common_walk;
use crate::problem::hierarchy2::lemma_super_classes_valid;
use crate::problem::hierarchy2::super_classes_of;
use crate::problem::ids::ClassId;
use crate::problem::instance::Instance;
use crate::problem::parameter::Parameter;
use crate::problem::problem::Problem;
use crate::problem::problem::SpecProblem;
use crate::problem::relations::spec_common_type;
use crate::problem::relations::type_valid;
use crate::problem::structure::Structure;
use crate::problem::typing::SpecType;
use crate::problem::typing::Type;
use crate::problem::valid::expr_valid;
use crate::problem::valid::lemma_pairs_valid;
use crate::problem::valid::pairs_valid;
use crate::problem::variable::Variable;
use vstd::prelude::*;

verus! {

/// The type of the integers from `min` to `max`, negated; bounds wrap as
/// machine integers do.
pub open spec fn neg_interval(min: isize, max: isize) -> SpecType {
    SpecType::Interval(0isize.wrapping_sub(max), 0isize.wrapping_sub(min))
}

/// The smaller of two bounds.
pub open spec fn low(a: isize, b: isize) -> isize {
    if a <= b {
        a
    } else {
        b
    }
}

/// The greater of two bounds.
pub open spec fn high(a: isize, b: isize) -> isize {
    if a <= b {
        b
    } else {
        a
    }
}

/// The bounds of the sum, the difference or the product of a value of
/// `min1..max1` and a value of `min2..max2`: the sum of the minimums and of
/// the maximums, the minimum less the other maximum and the maximum less
/// the other minimum, the least and the greatest of the four products of
/// bounds (machine arithmetic, wrapping around).
pub open spec fn interval_bounds(op: BinOp, min1: isize, max1: isize, min2: isize, max2: isize) -> (isize, isize) {
    match op {
        BinOp::Add => (min1.wrapping_add(min2), max1.wrapping_add(max2)),
        BinOp::Sub => (min1.wrapping_sub(max2), max1.wrapping_sub(min2)),
        _ => {
            let a = min1.wrapping_mul(min2);
            let b = min1.wrapping_mul(max2);
            let c = max1.wrapping_mul(min2);
            let d = max1.wrapping_mul(max2);
            (low(low(a, b), low(c, d)), high(high(a, b), high(c, d)))
        },
    }
}

/// The type of a sum, a difference or a product of two numbers: `Int` or
/// `Real` after the type of the left operand, `Int` for an interval and
/// `Int`, and for two intervals the interval of the values the operation
/// can take.
pub open spec fn arith_type(a: SpecType, b: SpecType, op: BinOp) -> SpecType {
    match (a, b) {
        (SpecType::Int, _) => SpecType::Int,
        (SpecType::Real, _) => SpecType::Real,
        (SpecType::Interval(_, _), SpecType::Int) => SpecType::Int,
        (SpecType::Interval(min1, max1), SpecType::Interval(min2, max2)) => {
            let (lo, hi) = interval_bounds(op, min1, max1, min2, max2);
            SpecType::Interval(lo, hi)
        },
        _ => SpecType::Undefined,
    }
}

/// The bounds of the sum, the difference or the product of values of two
/// intervals.
pub fn interval_arith(op: BinOp, min1: isize, max1: isize, min2: isize, max2: isize) -> (r: (isize, isize))
    ensures
        r == interval_bounds(op, min1, max1, min2, max2),
{
    match op {
        BinOp::Add => (min1.wrapping_add(min2), max1.wrapping_add(max2)),
        BinOp::Sub => (min1.wrapping_sub(max2), max1.wrapping_sub(min2)),
        _ => {
            let a = min1.wrapping_mul(min2);
            let b = min1.wrapping_mul(max2);
            let c = max1.wrapping_mul(min2);
            let d = max1.wrapping_mul(max2);
            let ab_lo = if a <= b { a } else { b };
            let cd_lo = if c <= d { c } else { d };
            let ab_hi = if a <= b { b } else { a };
            let cd_hi = if c <= d { d } else { c };
            (if ab_lo <= cd_lo { ab_lo } else { cd_lo }, if ab_hi <= cd_hi { cd_hi } else { ab_hi })
        },
    }
}

/// The type of a sum or a product over a quantifier, after the type of its
/// body.
pub open spec fn aggregate_type(t: SpecType) -> SpecType {
    match t {
        SpecType::Real => SpecType::Real,
        SpecType::Int => SpecType::Int,
        SpecType::Interval(_, _) => SpecType::Int,
        _ => SpecType::Undefined,
    }
}

/// The type of an expression: booleans for logic and comparisons, the
/// declared type of what a name refers to, intervals computed from the
/// operands, the common type of the branches of a conditional.
pub open spec fn spec_typ(p: SpecProblem, e: SpecExpr) -> SpecType
    decreases e, 0nat,
{
    match e {
        SpecExpr::BoolValue(_, _) => SpecType::Bool,
        SpecExpr::IntValue(v, _) => SpecType::Interval(v, v),
        SpecExpr::RealValue(_, _) => SpecType::Real,
        SpecExpr::Unary(op, x, _) => match op {
            UnaryOp::Not => SpecType::Bool,
            UnaryOp::Minus => match spec_typ(p, *x) {
                SpecType::Int => SpecType::Int,
                SpecType::Real => SpecType::Real,
                SpecType::Interval(min, max) => neg_interval(min, max),
                _ => SpecType::Undefined,
            },
        },
        SpecExpr::Binary(l, op, r, _) => match op {
            BinOp::Add => arith_type(spec_typ(p, *l), spec_typ(p, *r), op),
            BinOp::Sub => arith_type(spec_typ(p, *l), spec_typ(p, *r), op),
            BinOp::Mul => arith_type(spec_typ(p, *l), spec_typ(p, *r), op),
            BinOp::Div => SpecType::Real,
            _ => SpecType::Bool,
        },
        SpecExpr::FunctionCall(id, _, _) => p.functions[id.0 as int].typ,
        SpecExpr::Instance(id, _) => p.instances[id.0 as int].typ,
        SpecExpr::Variable(id, _) => p.variables[id.0 as int].typ,
        SpecExpr::Parameter(x) => x.typ,
        SpecExpr::StrucSelf(id, _) => SpecType::Structure(id),
        SpecExpr::StrucAttribute(_, id, _) => p.struct_attr(id).typ,
        SpecExpr::StrucMetCall(_, id, _, _) => p.struct_meth(id).typ,
        SpecExpr::ClassSelf(id, _) => SpecType::Class(id),
        SpecExpr::ClassAttribute(_, id, _) => p.class_attr(id).typ,
        SpecExpr::ClassMetCall(_, id, _, _) => p.class_meth(id).typ,
        SpecExpr::AsClass(_, id) => SpecType::Class(id),
        SpecExpr::AsInterval(_, min, max, _) => SpecType::Interval(min, max),
        SpecExpr::AsInt(_, _) => SpecType::Int,
        SpecExpr::AsReal(_, _) => SpecType::Real,
        SpecExpr::IfThenElse(_, t, l, x, _) => spec_common_type(
            p,
            typ_fold(p, l, l.len(), spec_typ(p, *t)),
            spec_typ(p, *x),
        ),
        SpecExpr::Quantifier(op, _, x, _) => match op {
            QtOp::Forall => SpecType::Bool,
            QtOp::Exists => SpecType::Bool,
            _ => aggregate_type(spec_typ(p, *x)),
        },
        _ => SpecType::Undefined,
    }
}

/// `acc` combined, by common type, with the types of the results of the
/// first `n` branches of `l`, in order.
pub open spec fn typ_fold(p: SpecProblem, l: Seq<(SpecExpr, SpecExpr)>, n: nat, acc: SpecType) -> SpecType
    decreases l, n,
{
    if n == 0 || n > l.len() {
        acc
    } else {
        spec_common_type(p, typ_fold(p, l, (n - 1) as nat, acc), spec_typ(p, l[n - 1].1))
    }
}

/// The common class walk ends on a class of its first list, or on its start.
proof fn lemma_common_walk_in(l1: Seq<ClassId>, l2: Seq<ClassId>, res: Option<ClassId>)
    ensures
        common_walk(l1, l2, res) matches Some(c) ==> (res == Some(c) || l1.contains(c)),
    decreases l1.len(),
{
    if l1.len() > 0 && l2.contains(l1[0]) {
        lemma_common_walk_in(l1.skip(1), l2, Some(l1[0]));
        let r = common_walk(l1.skip(1), l2, Some(l1[0]));
        if let Some(c) = r {
            if l1.skip(1).contains(c) {
                let k = choose|k: int| 0 <= k < l1.skip(1).len() && l1.skip(1)[k] == c;
                assert(l1[k + 1] == c);
            } else {
                assert(l1[0] == c);
            }
        }
    }
}

/// The common type of two types of a well-formed problem refers to its
/// declarations.
pub proof fn lemma_common_type_valid(p: SpecProblem, a: SpecType, b: SpecType)
    requires
        p.wf(),
        type_valid(p, a),
        type_valid(p, b),
    ensures
        type_valid(p, spec_common_type(p, a, b)),
{
    if let (SpecType::Class(c1), SpecType::Class(c2)) = (a, b) {
        let k = p.classes[c1.0 as int];
        assert(spec_super_class(k) matches Some(s) ==> s.0 < p.classes.len());
        lemma_super_classes_valid(p, k);
        let l1 = spec_super_classes(p, k).push(k.id);
        let l2 = super_classes_of(p, c2).push(c2);
        lemma_common_walk_in(l1, l2, None);
        if let Some(c) = common_walk(l1, l2, None) {
            let j = choose|j: int| 0 <= j < l1.len() && l1[j] == c;
            if j < l1.len() - 1 {
                assert(l1[j] == spec_super_classes(p, k)[j]);
            } else {
                assert(k.id == c1);
            }
        }
    }
}

/// The type of a valid expression of a well-formed problem refers to its
/// declarations.
pub proof fn lemma_typ_valid(p: SpecProblem, e: SpecExpr)
    requires
        p.wf(),
        expr_valid(p, e),
    ensures
        type_valid(p, spec_typ(p, e)),
    decreases e, 0nat,
{
    match e {
        SpecExpr::FunctionCall(id, _, _) => {
            assert(type_valid(p, p.functions[id.0 as int].typ));
        },
        SpecExpr::Instance(id, _) => {
            assert(type_valid(p, p.instances[id.0 as int].typ));
        },
        SpecExpr::Variable(id, _) => {
            assert(type_valid(p, p.variables[id.0 as int].typ));
        },
        SpecExpr::StrucAttribute(_, id, _) => {
            assert(type_valid(p, p.structures[id.0.0 as int].attributes[id.1 as int].typ));
        },
        SpecExpr::StrucMetCall(_, id, _, _) => {
            assert(type_valid(p, p.structures[id.0.0 as int].methods[id.1 as int].typ));
        },
        SpecExpr::ClassAttribute(_, id, _) => {
            assert(type_valid(p, p.classes[id.0.0 as int].attributes[id.1 as int].typ));
        },
        SpecExpr::ClassMetCall(_, id, _, _) => {
            assert(type_valid(p, p.classes[id.0.0 as int].methods[id.1 as int].typ));
        },
        SpecExpr::IfThenElse(_, t, l, x, _) => {
            lemma_typ_valid(p, *t);
            lemma_pairs_valid(p, l);
            lemma_typ_fold_valid(p, l, l.len(), spec_typ(p, *t));
            lemma_typ_valid(p, *x);
            lemma_common_type_valid(p, typ_fold(p, l, l.len(), spec_typ(p, *t)), spec_typ(p, *x));
        },
        _ => {},
    }
}

/// Folding valid branches by common type keeps types within the problem.
pub proof fn lemma_typ_fold_valid(p: SpecProblem, l: Seq<(SpecExpr, SpecExpr)>, n: nat, acc: SpecType)
    requires
        p.wf(),
        type_valid(p, acc),
        forall|i: int| 0 <= i < l.len() ==> expr_valid(p, (#[trigger] l[i]).0) && expr_valid(p, l[i].1),
    ensures
        type_valid(p, typ_fold(p, l, n, acc)),
    decreases l, n,
{
    if n > 0 && n <= l.len() {
        lemma_typ_fold_valid(p, l, (n - 1) as nat, acc);
        assert(expr_valid(p, l[n - 1].0) && expr_valid(p, l[n - 1].1));
        lemma_typ_valid(p, l[n - 1].1);
        lemma_common_type_valid(p, typ_fold(p, l, (n - 1) as nat, acc), spec_typ(p, l[n - 1].1));
    }
}

impl Expr {
    /// The type of the expression.
    pub fn typ(&self, problem: &Problem) -> (r: Type)
        requires
            problem@.wf(),
            expr_valid(problem@, self@),
        ensures
            r@ == spec_typ(problem@, self@),
        decreases self,
    {
        match self {
            Expr::BoolValue(_, _) => Type::Bool,
            Expr::IntValue(v, _) => Type::Interval(*v, *v),
            Expr::RealValue(_, _) => Type::Real,
            Expr::Unary(op, e, _) => match op {
                UnaryOp::Not => Type::Bool,
                UnaryOp::Minus => match e.typ(problem) {
                    Type::Int => Type::Int,
                    Type::Real => Type::Real,
                    Type::Interval(min, max) => Type::Interval(
                        0isize.wrapping_sub(max),
                        0isize.wrapping_sub(min),
                    ),
                    _ => Type::Undefined,
                },
            },
            Expr::Binary(l, op, r, _) => match op {
                BinOp::Add | BinOp::Sub | BinOp::Mul => {
                    let a = l.typ(problem);
                    let b = r.typ(problem);
                    match (a, b) {
                        (Type::Int, _) => Type::Int,
                        (Type::Real, _) => Type::Real,
                        (Type::Interval(_, _), Type::Int) => Type::Int,
                        (Type::Interval(min1, max1), Type::Interval(min2, max2)) => {
                            let (lo, hi) = interval_arith(*op, min1, max1, min2, max2);
                            Type::Interval(lo, hi)
                        },
                        _ => Type::Undefined,
                    }
                },
                BinOp::Div => Type::Real,
                _ => Type::Bool,
            },
            Expr::FunctionCall(id, _, _) => problem.get_function(*id).unwrap().typ().copy(),
            Expr::Instance(id, _) => problem.get_instance(*id).unwrap().typ().copy(),
            Expr::Variable(id, _) => problem.get_variable(*id).unwrap().typ().copy(),
            Expr::Parameter(x) => x.typ().copy(),
            Expr::StrucSelf(id, _) => Type::Structure(*id),
            Expr::StrucAttribute(_, id, _) => problem.get_struct_attribute(*id).typ().copy(),
            Expr::StrucMetCall(_, id, _, _) => problem.get_struct_method(*id).typ().copy(),
            Expr::ClassSelf(id, _) => Type::Class(*id),
            Expr::ClassAttribute(_, id, _) => problem.get_class_attribute(*id).typ().copy(),
            Expr::ClassMetCall(_, id, _, _) => problem.get_class_method(*id).typ().copy(),
            Expr::AsClass(_, id) => Type::Class(*id),
            Expr::AsInterval(_, min, max, _) => Type::Interval(*min, *max),
            Expr::AsInt(_, _) => Type::Int,
            Expr::AsReal(_, _) => Type::Real,
            Expr::IfThenElse(_, t, l, e, _) => {
                proof {
                    lemma_pairs_view(l@);
                    lemma_typ_valid(problem@, t@);
                }
                let res = branches_type(problem, l, t.typ(problem));
                proof {
                    lemma_typ_valid(problem@, e@);
                }
                let b = e.typ(problem);
                res.common_type(problem, &b)
            },
            Expr::Quantifier(op, _, e, _) => match op {
                QtOp::Forall => Type::Bool,
                QtOp::Exists => Type::Bool,
                _ => match e.typ(problem) {
                    Type::Real => Type::Real,
                    Type::Int => Type::Int,
                    Type::Interval(_, _) => Type::Int,
                    _ => Type::Undefined,
                },
            },
            _ => Type::Undefined,
        }
    }
}

/// `acc` combined, by common type, with the types of the results of the
/// branches `l`, in order.
fn branches_type(problem: &Problem, l: &Vec<(Expr, Expr)>, acc: Type) -> (r: Type)
    requires
        problem@.wf(),
        pairs_valid(problem@, pairs_view(l@)),
        type_valid(problem@, acc@),
    ensures
        r@ == typ_fold(problem@, pairs_view(l@), l.len() as nat, acc@),
        type_valid(problem@, r@),
    decreases l,
{
    let ghost p = problem@;
    let ghost lv = pairs_view(l@);
    let ghost a = acc@;
    proof {
        lemma_pairs_view(l@);
        lemma_pairs_valid(p, lv);
    }
    let mut res = acc;
    let mut i: usize = 0;
    while i < l.len()
        invariant
            p == problem@,
            p.wf(),
            lv == pairs_view(l@),
            lv.len() == l.len(),
            forall|k: int| 0 <= k < l.len() ==> #[trigger] lv[k] == (l@[k].0@, l@[k].1@),
            forall|k: int|
                0 <= k < lv.len() ==> expr_valid(p, (#[trigger] lv[k]).0) && expr_valid(p, lv[k].1),
            i <= l.len(),
            res@ == typ_fold(p, lv, i as nat, a),
            type_valid(p, res@),
        decreases l.len() - i,
    {
        proof {
            assert(decreases_to!(*l => l@[i as int]));
            assert(decreases_to!(l@[i as int] => l@[i as int].1));
            assert(lv[i as int] == (l@[i as int].0@, l@[i as int].1@));
            assert(expr_valid(p, lv[i as int].1));
            lemma_typ_valid(p, lv[i as int].1);
        }
        let b = l[i].1.typ(problem);
        proof {
            lemma_common_type_valid(p, res@, b@);
        }
        res = res.common_type(problem, &b);
        i += 1;
    }
    res
}

} // verus!
