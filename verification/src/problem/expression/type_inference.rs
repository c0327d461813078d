//! Making class conversions explicit in resolved expressions.

use crate::parser::position::SpecPosition;
use crate::parser::position::copy_pos;
use crate::problem::class::Class;
use crate::problem::expression::check_type::zip_len;
use crate::problem::expression::every::NodeCheck;
use crate::problem::expression::every::every;
use crate::problem::expression::every::every_list;
use crate::problem::expression::every::every_pairs;
use crate::problem::expression::every::lemma_every_list;
use crate::problem::expression::every::lemma_every_pairs;
use crate::problem::expression::expr::BinOp;
use crate::problem::expression::expr::Expr;
use crate::problem::expression::expr::SpecExpr;
use crate::problem::expression::expr::exprs_view;
use crate::problem::expression::expr::lemma_exprs_view;
use crate::problem::expression::expr::lemma_pairs_view;
use crate::problem::expression::expr::pairs_view;
use crate::problem::expression::typ::lemma_typ_valid;
use crate::problem::expression::typ::spec_typ;
use crate::problem::expression::typ::typ_fold;
use crate::problem::parameter::Parameter;
use crate::problem::parameter::SpecParameter;
use crate::problem::parameter::copy_params;
use crate::problem::parameter::params_view;
use crate::problem::problem::Problem;
use crate::problem::problem::SpecProblem;
use crate::problem::relations::spec_is_subtype_of;
use crate::problem::relations::type_valid;
use crate::problem::typing::SpecType;
use crate::problem::typing::Type;
use crate::problem::valid::expr_valid;
use crate::problem::valid::exprs_valid;
use crate::problem::valid::lemma_exprs_valid;
use crate::problem::valid::lemma_pairs_valid;
use crate::problem::valid::pairs_valid;
use crate::problem::valid::params_valid;
use vstd::prelude::*;

verus! {

/// `e` as a value of type `expected`: a conversion where both are classes
/// that differ, else `e` itself.
pub open spec fn spec_as_type(p: SpecProblem, e: SpecExpr, expected: SpecType) -> SpecExpr {
    match (spec_typ(p, e), expected) {
        (SpecType::Class(id1), SpecType::Class(id2)) => if id1 == id2 {
            e
        } else {
            SpecExpr::AsClass(Box::new(e), id2)
        },
        _ => e,
    }
}

/// The operands of a comparison or an operation after inference: where both
/// are of different classes, the one of the sub class is converted to the
/// class of the other (the right one where neither is a sub class of the
/// other).
pub open spec fn infer_operands(p: SpecProblem, l: SpecExpr, r: SpecExpr) -> (SpecExpr, SpecExpr) {
    let lt = spec_typ(p, l);
    let rt = spec_typ(p, r);
    match (lt, rt) {
        (SpecType::Class(i1), SpecType::Class(i2)) => if i1 != i2 {
            if spec_is_subtype_of(p, lt, rt) {
                (spec_as_type(p, l, rt), r)
            } else {
                (l, spec_as_type(p, r, lt))
            }
        } else {
            (l, r)
        },
        _ => (l, r),
    }
}

/// The expression with the conversions between classes that its operands
/// and arguments need made explicit.
pub open spec fn spec_type_inference(p: SpecProblem, e: SpecExpr) -> SpecExpr
    decreases e, 0nat,
{
    match e {
        SpecExpr::Unary(op, x, pos) => SpecExpr::Unary(op, Box::new(spec_type_inference(p, *x)), pos),
        SpecExpr::Binary(l, op, r, pos) => {
            let ops = infer_operands(p, spec_type_inference(p, *l), spec_type_inference(p, *r));
            SpecExpr::Binary(Box::new(ops.0), op, Box::new(ops.1), pos)
        },
        SpecExpr::FunctionCall(id, a, pos) => {
            let ps = p.functions[id.0 as int].parameters;
            SpecExpr::FunctionCall(id, args_inference(p, a, ps, zip_len(ps, a)), pos)
        },
        SpecExpr::StrucAttribute(x, id, pos) => SpecExpr::StrucAttribute(
            Box::new(spec_type_inference(p, *x)),
            id,
            pos,
        ),
        SpecExpr::StrucMetCall(x, id, a, pos) => {
            let ps = p.struct_meth(id).parameters;
            SpecExpr::StrucMetCall(
                Box::new(spec_type_inference(p, *x)),
                id,
                args_inference(p, a, ps, zip_len(ps, a)),
                pos,
            )
        },
        SpecExpr::ClassAttribute(x, id, pos) => SpecExpr::ClassAttribute(
            Box::new(spec_as_type(p, spec_type_inference(p, *x), SpecType::Class(id.0))),
            id,
            pos,
        ),
        SpecExpr::ClassMetCall(x, id, a, pos) => {
            let ps = p.class_meth(id).parameters;
            SpecExpr::ClassMetCall(
                Box::new(spec_as_type(p, spec_type_inference(p, *x), SpecType::Class(id.0))),
                id,
                args_inference(p, a, ps, zip_len(ps, a)),
                pos,
            )
        },
        SpecExpr::AsClass(x, id) => SpecExpr::AsClass(Box::new(spec_type_inference(p, *x)), id),
        SpecExpr::AsInterval(x, min, max, pos) => SpecExpr::AsInterval(
            Box::new(spec_type_inference(p, *x)),
            min,
            max,
            pos,
        ),
        SpecExpr::AsInt(x, pos) => SpecExpr::AsInt(Box::new(spec_type_inference(p, *x)), pos),
        SpecExpr::AsReal(x, pos) => SpecExpr::AsReal(Box::new(spec_type_inference(p, *x)), pos),
        SpecExpr::IfThenElse(c, t, l, x, pos) => SpecExpr::IfThenElse(
            Box::new(spec_type_inference(p, *c)),
            Box::new(spec_type_inference(p, *t)),
            pairs_inference(p, l, l.len()),
            Box::new(spec_type_inference(p, *x)),
            pos,
        ),
        SpecExpr::Quantifier(op, ps, x, pos) => SpecExpr::Quantifier(
            op,
            ps,
            Box::new(spec_type_inference(p, *x)),
            pos,
        ),
        _ => e,
    }
}

/// The first `n` arguments after inference, each as a value of the type of
/// its parameter.
pub open spec fn args_inference(p: SpecProblem, a: Seq<SpecExpr>, ps: Seq<SpecParameter>, n: nat) -> Seq<
    SpecExpr,
>
    decreases a, n,
{
    if n == 0 || n > a.len() {
        seq![]
    } else {
        args_inference(p, a, ps, (n - 1) as nat).push(
            spec_as_type(p, spec_type_inference(p, a[n - 1]), ps[n - 1].typ),
        )
    }
}

/// The first `n` pairs of expressions after inference.
pub open spec fn pairs_inference(p: SpecProblem, l: Seq<(SpecExpr, SpecExpr)>, n: nat) -> Seq<
    (SpecExpr, SpecExpr),
>
    decreases l, n,
{
    if n == 0 || n > l.len() {
        seq![]
    } else {
        pairs_inference(p, l, (n - 1) as nat).push(
            (spec_type_inference(p, l[n - 1].0), spec_type_inference(p, l[n - 1].1)),
        )
    }
}

/// Type inference keeps the type of an expression.
#[verifier::rlimit(50)]
pub proof fn law_type_inference_keeps_type(p: SpecProblem, e: SpecExpr)
    ensures
        spec_typ(p, spec_type_inference(p, e)) == spec_typ(p, e),
    decreases e, 0nat,
{
    let ti = spec_type_inference(p, e);
    match e {
        SpecExpr::Unary(op, x, pos) => {
            law_type_inference_keeps_type(p, *x);
            assert(ti == SpecExpr::Unary(op, Box::new(spec_type_inference(p, *x)), pos));
        },
        SpecExpr::Binary(l, op, r, pos) => {
            law_type_inference_keeps_type(p, *l);
            law_type_inference_keeps_type(p, *r);
            let a = spec_type_inference(p, *l);
            let b = spec_type_inference(p, *r);
            lemma_as_type_class(p, a, spec_typ(p, b));
            lemma_as_type_class(p, b, spec_typ(p, a));
            lemma_binary_typ(p, op, a, b, *l, *r, pos);
        },
        SpecExpr::IfThenElse(c, t, l, x, pos) => {
            law_type_inference_keeps_type(p, *t);
            law_type_inference_keeps_type(p, *x);
            lemma_fold_inference(p, l, l.len(), spec_typ(p, *t));
            lemma_pairs_inference_len(p, l, l.len());
        },
        SpecExpr::Quantifier(op, ps, x, pos) => {
            law_type_inference_keeps_type(p, *x);
            assert(ti == SpecExpr::Quantifier(op, ps, Box::new(spec_type_inference(p, *x)), pos));
        },
        _ => {},
    }
}

/// A binary operation after inference of its operands, which kept their
/// types, has the type of the operation before.
proof fn lemma_binary_typ(
    p: SpecProblem,
    op: BinOp,
    a: SpecExpr,
    b: SpecExpr,
    l: SpecExpr,
    r: SpecExpr,
    pos: Option<SpecPosition>,
)
    requires
        spec_typ(p, a) == spec_typ(p, l),
        spec_typ(p, b) == spec_typ(p, r),
        spec_typ(p, a) is Class ==> spec_typ(p, spec_as_type(p, a, spec_typ(p, b))) is Class,
        !(spec_typ(p, a) is Class) ==> spec_as_type(p, a, spec_typ(p, b)) == a,
        spec_typ(p, b) is Class ==> spec_typ(p, spec_as_type(p, b, spec_typ(p, a))) is Class,
        !(spec_typ(p, b) is Class) ==> spec_as_type(p, b, spec_typ(p, a)) == b,
    ensures
        spec_typ(
            p,
            SpecExpr::Binary(
                Box::new(infer_operands(p, a, b).0),
                op,
                Box::new(infer_operands(p, a, b).1),
                pos,
            ),
        ) == spec_typ(p, SpecExpr::Binary(Box::new(l), op, Box::new(r), pos)),
{
}

/// Converting an expression of a class to a class gives an expression of a
/// class, and leaves any other expression as it is.
proof fn lemma_as_type_class(p: SpecProblem, e: SpecExpr, t: SpecType)
    ensures
        spec_typ(p, e) is Class ==> spec_typ(p, spec_as_type(p, e, t)) is Class,
        !(spec_typ(p, e) is Class) ==> spec_as_type(p, e, t) == e,
{
}

/// The types of the branches after inference fold to the same type.
proof fn lemma_fold_inference(p: SpecProblem, l: Seq<(SpecExpr, SpecExpr)>, n: nat, acc: SpecType)
    requires
        n <= l.len(),
    ensures
        typ_fold(p, pairs_inference(p, l, l.len()), n, acc) == typ_fold(p, l, n, acc),
    decreases l, n,
{
    lemma_pairs_inference_len(p, l, l.len());
    if n > 0 {
        lemma_fold_inference(p, l, (n - 1) as nat, acc);
        assert(decreases_to!(l => l[n - 1]));
        assert(decreases_to!(l[n - 1] => l[n - 1].1));
        law_type_inference_keeps_type(p, l[n - 1].1);
        lemma_pairs_inference_at(p, l, l.len(), n - 1);
    }
}

/// The inference of the first `n` pairs has `n` pairs.
proof fn lemma_pairs_inference_len(p: SpecProblem, l: Seq<(SpecExpr, SpecExpr)>, n: nat)
    requires
        n <= l.len(),
    ensures
        pairs_inference(p, l, n).len() == n,
    decreases n,
{
    if n > 0 {
        lemma_pairs_inference_len(p, l, (n - 1) as nat);
    }
}

/// The `k`-th pair of the inference of the first `n` pairs.
proof fn lemma_pairs_inference_at(p: SpecProblem, l: Seq<(SpecExpr, SpecExpr)>, n: nat, k: int)
    requires
        n <= l.len(),
        0 <= k < n,
    ensures
        pairs_inference(p, l, n)[k] == (spec_type_inference(p, l[k].0), spec_type_inference(p, l[k].1)),
    decreases n,
{
    lemma_pairs_inference_len(p, l, (n - 1) as nat);
    if k < n - 1 {
        lemma_pairs_inference_at(p, l, (n - 1) as nat, k);
    }
}

impl Expr {
    /// The expression as a value of type `expected`: a conversion where both
    /// are classes that differ, else a copy of the expression.
    pub fn as_type(&self, problem: &Problem, expected: &Type) -> (r: Expr)
        requires
            problem@.wf(),
            expr_valid(problem@, self@),
            type_valid(problem@, expected@),
        ensures
            r@ == spec_as_type(problem@, self@, expected@),
            expr_valid(problem@, r@),
    {
        match (self.typ(problem), expected) {
            (Type::Class(id1), Type::Class(id2)) => {
                if id1.0 == *&id2.0 {
                    self.copy()
                } else {
                    Expr::AsClass(Box::new(self.copy()), *id2)
                }
            },
            _ => self.copy(),
        }
    }

    /// The expression with the conversions between classes that its
    /// operands and arguments need made explicit.
    pub fn type_inference(&self, problem: &Problem) -> (r: Expr)
        requires
            problem@.wf(),
            expr_valid(problem@, self@),
            every(NodeCheck::Resolved, self@),
        ensures
            r@ == spec_type_inference(problem@, self@),
            expr_valid(problem@, r@),
        decreases self,
    {
        let ghost p = problem@;
        match self {
            Expr::Unary(op, e, pos) => Expr::Unary(*op, Box::new(e.type_inference(problem)), copy_pos(pos)),
            Expr::Binary(l, op, r, pos) => {
                let mut left = l.type_inference(problem);
                let mut right = r.type_inference(problem);
                proof {
                    lemma_typ_valid(p, left@);
                    lemma_typ_valid(p, right@);
                }
                let lt = left.typ(problem);
                let rt = right.typ(problem);
                match (&lt, &rt) {
                    (Type::Class(i1), Type::Class(i2)) => {
                        if i1.0 != i2.0 {
                            if lt.is_subtype_of(problem, &rt) {
                                left = left.as_type(problem, &rt);
                            } else {
                                right = right.as_type(problem, &lt);
                            }
                        }
                    },
                    _ => {},
                }
                Expr::Binary(Box::new(left), *op, Box::new(right), copy_pos(pos))
            },
            Expr::FunctionCall(id, a, pos) => {
                proof {
                    lemma_exprs_view(a@);
                }
                let f = problem.get_function(*id).unwrap();
                proof {
                    assert(params_valid(p, p.functions[id.0 as int].parameters));
                }
                let v = infer_args(problem, a, f.parameters());
                Expr::FunctionCall(*id, v, copy_pos(pos))
            },
            Expr::StrucAttribute(e, id, pos) => Expr::StrucAttribute(
                Box::new(e.type_inference(problem)),
                *id,
                copy_pos(pos),
            ),
            Expr::StrucMetCall(e, id, a, pos) => {
                proof {
                    lemma_exprs_view(a@);
                }
                let m = problem.get_struct_method(*id);
                proof {
                    assert(params_valid(p, p.structures[id.0.0 as int].methods[id.1 as int].parameters));
                }
                let x = e.type_inference(problem);
                let v = infer_args(problem, a, m.parameters());
                Expr::StrucMetCall(Box::new(x), *id, v, copy_pos(pos))
            },
            Expr::ClassAttribute(e, id, pos) => {
                let x = e.type_inference(problem);
                let x = x.as_type(problem, &Type::Class(id.0));
                Expr::ClassAttribute(Box::new(x), *id, copy_pos(pos))
            },
            Expr::ClassMetCall(e, id, a, pos) => {
                proof {
                    lemma_exprs_view(a@);
                }
                let x = e.type_inference(problem);
                let x = x.as_type(problem, &Type::Class(id.0));
                let m = problem.get_class_method(*id);
                proof {
                    assert(params_valid(p, p.classes[id.0.0 as int].methods[id.1 as int].parameters));
                }
                let v = infer_args(problem, a, m.parameters());
                Expr::ClassMetCall(Box::new(x), *id, v, copy_pos(pos))
            },
            Expr::AsClass(e, id) => Expr::AsClass(Box::new(e.type_inference(problem)), *id),
            Expr::AsInterval(e, min, max, pos) => Expr::AsInterval(
                Box::new(e.type_inference(problem)),
                *min,
                *max,
                copy_pos(pos),
            ),
            Expr::AsInt(e, pos) => Expr::AsInt(Box::new(e.type_inference(problem)), copy_pos(pos)),
            Expr::AsReal(e, pos) => Expr::AsReal(Box::new(e.type_inference(problem)), copy_pos(pos)),
            Expr::IfThenElse(c, t, l, e, pos) => {
                proof {
                    lemma_pairs_view(l@);
                }
                let c2 = c.type_inference(problem);
                let t2 = t.type_inference(problem);
                let l2 = infer_pairs(problem, l);
                let e2 = e.type_inference(problem);
                Expr::IfThenElse(Box::new(c2), Box::new(t2), l2, Box::new(e2), copy_pos(pos))
            },
            Expr::Quantifier(op, ps, e, pos) => Expr::Quantifier(
                *op,
                copy_params(ps),
                Box::new(e.type_inference(problem)),
                copy_pos(pos),
            ),
            _ => self.copy(),
        }
    }
}

/// The arguments after inference, each as a value of the type of its
/// parameter, up to the shorter list.
fn infer_args(problem: &Problem, a: &Vec<Expr>, ps: &Vec<Parameter>) -> (r: Vec<Expr>)
    requires
        problem@.wf(),
        exprs_valid(problem@, exprs_view(a@)),
        every_list(NodeCheck::Resolved, exprs_view(a@), a.len() as nat),
        params_valid(problem@, params_view(ps@)),
    ensures
        exprs_view(r@) == args_inference(
            problem@,
            exprs_view(a@),
            params_view(ps@),
            zip_len(params_view(ps@), exprs_view(a@)),
        ),
        exprs_valid(problem@, exprs_view(r@)),
    decreases a,
{
    let ghost p = problem@;
    let ghost s = exprs_view(a@);
    let ghost pv = params_view(ps@);
    proof {
        lemma_exprs_view(a@);
        lemma_exprs_valid(p, s);
        lemma_every_list(NodeCheck::Resolved, s, a.len() as nat);
    }
    let n: usize = if ps.len() <= a.len() { ps.len() } else { a.len() };
    let mut w: Vec<Expr> = Vec::new();
    let mut i: usize = 0;
    while i < n
        invariant
            p == problem@,
            p.wf(),
            s == exprs_view(a@),
            pv == params_view(ps@),
            params_valid(p, pv),
            s.len() == a.len(),
            n <= a.len(),
            n <= ps.len(),
            i <= n,
            forall|k: int| 0 <= k < a.len() ==> #[trigger] s[k] == a@[k]@,
            forall|k: int| 0 <= k < a.len() ==> #[trigger] expr_valid(p, s[k]),
            forall|k: int| 0 <= k < a.len() ==> #[trigger] every(NodeCheck::Resolved, s[k]),
            exprs_view(w@) == args_inference(p, s, pv, i as nat),
            w.len() == i,
            forall|k: int| 0 <= k < w.len() ==> #[trigger] expr_valid(p, w@[k]@),
        decreases n - i,
    {
        proof {
            assert(decreases_to!(*a => a@[i as int]));
            assert(s[i as int] == a@[i as int]@);
            assert(expr_valid(p, s[i as int]));
            assert(every(NodeCheck::Resolved, s[i as int]));
            assert(type_valid(p, pv[i as int].typ));
        }
        let x = a[i].type_inference(problem);
        let x = x.as_type(problem, ps[i].typ());
        let ghost before = w@;
        w.push(x);
        proof {
            assert(w@.drop_last() == before);
            assert(exprs_view(w@) == exprs_view(w@.drop_last()).push(w@.last()@));
        }
        i += 1;
    }
    proof {
        lemma_exprs_view(w@);
        lemma_exprs_valid(p, exprs_view(w@));
    }
    w
}

/// The pairs of expressions after inference.
fn infer_pairs(problem: &Problem, l: &Vec<(Expr, Expr)>) -> (r: Vec<(Expr, Expr)>)
    requires
        problem@.wf(),
        pairs_valid(problem@, pairs_view(l@)),
        every_pairs(NodeCheck::Resolved, pairs_view(l@), l.len() as nat),
    ensures
        pairs_view(r@) == pairs_inference(problem@, pairs_view(l@), l.len() as nat),
        pairs_valid(problem@, pairs_view(r@)),
    decreases l,
{
    let ghost p = problem@;
    let ghost s = pairs_view(l@);
    proof {
        lemma_pairs_view(l@);
        lemma_pairs_valid(p, s);
        lemma_every_pairs(NodeCheck::Resolved, s, l.len() as nat);
    }
    let mut w: Vec<(Expr, Expr)> = Vec::new();
    let mut i: usize = 0;
    while i < l.len()
        invariant
            p == problem@,
            p.wf(),
            s == pairs_view(l@),
            s.len() == l.len(),
            i <= l.len(),
            forall|k: int| 0 <= k < l.len() ==> #[trigger] s[k] == (l@[k].0@, l@[k].1@),
            forall|k: int| 0 <= k < l.len() ==> expr_valid(p, (#[trigger] s[k]).0) && expr_valid(p, s[k].1),
            forall|k: int|
                0 <= k < l.len() ==> every(NodeCheck::Resolved, (#[trigger] s[k]).0) && every(
                    NodeCheck::Resolved,
                    s[k].1,
                ),
            pairs_view(w@) == pairs_inference(p, s, i as nat),
            w.len() == i,
            forall|k: int|
                0 <= k < w.len() ==> expr_valid(p, (#[trigger] w@[k]).0@) && expr_valid(p, w@[k].1@),
        decreases l.len() - i,
    {
        proof {
            assert(decreases_to!(*l => l@[i as int]));
            assert(decreases_to!(l@[i as int] => l@[i as int].0));
            assert(decreases_to!(l@[i as int] => l@[i as int].1));
            assert(s[i as int] == (l@[i as int].0@, l@[i as int].1@));
            assert(expr_valid(p, s[i as int].0));
            assert(every(NodeCheck::Resolved, s[i as int].0));
        }
        let x = l[i].0.type_inference(problem);
        let y = l[i].1.type_inference(problem);
        let ghost before = w@;
        w.push((x, y));
        proof {
            assert(w@.drop_last() == before);
            assert(pairs_view(w@) == pairs_view(w@.drop_last()).push((w@.last().0@, w@.last().1@)));
        }
        i += 1;
    }
    proof {
        lemma_pairs_view(w@);
        lemma_pairs_valid(p, pairs_view(w@));
    }
    w
}

} // verus!
