//! Looking up the type names written in an expression.

use crate::error::Error;
use crate::error::SpecError;
use crate::error::expr_result;
use crate::parser::position::copy_pos;
use crate::problem::expression::every::NodeCheck;
use crate::problem::expression::every::every;
use crate::problem::expression::every::every_list;
use crate::problem::expression::every::every_pairs;
use crate::problem::expression::every::lemma_every_list;
use crate::problem::expression::every::lemma_every_pairs;
use crate::problem::expression::expr::Expr;
use crate::problem::expression::expr::SpecExpr;
use crate::problem::expression::expr::exprs_view;
use crate::problem::expression::expr::lemma_exprs_view;
use crate::problem::expression::expr::lemma_pairs_view;
use crate::problem::expression::expr::pairs_view;
use crate::problem::parameter::Parameter;
use crate::problem::parameter::SpecParameter;
use crate::problem::parameter::params_view;
use crate::problem::relations::spec_resolve_type;
use crate::problem::resolve_types::params_defined;
use crate::problem::type_entry::SpecTypeEntry;
use crate::problem::type_entry::TypeEntries;
use vstd::prelude::*;

verus! {

/// The parameter with its type looked up.
pub open spec fn spec_param_resolve(x: SpecParameter, entries: Seq<SpecTypeEntry>) -> Result<
    SpecParameter,
    SpecError,
> {
    match spec_resolve_type(x.typ, entries) {
        Ok(t) => Ok(SpecParameter { typ: t, ..x }),
        Err(e) => Err(e),
    }
}

/// The first `n` parameters with their types looked up, or the first error.
pub open spec fn params_resolve(s: Seq<SpecParameter>, entries: Seq<SpecTypeEntry>, n: nat) -> Result<
    Seq<SpecParameter>,
    SpecError,
>
    decreases n,
{
    if n == 0 || n > s.len() {
        Ok(seq![])
    } else {
        match params_resolve(s, entries, (n - 1) as nat) {
            Err(e) => Err(e),
            Ok(v) => match spec_param_resolve(s[n - 1], entries) {
                Ok(x) => Ok(v.push(x)),
                Err(e) => Err(e),
            },
        }
    }
}

/// The expression with every type name of its parameters looked up among
/// the type entries, or the first name that is not found (children from left
/// to right).
pub open spec fn spec_resolve_types(e: SpecExpr, entries: Seq<SpecTypeEntry>) -> Result<
    SpecExpr,
    SpecError,
>
    decreases e, 0nat,
{
    match e {
        SpecExpr::Unary(o, x, pos) => match spec_resolve_types(*x, entries) {
            Ok(y) => Ok(SpecExpr::Unary(o, Box::new(y), pos)),
            Err(er) => Err(er),
        },
        SpecExpr::Binary(l, o, r, pos) => match spec_resolve_types(*l, entries) {
            Err(er) => Err(er),
            Ok(a) => match spec_resolve_types(*r, entries) {
                Err(er) => Err(er),
                Ok(b) => Ok(SpecExpr::Binary(Box::new(a), o, Box::new(b), pos)),
            },
        },
        SpecExpr::Parameter(x) => match spec_param_resolve(x, entries) {
            Ok(y) => Ok(SpecExpr::Parameter(y)),
            Err(er) => Err(er),
        },
        SpecExpr::FunctionCall(id, a, pos) => match list_resolve_types(a, entries, a.len()) {
            Ok(v) => Ok(SpecExpr::FunctionCall(id, v, pos)),
            Err(er) => Err(er),
        },
        SpecExpr::StrucAttribute(x, id, pos) => match spec_resolve_types(*x, entries) {
            Ok(y) => Ok(SpecExpr::StrucAttribute(Box::new(y), id, pos)),
            Err(er) => Err(er),
        },
        SpecExpr::StrucMetCall(x, id, a, pos) => match spec_resolve_types(*x, entries) {
            Err(er) => Err(er),
            Ok(y) => match list_resolve_types(a, entries, a.len()) {
                Ok(v) => Ok(SpecExpr::StrucMetCall(Box::new(y), id, v, pos)),
                Err(er) => Err(er),
            },
        },
        SpecExpr::ClassAttribute(x, id, pos) => match spec_resolve_types(*x, entries) {
            Ok(y) => Ok(SpecExpr::ClassAttribute(Box::new(y), id, pos)),
            Err(er) => Err(er),
        },
        SpecExpr::ClassMetCall(x, id, a, pos) => match spec_resolve_types(*x, entries) {
            Err(er) => Err(er),
            Ok(y) => match list_resolve_types(a, entries, a.len()) {
                Ok(v) => Ok(SpecExpr::ClassMetCall(Box::new(y), id, v, pos)),
                Err(er) => Err(er),
            },
        },
        SpecExpr::AsClass(x, id) => match spec_resolve_types(*x, entries) {
            Ok(y) => Ok(SpecExpr::AsClass(Box::new(y), id)),
            Err(er) => Err(er),
        },
        SpecExpr::AsInterval(x, min, max, pos) => match spec_resolve_types(*x, entries) {
            Ok(y) => Ok(SpecExpr::AsInterval(Box::new(y), min, max, pos)),
            Err(er) => Err(er),
        },
        SpecExpr::AsInt(x, pos) => match spec_resolve_types(*x, entries) {
            Ok(y) => Ok(SpecExpr::AsInt(Box::new(y), pos)),
            Err(er) => Err(er),
        },
        SpecExpr::AsReal(x, pos) => match spec_resolve_types(*x, entries) {
            Ok(y) => Ok(SpecExpr::AsReal(Box::new(y), pos)),
            Err(er) => Err(er),
        },
        SpecExpr::IfThenElse(c, t, l, x, pos) => match spec_resolve_types(*c, entries) {
            Err(er) => Err(er),
            Ok(c2) => match spec_resolve_types(*t, entries) {
                Err(er) => Err(er),
                Ok(t2) => match pairs_resolve_types(l, entries, l.len()) {
                    Err(er) => Err(er),
                    Ok(l2) => match spec_resolve_types(*x, entries) {
                        Err(er) => Err(er),
                        Ok(x2) => Ok(
                            SpecExpr::IfThenElse(Box::new(c2), Box::new(t2), l2, Box::new(x2), pos),
                        ),
                    },
                },
            },
        },
        SpecExpr::Quantifier(op, ps, x, pos) => match params_resolve(ps, entries, ps.len()) {
            Err(er) => Err(er),
            Ok(ps2) => match spec_resolve_types(*x, entries) {
                Err(er) => Err(er),
                Ok(y) => Ok(SpecExpr::Quantifier(op, ps2, Box::new(y), pos)),
            },
        },
        SpecExpr::UnresolvedFunCall(n, a, pos) => match list_resolve_types(a, entries, a.len()) {
            Ok(v) => Ok(SpecExpr::UnresolvedFunCall(n, v, pos)),
            Err(er) => Err(er),
        },
        SpecExpr::UnresolvedAttribute(x, n, pos) => match spec_resolve_types(*x, entries) {
            Ok(y) => Ok(SpecExpr::UnresolvedAttribute(Box::new(y), n, pos)),
            Err(er) => Err(er),
        },
        SpecExpr::UnresolvedMethCall(x, n, a, pos) => match spec_resolve_types(*x, entries) {
            Err(er) => Err(er),
            Ok(y) => match list_resolve_types(a, entries, a.len()) {
                Ok(v) => Ok(SpecExpr::UnresolvedMethCall(Box::new(y), n, v, pos)),
                Err(er) => Err(er),
            },
        },
        _ => Ok(e),
    }
}

/// The first `n` expressions of the list with their type names looked up,
/// or the first error.
pub open spec fn list_resolve_types(s: Seq<SpecExpr>, entries: Seq<SpecTypeEntry>, n: nat) -> Result<
    Seq<SpecExpr>,
    SpecError,
>
    decreases s, n,
{
    if n == 0 || n > s.len() {
        Ok(seq![])
    } else {
        match list_resolve_types(s, entries, (n - 1) as nat) {
            Err(e) => Err(e),
            Ok(v) => match spec_resolve_types(s[n - 1], entries) {
                Ok(x) => Ok(v.push(x)),
                Err(e) => Err(e),
            },
        }
    }
}

/// The first `n` pairs of the list with their type names looked up, or the
/// first error.
pub open spec fn pairs_resolve_types(s: Seq<(SpecExpr, SpecExpr)>, entries: Seq<SpecTypeEntry>, n: nat) -> Result<
    Seq<(SpecExpr, SpecExpr)>,
    SpecError,
>
    decreases s, n,
{
    if n == 0 || n > s.len() {
        Ok(seq![])
    } else {
        match pairs_resolve_types(s, entries, (n - 1) as nat) {
            Err(e) => Err(e),
            Ok(v) => match spec_resolve_types(s[n - 1].0, entries) {
                Err(e) => Err(e),
                Ok(x) => match spec_resolve_types(s[n - 1].1, entries) {
                    Err(e) => Err(e),
                    Ok(y) => Ok(v.push((x, y))),
                },
            },
        }
    }
}

/// View of an outcome that gives a list of expressions.
pub open spec fn exprs_result(r: Result<Vec<Expr>, Error>) -> Result<Seq<SpecExpr>, SpecError> {
    match r {
        Ok(v) => Ok(exprs_view(v@)),
        Err(e) => Err(e@),
    }
}

/// View of an outcome that gives a list of pairs of expressions.
pub open spec fn pairs_result(r: Result<Vec<(Expr, Expr)>, Error>) -> Result<
    Seq<(SpecExpr, SpecExpr)>,
    SpecError,
> {
    match r {
        Ok(v) => Ok(pairs_view(v@)),
        Err(e) => Err(e@),
    }
}

/// View of an outcome that gives a list of parameters.
pub open spec fn params_result(r: Result<Vec<Parameter>, Error>) -> Result<
    Seq<SpecParameter>,
    SpecError,
> {
    match r {
        Ok(v) => Ok(params_view(v@)),
        Err(e) => Err(e@),
    }
}

/// Once a prefix of a list fails, every longer prefix fails the same way.
proof fn lemma_list_resolve_err(s: Seq<SpecExpr>, entries: Seq<SpecTypeEntry>, i: nat, n: nat)
    requires
        i <= n <= s.len(),
        list_resolve_types(s, entries, i) is Err,
    ensures
        list_resolve_types(s, entries, n) == list_resolve_types(s, entries, i),
    decreases n - i,
{
    if i < n {
        lemma_list_resolve_err(s, entries, i, (n - 1) as nat);
    }
}

/// Once a prefix of a list of pairs fails, every longer prefix fails the
/// same way.
proof fn lemma_pairs_resolve_err(
    s: Seq<(SpecExpr, SpecExpr)>,
    entries: Seq<SpecTypeEntry>,
    i: nat,
    n: nat,
)
    requires
        i <= n <= s.len(),
        pairs_resolve_types(s, entries, i) is Err,
    ensures
        pairs_resolve_types(s, entries, n) == pairs_resolve_types(s, entries, i),
    decreases n - i,
{
    if i < n {
        lemma_pairs_resolve_err(s, entries, i, (n - 1) as nat);
    }
}

/// Once a prefix of a list of parameters fails, every longer prefix fails
/// the same way.
proof fn lemma_params_resolve_err(s: Seq<SpecParameter>, entries: Seq<SpecTypeEntry>, i: nat, n: nat)
    requires
        i <= n <= s.len(),
        params_resolve(s, entries, i) is Err,
    ensures
        params_resolve(s, entries, n) == params_resolve(s, entries, i),
    decreases n - i,
{
    if i < n {
        lemma_params_resolve_err(s, entries, i, (n - 1) as nat);
    }
}

impl Parameter {
    /// Looks up the type name of the parameter; on an error the parameter is
    /// left as it was.
    pub fn resolve_type(&mut self, entries: &TypeEntries) -> (r: Result<(), Error>)
        requires
            !(old(self)@.typ is Undefined),
        ensures
            match spec_param_resolve(old(self)@, entries@) {
                Ok(x) => r is Ok && final(self)@ == x,
                Err(e) => r matches Err(er) && er@ == e && final(self)@ == old(self)@,
            },
            match spec_resolve_type(old(self)@.typ, entries@) {
                Ok(t) => r is Ok && final(self)@.typ == t,
                Err(e) => r matches Err(er) && er@ == e && final(self)@ == old(self)@,
            },
            final(self)@.name == old(self)@.name,
            final(self)@.position == old(self)@.position,
    {
        let t = self.typ.resolve_type(entries)?;
        self.typ = t;
        Ok(())
    }
}

/// The parameters with their type names looked up, or the first error.
pub fn resolve_params(v: &Vec<Parameter>, entries: &TypeEntries) -> (r: Result<Vec<Parameter>, Error>)
    requires
        params_defined(params_view(v@)),
    ensures
        params_result(r) == params_resolve(params_view(v@), entries@, v.len() as nat),
{
    let ghost s = params_view(v@);
    let mut w: Vec<Parameter> = Vec::new();
    let mut i: usize = 0;
    proof {
        assert(params_view(w@) =~= seq![]);
    }
    while i < v.len()
        invariant
            i <= v.len(),
            s == params_view(v@),
            params_defined(s),
            params_resolve(s, entries@, i as nat) == Ok::<Seq<SpecParameter>, SpecError>(
                params_view(w@),
            ),
        decreases v.len() - i,
    {
        let mut x = v[i].copy();
        proof {
            assert(s[i as int] == v@[i as int]@);
        }
        match x.resolve_type(entries) {
            Ok(_) => {
                let ghost before = w@;
                w.push(x);
                proof {
                    assert(params_view(w@) =~= params_view(before).push(x@));
                }
            },
            Err(e) => {
                proof {
                    lemma_params_resolve_err(s, entries@, (i + 1) as nat, v.len() as nat);
                }
                return Err(e);
            },
        }
        i += 1;
    }
    Ok(w)
}

impl Expr {
    /// The expression with the type names of its parameters looked up among
    /// the type entries, or the first name that is not found.
    pub fn resolve_type(&self, entries: &TypeEntries) -> (r: Result<Expr, Error>)
        requires
            every(NodeCheck::TypesDefined, self@),
        ensures
            expr_result(r) == spec_resolve_types(self@, entries@),
        decreases self,
    {
        match self {
            Expr::Unary(o, e, pos) => {
                let e = e.resolve_type(entries)?;
                Ok(Expr::Unary(*o, Box::new(e), copy_pos(pos)))
            },
            Expr::Binary(l, o, r, pos) => {
                let l = l.resolve_type(entries)?;
                let r = r.resolve_type(entries)?;
                Ok(Expr::Binary(Box::new(l), *o, Box::new(r), copy_pos(pos)))
            },
            Expr::Parameter(p) => {
                let mut p = p.copy();
                p.resolve_type(entries)?;
                Ok(Expr::Parameter(p))
            },
            Expr::FunctionCall(id, a, pos) => {
                proof {
                    lemma_exprs_view(a@);
                }
                let v = resolve_type_list(a, entries)?;
                Ok(Expr::FunctionCall(*id, v, copy_pos(pos)))
            },
            Expr::StrucAttribute(e, id, pos) => {
                let e = e.resolve_type(entries)?;
                Ok(Expr::StrucAttribute(Box::new(e), *id, copy_pos(pos)))
            },
            Expr::StrucMetCall(e, id, a, pos) => {
                proof {
                    lemma_exprs_view(a@);
                }
                let e = e.resolve_type(entries)?;
                let v = resolve_type_list(a, entries)?;
                Ok(Expr::StrucMetCall(Box::new(e), *id, v, copy_pos(pos)))
            },
            Expr::ClassAttribute(e, id, pos) => {
                let e = e.resolve_type(entries)?;
                Ok(Expr::ClassAttribute(Box::new(e), *id, copy_pos(pos)))
            },
            Expr::ClassMetCall(e, id, a, pos) => {
                proof {
                    lemma_exprs_view(a@);
                }
                let e = e.resolve_type(entries)?;
                let v = resolve_type_list(a, entries)?;
                Ok(Expr::ClassMetCall(Box::new(e), *id, v, copy_pos(pos)))
            },
            Expr::AsClass(e, id) => {
                let e = e.resolve_type(entries)?;
                Ok(Expr::AsClass(Box::new(e), *id))
            },
            Expr::AsInterval(e, min, max, pos) => {
                let e = e.resolve_type(entries)?;
                Ok(Expr::AsInterval(Box::new(e), *min, *max, copy_pos(pos)))
            },
            Expr::AsInt(e, pos) => {
                let e = e.resolve_type(entries)?;
                Ok(Expr::AsInt(Box::new(e), copy_pos(pos)))
            },
            Expr::AsReal(e, pos) => {
                let e = e.resolve_type(entries)?;
                Ok(Expr::AsReal(Box::new(e), copy_pos(pos)))
            },
            Expr::IfThenElse(c, t, l, e, pos) => {
                proof {
                    lemma_pairs_view(l@);
                }
                let c = c.resolve_type(entries)?;
                let t = t.resolve_type(entries)?;
                let v = resolve_type_pairs(l, entries)?;
                let e = e.resolve_type(entries)?;
                Ok(Expr::IfThenElse(Box::new(c), Box::new(t), v, Box::new(e), copy_pos(pos)))
            },
            Expr::Quantifier(op, ps, e, pos) => {
                let v = resolve_params(ps, entries)?;
                let e = e.resolve_type(entries)?;
                Ok(Expr::Quantifier(*op, v, Box::new(e), copy_pos(pos)))
            },
            Expr::UnresolvedFunCall(n, a, pos) => {
                proof {
                    lemma_exprs_view(a@);
                }
                let v = resolve_type_list(a, entries)?;
                Ok(Expr::UnresolvedFunCall(n.clone(), v, copy_pos(pos)))
            },
            Expr::UnresolvedAttribute(e, n, pos) => {
                let e = e.resolve_type(entries)?;
                Ok(Expr::UnresolvedAttribute(Box::new(e), n.clone(), copy_pos(pos)))
            },
            Expr::UnresolvedMethCall(e, n, a, pos) => {
                proof {
                    lemma_exprs_view(a@);
                }
                let e = e.resolve_type(entries)?;
                let v = resolve_type_list(a, entries)?;
                Ok(Expr::UnresolvedMethCall(Box::new(e), n.clone(), v, copy_pos(pos)))
            },
            _ => Ok(self.copy()),
        }
    }
}

/// The expressions with their type names looked up, or the first error.
pub fn resolve_type_list(v: &Vec<Expr>, entries: &TypeEntries) -> (r: Result<Vec<Expr>, Error>)
    requires
        every_list(NodeCheck::TypesDefined, exprs_view(v@), v.len() as nat),
    ensures
        exprs_result(r) == list_resolve_types(exprs_view(v@), entries@, v.len() as nat),
    decreases v,
{
    let ghost s = exprs_view(v@);
    proof {
        lemma_exprs_view(v@);
        lemma_every_list(NodeCheck::TypesDefined, s, v.len() as nat);
    }
    let mut w: Vec<Expr> = Vec::new();
    let mut i: usize = 0;
    while i < v.len()
        invariant
            i <= v.len(),
            s == exprs_view(v@),
            s.len() == v.len(),
            forall|k: int| 0 <= k < v.len() ==> #[trigger] s[k] == v@[k]@,
            forall|k: int| 0 <= k < v.len() ==> #[trigger] every(NodeCheck::TypesDefined, s[k]),
            list_resolve_types(s, entries@, i as nat) == Ok::<Seq<SpecExpr>, SpecError>(
                exprs_view(w@),
            ),
        decreases v.len() - i,
    {
        proof {
            assert(decreases_to!(*v => v@[i as int]));
            assert(s[i as int] == v@[i as int]@);
            assert(every(NodeCheck::TypesDefined, s[i as int]));
        }
        match v[i].resolve_type(entries) {
            Ok(x) => {
                let ghost before = w@;
                w.push(x);
                proof {
                    assert(w@.drop_last() == before);
                    assert(exprs_view(w@) == exprs_view(w@.drop_last()).push(w@.last()@));
                }
            },
            Err(e) => {
                proof {
                    lemma_list_resolve_err(s, entries@, (i + 1) as nat, v.len() as nat);
                }
                return Err(e);
            },
        }
        i += 1;
    }
    Ok(w)
}

/// The pairs of expressions with their type names looked up, or the first
/// error.
pub fn resolve_type_pairs(v: &Vec<(Expr, Expr)>, entries: &TypeEntries) -> (r: Result<
    Vec<(Expr, Expr)>,
    Error,
>)
    requires
        every_pairs(NodeCheck::TypesDefined, pairs_view(v@), v.len() as nat),
    ensures
        pairs_result(r) == pairs_resolve_types(pairs_view(v@), entries@, v.len() as nat),
    decreases v,
{
    let ghost s = pairs_view(v@);
    proof {
        lemma_pairs_view(v@);
        lemma_every_pairs(NodeCheck::TypesDefined, s, v.len() as nat);
    }
    let mut w: Vec<(Expr, Expr)> = Vec::new();
    let mut i: usize = 0;
    while i < v.len()
        invariant
            i <= v.len(),
            s == pairs_view(v@),
            s.len() == v.len(),
            forall|k: int| 0 <= k < v.len() ==> #[trigger] s[k] == (v@[k].0@, v@[k].1@),
            forall|k: int|
                0 <= k < v.len() ==> every(NodeCheck::TypesDefined, (#[trigger] s[k]).0) && every(
                    NodeCheck::TypesDefined,
                    s[k].1,
                ),
            pairs_resolve_types(s, entries@, i as nat) == Ok::<
                Seq<(SpecExpr, SpecExpr)>,
                SpecError,
            >(pairs_view(w@)),
        decreases v.len() - i,
    {
        proof {
            assert(decreases_to!(*v => v@[i as int]));
            assert(decreases_to!(v@[i as int] => v@[i as int].0));
            assert(decreases_to!(v@[i as int] => v@[i as int].1));
            assert(s[i as int] == (v@[i as int].0@, v@[i as int].1@));
            assert(every(NodeCheck::TypesDefined, s[i as int].0));
        }
        let x = match v[i].0.resolve_type(entries) {
            Ok(x) => x,
            Err(e) => {
                proof {
                    lemma_pairs_resolve_err(s, entries@, (i + 1) as nat, v.len() as nat);
                }
                return Err(e);
            },
        };
        let y = match v[i].1.resolve_type(entries) {
            Ok(y) => y,
            Err(e) => {
                proof {
                    lemma_pairs_resolve_err(s, entries@, (i + 1) as nat, v.len() as nat);
                }
                return Err(e);
            },
        };
        let ghost before = w@;
        w.push((x, y));
        proof {
            assert(w@.drop_last() == before);
            assert(pairs_view(w@) == pairs_view(w@.drop_last()).push((w@.last().0@, w@.last().1@)));
        }
        i += 1;
    }
    Ok(w)
}

} // verus!
