//! How an expression is written in the language.

use crate::problem::expression::expr::BinOp;
use crate::problem::expression::expr::Expr;
use crate::problem::expression::expr::QtOp;
use crate::problem::expression::expr::SpecExpr;
use crate::problem::expression::expr::UnaryOp;
use crate::problem::expression::expr::exprs_view;
use crate::problem::expression::expr::lemma_exprs_view;
use crate::problem::expression::expr::lemma_pairs_view;
use crate::problem::expression::expr::pairs_view;
use crate::problem::instance::Instance;
use crate::problem::parameter::Parameter;
use crate::problem::parameter::SpecParameter;
use crate::problem::parameter::params_view;
use crate::problem::problem::Problem;
use crate::problem::problem::SpecProblem;
use crate::problem::rational::fraction_display;
use crate::problem::relations::type_lang;
use crate::problem::relations::type_valid;
use crate::problem::valid::expr_valid;
use crate::problem::valid::exprs_valid;
use crate::problem::valid::lemma_exprs_valid;
use crate::problem::valid::lemma_pairs_valid;
use crate::problem::valid::pairs_valid;
use crate::problem::valid::params_valid;
use crate::problem::variable::Variable;
use crate::text::int_text;
use crate::text::isize_text;
use crate::text::join;
use crate::text::join_strings;
use vstd::string::*;
use vstd::prelude::*;

verus! {

/// How a unary operator is written.
pub open spec fn unary_op_lang(op: UnaryOp) -> Seq<char> {
    match op {
        UnaryOp::Not => "not"@,
        UnaryOp::Minus => "-"@,
    }
}

/// How a binary operator is written.
pub open spec fn bin_op_lang(op: BinOp) -> Seq<char> {
    match op {
        BinOp::Eq => "="@,
        BinOp::Ne => "!="@,
        BinOp::Lt => "<"@,
        BinOp::Le => "<="@,
        BinOp::Ge => ">="@,
        BinOp::Gt => ">"@,
        BinOp::And => "and"@,
        BinOp::Or => "or"@,
        BinOp::Implies => "=>"@,
        BinOp::Add => "+"@,
        BinOp::Sub => "-"@,
        BinOp::Mul => "*"@,
        BinOp::Div => "/"@,
    }
}

/// How a quantifier is written.
pub open spec fn qt_op_lang(op: QtOp) -> Seq<char> {
    match op {
        QtOp::Forall => "forall"@,
        QtOp::Exists => "exists"@,
        QtOp::Sum => "sum"@,
        QtOp::Prod => "prod"@,
    }
}

/// How a parameter is written: its name and its type.
pub open spec fn param_lang(p: SpecProblem, q: SpecParameter) -> Seq<char> {
    q.name + ": "@ + type_lang(p, q.typ)
}

/// How the first `n` parameters are written, one text each.
pub open spec fn param_langs(p: SpecProblem, ps: Seq<SpecParameter>, n: nat) -> Seq<Seq<char>>
    decreases n,
{
    if n == 0 || n > ps.len() {
        seq![]
    } else {
        param_langs(p, ps, (n - 1) as nat).push(param_lang(p, ps[n - 1]))
    }
}

/// How an expression is written.
pub open spec fn spec_expr_lang(p: SpecProblem, e: SpecExpr) -> Seq<char>
    decreases e, 0nat,
{
    match e {
        SpecExpr::BoolValue(v, _) => if v {
            "true"@
        } else {
            "false"@
        },
        SpecExpr::IntValue(v, _) => int_text(v as int),
        SpecExpr::RealValue(v, _) => fraction_display(v.is_negative(), v.numer_of(), v.denom_of()),
        SpecExpr::Unary(op, x, _) => "("@ + unary_op_lang(op) + " "@ + spec_expr_lang(p, *x) + ")"@,
        SpecExpr::Binary(l, op, r, _) => "("@ + spec_expr_lang(p, *l) + " "@ + bin_op_lang(op)
            + " "@ + spec_expr_lang(p, *r) + ")"@,
        SpecExpr::FunctionCall(id, a, _) => p.functions[id.0 as int].name + "("@ + join(
            expr_langs(p, a, a.len()),
            ", "@,
        ) + ")"@,
        SpecExpr::Instance(id, _) => p.instances[id.0 as int].name,
        SpecExpr::Variable(id, _) => p.variables[id.0 as int].name,
        SpecExpr::Parameter(q) => q.name,
        SpecExpr::StrucSelf(_, _) => "self"@,
        SpecExpr::StrucAttribute(x, id, _) => "("@ + spec_expr_lang(p, *x) + "."@ + p.struct_attr(
            id,
        ).name + ")"@,
        SpecExpr::StrucMetCall(x, id, a, _) => spec_expr_lang(p, *x) + "."@ + p.struct_meth(id).name
            + "("@ + join(expr_langs(p, a, a.len()), ", "@) + ")"@,
        SpecExpr::ClassSelf(_, _) => "self"@,
        SpecExpr::ClassAttribute(x, id, _) => "("@ + spec_expr_lang(p, *x) + "."@ + p.class_attr(
            id,
        ).name + ")"@,
        SpecExpr::ClassMetCall(x, id, a, _) => spec_expr_lang(p, *x) + "."@ + p.class_meth(id).name
            + "("@ + join(expr_langs(p, a, a.len()), ", "@) + ")"@,
        SpecExpr::AsClass(x, id) => "("@ + spec_expr_lang(p, *x) + " as "@ + p.classes[id.0 as int].name
            + ")"@,
        SpecExpr::AsInterval(x, min, max, _) => "("@ + spec_expr_lang(p, *x) + " as "@ + int_text(
            min as int,
        ) + ".."@ + int_text(max as int) + ")"@,
        SpecExpr::AsInt(x, _) => "("@ + spec_expr_lang(p, *x) + " as Int)"@,
        SpecExpr::AsReal(x, _) => "("@ + spec_expr_lang(p, *x) + " as Real)"@,
        SpecExpr::IfThenElse(c, t, l, x, _) => "if "@ + spec_expr_lang(p, *c) + " then "@
            + spec_expr_lang(p, *t) + branches_lang(p, l, l.len()) + " else "@ + spec_expr_lang(
            p,
            *x,
        ) + " end"@,
        SpecExpr::Quantifier(op, ps, x, _) => qt_op_lang(op) + " "@ + join(
            param_langs(p, ps, ps.len()),
            ", "@,
        ) + " | "@ + spec_expr_lang(p, *x) + " end"@,
        SpecExpr::Unresolved(name, _) => name + "?"@,
        SpecExpr::UnresolvedFunCall(name, a, _) => name + "?("@ + join(
            expr_langs(p, a, a.len()),
            ", "@,
        ) + ")"@,
        SpecExpr::UnresolvedAttribute(x, name, _) => "("@ + spec_expr_lang(p, *x) + "."@ + name
            + ")?"@,
        SpecExpr::UnresolvedMethCall(x, name, a, _) => spec_expr_lang(p, *x) + "."@ + name + "("@
            + join(expr_langs(p, a, a.len()), ", "@) + ")"@,
    }
}

/// How the first `n` expressions of the list are written, one text each.
pub open spec fn expr_langs(p: SpecProblem, s: Seq<SpecExpr>, n: nat) -> Seq<Seq<char>>
    decreases s, n,
{
    if n == 0 || n > s.len() {
        seq![]
    } else {
        expr_langs(p, s, (n - 1) as nat).push(spec_expr_lang(p, s[n - 1]))
    }
}

/// How the first `n` branches after the first one of a conditional are
/// written.
pub open spec fn branches_lang(p: SpecProblem, l: Seq<(SpecExpr, SpecExpr)>, n: nat) -> Seq<char>
    decreases l, n,
{
    if n == 0 || n > l.len() {
        seq![]
    } else {
        branches_lang(p, l, (n - 1) as nat) + " elif "@ + spec_expr_lang(p, l[n - 1].0) + " then "@
            + spec_expr_lang(p, l[n - 1].1)
    }
}

/// How a unary operator is written.
pub fn unary_op_text(op: UnaryOp) -> (r: &'static str)
    ensures
        r@ == unary_op_lang(op),
{
    match op {
        UnaryOp::Not => "not",
        UnaryOp::Minus => "-",
    }
}

/// How a binary operator is written.
pub fn bin_op_text(op: BinOp) -> (r: &'static str)
    ensures
        r@ == bin_op_lang(op),
{
    match op {
        BinOp::Eq => "=",
        BinOp::Ne => "!=",
        BinOp::Lt => "<",
        BinOp::Le => "<=",
        BinOp::Ge => ">=",
        BinOp::Gt => ">",
        BinOp::And => "and",
        BinOp::Or => "or",
        BinOp::Implies => "=>",
        BinOp::Add => "+",
        BinOp::Sub => "-",
        BinOp::Mul => "*",
        BinOp::Div => "/",
    }
}

/// How a quantifier is written.
pub fn qt_op_text(op: QtOp) -> (r: &'static str)
    ensures
        r@ == qt_op_lang(op),
{
    match op {
        QtOp::Forall => "forall",
        QtOp::Exists => "exists",
        QtOp::Sum => "sum",
        QtOp::Prod => "prod",
    }
}

impl Parameter {
    /// How the parameter is written: its name and its type.
    pub fn to_lang(&self, problem: &Problem) -> (r: String)
        requires
            type_valid(problem@, self@.typ),
        ensures
            r@ == param_lang(problem@, self@),
    {
        let mut s = self.name.clone();
        s.append(": ");
        let t = self.typ.to_lang(problem);
        s.append(t.as_str());
        s
    }
}

/// The texts of the parameters, one each, joined by commas.
pub fn params_text(problem: &Problem, ps: &Vec<Parameter>) -> (r: String)
    requires
        params_valid(problem@, params_view(ps@)),
    ensures
        r@ == join(param_langs(problem@, params_view(ps@), ps.len() as nat), ", "@),
{
    let ghost p = problem@;
    let ghost pv = params_view(ps@);
    let mut texts: Vec<String> = Vec::new();
    let mut i: usize = 0;
    while i < ps.len()
        invariant
            p == problem@,
            pv == params_view(ps@),
            params_valid(p, pv),
            i <= ps.len(),
            texts.len() == i,
            forall|k: int| 0 <= k < i ==> #[trigger] texts@[k]@ == param_lang(p, pv[k]),
        decreases ps.len() - i,
    {
        proof {
            assert(type_valid(p, pv[i as int].typ));
        }
        texts.push(ps[i].to_lang(problem));
        i += 1;
    }
    proof {
        lemma_param_langs(p, pv, ps.len() as nat);
        assert(texts@.map_values(|x: String| x@) =~= param_langs(p, pv, ps.len() as nat));
    }
    join_strings(&texts, ", ")
}

/// The length and the texts of the parameters.
proof fn lemma_param_langs(p: SpecProblem, ps: Seq<SpecParameter>, n: nat)
    requires
        n <= ps.len(),
    ensures
        param_langs(p, ps, n).len() == n,
        forall|k: int| 0 <= k < n ==> #[trigger] param_langs(p, ps, n)[k] == param_lang(p, ps[k]),
    decreases n,
{
    if n > 0 {
        lemma_param_langs(p, ps, (n - 1) as nat);
    }
}

/// The length and the texts of the expressions.
proof fn lemma_expr_langs(p: SpecProblem, s: Seq<SpecExpr>, n: nat)
    requires
        n <= s.len(),
    ensures
        expr_langs(p, s, n).len() == n,
        forall|k: int| 0 <= k < n ==> #[trigger] expr_langs(p, s, n)[k] == spec_expr_lang(p, s[k]),
    decreases n,
{
    if n > 0 {
        lemma_expr_langs(p, s, (n - 1) as nat);
    }
}

/// The texts of the expressions, one each, joined by commas.
fn exprs_text(problem: &Problem, v: &Vec<Expr>) -> (r: String)
    requires
        problem@.wf(),
        exprs_valid(problem@, exprs_view(v@)),
    ensures
        r@ == join(expr_langs(problem@, exprs_view(v@), v.len() as nat), ", "@),
    decreases v,
{
    let ghost p = problem@;
    let ghost s = exprs_view(v@);
    proof {
        lemma_exprs_view(v@);
        lemma_exprs_valid(p, s);
    }
    let mut texts: Vec<String> = Vec::new();
    let mut i: usize = 0;
    while i < v.len()
        invariant
            p == problem@,
            p.wf(),
            s == exprs_view(v@),
            s.len() == v.len(),
            forall|k: int| 0 <= k < v.len() ==> #[trigger] s[k] == v@[k]@,
            forall|k: int| 0 <= k < v.len() ==> #[trigger] expr_valid(p, s[k]),
            i <= v.len(),
            texts.len() == i,
            forall|k: int| 0 <= k < i ==> #[trigger] texts@[k]@ == spec_expr_lang(p, s[k]),
        decreases v.len() - i,
    {
        proof {
            assert(decreases_to!(*v => v@[i as int]));
            assert(s[i as int] == v@[i as int]@);
            assert(expr_valid(p, s[i as int]));
        }
        texts.push(v[i].to_lang(problem));
        i += 1;
    }
    proof {
        lemma_expr_langs(p, s, v.len() as nat);
        assert(texts@.map_values(|x: String| x@) =~= expr_langs(p, s, v.len() as nat));
    }
    join_strings(&texts, ", ")
}

/// How the branches after the first one of a conditional are written.
fn branches_text(problem: &Problem, l: &Vec<(Expr, Expr)>) -> (r: String)
    requires
        problem@.wf(),
        pairs_valid(problem@, pairs_view(l@)),
    ensures
        r@ == branches_lang(problem@, pairs_view(l@), l.len() as nat),
    decreases l,
{
    let ghost p = problem@;
    let ghost s = pairs_view(l@);
    proof {
        lemma_pairs_view(l@);
        lemma_pairs_valid(p, s);
    }
    let mut r = String::new();
    let mut i: usize = 0;
    while i < l.len()
        invariant
            p == problem@,
            p.wf(),
            s == pairs_view(l@),
            s.len() == l.len(),
            forall|k: int| 0 <= k < l.len() ==> #[trigger] s[k] == (l@[k].0@, l@[k].1@),
            forall|k: int| 0 <= k < l.len() ==> expr_valid(p, (#[trigger] s[k]).0) && expr_valid(p, s[k].1),
            i <= l.len(),
            r@ == branches_lang(p, s, i as nat),
        decreases l.len() - i,
    {
        proof {
            assert(decreases_to!(*l => l@[i as int]));
            assert(decreases_to!(l@[i as int] => l@[i as int].0));
            assert(decreases_to!(l@[i as int] => l@[i as int].1));
            assert(s[i as int] == (l@[i as int].0@, l@[i as int].1@));
            assert(expr_valid(p, s[i as int].0));
        }
        r.append(" elif ");
        let x = l[i].0.to_lang(problem);
        r.append(x.as_str());
        r.append(" then ");
        let y = l[i].1.to_lang(problem);
        r.append(y.as_str());
        i += 1;
    }
    r
}

/// `a`, then `b`.
pub fn cat(a: String, b: &str) -> (r: String)
    ensures
        r@ == a@ + b@,
{
    let mut a = a;
    a.append(b);
    a
}

impl Expr {
    /// How the expression is written in the language.
    pub fn to_lang(&self, problem: &Problem) -> (r: String)
        requires
            problem@.wf(),
            expr_valid(problem@, self@),
        ensures
            r@ == spec_expr_lang(problem@, self@),
        decreases self,
    {
        let ghost p = problem@;
        match self {
            Expr::BoolValue(v, _) => if *v {
                String::from_str("true")
            } else {
                String::from_str("false")
            },
            Expr::IntValue(v, _) => isize_text(*v),
            Expr::RealValue(v, _) => v.to_text(),
            Expr::Unary(op, e, _) => {
                let s = cat(String::from_str("("), unary_op_text(*op));
                let s = cat(s, " ");
                let s = cat(s, e.to_lang(problem).as_str());
                cat(s, ")")
            },
            Expr::Binary(l, op, r, _) => {
                let s = cat(String::from_str("("), l.to_lang(problem).as_str());
                let s = cat(s, " ");
                let s = cat(s, bin_op_text(*op));
                let s = cat(s, " ");
                let s = cat(s, r.to_lang(problem).as_str());
                cat(s, ")")
            },
            Expr::FunctionCall(id, a, _) => {
                proof {
                    lemma_exprs_view(a@);
                }
                let f = problem.get_function(*id).unwrap();
                let s = cat(f.name.clone(), "(");
                let s = cat(s, exprs_text(problem, a).as_str());
                cat(s, ")")
            },
            Expr::Instance(id, _) => problem.get_instance(*id).unwrap().name.clone(),
            Expr::Variable(id, _) => problem.get_variable(*id).unwrap().name.clone(),
            Expr::Parameter(q) => q.name.clone(),
            Expr::StrucSelf(_, _) => String::from_str("self"),
            Expr::StrucAttribute(e, id, _) => {
                let s = cat(String::from_str("("), e.to_lang(problem).as_str());
                let s = cat(s, ".");
                let s = cat(s, problem.get_struct_attribute(*id).name.as_str());
                cat(s, ")")
            },
            Expr::StrucMetCall(e, id, a, _) => {
                proof {
                    lemma_exprs_view(a@);
                }
                let s = cat(e.to_lang(problem), ".");
                let s = cat(s, problem.get_struct_method(*id).name.as_str());
                let s = cat(s, "(");
                let s = cat(s, exprs_text(problem, a).as_str());
                cat(s, ")")
            },
            Expr::ClassSelf(_, _) => String::from_str("self"),
            Expr::ClassAttribute(e, id, _) => {
                let s = cat(String::from_str("("), e.to_lang(problem).as_str());
                let s = cat(s, ".");
                let s = cat(s, problem.get_class_attribute(*id).name.as_str());
                cat(s, ")")
            },
            Expr::ClassMetCall(e, id, a, _) => {
                proof {
                    lemma_exprs_view(a@);
                }
                let s = cat(e.to_lang(problem), ".");
                let s = cat(s, problem.get_class_method(*id).name.as_str());
                let s = cat(s, "(");
                let s = cat(s, exprs_text(problem, a).as_str());
                cat(s, ")")
            },
            Expr::AsClass(e, id) => {
                let s = cat(String::from_str("("), e.to_lang(problem).as_str());
                let s = cat(s, " as ");
                let s = cat(s, problem.get_class(*id).unwrap().name.as_str());
                cat(s, ")")
            },
            Expr::AsInterval(e, min, max, _) => {
                let s = cat(String::from_str("("), e.to_lang(problem).as_str());
                let s = cat(s, " as ");
                let s = cat(s, isize_text(*min).as_str());
                let s = cat(s, "..");
                let s = cat(s, isize_text(*max).as_str());
                cat(s, ")")
            },
            Expr::AsInt(e, _) => {
                let s = cat(String::from_str("("), e.to_lang(problem).as_str());
                cat(s, " as Int)")
            },
            Expr::AsReal(e, _) => {
                let s = cat(String::from_str("("), e.to_lang(problem).as_str());
                cat(s, " as Real)")
            },
            Expr::IfThenElse(c, t, l, e, _) => {
                proof {
                    lemma_pairs_view(l@);
                }
                let s = cat(String::from_str("if "), c.to_lang(problem).as_str());
                let s = cat(s, " then ");
                let s = cat(s, t.to_lang(problem).as_str());
                let s = cat(s, branches_text(problem, l).as_str());
                let s = cat(s, " else ");
                let s = cat(s, e.to_lang(problem).as_str());
                cat(s, " end")
            },
            Expr::Quantifier(op, ps, e, _) => {
                let s = cat(String::from_str(qt_op_text(*op)), " ");
                let s = cat(s, params_text(problem, ps).as_str());
                let s = cat(s, " | ");
                let s = cat(s, e.to_lang(problem).as_str());
                cat(s, " end")
            },
            Expr::Unresolved(name, _) => cat(name.clone(), "?"),
            Expr::UnresolvedFunCall(name, a, _) => {
                proof {
                    lemma_exprs_view(a@);
                }
                let s = cat(name.clone(), "?(");
                let s = cat(s, exprs_text(problem, a).as_str());
                cat(s, ")")
            },
            Expr::UnresolvedAttribute(e, name, _) => {
                let s = cat(String::from_str("("), e.to_lang(problem).as_str());
                let s = cat(s, ".");
                let s = cat(s, name.as_str());
                cat(s, ")?")
            },
            Expr::UnresolvedMethCall(e, name, a, _) => {
                proof {
                    lemma_exprs_view(a@);
                }
                let s = cat(e.to_lang(problem), ".");
                let s = cat(s, name.as_str());
                let s = cat(s, "(");
                let s = cat(s, exprs_text(problem, a).as_str());
                cat(s, ")")
            },
        }
    }
}

//---------- Laws ----------

/// Distinct binary operators are written with distinct tokens, so that the
/// text of an expression tells its operator; a non-strict comparison is
/// written as the strict one followed by `=`; the tokens are those of the
/// language: `>`, `>=`, `=`, `!=`, `=>`, `and`, `or`.
pub proof fn law_operator_tokens_distinct(a: BinOp, b: BinOp)
    ensures
        bin_op_lang(a) == bin_op_lang(b) ==> a == b,
        bin_op_lang(BinOp::Le) == bin_op_lang(BinOp::Lt) + "="@,
        bin_op_lang(BinOp::Ge) == bin_op_lang(BinOp::Gt) + "="@,
        bin_op_lang(BinOp::Lt) != bin_op_lang(BinOp::Gt),
        bin_op_lang(BinOp::Gt) == ">"@,
        bin_op_lang(BinOp::Ge) == ">="@,
        bin_op_lang(BinOp::Eq) == "="@,
        bin_op_lang(BinOp::Ne) == "!="@,
        bin_op_lang(BinOp::Implies) == "=>"@,
        bin_op_lang(BinOp::And) == "and"@,
        bin_op_lang(BinOp::Or) == "or"@,
{
    reveal_strlit("=");
    reveal_strlit("!=");
    reveal_strlit("<");
    reveal_strlit("<=");
    reveal_strlit(">=");
    reveal_strlit(">");
    reveal_strlit("and");
    reveal_strlit("or");
    reveal_strlit("=>");
    reveal_strlit("+");
    reveal_strlit("-");
    reveal_strlit("*");
    reveal_strlit("/");
    if bin_op_lang(a) == bin_op_lang(b) {
        assert(bin_op_lang(a).len() == bin_op_lang(b).len());
        assert(bin_op_lang(a)[0] == bin_op_lang(b)[0]);
    }
    assert(bin_op_lang(BinOp::Le) =~= bin_op_lang(BinOp::Lt) + "="@);
    assert(bin_op_lang(BinOp::Ge) =~= bin_op_lang(BinOp::Gt) + "="@);
    assert(bin_op_lang(BinOp::Lt)[0] != bin_op_lang(BinOp::Gt)[0]);
}

/// Distinct unary operators, and distinct quantifiers, are written with
/// distinct tokens.
pub proof fn law_unary_and_quantifier_tokens_distinct(a: UnaryOp, b: UnaryOp, c: QtOp, d: QtOp)
    ensures
        unary_op_lang(a) == unary_op_lang(b) ==> a == b,
        qt_op_lang(c) == qt_op_lang(d) ==> c == d,
{
    reveal_strlit("not");
    reveal_strlit("-");
    reveal_strlit("forall");
    reveal_strlit("exists");
    reveal_strlit("sum");
    reveal_strlit("prod");
    if unary_op_lang(a) == unary_op_lang(b) {
        assert(unary_op_lang(a).len() == unary_op_lang(b).len());
    }
    if qt_op_lang(c) == qt_op_lang(d) {
        assert(qt_op_lang(c).len() == qt_op_lang(d).len());
        assert(qt_op_lang(c)[0] == qt_op_lang(d)[0]);
        assert(qt_op_lang(c)[1] == qt_op_lang(d)[1]);
    }
}

} // verus!
