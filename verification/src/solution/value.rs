//! Values of a solution: an instance, a boolean, an integer or a real.

use crate::problem::expression::every::NodeCheck;
use crate::problem::expression::every::every;
use crate::problem::expression::expr::Expr;
use crate::problem::expression::expr::SpecExpr;
use crate::problem::expression::expr::lemma_pairs_view;
use crate::problem::expression::expr::pairs_view;
use crate::problem::expression::typ::spec_typ;
use crate::problem::expression::type_inference::spec_type_inference;
use crate::problem::ids::Id;
use crate::problem::ids::InstanceId;
use crate::problem::instance::Instance;
use crate::problem::naming::first_named;
use crate::problem::problem::Problem;
use crate::problem::problem::SpecProblem;
use crate::problem::problem::instance_names;
use crate::problem::rational::Rational;
use crate::problem::rational::fraction_display;
use crate::problem::valid::expr_valid;
use crate::solve::encoding::sort_of;
use crate::solve::encoding::spec_term;
use crate::solve::smt::sort_of_type;
use crate::solve::smt::to_term;
use crate::solve::term::Sort;
use crate::solve::term::SpecTerm;
use crate::solve::term::Term;
use crate::text::int_text;
use crate::text::isize_text;
use vstd::string::*;
use vstd::prelude::*;

verus! {

/// A value taken in a solution.
#[derive(Clone, Copy)]
pub enum Value {
    Instance(InstanceId),
    Bool(bool),
    Integer(isize),
    Real(Rational),
}

/// `true` or `false`.
pub open spec fn bool_lang(b: bool) -> Seq<char> {
    if b {
        "true"@
    } else {
        "false"@
    }
}

/// How a value is written: the name of the instance, the boolean, the
/// integer in decimal, the real as a fraction.
pub open spec fn value_lang(p: SpecProblem, v: Value) -> Seq<char> {
    match v {
        Value::Instance(id) => p.instances[id.0 as int].name,
        Value::Bool(b) => bool_lang(b),
        Value::Integer(i) => int_text(i as int),
        Value::Real(r) => fraction_display(r.is_negative(), r.numer_of(), r.denom_of()),
    }
}

/// An instance value names an instance of the problem.
pub open spec fn value_ok(p: SpecProblem, v: Value) -> bool {
    match v {
        Value::Instance(id) => id.0 < p.instances.len(),
        _ => true,
    }
}

impl Value {
    /// How the value is written.
    pub fn to_lang(&self, problem: &Problem) -> (r: String)
        requires
            value_ok(problem@, *self),
        ensures
            r@ == value_lang(problem@, *self),
    {
        match self {
            Value::Instance(id) => {
                let inst = problem.get_instance(*id).unwrap();
                String::from_str(inst.name())
            },
            Value::Bool(b) => if *b {
                String::from_str("true")
            } else {
                String::from_str("false")
            },
            Value::Integer(i) => isize_text(*i),
            Value::Real(r) => r.to_text(),
        }
    }
}

/// What is asked of the solver's model for the value of an expression: the
/// sort of its type and its term after type inference.
pub open spec fn spec_query(p: SpecProblem, e: SpecExpr) -> Option<(Sort, SpecTerm)> {
    match sort_of(spec_typ(p, e)) {
        Some(s) => match spec_term(p, spec_type_inference(p, e), seq![], s) {
            Some(t) => Some((s, t)),
            None => None,
        },
        None => None,
    }
}

/// The sort and the term to evaluate in the solver's model for the value
/// of an expression; `None` where it has none.
pub fn query(problem: &Problem, e: &Expr) -> (r: Option<(Sort, Term)>)
    requires
        problem@.wf(),
        expr_valid(problem@, e@),
        every(NodeCheck::Resolved, e@),
    ensures
        match r {
            Some((s, t)) => spec_query(problem@, e@) == Some((s, t@)),
            None => spec_query(problem@, e@) is None,
        },
{
    let s = sort_of_type(&e.typ(problem))?;
    let x = e.type_inference(problem);
    let env: Vec<(Expr, Expr)> = Vec::new();
    proof {
        lemma_pairs_view(env@);
        assert(pairs_view(env@) =~= seq![]);
    }
    let t = to_term(problem, &x, &env, s)?;
    Some((s, t))
}

/// The characters after the last space.
pub open spec fn last_word(s: Seq<char>) -> Seq<char>
    decreases s.len(),
{
    if s.len() == 0 {
        s
    } else if s.last() == ' ' {
        seq![]
    } else {
        last_word(s.drop_last()).push(s.last())
    }
}

/// The characters but the closing brackets.
pub open spec fn without_brackets(s: Seq<char>) -> Seq<char>
    decreases s.len(),
{
    if s.len() == 0 {
        s
    } else if s.last() == ')' {
        without_brackets(s.drop_last())
    } else {
        without_brackets(s.drop_last()).push(s.last())
    }
}

/// The name of the instance in the solver's text of a class object such as
/// `(_A b1)`: its last word, closing brackets taken out.
pub fn object_name(text: &str) -> (r: String)
    ensures
        r@ == without_brackets(last_word(text@)),
{
    let n = text.unicode_len();
    let mut start: usize = 0;
    let mut i: usize = 0;
    while i < n
        invariant
            n == text@.len(),
            start <= i <= n,
            last_word(text@.take(i as int)) == text@.subrange(start as int, i as int),
        decreases n - i,
    {
        let c = text.get_char(i);
        proof {
            assert(text@.take(i + 1).drop_last() == text@.take(i as int));
            assert(text@.take(i + 1).last() == c);
        }
        if c == ' ' {
            start = i + 1;
            proof {
                assert(text@.subrange(start as int, i + 1) =~= Seq::<char>::empty());
            }
        } else {
            proof {
                assert(text@.subrange(start as int, i + 1) =~= text@.subrange(start as int, i as int).push(c));
            }
        }
        i += 1;
    }
    proof {
        assert(text@.take(n as int) =~= text@);
    }
    let word = text.substring_char(start, n);
    let m = word.unicode_len();
    let mut r = String::new();
    let mut seg: usize = 0;
    let mut j: usize = 0;
    while j < m
        invariant
            m == word@.len(),
            seg <= j <= m,
            r@ + word@.subrange(seg as int, j as int) == without_brackets(word@.take(j as int)),
        decreases m - j,
    {
        let c = word.get_char(j);
        proof {
            assert(word@.take(j + 1).drop_last() == word@.take(j as int));
            assert(word@.take(j + 1).last() == c);
        }
        if c == ')' {
            r.append(word.substring_char(seg, j));
            seg = j + 1;
            proof {
                assert(word@.subrange(seg as int, j + 1) =~= Seq::<char>::empty());
                assert(r@ + word@.subrange(seg as int, j + 1) =~= r@);
            }
        } else {
            proof {
                assert(word@.subrange(seg as int, j + 1) =~= word@.subrange(seg as int, j as int).push(c));
                assert(r@ + word@.subrange(seg as int, j + 1) =~= (r@ + word@.subrange(seg as int, j as int)).push(c));
            }
        }
        j += 1;
    }
    r.append(word.substring_char(seg, m));
    proof {
        assert(word@.take(m as int) =~= word@);
    }
    r
}

/// The magnitude of an `i64`.
pub open spec fn magnitude(x: i64) -> nat {
    if x < 0 {
        (-x) as nat
    } else {
        x as nat
    }
}

impl Value {
    /// The real that the model gives as a numerator and a denominator; none
    /// when the denominator is not positive.
    pub fn from_ratio(numer: i64, denom: i64) -> (r: Option<Value>)
        ensures
            r is Some <==> denom > 0,
            r matches Some(v) ==> v matches Value::Real(x) && x.is_negative() == (numer < 0)
                && x.numer_of() == magnitude(numer) && x.denom_of() == denom,
    {
        if denom <= 0 {
            return None;
        }
        let n: u64 = if numer < 0 {
            let m: i64 = -(numer + 1);
            (m as u64) + 1
        } else {
            numer as u64
        };
        match Rational::new(numer < 0, n, denom as u64) {
            Some(x) => Some(Value::Real(x)),
            None => None,
        }
    }

    /// The instance that the model names: the instance of that name, or for
    /// a class object (`(_A b1)`), of the name in its last word; none where
    /// no instance has that name.
    pub fn from_instance_text(problem: &Problem, text: &str, object: bool) -> (r: Option<Value>)
        ensures
            ({
                let name = if object { without_brackets(last_word(text@)) } else { text@ };
                match first_named(instance_names(problem@.instances), name, 0) {
                    Some(i) => r == Some(Value::Instance(problem@.instances[i].id)),
                    None => r is None,
                }
            }),
    {
        let found = if object {
            let name = object_name(text);
            problem.find_instance(name.as_str())
        } else {
            problem.find_instance(text)
        };
        match found {
            Some(i) => Some(Value::Instance(i.id())),
            None => None,
        }
    }
}

} // verus!
