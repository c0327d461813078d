use smt_lang::problem::constraint::Constraint;
use smt_lang::problem::expression::expr::{BinOp, Expr};
use smt_lang::problem::problem::Problem;
use smt_lang::problem::rational::Rational;
use smt_lang::problem::typing::Type;
use smt_lang::problem::variable::Variable;
use smt_lang::solve::solve::init;
use smt_lang::problem::class::Class;
use smt_lang::problem::expression::expr::QtOp;
use smt_lang::problem::function::Function;
use smt_lang::problem::instance::Instance;
use smt_lang::problem::parameter::Parameter;
use smt_lang::problem::search::{Bound, Search};
use smt_lang::report::Report;
use smt_lang::solve::combine::combinations;
use smt_lang::solve::smt::{to_bool, to_int};
use smt_lang::solve::term::{Sort, Symbol, Term};

fn name(s: &str) -> Expr {
    Expr::Unresolved(s.to_string(), None)
}

fn bin(l: Expr, op: BinOp, r: Expr) -> Expr {
    Expr::Binary(Box::new(l), op, Box::new(r), None)
}

/// The problem of the README: a boolean, an interval and a real, two
/// constraints.
fn readme_problem() -> Problem {
    let mut p = Problem::new();
    p.add_variable(Variable::new("b".to_string(), Type::Bool, None, None));
    p.add_variable(Variable::new("i".to_string(), Type::Interval(1, 100), None, None));
    p.add_variable(Variable::new("r".to_string(), Type::Real, None, None));
    p.add_constraint(Constraint::new(
        "C1".to_string(),
        bin(name("i"), BinOp::Ge, Expr::IntValue(10, None)),
        None,
    ));
    let twenty = Rational::new(false, 20, 1).unwrap();
    p.add_constraint(Constraint::new(
        "C2".to_string(),
        bin(bin(name("r"), BinOp::Le, Expr::RealValue(twenty, None)), BinOp::And, name("b")),
        None,
    ));
    p
}

fn load(p: &mut Problem) {
    let mut reports: Vec<Report> = Vec::new();
    assert!(matches!(smt_lang::load::load(p, 0, &mut reports), Some(Ok(()))));
}

fn param(n: &str, t: Type) -> Parameter {
    Parameter::new(n.to_string(), t, None)
}

fn quantifier(op: QtOp, ps: Vec<Parameter>, body: Expr) -> Expr {
    Expr::Quantifier(op, ps, Box::new(body), None)
}

#[test]
fn readme_problem_loads_and_is_encoded() {
    let mut p = readme_problem();
    load(&mut p);
    let script = init(&p, false).unwrap();
    assert!(!script.optimize);
    assert!(script.objective.is_none());
    // two bounds of the interval variable, then each constraint twice
    assert_eq!(script.assertions.len(), 6);
    match &script.assertions[0] {
        Term::Ge(v, b) => {
            assert!(matches!(**v, Term::Variable(id, Sort::Int) if id.0 == 1));
            assert!(matches!(**b, Term::IntValue(1)));
        }
        _ => panic!("lower bound expected"),
    }
    match &script.assertions[1] {
        Term::Le(v, b) => {
            assert!(matches!(**v, Term::Variable(id, Sort::Int) if id.0 == 1));
            assert!(matches!(**b, Term::IntValue(100)));
        }
        _ => panic!("upper bound expected"),
    }
    match &script.assertions[2] {
        Term::Eq(c, e) => {
            assert!(matches!(**c, Term::Constraint(id) if id.0 == 0));
            match &**e {
                Term::Ge(v, k) => {
                    assert!(matches!(**v, Term::Variable(id, Sort::Int) if id.0 == 1));
                    assert!(matches!(**k, Term::IntValue(10)));
                }
                _ => panic!("comparison expected"),
            }
        }
        _ => panic!("constraint definition expected"),
    }
    assert!(matches!(script.assertions[3], Term::Constraint(id) if id.0 == 0));
    match &script.assertions[4] {
        Term::Eq(_, e) => match &**e {
            Term::And(v) => {
                assert_eq!(v.len(), 2);
                assert!(matches!(v[1], Term::Variable(id, Sort::Bool) if id.0 == 0));
            }
            _ => panic!("conjunction expected"),
        },
        _ => panic!("constraint definition expected"),
    }
}

#[test]
fn forall_has_one_conjunct_per_value() {
    let mut p = Problem::new();
    let x = param("x", Type::Interval(1, 3));
    let e = quantifier(QtOp::Forall, vec![x], bin(name("x"), BinOp::Gt, Expr::IntValue(0, None)));
    p.add_constraint(Constraint::new("C".to_string(), e, None));
    load(&mut p);
    let script = init(&p, false).unwrap();
    assert_eq!(script.assertions.len(), 2);
    match &script.assertions[0] {
        Term::Eq(_, e) => match &**e {
            Term::And(v) => {
                assert_eq!(v.len(), 3);
                for (k, t) in v.iter().enumerate() {
                    match t {
                        Term::Gt(a, b) => {
                            assert!(matches!(**a, Term::IntValue(i) if i == k as isize + 1));
                            assert!(matches!(**b, Term::IntValue(0)));
                        }
                        _ => panic!("comparison expected"),
                    }
                }
            }
            _ => panic!("conjunction expected"),
        },
        _ => panic!("constraint definition expected"),
    }
}

#[test]
fn exists_over_two_parameters_has_one_disjunct_per_combination() {
    let mut p = Problem::new();
    let x = param("x", Type::Bool);
    let y = param("y", Type::Interval(1, 2));
    let body = bin(name("x"), BinOp::Or, bin(name("y"), BinOp::Eq, Expr::IntValue(2, None)));
    p.add_constraint(Constraint::new(
        "C".to_string(),
        quantifier(QtOp::Exists, vec![x, y], body),
        None,
    ));
    load(&mut p);
    let script = init(&p, false).unwrap();
    match &script.assertions[0] {
        Term::Eq(_, e) => match &**e {
            Term::Or(v) => {
                assert_eq!(v.len(), 4);
                // the first parameter varies slowest
                match &v[1] {
                    Term::Or(w) => {
                        assert!(matches!(w[0], Term::BoolValue(false)));
                        match &w[1] {
                            Term::Eq(a, _) => assert!(matches!(**a, Term::IntValue(2))),
                            _ => panic!("equality expected"),
                        }
                    }
                    _ => panic!("disjunction expected"),
                }
                match &v[2] {
                    Term::Or(w) => assert!(matches!(w[0], Term::BoolValue(true))),
                    _ => panic!("disjunction expected"),
                }
            }
            _ => panic!("disjunction expected"),
        },
        _ => panic!("constraint definition expected"),
    }
}

#[test]
fn sum_over_an_interval_adds_every_value_of_it() {
    let mut p = Problem::new();
    let x = param("x", Type::Interval(1, 10));
    p.add_variable(Variable::new(
        "i".to_string(),
        Type::Int,
        Some(quantifier(QtOp::Sum, vec![x], name("x"))),
        None,
    ));
    load(&mut p);
    let script = init(&p, false).unwrap();
    assert_eq!(script.assertions.len(), 1);
    match &script.assertions[0] {
        Term::Eq(v, s) => {
            assert!(matches!(**v, Term::Variable(id, Sort::Int) if id.0 == 0));
            match &**s {
                Term::Add(w) => {
                    assert_eq!(w.len(), 10);
                    let total: isize = w
                        .iter()
                        .map(|t| match t {
                            Term::IntValue(k) => *k,
                            _ => panic!("value expected"),
                        })
                        .sum();
                    assert_eq!(total, 55);
                }
                _ => panic!("sum expected"),
            }
        }
        _ => panic!("definition expected"),
    }
}

#[test]
fn an_instance_of_a_sub_class_is_carried_up_to_the_super_class() {
    let mut p = Problem::new();
    p.add_class(Class::new("A".to_string(), None, None));
    p.add_class(Class::new(
        "B".to_string(),
        Some(Type::Unresolved("A".to_string(), None)),
        None,
    ));
    p.add_instance(Instance::new("b".to_string(), Type::Unresolved("B".to_string(), None), None));
    p.add_variable(Variable::new(
        "x".to_string(),
        Type::Unresolved("A".to_string(), None),
        None,
        None,
    ));
    p.add_constraint(Constraint::new("C".to_string(), bin(name("x"), BinOp::Eq, name("b")), None));
    load(&mut p);
    let script = init(&p, false).unwrap();
    match &script.assertions[0] {
        Term::Eq(_, e) => match &**e {
            Term::Eq(l, r) => {
                assert!(matches!(**l, Term::Variable(id, Sort::Datatype) if id.0 == 0));
                match &**r {
                    Term::Object(inner, from, to) => {
                        assert_eq!((from.0, to.0), (1, 0));
                        assert!(matches!(**inner, Term::ClassInstance(id) if id.0 == 0));
                    }
                    _ => panic!("object expected"),
                }
            }
            _ => panic!("equality expected"),
        },
        _ => panic!("constraint definition expected"),
    }
}

#[test]
fn a_function_definition_is_asserted_for_each_argument() {
    let mut p = Problem::new();
    let mut f = Function::new(
        "f".to_string(),
        Type::Bool,
        Some(name("x")),
        None,
    );
    f.add_parameter(param("x", Type::Bool));
    p.add_function(f);
    load(&mut p);
    let script = init(&p, false).unwrap();
    assert_eq!(script.assertions.len(), 2);
    for (k, t) in script.assertions.iter().enumerate() {
        match t {
            Term::Eq(call, value) => {
                match &**call {
                    Term::Apply(Symbol::Function(id), args, Sort::Bool) => {
                        assert_eq!(id.0, 0);
                        assert!(matches!(args[0], Term::BoolValue(b) if b == (k == 1)));
                    }
                    _ => panic!("call expected"),
                }
                assert!(matches!(**value, Term::BoolValue(b) if b == (k == 1)));
            }
            _ => panic!("definition expected"),
        }
    }
}

#[test]
fn an_objective_is_bounded_and_optimized() {
    let mut p = Problem::new();
    p.add_variable(Variable::new("i".to_string(), Type::Interval(1, 10), None, None));
    p.set_search(Search::Optimize(Box::new(name("i")), Bound::Int(5), true));
    load(&mut p);
    let script = init(&p, false).unwrap();
    assert!(script.optimize);
    let o = script.objective.unwrap();
    assert!(o.minimize);
    match &o.bound {
        Term::Ge(a, b) => {
            assert!(matches!(**a, Term::Variable(id, Sort::Int) if id.0 == 0));
            assert!(matches!(**b, Term::IntValue(5)));
        }
        _ => panic!("lower bound expected"),
    }
    assert!(matches!(o.goal, Term::Variable(id, Sort::Int) if id.0 == 0));
}

#[test]
fn a_plain_search_asks_the_optimizer_only_when_told() {
    let mut p = readme_problem();
    load(&mut p);
    assert!(init(&p, true).unwrap().optimize);
    assert!(!init(&p, false).unwrap().optimize);
}

#[test]
fn combinations_vary_the_first_parameter_slowest() {
    let mut p = Problem::new();
    p.add_variable(Variable::new("b".to_string(), Type::Bool, None, None));
    load(&mut p);
    let ps = vec![param("x", Type::Bool), param("y", Type::Interval(1, 2))];
    let c = combinations(&p, &ps, 0);
    assert_eq!(c.len(), 4);
    let flat: Vec<(bool, isize)> = c
        .iter()
        .map(|v| match (&v[0], &v[1]) {
            (Expr::BoolValue(b, _), Expr::IntValue(i, _)) => (*b, *i),
            _ => panic!("values expected"),
        })
        .collect();
    assert_eq!(flat, vec![(false, 1), (false, 2), (true, 1), (true, 2)]);
}

#[test]
fn a_real_has_no_boolean_term() {
    let mut p = Problem::new();
    p.add_variable(Variable::new("r".to_string(), Type::Real, None, None));
    load(&mut p);
    let e = Expr::Variable(smt_lang::problem::ids::VariableId(0), None);
    assert!(to_bool(&p, &e).is_none());
    assert!(smt_lang::solve::smt::to_real(&p, &e).is_some());
}

#[test]
fn a_conditional_is_encoded_as_nested_choices() {
    let b = |v: bool| Expr::BoolValue(v, None);
    let e = Expr::IfThenElse(
        Box::new(b(false)),
        Box::new(b(true)),
        vec![(b(true), b(false))],
        Box::new(b(true)),
        None,
    );
    let p = Problem::new();
    match to_bool(&p, &e) {
        Some(Term::Ite(c, t, rest)) => {
            assert!(matches!(*c, Term::BoolValue(false)));
            assert!(matches!(*t, Term::BoolValue(true)));
            match *rest {
                Term::Ite(x, y, z) => {
                    assert!(matches!(*x, Term::BoolValue(true)));
                    assert!(matches!(*y, Term::BoolValue(false)));
                    assert!(matches!(*z, Term::BoolValue(true)));
                }
                _ => panic!("the elif is a choice"),
            }
        }
        _ => panic!("a choice was expected"),
    }
}

#[test]
fn an_interval_cast_clamps_its_value() {
    let e = Expr::AsInterval(Box::new(Expr::IntValue(12, None)), 1, 10, None);
    let p = Problem::new();
    match to_int(&p, &e) {
        Some(Term::Ite(c, lo, rest)) => {
            assert!(matches!(*c, Term::Lt(_, _)));
            assert!(matches!(*lo, Term::IntValue(1)));
            match *rest {
                Term::Ite(c2, hi, v) => {
                    assert!(matches!(*c2, Term::Gt(_, _)));
                    assert!(matches!(*hi, Term::IntValue(10)));
                    assert!(matches!(*v, Term::IntValue(12)));
                }
                _ => panic!("the upper bound is a choice"),
            }
        }
        _ => panic!("a choice was expected"),
    }
}
