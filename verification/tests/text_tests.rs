use smt_lang::parser::failure::ParseFailure;
use smt_lang::problem::class::Class;
use smt_lang::solution::value::object_name;
use smt_lang::error::Error;
use smt_lang::parser::position::Position;
use smt_lang::problem::expression::expr::{BinOp, Expr};
use smt_lang::problem::ids::{FunctionId, InstanceId};
use smt_lang::problem::instance::Instance;
use smt_lang::problem::parameter::Parameter;
use smt_lang::problem::problem::Problem;
use smt_lang::problem::rational::Rational;
use smt_lang::problem::function::Function;
use smt_lang::problem::typing::Type;
use smt_lang::problem::variable::Variable;
use smt_lang::problem::structure::Structure;
use smt_lang::report::Report;
use smt_lang::solution::solution::{CallValue, FunctionValue, Solution};
use smt_lang::solution::value::Value;
use smt_lang::solve::response::Response;
use smt_lang::text::{isize_text, str_eq, usize_text};

#[test]
fn a_position_is_found_from_an_offset() {
    let p = Position::new("f.sl".to_string(), "ab\ncd", 4);
    assert_eq!(p.line, 2);
    assert_eq!(p.column, 2);
    assert_eq!(p.to_text(), "f.sl 2:2");
    let q = Position::new("f.sl".to_string(), "abc", 0);
    assert_eq!(q.to_text(), "f.sl 1:1");
}

#[test]
fn file_errors_are_told() {
    let p = Problem::new();
    let e = Error::File { filename: "a.sl".to_string(), message: "not found".to_string() };
    assert_eq!(e.to_lang(&p), "cannot read file a.sl not found");
}

#[test]
fn parse_errors_are_told_with_the_expected_tokens() {
    let p = Problem::new();
    let e = Error::Parse {
        message: "unexpected".to_string(),
        token: None,
        position: None,
        expected: vec!["a".to_string(), "b".to_string()],
    };
    assert_eq!(e.to_lang(&p), "parse error 'unexpected', expecting: a or b");
    let e = Error::Parse {
        message: "unexpected".to_string(),
        token: None,
        position: Some(Position::new("f".to_string(), "xy", 1)),
        expected: vec!["a".to_string(), "b".to_string()],
    };
    assert_eq!(
        e.to_lang(&p),
        "parse error 'unexpected' at f 1:2, expecting: [\"a\", \"b\"]"
    );
}

#[test]
fn duplicates_are_told_with_their_positions() {
    let p = Problem::new();
    let e = Error::Duplicate {
        name: "x".to_string(),
        first: Some(Position::new("f".to_string(), "x\nx", 0)),
        second: Some(Position::new("f".to_string(), "x\nx", 2)),
    };
    assert_eq!(e.to_lang(&p), "duplicate 'x' at f 1:1 and f 2:1");
}

#[test]
fn other_errors_are_told() {
    let p = Problem::new();
    let e = Error::Bounded { name: "x".to_string(), position: None };
    assert_eq!(e.to_lang(&p), "unbounded x");
    let e = Error::Empty { name: "S".to_string(), category: "Structure".to_string() };
    assert_eq!(e.to_lang(&p), "empty Structure S");
    let e = Error::Cycle { name: "A".to_string(), position: None };
    assert_eq!(e.to_lang(&p), "cyclic class A");
    let e = Error::Interval { name: "3..1".to_string(), position: None };
    assert_eq!(e.to_lang(&p), "malformed interval 3..1");
}

#[test]
fn numbers_are_written_in_decimal() {
    assert_eq!(isize_text(-42), "-42");
    assert_eq!(usize_text(7), "7");
    assert!(str_eq("ab", "ab"));
    assert!(!str_eq("ab", "abc"));
}

#[test]
fn rationals_compare_by_value_and_are_written_as_fractions() {
    let a = Rational::new(false, 1, 2).unwrap();
    let b = Rational::new(false, 2, 4).unwrap();
    let c = Rational::new(true, 1, 2).unwrap();
    assert!(a.same(&b));
    assert!(!a.same(&c));
    assert_eq!(a.to_text(), "1/2");
    assert_eq!(Rational::new(false, 20, 1).unwrap().to_text(), "20");
    assert!(Rational::new(false, 1, 0).is_none());
}

#[test]
fn values_are_written() {
    let mut p = Problem::new();
    p.add_structure(Structure::new("S".to_string(), None));
    p.add_instance(Instance::new("s1".to_string(), Type::Unresolved("S".to_string(), None), None));
    assert_eq!(Value::Bool(true).to_lang(&p), "true");
    assert_eq!(Value::Integer(-3).to_lang(&p), "-3");
    assert_eq!(Value::Instance(InstanceId(0)).to_lang(&p), "s1");
    assert_eq!(Value::Real(Rational::new(true, 3, 2).unwrap()).to_lang(&p), "-3/2");
}

#[test]
fn responses_are_written() {
    let p = Problem::new();
    assert_eq!(Response::NoSolution.to_lang(&p), "no solution");
    assert_eq!(Response::Unknown.to_lang(&p), "unknown");
    let r: Report = Response::NoSolution.to_entry(&p);
    assert_eq!(r.result.unwrap().text, "UNSAT");
}

#[test]
fn a_solution_is_written_variable_by_variable() {
    let mut p = Problem::new();
    p.add_variable(Variable::new("b".to_string(), Type::Bool, None, None));
    p.add_variable(Variable::new("i".to_string(), Type::Interval(1, 100), None, None));
    let mut f = Function::new("f".to_string(), Type::Bool, None, None);
    f.add_parameter(Parameter::new("x".to_string(), Type::Bool, None));
    p.add_function(f);
    let mut reports: Vec<Report> = Vec::new();
    assert!(matches!(smt_lang::load::load(&mut p, 0, &mut reports), Some(Ok(()))));
    let calls = vec![
        CallValue { parameters: vec![Value::Bool(false)], value: Value::Bool(true) },
        CallValue { parameters: vec![Value::Bool(true)], value: Value::Bool(false) },
    ];
    let s = Solution {
        structures: vec![],
        classes: vec![],
        variables: vec![Value::Bool(true), Value::Integer(10)],
        functions: vec![FunctionValue { calls }],
        objective: None,
    };
    assert_eq!(
        s.to_lang(&p),
        "let b: Bool = true\nlet i: 1..100 = 10\nlet f(x: Bool): Bool = {\n    (false) -> true\n    (true) -> false\n}\n"
    );
    let r = Response::Solution(s);
    assert!(r.to_lang(&p).starts_with("one solution:\nlet b: Bool = true\n"));
    let _ = FunctionId(0);
}

#[test]
fn an_expression_is_the_same_as_its_copy() {
    let e = Expr::Binary(
        Box::new(Expr::IntValue(1, None)),
        smt_lang::problem::expression::expr::BinOp::Add,
        Box::new(Expr::IntValue(2, None)),
        None,
    );
    assert!(e.is_same(&e.copy()));
    let u = Expr::Unresolved("x".to_string(), None);
    assert!(!u.is_same(&u.copy()));
}

#[test]
fn the_values_of_an_interval_include_both_bounds() {
    let p = Problem::new();
    let v = Type::Interval(1, 3).all(&p);
    let ints: Vec<isize> = v
        .iter()
        .map(|e| match e {
            Expr::IntValue(i, _) => *i,
            _ => panic!("integer expected"),
        })
        .collect();
    assert_eq!(ints, vec![1, 2, 3]);
    assert!(Type::Interval(3, 1).all(&p).is_empty());
    assert!(Type::Interval(1, 3).is_subtype_of(&p, &Type::Interval(1, 3)));
}

#[test]
fn parse_failures_become_parse_errors_at_their_positions() {
    let e = Error::new_parse("f.sl", "let x\nlet", ParseFailure::InvalidToken { location: 7 });
    match &e {
        Error::Parse { message, token, position, expected } => {
            assert_eq!(message, "Invalid Token");
            assert!(token.is_none());
            let p = position.as_ref().unwrap();
            assert_eq!((p.line, p.column), (2, 2));
            assert!(expected.is_empty());
        }
        _ => panic!("parse error expected"),
    }
    let e = Error::new_parse(
        "f.sl",
        "let",
        ParseFailure::UnrecognizedToken {
            start: 0,
            token: "let".to_string(),
            expected: vec!["\"constraint\"".to_string()],
        },
    );
    assert!(matches!(e, Error::Parse { ref message, .. } if message == "Unreconized Token"));
    let e = Error::new_parse("f.sl", "", ParseFailure::User { error: "bad".to_string() });
    assert!(matches!(e, Error::Parse { position: None, ref token, .. } if token.as_deref() == Some("bad")));
}

#[test]
fn classes_come_after_the_classes_they_extend() {
    let mut p = Problem::new();
    p.add_class(Class::new("B".to_string(), Some(Type::Unresolved("A".to_string(), None)), None));
    p.add_class(Class::new("D".to_string(), None, None));
    p.add_class(Class::new("A".to_string(), None, None));
    p.add_class(Class::new("C".to_string(), Some(Type::Unresolved("D".to_string(), None)), None));
    assert!(p.resolve_type().is_ok());
    let order: Vec<usize> = p.classes_ordered().iter().map(|c| c.0).collect();
    assert_eq!(order, vec![1, 2, 3, 0]);
}

#[test]
fn the_name_of_an_object_is_its_last_word() {
    assert_eq!(object_name("(_A b1)"), "b1");
    assert_eq!(object_name("(_A_B_ (_B b2))"), "b2");
    assert_eq!(object_name("s1"), "s1");
}

#[test]
fn a_ratio_from_the_model_becomes_a_real() {
    match Value::from_ratio(-3, 4) {
        Some(Value::Real(x)) => assert_eq!(x.to_text(), "-3/4"),
        _ => panic!("a real was expected"),
    }
    assert!(Value::from_ratio(1, 0).is_none());
}

#[test]
fn an_instance_is_found_from_the_model_text() {
    let mut p = Problem::new();
    p.add_instance(Instance::new("a".to_string(), Type::Unresolved("A".to_string(), None), None));
    p.add_instance(Instance::new("b1".to_string(), Type::Unresolved("B".to_string(), None), None));
    assert!(matches!(Value::from_instance_text(&p, "b1", false), Some(Value::Instance(i)) if i.0 == 1));
    assert!(matches!(Value::from_instance_text(&p, "(_A b1)", true), Some(Value::Instance(i)) if i.0 == 1));
    assert!(Value::from_instance_text(&p, "c", false).is_none());
}

#[test]
fn sameness_is_symmetric_and_ignores_positions() {
    let pos = Position::new("f.sl".to_string(), "ab", 1);
    let a = Expr::Binary(Box::new(Expr::IntValue(1, Some(pos))), BinOp::Add, Box::new(Expr::IntValue(2, None)), None);
    let b = Expr::Binary(Box::new(Expr::IntValue(1, None)), BinOp::Add, Box::new(Expr::IntValue(2, None)), None);
    let c = Expr::Binary(Box::new(Expr::IntValue(2, None)), BinOp::Add, Box::new(Expr::IntValue(1, None)), None);
    assert!(a.is_same(&b) && b.is_same(&a));
    assert!(!a.is_same(&c) && !c.is_same(&a));
}

#[test]
fn denoting_the_same_number_is_an_equivalence() {
    let a = Rational::new(false, 1, 2).unwrap();
    let b = Rational::new(false, 2, 4).unwrap();
    let c = Rational::new(false, 3, 6).unwrap();
    assert!(a.same(&a));
    assert!(a.same(&b) && b.same(&a));
    assert!(b.same(&c) && a.same(&c));
    let z = Rational::new(true, 0, 5).unwrap();
    let w = Rational::new(false, 0, 1).unwrap();
    assert!(z.same(&w) && w.same(&z));
}

#[test]
fn a_fraction_is_written_reduced() {
    assert_eq!(Rational::new(false, 2, 4).unwrap().to_text(), "1/2");
    assert_eq!(Rational::new(false, 6, 3).unwrap().to_text(), "2");
    assert_eq!(Rational::new(true, 0, 5).unwrap().to_text(), "-0");
}
