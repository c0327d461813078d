use smt_lang::error::Error;
use smt_lang::load::load;
use smt_lang::problem::class::Class;
use smt_lang::problem::constraint::Constraint;
use smt_lang::problem::expression::expr::{BinOp, Expr, QtOp};
use smt_lang::problem::entry::{Entries, Entry, EntryType};
use smt_lang::problem::ids::{ClassId, VariableId};
use smt_lang::parser::position::Position;
use smt_lang::problem::function::Function;
use smt_lang::problem::instance::Instance;
use smt_lang::problem::parameter::Parameter;
use smt_lang::problem::problem::Problem;
use smt_lang::problem::structure::Structure;
use smt_lang::problem::typing::Type;
use smt_lang::problem::variable::Variable;
use smt_lang::report::Report;

fn name(s: &str) -> Expr {
    Expr::Unresolved(s.to_string(), None)
}

fn bin(l: Expr, op: BinOp, r: Expr) -> Expr {
    Expr::Binary(Box::new(l), op, Box::new(r), None)
}

fn var(p: &mut Problem, n: &str, t: Type) {
    p.add_variable(Variable::new(n.to_string(), t, None, None));
}

fn cons(p: &mut Problem, n: &str, e: Expr) {
    p.add_constraint(Constraint::new(n.to_string(), e, None));
}

fn run(p: &mut Problem) -> Option<Result<(), Error>> {
    let mut reports: Vec<Report> = Vec::new();
    load(p, 0, &mut reports)
}

fn error_text(p: &mut Problem) -> String {
    match run(p) {
        Some(Err(e)) => e.to_lang(p),
        _ => panic!("an error was expected"),
    }
}

#[test]
fn load_accepts_a_well_formed_problem() {
    let mut p = Problem::new();
    var(&mut p, "b", Type::Bool);
    var(&mut p, "i", Type::Interval(1, 100));
    cons(&mut p, "C1", bin(name("i"), BinOp::Ge, Expr::IntValue(10, None)));
    cons(&mut p, "C2", name("b"));
    assert!(matches!(run(&mut p), Some(Ok(()))));
    assert!(p.check_wf());
    assert!(p.check_exprs_resolved());
}

#[test]
fn load_reports_each_stage_when_verbose() {
    let mut p = Problem::new();
    var(&mut p, "b", Type::Bool);
    cons(&mut p, "C", name("b"));
    let mut reports: Vec<Report> = Vec::new();
    assert!(matches!(load(&mut p, 2, &mut reports), Some(Ok(()))));
    let titles: Vec<String> = reports.iter().map(|r| r.title.text.clone()).collect();
    assert_eq!(
        titles,
        vec![
            "Resolve T", "Unicity  ", "Interval ", "Bounded  ", "Empty    ", "Resolve E",
            "Parameter", "Type     "
        ]
    );
    let mut quiet: Vec<Report> = Vec::new();
    let mut q = Problem::new();
    var(&mut q, "b", Type::Bool);
    assert!(matches!(load(&mut q, 1, &mut quiet), Some(Ok(()))));
    assert!(quiet.is_empty());
}

#[test]
fn duplicate_names_are_refused() {
    let mut p = Problem::new();
    var(&mut p, "x", Type::Bool);
    var(&mut p, "x", Type::Int);
    assert!(matches!(run(&mut p), Some(Err(Error::Duplicate { .. }))));
    let mut p = Problem::new();
    var(&mut p, "x", Type::Bool);
    var(&mut p, "x", Type::Int);
    assert_eq!(error_text(&mut p), "duplicate 'x'");
}

#[test]
fn unknown_names_are_refused() {
    let mut p = Problem::new();
    var(&mut p, "b", Type::Bool);
    cons(&mut p, "C", name("y"));
    assert_eq!(error_text(&mut p), "unresolved y");
}

#[test]
fn unknown_types_are_refused() {
    let mut p = Problem::new();
    var(&mut p, "s", Type::Unresolved("S".to_string(), None));
    assert!(matches!(run(&mut p), Some(Err(Error::Resolve { .. }))));
}

#[test]
fn malformed_intervals_are_refused() {
    let mut p = Problem::new();
    var(&mut p, "i", Type::Interval(5, 1));
    assert!(matches!(run(&mut p), Some(Err(Error::Interval { .. }))));
    let mut p = Problem::new();
    var(&mut p, "i", Type::Interval(5, 1));
    assert_eq!(error_text(&mut p), "malformed interval 5..1");
}

#[test]
fn unbounded_parameters_are_refused() {
    let mut p = Problem::new();
    let mut f = Function::new("f".to_string(), Type::Bool, None, None);
    f.add_parameter(Parameter::new("x".to_string(), Type::Int, None));
    p.add_function(f);
    assert!(matches!(run(&mut p), Some(Err(Error::Bounded { .. }))));
}

#[test]
fn empty_structures_are_refused() {
    let mut p = Problem::new();
    p.add_structure(Structure::new("S".to_string(), None));
    assert_eq!(error_text(&mut p), "empty Structure S");
}

#[test]
fn empty_classes_are_refused() {
    let mut p = Problem::new();
    p.add_class(Class::new("A".to_string(), None, None));
    assert!(matches!(run(&mut p), Some(Err(Error::Empty { .. }))));
}

#[test]
fn class_with_an_instance_of_a_sub_class_is_not_empty() {
    let mut p = Problem::new();
    p.add_class(Class::new("A".to_string(), None, None));
    p.add_class(Class::new(
        "B".to_string(),
        Some(Type::Unresolved("A".to_string(), None)),
        None,
    ));
    p.add_instance(Instance::new("b".to_string(), Type::Unresolved("B".to_string(), None), None));
    assert!(matches!(run(&mut p), Some(Ok(()))));
}

#[test]
fn ill_typed_constraints_are_refused() {
    let mut p = Problem::new();
    var(&mut p, "i", Type::Interval(1, 3));
    cons(&mut p, "C", name("i"));
    assert!(matches!(run(&mut p), Some(Err(Error::Type { .. }))));
}

#[test]
fn wrong_numbers_of_arguments_are_refused() {
    let mut p = Problem::new();
    let mut f = Function::new("f".to_string(), Type::Bool, None, None);
    f.add_parameter(Parameter::new("x".to_string(), Type::Bool, None));
    p.add_function(f);
    cons(
        &mut p,
        "C",
        Expr::UnresolvedFunCall(
            "f".to_string(),
            vec![Expr::BoolValue(true, None), Expr::BoolValue(false, None)],
            None,
        ),
    );
    assert!(matches!(
        run(&mut p),
        Some(Err(Error::Parameter { size: 2, expected: 1, .. }))
    ));
}

#[test]
fn functions_without_parameters_are_not_loaded() {
    let mut p = Problem::new();
    p.add_function(Function::new("f".to_string(), Type::Bool, None, None));
    assert!(run(&mut p).is_none());
}

#[test]
fn cyclic_classes_are_found() {
    let mut p = Problem::new();
    p.add_class(Class::new(
        "A".to_string(),
        Some(Type::Unresolved("A".to_string(), None)),
        None,
    ));
    p.add_instance(Instance::new("a".to_string(), Type::Unresolved("A".to_string(), None), None));
    assert!(p.resolve_type().is_ok());
    match p.check_cycle() {
        Err(e) => assert_eq!(e.to_lang(&p), "cyclic class A"),
        Ok(_) => panic!("a cycle was expected"),
    }
}

#[test]
fn resolving_a_loaded_expression_again_gives_it_back() {
    let mut p = Problem::new();
    var(&mut p, "i", Type::Interval(1, 10));
    var(&mut p, "b", Type::Bool);
    cons(&mut p, "C", bin(bin(name("i"), BinOp::Ge, Expr::IntValue(3, None)), BinOp::And, name("b")));
    assert!(matches!(run(&mut p), Some(Ok(()))));
    let e = p.constraints()[0].expr();
    let before = e.to_lang(&p);
    match e.resolve_checked(&p, &p.entries()) {
        Some(Ok(x)) => assert_eq!(x.to_lang(&p), before),
        _ => panic!("the expression resolves"),
    }
    assert_eq!(before, "((i >= 3) and b)");
}

#[test]
fn type_inference_keeps_the_type_of_an_expression() {
    let mut p = Problem::new();
    var(&mut p, "i", Type::Interval(1, 10));
    cons(&mut p, "C", bin(bin(name("i"), BinOp::Add, Expr::IntValue(2, None)), BinOp::Ge, Expr::IntValue(3, None)));
    assert!(matches!(run(&mut p), Some(Ok(()))));
    let e = p.constraints()[0].expr();
    let t = e.typ(&p);
    let u = e.type_inference(&p).typ(&p);
    assert_eq!(t.to_lang(&p), u.to_lang(&p));
    assert_eq!(t.to_lang(&p), "Bool");
}

#[test]
fn a_bound_name_shadows_an_outer_entry_of_that_name() {
    let p = Parameter::new("x".to_string(), Type::Interval(1, 10), None);
    let e = Expr::Quantifier(QtOp::Sum, vec![p.copy()], Box::new(name("x")), None);
    let entries = Entries::new(vec![Entry::new("x".to_string(), EntryType::Variable(VariableId(0)))]);
    match e.resolve(&Problem::new(), &entries) {
        Ok(Expr::Quantifier(QtOp::Sum, ps, body, None)) => {
            assert_eq!(ps.len(), 1);
            assert!(matches!(*body, Expr::Parameter(q) if q.name == "x"));
        }
        _ => panic!("the body resolves to the bound parameter"),
    }
}

#[test]
fn an_identifier_becomes_its_entry_at_its_position() {
    let pos = Position { file: "a.sl".to_string(), line: 2, column: 5 };
    let entries = Entries::new(vec![Entry::new("x".to_string(), EntryType::Variable(VariableId(3)))]);
    let e = Expr::Unresolved("x".to_string(), Some(pos));
    match e.resolve(&Problem::new(), &entries) {
        Ok(Expr::Variable(id, Some(q))) => {
            assert_eq!(id.0, 3);
            assert_eq!((q.file.as_str(), q.line, q.column), ("a.sl", 2, 5));
        }
        _ => panic!("the identifier resolves to variable 3"),
    }
    let u = Expr::Unresolved("y".to_string(), None);
    assert!(matches!(u.resolve(&Problem::new(), &entries), Err(Error::Resolve { .. })));
}

#[test]
fn interval_arithmetic_bounds_every_value() {
    let mut p = Problem::new();
    var(&mut p, "a", Type::Interval(0, 9));
    var(&mut p, "b", Type::Interval(2, 20));
    var(&mut p, "c", Type::Interval(-2, 3));
    var(&mut p, "d", Type::Interval(4, 5));
    assert!(matches!(run(&mut p), Some(Ok(()))));
    let v = |i: usize| Box::new(Expr::Variable(VariableId(i), None));
    let sub = Expr::Binary(v(0), BinOp::Sub, v(1), None);
    assert!(matches!(sub.typ(&p), Type::Interval(-20, 7)));
    let mul = Expr::Binary(v(2), BinOp::Mul, v(3), None);
    assert!(matches!(mul.typ(&p), Type::Interval(-10, 15)));
    let add = Expr::Binary(v(0), BinOp::Add, v(1), None);
    assert!(matches!(add.typ(&p), Type::Interval(2, 29)));
}

#[test]
fn added_entries_hide_earlier_ones() {
    let outer = Entries::new(vec![
        Entry::new("x".to_string(), EntryType::Variable(VariableId(0))),
        Entry::new("y".to_string(), EntryType::Variable(VariableId(1))),
    ]);
    let inner = Entries::new(vec![Entry::new("x".to_string(), EntryType::Variable(VariableId(2)))]);
    let all = outer.add_all(inner);
    assert!(matches!(all.get("x").map(|e| e.typ), Some(EntryType::Variable(VariableId(2)))));
    assert!(matches!(all.get("y").map(|e| e.typ), Some(EntryType::Variable(VariableId(1)))));
    assert!(all.get("z").is_none());
}

#[test]
fn substituting_an_expression_by_itself_keeps_the_expression() {
    let v = |i: usize| Box::new(Expr::Variable(VariableId(i), None));
    let old = Expr::Binary(v(0), BinOp::Add, v(1), None);
    let e = Expr::Binary(Box::new(old.copy()), BinOp::Mul, v(2), None);
    assert!(e.substitute(&old, &old).is_same(&e));
    let x = Expr::IntValue(4, None);
    let r = e.substitute(&old, &x);
    assert!(r.is_same(&Expr::Binary(Box::new(Expr::IntValue(4, None)), BinOp::Mul, v(2), None)));
}

#[test]
fn sub_types_form_an_order() {
    let mut p = Problem::new();
    p.add_class(Class::new("A".to_string(), None, None));
    p.add_class(Class::new("B".to_string(), Some(Type::Unresolved("A".to_string(), None)), None));
    p.add_class(Class::new("C".to_string(), Some(Type::Unresolved("B".to_string(), None)), None));
    assert!(p.resolve_type().is_ok());
    assert!(p.check_cycle().is_ok());
    let (a, c) = (Type::Class(ClassId(0)), Type::Class(ClassId(2)));
    assert!(c.is_subtype_of(&p, &a));
    assert!(!a.is_subtype_of(&p, &c));
    assert!(c.is_compatible_with(&p, &a));
    assert!(Type::Interval(2, 3).is_subtype_of(&p, &Type::Interval(1, 5)));
    assert!(!Type::Interval(0, 3).is_subtype_of(&p, &Type::Interval(1, 5)));
    assert!(Type::Interval(0, 1).is_compatible_with(&p, &Type::Interval(5, 9)));
    assert!(!Type::Real.is_compatible_with(&p, &Type::Int));
}

#[test]
fn an_added_instance_gets_the_next_identifier() {
    let mut p = Problem::new();
    let a = p.add_instance(Instance::new("a".to_string(), Type::Unresolved("S".to_string(), None), None));
    let b = p.add_instance(Instance::new("b".to_string(), Type::Unresolved("S".to_string(), None), None));
    assert_eq!((a.0, b.0), (0, 1));
    let i = p.get_instance(b).unwrap();
    assert_eq!(i.id().0, 1);
    assert_eq!(i.name(), "b");
}
