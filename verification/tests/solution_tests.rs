use smt_lang::problem::attribute::Attribute;
use smt_lang::problem::class::Class;
use smt_lang::problem::expression::expr::Expr;
use smt_lang::problem::function::Function;
use smt_lang::problem::instance::Instance;
use smt_lang::problem::method::Method;
use smt_lang::problem::parameter::Parameter;
use smt_lang::problem::problem::Problem;
use smt_lang::problem::search::{Bound, Search};
use smt_lang::problem::structure::Structure;
use smt_lang::problem::typing::Type;
use smt_lang::problem::variable::Variable;
use smt_lang::report::Report;
use smt_lang::solution::solution::Solution;
use smt_lang::solution::value::Value;

fn name(s: &str) -> Expr {
    Expr::Unresolved(s.to_string(), None)
}

fn load(p: &mut Problem) {
    let mut reports: Vec<Report> = Vec::new();
    assert!(matches!(smt_lang::load::load(p, 0, &mut reports), Some(Ok(()))));
}

fn unresolved(s: &str) -> Type {
    Type::Unresolved(s.to_string(), None)
}

/// A structure with an attribute, a class with a method, a class with
/// neither, one instance of each, a variable and a function.
fn problem() -> Problem {
    let mut p = Problem::new();
    let mut s = Structure::new("S".to_string(), None);
    s.add_attribute(Attribute::new("a".to_string(), Type::Int, None, None));
    p.add_structure(s);
    let mut c = Class::new("C".to_string(), None, None);
    let mut m = Method::new("m".to_string(), Type::Bool, None, None);
    m.add_parameter(Parameter::new("x".to_string(), Type::Bool, None));
    c.add_method(m);
    p.add_class(c);
    p.add_class(Class::new("E".to_string(), None, None));
    p.add_instance(Instance::new("s".to_string(), unresolved("S"), None));
    p.add_instance(Instance::new("c".to_string(), unresolved("C"), None));
    p.add_instance(Instance::new("e".to_string(), unresolved("E"), None));
    p.add_variable(Variable::new("v".to_string(), Type::Int, None, None));
    let mut f = Function::new("f".to_string(), Type::Bool, None, None);
    f.add_parameter(Parameter::new("y".to_string(), Type::Bool, None));
    p.add_function(f);
    p
}

/// A model: 3 for every attribute, 7 for every variable, a method call
/// gives the negation of its argument and a function call its argument.
fn model(e: &Expr) -> Value {
    match e {
        Expr::BoolValue(b, _) => Value::Bool(*b),
        Expr::StrucAttribute(_, _, _) => Value::Integer(3),
        Expr::Variable(_, _) => Value::Integer(7),
        Expr::ClassMetCall(_, _, args, _) => match &args[0] {
            Expr::BoolValue(b, _) => Value::Bool(!*b),
            _ => Value::Bool(false),
        },
        Expr::FunctionCall(_, args, _) => match &args[0] {
            Expr::BoolValue(b, _) => Value::Bool(*b),
            _ => Value::Bool(false),
        },
        _ => Value::Integer(0),
    }
}

#[test]
fn a_solution_holds_what_the_model_gives_in_problem_order() {
    let mut p = problem();
    load(&mut p);
    let s = Solution::new(&p, &model);
    assert_eq!(s.structures.len(), 1);
    assert_eq!(s.structures[0].instances.len(), 1);
    let si = &s.structures[0].instances[0];
    assert_eq!(si.id.0, 0);
    assert_eq!(si.attributes.len(), 1);
    assert!(matches!(si.attributes[0].value, Value::Integer(3)));
    assert_eq!(s.variables.len(), 1);
    assert!(matches!(s.variables[0], Value::Integer(7)));
    assert_eq!(s.functions.len(), 1);
    let calls = &s.functions[0].calls;
    assert_eq!(calls.len(), 2);
    assert!(matches!(calls[0].parameters[0], Value::Bool(false)));
    assert!(matches!(calls[0].value, Value::Bool(false)));
    assert!(matches!(calls[1].parameters[0], Value::Bool(true)));
    assert!(matches!(calls[1].value, Value::Bool(true)));
    assert!(s.objective.is_none());
}

#[test]
fn a_class_without_attributes_or_methods_is_left_out() {
    let mut p = problem();
    load(&mut p);
    let s = Solution::new(&p, &model);
    assert_eq!(s.classes.len(), 1);
    assert_eq!(s.classes[0].id.0, 0);
    let ci = &s.classes[0].instances[0];
    assert_eq!(ci.id.0, 1);
    assert_eq!(ci.methods.len(), 1);
    let calls = &ci.methods[0].calls;
    assert_eq!(calls.len(), 2);
    assert!(matches!(calls[0].value, Value::Bool(true)));
    assert!(matches!(calls[1].value, Value::Bool(false)));
}

#[test]
fn an_optimization_asks_the_model_for_its_objective() {
    let mut p = problem();
    p.set_search(Search::Optimize(Box::new(name("v")), Bound::Int(0), false));
    load(&mut p);
    let s = Solution::new(&p, &model);
    assert!(matches!(s.objective, Some(Value::Integer(7))));
}

#[test]
fn a_solution_is_written_structures_first() {
    let mut p = problem();
    load(&mut p);
    let s = Solution::new(&p, &model);
    let text = s.to_lang(&p);
    assert!(text.starts_with("struct S {\n    inst s {\n        a: Int = 3\n    }\n}\n"));
    assert!(text.contains("v: Int = 7\n"));
}
