//! Checks on the expressions of a resolved problem: numbers of arguments
//! and types.

use crate::error::Error;
use crate::error::SpecError;
use crate::error::result_view;
use crate::problem::attribute::Attribute;
use crate::problem::attribute::SpecAttribute;
use crate::problem::attribute::attrs_view;
use crate::problem::class::Class;
use crate::problem::class::SpecClass;
use crate::problem::constraint::Constraint;
use crate::problem::constraint::SpecConstraint;
use crate::problem::expression::check_type::check_compatible_type;
use crate::problem::expression::check_type::check_type_bool;
use crate::problem::expression::check_type::check_type_integer;
use crate::problem::expression::check_type::spec_check_bool;
use crate::problem::expression::check_type::spec_check_compatible;
use crate::problem::expression::check_type::spec_check_integer;
use crate::problem::expression::check_type::spec_check_type;
use crate::problem::expression::check_type::then_check;
use crate::problem::expression::check_type::type_error;
use crate::problem::expression::every::NodeCheck;
use crate::problem::expression::every::every;
use crate::problem::expression::expr::Expr;
use crate::problem::expression::expr::SpecExpr;
use crate::problem::expression::param_size::spec_param_size;
use crate::problem::expression::typ::lemma_typ_valid;
use crate::problem::expression::typ::spec_typ;
use crate::problem::function::Function;
use crate::problem::function::SpecFunction;
use crate::problem::ids::Id;
use crate::problem::method::Method;
use crate::problem::method::SpecMethod;
use crate::problem::method::meths_view;
use crate::problem::problem::Problem;
use crate::problem::problem::SpecProblem;
use crate::problem::problem::classes_view;
use crate::problem::problem::constraints_view;
use crate::problem::problem::functions_view;
use crate::problem::problem::structures_view;
use crate::problem::problem::variables_view;
use crate::problem::relations::type_valid;
use crate::problem::results::check_all;
use crate::problem::results::lemma_check_all_err;
use crate::problem::search::Bound;
use crate::problem::search::Search;
use crate::problem::search::SpecSearch;
use crate::problem::structure::SpecStructure;
use crate::problem::structure::Structure;
use crate::problem::typing::SpecType;
use crate::problem::typing::Type;
use crate::problem::typing::types_view;
use crate::problem::valid::expr_valid;
use crate::problem::variable::SpecVariable;
use crate::problem::variable::Variable;
use crate::problem::variable::opt_expr;
use vstd::prelude::*;

verus! {

/// An optional expression is valid and resolved.
pub open spec fn opt_ready(p: SpecProblem, e: Option<SpecExpr>) -> bool {
    match e {
        Some(x) => expr_valid(p, x) && every(NodeCheck::Resolved, x),
        None => true,
    }
}

/// An expression is valid and resolved.
pub open spec fn expr_ready(p: SpecProblem, e: SpecExpr) -> bool {
    expr_valid(p, e) && every(NodeCheck::Resolved, e)
}

pub open spec fn struct_ready(p: SpecProblem, s: SpecStructure) -> bool {
    &&& forall|j: int| 0 <= j < s.attributes.len() ==> opt_ready(p, (#[trigger] s.attributes[j]).expr)
        && type_valid(p, s.attributes[j].typ)
    &&& forall|j: int| 0 <= j < s.methods.len() ==> opt_ready(p, (#[trigger] s.methods[j]).expr)
        && type_valid(p, s.methods[j].typ)
}

pub open spec fn class_ready(p: SpecProblem, c: SpecClass) -> bool {
    &&& forall|j: int| 0 <= j < c.attributes.len() ==> opt_ready(p, (#[trigger] c.attributes[j]).expr)
        && type_valid(p, c.attributes[j].typ)
    &&& forall|j: int| 0 <= j < c.methods.len() ==> opt_ready(p, (#[trigger] c.methods[j]).expr)
        && type_valid(p, c.methods[j].typ)
}

impl SpecProblem {
    /// Every expression of the problem is resolved.
    pub open spec fn exprs_resolved(self) -> bool {
        &&& forall|i: int, j: int|
            0 <= i < self.structures.len() && 0 <= j < self.structures[i].attributes.len()
                ==> opt_ready(self, (#[trigger] self.structures[i].attributes[j]).expr)
        &&& forall|i: int, j: int|
            0 <= i < self.structures.len() && 0 <= j < self.structures[i].methods.len()
                ==> opt_ready(self, (#[trigger] self.structures[i].methods[j]).expr)
        &&& forall|i: int, j: int|
            0 <= i < self.classes.len() && 0 <= j < self.classes[i].attributes.len() ==> opt_ready(
                self,
                (#[trigger] self.classes[i].attributes[j]).expr,
            )
        &&& forall|i: int, j: int|
            0 <= i < self.classes.len() && 0 <= j < self.classes[i].methods.len() ==> opt_ready(
                self,
                (#[trigger] self.classes[i].methods[j]).expr,
            )
        &&& forall|i: int|
            0 <= i < self.variables.len() ==> opt_ready(self, (#[trigger] self.variables[i]).expr)
        &&& forall|i: int|
            0 <= i < self.functions.len() ==> opt_ready(self, (#[trigger] self.functions[i]).expr)
        &&& forall|i: int|
            0 <= i < self.constraints.len() ==> expr_ready(self, (#[trigger] self.constraints[i]).expr)
        &&& self.search matches SpecSearch::Optimize(e, _, _) ==> expr_ready(self, e)
    }
}

//---------- Parameter size ----------

pub open spec fn opt_param_size(p: SpecProblem, e: Option<SpecExpr>) -> Result<(), SpecError> {
    match e {
        Some(x) => spec_param_size(p, x),
        None => Ok(()),
    }
}

pub open spec fn attr_psize<T: Id>(p: SpecProblem, a: SpecAttribute<T>) -> Result<(), SpecError> {
    opt_param_size(p, a.expr)
}

pub open spec fn attr_psize_fn<T: Id>(p: SpecProblem) -> spec_fn(SpecAttribute<T>) -> Result<(), SpecError> {
    |a: SpecAttribute<T>| attr_psize(p, a)
}

pub open spec fn meth_psize<T: Id>(p: SpecProblem, m: SpecMethod<T>) -> Result<(), SpecError> {
    opt_param_size(p, m.expr)
}

pub open spec fn meth_psize_fn<T: Id>(p: SpecProblem) -> spec_fn(SpecMethod<T>) -> Result<(), SpecError> {
    |m: SpecMethod<T>| meth_psize(p, m)
}

pub open spec fn struct_psize(p: SpecProblem, s: SpecStructure) -> Result<(), SpecError> {
    then_check(
        check_all(s.attributes, attr_psize_fn(p), s.attributes.len()),
        check_all(s.methods, meth_psize_fn(p), s.methods.len()),
    )
}

pub open spec fn struct_psize_fn(p: SpecProblem) -> spec_fn(SpecStructure) -> Result<(), SpecError> {
    |s: SpecStructure| struct_psize(p, s)
}

pub open spec fn class_psize(p: SpecProblem, c: SpecClass) -> Result<(), SpecError> {
    then_check(
        check_all(c.attributes, attr_psize_fn(p), c.attributes.len()),
        check_all(c.methods, meth_psize_fn(p), c.methods.len()),
    )
}

pub open spec fn class_psize_fn(p: SpecProblem) -> spec_fn(SpecClass) -> Result<(), SpecError> {
    |c: SpecClass| class_psize(p, c)
}

pub open spec fn var_psize(p: SpecProblem, v: SpecVariable) -> Result<(), SpecError> {
    opt_param_size(p, v.expr)
}

pub open spec fn var_psize_fn(p: SpecProblem) -> spec_fn(SpecVariable) -> Result<(), SpecError> {
    |v: SpecVariable| var_psize(p, v)
}

pub open spec fn func_psize(p: SpecProblem, f: SpecFunction) -> Result<(), SpecError> {
    opt_param_size(p, f.expr)
}

pub open spec fn func_psize_fn(p: SpecProblem) -> spec_fn(SpecFunction) -> Result<(), SpecError> {
    |f: SpecFunction| func_psize(p, f)
}

pub open spec fn cons_psize(p: SpecProblem, c: SpecConstraint) -> Result<(), SpecError> {
    spec_param_size(p, c.expr)
}

pub open spec fn cons_psize_fn(p: SpecProblem) -> spec_fn(SpecConstraint) -> Result<(), SpecError> {
    |c: SpecConstraint| cons_psize(p, c)
}

pub open spec fn search_psize(p: SpecProblem, s: SpecSearch) -> Result<(), SpecError> {
    match s {
        SpecSearch::Solve => Ok(()),
        SpecSearch::Optimize(e, _, _) => spec_param_size(p, e),
    }
}

/// The numbers of arguments of the calls of the structures, classes,
/// variables, functions, constraints and of what to search for; the first
/// mismatch is reported.
pub open spec fn spec_problem_param_size(p: SpecProblem) -> Result<(), SpecError> {
    then_check(
        check_all(p.structures, struct_psize_fn(p), p.structures.len()),
        then_check(
            check_all(p.classes, class_psize_fn(p), p.classes.len()),
            then_check(
                check_all(p.variables, var_psize_fn(p), p.variables.len()),
                then_check(
                    check_all(p.functions, func_psize_fn(p), p.functions.len()),
                    then_check(
                        check_all(p.constraints, cons_psize_fn(p), p.constraints.len()),
                        search_psize(p, p.search),
                    ),
                ),
            ),
        ),
    )
}

//---------- Type ----------

/// `e`, of type `t`, is a real.
pub open spec fn spec_check_real(e: SpecExpr, t: SpecType) -> Result<(), SpecError> {
    if t.is_real() {
        Ok(())
    } else {
        type_error(e, t, seq![SpecType::Real])
    }
}

/// The expression, if any, type checks and is compatible with the declared
/// type `t`.
pub open spec fn opt_type_check(p: SpecProblem, t: SpecType, e: Option<SpecExpr>) -> Result<(), SpecError> {
    match e {
        Some(x) => then_check(spec_check_type(p, x), spec_check_compatible(p, t, x, spec_typ(p, x))),
        None => Ok(()),
    }
}

pub open spec fn attr_tc<T: Id>(p: SpecProblem, a: SpecAttribute<T>) -> Result<(), SpecError> {
    opt_type_check(p, a.typ, a.expr)
}

pub open spec fn attr_tc_fn<T: Id>(p: SpecProblem) -> spec_fn(SpecAttribute<T>) -> Result<(), SpecError> {
    |a: SpecAttribute<T>| attr_tc(p, a)
}

pub open spec fn meth_tc<T: Id>(p: SpecProblem, m: SpecMethod<T>) -> Result<(), SpecError> {
    opt_type_check(p, m.typ, m.expr)
}

pub open spec fn meth_tc_fn<T: Id>(p: SpecProblem) -> spec_fn(SpecMethod<T>) -> Result<(), SpecError> {
    |m: SpecMethod<T>| meth_tc(p, m)
}

pub open spec fn struct_tc(p: SpecProblem, s: SpecStructure) -> Result<(), SpecError> {
    then_check(
        check_all(s.attributes, attr_tc_fn(p), s.attributes.len()),
        check_all(s.methods, meth_tc_fn(p), s.methods.len()),
    )
}

pub open spec fn struct_tc_fn(p: SpecProblem) -> spec_fn(SpecStructure) -> Result<(), SpecError> {
    |s: SpecStructure| struct_tc(p, s)
}

pub open spec fn class_tc(p: SpecProblem, c: SpecClass) -> Result<(), SpecError> {
    then_check(
        check_all(c.attributes, attr_tc_fn(p), c.attributes.len()),
        check_all(c.methods, meth_tc_fn(p), c.methods.len()),
    )
}

pub open spec fn class_tc_fn(p: SpecProblem) -> spec_fn(SpecClass) -> Result<(), SpecError> {
    |c: SpecClass| class_tc(p, c)
}

pub open spec fn var_tc(p: SpecProblem, v: SpecVariable) -> Result<(), SpecError> {
    opt_type_check(p, v.typ, v.expr)
}

pub open spec fn var_tc_fn(p: SpecProblem) -> spec_fn(SpecVariable) -> Result<(), SpecError> {
    |v: SpecVariable| var_tc(p, v)
}

pub open spec fn func_tc(p: SpecProblem, f: SpecFunction) -> Result<(), SpecError> {
    opt_type_check(p, f.typ, f.expr)
}

pub open spec fn func_tc_fn(p: SpecProblem) -> spec_fn(SpecFunction) -> Result<(), SpecError> {
    |f: SpecFunction| func_tc(p, f)
}

/// The expression of the constraint type checks and is a boolean.
pub open spec fn cons_tc(p: SpecProblem, c: SpecConstraint) -> Result<(), SpecError> {
    then_check(spec_check_type(p, c.expr), spec_check_bool(c.expr, spec_typ(p, c.expr)))
}

pub open spec fn cons_tc_fn(p: SpecProblem) -> spec_fn(SpecConstraint) -> Result<(), SpecError> {
    |c: SpecConstraint| cons_tc(p, c)
}

/// The objective type checks and is an integer for an integer bound, a real
/// for a real bound.
pub open spec fn search_tc(p: SpecProblem, s: SpecSearch) -> Result<(), SpecError> {
    match s {
        SpecSearch::Solve => Ok(()),
        SpecSearch::Optimize(e, b, _) => then_check(
            spec_check_type(p, e),
            match b {
                Bound::Int(_) => spec_check_integer(e, spec_typ(p, e)),
                Bound::Real(_) => spec_check_real(e, spec_typ(p, e)),
            },
        ),
    }
}

/// The type checks of the structures, classes, variables, functions,
/// constraints and of what to search for; the first error is reported.
pub open spec fn spec_problem_check_type(p: SpecProblem) -> Result<(), SpecError> {
    then_check(
        check_all(p.structures, struct_tc_fn(p), p.structures.len()),
        then_check(
            check_all(p.classes, class_tc_fn(p), p.classes.len()),
            then_check(
                check_all(p.variables, var_tc_fn(p), p.variables.len()),
                then_check(
                    check_all(p.functions, func_tc_fn(p), p.functions.len()),
                    then_check(
                        check_all(p.constraints, cons_tc_fn(p), p.constraints.len()),
                        search_tc(p, p.search),
                    ),
                ),
            ),
        ),
    )
}

//---------- Exec ----------

/// Checks the numbers of arguments of an optional expression.
fn opt_check_parameter_size(problem: &Problem, e: &Option<Expr>) -> (r: Result<(), Error>)
    requires
        problem@.wf(),
        opt_ready(problem@, opt_expr(*e)),
    ensures
        result_view(r) == opt_param_size(problem@, opt_expr(*e)),
{
    match e {
        Some(x) => x.check_parameter_size(problem),
        None => Ok(()),
    }
}

/// Type checks an optional expression against the declared type `t`.
fn opt_check_type(problem: &Problem, t: &Type, e: &Option<Expr>) -> (r: Result<(), Error>)
    requires
        problem@.wf(),
        opt_ready(problem@, opt_expr(*e)),
    ensures
        result_view(r) == opt_type_check(problem@, t@, opt_expr(*e)),
{
    match e {
        Some(x) => {
            x.check_type(problem)?;
            proof {
                lemma_typ_valid(problem@, x@);
            }
            let xt = x.typ(problem);
            check_compatible_type(problem, t, x, &xt)
        },
        None => Ok(()),
    }
}

/// Checks that `expr`, of type `expr_type`, is a real.
pub fn check_type_real(expr: &Expr, expr_type: &Type) -> (r: Result<(), Error>)
    ensures
        result_view(r) == spec_check_real(expr@, expr_type@),
{
    if expr_type.is_real() {
        Ok(())
    } else {
        let mut expected: Vec<Type> = Vec::new();
        expected.push(Type::Real);
        proof {
            assert(types_view(expected@) =~= seq![SpecType::Real]);
        }
        Err(Error::Type { expr: expr.copy(), typ: expr_type.copy(), expected })
    }
}

impl<T: Id> Attribute<T> {
    /// Checks the numbers of arguments of the expression of the attribute.
    pub fn check_parameter_size(&self, problem: &Problem) -> (r: Result<(), Error>)
        requires
            problem@.wf(),
            opt_ready(problem@, self@.expr),
        ensures
            result_view(r) == attr_psize(problem@, self@),
    {
        opt_check_parameter_size(problem, &self.expr)
    }

    /// Type checks the expression of the attribute against its type.
    pub fn check_type(&self, problem: &Problem) -> (r: Result<(), Error>)
        requires
            problem@.wf(),
            opt_ready(problem@, self@.expr),
        ensures
            result_view(r) == attr_tc(problem@, self@),
    {
        opt_check_type(problem, &self.typ, &self.expr)
    }
}

impl<T: Id> Method<T> {
    /// Checks the numbers of arguments of the expression of the method.
    pub fn check_parameter_size(&self, problem: &Problem) -> (r: Result<(), Error>)
        requires
            problem@.wf(),
            opt_ready(problem@, self@.expr),
        ensures
            result_view(r) == meth_psize(problem@, self@),
    {
        opt_check_parameter_size(problem, &self.expr)
    }

    /// Type checks the expression of the method against its type.
    pub fn check_type(&self, problem: &Problem) -> (r: Result<(), Error>)
        requires
            problem@.wf(),
            opt_ready(problem@, self@.expr),
        ensures
            result_view(r) == meth_tc(problem@, self@),
    {
        opt_check_type(problem, &self.typ, &self.expr)
    }
}

impl Variable {
    /// Checks the numbers of arguments of the expression of the variable.
    pub fn check_parameter_size(&self, problem: &Problem) -> (r: Result<(), Error>)
        requires
            problem@.wf(),
            opt_ready(problem@, self@.expr),
        ensures
            result_view(r) == var_psize(problem@, self@),
    {
        opt_check_parameter_size(problem, &self.expr)
    }

    /// Type checks the expression of the variable against its type.
    pub fn check_type(&self, problem: &Problem) -> (r: Result<(), Error>)
        requires
            problem@.wf(),
            opt_ready(problem@, self@.expr),
        ensures
            result_view(r) == var_tc(problem@, self@),
    {
        opt_check_type(problem, &self.typ, &self.expr)
    }
}

impl Function {
    /// Checks the numbers of arguments of the expression of the function.
    pub fn check_parameter_size(&self, problem: &Problem) -> (r: Result<(), Error>)
        requires
            problem@.wf(),
            opt_ready(problem@, self@.expr),
        ensures
            result_view(r) == func_psize(problem@, self@),
    {
        opt_check_parameter_size(problem, &self.expr)
    }

    /// Type checks the expression of the function against its type.
    pub fn check_type(&self, problem: &Problem) -> (r: Result<(), Error>)
        requires
            problem@.wf(),
            opt_ready(problem@, self@.expr),
        ensures
            result_view(r) == func_tc(problem@, self@),
    {
        opt_check_type(problem, &self.typ, &self.expr)
    }
}

impl Constraint {
    /// Checks the numbers of arguments of the expression of the constraint.
    pub fn check_parameter_size(&self, problem: &Problem) -> (r: Result<(), Error>)
        requires
            problem@.wf(),
            expr_ready(problem@, self@.expr),
        ensures
            result_view(r) == cons_psize(problem@, self@),
    {
        self.expr.check_parameter_size(problem)
    }

    /// Type checks the expression of the constraint, a boolean.
    pub fn check_type(&self, problem: &Problem) -> (r: Result<(), Error>)
        requires
            problem@.wf(),
            expr_ready(problem@, self@.expr),
        ensures
            result_view(r) == cons_tc(problem@, self@),
    {
        self.expr.check_type(problem)?;
        let t = self.expr.typ(problem);
        check_type_bool(&self.expr, &t)
    }
}

impl Search {
    /// Checks the numbers of arguments of the objective, if any.
    pub fn check_parameter_size(&self, problem: &Problem) -> (r: Result<(), Error>)
        requires
            problem@.wf(),
            self@ matches SpecSearch::Optimize(e, _, _) ==> expr_ready(problem@, e),
        ensures
            result_view(r) == search_psize(problem@, self@),
    {
        match self {
            Search::Solve => Ok(()),
            Search::Optimize(e, _, _) => e.check_parameter_size(problem),
        }
    }

    /// Type checks the objective, if any, against its bound.
    pub fn check_type(&self, problem: &Problem) -> (r: Result<(), Error>)
        requires
            problem@.wf(),
            self@ matches SpecSearch::Optimize(e, _, _) ==> expr_ready(problem@, e),
        ensures
            result_view(r) == search_tc(problem@, self@),
    {
        match self {
            Search::Solve => Ok(()),
            Search::Optimize(e, b, _) => {
                e.check_type(problem)?;
                let et = e.typ(problem);
                match b {
                    Bound::Int(_) => check_type_integer(e, &et),
                    Bound::Real(_) => check_type_real(e, &et),
                }
            },
        }
    }
}

/// Checks the attributes, in order.
pub fn check_attrs_parameter_size<T: Id>(problem: &Problem, v: &Vec<Attribute<T>>) -> (r: Result<(), Error>)
    requires
        problem@.wf(),
        forall|i: int| 0 <= i < v.len() ==> opt_ready(problem@, (#[trigger] attrs_view(v@)[i]).expr),
    ensures
        result_view(r) == check_all(attrs_view(v@), attr_psize_fn(problem@), v.len() as nat),
{
    let ghost s = attrs_view(v@);
    let mut i: usize = 0;
    while i < v.len()
        invariant
            problem@.wf(),
            i <= v.len(),
            s == attrs_view(v@),
            forall|k: int| 0 <= k < v.len() ==> opt_ready(problem@, (#[trigger] s[k]).expr),
            check_all(s, attr_psize_fn(problem@), i as nat) == Ok::<(), SpecError>(()),
        decreases v.len() - i,
    {
        proof {
            assert(s[i as int] == v@[i as int]@);
        }
        match v[i].check_parameter_size(problem) {
            Ok(_) => {},
            Err(e) => {
                proof {
                    lemma_check_all_err(s, attr_psize_fn(problem@), (i + 1) as nat, v.len() as nat);
                }
                return Err(e);
            },
        }
        i += 1;
    }
    Ok(())
}

/// Checks the methods, in order.
pub fn check_meths_parameter_size<T: Id>(problem: &Problem, v: &Vec<Method<T>>) -> (r: Result<(), Error>)
    requires
        problem@.wf(),
        forall|i: int| 0 <= i < v.len() ==> opt_ready(problem@, (#[trigger] meths_view(v@)[i]).expr),
    ensures
        result_view(r) == check_all(meths_view(v@), meth_psize_fn(problem@), v.len() as nat),
{
    let ghost s = meths_view(v@);
    let mut i: usize = 0;
    while i < v.len()
        invariant
            problem@.wf(),
            i <= v.len(),
            s == meths_view(v@),
            forall|k: int| 0 <= k < v.len() ==> opt_ready(problem@, (#[trigger] s[k]).expr),
            check_all(s, meth_psize_fn(problem@), i as nat) == Ok::<(), SpecError>(()),
        decreases v.len() - i,
    {
        proof {
            assert(s[i as int] == v@[i as int]@);
        }
        match v[i].check_parameter_size(problem) {
            Ok(_) => {},
            Err(e) => {
                proof {
                    lemma_check_all_err(s, meth_psize_fn(problem@), (i + 1) as nat, v.len() as nat);
                }
                return Err(e);
            },
        }
        i += 1;
    }
    Ok(())
}

/// Type checks the attributes, in order.
pub fn check_attrs_type<T: Id>(problem: &Problem, v: &Vec<Attribute<T>>) -> (r: Result<(), Error>)
    requires
        problem@.wf(),
        forall|i: int| 0 <= i < v.len() ==> opt_ready(problem@, (#[trigger] attrs_view(v@)[i]).expr),
    ensures
        result_view(r) == check_all(attrs_view(v@), attr_tc_fn(problem@), v.len() as nat),
{
    let ghost s = attrs_view(v@);
    let mut i: usize = 0;
    while i < v.len()
        invariant
            problem@.wf(),
            i <= v.len(),
            s == attrs_view(v@),
            forall|k: int| 0 <= k < v.len() ==> opt_ready(problem@, (#[trigger] s[k]).expr),
            check_all(s, attr_tc_fn(problem@), i as nat) == Ok::<(), SpecError>(()),
        decreases v.len() - i,
    {
        proof {
            assert(s[i as int] == v@[i as int]@);
        }
        match v[i].check_type(problem) {
            Ok(_) => {},
            Err(e) => {
                proof {
                    lemma_check_all_err(s, attr_tc_fn(problem@), (i + 1) as nat, v.len() as nat);
                }
                return Err(e);
            },
        }
        i += 1;
    }
    Ok(())
}

/// Type checks the methods, in order.
pub fn check_meths_type<T: Id>(problem: &Problem, v: &Vec<Method<T>>) -> (r: Result<(), Error>)
    requires
        problem@.wf(),
        forall|i: int| 0 <= i < v.len() ==> opt_ready(problem@, (#[trigger] meths_view(v@)[i]).expr),
    ensures
        result_view(r) == check_all(meths_view(v@), meth_tc_fn(problem@), v.len() as nat),
{
    let ghost s = meths_view(v@);
    let mut i: usize = 0;
    while i < v.len()
        invariant
            problem@.wf(),
            i <= v.len(),
            s == meths_view(v@),
            forall|k: int| 0 <= k < v.len() ==> opt_ready(problem@, (#[trigger] s[k]).expr),
            check_all(s, meth_tc_fn(problem@), i as nat) == Ok::<(), SpecError>(()),
        decreases v.len() - i,
    {
        proof {
            assert(s[i as int] == v@[i as int]@);
        }
        match v[i].check_type(problem) {
            Ok(_) => {},
            Err(e) => {
                proof {
                    lemma_check_all_err(s, meth_tc_fn(problem@), (i + 1) as nat, v.len() as nat);
                }
                return Err(e);
            },
        }
        i += 1;
    }
    Ok(())
}

impl Structure {
    /// Checks the numbers of arguments of the attributes, then methods, of
    /// the structure.
    pub fn check_parameter_size(&self, problem: &Problem) -> (r: Result<(), Error>)
        requires
            problem@.wf(),
            struct_ready(problem@, self@),
        ensures
            result_view(r) == struct_psize(problem@, self@),
    {
        check_attrs_parameter_size(problem, &self.attributes)?;
        check_meths_parameter_size(problem, &self.methods)
    }

    /// Type checks the attributes, then methods, of the structure.
    pub fn check_type(&self, problem: &Problem) -> (r: Result<(), Error>)
        requires
            problem@.wf(),
            struct_ready(problem@, self@),
        ensures
            result_view(r) == struct_tc(problem@, self@),
    {
        check_attrs_type(problem, &self.attributes)?;
        check_meths_type(problem, &self.methods)
    }
}

impl Class {
    /// Checks the numbers of arguments of the attributes, then methods, of
    /// the class.
    pub fn check_parameter_size(&self, problem: &Problem) -> (r: Result<(), Error>)
        requires
            problem@.wf(),
            class_ready(problem@, self@),
        ensures
            result_view(r) == class_psize(problem@, self@),
    {
        check_attrs_parameter_size(problem, &self.attributes)?;
        check_meths_parameter_size(problem, &self.methods)
    }

    /// Type checks the attributes, then methods, of the class.
    pub fn check_type(&self, problem: &Problem) -> (r: Result<(), Error>)
        requires
            problem@.wf(),
            class_ready(problem@, self@),
        ensures
            result_view(r) == class_tc(problem@, self@),
    {
        check_attrs_type(problem, &self.attributes)?;
        check_meths_type(problem, &self.methods)
    }
}

/// Checks the structures, in order.
pub fn check_structures_parameter_size(problem: &Problem, v: &Vec<Structure>) -> (r: Result<(), Error>)
    requires
        problem@.wf(),
        forall|i: int| 0 <= i < v.len() ==> struct_ready(problem@, (#[trigger] structures_view(v@)[i])),
    ensures
        result_view(r) == check_all(structures_view(v@), struct_psize_fn(problem@), v.len() as nat),
{
    let ghost s = structures_view(v@);
    let mut i: usize = 0;
    while i < v.len()
        invariant
            problem@.wf(),
            i <= v.len(),
            s == structures_view(v@),
            forall|k: int| 0 <= k < v.len() ==> struct_ready(problem@, (#[trigger] s[k])),
            check_all(s, struct_psize_fn(problem@), i as nat) == Ok::<(), SpecError>(()),
        decreases v.len() - i,
    {
        proof {
            assert(s[i as int] == v@[i as int]@);
        }
        match v[i].check_parameter_size(problem) {
            Ok(_) => {},
            Err(e) => {
                proof {
                    lemma_check_all_err(s, struct_psize_fn(problem@), (i + 1) as nat, v.len() as nat);
                }
                return Err(e);
            },
        }
        i += 1;
    }
    Ok(())
}

/// Checks the classes, in order.
pub fn check_classes_parameter_size(problem: &Problem, v: &Vec<Class>) -> (r: Result<(), Error>)
    requires
        problem@.wf(),
        forall|i: int| 0 <= i < v.len() ==> class_ready(problem@, (#[trigger] classes_view(v@)[i])),
    ensures
        result_view(r) == check_all(classes_view(v@), class_psize_fn(problem@), v.len() as nat),
{
    let ghost s = classes_view(v@);
    let mut i: usize = 0;
    while i < v.len()
        invariant
            problem@.wf(),
            i <= v.len(),
            s == classes_view(v@),
            forall|k: int| 0 <= k < v.len() ==> class_ready(problem@, (#[trigger] s[k])),
            check_all(s, class_psize_fn(problem@), i as nat) == Ok::<(), SpecError>(()),
        decreases v.len() - i,
    {
        proof {
            assert(s[i as int] == v@[i as int]@);
        }
        match v[i].check_parameter_size(problem) {
            Ok(_) => {},
            Err(e) => {
                proof {
                    lemma_check_all_err(s, class_psize_fn(problem@), (i + 1) as nat, v.len() as nat);
                }
                return Err(e);
            },
        }
        i += 1;
    }
    Ok(())
}

/// Checks the variables, in order.
pub fn check_variables_parameter_size(problem: &Problem, v: &Vec<Variable>) -> (r: Result<(), Error>)
    requires
        problem@.wf(),
        forall|i: int| 0 <= i < v.len() ==> opt_ready(problem@, (#[trigger] variables_view(v@)[i]).expr),
    ensures
        result_view(r) == check_all(variables_view(v@), var_psize_fn(problem@), v.len() as nat),
{
    let ghost s = variables_view(v@);
    let mut i: usize = 0;
    while i < v.len()
        invariant
            problem@.wf(),
            i <= v.len(),
            s == variables_view(v@),
            forall|k: int| 0 <= k < v.len() ==> opt_ready(problem@, (#[trigger] s[k]).expr),
            check_all(s, var_psize_fn(problem@), i as nat) == Ok::<(), SpecError>(()),
        decreases v.len() - i,
    {
        proof {
            assert(s[i as int] == v@[i as int]@);
        }
        match v[i].check_parameter_size(problem) {
            Ok(_) => {},
            Err(e) => {
                proof {
                    lemma_check_all_err(s, var_psize_fn(problem@), (i + 1) as nat, v.len() as nat);
                }
                return Err(e);
            },
        }
        i += 1;
    }
    Ok(())
}

/// Checks the functions, in order.
pub fn check_functions_parameter_size(problem: &Problem, v: &Vec<Function>) -> (r: Result<(), Error>)
    requires
        problem@.wf(),
        forall|i: int| 0 <= i < v.len() ==> opt_ready(problem@, (#[trigger] functions_view(v@)[i]).expr),
    ensures
        result_view(r) == check_all(functions_view(v@), func_psize_fn(problem@), v.len() as nat),
{
    let ghost s = functions_view(v@);
    let mut i: usize = 0;
    while i < v.len()
        invariant
            problem@.wf(),
            i <= v.len(),
            s == functions_view(v@),
            forall|k: int| 0 <= k < v.len() ==> opt_ready(problem@, (#[trigger] s[k]).expr),
            check_all(s, func_psize_fn(problem@), i as nat) == Ok::<(), SpecError>(()),
        decreases v.len() - i,
    {
        proof {
            assert(s[i as int] == v@[i as int]@);
        }
        match v[i].check_parameter_size(problem) {
            Ok(_) => {},
            Err(e) => {
                proof {
                    lemma_check_all_err(s, func_psize_fn(problem@), (i + 1) as nat, v.len() as nat);
                }
                return Err(e);
            },
        }
        i += 1;
    }
    Ok(())
}

/// Checks the constraints, in order.
pub fn check_constraints_parameter_size(problem: &Problem, v: &Vec<Constraint>) -> (r: Result<(), Error>)
    requires
        problem@.wf(),
        forall|i: int| 0 <= i < v.len() ==> expr_ready(problem@, (#[trigger] constraints_view(v@)[i]).expr),
    ensures
        result_view(r) == check_all(constraints_view(v@), cons_psize_fn(problem@), v.len() as nat),
{
    let ghost s = constraints_view(v@);
    let mut i: usize = 0;
    while i < v.len()
        invariant
            problem@.wf(),
            i <= v.len(),
            s == constraints_view(v@),
            forall|k: int| 0 <= k < v.len() ==> expr_ready(problem@, (#[trigger] s[k]).expr),
            check_all(s, cons_psize_fn(problem@), i as nat) == Ok::<(), SpecError>(()),
        decreases v.len() - i,
    {
        proof {
            assert(s[i as int] == v@[i as int]@);
        }
        match v[i].check_parameter_size(problem) {
            Ok(_) => {},
            Err(e) => {
                proof {
                    lemma_check_all_err(s, cons_psize_fn(problem@), (i + 1) as nat, v.len() as nat);
                }
                return Err(e);
            },
        }
        i += 1;
    }
    Ok(())
}

/// Type checks the structures, in order.
pub fn check_structures_type(problem: &Problem, v: &Vec<Structure>) -> (r: Result<(), Error>)
    requires
        problem@.wf(),
        forall|i: int| 0 <= i < v.len() ==> struct_ready(problem@, (#[trigger] structures_view(v@)[i])),
    ensures
        result_view(r) == check_all(structures_view(v@), struct_tc_fn(problem@), v.len() as nat),
{
    let ghost s = structures_view(v@);
    let mut i: usize = 0;
    while i < v.len()
        invariant
            problem@.wf(),
            i <= v.len(),
            s == structures_view(v@),
            forall|k: int| 0 <= k < v.len() ==> struct_ready(problem@, (#[trigger] s[k])),
            check_all(s, struct_tc_fn(problem@), i as nat) == Ok::<(), SpecError>(()),
        decreases v.len() - i,
    {
        proof {
            assert(s[i as int] == v@[i as int]@);
        }
        match v[i].check_type(problem) {
            Ok(_) => {},
            Err(e) => {
                proof {
                    lemma_check_all_err(s, struct_tc_fn(problem@), (i + 1) as nat, v.len() as nat);
                }
                return Err(e);
            },
        }
        i += 1;
    }
    Ok(())
}

/// Type checks the classes, in order.
pub fn check_classes_type(problem: &Problem, v: &Vec<Class>) -> (r: Result<(), Error>)
    requires
        problem@.wf(),
        forall|i: int| 0 <= i < v.len() ==> class_ready(problem@, (#[trigger] classes_view(v@)[i])),
    ensures
        result_view(r) == check_all(classes_view(v@), class_tc_fn(problem@), v.len() as nat),
{
    let ghost s = classes_view(v@);
    let mut i: usize = 0;
    while i < v.len()
        invariant
            problem@.wf(),
            i <= v.len(),
            s == classes_view(v@),
            forall|k: int| 0 <= k < v.len() ==> class_ready(problem@, (#[trigger] s[k])),
            check_all(s, class_tc_fn(problem@), i as nat) == Ok::<(), SpecError>(()),
        decreases v.len() - i,
    {
        proof {
            assert(s[i as int] == v@[i as int]@);
        }
        match v[i].check_type(problem) {
            Ok(_) => {},
            Err(e) => {
                proof {
                    lemma_check_all_err(s, class_tc_fn(problem@), (i + 1) as nat, v.len() as nat);
                }
                return Err(e);
            },
        }
        i += 1;
    }
    Ok(())
}

/// Type checks the variables, in order.
pub fn check_variables_type(problem: &Problem, v: &Vec<Variable>) -> (r: Result<(), Error>)
    requires
        problem@.wf(),
        forall|i: int| 0 <= i < v.len() ==> opt_ready(problem@, (#[trigger] variables_view(v@)[i]).expr),
    ensures
        result_view(r) == check_all(variables_view(v@), var_tc_fn(problem@), v.len() as nat),
{
    let ghost s = variables_view(v@);
    let mut i: usize = 0;
    while i < v.len()
        invariant
            problem@.wf(),
            i <= v.len(),
            s == variables_view(v@),
            forall|k: int| 0 <= k < v.len() ==> opt_ready(problem@, (#[trigger] s[k]).expr),
            check_all(s, var_tc_fn(problem@), i as nat) == Ok::<(), SpecError>(()),
        decreases v.len() - i,
    {
        proof {
            assert(s[i as int] == v@[i as int]@);
        }
        match v[i].check_type(problem) {
            Ok(_) => {},
            Err(e) => {
                proof {
                    lemma_check_all_err(s, var_tc_fn(problem@), (i + 1) as nat, v.len() as nat);
                }
                return Err(e);
            },
        }
        i += 1;
    }
    Ok(())
}

/// Type checks the functions, in order.
pub fn check_functions_type(problem: &Problem, v: &Vec<Function>) -> (r: Result<(), Error>)
    requires
        problem@.wf(),
        forall|i: int| 0 <= i < v.len() ==> opt_ready(problem@, (#[trigger] functions_view(v@)[i]).expr),
    ensures
        result_view(r) == check_all(functions_view(v@), func_tc_fn(problem@), v.len() as nat),
{
    let ghost s = functions_view(v@);
    let mut i: usize = 0;
    while i < v.len()
        invariant
            problem@.wf(),
            i <= v.len(),
            s == functions_view(v@),
            forall|k: int| 0 <= k < v.len() ==> opt_ready(problem@, (#[trigger] s[k]).expr),
            check_all(s, func_tc_fn(problem@), i as nat) == Ok::<(), SpecError>(()),
        decreases v.len() - i,
    {
        proof {
            assert(s[i as int] == v@[i as int]@);
        }
        match v[i].check_type(problem) {
            Ok(_) => {},
            Err(e) => {
                proof {
                    lemma_check_all_err(s, func_tc_fn(problem@), (i + 1) as nat, v.len() as nat);
                }
                return Err(e);
            },
        }
        i += 1;
    }
    Ok(())
}

/// Type checks the constraints, in order.
pub fn check_constraints_type(problem: &Problem, v: &Vec<Constraint>) -> (r: Result<(), Error>)
    requires
        problem@.wf(),
        forall|i: int| 0 <= i < v.len() ==> expr_ready(problem@, (#[trigger] constraints_view(v@)[i]).expr),
    ensures
        result_view(r) == check_all(constraints_view(v@), cons_tc_fn(problem@), v.len() as nat),
{
    let ghost s = constraints_view(v@);
    let mut i: usize = 0;
    while i < v.len()
        invariant
            problem@.wf(),
            i <= v.len(),
            s == constraints_view(v@),
            forall|k: int| 0 <= k < v.len() ==> expr_ready(problem@, (#[trigger] s[k]).expr),
            check_all(s, cons_tc_fn(problem@), i as nat) == Ok::<(), SpecError>(()),
        decreases v.len() - i,
    {
        proof {
            assert(s[i as int] == v@[i as int]@);
        }
        match v[i].check_type(problem) {
            Ok(_) => {},
            Err(e) => {
                proof {
                    lemma_check_all_err(s, cons_tc_fn(problem@), (i + 1) as nat, v.len() as nat);
                }
                return Err(e);
            },
        }
        i += 1;
    }
    Ok(())
}

/// The declarations of a resolved well-formed problem are ready for the
/// checks on expressions.
proof fn lemma_ready(p: SpecProblem)
    requires
        p.wf(),
        p.exprs_resolved(),
    ensures
        forall|i: int| 0 <= i < p.structures.len() ==> struct_ready(p, #[trigger] p.structures[i]),
        forall|i: int| 0 <= i < p.classes.len() ==> class_ready(p, #[trigger] p.classes[i]),
{
    assert forall|i: int| 0 <= i < p.structures.len() implies struct_ready(p, #[trigger] p.structures[i]) by {
        let s = p.structures[i];
        assert forall|j: int| 0 <= j < s.attributes.len() implies opt_ready(p, (#[trigger] s.attributes[j]).expr) && type_valid(p, s.attributes[j].typ) by {
            assert(opt_ready(p, p.structures[i].attributes[j].expr));
            assert(type_valid(p, p.structures[i].attributes[j].typ));
        }
        assert forall|j: int| 0 <= j < s.methods.len() implies opt_ready(p, (#[trigger] s.methods[j]).expr) && type_valid(p, s.methods[j].typ) by {
            assert(opt_ready(p, p.structures[i].methods[j].expr));
            assert(type_valid(p, p.structures[i].methods[j].typ));
        }
    }
    assert forall|i: int| 0 <= i < p.classes.len() implies class_ready(p, #[trigger] p.classes[i]) by {
        let c = p.classes[i];
        assert forall|j: int| 0 <= j < c.attributes.len() implies opt_ready(p, (#[trigger] c.attributes[j]).expr) && type_valid(p, c.attributes[j].typ) by {
            assert(opt_ready(p, p.classes[i].attributes[j].expr));
            assert(type_valid(p, p.classes[i].attributes[j].typ));
        }
        assert forall|j: int| 0 <= j < c.methods.len() implies opt_ready(p, (#[trigger] c.methods[j]).expr) && type_valid(p, c.methods[j].typ) by {
            assert(opt_ready(p, p.classes[i].methods[j].expr));
            assert(type_valid(p, p.classes[i].methods[j].typ));
        }
    }
}

impl Problem {
    /// The numbers of arguments of the calls of the structures, classes,
    /// variables, functions, constraints and of what to search for; the first
    /// mismatch is reported.
    pub fn check_parameter_size(&self) -> (r: Result<(), Error>)
        requires
            self@.wf(),
            self@.exprs_resolved(),
        ensures
            result_view(r) == spec_problem_param_size(self@),
    {
        proof {
            lemma_ready(self@);
        }
        check_structures_parameter_size(self, &self.structures)?;
        check_classes_parameter_size(self, &self.classes)?;
        check_variables_parameter_size(self, &self.variables)?;
        check_functions_parameter_size(self, &self.functions)?;
        check_constraints_parameter_size(self, &self.constraints)?;
        self.search.check_parameter_size(self)
    }

    /// The type checks of the structures, classes, variables, functions,
    /// constraints and of what to search for; the first error is reported.
    pub fn check_type(&self) -> (r: Result<(), Error>)
        requires
            self@.wf(),
            self@.exprs_resolved(),
        ensures
            result_view(r) == spec_problem_check_type(self@),
    {
        proof {
            lemma_ready(self@);
        }
        check_structures_type(self, &self.structures)?;
        check_classes_type(self, &self.classes)?;
        check_variables_type(self, &self.variables)?;
        check_functions_type(self, &self.functions)?;
        check_constraints_type(self, &self.constraints)?;
        self.search.check_type(self)
    }
}

} // verus!
