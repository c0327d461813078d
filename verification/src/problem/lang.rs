//! How the declarations of a problem are written in the language.

use crate::problem::attribute::Attribute;
use crate::problem::attribute::SpecAttribute;
use crate::problem::attribute::attrs_view;
use crate::problem::class::Class;
use crate::problem::class::SpecClass;
use crate::problem::constraint::Constraint;
use crate::problem::constraint::SpecConstraint;
use crate::problem::expr_pass::class_exprs_valid;
use crate::problem::expr_pass::struct_exprs_valid;
use crate::problem::expression::expr::Expr;
use crate::problem::expression::expr::SpecExpr;
use crate::problem::expression::to_lang::cat;
use crate::problem::expression::to_lang::param_langs;
use crate::problem::expression::to_lang::params_text;
use crate::problem::expression::to_lang::spec_expr_lang;
use crate::problem::function::Function;
use crate::problem::function::SpecFunction;
use crate::problem::hierarchy2::instances_of;
use crate::problem::hierarchy2::instances_of_type;
use crate::problem::ids::ClassId;
use crate::problem::ids::Id;
use crate::problem::ids::InstanceId;
use crate::problem::ids::StructureId;
use crate::problem::instance::SpecInstance;
use crate::problem::method::Method;
use crate::problem::method::SpecMethod;
use crate::problem::method::meths_view;
use crate::problem::parameter::Parameter;
use crate::problem::parameter::SpecParameter;
use crate::problem::parameter::params_view;
use crate::problem::problem::Problem;
use crate::problem::problem::SpecProblem;
use crate::problem::problem::classes_view;
use crate::problem::problem::constraints_view;
use crate::problem::problem::functions_view;
use crate::problem::problem::structures_view;
use crate::problem::problem::variables_view;
use crate::problem::rational::fraction_display;
use crate::problem::relations::type_lang;
use crate::problem::relations::type_valid;
use crate::problem::resolve_exprs::opt_valid;
use crate::problem::search::Bound;
use crate::problem::search::Search;
use crate::problem::search::SpecSearch;
use crate::problem::structure::SpecStructure;
use crate::problem::structure::Structure;
use crate::problem::type_checks::class_types_valid;
use crate::problem::type_checks::lemma_decl_types_valid;
use crate::problem::type_checks::meth_types_valid;
use crate::problem::type_checks::meth_types_valid_f;
use crate::problem::type_checks::struct_types_valid;
use crate::problem::typing::SpecType;
use crate::problem::typing::Type;
use crate::problem::valid::expr_valid;
use crate::problem::valid::params_valid;
use crate::problem::variable::SpecVariable;
use crate::problem::variable::Variable;
use crate::problem::variable::opt_expr;
use crate::text::int_text;
use crate::text::isize_text;
use crate::text::join;
use crate::text::join_strings;
use crate::text::nat_text;
use crate::text::usize_text;
use vstd::string::*;
use vstd::prelude::*;

verus! {

/// The texts of `f` of the first `n` elements of `s`, one after the other.
pub open spec fn concat_map<A>(s: Seq<A>, f: spec_fn(A) -> Seq<char>, n: nat) -> Seq<char>
    decreases n,
{
    if n == 0 || n > s.len() {
        seq![]
    } else {
        concat_map(s, f, (n - 1) as nat) + f(s[n - 1])
    }
}

/// ` = ` and the expression, if any.
pub open spec fn opt_expr_lang(p: SpecProblem, e: Option<SpecExpr>) -> Seq<char> {
    match e {
        Some(x) => " = "@ + spec_expr_lang(p, x),
        None => seq![],
    }
}

/// The parameters between brackets, separated by commas.
pub open spec fn params_lang(p: SpecProblem, ps: Seq<SpecParameter>) -> Seq<char> {
    "("@ + join(param_langs(p, ps, ps.len()), ", "@) + ")"@
}

pub open spec fn attr_lang<T: Id>(p: SpecProblem, a: SpecAttribute<T>) -> Seq<char> {
    "    "@ + a.name + ": "@ + type_lang(p, a.typ) + opt_expr_lang(p, a.expr)
}

pub open spec fn meth_lang<T: Id>(p: SpecProblem, m: SpecMethod<T>) -> Seq<char> {
    "    "@ + m.name + params_lang(p, m.parameters) + ": "@ + type_lang(p, m.typ) + opt_expr_lang(
        p,
        m.expr,
    )
}

pub open spec fn func_lang(p: SpecProblem, f: SpecFunction) -> Seq<char> {
    "let "@ + f.name + params_lang(p, f.parameters) + ": "@ + type_lang(p, f.typ) + opt_expr_lang(
        p,
        f.expr,
    )
}

pub open spec fn var_lang(p: SpecProblem, v: SpecVariable) -> Seq<char> {
    "let "@ + v.name + ": "@ + type_lang(p, v.typ) + opt_expr_lang(p, v.expr)
}

pub open spec fn cons_lang(p: SpecProblem, c: SpecConstraint) -> Seq<char> {
    "constraint "@ + c.name + " = "@ + spec_expr_lang(p, c.expr)
}

/// How a bound is written.
pub open spec fn bound_lang(b: Bound) -> Seq<char> {
    match b {
        Bound::Int(v) => int_text(v as int),
        Bound::Real(v) => fraction_display(v.is_negative(), v.numer_of(), v.denom_of()),
    }
}

pub open spec fn search_lang(p: SpecProblem, s: SpecSearch) -> Seq<char> {
    match s {
        SpecSearch::Solve => "solve\n"@,
        SpecSearch::Optimize(e, b, minimize) => if minimize {
            "minimize "@ + spec_expr_lang(p, e) + " until "@ + bound_lang(b)
        } else {
            "maximize "@ + spec_expr_lang(p, e) + " until "@ + bound_lang(b)
        },
    }
}

/// How an identifier of structure is shown for debugging.
pub open spec fn struct_id_text(id: StructureId) -> Seq<char> {
    "StructureId("@ + nat_text(id.0 as nat) + ")"@
}

/// How an identifier of class is shown for debugging.
pub open spec fn class_id_text(id: ClassId) -> Seq<char> {
    "ClassId("@ + nat_text(id.0 as nat) + ")"@
}

/// An attribute, then a new line.
pub open spec fn attr_line_fn<T: Id>(p: SpecProblem) -> spec_fn(SpecAttribute<T>) -> Seq<char> {
    |a: SpecAttribute<T>| attr_lang(p, a) + "\n"@
}

/// A method of a structure, then a comment with its identifier.
pub open spec fn struct_meth_line_fn(p: SpecProblem) -> spec_fn(SpecMethod<StructureId>) -> Seq<char> {
    |m: SpecMethod<StructureId>| meth_lang(p, m) + "// MethodId("@ + struct_id_text(m.id.0) + ", "@
        + nat_text(m.id.1 as nat) + ")\n"@
}

/// A method of a class, then a comment with its identifier.
pub open spec fn class_meth_line_fn(p: SpecProblem) -> spec_fn(SpecMethod<ClassId>) -> Seq<char> {
    |m: SpecMethod<ClassId>| meth_lang(p, m) + "// MethodId("@ + class_id_text(m.id.0) + ", "@
        + nat_text(m.id.1 as nat) + ")\n"@
}

pub open spec fn struct_lang(p: SpecProblem, s: SpecStructure) -> Seq<char> {
    "struct "@ + s.name + " {\n"@ + concat_map(s.attributes, attr_line_fn(p), s.attributes.len())
        + concat_map(s.methods, struct_meth_line_fn(p), s.methods.len()) + "}\n"@
}

pub open spec fn class_lang(p: SpecProblem, c: SpecClass) -> Seq<char> {
    "class "@ + c.name + match c.extends {
        Some(t) => " extends "@ + type_lang(p, t),
        None => seq![],
    } + " {\n"@ + concat_map(c.attributes, attr_line_fn(p), c.attributes.len()) + concat_map(
        c.methods,
        class_meth_line_fn(p),
        c.methods.len(),
    ) + "}\n"@
}

/// The names of the instances `ids`.
pub open spec fn names_of_instances(p: SpecProblem, ids: Seq<InstanceId>) -> Seq<Seq<char>> {
    ids.map_values(|i: InstanceId| p.instances[i.0 as int].name)
}

/// The line that declares the instances `ids` of `owner`, if any.
pub open spec fn inst_line(p: SpecProblem, ids: Seq<InstanceId>, owner: Seq<char>) -> Seq<char> {
    if ids.len() == 0 {
        seq![]
    } else {
        "inst "@ + join(names_of_instances(p, ids), ", "@) + ": "@ + owner + "\n"@
    }
}

/// A structure with a comment with its identifier and the line of its
/// instances.
pub open spec fn struct_block_fn(p: SpecProblem) -> spec_fn(SpecStructure) -> Seq<char> {
    |s: SpecStructure| "// "@ + struct_id_text(s.id) + "\n"@ + struct_lang(p, s) + "\n"@ + inst_line(
        p,
        instances_of_type(p.instances, s.typ),
        s.name,
    )
}

/// A class with a comment with its identifier and the line of its own
/// instances.
pub open spec fn class_block_fn(p: SpecProblem) -> spec_fn(SpecClass) -> Seq<char> {
    |c: SpecClass| "// "@ + class_id_text(c.id) + "\n"@ + class_lang(p, c) + "\n"@ + inst_line(
        p,
        instances_of_type(p.instances, c.typ),
        c.name,
    )
}

pub open spec fn var_line_fn(p: SpecProblem) -> spec_fn(SpecVariable) -> Seq<char> {
    |v: SpecVariable| var_lang(p, v) + "\n"@
}

pub open spec fn func_line_fn(p: SpecProblem) -> spec_fn(SpecFunction) -> Seq<char> {
    |f: SpecFunction| func_lang(p, f) + "\n"@
}

pub open spec fn cons_line_fn(p: SpecProblem) -> spec_fn(SpecConstraint) -> Seq<char> {
    |c: SpecConstraint| cons_lang(p, c) + "\n"@
}

/// How a problem is written: its structures and classes with their
/// instances, its variables, functions, constraints, and what to search
/// for.
pub open spec fn problem_lang(p: SpecProblem) -> Seq<char> {
    concat_map(p.structures, struct_block_fn(p), p.structures.len()) + concat_map(
        p.classes,
        class_block_fn(p),
        p.classes.len(),
    ) + concat_map(p.variables, var_line_fn(p), p.variables.len()) + concat_map(
        p.functions,
        func_line_fn(p),
        p.functions.len(),
    ) + concat_map(p.constraints, cons_line_fn(p), p.constraints.len()) + search_lang(p, p.search)
        + "\n"@
}

/// The declarations of a problem refer to it and their expressions are
/// valid, what writing it needs.
pub open spec fn problem_printable(p: SpecProblem) -> bool {
    p.wf() && p.exprs_wf()
}

//---------- Exec ----------

/// ` = ` and the expression, if any.
fn opt_expr_text(problem: &Problem, e: &Option<Expr>) -> (r: String)
    requires
        problem@.wf(),
        opt_valid(problem@, opt_expr(*e)),
    ensures
        r@ == opt_expr_lang(problem@, opt_expr(*e)),
{
    match e {
        Some(x) => cat(String::from_str(" = "), x.to_lang(problem).as_str()),
        None => String::new(),
    }
}

/// The parameters between brackets, separated by commas.
fn params_bracket_text(problem: &Problem, ps: &Vec<Parameter>) -> (r: String)
    requires
        params_valid(problem@, params_view(ps@)),
    ensures
        r@ == params_lang(problem@, params_view(ps@)),
{
    let s = cat(String::from_str("("), params_text(problem, ps).as_str());
    cat(s, ")")
}

impl<T: Id> Attribute<T> {
    /// How the attribute is written.
    pub fn to_lang(&self, problem: &Problem) -> (r: String)
        requires
            problem@.wf(),
            type_valid(problem@, self@.typ),
            opt_valid(problem@, self@.expr),
        ensures
            r@ == attr_lang(problem@, self@),
    {
        let s = cat(String::from_str("    "), self.name.as_str());
        let s = cat(s, ": ");
        let s = cat(s, self.typ.to_lang(problem).as_str());
        cat(s, opt_expr_text(problem, &self.expr).as_str())
    }
}

impl<T: Id> Method<T> {
    /// How the method is written.
    pub fn to_lang(&self, problem: &Problem) -> (r: String)
        requires
            problem@.wf(),
            meth_types_valid(problem@, self@),
            opt_valid(problem@, self@.expr),
        ensures
            r@ == meth_lang(problem@, self@),
    {
        let s = cat(String::from_str("    "), self.name.as_str());
        let s = cat(s, params_bracket_text(problem, &self.parameters).as_str());
        let s = cat(s, ": ");
        let s = cat(s, self.typ.to_lang(problem).as_str());
        cat(s, opt_expr_text(problem, &self.expr).as_str())
    }
}

impl Function {
    /// How the function is written.
    pub fn to_lang(&self, problem: &Problem) -> (r: String)
        requires
            problem@.wf(),
            meth_types_valid_f(problem@, self@),
            opt_valid(problem@, self@.expr),
        ensures
            r@ == func_lang(problem@, self@),
    {
        let s = cat(String::from_str("let "), self.name.as_str());
        let s = cat(s, params_bracket_text(problem, &self.parameters).as_str());
        let s = cat(s, ": ");
        let s = cat(s, self.typ.to_lang(problem).as_str());
        cat(s, opt_expr_text(problem, &self.expr).as_str())
    }
}

impl Variable {
    /// How the variable is written.
    pub fn to_lang(&self, problem: &Problem) -> (r: String)
        requires
            problem@.wf(),
            type_valid(problem@, self@.typ),
            opt_valid(problem@, self@.expr),
        ensures
            r@ == var_lang(problem@, self@),
    {
        let s = cat(String::from_str("let "), self.name.as_str());
        let s = cat(s, ": ");
        let s = cat(s, self.typ.to_lang(problem).as_str());
        cat(s, opt_expr_text(problem, &self.expr).as_str())
    }
}

impl Constraint {
    /// How the constraint is written.
    pub fn to_lang(&self, problem: &Problem) -> (r: String)
        requires
            problem@.wf(),
            expr_valid(problem@, self@.expr),
        ensures
            r@ == cons_lang(problem@, self@),
    {
        let s = cat(String::from_str("constraint "), self.name.as_str());
        let s = cat(s, " = ");
        cat(s, self.expr.to_lang(problem).as_str())
    }
}

impl Bound {
    /// How the bound is written.
    pub fn to_text(&self) -> (r: String)
        ensures
            r@ == bound_lang(*self),
    {
        match self {
            Bound::Int(v) => isize_text(*v),
            Bound::Real(v) => v.to_text(),
        }
    }
}

impl Search {
    /// How what to search for is written.
    pub fn to_lang(&self, problem: &Problem) -> (r: String)
        requires
            problem@.wf(),
            self@ matches SpecSearch::Optimize(e, _, _) ==> expr_valid(problem@, e),
        ensures
            r@ == search_lang(problem@, self@),
    {
        match self {
            Search::Solve => String::from_str("solve\n"),
            Search::Optimize(e, b, minimize) => {
                let s = if *minimize {
                    String::from_str("minimize ")
                } else {
                    String::from_str("maximize ")
                };
                let s = cat(s, e.to_lang(problem).as_str());
                let s = cat(s, " until ");
                cat(s, b.to_text().as_str())
            },
        }
    }
}

/// The attributes, one line each.
fn attrs_text<T: Id>(problem: &Problem, v: &Vec<Attribute<T>>) -> (r: String)
    requires
        problem@.wf(),
        forall|i: int| 0 <= i < v.len() ==> type_valid(problem@, (#[trigger] attrs_view(v@)[i]).typ) && opt_valid(problem@, (#[trigger] attrs_view(v@)[i]).expr),
    ensures
        r@ == concat_map(attrs_view(v@), attr_line_fn(problem@), v.len() as nat),
{
    let ghost s = attrs_view(v@);
    let mut r = String::new();
    let mut i: usize = 0;
    while i < v.len()
        invariant
            problem@.wf(),
            i <= v.len(),
            s == attrs_view(v@),
            forall|k: int| 0 <= k < v.len() ==> type_valid(problem@, (#[trigger] s[k]).typ) && opt_valid(problem@, (#[trigger] s[k]).expr),
            r@ == concat_map(s, attr_line_fn(problem@), i as nat),
        decreases v.len() - i,
    {
        proof {
            assert(s[i as int] == v@[i as int]@);
        }
        let x = &v[i];
        let t = cat(x.to_lang(problem), "\n");
        r.append(t.as_str());
        i += 1;
    }
    r
}

/// The methods of a structure, each with a comment with its identifier.
fn struct_meths_text(problem: &Problem, v: &Vec<Method<StructureId>>) -> (r: String)
    requires
        problem@.wf(),
        forall|i: int| 0 <= i < v.len() ==> meth_types_valid(problem@, (#[trigger] meths_view(v@)[i])) && opt_valid(problem@, (#[trigger] meths_view(v@)[i]).expr),
    ensures
        r@ == concat_map(meths_view(v@), struct_meth_line_fn(problem@), v.len() as nat),
{
    let ghost s = meths_view(v@);
    let mut r = String::new();
    let mut i: usize = 0;
    while i < v.len()
        invariant
            problem@.wf(),
            i <= v.len(),
            s == meths_view(v@),
            forall|k: int| 0 <= k < v.len() ==> meth_types_valid(problem@, (#[trigger] s[k])) && opt_valid(problem@, (#[trigger] s[k]).expr),
            r@ == concat_map(s, struct_meth_line_fn(problem@), i as nat),
        decreases v.len() - i,
    {
        proof {
            assert(s[i as int] == v@[i as int]@);
        }
        let x = &v[i];
        let id = cat(String::from_str("StructureId("), usize_text(x.id.0.0).as_str());
        let id = cat(id, ")");
        let t = cat(x.to_lang(problem), "// MethodId(");
        let t = cat(t, id.as_str());
        let t = cat(t, ", ");
        let t = cat(t, usize_text(x.id.1).as_str());
        let t = cat(t, ")\n");
        r.append(t.as_str());
        i += 1;
    }
    r
}

/// The methods of a class, each with a comment with its identifier.
fn class_meths_text(problem: &Problem, v: &Vec<Method<ClassId>>) -> (r: String)
    requires
        problem@.wf(),
        forall|i: int| 0 <= i < v.len() ==> meth_types_valid(problem@, (#[trigger] meths_view(v@)[i])) && opt_valid(problem@, (#[trigger] meths_view(v@)[i]).expr),
    ensures
        r@ == concat_map(meths_view(v@), class_meth_line_fn(problem@), v.len() as nat),
{
    let ghost s = meths_view(v@);
    let mut r = String::new();
    let mut i: usize = 0;
    while i < v.len()
        invariant
            problem@.wf(),
            i <= v.len(),
            s == meths_view(v@),
            forall|k: int| 0 <= k < v.len() ==> meth_types_valid(problem@, (#[trigger] s[k])) && opt_valid(problem@, (#[trigger] s[k]).expr),
            r@ == concat_map(s, class_meth_line_fn(problem@), i as nat),
        decreases v.len() - i,
    {
        proof {
            assert(s[i as int] == v@[i as int]@);
        }
        let x = &v[i];
        let id = cat(String::from_str("ClassId("), usize_text(x.id.0.0).as_str());
        let id = cat(id, ")");
        let t = cat(x.to_lang(problem), "// MethodId(");
        let t = cat(t, id.as_str());
        let t = cat(t, ", ");
        let t = cat(t, usize_text(x.id.1).as_str());
        let t = cat(t, ")\n");
        r.append(t.as_str());
        i += 1;
    }
    r
}

/// A structure is ready to be written.
pub open spec fn struct_printable(p: SpecProblem, s: SpecStructure) -> bool {
    &&& struct_types_valid(p, s)
    &&& struct_exprs_valid(p, s)
}

/// A class is ready to be written.
pub open spec fn class_printable(p: SpecProblem, c: SpecClass) -> bool {
    &&& class_types_valid(p, c)
    &&& class_exprs_valid(p, c)
    &&& c.extends matches Some(t) ==> type_valid(p, t)
}

impl Structure {
    /// How the structure is written.
    pub fn to_lang(&self, problem: &Problem) -> (r: String)
        requires
            problem@.wf(),
            struct_printable(problem@, self@),
        ensures
            r@ == struct_lang(problem@, self@),
    {
        let s = cat(String::from_str("struct "), self.name.as_str());
        let s = cat(s, " {\n");
        let s = cat(s, attrs_text(problem, &self.attributes).as_str());
        let s = cat(s, struct_meths_text(problem, &self.methods).as_str());
        cat(s, "}\n")
    }
}

impl Class {
    /// How the class is written.
    pub fn to_lang(&self, problem: &Problem) -> (r: String)
        requires
            problem@.wf(),
            class_printable(problem@, self@),
        ensures
            r@ == class_lang(problem@, self@),
    {
        let s = cat(String::from_str("class "), self.name.as_str());
        let s = match &self.extends {
            Some(t) => {
                let s = cat(s, " extends ");
                cat(s, t.to_lang(problem).as_str())
            },
            None => s,
        };
        let s = cat(s, " {\n");
        let s = cat(s, attrs_text(problem, &self.attributes).as_str());
        let s = cat(s, class_meths_text(problem, &self.methods).as_str());
        cat(s, "}\n")
    }
}

/// The instances of type `t` are instances of the problem.
proof fn lemma_instances_of_type_valid(p: SpecProblem, s: Seq<SpecInstance>, t: SpecType)
    requires
        s.len() <= p.instances.len(),
        forall|k: int| 0 <= k < s.len() ==> #[trigger] s[k].id == InstanceId(k as usize),
    ensures
        forall|k: int| 0 <= k < instances_of_type(s, t).len() ==> (#[trigger] instances_of_type(s, t)[k]).0 < p.instances.len(),
    decreases s.len(),
{
    if s.len() > 0 {
        assert forall|k: int| 0 <= k < s.drop_last().len() implies #[trigger] s.drop_last()[k].id == InstanceId(k as usize) by {
            assert(s.drop_last()[k] == s[k]);
        }
        lemma_instances_of_type_valid(p, s.drop_last(), t);
        assert(s.last().id == InstanceId((s.len() - 1) as usize));
        let r = instances_of_type(s.drop_last(), t);
        if s.last().typ == t {
            assert forall|k: int| 0 <= k < r.push(s.last().id).len() implies (#[trigger] r.push(s.last().id)[k]).0 < p.instances.len() by {
                if k < r.len() {
                    assert(r.push(s.last().id)[k] == r[k]);
                }
            }
        }
    }
}

/// The line that declares the instances of type `t`, named by `owner`, if
/// any.
fn inst_line_text(problem: &Problem, t: &Type, owner: &str) -> (r: String)
    requires
        problem@.ids_wf(),
    ensures
        r@ == inst_line(problem@, instances_of_type(problem@.instances, t@), owner@),
{
    let ids = instances_of(problem, t);
    proof {
        lemma_instances_of_type_valid(problem@, problem@.instances, t@);
    }
    if ids.len() == 0 {
        return String::new();
    }
    let mut names: Vec<String> = Vec::new();
    let mut i: usize = 0;
    while i < ids.len()
        invariant
            problem@.ids_wf(),
            i <= ids.len(),
            ids@ == instances_of_type(problem@.instances, t@),
            forall|k: int| 0 <= k < ids.len() ==> (#[trigger] ids@[k]).0 < problem@.instances.len(),
            names@.len() == i,
            forall|k: int| 0 <= k < i ==> #[trigger] names@[k]@ == problem@.instances[ids@[k].0 as int].name,
        decreases ids.len() - i,
    {
        let inst = problem.get_instance(ids[i]).unwrap();
        names.push(inst.name.clone());
        i += 1;
    }
    proof {
        assert(names@.map_values(|x: String| x@) =~= names_of_instances(problem@, ids@));
    }
    let s = cat(String::from_str("inst "), join_strings(&names, ", ").as_str());
    let s = cat(s, ": ");
    let s = cat(s, owner);
    cat(s, "\n")
}

/// A structure with a comment with its identifier and the line of its
/// instances.
fn struct_block_text(problem: &Problem, x: &Structure) -> (r: String)
    requires
        problem@.wf(),
        struct_printable(problem@, x@),
    ensures
        r@ == struct_block_fn(problem@)(x@),
{
    let id = cat(String::from_str("StructureId("), usize_text(x.id.0).as_str());
    let id = cat(id, ")");
    let t = cat(String::from_str("// "), id.as_str());
    let t = cat(t, "\n");
    let t = cat(t, x.to_lang(problem).as_str());
    let t = cat(t, "\n");
    cat(t, inst_line_text(problem, &x.typ, x.name.as_str()).as_str())
}

/// A class with a comment with its identifier and the line of its own
/// instances.
fn class_block_text(problem: &Problem, x: &Class) -> (r: String)
    requires
        problem@.wf(),
        class_printable(problem@, x@),
    ensures
        r@ == class_block_fn(problem@)(x@),
{
    let id = cat(String::from_str("ClassId("), usize_text(x.id.0).as_str());
    let id = cat(id, ")");
    let t = cat(String::from_str("// "), id.as_str());
    let t = cat(t, "\n");
    let t = cat(t, x.to_lang(problem).as_str());
    let t = cat(t, "\n");
    cat(t, inst_line_text(problem, &x.typ, x.name.as_str()).as_str())
}

/// The structures, each with a comment with its identifier and the line of its instances.
fn structures_text(problem: &Problem, v: &Vec<Structure>) -> (r: String)
    requires
        problem@.wf(),
        forall|i: int| 0 <= i < v.len() ==> struct_printable(problem@, (#[trigger] structures_view(v@)[i])),
    ensures
        r@ == concat_map(structures_view(v@), struct_block_fn(problem@), v.len() as nat),
{
    let ghost s = structures_view(v@);
    let mut r = String::new();
    let mut i: usize = 0;
    while i < v.len()
        invariant
            problem@.wf(),
            i <= v.len(),
            s == structures_view(v@),
            forall|k: int| 0 <= k < v.len() ==> struct_printable(problem@, (#[trigger] s[k])),
            r@ == concat_map(s, struct_block_fn(problem@), i as nat),
        decreases v.len() - i,
    {
        proof {
            assert(s[i as int] == v@[i as int]@);
        }
        let x = &v[i];
        let t = struct_block_text(problem, x);
        r.append(t.as_str());
        i += 1;
    }
    r
}

/// The classes, each with a comment with its identifier and the line of its own instances.
fn classes_text(problem: &Problem, v: &Vec<Class>) -> (r: String)
    requires
        problem@.wf(),
        forall|i: int| 0 <= i < v.len() ==> class_printable(problem@, (#[trigger] classes_view(v@)[i])),
    ensures
        r@ == concat_map(classes_view(v@), class_block_fn(problem@), v.len() as nat),
{
    let ghost s = classes_view(v@);
    let mut r = String::new();
    let mut i: usize = 0;
    while i < v.len()
        invariant
            problem@.wf(),
            i <= v.len(),
            s == classes_view(v@),
            forall|k: int| 0 <= k < v.len() ==> class_printable(problem@, (#[trigger] s[k])),
            r@ == concat_map(s, class_block_fn(problem@), i as nat),
        decreases v.len() - i,
    {
        proof {
            assert(s[i as int] == v@[i as int]@);
        }
        let x = &v[i];
        let t = class_block_text(problem, x);
        r.append(t.as_str());
        i += 1;
    }
    r
}

/// The variables, one line each.
fn variables_text(problem: &Problem, v: &Vec<Variable>) -> (r: String)
    requires
        problem@.wf(),
        forall|i: int| 0 <= i < v.len() ==> type_valid(problem@, (#[trigger] variables_view(v@)[i]).typ) && opt_valid(problem@, (#[trigger] variables_view(v@)[i]).expr),
    ensures
        r@ == concat_map(variables_view(v@), var_line_fn(problem@), v.len() as nat),
{
    let ghost s = variables_view(v@);
    let mut r = String::new();
    let mut i: usize = 0;
    while i < v.len()
        invariant
            problem@.wf(),
            i <= v.len(),
            s == variables_view(v@),
            forall|k: int| 0 <= k < v.len() ==> type_valid(problem@, (#[trigger] s[k]).typ) && opt_valid(problem@, (#[trigger] s[k]).expr),
            r@ == concat_map(s, var_line_fn(problem@), i as nat),
        decreases v.len() - i,
    {
        proof {
            assert(s[i as int] == v@[i as int]@);
        }
        let x = &v[i];
        let t = cat(x.to_lang(problem), "\n");
        r.append(t.as_str());
        i += 1;
    }
    r
}

/// The functions, one line each.
fn functions_text(problem: &Problem, v: &Vec<Function>) -> (r: String)
    requires
        problem@.wf(),
        forall|i: int| 0 <= i < v.len() ==> meth_types_valid_f(problem@, (#[trigger] functions_view(v@)[i])) && opt_valid(problem@, (#[trigger] functions_view(v@)[i]).expr),
    ensures
        r@ == concat_map(functions_view(v@), func_line_fn(problem@), v.len() as nat),
{
    let ghost s = functions_view(v@);
    let mut r = String::new();
    let mut i: usize = 0;
    while i < v.len()
        invariant
            problem@.wf(),
            i <= v.len(),
            s == functions_view(v@),
            forall|k: int| 0 <= k < v.len() ==> meth_types_valid_f(problem@, (#[trigger] s[k])) && opt_valid(problem@, (#[trigger] s[k]).expr),
            r@ == concat_map(s, func_line_fn(problem@), i as nat),
        decreases v.len() - i,
    {
        proof {
            assert(s[i as int] == v@[i as int]@);
        }
        let x = &v[i];
        let t = cat(x.to_lang(problem), "\n");
        r.append(t.as_str());
        i += 1;
    }
    r
}

/// The constraints, one line each.
fn constraints_text(problem: &Problem, v: &Vec<Constraint>) -> (r: String)
    requires
        problem@.wf(),
        forall|i: int| 0 <= i < v.len() ==> expr_valid(problem@, (#[trigger] constraints_view(v@)[i]).expr),
    ensures
        r@ == concat_map(constraints_view(v@), cons_line_fn(problem@), v.len() as nat),
{
    let ghost s = constraints_view(v@);
    let mut r = String::new();
    let mut i: usize = 0;
    while i < v.len()
        invariant
            problem@.wf(),
            i <= v.len(),
            s == constraints_view(v@),
            forall|k: int| 0 <= k < v.len() ==> expr_valid(problem@, (#[trigger] s[k]).expr),
            r@ == concat_map(s, cons_line_fn(problem@), i as nat),
        decreases v.len() - i,
    {
        proof {
            assert(s[i as int] == v@[i as int]@);
        }
        let x = &v[i];
        let t = cat(x.to_lang(problem), "\n");
        r.append(t.as_str());
        i += 1;
    }
    r
}

impl Problem {
    /// How the problem is written: its structures and classes with their
    /// instances, its variables, functions, constraints, and what to search
    /// for.
    pub fn to_lang(&self) -> (r: String)
        requires
            problem_printable(self@),
        ensures
            r@ == problem_lang(self@),
    {
        let p = self;
        proof {
            lemma_decl_types_valid(p@);
            assert forall|i: int| 0 <= i < p@.structures.len() implies struct_printable(p@, #[trigger] p@.structures[i]) by {
                let s = p@.structures[i];
                assert forall|j: int| 0 <= j < s.attributes.len() implies opt_valid(p@, (#[trigger] s.attributes[j]).expr) by {
                    assert(opt_valid(p@, p@.structures[i].attributes[j].expr));
                }
                assert forall|j: int| 0 <= j < s.methods.len() implies opt_valid(p@, (#[trigger] s.methods[j]).expr) by {
                    assert(opt_valid(p@, p@.structures[i].methods[j].expr));
                }
            }
            assert forall|i: int| 0 <= i < p@.classes.len() implies class_printable(p@, #[trigger] p@.classes[i]) by {
                let c = p@.classes[i];
                assert forall|j: int| 0 <= j < c.attributes.len() implies opt_valid(p@, (#[trigger] c.attributes[j]).expr) by {
                    assert(opt_valid(p@, p@.classes[i].attributes[j].expr));
                }
                assert forall|j: int| 0 <= j < c.methods.len() implies opt_valid(p@, (#[trigger] c.methods[j]).expr) by {
                    assert(opt_valid(p@, p@.classes[i].methods[j].expr));
                }
                assert(p@.classes[i].extends matches Some(t) ==> type_valid(p@, t));
            }
        }
        let s = structures_text(p, &p.structures);
        let s = cat(s, classes_text(p, &p.classes).as_str());
        let s = cat(s, variables_text(p, &p.variables).as_str());
        let s = cat(s, functions_text(p, &p.functions).as_str());
        let s = cat(s, constraints_text(p, &p.constraints).as_str());
        let s = cat(s, p.search.to_lang(p).as_str());
        cat(s, "\n")
    }
}

} // verus!
