//! A solution of a problem: the values of the attributes and methods of the
//! instances, of the variables, of the functions and of the objective, and
//! how it is written.

use crate::problem::expression::to_lang::cat;
use crate::problem::function::Function;
use crate::problem::function::SpecFunction;
use crate::problem::ids::AttributeId;
use crate::problem::ids::ClassId;
use crate::problem::ids::Id;
use crate::problem::ids::InstanceId;
use crate::problem::ids::MethodId;
use crate::problem::ids::StructureId;
use crate::problem::lang::concat_map;
use crate::problem::lang::func_lang;
use crate::problem::lang::meth_lang;
use crate::problem::lang::var_lang;
use crate::problem::method::SpecMethod;
use crate::problem::problem::Problem;
use crate::problem::problem::SpecProblem;
use crate::problem::relations::type_lang;
use crate::problem::relations::type_valid;
use crate::problem::valid::params_valid;
use crate::problem::variable::SpecVariable;
use crate::problem::variable::Variable;
use crate::solution::value::Value;
use crate::solution::value::value_lang;
use crate::solution::value::value_ok;
use crate::solve::solve::objective;
use crate::text::join;
use vstd::string::*;
use vstd::prelude::*;

verus! {

/// The value of a function or a method for some arguments.
pub struct CallValue {
    pub parameters: Vec<Value>,
    pub value: Value,
}

/// The values of a function for every combination of arguments.
pub struct FunctionValue {
    pub calls: Vec<CallValue>,
}

/// The value of an attribute of an instance.
pub struct AttributeValue<T: Id> {
    pub id: AttributeId<T>,
    pub value: Value,
}

/// The values of a method of an instance for every combination of
/// arguments.
pub struct MethodValue<T: Id> {
    pub id: MethodId<T>,
    pub calls: Vec<CallValue>,
}

/// The attributes and methods of an instance of a structure.
pub struct StrucInstanceValue {
    pub id: InstanceId,
    pub attributes: Vec<AttributeValue<StructureId>>,
    pub methods: Vec<MethodValue<StructureId>>,
}

/// The instances of a structure.
pub struct StructureValue {
    pub id: StructureId,
    pub instances: Vec<StrucInstanceValue>,
}

/// The attributes and methods, own and inherited, of an instance of a
/// class.
pub struct ClassInstanceValue {
    pub id: InstanceId,
    pub attributes: Vec<AttributeValue<ClassId>>,
    pub methods: Vec<MethodValue<ClassId>>,
}

/// The instances of a class.
pub struct ClassValue {
    pub id: ClassId,
    pub instances: Vec<ClassInstanceValue>,
}

/// A solution: the structures and classes that have attributes or methods,
/// the value of each variable and of each function of the problem, in
/// order, and the value of the objective of an optimization.
pub struct Solution {
    pub structures: Vec<StructureValue>,
    pub classes: Vec<ClassValue>,
    pub variables: Vec<Value>,
    pub functions: Vec<FunctionValue>,
    pub objective: Option<Value>,
}

//---------- Texts ----------

/// The texts of a list of values.
pub open spec fn values_langs(p: SpecProblem, s: Seq<Value>) -> Seq<Seq<char>> {
    s.map_values(|v: Value| value_lang(p, v))
}

/// A call: its arguments between brackets, an arrow and its value.
pub open spec fn call_lang(p: SpecProblem, c: CallValue) -> Seq<char> {
    "    ("@ + join(values_langs(p, c.parameters@), ", "@) + ") -> "@ + value_lang(p, c.value)
}

pub open spec fn call_line_fn(p: SpecProblem) -> spec_fn(CallValue) -> Seq<char> {
    |c: CallValue| call_lang(p, c) + "\n"@
}

pub open spec fn meth_call_line_fn(p: SpecProblem) -> spec_fn(CallValue) -> Seq<char> {
    |c: CallValue| "        "@ + call_lang(p, c) + "\n"@
}

/// The calls of a function between braces, one a line.
pub open spec fn function_value_lang(p: SpecProblem, f: FunctionValue) -> Seq<char> {
    "{\n"@ + concat_map(f.calls@, call_line_fn(p), f.calls@.len()) + "}"@
}

/// An attribute of a structure: its name, its type and its value.
pub open spec fn struct_attr_value_lang(p: SpecProblem, a: AttributeValue<StructureId>) -> Seq<char> {
    p.struct_attr(a.id).name + ": "@ + type_lang(p, p.struct_attr(a.id).typ) + " = "@
        + value_lang(p, a.value)
}

/// An attribute of a class: its name, its type and its value.
pub open spec fn class_attr_value_lang(p: SpecProblem, a: AttributeValue<ClassId>) -> Seq<char> {
    p.class_attr(a.id).name + ": "@ + type_lang(p, p.class_attr(a.id).typ) + " = "@
        + value_lang(p, a.value)
}

/// A method of a structure, written without its definition, and its calls
/// between braces.
pub open spec fn struct_meth_value_lang(p: SpecProblem, m: MethodValue<StructureId>) -> Seq<char> {
    meth_lang(p, SpecMethod { expr: None, ..p.struct_meth(m.id) }) + " {\n"@ + concat_map(
        m.calls@,
        meth_call_line_fn(p),
        m.calls@.len(),
    ) + "        }"@
}

/// A method of a class, written without its definition, and its calls
/// between braces.
pub open spec fn class_meth_value_lang(p: SpecProblem, m: MethodValue<ClassId>) -> Seq<char> {
    meth_lang(p, SpecMethod { expr: None, ..p.class_meth(m.id) }) + " {\n"@ + concat_map(
        m.calls@,
        meth_call_line_fn(p),
        m.calls@.len(),
    ) + "        }"@
}

pub open spec fn struct_attr_line_fn(p: SpecProblem) -> spec_fn(AttributeValue<StructureId>) -> Seq<char> {
    |a: AttributeValue<StructureId>| "        "@ + struct_attr_value_lang(p, a) + "\n"@
}

pub open spec fn class_attr_line_fn(p: SpecProblem) -> spec_fn(AttributeValue<ClassId>) -> Seq<char> {
    |a: AttributeValue<ClassId>| "        "@ + class_attr_value_lang(p, a) + "\n"@
}

pub open spec fn struct_meth_line_fn2(p: SpecProblem) -> spec_fn(MethodValue<StructureId>) -> Seq<char> {
    |m: MethodValue<StructureId>| "    "@ + struct_meth_value_lang(p, m) + "\n"@
}

pub open spec fn class_meth_line_fn2(p: SpecProblem) -> spec_fn(MethodValue<ClassId>) -> Seq<char> {
    |m: MethodValue<ClassId>| "    "@ + class_meth_value_lang(p, m) + "\n"@
}

/// An instance of a structure, its attributes and its methods.
pub open spec fn struct_inst_lang(p: SpecProblem, i: StrucInstanceValue) -> Seq<char> {
    "    inst "@ + p.instances[i.id.0 as int].name + " {\n"@ + concat_map(
        i.attributes@,
        struct_attr_line_fn(p),
        i.attributes@.len(),
    ) + concat_map(i.methods@, struct_meth_line_fn2(p), i.methods@.len()) + "    }\n"@
}

/// An instance of a class, its attributes and its methods.
pub open spec fn class_inst_lang(p: SpecProblem, i: ClassInstanceValue) -> Seq<char> {
    "    inst "@ + p.instances[i.id.0 as int].name + " {\n"@ + concat_map(
        i.attributes@,
        class_attr_line_fn(p),
        i.attributes@.len(),
    ) + concat_map(i.methods@, class_meth_line_fn2(p), i.methods@.len()) + "    }\n"@
}

pub open spec fn struct_inst_fn(p: SpecProblem) -> spec_fn(StrucInstanceValue) -> Seq<char> {
    |i: StrucInstanceValue| struct_inst_lang(p, i)
}

pub open spec fn class_inst_fn(p: SpecProblem) -> spec_fn(ClassInstanceValue) -> Seq<char> {
    |i: ClassInstanceValue| class_inst_lang(p, i)
}

/// A structure and its instances.
pub open spec fn structure_value_lang(p: SpecProblem, s: StructureValue) -> Seq<char> {
    "struct "@ + p.structures[s.id.0 as int].name + " {\n"@ + concat_map(
        s.instances@,
        struct_inst_fn(p),
        s.instances@.len(),
    ) + "}\n"@
}

/// A class and its instances.
pub open spec fn class_value_lang(p: SpecProblem, c: ClassValue) -> Seq<char> {
    "class "@ + p.classes[c.id.0 as int].name + " {\n"@ + concat_map(
        c.instances@,
        class_inst_fn(p),
        c.instances@.len(),
    ) + "}\n"@
}

pub open spec fn structure_value_fn(p: SpecProblem) -> spec_fn(StructureValue) -> Seq<char> {
    |s: StructureValue| structure_value_lang(p, s)
}

pub open spec fn class_value_fn(p: SpecProblem) -> spec_fn(ClassValue) -> Seq<char> {
    |c: ClassValue| class_value_lang(p, c)
}

/// The first `n` variables, each written without its definition, with its
/// value.
pub open spec fn variables_value_lang(p: SpecProblem, v: Seq<Value>, n: nat) -> Seq<char>
    decreases n,
{
    if n == 0 || n > v.len() {
        seq![]
    } else {
        variables_value_lang(p, v, (n - 1) as nat) + var_lang(
            p,
            SpecVariable { expr: None, ..p.variables[n - 1] },
        ) + " = "@ + value_lang(p, v[n - 1]) + "\n"@
    }
}

/// The first `n` functions, each written without its definition, with its
/// values.
pub open spec fn functions_value_lang(p: SpecProblem, f: Seq<FunctionValue>, n: nat) -> Seq<char>
    decreases n,
{
    if n == 0 || n > f.len() {
        seq![]
    } else {
        functions_value_lang(p, f, (n - 1) as nat) + func_lang(
            p,
            SpecFunction { expr: None, ..p.functions[n - 1] },
        ) + " = "@ + function_value_lang(p, f[n - 1]) + "\n"@
    }
}

/// How a solution is written: the structures, the classes, the variables,
/// the functions, then the objective.
pub open spec fn solution_lang(p: SpecProblem, s: Solution) -> Seq<char> {
    concat_map(s.structures@, structure_value_fn(p), s.structures@.len()) + concat_map(
        s.classes@,
        class_value_fn(p),
        s.classes@.len(),
    ) + variables_value_lang(p, s.variables@, s.variables@.len()) + functions_value_lang(
        p,
        s.functions@,
        s.functions@.len(),
    ) + match s.objective {
        Some(v) => "objective = "@ + value_lang(p, v) + "\n"@,
        None => seq![],
    }
}

//---------- What can be written ----------

pub open spec fn call_ok(p: SpecProblem, c: CallValue) -> bool {
    &&& value_ok(p, c.value)
    &&& forall|i: int| 0 <= i < c.parameters@.len() ==> value_ok(p, #[trigger] c.parameters@[i])
}

pub open spec fn calls_ok(p: SpecProblem, s: Seq<CallValue>) -> bool {
    forall|i: int| 0 <= i < s.len() ==> call_ok(p, #[trigger] s[i])
}

pub open spec fn struct_inst_ok(p: SpecProblem, i: StrucInstanceValue) -> bool {
    &&& i.id.0 < p.instances.len()
    &&& forall|k: int|
        0 <= k < i.attributes@.len() ==> p.has_struct_attr((#[trigger] i.attributes@[k]).id)
            && value_ok(p, i.attributes@[k].value)
    &&& forall|k: int|
        0 <= k < i.methods@.len() ==> p.has_struct_meth((#[trigger] i.methods@[k]).id) && calls_ok(
            p,
            i.methods@[k].calls@,
        )
}

pub open spec fn class_inst_ok(p: SpecProblem, i: ClassInstanceValue) -> bool {
    &&& i.id.0 < p.instances.len()
    &&& forall|k: int|
        0 <= k < i.attributes@.len() ==> p.has_class_attr((#[trigger] i.attributes@[k]).id)
            && value_ok(p, i.attributes@[k].value)
    &&& forall|k: int|
        0 <= k < i.methods@.len() ==> p.has_class_meth((#[trigger] i.methods@[k]).id) && calls_ok(
            p,
            i.methods@[k].calls@,
        )
}

/// Every identifier of the solution names a declaration of the problem,
/// and it has one value for each variable and each function.
pub open spec fn solution_ok(p: SpecProblem, s: Solution) -> bool {
    &&& forall|i: int|
        #![trigger s.structures@[i]]
        0 <= i < s.structures@.len() ==> s.structures@[i].id.0 < p.structures.len() && (forall|
            k: int,
        |
            0 <= k < s.structures@[i].instances@.len() ==> struct_inst_ok(
                p,
                #[trigger] s.structures@[i].instances@[k],
            ))
    &&& forall|i: int|
        #![trigger s.classes@[i]]
        0 <= i < s.classes@.len() ==> s.classes@[i].id.0 < p.classes.len() && (forall|k: int|
            0 <= k < s.classes@[i].instances@.len() ==> class_inst_ok(
                p,
                #[trigger] s.classes@[i].instances@[k],
            ))
    &&& s.variables@.len() == p.variables.len()
    &&& forall|i: int| 0 <= i < s.variables@.len() ==> value_ok(p, #[trigger] s.variables@[i])
    &&& s.functions@.len() == p.functions.len()
    &&& forall|i: int| 0 <= i < s.functions@.len() ==> calls_ok(p, (#[trigger] s.functions@[i]).calls@)
    &&& s.objective matches Some(v) ==> value_ok(p, v)
}

//---------- Writing ----------

impl CallValue {
    /// How the call is written.
    pub fn to_lang(&self, problem: &Problem) -> (r: String)
        requires
            call_ok(problem@, *self),
        ensures
            r@ == call_lang(problem@, *self),
    {
        let ghost p = problem@;
        let mut list = String::new();
        let mut i: usize = 0;
        while i < self.parameters.len()
            invariant
                p == problem@,
                call_ok(p, *self),
                i <= self.parameters.len(),
                list@ == join(values_langs(p, self.parameters@.take(i as int)), ", "@),
            decreases self.parameters.len() - i,
        {
            let t = self.parameters[i].to_lang(problem);
            proof {
                let l2 = values_langs(p, self.parameters@.take(i + 1));
                assert(l2.drop_last() =~= values_langs(p, self.parameters@.take(i as int)));
                assert(l2.last() == t@);
                assert(l2.len() == i + 1);
            }
            if i > 0 {
                list.append(", ");
            }
            list.append(t.as_str());
            proof {
                if i == 0 {
                    assert(list@ == t@);
                }
            }
            i += 1;
        }
        proof {
            assert(self.parameters@.take(self.parameters.len() as int) == self.parameters@);
        }
        let s = cat(String::from_str("    ("), list.as_str());
        let s = cat(s, ") -> ");
        cat(s, self.value.to_lang(problem).as_str())
    }
}

/// The calls, one a line.
fn calls_lines(problem: &Problem, calls: &Vec<CallValue>) -> (r: String)
    requires
        calls_ok(problem@, calls@),
    ensures
        r@ == concat_map(calls@, call_line_fn(problem@), calls@.len()),
{
    let mut r = String::new();
    let mut i: usize = 0;
    while i < calls.len()
        invariant
            calls_ok(problem@, calls@),
            i <= calls.len(),
            r@ == concat_map(calls@, call_line_fn(problem@), i as nat),
        decreases calls.len() - i,
    {
        let t = cat(calls[i].to_lang(problem), "\n");
        r.append(t.as_str());
        i += 1;
    }
    r
}

/// The calls of a method, one a line.
fn meth_calls_lines(problem: &Problem, calls: &Vec<CallValue>) -> (r: String)
    requires
        calls_ok(problem@, calls@),
    ensures
        r@ == concat_map(calls@, meth_call_line_fn(problem@), calls@.len()),
{
    let mut r = String::new();
    let mut i: usize = 0;
    while i < calls.len()
        invariant
            calls_ok(problem@, calls@),
            i <= calls.len(),
            r@ == concat_map(calls@, meth_call_line_fn(problem@), i as nat),
        decreases calls.len() - i,
    {
        let t = cat(String::from_str("        "), calls[i].to_lang(problem).as_str());
        let t = cat(t, "\n");
        r.append(t.as_str());
        i += 1;
    }
    r
}

impl FunctionValue {
    /// How the values of the function are written.
    pub fn to_lang(&self, problem: &Problem) -> (r: String)
        requires
            calls_ok(problem@, self.calls@),
        ensures
            r@ == function_value_lang(problem@, *self),
    {
        let s = cat(String::from_str("{\n"), calls_lines(problem, &self.calls).as_str());
        cat(s, "}")
    }
}

impl AttributeValue<StructureId> {
    /// How the value of the attribute is written.
    pub fn to_lang(&self, problem: &Problem) -> (r: String)
        requires
            problem@.wf(),
            problem@.has_struct_attr(self.id),
            value_ok(problem@, self.value),
        ensures
            r@ == struct_attr_value_lang(problem@, *self),
    {
        let a = problem.get_struct_attribute(self.id);
        proof {
            assert(type_valid(problem@, problem@.structures[self.id.0.0 as int].attributes[self.id.1 as int].typ));
        }
        let s = cat(String::from_str(a.name()), ": ");
        let s = cat(s, a.typ().to_lang(problem).as_str());
        let s = cat(s, " = ");
        cat(s, self.value.to_lang(problem).as_str())
    }
}

impl AttributeValue<ClassId> {
    /// How the value of the attribute is written.
    pub fn to_lang(&self, problem: &Problem) -> (r: String)
        requires
            problem@.wf(),
            problem@.has_class_attr(self.id),
            value_ok(problem@, self.value),
        ensures
            r@ == class_attr_value_lang(problem@, *self),
    {
        let a = problem.get_class_attribute(self.id);
        proof {
            assert(type_valid(problem@, problem@.classes[self.id.0.0 as int].attributes[self.id.1 as int].typ));
        }
        let s = cat(String::from_str(a.name()), ": ");
        let s = cat(s, a.typ().to_lang(problem).as_str());
        let s = cat(s, " = ");
        cat(s, self.value.to_lang(problem).as_str())
    }
}

impl MethodValue<StructureId> {
    /// How the values of the method are written.
    pub fn to_lang(&self, problem: &Problem) -> (r: String)
        requires
            problem@.wf(),
            problem@.has_struct_meth(self.id),
            calls_ok(problem@, self.calls@),
        ensures
            r@ == struct_meth_value_lang(problem@, *self),
    {
        let mut m = problem.get_struct_method(self.id).copy();
        m.clear_expr();
        proof {
            let sm = problem@.structures[self.id.0.0 as int].methods[self.id.1 as int];
            assert(type_valid(problem@, sm.typ) && params_valid(problem@, sm.parameters));
        }
        let s = cat(m.to_lang(problem), " {\n");
        let s = cat(s, meth_calls_lines(problem, &self.calls).as_str());
        cat(s, "        }")
    }
}

impl MethodValue<ClassId> {
    /// How the values of the method are written.
    pub fn to_lang(&self, problem: &Problem) -> (r: String)
        requires
            problem@.wf(),
            problem@.has_class_meth(self.id),
            calls_ok(problem@, self.calls@),
        ensures
            r@ == class_meth_value_lang(problem@, *self),
    {
        let mut m = problem.get_class_method(self.id).copy();
        m.clear_expr();
        proof {
            let sm = problem@.classes[self.id.0.0 as int].methods[self.id.1 as int];
            assert(type_valid(problem@, sm.typ) && params_valid(problem@, sm.parameters));
        }
        let s = cat(m.to_lang(problem), " {\n");
        let s = cat(s, meth_calls_lines(problem, &self.calls).as_str());
        cat(s, "        }")
    }
}

impl StrucInstanceValue {
    /// How the instance is written, with its attributes and methods.
    pub fn to_lang(&self, problem: &Problem) -> (r: String)
        requires
            problem@.wf(),
            struct_inst_ok(problem@, *self),
        ensures
            r@ == struct_inst_lang(problem@, *self),
    {
        let ghost p = problem@;
        let inst = problem.get_instance(self.id).unwrap();
        let mut s = cat(String::from_str("    inst "), inst.name());
        s = cat(s, " {\n");
        let ghost head = s@;
        let mut i: usize = 0;
        while i < self.attributes.len()
            invariant
                p == problem@,
                p.wf(),
                struct_inst_ok(p, *self),
                i <= self.attributes.len(),
                s@ == head + concat_map(self.attributes@, struct_attr_line_fn(p), i as nat),
            decreases self.attributes.len() - i,
        {
            let t = cat(String::from_str("        "), self.attributes[i].to_lang(problem).as_str());
            let t = cat(t, "\n");
            s.append(t.as_str());
            i += 1;
        }
        let ghost mid = s@;
        let mut j: usize = 0;
        while j < self.methods.len()
            invariant
                p == problem@,
                p.wf(),
                struct_inst_ok(p, *self),
                j <= self.methods.len(),
                s@ == mid + concat_map(self.methods@, struct_meth_line_fn2(p), j as nat),
            decreases self.methods.len() - j,
        {
            let t = cat(String::from_str("    "), self.methods[j].to_lang(problem).as_str());
            let t = cat(t, "\n");
            s.append(t.as_str());
            j += 1;
        }
        cat(s, "    }\n")
    }
}

impl ClassInstanceValue {
    /// How the instance is written, with its attributes and methods.
    pub fn to_lang(&self, problem: &Problem) -> (r: String)
        requires
            problem@.wf(),
            class_inst_ok(problem@, *self),
        ensures
            r@ == class_inst_lang(problem@, *self),
    {
        let ghost p = problem@;
        let inst = problem.get_instance(self.id).unwrap();
        let mut s = cat(String::from_str("    inst "), inst.name());
        s = cat(s, " {\n");
        let ghost head = s@;
        let mut i: usize = 0;
        while i < self.attributes.len()
            invariant
                p == problem@,
                p.wf(),
                class_inst_ok(p, *self),
                i <= self.attributes.len(),
                s@ == head + concat_map(self.attributes@, class_attr_line_fn(p), i as nat),
            decreases self.attributes.len() - i,
        {
            let t = cat(String::from_str("        "), self.attributes[i].to_lang(problem).as_str());
            let t = cat(t, "\n");
            s.append(t.as_str());
            i += 1;
        }
        let ghost mid = s@;
        let mut j: usize = 0;
        while j < self.methods.len()
            invariant
                p == problem@,
                p.wf(),
                class_inst_ok(p, *self),
                j <= self.methods.len(),
                s@ == mid + concat_map(self.methods@, class_meth_line_fn2(p), j as nat),
            decreases self.methods.len() - j,
        {
            let t = cat(String::from_str("    "), self.methods[j].to_lang(problem).as_str());
            let t = cat(t, "\n");
            s.append(t.as_str());
            j += 1;
        }
        cat(s, "    }\n")
    }
}

impl StructureValue {
    /// How the structure is written, with its instances.
    pub fn to_lang(&self, problem: &Problem) -> (r: String)
        requires
            problem@.wf(),
            self.id.0 < problem@.structures.len(),
            forall|k: int| 0 <= k < self.instances@.len() ==> struct_inst_ok(problem@, #[trigger] self.instances@[k]),
        ensures
            r@ == structure_value_lang(problem@, *self),
    {
        let ghost p = problem@;
        let st = &problem.structures()[self.id.0];
        proof {
            assert(st@ == p.structures[self.id.0 as int]);
        }
        let mut s = cat(String::from_str("struct "), st.name());
        s = cat(s, " {\n");
        let ghost head = s@;
        let mut i: usize = 0;
        while i < self.instances.len()
            invariant
                p == problem@,
                p.wf(),
                forall|k: int| 0 <= k < self.instances@.len() ==> struct_inst_ok(p, #[trigger] self.instances@[k]),
                i <= self.instances.len(),
                s@ == head + concat_map(self.instances@, struct_inst_fn(p), i as nat),
            decreases self.instances.len() - i,
        {
            let t = self.instances[i].to_lang(problem);
            s.append(t.as_str());
            i += 1;
        }
        cat(s, "}\n")
    }
}

impl ClassValue {
    /// How the class is written, with its instances.
    pub fn to_lang(&self, problem: &Problem) -> (r: String)
        requires
            problem@.wf(),
            self.id.0 < problem@.classes.len(),
            forall|k: int| 0 <= k < self.instances@.len() ==> class_inst_ok(problem@, #[trigger] self.instances@[k]),
        ensures
            r@ == class_value_lang(problem@, *self),
    {
        let ghost p = problem@;
        let cl = &problem.classes()[self.id.0];
        proof {
            assert(cl@ == p.classes[self.id.0 as int]);
        }
        let mut s = cat(String::from_str("class "), cl.name());
        s = cat(s, " {\n");
        let ghost head = s@;
        let mut i: usize = 0;
        while i < self.instances.len()
            invariant
                p == problem@,
                p.wf(),
                forall|k: int| 0 <= k < self.instances@.len() ==> class_inst_ok(p, #[trigger] self.instances@[k]),
                i <= self.instances.len(),
                s@ == head + concat_map(self.instances@, class_inst_fn(p), i as nat),
            decreases self.instances.len() - i,
        {
            let t = self.instances[i].to_lang(problem);
            s.append(t.as_str());
            i += 1;
        }
        cat(s, "}\n")
    }
}

/// The structures of a solution.
fn structures_text(problem: &Problem, sol: &Solution) -> (r: String)
    requires
        problem@.wf(),
        solution_ok(problem@, *sol),
    ensures
        r@ == concat_map(sol.structures@, structure_value_fn(problem@), sol.structures@.len()),
{
    let ghost p = problem@;
    let mut s = String::new();
    let mut i: usize = 0;
    while i < sol.structures.len()
        invariant
            p == problem@,
            p.wf(),
            solution_ok(p, *sol),
            i <= sol.structures.len(),
            s@ == concat_map(sol.structures@, structure_value_fn(p), i as nat),
        decreases sol.structures.len() - i,
    {
        proof {
            assert(sol.structures@[i as int].id.0 < p.structures.len());
        }
        let t = sol.structures[i].to_lang(problem);
        s.append(t.as_str());
        i += 1;
    }
    s
}

/// The classes of a solution.
fn classes_text(problem: &Problem, sol: &Solution) -> (r: String)
    requires
        problem@.wf(),
        solution_ok(problem@, *sol),
    ensures
        r@ == concat_map(sol.classes@, class_value_fn(problem@), sol.classes@.len()),
{
    let ghost p = problem@;
    let mut s = String::new();
    let mut i: usize = 0;
    while i < sol.classes.len()
        invariant
            p == problem@,
            p.wf(),
            solution_ok(p, *sol),
            i <= sol.classes.len(),
            s@ == concat_map(sol.classes@, class_value_fn(p), i as nat),
        decreases sol.classes.len() - i,
    {
        proof {
            assert(sol.classes@[i as int].id.0 < p.classes.len());
        }
        let t = sol.classes[i].to_lang(problem);
        s.append(t.as_str());
        i += 1;
    }
    s
}

/// The variables of a solution, with their values.
fn variables_text(problem: &Problem, sol: &Solution) -> (r: String)
    requires
        problem@.wf(),
        problem@.exprs_resolved(),
        solution_ok(problem@, *sol),
    ensures
        r@ == variables_value_lang(problem@, sol.variables@, sol.variables@.len()),
{
    let ghost p = problem@;
    let mut s = String::new();
    let vars = problem.variables();
    let mut i: usize = 0;
    while i < sol.variables.len()
        invariant
            p == problem@,
            p.wf(),
            p.exprs_resolved(),
            solution_ok(p, *sol),
            vars@.map_values(|x: Variable| x@) == p.variables,
            i <= sol.variables.len(),
            s@ == variables_value_lang(p, sol.variables@, i as nat),
        decreases sol.variables.len() - i,
    {
        let mut v = vars[i].copy();
        v.set_expr(None);
        proof {
            assert(vars@[i as int]@ == p.variables[i as int]);
            assert(type_valid(p, p.variables[i as int].typ));
            assert(value_ok(p, sol.variables@[i as int]));
        }
        let t = cat(v.to_lang(problem), " = ");
        let t = cat(t, sol.variables[i].to_lang(problem).as_str());
        let t = cat(t, "\n");
        s.append(t.as_str());
        i += 1;
    }
    s
}

/// The functions of a solution, with their values.
fn functions_text(problem: &Problem, sol: &Solution) -> (r: String)
    requires
        problem@.wf(),
        problem@.exprs_resolved(),
        solution_ok(problem@, *sol),
    ensures
        r@ == functions_value_lang(problem@, sol.functions@, sol.functions@.len()),
{
    let ghost p = problem@;
    let mut s = String::new();
    let funs = problem.functions();
    let mut i: usize = 0;
    while i < sol.functions.len()
        invariant
            p == problem@,
            p.wf(),
            p.exprs_resolved(),
            solution_ok(p, *sol),
            funs@.map_values(|x: Function| x@) == p.functions,
            i <= sol.functions.len(),
            s@ == functions_value_lang(p, sol.functions@, i as nat),
        decreases sol.functions.len() - i,
    {
        let mut f = funs[i].copy();
        f.set_expr(None);
        proof {
            assert(funs@[i as int]@ == p.functions[i as int]);
            assert(type_valid(p, p.functions[i as int].typ));
            assert(params_valid(p, p.functions[i as int].parameters));
            assert(calls_ok(p, sol.functions@[i as int].calls@));
        }
        let t = cat(f.to_lang(problem), " = ");
        let t = cat(t, sol.functions[i].to_lang(problem).as_str());
        let t = cat(t, "\n");
        s.append(t.as_str());
        i += 1;
    }
    s
}

impl Solution {
    /// How the solution is written.
    pub fn to_lang(&self, problem: &Problem) -> (r: String)
        requires
            problem@.wf(),
            problem@.exprs_resolved(),
            solution_ok(problem@, *self),
        ensures
            r@ == solution_lang(problem@, *self),
    {
        let s = structures_text(problem, self);
        let s = cat(s, classes_text(problem, self).as_str());
        let s = cat(s, variables_text(problem, self).as_str());
        let s = cat(s, functions_text(problem, self).as_str());
        match &self.objective {
            Some(v) => {
                let t = cat(String::from_str("objective = "), v.to_lang(problem).as_str());
                cat(s, cat(t, "\n").as_str())
            },
            None => s,
        }
    }
}

} // verus!
