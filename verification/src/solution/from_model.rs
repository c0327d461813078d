//! A solution built from the values that the solver's model gives: what is
//! asked of the model, for which expressions, and where each answer goes.

use crate::problem::attribute::attr_ids;
use crate::problem::attribute::attrs_view;
use crate::problem::class::Class;
use crate::problem::class::SpecClass;
use crate::problem::expression::expr::Expr;
use crate::problem::expression::expr::SpecExpr;
use crate::problem::expression::expr::copy_exprs;
use crate::problem::expression::expr::exprs_view;
use crate::problem::expression::expr::lemma_exprs_view;
use crate::problem::function::Function;
use crate::problem::hierarchy::chain;
use crate::problem::hierarchy::spec_super_classes;
use crate::problem::hierarchy2::attributes_of;
use crate::problem::hierarchy2::instances_of_type;
use crate::problem::hierarchy2::lemma_super_classes_valid;
use crate::problem::hierarchy2::methods_of;
use crate::problem::ids::AttributeId;
use crate::problem::ids::ClassId;
use crate::problem::ids::FunctionId;
use crate::problem::ids::InstanceId;
use crate::problem::ids::MethodId;
use crate::problem::ids::StructureId;
use crate::problem::instance::Instance;
use crate::problem::method::Method;
use crate::problem::method::SpecMethod;
use crate::problem::method::meth_ids;
use crate::problem::method::meths_view;
use crate::problem::parameter::Parameter;
use crate::problem::parameter::params_view;
use crate::problem::problem::Problem;
use crate::problem::problem::SpecProblem;
use crate::problem::search::Search;
use crate::problem::search::SpecSearch;
use crate::problem::structure::SpecStructure;
use crate::problem::structure::Structure;
use crate::problem::valid::params_valid;
use crate::problem::variable::Variable;
use crate::solution::solution::AttributeValue;
use crate::solution::solution::CallValue;
use crate::solution::solution::ClassInstanceValue;
use crate::solution::solution::ClassValue;
use crate::solution::solution::FunctionValue;
use crate::solution::solution::MethodValue;
use crate::solution::solution::Solution;
use crate::solution::solution::StrucInstanceValue;
use crate::solution::solution::StructureValue;
use crate::solution::value::Value;
use crate::solve::combine::combinations;
use crate::solve::combine::combos_from;
use crate::solve::combine::combos_view;
use crate::solve::solve::init;
use crate::solve::solve::objective;
use vstd::prelude::*;

verus! {

/// `v` is what the model gives for expression `e`.
pub open spec fn evaluates<F: Fn(&Expr) -> Value>(eval: F, e: Expr, v: Value) -> bool {
    call_ensures(eval, (&e,), v)
}

/// The model answers for every expression.
pub open spec fn total<F: Fn(&Expr) -> Value>(eval: F) -> bool {
    forall|e: &Expr| call_requires(eval, (e,))
}

/// `v` is what the model gave for an expression whose content is `e`.
pub open spec fn gives<F: Fn(&Expr) -> Value>(eval: F, e: SpecExpr, v: Value) -> bool {
    exists|x: Expr| x@ == e && #[trigger] evaluates(eval, x, v)
}

/// `c` holds what the model gives for the arguments `args` and for the
/// call `call` made with them.
pub open spec fn call_gives<F: Fn(&Expr) -> Value>(
    eval: F,
    args: Seq<SpecExpr>,
    call: SpecExpr,
    c: CallValue,
) -> bool {
    &&& c.parameters@.len() == args.len()
    &&& forall|j: int| 0 <= j < args.len() ==> gives(eval, args[j], #[trigger] c.parameters@[j])
    &&& gives(eval, call, c.value)
}

/// What is called: a function, or a method of an instance.
pub enum CallOf {
    Function(FunctionId),
    StrucMethod(InstanceId, MethodId<StructureId>),
    ClassMethod(InstanceId, MethodId<ClassId>),
}

/// The call of `k` with the arguments `args`.
pub open spec fn call_expr(k: CallOf, args: Seq<SpecExpr>) -> SpecExpr {
    match k {
        CallOf::Function(f) => SpecExpr::FunctionCall(f, args, None),
        CallOf::StrucMethod(i, m) => SpecExpr::StrucMetCall(
            Box::new(SpecExpr::Instance(i, None)),
            m,
            args,
            None,
        ),
        CallOf::ClassMethod(i, m) => SpecExpr::ClassMetCall(
            Box::new(SpecExpr::Instance(i, None)),
            m,
            args,
            None,
        ),
    }
}

/// `calls` holds what the model gives for the calls of `k`, one for each
/// combination of arguments `combos`, in order.
pub open spec fn calls_give<F: Fn(&Expr) -> Value>(
    eval: F,
    k: CallOf,
    combos: Seq<Seq<SpecExpr>>,
    calls: Seq<CallValue>,
) -> bool {
    &&& calls.len() == combos.len()
    &&& forall|n: int|
        0 <= n < calls.len() ==> call_gives(eval, combos[n], call_expr(k, combos[n]), #[trigger] calls[n])
}

/// The call of `k` with the arguments `args`.
pub fn make_call(k: &CallOf, args: Vec<Expr>) -> (r: Expr)
    ensures
        r@ == call_expr(*k, exprs_view(args@)),
{
    let r = match k {
        CallOf::Function(f) => Expr::FunctionCall(*f, args, None),
        CallOf::StrucMethod(i, m) => {
            let x = Expr::Instance(*i, None);
            assert(x@ == SpecExpr::Instance(*i, None));
            Expr::StrucMetCall(Box::new(x), *m, args, None)
        },
        CallOf::ClassMethod(i, m) => {
            let x = Expr::Instance(*i, None);
            assert(x@ == SpecExpr::Instance(*i, None));
            Expr::ClassMetCall(Box::new(x), *m, args, None)
        },
    };
    r
}

impl CallValue {
    /// The values that the model gives for the arguments `parameters`, then
    /// for the call `value` made with them.
    pub fn new<F: Fn(&Expr) -> Value>(eval: &F, parameters: &Vec<Expr>, value: &Expr) -> (r: CallValue)
        requires
            total(*eval),
        ensures
            call_gives(*eval, exprs_view(parameters@), value@, r),
    {
        proof {
            lemma_exprs_view(parameters@);
        }
        let mut vals: Vec<Value> = Vec::new();
        let mut i: usize = 0;
        while i < parameters.len()
            invariant
                total(*eval),
                i <= parameters.len(),
                vals@.len() == i,
                exprs_view(parameters@).len() == parameters@.len(),
                forall|j: int| 0 <= j < parameters@.len() ==> #[trigger] exprs_view(parameters@)[j] == parameters@[j]@,
                forall|j: int| 0 <= j < i ==> gives(*eval, exprs_view(parameters@)[j], #[trigger] vals@[j]),
            decreases parameters.len() - i,
        {
            let v = eval(&parameters[i]);
            proof {
                assert(evaluates(*eval, parameters@[i as int], v));
            }
            vals.push(v);
            i += 1;
        }
        let v = eval(value);
        proof {
            assert(evaluates(*eval, *value, v));
        }
        CallValue { parameters: vals, value: v }
    }
}

/// The values of the calls of `k`, for each combination of values of the
/// parameters `ps`, the first parameter varying slowest.
pub fn calls_of<F: Fn(&Expr) -> Value>(problem: &Problem, eval: &F, ps: &Vec<Parameter>, k: &CallOf) -> (r: Vec<CallValue>)
    requires
        problem@.wf(),
        params_valid(problem@, params_view(ps@)),
        total(*eval),
    ensures
        calls_give(*eval, *k, combos_from(problem@, params_view(ps@), 0), r@),
{
    let mut combos = combinations(problem, ps, 0);
    let ghost all = combos@;
    let size = combos.len();
    let ghost target = combos_from(problem@, params_view(ps@), 0);
    let mut calls: Vec<CallValue> = Vec::new();
    let mut n: usize = 0;
    while combos.len() > 0
        invariant
            total(*eval),
            combos_view(all) == target,
            n <= all.len(),
            all.len() == size,
            combos@ == all.skip(n as int),
            calls@.len() == n,
            forall|j: int|
                0 <= j < n ==> call_gives(*eval, target[j], call_expr(*k, target[j]), #[trigger] calls@[j]),
        decreases combos.len(),
    {
        let args = combos.remove(0);
        proof {
            assert(args == all[n as int]);
            assert(combos@ =~= all.skip(n + 1));
            assert(exprs_view(args@) == target[n as int]);
        }
        let call = make_call(k, copy_exprs(&args));
        let c = CallValue::new(eval, &args, &call);
        calls.push(c);
        n += 1;
    }
    calls
}

impl FunctionValue {
    /// The values of function `f` of the problem, for each combination of
    /// values of its parameters.
    pub fn new<F: Fn(&Expr) -> Value>(problem: &Problem, eval: &F, f: &Function) -> (r: FunctionValue)
        requires
            problem@.wf(),
            params_valid(problem@, f@.parameters),
            total(*eval),
        ensures
            calls_give(*eval, CallOf::Function(f.id), combos_from(problem@, f@.parameters, 0), r.calls@),
    {
        FunctionValue { calls: calls_of(problem, eval, f.parameters(), &CallOf::Function(f.id())) }
    }
}

//---------- Attributes and methods of instances ----------

/// The instance `i` as an expression.
pub open spec fn inst_expr(i: InstanceId) -> SpecExpr {
    SpecExpr::Instance(i, None)
}

/// `a` holds what the model gives for attribute `id` of structure
/// instance `i`.
pub open spec fn struc_attr_gives<F: Fn(&Expr) -> Value>(
    eval: F,
    i: InstanceId,
    id: AttributeId<StructureId>,
    a: AttributeValue<StructureId>,
) -> bool {
    &&& a.id == id
    &&& gives(eval, SpecExpr::StrucAttribute(Box::new(inst_expr(i)), id, None), a.value)
}

/// `a` holds what the model gives for attribute `id` of class instance
/// `i`.
pub open spec fn class_attr_gives<F: Fn(&Expr) -> Value>(
    eval: F,
    i: InstanceId,
    id: AttributeId<ClassId>,
    a: AttributeValue<ClassId>,
) -> bool {
    &&& a.id == id
    &&& gives(eval, SpecExpr::ClassAttribute(Box::new(inst_expr(i)), id, None), a.value)
}

/// `v` holds what the model gives for the calls of method `m` of
/// structure instance `i`.
pub open spec fn struc_meth_gives<F: Fn(&Expr) -> Value>(
    p: SpecProblem,
    eval: F,
    i: InstanceId,
    m: SpecMethod<StructureId>,
    v: MethodValue<StructureId>,
) -> bool {
    &&& v.id == m.id
    &&& calls_give(eval, CallOf::StrucMethod(i, m.id), combos_from(p, m.parameters, 0), v.calls@)
}

/// `v` holds what the model gives for the calls of method `m` of class
/// instance `i`.
pub open spec fn class_meth_gives<F: Fn(&Expr) -> Value>(
    p: SpecProblem,
    eval: F,
    i: InstanceId,
    m: SpecMethod<ClassId>,
    v: MethodValue<ClassId>,
) -> bool {
    &&& v.id == m.id
    &&& calls_give(eval, CallOf::ClassMethod(i, m.id), combos_from(p, m.parameters, 0), v.calls@)
}

impl AttributeValue<StructureId> {
    /// The value of attribute `attribute` of structure instance `instance`.
    pub fn new<F: Fn(&Expr) -> Value>(eval: &F, instance: InstanceId, attribute: AttributeId<StructureId>) -> (r: AttributeValue<StructureId>)
        requires
            total(*eval),
        ensures
            struc_attr_gives(*eval, instance, attribute, r),
    {
        let x = Expr::Instance(instance, None);
        assert(x@ == inst_expr(instance));
        let e = Expr::StrucAttribute(Box::new(x), attribute, None);
        let value = eval(&e);
        proof {
            assert(evaluates(*eval, e, value));
        }
        AttributeValue { id: attribute, value }
    }
}

impl AttributeValue<ClassId> {
    /// The value of attribute `attribute` of class instance `instance`.
    pub fn new<F: Fn(&Expr) -> Value>(eval: &F, instance: InstanceId, attribute: AttributeId<ClassId>) -> (r: AttributeValue<ClassId>)
        requires
            total(*eval),
        ensures
            class_attr_gives(*eval, instance, attribute, r),
    {
        let x = Expr::Instance(instance, None);
        assert(x@ == inst_expr(instance));
        let e = Expr::ClassAttribute(Box::new(x), attribute, None);
        let value = eval(&e);
        proof {
            assert(evaluates(*eval, e, value));
        }
        AttributeValue { id: attribute, value }
    }
}

impl MethodValue<StructureId> {
    /// The values of method `method` of structure instance `instance`, for
    /// each combination of values of its parameters.
    pub fn new<F: Fn(&Expr) -> Value>(problem: &Problem, eval: &F, instance: InstanceId, method: &Method<StructureId>) -> (r: MethodValue<StructureId>)
        requires
            problem@.wf(),
            params_valid(problem@, method@.parameters),
            total(*eval),
        ensures
            struc_meth_gives(problem@, *eval, instance, method@, r),
    {
        let k = CallOf::StrucMethod(instance, method.id());
        MethodValue { id: method.id(), calls: calls_of(problem, eval, method.parameters(), &k) }
    }
}

impl MethodValue<ClassId> {
    /// The values of method `method` of class instance `instance`, for each
    /// combination of values of its parameters.
    pub fn new<F: Fn(&Expr) -> Value>(problem: &Problem, eval: &F, instance: InstanceId, method: &Method<ClassId>) -> (r: MethodValue<ClassId>)
        requires
            problem@.wf(),
            params_valid(problem@, method@.parameters),
            total(*eval),
        ensures
            class_meth_gives(problem@, *eval, instance, method@, r),
    {
        let k = CallOf::ClassMethod(instance, method.id());
        MethodValue { id: method.id(), calls: calls_of(problem, eval, method.parameters(), &k) }
    }
}

//---------- Instances ----------

/// `v` holds what the model gives for the attributes and methods of
/// structure `s` at its instance `i`, in the order of their declaration.
pub open spec fn struc_instance_gives<F: Fn(&Expr) -> Value>(
    p: SpecProblem,
    eval: F,
    s: SpecStructure,
    i: InstanceId,
    v: StrucInstanceValue,
) -> bool {
    &&& v.id == i
    &&& v.attributes@.len() == s.attributes.len()
    &&& forall|n: int|
        0 <= n < s.attributes.len() ==> struc_attr_gives(eval, i, s.attributes[n].id, #[trigger] v.attributes@[n])
    &&& v.methods@.len() == s.methods.len()
    &&& forall|n: int|
        0 <= n < s.methods.len() ==> struc_meth_gives(p, eval, i, s.methods[n], #[trigger] v.methods@[n])
}

/// The classes whose attributes and methods an instance of `c` has: its
/// super classes, farthest first, then `c`.
pub open spec fn class_chain(p: SpecProblem, c: SpecClass) -> Seq<ClassId> {
    spec_super_classes(p, c).push(c.id)
}

/// `v` holds what the model gives for the attributes and methods, own and
/// inherited, of class `c` at its instance `i`, in the order of the
/// classes, farthest first.
pub open spec fn class_instance_gives<F: Fn(&Expr) -> Value>(
    p: SpecProblem,
    eval: F,
    c: SpecClass,
    i: InstanceId,
    v: ClassInstanceValue,
) -> bool {
    let attrs = attributes_of(p, class_chain(p, c));
    let meths = methods_of(p, class_chain(p, c));
    &&& v.id == i
    &&& v.attributes@.len() == attrs.len()
    &&& forall|n: int| 0 <= n < attrs.len() ==> class_attr_gives(eval, i, attrs[n], #[trigger] v.attributes@[n])
    &&& v.methods@.len() == meths.len()
    &&& forall|n: int|
        0 <= n < meths.len() ==> class_meth_gives(p, eval, i, p.class_meth(meths[n]), #[trigger] v.methods@[n])
}

/// The methods of the classes `cs` of a problem are methods of the problem.
pub proof fn lemma_methods_of_valid(p: SpecProblem, cs: Seq<ClassId>)
    requires
        p.ids_wf(),
        forall|k: int| 0 <= k < cs.len() ==> #[trigger] cs[k].0 < p.classes.len(),
    ensures
        forall|n: int| 0 <= n < methods_of(p, cs).len() ==> p.has_class_meth(#[trigger] methods_of(p, cs)[n]),
        forall|n: int|
            0 <= n < methods_of(p, cs).len() ==> p.class_meth(#[trigger] methods_of(p, cs)[n]).id == methods_of(p, cs)[n],
    decreases cs.len(),
{
    if cs.len() > 0 {
        let init = cs.drop_last();
        lemma_methods_of_valid(p, init);
        let c = cs.last();
        assert(cs[cs.len() - 1].0 < p.classes.len());
        let ms = p.classes[c.0 as int].methods;
        assert(p.classes[c.0 as int].id == c);
        let ids = ms.map_values(|m: SpecMethod<ClassId>| m.id);
        assert forall|n: int| 0 <= n < methods_of(p, cs).len() implies p.has_class_meth(#[trigger] methods_of(p, cs)[n])
            && p.class_meth(methods_of(p, cs)[n]).id == methods_of(p, cs)[n] by {
            if n >= methods_of(p, init).len() {
                let j = n - methods_of(p, init).len();
                assert(methods_of(p, cs)[n] == ids[j]);
                assert(ms[j].id == MethodId(ClassId(c.0 as usize), j as usize));
            } else {
                assert(methods_of(p, cs)[n] == methods_of(p, init)[n]);
            }
        }
    }
}

impl StrucInstanceValue {
    /// The values of the attributes and methods of structure `structure` at
    /// its instance `instance`.
    pub fn new<F: Fn(&Expr) -> Value>(problem: &Problem, eval: &F, structure: StructureId, instance: InstanceId) -> (r: StrucInstanceValue)
        requires
            problem@.wf(),
            structure.0 < problem@.structures.len(),
            total(*eval),
        ensures
            struc_instance_gives(problem@, *eval, problem@.structures[structure.0 as int], instance, r),
    {
        let s = problem.get_structure(structure).unwrap();
        let ghost sv = s@;
        let attrs = s.attributes();
        let mut attributes: Vec<AttributeValue<StructureId>> = Vec::new();
        let mut n: usize = 0;
        while n < attrs.len()
            invariant
                total(*eval),
                n <= attrs.len(),
                attrs_view(attrs@) == sv.attributes,
                attributes@.len() == n,
                forall|j: int| 0 <= j < n ==> struc_attr_gives(*eval, instance, sv.attributes[j].id, #[trigger] attributes@[j]),
            decreases attrs.len() - n,
        {
            proof {
                assert(attrs@[n as int]@ == sv.attributes[n as int]);
            }
            attributes.push(AttributeValue::<StructureId>::new(eval, instance, attrs[n].id()));
            n += 1;
        }
        let meths = s.methods();
        let mut methods: Vec<MethodValue<StructureId>> = Vec::new();
        let mut n: usize = 0;
        while n < meths.len()
            invariant
                problem@.wf(),
                s@ == sv,
                sv == problem@.structures[structure.0 as int],
                structure.0 < problem@.structures.len(),
                total(*eval),
                n <= meths.len(),
                meths_view(meths@) == sv.methods,
                methods@.len() == n,
                forall|j: int| 0 <= j < n ==> struc_meth_gives(problem@, *eval, instance, sv.methods[j], #[trigger] methods@[j]),
            decreases meths.len() - n,
        {
            proof {
                assert(meths@[n as int]@ == sv.methods[n as int]);
                assert(params_valid(problem@, problem@.structures[structure.0 as int].methods[n as int].parameters));
            }
            methods.push(MethodValue::<StructureId>::new(problem, eval, instance, &meths[n]));
            n += 1;
        }
        StrucInstanceValue { id: instance, attributes, methods }
    }
}

impl ClassInstanceValue {
    /// The values of the attributes and methods, own and inherited, of
    /// class `class` at its instance `instance`.
    pub fn new<F: Fn(&Expr) -> Value>(problem: &Problem, eval: &F, class: ClassId, instance: InstanceId) -> (r: ClassInstanceValue)
        requires
            problem@.wf(),
            class.0 < problem@.classes.len(),
            total(*eval),
        ensures
            class_instance_gives(problem@, *eval, problem@.classes[class.0 as int], instance, r),
    {
        let ghost p = problem@;
        let c = problem.get_class(class).unwrap();
        let ghost chain = class_chain(p, c@);
        proof {
            assert(p.classes[class.0 as int].id == class);
            lemma_super_classes_valid(p, c@);
            assert forall|k: int| 0 <= k < chain.len() implies #[trigger] chain[k].0 < p.classes.len() by {
                if k < chain.len() - 1 {
                    assert(chain[k] == spec_super_classes(p, c@)[k]);
                }
            }
            lemma_methods_of_valid(p, chain);
        }
        let attr_ids = c.all_attributes(problem);
        let mut attributes: Vec<AttributeValue<ClassId>> = Vec::new();
        let mut n: usize = 0;
        while n < attr_ids.len()
            invariant
                total(*eval),
                n <= attr_ids.len(),
                attributes@.len() == n,
                forall|j: int| 0 <= j < n ==> class_attr_gives(*eval, instance, attr_ids@[j], #[trigger] attributes@[j]),
            decreases attr_ids.len() - n,
        {
            attributes.push(AttributeValue::<ClassId>::new(eval, instance, attr_ids[n]));
            n += 1;
        }
        let meth_ids = c.all_methods(problem);
        let mut methods: Vec<MethodValue<ClassId>> = Vec::new();
        let mut n: usize = 0;
        while n < meth_ids.len()
            invariant
                problem@ == p,
                p.wf(),
                total(*eval),
                meth_ids@ == methods_of(p, chain),
                forall|j: int| 0 <= j < meth_ids@.len() ==> p.has_class_meth(#[trigger] meth_ids@[j]),
                forall|j: int| 0 <= j < meth_ids@.len() ==> p.class_meth(#[trigger] meth_ids@[j]).id == meth_ids@[j],
                n <= meth_ids.len(),
                methods@.len() == n,
                forall|j: int|
                    0 <= j < n ==> class_meth_gives(p, *eval, instance, p.class_meth(meth_ids@[j]), #[trigger] methods@[j]),
            decreases meth_ids.len() - n,
        {
            let id = meth_ids[n];
            assert(p.has_class_meth(meth_ids@[n as int]));
            let m = problem.get_class_method(id);
            proof {
                assert(p.classes[id.0.0 as int].methods[id.1 as int] == p.class_meth(id));
            }
            methods.push(MethodValue::<ClassId>::new(problem, eval, instance, m));
            n += 1;
        }
        ClassInstanceValue { id: instance, attributes, methods }
    }
}

//---------- Structures and classes ----------

/// `v` holds what the model gives for structure `s` at each of its
/// instances, in order.
pub open spec fn structure_gives<F: Fn(&Expr) -> Value>(p: SpecProblem, eval: F, s: SpecStructure, v: StructureValue) -> bool {
    let insts = instances_of_type(p.instances, s.typ);
    &&& v.id == s.id
    &&& v.instances@.len() == insts.len()
    &&& forall|n: int| 0 <= n < insts.len() ==> struc_instance_gives(p, eval, s, insts[n], #[trigger] v.instances@[n])
}

/// `v` holds what the model gives for class `c` at each of its instances,
/// in order.
pub open spec fn class_gives<F: Fn(&Expr) -> Value>(p: SpecProblem, eval: F, c: SpecClass, v: ClassValue) -> bool {
    let insts = instances_of_type(p.instances, c.typ);
    &&& v.id == c.id
    &&& v.instances@.len() == insts.len()
    &&& forall|n: int| 0 <= n < insts.len() ==> class_instance_gives(p, eval, c, insts[n], #[trigger] v.instances@[n])
}

impl StructureValue {
    /// The values of structure `structure` at each of its instances.
    pub fn new<F: Fn(&Expr) -> Value>(problem: &Problem, eval: &F, structure: StructureId) -> (r: StructureValue)
        requires
            problem@.wf(),
            structure.0 < problem@.structures.len(),
            total(*eval),
        ensures
            structure_gives(problem@, *eval, problem@.structures[structure.0 as int], r),
    {
        let ghost p = problem@;
        let s = problem.get_structure(structure).unwrap();
        assert(p.structures[structure.0 as int].id == structure);
        let insts = s.instances(problem);
        let mut instances: Vec<StrucInstanceValue> = Vec::new();
        let mut n: usize = 0;
        while n < insts.len()
            invariant
                problem@ == p,
                p.wf(),
                structure.0 < p.structures.len(),
                total(*eval),
                n <= insts.len(),
                instances@.len() == n,
                forall|j: int|
                    0 <= j < n ==> struc_instance_gives(p, *eval, p.structures[structure.0 as int], insts@[j], #[trigger] instances@[j]),
            decreases insts.len() - n,
        {
            instances.push(StrucInstanceValue::new(problem, eval, structure, insts[n]));
            n += 1;
        }
        StructureValue { id: structure, instances }
    }
}

impl ClassValue {
    /// The values of class `class` at each of its instances.
    pub fn new<F: Fn(&Expr) -> Value>(problem: &Problem, eval: &F, class: ClassId) -> (r: ClassValue)
        requires
            problem@.wf(),
            class.0 < problem@.classes.len(),
            total(*eval),
        ensures
            class_gives(problem@, *eval, problem@.classes[class.0 as int], r),
    {
        let ghost p = problem@;
        let c = problem.get_class(class).unwrap();
        assert(p.classes[class.0 as int].id == class);
        let insts = c.instances(problem);
        let mut instances: Vec<ClassInstanceValue> = Vec::new();
        let mut n: usize = 0;
        while n < insts.len()
            invariant
                problem@ == p,
                p.wf(),
                class.0 < p.classes.len(),
                total(*eval),
                n <= insts.len(),
                instances@.len() == n,
                forall|j: int|
                    0 <= j < n ==> class_instance_gives(p, *eval, p.classes[class.0 as int], insts@[j], #[trigger] instances@[j]),
            decreases insts.len() - n,
        {
            instances.push(ClassInstanceValue::new(problem, eval, class, insts[n]));
            n += 1;
        }
        ClassValue { id: class, instances }
    }
}

//---------- Solution ----------

/// The structures among the first `n` of the problem that have attributes
/// or methods, in order.
pub open spec fn structures_kept(p: SpecProblem, n: nat) -> Seq<SpecStructure>
    decreases n,
{
    if n == 0 || n > p.structures.len() {
        seq![]
    } else {
        let r = structures_kept(p, (n - 1) as nat);
        let s = p.structures[n - 1];
        if s.attributes.len() > 0 || s.methods.len() > 0 {
            r.push(s)
        } else {
            r
        }
    }
}

/// The classes among the first `n` of the problem that have attributes or
/// methods, own or inherited, in order.
pub open spec fn classes_kept(p: SpecProblem, n: nat) -> Seq<SpecClass>
    decreases n,
{
    if n == 0 || n > p.classes.len() {
        seq![]
    } else {
        let r = classes_kept(p, (n - 1) as nat);
        let c = p.classes[n - 1];
        if attributes_of(p, class_chain(p, c)).len() > 0 || methods_of(p, class_chain(p, c)).len() > 0 {
            r.push(c)
        } else {
            r
        }
    }
}

/// `s` holds what the model gives for the structures and classes that have
/// attributes or methods, for every variable and function of the problem,
/// in order, and for the objective of an optimization.
pub open spec fn solution_gives<F: Fn(&Expr) -> Value>(p: SpecProblem, eval: F, s: Solution) -> bool {
    let ks = structures_kept(p, p.structures.len());
    let kc = classes_kept(p, p.classes.len());
    &&& s.structures@.len() == ks.len()
    &&& forall|n: int| 0 <= n < ks.len() ==> structure_gives(p, eval, ks[n], #[trigger] s.structures@[n])
    &&& s.classes@.len() == kc.len()
    &&& forall|n: int| 0 <= n < kc.len() ==> class_gives(p, eval, kc[n], #[trigger] s.classes@[n])
    &&& s.variables@.len() == p.variables.len()
    &&& forall|n: int|
        0 <= n < p.variables.len() ==> gives(eval, SpecExpr::Variable(p.variables[n].id, None), #[trigger] s.variables@[n])
    &&& s.functions@.len() == p.functions.len()
    &&& forall|n: int|
        0 <= n < p.functions.len() ==> calls_give(
            eval,
            CallOf::Function(p.functions[n].id),
            combos_from(p, p.functions[n].parameters, 0),
            (#[trigger] s.functions@[n]).calls@,
        )
    &&& match p.search {
        SpecSearch::Solve => s.objective is None,
        SpecSearch::Optimize(e, _, _) => s.objective matches Some(v) && gives(eval, e, v),
    }
}

impl Solution {
    /// The solution that the model gives for the problem.
    pub fn new<F: Fn(&Expr) -> Value>(problem: &Problem, eval: &F) -> (r: Solution)
        requires
            problem@.wf(),
            total(*eval),
        ensures
            solution_gives(problem@, *eval, r),
    {
        let ghost p = problem@;
        // Structures
        let ss = problem.structures();
        let mut structures: Vec<StructureValue> = Vec::new();
        let mut i: usize = 0;
        while i < ss.len()
            invariant
                problem@ == p,
                p.wf(),
                total(*eval),
                ss@.map_values(|x: Structure| x@) == p.structures,
                i <= ss.len(),
                structures@.len() == structures_kept(p, i as nat).len(),
                forall|n: int|
                    0 <= n < structures_kept(p, i as nat).len() ==> structure_gives(
                        p,
                        *eval,
                        structures_kept(p, i as nat)[n],
                        #[trigger] structures@[n],
                    ),
            decreases ss.len() - i,
        {
            let s = &ss[i];
            assert(s@ == p.structures[i as int]);
            assert(p.structures[i as int].id == StructureId(i));
            if s.attributes().len() > 0 || s.methods().len() > 0 {
                structures.push(StructureValue::new(problem, eval, s.id()));
            }
            i += 1;
        }
        // Classes
        let cs = problem.classes();
        let mut classes: Vec<ClassValue> = Vec::new();
        let mut i: usize = 0;
        while i < cs.len()
            invariant
                problem@ == p,
                p.wf(),
                total(*eval),
                cs@.map_values(|x: Class| x@) == p.classes,
                i <= cs.len(),
                classes@.len() == classes_kept(p, i as nat).len(),
                forall|n: int|
                    0 <= n < classes_kept(p, i as nat).len() ==> class_gives(
                        p,
                        *eval,
                        classes_kept(p, i as nat)[n],
                        #[trigger] classes@[n],
                    ),
            decreases cs.len() - i,
        {
            let c = &cs[i];
            assert(c@ == p.classes[i as int]);
            assert(p.classes[i as int].id == ClassId(i));
            if c.all_attributes(problem).len() > 0 || c.all_methods(problem).len() > 0 {
                classes.push(ClassValue::new(problem, eval, c.id()));
            }
            i += 1;
        }
        // Variables
        let vs = problem.variables();
        let mut variables: Vec<Value> = Vec::new();
        let mut i: usize = 0;
        while i < vs.len()
            invariant
                total(*eval),
                vs@.map_values(|x: Variable| x@) == p.variables,
                i <= vs.len(),
                variables@.len() == i,
                forall|n: int|
                    0 <= n < i ==> gives(*eval, SpecExpr::Variable(p.variables[n].id, None), #[trigger] variables@[n]),
            decreases vs.len() - i,
        {
            assert(vs@[i as int]@ == p.variables[i as int]);
            let e = Expr::Variable(vs[i].id(), None);
            let v = eval(&e);
            proof {
                assert(evaluates(*eval, e, v));
            }
            variables.push(v);
            i += 1;
        }
        // Functions
        let fs = problem.functions();
        let mut functions: Vec<FunctionValue> = Vec::new();
        let mut i: usize = 0;
        while i < fs.len()
            invariant
                problem@ == p,
                p.wf(),
                total(*eval),
                fs@.map_values(|x: Function| x@) == p.functions,
                i <= fs.len(),
                functions@.len() == i,
                forall|n: int|
                    0 <= n < i ==> calls_give(
                        *eval,
                        CallOf::Function(p.functions[n].id),
                        combos_from(p, p.functions[n].parameters, 0),
                        (#[trigger] functions@[n]).calls@,
                    ),
            decreases fs.len() - i,
        {
            assert(fs@[i as int]@ == p.functions[i as int]);
            functions.push(FunctionValue::new(problem, eval, &fs[i]));
            i += 1;
        }
        // Objective
        let objective = match problem.search() {
            Search::Solve => None,
            Search::Optimize(e, _, _) => {
                let v = eval(&**e);
                proof {
                    assert(evaluates(*eval, **e, v));
                }
                Some(v)
            },
        };
        Solution { structures, classes, variables, functions, objective }
    }
}

} // verus!
