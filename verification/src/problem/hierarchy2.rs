//! Instances, sub classes, common classes and inherited members.

use crate::problem::attribute::Attribute;
use crate::problem::attribute::SpecAttribute;
use crate::problem::attribute::attr_ids;
use crate::problem::attribute::attr_names;
use crate::problem::class::Class;
use crate::problem::class::SpecClass;
use crate::problem::class::spec_super_class;
use crate::problem::hierarchy::chain;
use crate::problem::hierarchy::contains_class;
use crate::problem::hierarchy::spec_super_classes;
use crate::problem::ids::AttributeId;
use crate::problem::ids::ClassId;
use crate::problem::ids::InstanceId;
use crate::problem::ids::MethodId;
use crate::problem::instance::SpecInstance;
use crate::problem::method::Method;
use crate::problem::method::SpecMethod;
use crate::problem::method::meth_ids;
use crate::problem::method::meth_names;
use crate::problem::naming::first_named;
use crate::problem::problem::Problem;
use crate::problem::problem::SpecProblem;
use crate::problem::structure::Structure;
use crate::problem::typing::SpecType;
use crate::problem::typing::Type;
use vstd::prelude::*;

verus! {

/// The identifiers of the instances of type `t`, in order.
pub open spec fn instances_of_type(s: Seq<SpecInstance>, t: SpecType) -> Seq<InstanceId>
    decreases s.len(),
{
    if s.len() == 0 {
        seq![]
    } else {
        let r = instances_of_type(s.drop_last(), t);
        if s.last().typ == t {
            r.push(s.last().id)
        } else {
            r
        }
    }
}

/// The identifiers of the instances of type `t` in a problem, in order.
pub fn instances_of(problem: &Problem, t: &Type) -> (r: Vec<InstanceId>)
    ensures
        r@ == instances_of_type(problem@.instances, t@),
{
    let ghost s = problem@.instances;
    let mut v: Vec<InstanceId> = Vec::new();
    let mut i: usize = 0;
    while i < problem.instances.len()
        invariant
            i <= problem.instances.len(),
            s == problem@.instances,
            v@ == instances_of_type(s.take(i as int), t@),
        decreases problem.instances.len() - i,
    {
        proof {
            assert(s.take(i + 1).drop_last() =~= s.take(i as int));
        }
        if problem.instances[i].typ.same(t) {
            v.push(problem.instances[i].id);
        }
        i += 1;
    }
    assert(s.take(problem.instances.len() as int) =~= s);
    v
}

/// The classes that directly extend `c`, in order.
pub open spec fn classes_extending(s: Seq<SpecClass>, c: ClassId) -> Seq<ClassId>
    decreases s.len(),
{
    if s.len() == 0 {
        seq![]
    } else {
        let r = classes_extending(s.drop_last(), c);
        if spec_super_class(s.last()) == Some(c) {
            r.push(s.last().id)
        } else {
            r
        }
    }
}

/// The classes of which `c` is a super class, in order.
pub open spec fn classes_below(p: SpecProblem, s: Seq<SpecClass>, c: ClassId) -> Seq<ClassId>
    decreases s.len(),
{
    if s.len() == 0 {
        seq![]
    } else {
        let r = classes_below(p, s.drop_last(), c);
        if spec_super_classes(p, s.last()).contains(c) {
            r.push(s.last().id)
        } else {
            r
        }
    }
}

/// The super classes of the class of identifier `c`.
pub open spec fn super_classes_of(p: SpecProblem, c: ClassId) -> Seq<ClassId> {
    spec_super_classes(p, p.classes[c.0 as int])
}

/// What `Class::common_class` answers: walking `l1` in order, the last class
/// met before the first one that `l2` lacks.
pub open spec fn common_walk(l1: Seq<ClassId>, l2: Seq<ClassId>, res: Option<ClassId>) -> Option<
    ClassId,
>
    decreases l1.len(),
{
    if l1.len() == 0 {
        res
    } else if !l2.contains(l1[0]) {
        res
    } else {
        common_walk(l1.skip(1), l2, Some(l1[0]))
    }
}

/// The common class of class `a` and class `b`.
pub open spec fn spec_common_class(p: SpecProblem, a: SpecClass, b: ClassId) -> Option<ClassId> {
    common_walk(
        spec_super_classes(p, a).push(a.id),
        super_classes_of(p, b).push(b),
        None,
    )
}

/// The identifiers of the instances of the class of identifier `c` and of
/// its sub classes `subs`, in that order.
pub open spec fn instances_with(p: SpecProblem, own: Seq<InstanceId>, subs: Seq<ClassId>) -> Seq<
    InstanceId,
>
    decreases subs.len(),
{
    if subs.len() == 0 {
        own
    } else {
        instances_with(p, own, subs.drop_last()) + instances_of_type(
            p.instances,
            SpecType::Class(subs.last()),
        )
    }
}

/// The identifiers of the attributes of the classes `cs`, in order.
pub open spec fn attributes_of(p: SpecProblem, cs: Seq<ClassId>) -> Seq<AttributeId<ClassId>>
    decreases cs.len(),
{
    if cs.len() == 0 {
        seq![]
    } else {
        attributes_of(p, cs.drop_last()) + p.classes[cs.last().0 as int].attributes.map_values(
            |a: SpecAttribute<ClassId>| a.id,
        )
    }
}

/// The identifiers of the methods of the classes `cs`, in order.
pub open spec fn methods_of(p: SpecProblem, cs: Seq<ClassId>) -> Seq<MethodId<ClassId>>
    decreases cs.len(),
{
    if cs.len() == 0 {
        seq![]
    } else {
        methods_of(p, cs.drop_last()) + p.classes[cs.last().0 as int].methods.map_values(
            |m: SpecMethod<ClassId>| m.id,
        )
    }
}

/// The first attribute of that name among the classes `cs`, in order.
pub open spec fn inherited_attribute(p: SpecProblem, cs: Seq<ClassId>, name: Seq<char>) -> Option<
    SpecAttribute<ClassId>,
>
    decreases cs.len(),
{
    if cs.len() == 0 {
        None
    } else {
        let attrs = p.classes[cs[0].0 as int].attributes;
        match first_named(attr_names(attrs), name, 0) {
            Some(i) => Some(attrs[i]),
            None => inherited_attribute(p, cs.skip(1), name),
        }
    }
}

/// The first method of that name among the classes `cs`, in order.
pub open spec fn inherited_method(p: SpecProblem, cs: Seq<ClassId>, name: Seq<char>) -> Option<
    SpecMethod<ClassId>,
>
    decreases cs.len(),
{
    if cs.len() == 0 {
        None
    } else {
        let meths = p.classes[cs[0].0 as int].methods;
        match first_named(meth_names(meths), name, 0) {
            Some(i) => Some(meths[i]),
            None => inherited_method(p, cs.skip(1), name),
        }
    }
}

impl Structure {
    /// The instances of the structure, in order.
    pub fn instances(&self, problem: &Problem) -> (r: Vec<InstanceId>)
        ensures
            r@ == instances_of_type(problem@.instances, self@.typ),
    {
        instances_of(problem, &self.typ)
    }

    /// The structure has no instance.
    pub fn is_empty(&self, problem: &Problem) -> (r: bool)
        ensures
            r == (instances_of_type(problem@.instances, self@.typ).len() == 0),
    {
        self.instances(problem).len() == 0
    }
}


/// The classes of a chain are classes of the problem.
pub proof fn lemma_chain_valid(p: SpecProblem, todo: Option<ClassId>, visited: Seq<ClassId>, fuel: nat)
    requires
        p.hierarchy_wf(),
        todo matches Some(c) ==> c.0 < p.classes.len(),
        forall|i: int| 0 <= i < visited.len() ==> #[trigger] visited[i].0 < p.classes.len(),
    ensures
        forall|i: int|
            0 <= i < chain(p, todo, visited, fuel).len() ==> #[trigger] chain(p, todo, visited, fuel)[i].0
                < p.classes.len(),
    decreases fuel,
{
    let r = chain(p, todo, visited, fuel);
    match todo {
        None => {
            assert(r == visited);
        },
        Some(c) => {
            if visited.contains(c) || fuel == 0 {
                assert(r == visited);
            } else {
                let next = visited.push(c);
                assert(spec_super_class(p.classes[c.0 as int]) matches Some(s) ==> s.0 < p.classes.len());
                assert forall|i: int| 0 <= i < next.len() implies #[trigger] next[i].0 < p.classes.len() by {
                    if i < visited.len() {
                        assert(next[i] == visited[i]);
                    }
                }
                lemma_chain_valid(p, p.super_of(c), next, (fuel - 1) as nat);
                assert(r == chain(p, p.super_of(c), next, (fuel - 1) as nat));
            }
        },
    }
}

/// The super classes of a class are classes of the problem.
pub proof fn lemma_super_classes_valid(p: SpecProblem, c: SpecClass)
    requires
        p.hierarchy_wf(),
        spec_super_class(c) matches Some(s) ==> s.0 < p.classes.len(),
    ensures
        forall|i: int|
            0 <= i < spec_super_classes(p, c).len() ==> #[trigger] spec_super_classes(p, c)[i].0
                < p.classes.len(),
{
    lemma_chain_valid(p, spec_super_class(c), seq![], p.classes.len());
}

/// Whether `c` is among `v`.
pub fn has_class(v: &Vec<ClassId>, c: ClassId) -> (r: bool)
    ensures
        r == v@.contains(c),
{
    contains_class(v, c)
}

impl Class {
    /// The instances of exactly this class, in order.
    pub fn instances(&self, problem: &Problem) -> (r: Vec<InstanceId>)
        ensures
            r@ == instances_of_type(problem@.instances, self@.typ),
    {
        instances_of(problem, &self.typ)
    }

    /// The classes that directly extend this one, in order.
    pub fn direct_sub_classes(&self, problem: &Problem) -> (r: Vec<ClassId>)
        ensures
            r@ == classes_extending(problem@.classes, self.id),
    {
        let ghost s = problem@.classes;
        let mut v: Vec<ClassId> = Vec::new();
        let mut i: usize = 0;
        while i < problem.classes.len()
            invariant
                i <= problem.classes.len(),
                s == problem@.classes,
                v@ == classes_extending(s.take(i as int), self.id),
            decreases problem.classes.len() - i,
        {
            proof {
                assert(s.take(i + 1).drop_last() =~= s.take(i as int));
            }
            match problem.classes[i].super_class() {
                Some(c) => {
                    if c.0 == self.id.0 {
                        v.push(problem.classes[i].id);
                    }
                },
                None => {},
            }
            i += 1;
        }
        assert(s.take(problem.classes.len() as int) =~= s);
        v
    }

    /// The classes of which this one is a super class, in order.
    pub fn sub_classes(&self, problem: &Problem) -> (r: Vec<ClassId>)
        requires
            problem@.hierarchy_wf(),
        ensures
            r@ == classes_below(problem@, problem@.classes, self.id),
    {
        let ghost p = problem@;
        let ghost s = problem@.classes;
        let mut v: Vec<ClassId> = Vec::new();
        let mut i: usize = 0;
        while i < problem.classes.len()
            invariant
                i <= problem.classes.len(),
                p == problem@,
                p.hierarchy_wf(),
                s == problem@.classes,
                v@ == classes_below(p, s.take(i as int), self.id),
            decreases problem.classes.len() - i,
        {
            proof {
                assert(s.take(i + 1).drop_last() =~= s.take(i as int));
                assert(spec_super_class(s[i as int]) matches Some(x) ==> x.0 < s.len());
            }
            let sup = problem.classes[i].super_classes(problem);
            if has_class(&sup, self.id) {
                v.push(problem.classes[i].id);
            }
            i += 1;
        }
        assert(s.take(problem.classes.len() as int) =~= s);
        v
    }

    /// The common class of this class and class `other`: walking the super
    /// classes of this class, nearest first, then this class, the last class
    /// met before the first one that is neither `other` nor one of its super
    /// classes; none when the first is not.
    pub fn common_class(&self, problem: &Problem, other: ClassId) -> (r: Option<ClassId>)
        requires
            problem@.hierarchy_wf(),
            spec_super_class(self@) matches Some(s) ==> s.0 < problem@.classes.len(),
            other.0 < problem@.classes.len(),
        ensures
            r == spec_common_class(problem@, self@, other),
    {
        let mut l1 = self.super_classes(problem);
        l1.push(self.id);
        let oc = problem.get_class(other).unwrap();
        proof {
            assert(spec_super_class(problem@.classes[other.0 as int]) matches Some(x) ==> x.0 < problem@.classes.len());
        }
        let mut l2 = oc.super_classes(problem);
        l2.push(other);
        let ghost full = l1@;
        let mut res: Option<ClassId> = None;
        let mut i: usize = 0;
        assert(full.skip(0) =~= full);
        while i < l1.len()
            invariant
                i <= l1.len(),
                full == l1@,
                common_walk(full, l2@, None) == common_walk(full.skip(i as int), l2@, res),
                common_walk(full, l2@, None) == spec_common_class(problem@, self@, other),
            decreases l1.len() - i,
        {
            let c = l1[i];
            proof {
                assert(full.skip(i as int)[0] == c);
                assert(full.skip(i as int).skip(1) =~= full.skip(i + 1));
            }
            if !has_class(&l2, c) {
                proof {
                    assert(common_walk(full.skip(i as int), l2@, res) == res);
                }
                return res;
            }
            res = Some(c);
            i += 1;
        }
        proof {
            assert(full.skip(i as int).len() == 0);
        }
        res
    }

    /// The instances of this class and of its sub classes.
    pub fn all_instances(&self, problem: &Problem) -> (r: Vec<InstanceId>)
        requires
            problem@.hierarchy_wf(),
        ensures
            r@ == instances_with(
                problem@,
                instances_of_type(problem@.instances, self@.typ),
                classes_below(problem@, problem@.classes, self.id),
            ),
    {
        let mut v = self.instances(problem);
        let subs = self.sub_classes(problem);
        let ghost own = v@;
        let mut i: usize = 0;
        while i < subs.len()
            invariant
                i <= subs.len(),
                v@ == instances_with(problem@, own, subs@.take(i as int)),
            decreases subs.len() - i,
        {
            proof {
                assert(subs@.take(i + 1).drop_last() =~= subs@.take(i as int));
            }
            let more = instances_of(problem, &Type::Class(subs[i]));
            let mut j: usize = 0;
            let ghost before = v@;
            while j < more.len()
                invariant
                    j <= more.len(),
                    v@ == before + more@.take(j as int),
                decreases more.len() - j,
            {
                v.push(more[j]);
                assert(more@.take(j + 1) =~= more@.take(j as int).push(more@[j as int]));
                j += 1;
            }
            assert(more@.take(more.len() as int) =~= more@);
            i += 1;
        }
        assert(subs@.take(subs.len() as int) =~= subs@);
        v
    }

    /// The class and its sub classes have no instance.
    pub fn is_empty(&self, problem: &Problem) -> (r: bool)
        requires
            problem@.hierarchy_wf(),
        ensures
            r == (instances_with(
                problem@,
                instances_of_type(problem@.instances, self@.typ),
                classes_below(problem@, problem@.classes, self.id),
            ).len() == 0),
    {
        self.all_instances(problem).len() == 0
    }

    /// The identifiers of the attributes of the super classes, farthest
    /// last, then of this class.
    pub fn all_attributes(&self, problem: &Problem) -> (r: Vec<AttributeId<ClassId>>)
        requires
            problem@.hierarchy_wf(),
            spec_super_class(self@) matches Some(s) ==> s.0 < problem@.classes.len(),
            self.id.0 < problem@.classes.len(),
        ensures
            r@ == attributes_of(problem@, spec_super_classes(problem@, self@).push(self.id)),
    {
        let mut classes = self.super_classes(problem);
        classes.push(self.id);
        proof {
            lemma_super_classes_valid(problem@, self@);
        }
        let mut v: Vec<AttributeId<ClassId>> = Vec::new();
        let mut i: usize = 0;
        while i < classes.len()
            invariant
                i <= classes.len(),
                forall|k: int| 0 <= k < classes@.len() ==> #[trigger] classes@[k].0 < problem@.classes.len(),
                v@ == attributes_of(problem@, classes@.take(i as int)),
            decreases classes.len() - i,
        {
            proof {
                assert(classes@.take(i + 1).drop_last() =~= classes@.take(i as int));
            }
            let c = problem.get_class(classes[i]).unwrap();
            let ghost before = v@;
            let mut j: usize = 0;
            while j < c.attributes.len()
                invariant
                    j <= c.attributes.len(),
                    v@ == before + attr_ids(c@.attributes).take(j as int),
                decreases c.attributes.len() - j,
            {
                v.push(c.attributes[j].id);
                assert(attr_ids(c@.attributes).take(j + 1) =~= attr_ids(c@.attributes).take(j as int).push(c.attributes@[j as int].id));
                j += 1;
            }
            assert(attr_ids(c@.attributes).take(c.attributes.len() as int) =~= attr_ids(c@.attributes));
            i += 1;
        }
        assert(classes@.take(classes.len() as int) =~= classes@);
        v
    }

    /// The identifiers of the methods of the super classes, farthest last,
    /// then of this class.
    pub fn all_methods(&self, problem: &Problem) -> (r: Vec<MethodId<ClassId>>)
        requires
            problem@.hierarchy_wf(),
            spec_super_class(self@) matches Some(s) ==> s.0 < problem@.classes.len(),
            self.id.0 < problem@.classes.len(),
        ensures
            r@ == methods_of(problem@, spec_super_classes(problem@, self@).push(self.id)),
    {
        let mut classes = self.super_classes(problem);
        classes.push(self.id);
        proof {
            lemma_super_classes_valid(problem@, self@);
        }
        let mut v: Vec<MethodId<ClassId>> = Vec::new();
        let mut i: usize = 0;
        while i < classes.len()
            invariant
                i <= classes.len(),
                forall|k: int| 0 <= k < classes@.len() ==> #[trigger] classes@[k].0 < problem@.classes.len(),
                v@ == methods_of(problem@, classes@.take(i as int)),
            decreases classes.len() - i,
        {
            proof {
                assert(classes@.take(i + 1).drop_last() =~= classes@.take(i as int));
            }
            let c = problem.get_class(classes[i]).unwrap();
            let ghost before = v@;
            let mut j: usize = 0;
            while j < c.methods.len()
                invariant
                    j <= c.methods.len(),
                    v@ == before + meth_ids(c@.methods).take(j as int),
                decreases c.methods.len() - j,
            {
                v.push(c.methods[j].id);
                assert(meth_ids(c@.methods).take(j + 1) =~= meth_ids(c@.methods).take(j as int).push(c.methods@[j as int].id));
                j += 1;
            }
            assert(meth_ids(c@.methods).take(c.methods.len() as int) =~= meth_ids(c@.methods));
            i += 1;
        }
        assert(classes@.take(classes.len() as int) =~= classes@);
        v
    }

    /// The first attribute of that name of this class, else of its super
    /// classes, nearest first.
    pub fn find_all_attribute(&self, problem: &Problem, name: &str) -> (r: Option<
        Attribute<ClassId>,
    >)
        requires
            problem@.hierarchy_wf(),
            spec_super_class(self@) matches Some(s) ==> s.0 < problem@.classes.len(),
        ensures
            match first_named(
                attr_names(self@.attributes),
                name@,
                0,
            ) {
                Some(i) => r matches Some(a) && a@ == self@.attributes[i],
                None => match inherited_attribute(
                    problem@,
                    spec_super_classes(problem@, self@),
                    name@,
                ) {
                    Some(x) => r matches Some(a) && a@ == x,
                    None => r is None,
                },
            },
    {
        if let Some(a) = self.find_attribute(name) {
            proof {
                let k = first_named(attr_names(self@.attributes), name@, 0);
                assert(k is Some);
                assert(a@ == self@.attributes[k.unwrap()]);
            }
            let r = Some(a.copy());
            assert(r matches Some(x) && x@ == self@.attributes[first_named(attr_names(self@.attributes), name@, 0).unwrap()]);
            return r;
        }
        let sup = self.super_classes(problem);
        proof {
            lemma_super_classes_valid(problem@, self@);
        }
        let mut i: usize = 0;
        assert(sup@.skip(0) =~= sup@);
        while i < sup.len()
            invariant
                i <= sup.len(),
                forall|k: int| 0 <= k < sup@.len() ==> #[trigger] sup@[k].0 < problem@.classes.len(),
                first_named(attr_names(self@.attributes), name@, 0) is None,
                sup@ == spec_super_classes(problem@, self@),
                inherited_attribute(problem@, sup@, name@) == inherited_attribute(
                    problem@,
                    sup@.skip(i as int),
                    name@,
                ),
            decreases sup.len() - i,
        {
            let c = problem.get_class(sup[i]).unwrap();
            proof {
                assert(sup@.skip(i as int)[0] == sup@[i as int]);
                assert(sup@.skip(i as int).skip(1) =~= sup@.skip(i + 1));
            }
            if let Some(a) = c.find_attribute(name) {
                return Some(a.copy());
            }
            i += 1;
        }
        proof {
            assert(sup@.skip(i as int).len() == 0);
        }
        None
    }

    /// The first method of that name of this class, else of its super
    /// classes, nearest first.
    pub fn find_all_method(&self, problem: &Problem, name: &str) -> (r: Option<Method<ClassId>>)
        requires
            problem@.hierarchy_wf(),
            spec_super_class(self@) matches Some(s) ==> s.0 < problem@.classes.len(),
        ensures
            match first_named(
                meth_names(self@.methods),
                name@,
                0,
            ) {
                Some(i) => r matches Some(m) && m@ == self@.methods[i],
                None => match inherited_method(problem@, spec_super_classes(problem@, self@), name@) {
                    Some(x) => r matches Some(m) && m@ == x,
                    None => r is None,
                },
            },
    {
        if let Some(m) = self.find_method(name) {
            return Some(m.copy());
        }
        let sup = self.super_classes(problem);
        proof {
            lemma_super_classes_valid(problem@, self@);
        }
        let mut i: usize = 0;
        assert(sup@.skip(0) =~= sup@);
        while i < sup.len()
            invariant
                i <= sup.len(),
                forall|k: int| 0 <= k < sup@.len() ==> #[trigger] sup@[k].0 < problem@.classes.len(),
                first_named(meth_names(self@.methods), name@, 0) is None,
                sup@ == spec_super_classes(problem@, self@),
                inherited_method(problem@, sup@, name@) == inherited_method(
                    problem@,
                    sup@.skip(i as int),
                    name@,
                ),
            decreases sup.len() - i,
        {
            let c = problem.get_class(sup[i]).unwrap();
            proof {
                assert(sup@.skip(i as int)[0] == sup@[i as int]);
                assert(sup@.skip(i as int).skip(1) =~= sup@.skip(i + 1));
            }
            if let Some(m) = c.find_method(name) {
                return Some(m.copy());
            }
            i += 1;
        }
        proof {
            assert(sup@.skip(i as int).len() == 0);
        }
        None
    }
}

} // verus!
