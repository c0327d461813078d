//! Well-formed problems and valid expressions: every identifier names a
//! declaration of the problem and every type refers to one.

use crate::problem::attribute::Attribute;
use crate::problem::attribute::SpecAttribute;
use crate::problem::expression::expr::SpecExpr;
use crate::problem::ids::AttributeId;
use crate::problem::ids::ClassId;
use crate::problem::ids::MethodId;
use crate::problem::ids::StructureId;
use crate::problem::instance::Instance;
use crate::problem::method::Method;
use crate::problem::method::SpecMethod;
use crate::problem::parameter::Parameter;
use crate::problem::parameter::SpecParameter;
use crate::problem::problem::Problem;
use crate::problem::problem::SpecProblem;
use crate::problem::relations::type_valid;
use crate::problem::variable::Variable;
use vstd::prelude::*;

verus! {

/// The types of the parameters all refer to declarations of the problem.
pub open spec fn params_valid(p: SpecProblem, s: Seq<SpecParameter>) -> bool {
    forall|i: int| 0 <= i < s.len() ==> #[trigger] type_valid(p, s[i].typ)
}

impl SpecProblem {
    /// `id` names an attribute of a structure of the problem.
    pub open spec fn has_struct_attr(self, id: AttributeId<StructureId>) -> bool {
        id.0.0 < self.structures.len() && id.1 < self.structures[id.0.0 as int].attributes.len()
    }

    /// The attribute of a structure named by `id`.
    pub open spec fn struct_attr(self, id: AttributeId<StructureId>) -> SpecAttribute<StructureId> {
        self.structures[id.0.0 as int].attributes[id.1 as int]
    }

    /// `id` names a method of a structure of the problem.
    pub open spec fn has_struct_meth(self, id: MethodId<StructureId>) -> bool {
        id.0.0 < self.structures.len() && id.1 < self.structures[id.0.0 as int].methods.len()
    }

    /// The method of a structure named by `id`.
    pub open spec fn struct_meth(self, id: MethodId<StructureId>) -> SpecMethod<StructureId> {
        self.structures[id.0.0 as int].methods[id.1 as int]
    }

    /// `id` names an attribute of a class of the problem.
    pub open spec fn has_class_attr(self, id: AttributeId<ClassId>) -> bool {
        id.0.0 < self.classes.len() && id.1 < self.classes[id.0.0 as int].attributes.len()
    }

    /// The attribute of a class named by `id`.
    pub open spec fn class_attr(self, id: AttributeId<ClassId>) -> SpecAttribute<ClassId> {
        self.classes[id.0.0 as int].attributes[id.1 as int]
    }

    /// `id` names a method of a class of the problem.
    pub open spec fn has_class_meth(self, id: MethodId<ClassId>) -> bool {
        id.0.0 < self.classes.len() && id.1 < self.classes[id.0.0 as int].methods.len()
    }

    /// The method of a class named by `id`.
    pub open spec fn class_meth(self, id: MethodId<ClassId>) -> SpecMethod<ClassId> {
        self.classes[id.0.0 as int].methods[id.1 as int]
    }

    /// Every declared type refers to declarations of the problem.
    pub open spec fn types_wf(self) -> bool {
        &&& forall|i: int|
            0 <= i < self.variables.len() ==> type_valid(self, #[trigger] self.variables[i].typ)
        &&& forall|i: int|
            0 <= i < self.instances.len() ==> type_valid(self, #[trigger] self.instances[i].typ)
        &&& forall|i: int|
            #![trigger self.functions[i]]
            0 <= i < self.functions.len() ==> type_valid(self, self.functions[i].typ)
                && params_valid(self, self.functions[i].parameters)
        &&& forall|i: int, j: int|
            0 <= i < self.structures.len() && 0 <= j < self.structures[i].attributes.len()
                ==> type_valid(self, #[trigger] self.structures[i].attributes[j].typ)
        &&& forall|i: int, j: int|
            #![trigger self.structures[i].methods[j]]
            0 <= i < self.structures.len() && 0 <= j < self.structures[i].methods.len()
                ==> type_valid(self, self.structures[i].methods[j].typ) && params_valid(
                self,
                self.structures[i].methods[j].parameters,
            )
        &&& forall|i: int|
            0 <= i < self.classes.len() ==> ((#[trigger] self.classes[i]).extends matches Some(t)
                ==> type_valid(self, t))
        &&& forall|i: int, j: int|
            0 <= i < self.classes.len() && 0 <= j < self.classes[i].attributes.len() ==> type_valid(
                self,
                #[trigger] self.classes[i].attributes[j].typ,
            )
        &&& forall|i: int, j: int|
            #![trigger self.classes[i].methods[j]]
            0 <= i < self.classes.len() && 0 <= j < self.classes[i].methods.len() ==> type_valid(
                self,
                self.classes[i].methods[j].typ,
            ) && params_valid(self, self.classes[i].methods[j].parameters)
    }

    /// The problem is well formed: identifiers in their places, a class
    /// hierarchy within the problem, and declared types within the problem.
    pub open spec fn wf(self) -> bool {
        &&& self.ids_wf()
        &&& self.hierarchy_wf()
        &&& self.types_wf()
    }
}

/// Every identifier of the expression names a declaration of the problem and
/// every type in it refers to one.
pub open spec fn expr_valid(p: SpecProblem, e: SpecExpr) -> bool
    decreases e,
{
    match e {
        SpecExpr::BoolValue(_, _) => true,
        SpecExpr::IntValue(_, _) => true,
        SpecExpr::RealValue(_, _) => true,
        SpecExpr::Unary(_, x, _) => expr_valid(p, *x),
        SpecExpr::Binary(l, _, r, _) => expr_valid(p, *l) && expr_valid(p, *r),
        SpecExpr::Variable(id, _) => id.0 < p.variables.len(),
        SpecExpr::Parameter(x) => type_valid(p, x.typ),
        SpecExpr::FunctionCall(id, a, _) => id.0 < p.functions.len() && exprs_valid(p, a),
        SpecExpr::Instance(id, _) => id.0 < p.instances.len(),
        SpecExpr::StrucSelf(id, _) => id.0 < p.structures.len(),
        SpecExpr::StrucAttribute(x, id, _) => p.has_struct_attr(id) && expr_valid(p, *x),
        SpecExpr::StrucMetCall(x, id, a, _) => p.has_struct_meth(id) && expr_valid(p, *x)
            && exprs_valid(p, a),
        SpecExpr::ClassSelf(id, _) => id.0 < p.classes.len(),
        SpecExpr::ClassAttribute(x, id, _) => p.has_class_attr(id) && expr_valid(p, *x),
        SpecExpr::ClassMetCall(x, id, a, _) => p.has_class_meth(id) && expr_valid(p, *x)
            && exprs_valid(p, a),
        SpecExpr::AsClass(x, id) => id.0 < p.classes.len() && expr_valid(p, *x),
        SpecExpr::AsInterval(x, _, _, _) => expr_valid(p, *x),
        SpecExpr::AsInt(x, _) => expr_valid(p, *x),
        SpecExpr::AsReal(x, _) => expr_valid(p, *x),
        SpecExpr::IfThenElse(c, t, l, x, _) => expr_valid(p, *c) && expr_valid(p, *t)
            && pairs_valid(p, l) && expr_valid(p, *x),
        SpecExpr::Quantifier(_, ps, x, _) => params_valid(p, ps) && expr_valid(p, *x),
        SpecExpr::Unresolved(_, _) => true,
        SpecExpr::UnresolvedFunCall(_, a, _) => exprs_valid(p, a),
        SpecExpr::UnresolvedAttribute(x, _, _) => expr_valid(p, *x),
        SpecExpr::UnresolvedMethCall(x, _, a, _) => expr_valid(p, *x) && exprs_valid(p, a),
    }
}

/// Every expression of the list is valid.
pub open spec fn exprs_valid(p: SpecProblem, s: Seq<SpecExpr>) -> bool
    decreases s,
{
    if s.len() == 0 {
        true
    } else {
        exprs_valid(p, s.drop_last()) && expr_valid(p, s.last())
    }
}

/// Both expressions of every pair of the list are valid.
pub open spec fn pairs_valid(p: SpecProblem, s: Seq<(SpecExpr, SpecExpr)>) -> bool
    decreases s,
{
    if s.len() == 0 {
        true
    } else {
        pairs_valid(p, s.drop_last()) && expr_valid(p, s.last().0) && expr_valid(p, s.last().1)
    }
}

/// A list of expressions is valid when each of them is.
pub proof fn lemma_exprs_valid(p: SpecProblem, s: Seq<SpecExpr>)
    ensures
        exprs_valid(p, s) <==> forall|i: int| 0 <= i < s.len() ==> #[trigger] expr_valid(p, s[i]),
    decreases s.len(),
{
    if s.len() > 0 {
        lemma_exprs_valid(p, s.drop_last());
        if exprs_valid(p, s) {
            assert forall|i: int| 0 <= i < s.len() implies #[trigger] expr_valid(p, s[i]) by {
                if i < s.len() - 1 {
                    assert(s[i] == s.drop_last()[i]);
                }
            }
        }
        if forall|i: int| 0 <= i < s.len() ==> #[trigger] expr_valid(p, s[i]) {
            assert forall|i: int| 0 <= i < s.drop_last().len() implies #[trigger] expr_valid(
                p,
                s.drop_last()[i],
            ) by {
                assert(s[i] == s.drop_last()[i]);
            }
            assert(expr_valid(p, s[s.len() - 1]));
        }
    }
}

/// A list of pairs of expressions is valid when each expression is.
pub proof fn lemma_pairs_valid(p: SpecProblem, s: Seq<(SpecExpr, SpecExpr)>)
    ensures
        pairs_valid(p, s) <==> forall|i: int|
            0 <= i < s.len() ==> expr_valid(p, (#[trigger] s[i]).0) && expr_valid(p, s[i].1),
    decreases s.len(),
{
    if s.len() > 0 {
        lemma_pairs_valid(p, s.drop_last());
        if pairs_valid(p, s) {
            assert forall|i: int| 0 <= i < s.len() implies expr_valid(p, (#[trigger] s[i]).0)
                && expr_valid(p, s[i].1) by {
                if i < s.len() - 1 {
                    assert(s[i] == s.drop_last()[i]);
                    assert(expr_valid(p, s.drop_last()[i].0) && expr_valid(p, s.drop_last()[i].1));
                } else {
                    assert(s[i] == s.last());
                }
            }
        }
        if forall|i: int| 0 <= i < s.len() ==> expr_valid(p, (#[trigger] s[i]).0) && expr_valid(p, s[i].1) {
            assert forall|i: int| 0 <= i < s.drop_last().len() implies expr_valid(
                p,
                (#[trigger] s.drop_last()[i]).0,
            ) && expr_valid(p, s.drop_last()[i].1) by {
                assert(s[i] == s.drop_last()[i]);
                assert(expr_valid(p, s[i].0) && expr_valid(p, s[i].1));
            }
            assert(expr_valid(p, s[s.len() - 1].0));
        }
    }
}

impl Problem {
    /// The attribute of a structure named by `id`.
    pub fn get_struct_attribute(&self, id: AttributeId<StructureId>) -> (r: &Attribute<StructureId>)
        requires
            self@.ids_wf(),
            self@.has_struct_attr(id),
        ensures
            r@ == self@.struct_attr(id),
    {
        let s = self.get_structure(id.0).unwrap();
        proof {
            assert(self@.structures[id.0.0 as int].id == id.0);
        }
        s.get_attribute(id).unwrap()
    }

    /// The method of a structure named by `id`.
    pub fn get_struct_method(&self, id: MethodId<StructureId>) -> (r: &Method<StructureId>)
        requires
            self@.ids_wf(),
            self@.has_struct_meth(id),
        ensures
            r@ == self@.struct_meth(id),
    {
        let s = self.get_structure(id.0).unwrap();
        proof {
            assert(self@.structures[id.0.0 as int].id == id.0);
        }
        s.get_method(id).unwrap()
    }

    /// The attribute of a class named by `id`.
    pub fn get_class_attribute(&self, id: AttributeId<ClassId>) -> (r: &Attribute<ClassId>)
        requires
            self@.ids_wf(),
            self@.has_class_attr(id),
        ensures
            r@ == self@.class_attr(id),
    {
        let c = self.get_class(id.0).unwrap();
        proof {
            assert(self@.classes[id.0.0 as int].id == id.0);
        }
        c.get_attribute(id).unwrap()
    }

    /// The method of a class named by `id`.
    pub fn get_class_method(&self, id: MethodId<ClassId>) -> (r: &Method<ClassId>)
        requires
            self@.ids_wf(),
            self@.has_class_meth(id),
        ensures
            r@ == self@.class_meth(id),
    {
        let c = self.get_class(id.0).unwrap();
        proof {
            assert(self@.classes[id.0.0 as int].id == id.0);
        }
        c.get_method(id).unwrap()
    }
}

} // verus!
