//! Relations between types (sub typing, compatibility, common type), type
//! resolution, interval checks, rendering, and the values of bounded types.

use crate::error::Error;
use crate::error::SpecError;
use crate::error::result_view;
use crate::error::type_result;
use crate::parser::position::Position;
use crate::parser::position::SpecPosition;
use crate::parser::position::copy_pos;
use crate::parser::position::opt_pos;
use crate::problem::class::Class;
use crate::problem::class::spec_super_class;
use crate::problem::expression::expr::Expr;
use crate::problem::expression::expr::SpecExpr;
use crate::problem::expression::expr::exprs_view;
use crate::problem::expression::expr::lemma_exprs_view;
use crate::problem::hierarchy::contains_class;
use crate::problem::hierarchy2::classes_below;
use crate::problem::hierarchy2::instances_of;
use crate::problem::hierarchy2::instances_of_type;
use crate::problem::hierarchy2::instances_with;
use crate::problem::hierarchy2::spec_common_class;
use crate::problem::hierarchy2::super_classes_of;
use crate::problem::ids::InstanceId;
use crate::problem::instance::Instance;
use crate::problem::problem::Problem;
use crate::problem::problem::SpecProblem;
use crate::problem::structure::Structure;
use crate::problem::type_entry::SpecTypeEntry;
use crate::problem::type_entry::TypeEntries;
use crate::problem::type_entry::TypeEntryType;
use crate::problem::type_entry::spec_type_lookup;
use crate::problem::typing::SpecType;
use crate::problem::typing::Type;
use crate::text::int_text;
use crate::text::isize_text;
use vstd::string::*;
use vstd::prelude::*;

verus! {

/// A type refers only to declarations of the problem.
pub open spec fn type_valid(p: SpecProblem, t: SpecType) -> bool {
    match t {
        SpecType::Structure(id) => id.0 < p.structures.len(),
        SpecType::Class(id) => id.0 < p.classes.len(),
        _ => true,
    }
}

/// `a` is a sub type of `b`: a narrower interval, an interval of `Int`, a
/// class of one of its super classes, or the same type.
pub open spec fn spec_is_subtype_of(p: SpecProblem, a: SpecType, b: SpecType) -> bool {
    match (a, b) {
        (SpecType::Interval(min1, max1), SpecType::Interval(min2, max2)) => min1 >= min2 && max1
            <= max2,
        (SpecType::Interval(_, _), SpecType::Int) => true,
        (SpecType::Class(c1), SpecType::Class(c2)) => c1 == c2 || super_classes_of(p, c1).contains(
            c2,
        ),
        (x, y) => x == y,
    }
}

/// `a` is compatible with `b`: two integer types one of which is an
/// interval, or a sub type.
pub open spec fn spec_is_compatible_with(p: SpecProblem, a: SpecType, b: SpecType) -> bool {
    match (a, b) {
        (SpecType::Interval(_, _), SpecType::Interval(_, _)) => true,
        (SpecType::Interval(_, _), SpecType::Int) => true,
        (SpecType::Int, SpecType::Interval(_, _)) => true,
        (x, y) => spec_is_subtype_of(p, x, y),
    }
}

/// The type that holds the values of both types: the hull of two intervals,
/// `Int` for an interval and `Int`, the common class of two classes, the type
/// itself for equal types, else `Undefined`.
pub open spec fn spec_common_type(p: SpecProblem, a: SpecType, b: SpecType) -> SpecType {
    match (a, b) {
        (SpecType::Interval(min1, max1), SpecType::Interval(min2, max2)) => SpecType::Interval(
            if min1 <= min2 {
                min1
            } else {
                min2
            },
            if max1 >= max2 {
                max1
            } else {
                max2
            },
        ),
        (SpecType::Interval(_, _), SpecType::Int) => SpecType::Int,
        (SpecType::Int, SpecType::Interval(_, _)) => SpecType::Int,
        (SpecType::Class(c1), SpecType::Class(c2)) => match spec_common_class(
            p,
            p.classes[c1.0 as int],
            c2,
        ) {
            Some(c) => SpecType::Class(c),
            None => SpecType::Undefined,
        },
        (x, y) => if x == y {
            x
        } else {
            SpecType::Undefined
        },
    }
}

/// A type with its name looked up among the type entries.
pub open spec fn spec_resolve_type(t: SpecType, entries: Seq<SpecTypeEntry>) -> Result<
    SpecType,
    SpecError,
> {
    match t {
        SpecType::Unresolved(name, position) => match spec_type_lookup(entries, name) {
            Some(e) => match e.typ {
                TypeEntryType::Structure(id) => Ok(SpecType::Structure(id)),
                TypeEntryType::Class(id) => Ok(SpecType::Class(id)),
            },
            None => Err(SpecError::Resolve { category: "type"@, name, position }),
        },
        _ => Ok(t),
    }
}

/// How a type is written.
pub open spec fn type_lang(p: SpecProblem, t: SpecType) -> Seq<char> {
    match t {
        SpecType::Bool => "Bool"@,
        SpecType::Int => "Int"@,
        SpecType::Real => "Real"@,
        SpecType::Interval(min, max) => int_text(min as int) + ".."@ + int_text(max as int),
        SpecType::Structure(id) => p.structures[id.0 as int].name,
        SpecType::Class(id) => p.classes[id.0 as int].name,
        SpecType::Unresolved(name, _) => name + "?"@,
        SpecType::Undefined => "?"@,
    }
}

/// A malformed interval (its minimum above its maximum) is an error.
pub open spec fn spec_check_interval(p: SpecProblem, t: SpecType, position: Option<
    SpecPosition,
>) -> Result<(), SpecError> {
    match t {
        SpecType::Interval(min, max) => if min > max {
            Err(SpecError::Interval { name: type_lang(p, t), position })
        } else {
            Ok(())
        },
        _ => Ok(()),
    }
}

/// The instance expressions of a list of instances.
pub open spec fn instance_exprs(s: Seq<InstanceId>) -> Seq<SpecExpr> {
    s.map_values(|i: InstanceId| SpecExpr::Instance(i, None))
}

/// The values of a bounded type, as expressions: the instances of a
/// structure, the instances of a class and of its sub classes, `false` and
/// `true`, the integers from the minimum of an interval up to its maximum
/// included; no value for the other types.
pub open spec fn spec_all(p: SpecProblem, t: SpecType) -> Seq<SpecExpr> {
    match t {
        SpecType::Structure(_) => instance_exprs(instances_of_type(p.instances, t)),
        SpecType::Class(id) => instance_exprs(
            instances_with(
                p,
                instances_of_type(p.instances, t),
                classes_below(p, p.classes, id),
            ),
        ),
        SpecType::Bool => seq![SpecExpr::BoolValue(false, None), SpecExpr::BoolValue(true, None)],
        SpecType::Interval(min, max) => Seq::new(
            if max >= min {
                (max - min + 1) as nat
            } else {
                0
            },
            |k: int| SpecExpr::IntValue((min + k) as isize, None),
        ),
        _ => seq![],
    }
}

impl Type {
    /// Whether the type is a sub type of `other`.
    pub fn is_subtype_of(&self, problem: &Problem, other: &Type) -> (r: bool)
        requires
            problem@.hierarchy_wf(),
            type_valid(problem@, self@),
        ensures
            r == spec_is_subtype_of(problem@, self@, other@),
    {
        match (self, other) {
            (Type::Interval(min1, max1), Type::Interval(min2, max2)) => *min1 >= *min2 && *max1
                <= *max2,
            (Type::Interval(_, _), Type::Int) => true,
            (Type::Class(c1), Type::Class(c2)) => {
                if c1.0 == c2.0 {
                    true
                } else {
                    let c = problem.get_class(*c1).unwrap();
                    proof {
                        assert(spec_super_class(problem@.classes[c1.0 as int]) matches Some(s)
                            ==> s.0 < problem@.classes.len());
                    }
                    let sup = c.super_classes(problem);
                    contains_class(&sup, *c2)
                }
            },
            _ => self.same(other),
        }
    }

    /// Whether the type is compatible with `other`.
    pub fn is_compatible_with(&self, problem: &Problem, other: &Type) -> (r: bool)
        requires
            problem@.hierarchy_wf(),
            type_valid(problem@, self@),
        ensures
            r == spec_is_compatible_with(problem@, self@, other@),
    {
        match (self, other) {
            (Type::Interval(_, _), Type::Interval(_, _)) => true,
            (Type::Interval(_, _), Type::Int) => true,
            (Type::Int, Type::Interval(_, _)) => true,
            _ => self.is_subtype_of(problem, other),
        }
    }

    /// The type that holds the values of both.
    pub fn common_type(&self, problem: &Problem, other: &Type) -> (r: Type)
        requires
            problem@.hierarchy_wf(),
            type_valid(problem@, self@),
            type_valid(problem@, other@),
        ensures
            r@ == spec_common_type(problem@, self@, other@),
    {
        match (self, other) {
            (Type::Interval(min1, max1), Type::Interval(min2, max2)) => Type::Interval(
                if *min1 <= *min2 {
                    *min1
                } else {
                    *min2
                },
                if *max1 >= *max2 {
                    *max1
                } else {
                    *max2
                },
            ),
            (Type::Interval(_, _), Type::Int) => Type::Int,
            (Type::Int, Type::Interval(_, _)) => Type::Int,
            (Type::Class(c1), Type::Class(c2)) => {
                let c = problem.get_class(*c1).unwrap();
                proof {
                    assert(spec_super_class(problem@.classes[c1.0 as int]) matches Some(s) ==> s.0
                        < problem@.classes.len());
                }
                match c.common_class(problem, *c2) {
                    Some(x) => Type::Class(x),
                    None => Type::Undefined,
                }
            },
            _ => {
                if self.same(other) {
                    self.copy()
                } else {
                    Type::Undefined
                }
            },
        }
    }

    /// The type with its name looked up among the type entries.
    pub fn resolve_type(&self, entries: &TypeEntries) -> (r: Result<Type, Error>)
        requires
            !(self@ is Undefined),
        ensures
            type_result(r) == spec_resolve_type(self@, entries@),
    {
        match self {
            Type::Unresolved(name, position) => match entries.get(name.as_str()) {
                Some(entry) => match entry.typ() {
                    TypeEntryType::Structure(id) => Ok(Type::Structure(id)),
                    TypeEntryType::Class(id) => Ok(Type::Class(id)),
                },
                None => Err(
                    Error::Resolve {
                        category: String::from_str("type"),
                        name: name.clone(),
                        position: copy_pos(position),
                    },
                ),
            },
            _ => Ok(self.copy()),
        }
    }

    /// How the type is written.
    pub fn to_lang(&self, problem: &Problem) -> (r: String)
        requires
            type_valid(problem@, self@),
        ensures
            r@ == type_lang(problem@, self@),
    {
        proof {
            reveal_strlit("Bool");
            reveal_strlit("Int");
            reveal_strlit("Real");
            reveal_strlit("..");
            reveal_strlit("?");
        }
        match self {
            Type::Bool => String::from_str("Bool"),
            Type::Int => String::from_str("Int"),
            Type::Real => String::from_str("Real"),
            Type::Interval(min, max) => {
                let mut s = isize_text(*min);
                s.append("..");
                let t = isize_text(*max);
                s.append(t.as_str());
                s
            },
            Type::Structure(id) => problem.get_structure(*id).unwrap().name.clone(),
            Type::Class(id) => problem.get_class(*id).unwrap().name.clone(),
            Type::Unresolved(name, _) => {
                let mut s = name.clone();
                s.append("?");
                s
            },
            Type::Undefined => String::from_str("?"),
        }
    }

    /// A malformed interval is an error, reported at `position`.
    pub fn check_interval(&self, problem: &Problem, position: &Option<Position>) -> (r: Result<
        (),
        Error,
    >)
        requires
            type_valid(problem@, self@),
        ensures
            result_view(r) == spec_check_interval(problem@, self@, opt_pos(*position)),
    {
        match self {
            Type::Interval(min, max) => {
                if *min > *max {
                    Err(Error::Interval { name: self.to_lang(problem), position: copy_pos(position) })
                } else {
                    Ok(())
                }
            },
            _ => Ok(()),
        }
    }

    /// The values of a bounded type, as expressions.
    pub fn all(&self, problem: &Problem) -> (r: Vec<Expr>)
        requires
            problem@.ids_wf(),
            problem@.hierarchy_wf(),
            type_valid(problem@, self@),
        ensures
            exprs_view(r@) == spec_all(problem@, self@),
    {
        match self {
            Type::Structure(_) => {
                let ids = instances_of(problem, self);
                instance_expr_vec(&ids)
            },
            Type::Class(id) => {
                let class = problem.get_class(*id).unwrap();
                let ids = class.all_instances(problem);
                instance_expr_vec(&ids)
            },
            Type::Bool => {
                let mut v: Vec<Expr> = Vec::new();
                v.push(Expr::BoolValue(false, None));
                v.push(Expr::BoolValue(true, None));
                proof {
                    lemma_exprs_view(v@);
                    assert(exprs_view(v@) =~= spec_all(problem@, self@));
                }
                v
            },
            Type::Interval(min, max) => {
                let mut v: Vec<Expr> = Vec::new();
                if *min <= *max {
                    let mut i: isize = *min;
                    loop
                        invariant_except_break
                            *min <= i <= *max,
                            v@.len() == i - *min,
                        invariant
                            forall|k: int| 0 <= k < v@.len() ==> #[trigger] v@[k]@ == SpecExpr::IntValue((*min + k) as isize, None),
                        ensures
                            v@.len() == *max - *min + 1,
                            forall|k: int| 0 <= k < v@.len() ==> #[trigger] v@[k]@ == SpecExpr::IntValue((*min + k) as isize, None),
                        decreases *max - i,
                    {
                        v.push(Expr::IntValue(i, None));
                        if i == *max {
                            break;
                        }
                        i += 1;
                    }
                }
                proof {
                    lemma_exprs_view(v@);
                    assert(exprs_view(v@) =~= spec_all(problem@, self@));
                }
                v
            },
            _ => {
                let v: Vec<Expr> = Vec::new();
                proof {
                    lemma_exprs_view(v@);
                    assert(exprs_view(v@) =~= spec_all(problem@, self@));
                }
                v
            },
        }
    }
}

/// The instances of `ids`, each as an expression.
fn instance_expr_vec(ids: &Vec<InstanceId>) -> (r: Vec<Expr>)
    ensures
        exprs_view(r@) == instance_exprs(ids@),
{
    let mut v: Vec<Expr> = Vec::new();
    let mut i: usize = 0;
    while i < ids.len()
        invariant
            i <= ids.len(),
            v@.len() == i,
            forall|k: int| 0 <= k < i ==> #[trigger] v@[k]@ == SpecExpr::Instance(ids@[k], None),
        decreases ids.len() - i,
    {
        v.push(Expr::Instance(ids[i], None));
        i += 1;
    }
    proof {
        lemma_exprs_view(v@);
        assert(exprs_view(v@) =~= instance_exprs(ids@));
    }
    v
}

/// Every type is a sub type of itself.
pub proof fn law_subtype_reflexive(p: SpecProblem, t: SpecType)
    ensures
        spec_is_subtype_of(p, t, t),
{
}

/// Every type is compatible with itself.
pub proof fn law_compatible_reflexive(p: SpecProblem, t: SpecType)
    ensures
        spec_is_compatible_with(p, t, t),
{
}

/// The values of an interval are its integers from the minimum to the
/// maximum, both included, in order.
pub proof fn law_interval_values(p: SpecProblem, min: isize, max: isize)
    requires
        min <= max,
    ensures
        spec_all(p, SpecType::Interval(min, max)).len() == max - min + 1,
        spec_all(p, SpecType::Interval(min, max))[0] == SpecExpr::IntValue(min, None),
        spec_all(p, SpecType::Interval(min, max)).last() == SpecExpr::IntValue(max, None),
{
}

/// Resolving a type leaves no unresolved name, and resolving the result
/// again gives it back: every type but an unresolved name is kept.
pub proof fn law_resolve_type_idempotent(t: SpecType, entries: Seq<SpecTypeEntry>)
    ensures
        !(t is Unresolved) ==> spec_resolve_type(t, entries) == Ok::<SpecType, SpecError>(t),
        spec_resolve_type(t, entries) matches Ok(r) ==> !(r is Unresolved) && spec_resolve_type(r, entries)
            == Ok::<SpecType, SpecError>(r),
{
}

/// A sub type is compatible with its super type, and two integer types are
/// compatible whatever their bounds; `Real` is not compatible with `Int`.
pub proof fn law_subtype_compatible(p: SpecProblem, a: SpecType, b: SpecType, min1: isize, max1: isize, min2: isize, max2: isize)
    ensures
        spec_is_subtype_of(p, a, b) ==> spec_is_compatible_with(p, a, b),
        spec_is_compatible_with(p, SpecType::Interval(min1, max1), SpecType::Interval(min2, max2)),
        spec_is_compatible_with(p, SpecType::Interval(min1, max1), SpecType::Int),
        spec_is_compatible_with(p, SpecType::Int, SpecType::Interval(min1, max1)),
        !spec_is_compatible_with(p, SpecType::Real, SpecType::Int),
        !spec_is_compatible_with(p, SpecType::Int, SpecType::Real),
{
}

/// Between types other than classes, being a sub type is a partial order:
/// reflexive, transitive and antisymmetric; an interval is a sub type of
/// another exactly when its bounds are within the other's.
pub proof fn law_subtype_order(p: SpecProblem, a: SpecType, b: SpecType, c: SpecType, min1: isize, max1: isize, min2: isize, max2: isize)
    requires
        !(a is Class),
        !(b is Class),
        !(c is Class),
    ensures
        spec_is_subtype_of(p, a, a),
        spec_is_subtype_of(p, a, b) && spec_is_subtype_of(p, b, c) ==> spec_is_subtype_of(p, a, c),
        spec_is_subtype_of(p, a, b) && spec_is_subtype_of(p, b, a) ==> a == b,
        spec_is_subtype_of(p, SpecType::Interval(min1, max1), SpecType::Interval(min2, max2)) <==> (min2
            <= min1 && max1 <= max2),
{
}

/// Compatibility is symmetric, but between two classes, where it is being
/// a sub class (a class is compatible with its super class, not the other
/// way).
pub proof fn law_compatible_symmetric(p: SpecProblem, a: SpecType, b: SpecType)
    requires
        !(a is Class && b is Class),
    ensures
        spec_is_compatible_with(p, a, b) == spec_is_compatible_with(p, b, a),
{
}

} // verus!
