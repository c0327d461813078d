//! Resolving the names written in an expression: identifiers, function
//! calls, attributes and methods.

use crate::error::Error;
use crate::error::SpecError;
use crate::error::expr_result;
use crate::parser::position::Position;
use crate::parser::position::SpecPosition;
use crate::parser::position::copy_pos;
use crate::parser::position::opt_pos;
use crate::problem::attribute::attr_names;
use crate::problem::class::Class;
use crate::problem::class::spec_super_class;
use crate::problem::entry::Entries;
use crate::problem::entry::Entry;
use crate::problem::entry::EntryType;
use crate::problem::entry::SpecEntry;
use crate::problem::entry::SpecEntryType;
use crate::problem::entry::entry_names;
use crate::problem::entry::last_named;
use crate::problem::entry::lemma_last_named;
use crate::problem::entry::spec_lookup;
use crate::problem::expression::every::NodeCheck;
use crate::problem::expression::every::every;
use crate::problem::expression::every::every_list;
use crate::problem::expression::every::every_pairs;
use crate::problem::expression::every::lemma_every_list;
use crate::problem::expression::every::lemma_every_pairs;
use crate::problem::expression::expr::Expr;
use crate::problem::expression::expr::SpecExpr;
use crate::problem::expression::expr::exprs_view;
use crate::problem::expression::expr::lemma_exprs_view;
use crate::problem::expression::expr::lemma_pairs_view;
use crate::problem::expression::expr::pairs_view;
use crate::problem::expression::resolve_type::exprs_result;
use crate::problem::expression::resolve_type::pairs_result;
use crate::problem::expression::typ::lemma_typ_valid;
use crate::problem::expression::typ::spec_typ;
use crate::problem::hierarchy::spec_super_classes;
use crate::problem::hierarchy2::inherited_attribute;
use crate::problem::hierarchy2::inherited_method;
use crate::problem::hierarchy2::lemma_super_classes_valid;
use crate::problem::ids::AttributeId;
use crate::problem::ids::ClassId;
use crate::problem::ids::FunctionId;
use crate::problem::ids::MethodId;
use crate::problem::ids::StructureId;
use crate::problem::instance::Instance;
use crate::problem::method::meth_names;
use crate::problem::naming::first_named;
use crate::problem::naming::lemma_first_named;
use crate::problem::parameter::Parameter;
use crate::problem::parameter::SpecParameter;
use crate::problem::parameter::copy_params;
use crate::problem::parameter::params_view;
use crate::problem::problem::Problem;
use crate::problem::problem::SpecProblem;
use crate::problem::problem::function_names;
use crate::problem::relations::type_lang;
use crate::problem::relations::type_valid;
use crate::problem::structure::Structure;
use crate::problem::typing::SpecType;
use crate::problem::typing::Type;
use crate::problem::valid::expr_valid;
use crate::problem::valid::exprs_valid;
use crate::problem::valid::lemma_exprs_valid;
use crate::problem::valid::lemma_pairs_valid;
use crate::problem::valid::pairs_valid;
use crate::problem::validate::expr_ok;
use crate::problem::variable::Variable;
use vstd::string::*;
use vstd::prelude::*;

verus! {

/// What an entry stands for refers to declarations of the problem.
pub open spec fn entry_valid(p: SpecProblem, e: SpecEntry) -> bool {
    match e.typ {
        SpecEntryType::Instance(id) => id.0 < p.instances.len(),
        SpecEntryType::Variable(id) => id.0 < p.variables.len(),
        SpecEntryType::Parameter(q) => type_valid(p, q.typ),
        SpecEntryType::StrucSelf(id) => id.0 < p.structures.len(),
        SpecEntryType::ClassSelf(id) => id.0 < p.classes.len(),
    }
}

/// Every entry refers to declarations of the problem.
pub open spec fn entries_valid(p: SpecProblem, s: Seq<SpecEntry>) -> bool {
    forall|i: int| 0 <= i < s.len() ==> #[trigger] entry_valid(p, s[i])
}

/// The entries that the parameters of a quantifier add, in order.
pub open spec fn param_entries(ps: Seq<SpecParameter>) -> Seq<SpecEntry> {
    ps.map_values(|q: SpecParameter| SpecEntry { name: q.name, typ: SpecEntryType::Parameter(q) })
}

/// The expression that an entry stands for, written at `pos`.
pub open spec fn entry_expr(t: SpecEntryType, pos: Option<SpecPosition>) -> SpecExpr {
    match t {
        SpecEntryType::Variable(id) => SpecExpr::Variable(id, pos),
        SpecEntryType::Parameter(q) => SpecExpr::Parameter(q),
        SpecEntryType::Instance(id) => SpecExpr::Instance(id, pos),
        SpecEntryType::StrucSelf(id) => SpecExpr::StrucSelf(id, pos),
        SpecEntryType::ClassSelf(id) => SpecExpr::ClassSelf(id, pos),
    }
}

/// The first function of that name.
pub open spec fn find_function_id(p: SpecProblem, name: Seq<char>) -> Option<FunctionId> {
    match first_named(function_names(p.functions), name, 0) {
        Some(i) => Some(p.functions[i].id),
        None => None,
    }
}

/// The first attribute of that name of structure `s`.
pub open spec fn struct_attr_named(p: SpecProblem, s: StructureId, name: Seq<char>) -> Option<
    AttributeId<StructureId>,
> {
    let attrs = p.structures[s.0 as int].attributes;
    match first_named(attr_names(attrs), name, 0) {
        Some(i) => Some(attrs[i].id),
        None => None,
    }
}

/// The first method of that name of structure `s`.
pub open spec fn struct_meth_named(p: SpecProblem, s: StructureId, name: Seq<char>) -> Option<
    MethodId<StructureId>,
> {
    let meths = p.structures[s.0 as int].methods;
    match first_named(meth_names(meths), name, 0) {
        Some(i) => Some(meths[i].id),
        None => None,
    }
}

/// The attribute of that name of class `c`, its own first, then those of its
/// super classes, nearest first.
pub open spec fn class_attr_named(p: SpecProblem, c: ClassId, name: Seq<char>) -> Option<
    AttributeId<ClassId>,
> {
    let k = p.classes[c.0 as int];
    match first_named(attr_names(k.attributes), name, 0) {
        Some(i) => Some(k.attributes[i].id),
        None => match inherited_attribute(p, spec_super_classes(p, k), name) {
            Some(a) => Some(a.id),
            None => None,
        },
    }
}

/// The method of that name of class `c`, its own first, then those of its
/// super classes, nearest first.
pub open spec fn class_meth_named(p: SpecProblem, c: ClassId, name: Seq<char>) -> Option<
    MethodId<ClassId>,
> {
    let k = p.classes[c.0 as int];
    match first_named(meth_names(k.methods), name, 0) {
        Some(i) => Some(k.methods[i].id),
        None => match inherited_method(p, spec_super_classes(p, k), name) {
            Some(m) => Some(m.id),
            None => None,
        },
    }
}

/// The category of an unknown member of a value of type `t`.
pub open spec fn member_category(p: SpecProblem, kind: Seq<char>, t: SpecType) -> Seq<char> {
    kind + " for type '"@ + type_lang(p, t) + "'"@
}

/// The attribute `name` of the resolved expression `y`: an error where the
/// type of `y` has no such attribute; `None` where that type is neither a
/// structure nor a class.
pub open spec fn attr_access(p: SpecProblem, y: SpecExpr, name: Seq<char>, pos: Option<SpecPosition>) -> Option<
    Result<SpecExpr, SpecError>,
> {
    match spec_typ(p, y) {
        SpecType::Structure(s) => match struct_attr_named(p, s, name) {
            Some(id) => Some(Ok(SpecExpr::StrucAttribute(Box::new(y), id, pos))),
            None => Some(
                Err(
                    SpecError::Resolve {
                        category: member_category(p, "attibute"@, spec_typ(p, y)),
                        name,
                        position: pos,
                    },
                ),
            ),
        },
        SpecType::Class(c) => match class_attr_named(p, c, name) {
            Some(id) => Some(Ok(SpecExpr::ClassAttribute(Box::new(y), id, pos))),
            None => Some(
                Err(
                    SpecError::Resolve {
                        category: member_category(p, "attibute"@, spec_typ(p, y)),
                        name,
                        position: pos,
                    },
                ),
            ),
        },
        _ => None,
    }
}

/// The call of method `name` on the resolved expression `y` with the
/// resolved arguments `v`: an error where the type of `y` has no such
/// method; `None` where that type is neither a structure nor a class.
pub open spec fn meth_access(
    p: SpecProblem,
    y: SpecExpr,
    name: Seq<char>,
    v: Seq<SpecExpr>,
    pos: Option<SpecPosition>,
) -> Option<Result<SpecExpr, SpecError>> {
    match spec_typ(p, y) {
        SpecType::Structure(s) => match struct_meth_named(p, s, name) {
            Some(id) => Some(Ok(SpecExpr::StrucMetCall(Box::new(y), id, v, pos))),
            None => Some(
                Err(
                    SpecError::Resolve {
                        category: member_category(p, "method"@, spec_typ(p, y)),
                        name,
                        position: pos,
                    },
                ),
            ),
        },
        SpecType::Class(c) => match class_meth_named(p, c, name) {
            Some(id) => Some(Ok(SpecExpr::ClassMetCall(Box::new(y), id, v, pos))),
            None => Some(
                Err(
                    SpecError::Resolve {
                        category: member_category(p, "method"@, spec_typ(p, y)),
                        name,
                        position: pos,
                    },
                ),
            ),
        },
        _ => None,
    }
}

/// The expression with its names resolved against the problem and the
/// entries: `Some(Ok(..))` with the resolved expression, `Some(Err(..))`
/// with the first name that is not found (children from left to right), or
/// `None` where an attribute or a method is asked of a value whose type
/// cannot be computed (a problem that is not well formed, or an identifier
/// in the value that names nothing of the problem) or that is neither of a
/// structure nor of a class.
pub open spec fn spec_resolve(p: SpecProblem, e: SpecExpr, en: Seq<SpecEntry>) -> Option<
    Result<SpecExpr, SpecError>,
>
    decreases e, 0nat,
{
    match e {
        SpecExpr::Unary(o, x, pos) => match spec_resolve(p, *x, en) {
            Some(Ok(y)) => Some(Ok(SpecExpr::Unary(o, Box::new(y), pos))),
            other => other,
        },
        SpecExpr::Binary(l, o, r, pos) => match spec_resolve(p, *l, en) {
            Some(Ok(a)) => match spec_resolve(p, *r, en) {
                Some(Ok(b)) => Some(Ok(SpecExpr::Binary(Box::new(a), o, Box::new(b), pos))),
                other => other,
            },
            other => other,
        },
        SpecExpr::FunctionCall(id, a, pos) => match list_resolve(p, a, en, a.len()) {
            Some(Ok(v)) => Some(Ok(SpecExpr::FunctionCall(id, v, pos))),
            Some(Err(er)) => Some(Err(er)),
            None => None,
        },
        SpecExpr::StrucAttribute(x, id, pos) => match spec_resolve(p, *x, en) {
            Some(Ok(y)) => Some(Ok(SpecExpr::StrucAttribute(Box::new(y), id, pos))),
            other => other,
        },
        SpecExpr::StrucMetCall(x, id, a, pos) => match spec_resolve(p, *x, en) {
            Some(Ok(y)) => match list_resolve(p, a, en, a.len()) {
                Some(Ok(v)) => Some(Ok(SpecExpr::StrucMetCall(Box::new(y), id, v, pos))),
                Some(Err(er)) => Some(Err(er)),
                None => None,
            },
            other => other,
        },
        SpecExpr::ClassAttribute(x, id, pos) => match spec_resolve(p, *x, en) {
            Some(Ok(y)) => Some(Ok(SpecExpr::ClassAttribute(Box::new(y), id, pos))),
            other => other,
        },
        SpecExpr::ClassMetCall(x, id, a, pos) => match spec_resolve(p, *x, en) {
            Some(Ok(y)) => match list_resolve(p, a, en, a.len()) {
                Some(Ok(v)) => Some(Ok(SpecExpr::ClassMetCall(Box::new(y), id, v, pos))),
                Some(Err(er)) => Some(Err(er)),
                None => None,
            },
            other => other,
        },
        SpecExpr::AsClass(x, id) => match spec_resolve(p, *x, en) {
            Some(Ok(y)) => Some(Ok(SpecExpr::AsClass(Box::new(y), id))),
            other => other,
        },
        SpecExpr::AsInterval(x, min, max, pos) => match spec_resolve(p, *x, en) {
            Some(Ok(y)) => Some(Ok(SpecExpr::AsInterval(Box::new(y), min, max, pos))),
            other => other,
        },
        SpecExpr::AsInt(x, pos) => match spec_resolve(p, *x, en) {
            Some(Ok(y)) => Some(Ok(SpecExpr::AsInt(Box::new(y), pos))),
            other => other,
        },
        SpecExpr::AsReal(x, pos) => match spec_resolve(p, *x, en) {
            Some(Ok(y)) => Some(Ok(SpecExpr::AsReal(Box::new(y), pos))),
            other => other,
        },
        SpecExpr::IfThenElse(c, t, l, x, pos) => match spec_resolve(p, *c, en) {
            Some(Ok(c2)) => match spec_resolve(p, *t, en) {
                Some(Ok(t2)) => match pairs_resolve(p, l, en, l.len()) {
                    Some(Ok(l2)) => match spec_resolve(p, *x, en) {
                        Some(Ok(x2)) => Some(
                            Ok(SpecExpr::IfThenElse(Box::new(c2), Box::new(t2), l2, Box::new(x2), pos)),
                        ),
                        other => other,
                    },
                    Some(Err(er)) => Some(Err(er)),
                    None => None,
                },
                other => other,
            },
            other => other,
        },
        SpecExpr::Quantifier(op, ps, x, pos) => match spec_resolve(p, *x, en + param_entries(ps)) {
            Some(Ok(y)) => Some(Ok(SpecExpr::Quantifier(op, ps, Box::new(y), pos))),
            other => other,
        },
        SpecExpr::Unresolved(name, pos) => match spec_lookup(en, name) {
            Some(entry) => Some(Ok(entry_expr(entry.typ, pos))),
            None => Some(
                Err(SpecError::Resolve { category: "identifier"@, name, position: pos }),
            ),
        },
        SpecExpr::UnresolvedFunCall(name, a, pos) => match list_resolve(p, a, en, a.len()) {
            Some(Ok(v)) => match find_function_id(p, name) {
                Some(id) => Some(Ok(SpecExpr::FunctionCall(id, v, pos))),
                None => Some(
                    Err(SpecError::Resolve { category: "function"@, name, position: pos }),
                ),
            },
            Some(Err(er)) => Some(Err(er)),
            None => None,
        },
        SpecExpr::UnresolvedAttribute(x, name, pos) => match spec_resolve(p, *x, en) {
            Some(Ok(y)) => if p.wf() && expr_valid(p, y) {
                attr_access(p, y, name, pos)
            } else {
                None
            },
            other => other,
        },
        SpecExpr::UnresolvedMethCall(x, name, a, pos) => match spec_resolve(p, *x, en) {
            Some(Ok(y)) => match list_resolve(p, a, en, a.len()) {
                Some(Ok(v)) => if p.wf() && expr_valid(p, y) {
                    meth_access(p, y, name, v, pos)
                } else {
                    None
                },
                Some(Err(er)) => Some(Err(er)),
                None => None,
            },
            other => other,
        },
        _ => Some(Ok(e)),
    }
}

/// The first `n` expressions of the list resolved, in order, stopping at the
/// first error or the first impossible access.
pub open spec fn list_resolve(p: SpecProblem, s: Seq<SpecExpr>, en: Seq<SpecEntry>, n: nat) -> Option<
    Result<Seq<SpecExpr>, SpecError>,
>
    decreases s, n,
{
    if n == 0 || n > s.len() {
        Some(Ok(seq![]))
    } else {
        match list_resolve(p, s, en, (n - 1) as nat) {
            Some(Ok(v)) => match spec_resolve(p, s[n - 1], en) {
                Some(Ok(x)) => Some(Ok(v.push(x))),
                Some(Err(er)) => Some(Err(er)),
                None => None,
            },
            other => other,
        }
    }
}

/// The first `n` pairs of the list resolved, in order, stopping at the first
/// error or the first impossible access.
pub open spec fn pairs_resolve(
    p: SpecProblem,
    s: Seq<(SpecExpr, SpecExpr)>,
    en: Seq<SpecEntry>,
    n: nat,
) -> Option<Result<Seq<(SpecExpr, SpecExpr)>, SpecError>>
    decreases s, n,
{
    if n == 0 || n > s.len() {
        Some(Ok(seq![]))
    } else {
        match pairs_resolve(p, s, en, (n - 1) as nat) {
            Some(Ok(v)) => match spec_resolve(p, s[n - 1].0, en) {
                Some(Ok(x)) => match spec_resolve(p, s[n - 1].1, en) {
                    Some(Ok(y)) => Some(Ok(v.push((x, y)))),
                    Some(Err(er)) => Some(Err(er)),
                    None => None,
                },
                Some(Err(er)) => Some(Err(er)),
                None => None,
            },
            other => other,
        }
    }
}

/// View of an outcome that may not come.
pub open spec fn opt_expr_result(r: Option<Result<Expr, Error>>) -> Option<Result<SpecExpr, SpecError>> {
    match r {
        Some(x) => Some(expr_result(x)),
        None => None,
    }
}

/// View of an outcome, for a list, that may not come.
pub open spec fn opt_exprs_result(r: Option<Result<Vec<Expr>, Error>>) -> Option<
    Result<Seq<SpecExpr>, SpecError>,
> {
    match r {
        Some(x) => Some(exprs_result(x)),
        None => None,
    }
}

/// View of an outcome, for a list of pairs, that may not come.
pub open spec fn opt_pairs_result(r: Option<Result<Vec<(Expr, Expr)>, Error>>) -> Option<
    Result<Seq<(SpecExpr, SpecExpr)>, SpecError>,
> {
    match r {
        Some(x) => Some(pairs_result(x)),
        None => None,
    }
}

/// Once a prefix of a list stops, every longer prefix stops the same way.
proof fn lemma_list_resolve_stops(p: SpecProblem, s: Seq<SpecExpr>, en: Seq<SpecEntry>, i: nat, n: nat)
    requires
        i <= n <= s.len(),
        !(list_resolve(p, s, en, i) matches Some(Ok(_))),
    ensures
        list_resolve(p, s, en, n) == list_resolve(p, s, en, i),
    decreases n - i,
{
    if i < n {
        lemma_list_resolve_stops(p, s, en, i, (n - 1) as nat);
    }
}

/// Once a prefix of a list of pairs stops, every longer prefix stops the
/// same way.
proof fn lemma_pairs_resolve_stops(
    p: SpecProblem,
    s: Seq<(SpecExpr, SpecExpr)>,
    en: Seq<SpecEntry>,
    i: nat,
    n: nat,
)
    requires
        i <= n <= s.len(),
        !(pairs_resolve(p, s, en, i) matches Some(Ok(_))),
    ensures
        pairs_resolve(p, s, en, n) == pairs_resolve(p, s, en, i),
    decreases n - i,
{
    if i < n {
        lemma_pairs_resolve_stops(p, s, en, i, (n - 1) as nat);
    }
}

/// An attribute inherited from classes of the problem is an attribute of the
/// problem.
proof fn lemma_inherited_attribute_valid(p: SpecProblem, cs: Seq<ClassId>, name: Seq<char>)
    requires
        p.ids_wf(),
        forall|i: int| 0 <= i < cs.len() ==> #[trigger] cs[i].0 < p.classes.len(),
    ensures
        inherited_attribute(p, cs, name) matches Some(a) ==> p.has_class_attr(a.id),
    decreases cs.len(),
{
    if cs.len() > 0 {
        let k = p.classes[cs[0].0 as int];
        let attrs = k.attributes;
        match first_named(attr_names(attrs), name, 0) {
            Some(i) => {
                lemma_first_named(attr_names(attrs), name, 0);
                assert(attrs[i].id == AttributeId(cs[0], i as usize));
            },
            None => {
                assert forall|i: int| 0 <= i < cs.skip(1).len() implies #[trigger] cs.skip(1)[i].0
                    < p.classes.len() by {
                    assert(cs.skip(1)[i] == cs[i + 1]);
                }
                lemma_inherited_attribute_valid(p, cs.skip(1), name);
            },
        }
    }
}

/// A method inherited from classes of the problem is a method of the
/// problem.
proof fn lemma_inherited_method_valid(p: SpecProblem, cs: Seq<ClassId>, name: Seq<char>)
    requires
        p.ids_wf(),
        forall|i: int| 0 <= i < cs.len() ==> #[trigger] cs[i].0 < p.classes.len(),
    ensures
        inherited_method(p, cs, name) matches Some(m) ==> p.has_class_meth(m.id),
    decreases cs.len(),
{
    if cs.len() > 0 {
        let k = p.classes[cs[0].0 as int];
        let meths = k.methods;
        match first_named(meth_names(meths), name, 0) {
            Some(i) => {
                lemma_first_named(meth_names(meths), name, 0);
                assert(meths[i].id == MethodId(cs[0], i as usize));
            },
            None => {
                assert forall|i: int| 0 <= i < cs.skip(1).len() implies #[trigger] cs.skip(1)[i].0
                    < p.classes.len() by {
                    assert(cs.skip(1)[i] == cs[i + 1]);
                }
                lemma_inherited_method_valid(p, cs.skip(1), name);
            },
        }
    }
}

/// The entries with the parameters of a quantifier after them.
pub fn add_param_entries(entries: &Entries, ps: &Vec<Parameter>) -> (r: Entries)
    ensures
        r@ == entries@ + param_entries(params_view(ps@)),
{
    let ghost pe = param_entries(params_view(ps@));
    let mut en = entries.copy();
    let mut i: usize = 0;
    while i < ps.len()
        invariant
            i <= ps.len(),
            pe == param_entries(params_view(ps@)),
            en@ == entries@ + pe.take(i as int),
        decreases ps.len() - i,
    {
        en = en.add(Entry::new_parameter(&ps[i]));
        proof {
            assert(pe.take(i + 1) =~= pe.take(i as int).push(pe[i as int]));
            assert(en@ =~= entries@ + pe.take(i + 1));
        }
        i += 1;
    }
    proof {
        assert(pe.take(ps.len() as int) =~= pe);
    }
    en
}

/// The expression that an entry stands for, written at `pos`.
fn entry_to_expr(t: &EntryType, pos: &Option<Position>) -> (r: Expr)
    ensures
        r@ == entry_expr(t@, opt_pos(*pos)),
{
    match t {
        EntryType::Variable(id) => Expr::Variable(*id, copy_pos(pos)),
        EntryType::Parameter(q) => Expr::Parameter(q.copy()),
        EntryType::Instance(id) => Expr::Instance(*id, copy_pos(pos)),
        EntryType::StrucSelf(id) => Expr::StrucSelf(*id, copy_pos(pos)),
        EntryType::ClassSelf(id) => Expr::ClassSelf(*id, copy_pos(pos)),
    }
}

/// The category of an unknown member of a value of type `t`.
fn member_text(problem: &Problem, kind: &str, t: &Type) -> (r: String)
    requires
        type_valid(problem@, t@),
    ensures
        r@ == member_category(problem@, kind@, t@),
{
    let mut s = String::from_str(kind);
    s.append(" for type '");
    let name = t.to_lang(problem);
    s.append(name.as_str());
    s.append("'");
    s
}

impl Expr {
    /// The expression with its names resolved against the problem and the
    /// entries, the first name that is not found, or `None` where an
    /// attribute or a method is asked of a value whose type cannot be
    /// computed or that is neither of a structure nor of a class.
    #[verifier::rlimit(40)]
    pub fn resolve_checked(&self, problem: &Problem, entries: &Entries) -> (r: Option<Result<Expr, Error>>)
        ensures
            opt_expr_result(r) == spec_resolve(problem@, self@, entries@),
            problem@.wf() && entries_valid(problem@, entries@) && expr_valid(problem@, self@) ==> (r matches Some(
                Ok(x),
            ) ==> expr_valid(problem@, x@)),
        decreases self,
    {
        let ghost p = problem@;
        match self {
            Expr::Unary(o, e, pos) => match e.resolve_checked(problem, entries) {
                Some(Ok(y)) => Some(Ok(Expr::Unary(*o, Box::new(y), copy_pos(pos)))),
                other => other,
            },
            Expr::Binary(l, o, r, pos) => match l.resolve_checked(problem, entries) {
                Some(Ok(a)) => match r.resolve_checked(problem, entries) {
                    Some(Ok(b)) => Some(Ok(Expr::Binary(Box::new(a), *o, Box::new(b), copy_pos(pos)))),
                    other => other,
                },
                other => other,
            },
            Expr::FunctionCall(id, a, pos) => {
                proof {
                    lemma_exprs_view(a@);
                }
                match resolve_list(problem, entries, a) {
                    Some(Ok(v)) => Some(Ok(Expr::FunctionCall(*id, v, copy_pos(pos)))),
                    Some(Err(er)) => Some(Err(er)),
                    None => None,
                }
            },
            Expr::StrucAttribute(e, id, pos) => match e.resolve_checked(problem, entries) {
                Some(Ok(y)) => Some(Ok(Expr::StrucAttribute(Box::new(y), *id, copy_pos(pos)))),
                other => other,
            },
            Expr::StrucMetCall(e, id, a, pos) => {
                proof {
                    lemma_exprs_view(a@);
                }
                match e.resolve_checked(problem, entries) {
                    Some(Ok(y)) => match resolve_list(problem, entries, a) {
                        Some(Ok(v)) => Some(Ok(Expr::StrucMetCall(Box::new(y), *id, v, copy_pos(pos)))),
                        Some(Err(er)) => Some(Err(er)),
                        None => None,
                    },
                    other => other,
                }
            },
            Expr::ClassAttribute(e, id, pos) => match e.resolve_checked(problem, entries) {
                Some(Ok(y)) => Some(Ok(Expr::ClassAttribute(Box::new(y), *id, copy_pos(pos)))),
                other => other,
            },
            Expr::ClassMetCall(e, id, a, pos) => {
                proof {
                    lemma_exprs_view(a@);
                }
                match e.resolve_checked(problem, entries) {
                    Some(Ok(y)) => match resolve_list(problem, entries, a) {
                        Some(Ok(v)) => Some(Ok(Expr::ClassMetCall(Box::new(y), *id, v, copy_pos(pos)))),
                        Some(Err(er)) => Some(Err(er)),
                        None => None,
                    },
                    other => other,
                }
            },
            Expr::AsClass(e, id) => match e.resolve_checked(problem, entries) {
                Some(Ok(y)) => Some(Ok(Expr::AsClass(Box::new(y), *id))),
                other => other,
            },
            Expr::AsInterval(e, min, max, pos) => match e.resolve_checked(problem, entries) {
                Some(Ok(y)) => Some(Ok(Expr::AsInterval(Box::new(y), *min, *max, copy_pos(pos)))),
                other => other,
            },
            Expr::AsInt(e, pos) => match e.resolve_checked(problem, entries) {
                Some(Ok(y)) => Some(Ok(Expr::AsInt(Box::new(y), copy_pos(pos)))),
                other => other,
            },
            Expr::AsReal(e, pos) => match e.resolve_checked(problem, entries) {
                Some(Ok(y)) => Some(Ok(Expr::AsReal(Box::new(y), copy_pos(pos)))),
                other => other,
            },
            Expr::IfThenElse(c, t, l, e, pos) => {
                proof {
                    lemma_pairs_view(l@);
                }
                match c.resolve_checked(problem, entries) {
                    Some(Ok(c2)) => match t.resolve_checked(problem, entries) {
                        Some(Ok(t2)) => match resolve_pairs(problem, entries, l) {
                            Some(Ok(l2)) => match e.resolve_checked(problem, entries) {
                                Some(Ok(e2)) => Some(
                                    Ok(
                                        Expr::IfThenElse(
                                            Box::new(c2),
                                            Box::new(t2),
                                            l2,
                                            Box::new(e2),
                                            copy_pos(pos),
                                        ),
                                    ),
                                ),
                                other => other,
                            },
                            Some(Err(er)) => Some(Err(er)),
                            None => None,
                        },
                        other => other,
                    },
                    other => other,
                }
            },
            Expr::Quantifier(op, ps, e, pos) => {
                let en = add_param_entries(entries, ps);
                proof {
                    if entries_valid(p, entries@) && expr_valid(p, self@) {
                    assert forall|i: int| 0 <= i < en@.len() implies #[trigger] entry_valid(p, en@[i]) by {
                        if i >= entries@.len() {
                            let k = i - entries@.len();
                            assert(en@[i] == param_entries(params_view(ps@))[k]);
                            assert(type_valid(p, params_view(ps@)[k].typ));
                        } else {
                            assert(en@[i] == entries@[i]);
                        }
                    }
                    }
                }
                match e.resolve_checked(problem, &en) {
                    Some(Ok(y)) => Some(Ok(Expr::Quantifier(*op, copy_params(ps), Box::new(y), copy_pos(pos)))),
                    other => other,
                }
            },
            Expr::Unresolved(name, pos) => match entries.get(name.as_str()) {
                Some(entry) => {
                    proof {
                        let k = last_named(entry_names(entries@), name@, entries@.len() as int);
                        lemma_last_named(entry_names(entries@), name@, entries@.len() as int);
                        if entries_valid(p, entries@) {
                            assert(entry_valid(p, entries@[k.unwrap()]));
                        }
                    }
                    Some(Ok(entry_to_expr(entry.typ(), pos)))
                },
                None => Some(
                    Err(
                        Error::Resolve {
                            category: String::from_str("identifier"),
                            name: name.clone(),
                            position: copy_pos(pos),
                        },
                    ),
                ),
            },
            Expr::UnresolvedFunCall(name, a, pos) => {
                proof {
                    lemma_exprs_view(a@);
                }
                match resolve_list(problem, entries, a) {
                    Some(Ok(v)) => match problem.find_function(name.as_str()) {
                        Some(f) => {
                            proof {
                                lemma_first_named(function_names(p.functions), name@, 0);
                            }
                            Some(Ok(Expr::FunctionCall(f.id(), v, copy_pos(pos))))
                        },
                        None => Some(
                            Err(
                                Error::Resolve {
                                    category: String::from_str("function"),
                                    name: name.clone(),
                                    position: copy_pos(pos),
                                },
                            ),
                        ),
                    },
                    Some(Err(er)) => Some(Err(er)),
                    None => None,
                }
            },
            Expr::UnresolvedAttribute(e, name, pos) => match e.resolve_checked(problem, entries) {
                Some(Ok(y)) => if problem.check_wf() && expr_ok(problem, &y) {
                    attribute_of(problem, y, name, pos)
                } else {
                    None
                },
                other => other,
            },
            Expr::UnresolvedMethCall(e, name, a, pos) => {
                proof {
                    lemma_exprs_view(a@);
                }
                match e.resolve_checked(problem, entries) {
                    Some(Ok(y)) => match resolve_list(problem, entries, a) {
                        Some(Ok(v)) => if problem.check_wf() && expr_ok(problem, &y) {
                            method_of(problem, y, name, v, pos)
                        } else {
                            None
                        },
                        Some(Err(er)) => Some(Err(er)),
                        None => None,
                    },
                    other => other,
                }
            },
            _ => Some(Ok(self.copy())),
        }
    }

    /// The expression with its names resolved against the problem and the
    /// entries, or the first name that is not found; names are looked up in
    /// any entries, and the problem is read only where the type of a value
    /// is needed for one of its attributes or methods.
    pub fn resolve(&self, problem: &Problem, entries: &Entries) -> (r: Result<Expr, Error>)
        requires
            spec_resolve(problem@, self@, entries@) is Some,
        ensures
            Some(expr_result(r)) == spec_resolve(problem@, self@, entries@),
            problem@.wf() && entries_valid(problem@, entries@) && expr_valid(problem@, self@) ==> (r matches Ok(
                x,
            ) ==> expr_valid(problem@, x@)),
    {
        self.resolve_checked(problem, entries).unwrap()
    }
}

/// The attribute `name` of the resolved expression `y`.
fn attribute_of(problem: &Problem, y: Expr, name: &String, pos: &Option<Position>) -> (r: Option<
    Result<Expr, Error>,
>)
    requires
        problem@.wf(),
        expr_valid(problem@, y@),
    ensures
        opt_expr_result(r) == attr_access(problem@, y@, name@, opt_pos(*pos)),
        r matches Some(Ok(x)) ==> expr_valid(problem@, x@),
{
    let ghost p = problem@;
    proof {
        lemma_typ_valid(p, y@);
    }
    let t = y.typ(problem);
    match t {
        Type::Structure(sid) => {
            let s = problem.get_structure(sid).unwrap();
            match s.find_attribute(name.as_str()) {
                Some(a) => {
                    proof {
                        lemma_first_named(attr_names(s@.attributes), name@, 0);
                        let i = first_named(attr_names(s@.attributes), name@, 0).unwrap();
                        assert(s@.attributes[i].id == AttributeId(sid, i as usize));
                    }
                    let id = a.id();
                    Some(Ok(Expr::StrucAttribute(Box::new(y), id, copy_pos(pos))))
                },
                None => {
                    let category = member_text(problem, "attibute", &t);
                    Some(Err(Error::Resolve { category, name: name.clone(), position: copy_pos(pos) }))
                },
            }
        },
        Type::Class(cid) => {
            let c = problem.get_class(cid).unwrap();
            proof {
                assert(spec_super_class(p.classes[cid.0 as int]) matches Some(x) ==> x.0 < p.classes.len());
                lemma_super_classes_valid(p, c@);
                lemma_inherited_attribute_valid(p, spec_super_classes(p, c@), name@);
                lemma_first_named(attr_names(c@.attributes), name@, 0);
                if let Some(i) = first_named(attr_names(c@.attributes), name@, 0) {
                    assert(c@.attributes[i].id == AttributeId(cid, i as usize));
                }
            }
            match c.find_all_attribute(problem, name.as_str()) {
                Some(a) => {
                    let id = a.id();
                    Some(Ok(Expr::ClassAttribute(Box::new(y), id, copy_pos(pos))))
                },
                None => {
                    let category = member_text(problem, "attibute", &t);
                    Some(Err(Error::Resolve { category, name: name.clone(), position: copy_pos(pos) }))
                },
            }
        },
        _ => None,
    }
}

/// The call of method `name` on the resolved expression `y` with the
/// resolved arguments `v`.
fn method_of(problem: &Problem, y: Expr, name: &String, v: Vec<Expr>, pos: &Option<Position>) -> (r: Option<
    Result<Expr, Error>,
>)
    requires
        problem@.wf(),
        expr_valid(problem@, y@),
    ensures
        opt_expr_result(r) == meth_access(problem@, y@, name@, exprs_view(v@), opt_pos(*pos)),
        exprs_valid(problem@, exprs_view(v@)) ==> (r matches Some(Ok(x)) ==> expr_valid(problem@, x@)),
{
    let ghost p = problem@;
    proof {
        lemma_typ_valid(p, y@);
    }
    let t = y.typ(problem);
    match t {
        Type::Structure(sid) => {
            let s = problem.get_structure(sid).unwrap();
            match s.find_method(name.as_str()) {
                Some(m) => {
                    proof {
                        lemma_first_named(meth_names(s@.methods), name@, 0);
                        let i = first_named(meth_names(s@.methods), name@, 0).unwrap();
                        assert(s@.methods[i].id == MethodId(sid, i as usize));
                    }
                    let id = m.id();
                    Some(Ok(Expr::StrucMetCall(Box::new(y), id, v, copy_pos(pos))))
                },
                None => {
                    let category = member_text(problem, "method", &t);
                    Some(Err(Error::Resolve { category, name: name.clone(), position: copy_pos(pos) }))
                },
            }
        },
        Type::Class(cid) => {
            let c = problem.get_class(cid).unwrap();
            proof {
                assert(spec_super_class(p.classes[cid.0 as int]) matches Some(x) ==> x.0 < p.classes.len());
                lemma_super_classes_valid(p, c@);
                lemma_inherited_method_valid(p, spec_super_classes(p, c@), name@);
                lemma_first_named(meth_names(c@.methods), name@, 0);
                if let Some(i) = first_named(meth_names(c@.methods), name@, 0) {
                    assert(c@.methods[i].id == MethodId(cid, i as usize));
                }
            }
            match c.find_all_method(problem, name.as_str()) {
                Some(m) => {
                    let id = m.id();
                    Some(Ok(Expr::ClassMetCall(Box::new(y), id, v, copy_pos(pos))))
                },
                None => {
                    let category = member_text(problem, "method", &t);
                    Some(Err(Error::Resolve { category, name: name.clone(), position: copy_pos(pos) }))
                },
            }
        },
        _ => None,
    }
}

/// The expressions resolved in order, stopping at the first error or the
/// first impossible access.
fn resolve_list(problem: &Problem, entries: &Entries, v: &Vec<Expr>) -> (r: Option<
    Result<Vec<Expr>, Error>,
>)
    ensures
        opt_exprs_result(r) == list_resolve(problem@, exprs_view(v@), entries@, v.len() as nat),
        problem@.wf() && entries_valid(problem@, entries@) && exprs_valid(problem@, exprs_view(v@)) ==> (r matches Some(
            Ok(w),
        ) ==> exprs_valid(problem@, exprs_view(w@))),
    decreases v,
{
    let ghost p = problem@;
    let ghost s = exprs_view(v@);
    let ghost valid = p.wf() && entries_valid(p, entries@) && exprs_valid(p, s);
    proof {
        lemma_exprs_view(v@);
        lemma_exprs_valid(p, s);
    }
    let mut w: Vec<Expr> = Vec::new();
    let mut i: usize = 0;
    while i < v.len()
        invariant
            p == problem@,
            valid == (p.wf() && entries_valid(p, entries@) && exprs_valid(p, s)),
            i <= v.len(),
            s == exprs_view(v@),
            s.len() == v.len(),
            forall|k: int| 0 <= k < v.len() ==> #[trigger] s[k] == v@[k]@,
            valid ==> forall|k: int| 0 <= k < v.len() ==> #[trigger] expr_valid(p, s[k]),
            w.len() == i,
            valid ==> forall|k: int| 0 <= k < w.len() ==> #[trigger] expr_valid(p, w@[k]@),
            list_resolve(p, s, entries@, i as nat) == Some(
                Ok::<Seq<SpecExpr>, SpecError>(exprs_view(w@)),
            ),
        decreases v.len() - i,
    {
        proof {
            assert(decreases_to!(*v => v@[i as int]));
            assert(s[i as int] == v@[i as int]@);
        }
        match v[i].resolve_checked(problem, entries) {
            Some(Ok(x)) => {
                let ghost before = w@;
                w.push(x);
                proof {
                    assert(w@.drop_last() == before);
                    assert(exprs_view(w@) == exprs_view(w@.drop_last()).push(w@.last()@));
                }
            },
            Some(Err(e)) => {
                proof {
                    lemma_list_resolve_stops(p, s, entries@, (i + 1) as nat, v.len() as nat);
                }
                return Some(Err(e));
            },
            None => {
                proof {
                    lemma_list_resolve_stops(p, s, entries@, (i + 1) as nat, v.len() as nat);
                }
                return None;
            },
        }
        i += 1;
    }
    proof {
        lemma_exprs_view(w@);
        lemma_exprs_valid(p, exprs_view(w@));
        if valid {
            assert(exprs_valid(p, exprs_view(w@)));
        }
    }
    Some(Ok(w))
}

/// The pairs of expressions resolved in order, stopping at the first error
/// or the first impossible access.
fn resolve_pairs(problem: &Problem, entries: &Entries, v: &Vec<(Expr, Expr)>) -> (r: Option<
    Result<Vec<(Expr, Expr)>, Error>,
>)
    ensures
        opt_pairs_result(r) == pairs_resolve(problem@, pairs_view(v@), entries@, v.len() as nat),
        problem@.wf() && entries_valid(problem@, entries@) && pairs_valid(problem@, pairs_view(v@)) ==> (r matches Some(
            Ok(w),
        ) ==> pairs_valid(problem@, pairs_view(w@))),
    decreases v,
{
    let ghost p = problem@;
    let ghost s = pairs_view(v@);
    let ghost valid = p.wf() && entries_valid(p, entries@) && pairs_valid(p, s);
    proof {
        lemma_pairs_view(v@);
        lemma_pairs_valid(p, s);
    }
    let mut w: Vec<(Expr, Expr)> = Vec::new();
    let mut i: usize = 0;
    while i < v.len()
        invariant
            p == problem@,
            valid == (p.wf() && entries_valid(p, entries@) && pairs_valid(p, s)),
            i <= v.len(),
            s == pairs_view(v@),
            s.len() == v.len(),
            forall|k: int| 0 <= k < v.len() ==> #[trigger] s[k] == (v@[k].0@, v@[k].1@),
            valid ==> forall|k: int| 0 <= k < v.len() ==> expr_valid(p, (#[trigger] s[k]).0) && expr_valid(p, s[k].1),
            w.len() == i,
            valid ==> forall|k: int|
                0 <= k < w.len() ==> expr_valid(p, (#[trigger] w@[k]).0@) && expr_valid(p, w@[k].1@),
            pairs_resolve(p, s, entries@, i as nat) == Some(
                Ok::<Seq<(SpecExpr, SpecExpr)>, SpecError>(pairs_view(w@)),
            ),
        decreases v.len() - i,
    {
        proof {
            assert(decreases_to!(*v => v@[i as int]));
            assert(decreases_to!(v@[i as int] => v@[i as int].0));
            assert(decreases_to!(v@[i as int] => v@[i as int].1));
            assert(s[i as int] == (v@[i as int].0@, v@[i as int].1@));
        }
        let x = match v[i].0.resolve_checked(problem, entries) {
            Some(Ok(x)) => x,
            Some(Err(e)) => {
                proof {
                    lemma_pairs_resolve_stops(p, s, entries@, (i + 1) as nat, v.len() as nat);
                }
                return Some(Err(e));
            },
            None => {
                proof {
                    lemma_pairs_resolve_stops(p, s, entries@, (i + 1) as nat, v.len() as nat);
                }
                return None;
            },
        };
        let y = match v[i].1.resolve_checked(problem, entries) {
            Some(Ok(y)) => y,
            Some(Err(e)) => {
                proof {
                    lemma_pairs_resolve_stops(p, s, entries@, (i + 1) as nat, v.len() as nat);
                }
                return Some(Err(e));
            },
            None => {
                proof {
                    lemma_pairs_resolve_stops(p, s, entries@, (i + 1) as nat, v.len() as nat);
                }
                return None;
            },
        };
        let ghost before = w@;
        w.push((x, y));
        proof {
            assert(w@.drop_last() == before);
            assert(pairs_view(w@) == pairs_view(w@.drop_last()).push((w@.last().0@, w@.last().1@)));
        }
        i += 1;
    }
    proof {
        lemma_pairs_view(w@);
        lemma_pairs_valid(p, pairs_view(w@));
        if valid {
            assert(pairs_valid(p, pairs_view(w@)));
        }
    }
    Some(Ok(w))
}

//---------- Laws ----------

/// Resolving an expression that holds no unresolved name gives it back
/// unchanged, whatever the names in scope: resolving twice is resolving
/// once.
pub proof fn law_resolve_resolved_is_identity(p: SpecProblem, e: SpecExpr, en: Seq<SpecEntry>)
    requires
        every(NodeCheck::Resolved, e),
    ensures
        spec_resolve(p, e, en) == Some(Ok::<SpecExpr, SpecError>(e)),
    decreases e, 0nat,
{
    match e {
        SpecExpr::Unary(_, x, _) => {
            law_resolve_resolved_is_identity(p, *x, en);
        },
        SpecExpr::Binary(l, _, r, _) => {
            law_resolve_resolved_is_identity(p, *l, en);
            law_resolve_resolved_is_identity(p, *r, en);
        },
        SpecExpr::FunctionCall(_, a, _) => {
            lemma_list_resolve_resolved(p, a, en, a.len());
            assert(a.take(a.len() as int) =~= a);
        },
        SpecExpr::StrucAttribute(x, _, _) => {
            law_resolve_resolved_is_identity(p, *x, en);
        },
        SpecExpr::StrucMetCall(x, _, a, _) => {
            law_resolve_resolved_is_identity(p, *x, en);
            lemma_list_resolve_resolved(p, a, en, a.len());
            assert(a.take(a.len() as int) =~= a);
        },
        SpecExpr::ClassAttribute(x, _, _) => {
            law_resolve_resolved_is_identity(p, *x, en);
        },
        SpecExpr::ClassMetCall(x, _, a, _) => {
            law_resolve_resolved_is_identity(p, *x, en);
            lemma_list_resolve_resolved(p, a, en, a.len());
            assert(a.take(a.len() as int) =~= a);
        },
        SpecExpr::AsClass(x, _) => {
            law_resolve_resolved_is_identity(p, *x, en);
        },
        SpecExpr::AsInterval(x, _, _, _) => {
            law_resolve_resolved_is_identity(p, *x, en);
        },
        SpecExpr::AsInt(x, _) => {
            law_resolve_resolved_is_identity(p, *x, en);
        },
        SpecExpr::AsReal(x, _) => {
            law_resolve_resolved_is_identity(p, *x, en);
        },
        SpecExpr::IfThenElse(c, t, l, x, _) => {
            law_resolve_resolved_is_identity(p, *c, en);
            law_resolve_resolved_is_identity(p, *t, en);
            lemma_pairs_resolve_resolved(p, l, en, l.len());
            assert(l.take(l.len() as int) =~= l);
            law_resolve_resolved_is_identity(p, *x, en);
        },
        SpecExpr::Quantifier(_, ps, x, _) => {
            law_resolve_resolved_is_identity(p, *x, en + param_entries(ps));
        },
        _ => {},
    }
}

/// Resolving the first `n` of a list of expressions that hold no
/// unresolved name gives them back unchanged.
pub proof fn lemma_list_resolve_resolved(p: SpecProblem, s: Seq<SpecExpr>, en: Seq<SpecEntry>, n: nat)
    requires
        every_list(NodeCheck::Resolved, s, n),
    ensures
        list_resolve(p, s, en, n) == Some(Ok::<Seq<SpecExpr>, SpecError>(s.take(n as int))),
    decreases s, n,
{
    if n == 0 || n > s.len() {
        assert(s.take(0) =~= seq![]);
    } else {
        lemma_list_resolve_resolved(p, s, en, (n - 1) as nat);
        law_resolve_resolved_is_identity(p, s[n - 1], en);
        assert(s.take((n - 1) as int).push(s[n - 1]) =~= s.take(n as int));
    }
}

/// Resolving the first `n` of a list of pairs of expressions that hold no
/// unresolved name gives them back unchanged.
pub proof fn lemma_pairs_resolve_resolved(
    p: SpecProblem,
    s: Seq<(SpecExpr, SpecExpr)>,
    en: Seq<SpecEntry>,
    n: nat,
)
    requires
        every_pairs(NodeCheck::Resolved, s, n),
    ensures
        pairs_resolve(p, s, en, n) == Some(Ok::<Seq<(SpecExpr, SpecExpr)>, SpecError>(s.take(n as int))),
    decreases s, n,
{
    if n == 0 || n > s.len() {
        assert(s.take(0) =~= seq![]);
    } else {
        lemma_pairs_resolve_resolved(p, s, en, (n - 1) as nat);
        law_resolve_resolved_is_identity(p, s[n - 1].0, en);
        law_resolve_resolved_is_identity(p, s[n - 1].1, en);
        assert(s.take((n - 1) as int).push((s[n - 1].0, s[n - 1].1)) =~= s.take(n as int));
    }
}

/// A successful resolution leaves no unresolved name: every identifier,
/// call, attribute and method of the result is resolved. (Every other node
/// is kept as it was, positions included, as `spec_resolve` states.)
pub proof fn law_resolve_leaves_no_unresolved(p: SpecProblem, e: SpecExpr, en: Seq<SpecEntry>)
    ensures
        spec_resolve(p, e, en) matches Some(Ok(r)) ==> every(NodeCheck::Resolved, r),
    decreases e, 0nat,
{
    match e {
        SpecExpr::Unary(_, x, _) => law_resolve_leaves_no_unresolved(p, *x, en),
        SpecExpr::Binary(l, _, r, _) => {
            law_resolve_leaves_no_unresolved(p, *l, en);
            law_resolve_leaves_no_unresolved(p, *r, en);
        },
        SpecExpr::FunctionCall(_, a, _) => lemma_list_resolve_leaves_no_unresolved(p, a, en, a.len()),
        SpecExpr::StrucAttribute(x, _, _) => law_resolve_leaves_no_unresolved(p, *x, en),
        SpecExpr::StrucMetCall(x, _, a, _) => {
            law_resolve_leaves_no_unresolved(p, *x, en);
            lemma_list_resolve_leaves_no_unresolved(p, a, en, a.len());
        },
        SpecExpr::ClassAttribute(x, _, _) => law_resolve_leaves_no_unresolved(p, *x, en),
        SpecExpr::ClassMetCall(x, _, a, _) => {
            law_resolve_leaves_no_unresolved(p, *x, en);
            lemma_list_resolve_leaves_no_unresolved(p, a, en, a.len());
        },
        SpecExpr::AsClass(x, _) => law_resolve_leaves_no_unresolved(p, *x, en),
        SpecExpr::AsInterval(x, _, _, _) => law_resolve_leaves_no_unresolved(p, *x, en),
        SpecExpr::AsInt(x, _) => law_resolve_leaves_no_unresolved(p, *x, en),
        SpecExpr::AsReal(x, _) => law_resolve_leaves_no_unresolved(p, *x, en),
        SpecExpr::IfThenElse(c, t, l, x, _) => {
            law_resolve_leaves_no_unresolved(p, *c, en);
            law_resolve_leaves_no_unresolved(p, *t, en);
            lemma_pairs_resolve_leaves_no_unresolved(p, l, en, l.len());
            law_resolve_leaves_no_unresolved(p, *x, en);
        },
        SpecExpr::Quantifier(_, ps, x, _) => law_resolve_leaves_no_unresolved(p, *x, en + param_entries(ps)),
        SpecExpr::UnresolvedFunCall(_, a, _) => lemma_list_resolve_leaves_no_unresolved(p, a, en, a.len()),
        SpecExpr::UnresolvedAttribute(x, _, _) => law_resolve_leaves_no_unresolved(p, *x, en),
        SpecExpr::UnresolvedMethCall(x, _, a, _) => {
            law_resolve_leaves_no_unresolved(p, *x, en);
            lemma_list_resolve_leaves_no_unresolved(p, a, en, a.len());
        },
        _ => {},
    }
}

/// The resolved list of the first `n` expressions leaves no unresolved
/// name.
pub proof fn lemma_list_resolve_leaves_no_unresolved(p: SpecProblem, s: Seq<SpecExpr>, en: Seq<SpecEntry>, n: nat)
    ensures
        list_resolve(p, s, en, n) matches Some(Ok(v)) ==> every_list(NodeCheck::Resolved, v, v.len()),
    decreases s, n,
{
    if n == 0 || n > s.len() {
        assert(every_list(NodeCheck::Resolved, seq![], 0));
    } else {
        lemma_list_resolve_leaves_no_unresolved(p, s, en, (n - 1) as nat);
        law_resolve_leaves_no_unresolved(p, s[n - 1], en);
        if let Some(Ok(v)) = list_resolve(p, s, en, n) {
            let v0 = list_resolve(p, s, en, (n - 1) as nat)->Some_0->Ok_0;
            let x = spec_resolve(p, s[n - 1], en)->Some_0->Ok_0;
            assert(v == v0.push(x));
            lemma_every_list(NodeCheck::Resolved, v0, v0.len());
            lemma_every_list(NodeCheck::Resolved, v, v.len());
            assert forall|i: int| 0 <= i < v.len() implies #[trigger] every(NodeCheck::Resolved, v[i]) by {
                if i < v0.len() {
                    assert(v[i] == v0[i]);
                }
            }
        }
    }
}

/// The resolved list of the first `n` pairs leaves no unresolved name.
pub proof fn lemma_pairs_resolve_leaves_no_unresolved(
    p: SpecProblem,
    s: Seq<(SpecExpr, SpecExpr)>,
    en: Seq<SpecEntry>,
    n: nat,
)
    ensures
        pairs_resolve(p, s, en, n) matches Some(Ok(v)) ==> every_pairs(NodeCheck::Resolved, v, v.len()),
    decreases s, n,
{
    if n == 0 || n > s.len() {
        assert(every_pairs(NodeCheck::Resolved, seq![], 0));
    } else {
        lemma_pairs_resolve_leaves_no_unresolved(p, s, en, (n - 1) as nat);
        law_resolve_leaves_no_unresolved(p, s[n - 1].0, en);
        law_resolve_leaves_no_unresolved(p, s[n - 1].1, en);
        if let Some(Ok(v)) = pairs_resolve(p, s, en, n) {
            let v0 = pairs_resolve(p, s, en, (n - 1) as nat)->Some_0->Ok_0;
            let x = spec_resolve(p, s[n - 1].0, en)->Some_0->Ok_0;
            let y = spec_resolve(p, s[n - 1].1, en)->Some_0->Ok_0;
            assert(v == v0.push((x, y)));
            lemma_every_pairs(NodeCheck::Resolved, v0, v0.len());
            lemma_every_pairs(NodeCheck::Resolved, v, v.len());
            assert forall|i: int| 0 <= i < v.len() implies every(NodeCheck::Resolved, (#[trigger] v[i]).0) && every(NodeCheck::Resolved, v[i].1) by {
                if i < v0.len() {
                    assert(v[i] == v0[i]);
                }
            }
        }
    }
}

} // verus!
