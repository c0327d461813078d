//! How an error is told to the user in one line.

use crate::error::Error;
use crate::error::SpecError;
use crate::error::texts_view;
use crate::parser::position::Position;
use crate::parser::position::SpecPosition;
use crate::parser::position::opt_pos;
use crate::parser::position::position_text;
use crate::problem::expression::position::spec_expr_position;
use crate::problem::expression::to_lang::cat;
use crate::problem::expression::to_lang::spec_expr_lang;
use crate::problem::parameter::Parameter;
use crate::problem::problem::Problem;
use crate::problem::problem::SpecProblem;
use crate::problem::relations::type_lang;
use crate::problem::relations::type_valid;
use crate::problem::typing::SpecType;
use crate::problem::typing::Type;
use crate::problem::typing::types_view;
use crate::problem::valid::expr_valid;
use crate::text::join;
use crate::text::join_strings;
use crate::text::nat_text;
use crate::text::usize_text;
use vstd::string::*;
use vstd::prelude::*;

verus! {

/// What `Debug` writes for a list of strings.
pub uninterp spec fn debug_strings(list: Seq<Seq<char>>) -> Seq<char>;

/// `{:?}` of a list of strings, through std's `Debug` for `Vec<String>`: the
/// result is named, a function of the strings alone.
#[verifier::external_body]
fn strings_debug(list: &Vec<String>) -> (r: String)
    ensures
        r@ == debug_strings(texts_view(list@)),
{
    format!("{:?}", list)
}

/// ` at ` and the position, if any.
pub open spec fn at_position(p: Option<SpecPosition>) -> Seq<char> {
    match p {
        Some(x) => " at "@ + position_text(x),
        None => seq![],
    }
}

/// The expected tokens, separated by ` or `.
pub open spec fn expected_tokens_text(list: Seq<Seq<char>>) -> Seq<char> {
    join(list, " or "@)
}

/// How the first `n` types are written, one text each.
pub open spec fn type_langs(p: SpecProblem, ts: Seq<SpecType>, n: nat) -> Seq<Seq<char>>
    decreases n,
{
    if n == 0 || n > ts.len() {
        seq![]
    } else {
        type_langs(p, ts, (n - 1) as nat).push(type_lang(p, ts[n - 1]))
    }
}

/// The expected types, separated by ` or `.
pub open spec fn expected_types_text(p: SpecProblem, ts: Seq<SpecType>) -> Seq<char> {
    join(type_langs(p, ts, ts.len()), " or "@)
}

/// How an error is told in one line.
pub open spec fn error_lang(p: SpecProblem, e: SpecError) -> Seq<char> {
    match e {
        SpecError::File { filename, message } => "cannot read file "@ + filename + " "@ + message,
        SpecError::Parse { message, token: _, position, expected } => match position {
            Some(x) => "parse error '"@ + message + "' at "@ + position_text(x) + ", expecting: "@
                + debug_strings(expected),
            None => "parse error '"@ + message + "', expecting: "@ + expected_tokens_text(expected),
        },
        SpecError::Duplicate { name, first, second } => match (first, second) {
            (None, None) => "duplicate '"@ + name + "'"@,
            (None, Some(x)) => "duplicate '"@ + name + "' at "@ + position_text(x),
            (Some(x), None) => "duplicate '"@ + name + "' at "@ + position_text(x),
            (Some(x), Some(y)) => "duplicate '"@ + name + "' at "@ + position_text(x) + " and "@
                + position_text(y),
        },
        SpecError::Resolve { category: _, name, position } => "unresolved "@ + name + at_position(
            position,
        ),
        SpecError::Interval { name, position } => "malformed interval "@ + name + at_position(
            position,
        ),
        SpecError::Bounded { name, position } => "unbounded "@ + name + at_position(position),
        SpecError::Type { expr, typ, expected } => (if expected.len() > 0 {
            "type error: '"@ + spec_expr_lang(p, expr) + "' type is '"@ + type_lang(p, typ)
                + "' but expecting '"@ + expected_types_text(p, expected) + "'"@
        } else {
            "type error: '"@ + spec_expr_lang(p, expr) + "' type is '"@ + type_lang(p, typ) + "'"@
        }) + at_position(spec_expr_position(expr)),
        SpecError::Parameter { expr, size, expected } => "wrong number of arguments: '"@
            + spec_expr_lang(p, expr) + "' has "@ + nat_text(size as nat) + " but expecting "@
            + nat_text(expected as nat) + at_position(spec_expr_position(expr)),
        SpecError::Empty { name, category } => "empty "@ + category + " "@ + name,
        SpecError::Cycle { name, position } => "cyclic class "@ + name + at_position(position),
    }
}

/// Every type of the list refers to the problem.
pub open spec fn all_types_valid(p: SpecProblem, ts: Seq<SpecType>) -> bool {
    forall|i: int| 0 <= i < ts.len() ==> type_valid(p, #[trigger] ts[i])
}

/// The expressions and types that an error shows refer to the problem.
pub open spec fn error_printable(p: SpecProblem, e: SpecError) -> bool {
    match e {
        SpecError::Type { expr, typ, expected } => expr_valid(p, expr) && type_valid(p, typ)
            && all_types_valid(p, expected),
        SpecError::Parameter { expr, size: _, expected: _ } => expr_valid(p, expr),
        _ => true,
    }
}

/// ` at ` and the position, if any.
fn at_position_text(p: &Option<Position>) -> (r: String)
    ensures
        r@ == at_position(opt_pos(*p)),
{
    match p {
        Some(x) => cat(String::from_str(" at "), x.to_text().as_str()),
        None => String::new(),
    }
}

/// The expected tokens, separated by ` or `.
pub fn expected_tokens(expected: &Vec<String>) -> (r: String)
    ensures
        r@ == expected_tokens_text(texts_view(expected@)),
{
    let r = join_strings(expected, " or ");
    proof {
        assert(expected@.map_values(|x: String| x@) =~= texts_view(expected@));
    }
    r
}

/// The expected types, separated by ` or `.
pub fn expected_types(problem: &Problem, expected: &Vec<Type>) -> (r: String)
    requires
        all_types_valid(problem@, types_view(expected@)),
    ensures
        r@ == expected_types_text(problem@, types_view(expected@)),
{
    let ghost ts = types_view(expected@);
    let mut texts: Vec<String> = Vec::new();
    let mut i: usize = 0;
    while i < expected.len()
        invariant
            i <= expected.len(),
            texts@.len() == i,
            ts == types_view(expected@),
            forall|k: int| 0 <= k < expected.len() ==> type_valid(problem@, #[trigger] ts[k]),
            texts@.map_values(|x: String| x@) == type_langs(problem@, ts, i as nat),
        decreases expected.len() - i,
    {
        let ghost before = texts@;
        proof {
            assert(ts[i as int] == expected@[i as int]@);
        }
        texts.push(expected[i].to_lang(problem));
        proof {
            assert(texts@.map_values(|x: String| x@) =~= before.map_values(|x: String| x@).push(
                texts@[i as int]@,
            ));
        }
        i += 1;
    }
    join_strings(&texts, " or ")
}

impl Error {
    /// How the error is told in one line.
    pub fn to_lang(&self, problem: &Problem) -> (r: String)
        requires
            problem@.wf(),
            error_printable(problem@, self@),
        ensures
            r@ == error_lang(problem@, self@),
    {
        match self {
            Error::File { filename, message } => {
                let s = cat(String::from_str("cannot read file "), filename.as_str());
                let s = cat(s, " ");
                cat(s, message.as_str())
            },
            Error::Parse { message, token: _, position, expected } => match position {
                Some(x) => {
                    let s = cat(String::from_str("parse error '"), message.as_str());
                    let s = cat(s, "' at ");
                    let s = cat(s, x.to_text().as_str());
                    let s = cat(s, ", expecting: ");
                    cat(s, strings_debug(expected).as_str())
                },
                None => {
                    let s = cat(String::from_str("parse error '"), message.as_str());
                    let s = cat(s, "', expecting: ");
                    cat(s, expected_tokens(expected).as_str())
                },
            },
            Error::Duplicate { name, first, second } => {
                let s = cat(String::from_str("duplicate '"), name.as_str());
                match (first, second) {
                    (None, None) => cat(s, "'"),
                    (None, Some(x)) => {
                        let s = cat(s, "' at ");
                        cat(s, x.to_text().as_str())
                    },
                    (Some(x), None) => {
                        let s = cat(s, "' at ");
                        cat(s, x.to_text().as_str())
                    },
                    (Some(x), Some(y)) => {
                        let s = cat(s, "' at ");
                        let s = cat(s, x.to_text().as_str());
                        let s = cat(s, " and ");
                        cat(s, y.to_text().as_str())
                    },
                }
            },
            Error::Resolve { category: _, name, position } => {
                let s = cat(String::from_str("unresolved "), name.as_str());
                cat(s, at_position_text(position).as_str())
            },
            Error::Interval { name, position } => {
                let s = cat(String::from_str("malformed interval "), name.as_str());
                cat(s, at_position_text(position).as_str())
            },
            Error::Bounded { name, position } => {
                let s = cat(String::from_str("unbounded "), name.as_str());
                cat(s, at_position_text(position).as_str())
            },
            Error::Type { expr, typ, expected } => {
                proof {
                    let ev = types_view(expected@);
                    assert(self@ == SpecError::Type { expr: expr@, typ: typ@, expected: ev });
                    assert(all_types_valid(problem@, ev));
                }
                let s = cat(String::from_str("type error: '"), expr.to_lang(problem).as_str());
                let s = cat(s, "' type is '");
                let s = cat(s, typ.to_lang(problem).as_str());
                let s = if expected.len() > 0 {
                    let s = cat(s, "' but expecting '");
                    let s = cat(s, expected_types(problem, expected).as_str());
                    cat(s, "'")
                } else {
                    cat(s, "'")
                };
                cat(s, at_position_text(&expr.position()).as_str())
            },
            Error::Parameter { expr, size, expected } => {
                let s = cat(String::from_str("wrong number of arguments: '"), expr.to_lang(problem).as_str());
                let s = cat(s, "' has ");
                let s = cat(s, usize_text(*size).as_str());
                let s = cat(s, " but expecting ");
                let s = cat(s, usize_text(*expected).as_str());
                cat(s, at_position_text(&expr.position()).as_str())
            },
            Error::Empty { name, category } => {
                let s = cat(String::from_str("empty "), category.as_str());
                let s = cat(s, " ");
                cat(s, name.as_str())
            },
            Error::Cycle { name, position } => {
                let s = cat(String::from_str("cyclic class "), name.as_str());
                cat(s, at_position_text(position).as_str())
            },
        }
    }
}

} // verus!
