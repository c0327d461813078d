//! Errors found while reading and checking a problem.

use crate::parser::position::Position;
use crate::parser::position::SpecPosition;
use crate::parser::position::opt_pos;
use crate::problem::expression::expr::Expr;
use crate::problem::expression::expr::SpecExpr;
use crate::problem::parameter::Parameter;
use crate::problem::typing::SpecType;
use crate::problem::typing::Type;
use crate::problem::typing::types_view;
use vstd::prelude::*;

verus! {

pub enum Error {
    File { filename: String, message: String },
    Parse {
        message: String,
        token: Option<String>,
        position: Option<Position>,
        expected: Vec<String>,
    },
    Duplicate { name: String, first: Option<Position>, second: Option<Position> },
    Resolve { category: String, name: String, position: Option<Position> },
    Interval { name: String, position: Option<Position> },
    Bounded { name: String, position: Option<Position> },
    Type { expr: Expr, typ: Type, expected: Vec<Type> },
    Parameter { expr: Expr, size: usize, expected: usize },
    Empty { name: String, category: String },
    Cycle { name: String, position: Option<Position> },
}

/// The mathematical content of an [`Error`].
pub enum SpecError {
    File { filename: Seq<char>, message: Seq<char> },
    Parse {
        message: Seq<char>,
        token: Option<Seq<char>>,
        position: Option<SpecPosition>,
        expected: Seq<Seq<char>>,
    },
    Duplicate { name: Seq<char>, first: Option<SpecPosition>, second: Option<SpecPosition> },
    Resolve { category: Seq<char>, name: Seq<char>, position: Option<SpecPosition> },
    Interval { name: Seq<char>, position: Option<SpecPosition> },
    Bounded { name: Seq<char>, position: Option<SpecPosition> },
    Type { expr: SpecExpr, typ: SpecType, expected: Seq<SpecType> },
    Parameter { expr: SpecExpr, size: usize, expected: usize },
    Empty { name: Seq<char>, category: Seq<char> },
    Cycle { name: Seq<char>, position: Option<SpecPosition> },
}

/// View of an optional string.
pub open spec fn opt_text(s: Option<String>) -> Option<Seq<char>> {
    match s {
        Some(s) => Some(s@),
        None => None,
    }
}

/// View of a list of strings.
pub open spec fn texts_view(s: Seq<String>) -> Seq<Seq<char>> {
    s.map_values(|x: String| x@)
}

impl View for Error {
    type V = SpecError;

    open spec fn view(&self) -> SpecError {
        match self {
            Error::File { filename, message } => SpecError::File {
                filename: filename@,
                message: message@,
            },
            Error::Parse { message, token, position, expected } => SpecError::Parse {
                message: message@,
                token: opt_text(*token),
                position: opt_pos(*position),
                expected: texts_view(expected@),
            },
            Error::Duplicate { name, first, second } => SpecError::Duplicate {
                name: name@,
                first: opt_pos(*first),
                second: opt_pos(*second),
            },
            Error::Resolve { category, name, position } => SpecError::Resolve {
                category: category@,
                name: name@,
                position: opt_pos(*position),
            },
            Error::Interval { name, position } => SpecError::Interval {
                name: name@,
                position: opt_pos(*position),
            },
            Error::Bounded { name, position } => SpecError::Bounded {
                name: name@,
                position: opt_pos(*position),
            },
            Error::Type { expr, typ, expected } => SpecError::Type {
                expr: expr@,
                typ: typ@,
                expected: types_view(expected@),
            },
            Error::Parameter { expr, size, expected } => SpecError::Parameter {
                expr: expr@,
                size: *size,
                expected: *expected,
            },
            Error::Empty { name, category } => SpecError::Empty {
                name: name@,
                category: category@,
            },
            Error::Cycle { name, position } => SpecError::Cycle {
                name: name@,
                position: opt_pos(*position),
            },
        }
    }
}

/// View of the outcome of a check.
pub open spec fn result_view(r: Result<(), Error>) -> Result<(), SpecError> {
    match r {
        Ok(_) => Ok(()),
        Err(e) => Err(e@),
    }
}

/// View of an outcome that gives a value.
pub open spec fn res_view<A: View>(r: Result<A, Error>) -> Result<A::V, SpecError> {
    match r {
        Ok(a) => Ok(a@),
        Err(e) => Err(e@),
    }
}

/// View of an outcome that gives an expression.
pub open spec fn expr_result(r: Result<Expr, Error>) -> Result<SpecExpr, SpecError> {
    match r {
        Ok(e) => Ok(e@),
        Err(e) => Err(e@),
    }
}

/// View of an outcome that gives a type.
pub open spec fn type_result(r: Result<Type, Error>) -> Result<SpecType, SpecError> {
    match r {
        Ok(t) => Ok(t@),
        Err(e) => Err(e@),
    }
}

} // verus!
