//! Why a text could not be parsed, and the error that tells it.

use crate::error::Error;
use crate::error::SpecError;
use crate::error::texts_view;
use crate::parser::position::Position;
use crate::parser::position::SpecPosition;
use crate::parser::position::line_start;
use crate::parser::position::newlines_before;
use crate::problem::ids::Id;
use crate::report::failure;
use vstd::string::*;
use vstd::prelude::*;

verus! {

/// A failure of the parser: the byte offsets in the text where it happened,
/// the tokens met and the tokens that were expected.
pub enum ParseFailure {
    InvalidToken { location: usize },
    UnrecognizedEof { location: usize, expected: Vec<String> },
    UnrecognizedToken { start: usize, token: String, expected: Vec<String> },
    ExtraToken { start: usize, token: String },
    User { error: String },
}

/// The offset of a failure in the text, if it has one.
pub open spec fn failure_offset(f: ParseFailure) -> Option<usize> {
    match f {
        ParseFailure::InvalidToken { location } => Some(location),
        ParseFailure::UnrecognizedEof { location, .. } => Some(location),
        ParseFailure::UnrecognizedToken { start, .. } => Some(start),
        ParseFailure::ExtraToken { start, .. } => Some(start),
        ParseFailure::User { .. } => None,
    }
}

/// The position of byte `offset` of `text` in `file`.
pub open spec fn position_at(file: Seq<char>, text: Seq<u8>, offset: usize) -> SpecPosition {
    SpecPosition {
        file,
        line: (newlines_before(text, offset as int) + 1) as usize,
        column: (offset - line_start(text, offset as int) + 1) as usize,
    }
}

/// The error that tells a failure of the parser on `text`, read from
/// `file`.
pub open spec fn parse_error(file: Seq<char>, text: Seq<u8>, f: ParseFailure) -> SpecError {
    match f {
        ParseFailure::InvalidToken { location } => SpecError::Parse {
            message: "Invalid Token"@,
            token: None,
            position: Some(position_at(file, text, location)),
            expected: seq![],
        },
        ParseFailure::UnrecognizedEof { location, expected } => SpecError::Parse {
            message: "Unreconized EOF"@,
            token: None,
            position: Some(position_at(file, text, location)),
            expected: texts_view(expected@),
        },
        ParseFailure::UnrecognizedToken { start, token, expected } => SpecError::Parse {
            message: "Unreconized Token"@,
            token: Some(token@),
            position: Some(position_at(file, text, start)),
            expected: texts_view(expected@),
        },
        ParseFailure::ExtraToken { start, token } => SpecError::Parse {
            message: "Extra Token"@,
            token: Some(token@),
            position: Some(position_at(file, text, start)),
            expected: seq![],
        },
        ParseFailure::User { error } => SpecError::Parse {
            message: "Parse Error"@,
            token: Some(error@),
            position: None,
            expected: seq![],
        },
    }
}

/// A position of byte `offset` of `text`.
fn position_of(file: &str, text: &str, offset: usize) -> (r: Position)
    requires
        offset <= text.spec_bytes().len(),
    ensures
        r@ == position_at(file@, text.spec_bytes(), offset),
{
    Position::new(String::from_str(file), text, offset)
}

impl Error {
    /// The error that tells a failure of the parser on `text`, read from
    /// `file`.
    pub fn new_parse(file: &str, text: &str, failure: ParseFailure) -> (r: Error)
        requires
            failure_offset(failure) matches Some(o) ==> o <= text.spec_bytes().len(),
        ensures
            r@ == parse_error(file@, text.spec_bytes(), failure),
    {
        proof {
            assert(texts_view(Seq::<String>::empty()) =~= Seq::<Seq<char>>::empty());
        }
        match failure {
            ParseFailure::InvalidToken { location } => Error::Parse {
                message: String::from_str("Invalid Token"),
                token: None,
                position: Some(position_of(file, text, location)),
                expected: Vec::new(),
            },
            ParseFailure::UnrecognizedEof { location, expected } => Error::Parse {
                message: String::from_str("Unreconized EOF"),
                token: None,
                position: Some(position_of(file, text, location)),
                expected,
            },
            ParseFailure::UnrecognizedToken { start, token, expected } => Error::Parse {
                message: String::from_str("Unreconized Token"),
                token: Some(token),
                position: Some(position_of(file, text, start)),
                expected,
            },
            ParseFailure::ExtraToken { start, token } => Error::Parse {
                message: String::from_str("Extra Token"),
                token: Some(token),
                position: Some(position_of(file, text, start)),
                expected: Vec::new(),
            },
            ParseFailure::User { error } => Error::Parse {
                message: String::from_str("Parse Error"),
                token: Some(error),
                position: None,
                expected: Vec::new(),
            },
        }
    }
}

} // verus!
