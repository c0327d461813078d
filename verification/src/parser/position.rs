//! Positions of the source text, as file, line and column.

use crate::text::nat_text;
use crate::text::usize_text;
use vstd::string::*;
use vstd::prelude::*;

verus! {

/// Number of newline bytes among the first `i` bytes of `bytes`.
pub open spec fn newlines_before(bytes: Seq<u8>, i: int) -> nat
    decreases i,
{
    if i <= 0 {
        0
    } else {
        newlines_before(bytes, i - 1) + if bytes[i - 1] == 10u8 {
            1nat
        } else {
            0nat
        }
    }
}

/// Byte index where the line holding byte index `i` starts.
pub open spec fn line_start(bytes: Seq<u8>, i: int) -> int
    decreases i,
{
    if i <= 0 {
        0
    } else if bytes[i - 1] == 10u8 {
        i
    } else {
        line_start(bytes, i - 1)
    }
}

/// `line_col::LineColLookup::new(text).get(offset)`: the 1-based line and
/// column (in bytes) of byte index `offset`; the lookup panics past the end of
/// the text, so `offset` is at most the text's length.
#[verifier::external_body]
fn line_col(text: &str, offset: usize) -> (r: (usize, usize))
    requires
        offset <= text.spec_bytes().len(),
    ensures
        r.0 == newlines_before(text.spec_bytes(), offset as int) + 1,
        r.1 == offset - line_start(text.spec_bytes(), offset as int) + 1,
{
    line_col::LineColLookup::new(text).get(offset)
}

//------------------------- Position -------------------------

/// A place in a source file.
pub struct Position {
    pub file: String,
    pub line: usize,
    pub column: usize,
}

/// The mathematical content of a [`Position`].
pub struct SpecPosition {
    pub file: Seq<char>,
    pub line: usize,
    pub column: usize,
}

impl View for Position {
    type V = SpecPosition;

    open spec fn view(&self) -> SpecPosition {
        SpecPosition { file: self.file@, line: self.line, column: self.column }
    }
}

/// View of an optional position.
pub open spec fn opt_pos(p: Option<Position>) -> Option<SpecPosition> {
    match p {
        Some(p) => Some(p@),
        None => None,
    }
}

/// How a position is displayed: `file line:column`.
pub open spec fn position_text(p: SpecPosition) -> Seq<char> {
    p.file + seq![' '] + nat_text(p.line as nat) + seq![':'] + nat_text(p.column as nat)
}

impl Position {
    /// The position of byte `offset` of `text`, the content of `file`.
    pub fn new(file: String, text: &str, offset: usize) -> (r: Position)
        requires
            offset <= text.spec_bytes().len(),
        ensures
            r.file@ == file@,
            r.line == newlines_before(text.spec_bytes(), offset as int) + 1,
            r.column == offset - line_start(text.spec_bytes(), offset as int) + 1,
    {
        let (line, column) = line_col(text, offset);
        Position { file, line, column }
    }

    /// A copy of the position.
    pub fn copy(&self) -> (r: Position)
        ensures
            r@ == self@,
    {
        Position { file: self.file.clone(), line: self.line, column: self.column }
    }

    /// The text of the position, `file line:column`.
    pub fn to_text(&self) -> (r: String)
        ensures
            r@ == position_text(self@),
    {
        proof {
            reveal_strlit(" ");
            reveal_strlit(":");
        }
        let mut s = self.file.clone();
        s.append(" ");
        let l = usize_text(self.line);
        s.append(l.as_str());
        s.append(":");
        let c = usize_text(self.column);
        s.append(c.as_str());
        s
    }
}

/// A copy of an optional position.
pub fn copy_pos(p: &Option<Position>) -> (r: Option<Position>)
    ensures
        opt_pos(r) == opt_pos(*p),
{
    match p {
        Some(p) => Some(p.copy()),
        None => None,
    }
}

} // verus!
