//! Positions and ranges in a document, in the editor protocol's terms.

use vstd::prelude::*;

verus! {

/// A place in a document: a line and a column, both counted from zero.
#[derive(Clone, Copy, Debug, PartialEq, Eq, Structural)]
pub struct Position {
    pub line: u32,
    pub character: u32,
}

/// The stretch of a document between two positions.
#[derive(Clone, Copy, Debug, PartialEq, Eq, Structural)]
pub struct Range {
    pub start: Position,
    pub end: Position,
}

impl Position {
    /// Whether `self` comes no later in the document than `other`: on an
    /// earlier line, or on the same line at no greater column.
    pub open spec fn at_or_before(self, other: Position) -> bool {
        self.line < other.line || (self.line == other.line && self.character <= other.character)
    }

    /// The start of every document.
    pub open spec fn origin() -> Position {
        Position { line: 0, character: 0 }
    }
}

} // verus!
