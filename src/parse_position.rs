use vstd::prelude::*;

verus! {

/// A line and column in source text.
#[derive(Clone, Copy, Debug, PartialEq, Eq, Structural)]
pub struct Position {
    pub column: usize,
    pub line: usize,
}

/// The start and end of a piece of source text.
#[derive(Clone, Copy, Debug, PartialEq, Eq, Structural)]
pub struct PositionRange {
    pub start: Position,
    pub end: Position,
}

impl PositionRange {
    /// A range that points nowhere: every line and column is zero.
    pub fn none() -> (r: Self)
        ensures
            r.start.line == 0 && r.start.column == 0 && r.end.line == 0 && r.end.column == 0,
    {
        PositionRange { start: Position { line: 0, column: 0 }, end: Position { line: 0, column: 0 } }
    }
}

} // verus!
