use vstd::prelude::*;

verus! {

/// A position in a text document: zero-based line and column (in chars).
#[derive(Debug, Clone, Copy, PartialEq, Eq, Structural, Hash, PartialOrd, Ord)]
pub struct Position {
    pub line: usize,
    pub col: usize,
}

impl Position {
    pub fn new(line: usize, col: usize) -> (p: Position)
        ensures
            p.line == line,
            p.col == col,
    {
        Position { line, col }
    }

    /// Lexicographic order on (line, col).
    pub open spec fn spec_le(self, other: Position) -> bool {
        self.line < other.line || (self.line == other.line && self.col <= other.col)
    }

    /// `self` comes no later than `other` in the document.
    pub fn le(&self, other: &Position) -> (r: bool)
        ensures
            r == self.spec_le(*other),
    {
        self.line < other.line || (self.line == other.line && self.col <= other.col)
    }
}

} // verus!
