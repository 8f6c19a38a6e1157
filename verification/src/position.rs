//! A 0-indexed buffer coordinate, ordered row-major so that selection ranges
//! can be normalized.
use vstd::prelude::*;

verus! {

/// A `(row, col)` buffer coordinate, both 0-indexed.
#[derive(Clone, Copy, Debug, PartialEq, Eq, Structural)]
pub struct Position {
    pub row: usize,
    pub col: usize,
}

impl Position {
    /// Row-major (lexicographic) order on positions.
    pub open spec fn spec_le(self, other: Position) -> bool {
        self.row < other.row || (self.row == other.row && self.col <= other.col)
    }

    pub fn new(row: usize, col: usize) -> (r: Position)
        ensures
            r == (Position { row, col }),
    {
        Position { row, col }
    }

    /// Whether `self` comes no later than `other` in row-major order.
    pub fn le(&self, other: &Position) -> (r: bool)
        ensures
            r == self.spec_le(*other),
    {
        self.row < other.row || (self.row == other.row && self.col <= other.col)
    }
}

/// A pair of positions in row-major order, swapped if needed.
pub open spec fn spec_normalize(start: Position, end: Position) -> (Position, Position) {
    if start.spec_le(end) {
        (start, end)
    } else {
        (end, start)
    }
}

/// Puts a pair of positions into row-major order, swapping them if needed.
pub fn normalize_range(start: Position, end: Position) -> (r: (Position, Position))
    ensures
        r == spec_normalize(start, end),
        r.0.spec_le(r.1),
{
    if start.le(&end) {
        (start, end)
    } else {
        (end, start)
    }
}

} // verus!
