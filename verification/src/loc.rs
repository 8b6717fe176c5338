//! Source locations.
use vstd::prelude::*;

verus! {

/// Source location: 1-based line and column.
#[derive(Clone, Copy, Debug, PartialEq, Eq, Structural)]
pub struct Loc {
    pub line: u32,
    pub col: u32,
}

impl Loc {
    pub fn new(line: u32, col: u32) -> (r: Self)
        ensures
            r.line == line,
            r.col == col,
    {
        Self { line, col }
    }
}

impl Default for Loc {
    /// The location `0:0`, used before any node has been visited.
    fn default() -> (r: Self)
        ensures
            r.line == 0,
            r.col == 0,
    {
        Self { line: 0, col: 0 }
    }
}

} // verus!
