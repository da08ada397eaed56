use vstd::prelude::*;

verus! {

/// A span of source text, from the position of its first character to the
/// position just after its last one.
#[derive(PartialEq, Eq, Debug, Clone, Copy, Structural)]
pub struct FilePositionRange {
    pub start: FilePosition,
    pub end: FilePosition,
}

#[derive(PartialEq, Eq, Debug, Clone, Copy, Structural)]
pub struct FilePosition {
    /// First line is line `1`.
    pub line: usize,
    /// First column is column `0`.
    pub column: usize,
    /// Number of characters before this position.
    pub index: usize,
}

/// Anything that covers a span of source text.
pub trait Position {
    spec fn range(&self) -> FilePositionRange;

    fn position(&self) -> (r: FilePositionRange)
        ensures
            r == self.range(),
    ;
}

} // verus!
