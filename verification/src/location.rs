//! Positions, ranges and locations inside a source document.

use vstd::prelude::*;

verus! {

/// A zero-based (line, character) coordinate in a document.
#[derive(Clone, Copy, Debug, PartialEq, Eq, Structural)]
pub struct Position {
    pub line: u32,
    pub character: u32,
}

/// A pair of positions delimiting a span, half-open over characters.
#[derive(Clone, Copy, Debug, PartialEq, Eq, Structural)]
pub struct Range {
    pub start: Position,
    pub end: Position,
}

/// A place in a document: its URI together with a range.
#[derive(Debug)]
pub struct Location {
    pub uri: String,
    pub range: Range,
}

/// The range covering characters `[0, len)` of line `line`.
pub open spec fn spec_line_prefix_range(line: u32, len: u32) -> Range {
    Range {
        start: Position { line, character: 0 },
        end: Position { line, character: len },
    }
}

/// The empty range sitting at a single position.
pub open spec fn spec_empty_range(pos: Position) -> Range {
    Range { start: pos, end: pos }
}

} // verus!
