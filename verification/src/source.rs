//! Source locations and spans.
//!
//! A location is either a line/column pair (both starting at 1) or a
//! character index (starting at 0), chosen by the parse options. A span is a
//! half-open range of locations: the end points one past the last character.

use vstd::prelude::*;

verus! {

/// The default number of columns that a tab character advances to the next
/// multiple of.
pub const DEFAULT_TAB_WIDTH: u32 = 4;

/// Which shape of [`Location`] the reader produces.
#[derive(Debug, Clone, Copy, PartialEq, Eq, Structural)]
pub enum SourceConvention {
    /// Locations are line/column pairs, both starting at 1.
    LineColumn,
    /// Locations are character indices, starting at 0.
    CharacterIndex,
}

/// A position in the input, in the shape selected by [`SourceConvention`].
#[derive(Debug, Clone, Copy, PartialEq, Eq, PartialOrd, Ord, Hash, Structural)]
pub enum Location {
    /// A line (>= 1) and column (>= 1).
    LineColumn { line: u32, column: u32 },
    /// A character index (>= 0).
    CharacterIndex { index: u32 },
}

/// A half-open range of the input: `start` is the first position covered and
/// `end` is one past the last.
#[derive(Debug, Clone, Copy, PartialEq, Eq, PartialOrd, Ord, Hash, Structural)]
pub struct Span {
    pub start_loc: Location,
    pub end_loc: Location,
}

impl Location {
    /// The starting location of any input under the line/column convention.
    pub fn start() -> (r: Location)
        ensures
            r == (Location::LineColumn { line: 1u32, column: 1u32 }),
    {
        Location::LineColumn { line: 1, column: 1 }
    }

    /// The location `n` characters further along the same line (or `n`
    /// characters later under the index convention), saturating at the
    /// largest representable value.
    pub fn advance(self, n: u32) -> (r: Location)
        ensures
            r == self.spec_advance(n),
    {
        match self {
            Location::LineColumn { line, column } => Location::LineColumn {
                line,
                column: if column <= u32::MAX - n {
                    column + n
                } else {
                    u32::MAX
                },
            },
            Location::CharacterIndex { index } => Location::CharacterIndex {
                index: if index <= u32::MAX - n {
                    index + n
                } else {
                    u32::MAX
                },
            },
        }
    }

    /// What [`Location::advance`] returns.
    pub open spec fn spec_advance(self, n: u32) -> Location {
        match self {
            Location::LineColumn { line, column } => Location::LineColumn {
                line,
                column: if column + n <= u32::MAX {
                    (column + n) as u32
                } else {
                    u32::MAX
                },
            },
            Location::CharacterIndex { index } => Location::CharacterIndex {
                index: if index + n <= u32::MAX {
                    (index + n) as u32
                } else {
                    u32::MAX
                },
            },
        }
    }

    /// The first column of the following line; under the index convention,
    /// the next character index.
    pub fn next_line(self) -> (r: Location)
        ensures
            r == self.spec_next_line(),
    {
        match self {
            Location::LineColumn { line, column: _ } => Location::LineColumn {
                line: if line < u32::MAX {
                    line + 1
                } else {
                    u32::MAX
                },
                column: 1,
            },
            Location::CharacterIndex { index } => Location::CharacterIndex {
                index: if index < u32::MAX {
                    index + 1
                } else {
                    u32::MAX
                },
            },
        }
    }

    /// What [`Location::next_line`] returns.
    pub open spec fn spec_next_line(self) -> Location {
        match self {
            Location::LineColumn { line, column } => Location::LineColumn {
                line: if line + 1 <= u32::MAX {
                    (line + 1) as u32
                } else {
                    u32::MAX
                },
                column: 1u32,
            },
            Location::CharacterIndex { index } => Location::CharacterIndex {
                index: if index + 1 <= u32::MAX {
                    (index + 1) as u32
                } else {
                    u32::MAX
                },
            },
        }
    }
}

impl Span {
    /// The span that covers nothing, at the given location.
    pub fn point(loc: Location) -> (r: Span)
        ensures
            r.start_loc == loc,
            r.end_loc == loc,
    {
        Span { start_loc: loc, end_loc: loc }
    }

    /// The span from `start` to `end` (exclusive).
    pub fn from_locations(start: Location, end: Location) -> (r: Span)
        ensures
            r.start_loc == start,
            r.end_loc == end,
    {
        Span { start_loc: start, end_loc: end }
    }

    /// The first position covered.
    pub fn start(&self) -> (r: Location)
        ensures
            r == self.start_loc,
    {
        self.start_loc
    }

    /// One past the last position covered.
    pub fn end(&self) -> (r: Location)
        ensures
            r == self.end_loc,
    {
        self.end_loc
    }
}

} // verus!
