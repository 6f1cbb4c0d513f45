//! Validated numeric newtypes used by the parse options and source model.

use vstd::prelude::*;

verus! {

/// A tab width; always at least 1.
#[derive(Debug, Clone, Copy, PartialEq, Eq, PartialOrd, Ord, Hash, Structural)]
pub struct TabWidth {
    width: u32,
}

impl TabWidth {
    /// The validity condition: the stored width is positive.
    pub closed spec fn wf(self) -> bool {
        self.width >= 1
    }

    /// The stored width, for contracts.
    pub closed spec fn spec_get(self) -> u32 {
        self.width
    }

    /// Accepts any positive width and rejects zero.
    pub fn new(width: u32) -> (r: Option<TabWidth>)
        ensures
            width == 0 ==> r is None,
            width >= 1 ==> ({
                &&& r matches Some(t)
                &&& t.wf()
                &&& t.spec_get() == width
            }),
    {
        if width == 0 {
            None
        } else {
            Some(TabWidth { width })
        }
    }

    /// The default tab width of 4 columns.
    pub fn default() -> (r: TabWidth)
        ensures
            r.spec_get() == 4,
            r.wf(),
    {
        TabWidth { width: 4 }
    }

    /// The width as a plain integer.
    pub fn get(self) -> (r: u32)
        ensures
            r == self.spec_get(),
    {
        self.width
    }
}

/// A line number; always at least 1.
#[derive(Debug, Clone, Copy, PartialEq, Eq, PartialOrd, Ord, Hash, Structural)]
pub struct LineNumber {
    line: u32,
}

impl LineNumber {
    /// The validity condition: lines start at 1.
    pub closed spec fn wf(self) -> bool {
        self.line >= 1
    }

    /// The stored line, for contracts.
    pub closed spec fn spec_get(self) -> u32 {
        self.line
    }

    /// Accepts any positive line number and rejects zero.
    pub fn new(line: u32) -> (r: Option<LineNumber>)
        ensures
            line == 0 ==> r is None,
            line >= 1 ==> ({
                &&& r matches Some(t)
                &&& t.wf()
                &&& t.spec_get() == line
            }),
    {
        if line == 0 {
            None
        } else {
            Some(LineNumber { line })
        }
    }

    /// The first line, numbered 1.
    pub fn first() -> (r: LineNumber)
        ensures
            r.spec_get() == 1,
            r.wf(),
    {
        LineNumber { line: 1 }
    }

    /// The line as a plain integer.
    pub fn get(self) -> (r: u32)
        ensures
            r == self.spec_get(),
    {
        self.line
    }
}

/// A column number; always at least 1.
#[derive(Debug, Clone, Copy, PartialEq, Eq, PartialOrd, Ord, Hash, Structural)]
pub struct ColumnNumber {
    column: u32,
}

impl ColumnNumber {
    /// The validity condition: columns start at 1.
    pub closed spec fn wf(self) -> bool {
        self.column >= 1
    }

    /// The stored column, for contracts.
    pub closed spec fn spec_get(self) -> u32 {
        self.column
    }

    /// Accepts any positive column number and rejects zero.
    pub fn new(column: u32) -> (r: Option<ColumnNumber>)
        ensures
            column == 0 ==> r is None,
            column >= 1 ==> ({
                &&& r matches Some(t)
                &&& t.wf()
                &&& t.spec_get() == column
            }),
    {
        if column == 0 {
            None
        } else {
            Some(ColumnNumber { column })
        }
    }

    /// The first column, numbered 1.
    pub fn first() -> (r: ColumnNumber)
        ensures
            r.spec_get() == 1,
            r.wf(),
    {
        ColumnNumber { column: 1 }
    }

    /// The column as a plain integer.
    pub fn get(self) -> (r: u32)
        ensures
            r == self.spec_get(),
    {
        self.column
    }
}

} // verus!
