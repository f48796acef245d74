use vstd::prelude::*;

verus! {

/// Whether to associate cursors placed at a boundary between runs with the run before or after it.
#[derive(Copy, Clone, Debug, Default, PartialEq, Eq, Structural, PartialOrd, Ord)]
pub enum Affinity {
    #[default]
    Before,
    After,
}

/// The affinity that `Affinity::from_before(before)` returns.
pub open spec fn affinity_from_before(before: bool) -> Affinity {
    if before {
        Affinity::Before
    } else {
        Affinity::After
    }
}

/// The affinity that `Affinity::from_after(after)` returns.
pub open spec fn affinity_from_after(after: bool) -> Affinity {
    if after {
        Affinity::After
    } else {
        Affinity::Before
    }
}

impl Affinity {
    /// Whether this is `Affinity::Before`.
    pub fn before(&self) -> (r: bool)
        ensures
            r == (*self == Affinity::Before),
    {
        *self == Self::Before
    }

    /// Whether this is `Affinity::After`.
    pub fn after(&self) -> (r: bool)
        ensures
            r == (*self == Affinity::After),
    {
        *self == Self::After
    }

    /// `Before` when `before` holds, `After` otherwise.
    pub fn from_before(before: bool) -> (r: Self)
        ensures
            r == affinity_from_before(before),
    {
        if before {
            Self::Before
        } else {
            Self::After
        }
    }

    /// `After` when `after` holds, `Before` otherwise.
    pub fn from_after(after: bool) -> (r: Self)
        ensures
            r == affinity_from_after(after),
    {
        if after {
            Self::After
        } else {
            Self::Before
        }
    }
}

/// An affinity is rebuilt from what `before` or `after` reports of it, and
/// the two constructors are each other's negation.
pub proof fn lemma_affinity_roundtrip(a: Affinity, flag: bool)
    ensures
        affinity_from_before(a == Affinity::Before) == a,
        affinity_from_after(a == Affinity::After) == a,
        affinity_from_before(flag) == affinity_from_after(!flag),
        (affinity_from_before(flag) == Affinity::Before) == flag,
        (affinity_from_after(flag) == Affinity::After) == flag,
{
}

/// Current cursor location
#[derive(Clone, Copy, Debug, Default, PartialEq, Eq, Structural, PartialOrd, Ord)]
pub struct Cursor {
    /// Index of the buffer line
    pub line: usize,
    /// First-byte-index of glyph at cursor (will insert behind this glyph)
    pub index: usize,
    /// Whether to associate the cursor with the run before it or the run after it if placed at the
    /// boundary between two runs
    pub affinity: Affinity,
}

impl Cursor {
    /// Create a new cursor, with `Affinity::Before`
    pub fn new(line: usize, index: usize) -> (r: Self)
        ensures
            r == (Cursor { line, index, affinity: Affinity::Before }),
    {
        Self::new_with_affinity(line, index, Affinity::Before)
    }

    /// Create a new cursor, specifying the affinity
    pub fn new_with_affinity(line: usize, index: usize, affinity: Affinity) -> (r: Self)
        ensures
            r == (Cursor { line, index, affinity }),
    {
        Self { line, index, affinity }
    }
}

/// The position of a cursor within a buffer: buffer line, layout line, glyph.
#[derive(Clone, Copy, Debug, PartialEq, Eq, Structural, PartialOrd, Ord)]
pub struct LayoutCursor {
    /// Index of the buffer line
    pub line: usize,
    /// Index of the layout line within the buffer line
    pub layout: usize,
    /// Index of the glyph within the layout line
    pub glyph: usize,
}

impl LayoutCursor {
    /// Create a new `LayoutCursor`
    pub fn new(line: usize, layout: usize, glyph: usize) -> (r: Self)
        ensures
            r == (LayoutCursor { line, layout, glyph }),
    {
        Self { line, layout, glyph }
    }
}

/// A motion to perform on a `Cursor`
#[derive(Clone, Copy, Debug, PartialEq, Eq, Structural)]
pub enum Motion {
    /// Apply specific `LayoutCursor`
    LayoutCursor(LayoutCursor),
    /// Move cursor to previous character (`Left` in LTR, `Right` in RTL)
    Previous,
    /// Move cursor to next character (`Right` in LTR, `Left` in RTL)
    Next,
    /// Move cursor left
    Left,
    /// Move cursor right
    Right,
    /// Move cursor up
    Up,
    /// Move cursor down
    Down,
    /// Move cursor to start of line
    Home,
    /// Move cursor to start of line, skipping whitespace
    SoftHome,
    /// Move cursor to end of line
    End,
    /// Move cursor to start of paragraph
    ParagraphStart,
    /// Move cursor to end of paragraph
    ParagraphEnd,
    /// Move cursor up one page
    PageUp,
    /// Move cursor down one page
    PageDown,
    /// Move cursor up or down by a number of pixels
    Vertical(i32),
    /// Move cursor to previous word boundary
    PreviousWord,
    /// Move cursor to next word boundary
    NextWord,
    /// Move cursor to next word boundary to the left
    LeftWord,
    /// Move cursor to next word boundary to the right
    RightWord,
    /// Move cursor to the start of the document
    BufferStart,
    /// Move cursor to the end of the document
    BufferEnd,
    /// Move cursor to specific line
    GotoLine(usize),
}

} // verus!
