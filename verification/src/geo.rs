use vstd::prelude::*;

verus! {

/// A cell position on the terminal: a line (row) and a column, both 0-based.
#[derive(Debug, Clone, Copy, PartialEq, Eq, Structural, PartialOrd, Ord, Hash)]
pub struct ScreenCoord {
    pub line: u16,
    pub column: u16,
}

impl ScreenCoord {
    pub fn zero() -> (r: Self)
        ensures
            r.line == 0,
            r.column == 0,
    {
        Self { line: 0, column: 0 }
    }
}

/// A rectangular area of the screen, from its top left coordinate to its
/// bottom right coordinate. Both corners are INCLUDED: the area built from
/// `(0, 0)` to `(0, 0)` holds exactly one cell.
#[derive(Debug, Clone, Copy)]
pub struct ScreenArea {
    top_left: ScreenCoord,
    bottom_right: ScreenCoord,
}

impl ScreenArea {
    /// The top left corner.
    pub closed spec fn tl(self) -> ScreenCoord {
        self.top_left
    }

    /// The bottom right corner.
    pub closed spec fn br(self) -> ScreenCoord {
        self.bottom_right
    }

    /// The corners are ordered: the area holds at least one cell.
    pub open spec fn wf(self) -> bool {
        &&& self.tl().line <= self.br().line
        &&& self.tl().column <= self.br().column
    }

    pub open spec fn width_spec(self) -> int {
        self.br().column - self.tl().column + 1
    }

    pub open spec fn height_spec(self) -> int {
        self.br().line - self.tl().line + 1
    }

    /// Both dimensions fit in a `u16`, so `width` and `height` can be computed.
    pub open spec fn fits(self) -> bool {
        &&& self.width_spec() <= u16::MAX
        &&& self.height_spec() <= u16::MAX
    }

    /// `c`, given relative to the top left corner, lies inside the area.
    pub open spec fn contains_spec(self, c: ScreenCoord) -> bool {
        c.column < self.width_spec() && c.line < self.height_spec()
    }

    /// `c`, given in the coordinates of the whole screen, lies inside the area.
    pub open spec fn holds_absolute(self, c: ScreenCoord) -> bool {
        &&& self.tl().line <= c.line <= self.br().line
        &&& self.tl().column <= c.column <= self.br().column
    }

    /// The absolute coordinate of the internal coordinate `c`.
    pub open spec fn translate_spec(self, c: ScreenCoord) -> ScreenCoord {
        ScreenCoord {
            line: (c.line + self.tl().line) as u16,
            column: (c.column + self.tl().column) as u16,
        }
    }

    /// Builds an area from its two corners, both included.
    pub fn new(top_left: ScreenCoord, bottom_right: ScreenCoord) -> (r: Self)
        requires
            top_left.line <= bottom_right.line,
            top_left.column <= bottom_right.column,
        ensures
            r.tl() == top_left,
            r.br() == bottom_right,
            r.wf(),
    {
        Self { top_left, bottom_right }
    }

    pub fn top_left(self) -> (r: ScreenCoord)
        ensures
            r == self.tl(),
    {
        self.top_left
    }

    pub fn bottom_right(self) -> (r: ScreenCoord)
        ensures
            r == self.br(),
    {
        self.bottom_right
    }

    pub fn width(self) -> (r: u16)
        requires
            self.wf(),
            self.width_spec() <= u16::MAX,
        ensures
            r == self.width_spec(),
    {
        self.bottom_right.column - self.top_left.column + 1
    }

    pub fn height(self) -> (r: u16)
        requires
            self.wf(),
            self.height_spec() <= u16::MAX,
        ensures
            r == self.height_spec(),
    {
        self.bottom_right.line - self.top_left.line + 1
    }

    /// Splits the area vertically, right after the internal column `column`.
    /// The left part keeps the columns `0..=column`, the right part the rest;
    /// nothing is lost in between.
    pub fn split_after_internal_column(self, column: u16) -> (r: (Self, Self))
        requires
            self.wf(),
            self.fits(),
            self.width_spec() > column + 1,
        ensures
            r.0.wf(),
            r.1.wf(),
            r.0.tl() == self.tl(),
            r.0.br() == (ScreenCoord { line: self.br().line, column: (self.tl().column + column) as u16 }),
            r.1.tl() == (ScreenCoord { line: self.tl().line, column: (self.tl().column + column + 1) as u16 }),
            r.1.br() == self.br(),
            r.0.width_spec() == column + 1,
            r.1.width_spec() == self.width_spec() - column - 1,
            r.0.height_spec() == self.height_spec(),
            r.1.height_spec() == self.height_spec(),
    {
        let height = self.height();
        let width = self.width();
        let left = self.shrink_to_internal_area(
            ScreenArea::new(ScreenCoord::zero(), ScreenCoord { line: height - 1, column }),
        );
        let right = self.shrink_to_internal_area(
            ScreenArea::new(
                ScreenCoord { line: 0, column: column + 1 },
                ScreenCoord { line: height - 1, column: width - 1 },
            ),
        );
        (left, right)
    }

    /// Splits the area horizontally, right after the internal line `line`.
    /// The top part keeps the lines `0..=line`, the bottom part the rest;
    /// nothing is lost in between.
    pub fn split_after_internal_line(self, line: u16) -> (r: (Self, Self))
        requires
            self.wf(),
            self.fits(),
            self.height_spec() > line + 1,
        ensures
            r.0.wf(),
            r.1.wf(),
            r.0.tl() == self.tl(),
            r.0.br() == (ScreenCoord { line: (self.tl().line + line) as u16, column: self.br().column }),
            r.1.tl() == (ScreenCoord { line: (self.tl().line + line + 1) as u16, column: self.tl().column }),
            r.1.br() == self.br(),
            r.0.height_spec() == line + 1,
            r.1.height_spec() == self.height_spec() - line - 1,
            r.0.width_spec() == self.width_spec(),
            r.1.width_spec() == self.width_spec(),
    {
        let height = self.height();
        let width = self.width();
        let top = self.shrink_to_internal_area(
            ScreenArea::new(ScreenCoord::zero(), ScreenCoord { line, column: width - 1 }),
        );
        let bottom = self.shrink_to_internal_area(
            ScreenArea::new(
                ScreenCoord { line: line + 1, column: 0 },
                ScreenCoord { line: height - 1, column: width - 1 },
            ),
        );
        (top, bottom)
    }

    /// Checks if the coord is contained in self.
    /// The coordinates are relative to the top left corner of self.
    pub fn contains_internal_coord(self, other: ScreenCoord) -> (r: bool)
        requires
            self.wf(),
            self.fits(),
        ensures
            r == self.contains_spec(other),
    {
        other.column < self.width() && other.line < self.height()
    }

    /// Checks if the area is contained in self.
    /// The coordinates are relative to the top left corner of self.
    pub fn contains_internal_area(self, other: Self) -> (r: bool)
        requires
            self.wf(),
            self.fits(),
        ensures
            r == self.contains_spec(other.br()),
    {
        other.bottom_right.column < self.width() && other.bottom_right.line < self.height()
    }

    /// Returns the `other` area, given relative to self, in the coordinates of
    /// the whole screen.
    pub fn shrink_to_internal_area(self, other: ScreenArea) -> (r: ScreenArea)
        requires
            self.wf(),
            self.fits(),
            other.wf(),
            self.contains_spec(other.br()),
        ensures
            r.wf(),
            r.tl() == self.translate_spec(other.tl()),
            r.br() == self.translate_spec(other.br()),
            r.width_spec() == other.width_spec(),
            r.height_spec() == other.height_spec(),
    {
        ScreenArea::new(
            ScreenCoord {
                line: self.top_left.line + other.top_left.line,
                column: self.top_left.column + other.top_left.column,
            },
            ScreenCoord {
                line: self.top_left.line + other.bottom_right.line,
                column: self.top_left.column + other.bottom_right.column,
            },
        )
    }

    /// Translates an internal coordinate into a coordinate of the whole screen.
    pub fn translate_internal_coord(&self, other: ScreenCoord) -> (r: ScreenCoord)
        requires
            self.wf(),
            self.fits(),
            self.contains_spec(other),
        ensures
            r == self.translate_spec(other),
            self.holds_absolute(r),
    {
        ScreenCoord {
            line: other.line + self.top_left.line,
            column: other.column + self.top_left.column,
        }
    }

    /// Every internal coordinate of the area, line after line, left to right.
    pub fn iter(self) -> (r: Vec<ScreenCoord>)
        requires
            self.wf(),
            self.fits(),
        ensures
            r@.len() == self.width_spec() * self.height_spec(),
            forall|i: int| 0 <= i < r@.len() ==> self.contains_spec(#[trigger] r@[i]),
            forall|c: ScreenCoord| self.contains_spec(c) ==> r@.contains(c),
    {
        let width = self.width();
        let height = self.height();
        let mut out: Vec<ScreenCoord> = Vec::new();
        let mut line: u16 = 0;
        while line < height
            invariant
                width == self.width_spec(),
                height == self.height_spec(),
                line <= height,
                out@.len() == line * width,
                forall|i: int| 0 <= i < out@.len() ==> self.contains_spec(#[trigger] out@[i]),
                forall|c: ScreenCoord|
                    c.line < line && c.column < width ==> out@.contains(c),
            decreases height - line,
        {
            let ghost before = out@;
            let mut column: u16 = 0;
            while column < width
                invariant
                    width == self.width_spec(),
                    height == self.height_spec(),
                    line < height,
                    column <= width,
                    out@.len() == before.len() + column,
                    out@.subrange(0, before.len() as int) == before,
                    forall|i: int| 0 <= i < out@.len() ==> self.contains_spec(#[trigger] out@[i]),
                    forall|c: ScreenCoord|
                        c.line == line && c.column < column ==> out@.contains(c),
                decreases width - column,
            {
                let ghost prev = out@;
                out.push(ScreenCoord { line, column });
                assert forall|c: ScreenCoord| c.line == line && c.column < column + 1 implies out@.contains(c) by {
                    if c.column == column {
                        assert(out@[prev.len() as int] == c);
                    } else {
                        assert(prev.contains(c));
                        let k = choose|k: int| 0 <= k < prev.len() && prev[k] == c;
                        assert(out@[k] == c);
                    }
                }
                assert(out@.subrange(0, before.len() as int) =~= before) by {
                    assert(prev.subrange(0, before.len() as int) == before);
                }
                column = column + 1;
            }
            assert forall|c: ScreenCoord| c.line < line + 1 && c.column < width implies out@.contains(c) by {
                if c.line < line {
                    assert(before.contains(c));
                    let k = choose|k: int| 0 <= k < before.len() && before[k] == c;
                    assert(out@.subrange(0, before.len() as int)[k] == c);
                    assert(out@[k] == c);
                }
            }
            assert(out@.len() == (line + 1) * width) by (nonlinear_arith)
                requires out@.len() == line * width + width;
            line = line + 1;
        }
        assert(out@.len() == self.width_spec() * self.height_spec()) by (nonlinear_arith)
            requires out@.len() == line * width, line == self.height_spec(), width == self.width_spec();
        out
    }
}

/// Splitting after an internal column partitions the area: every cell of the
/// area lies in exactly one of the two halves, and no cell outside the area
/// lies in either.
pub proof fn lemma_split_column_partitions(area: ScreenArea, column: u16, left: ScreenArea, right: ScreenArea, c: ScreenCoord)
    requires
        area.wf(),
        left.tl() == area.tl(),
        left.br() == (ScreenCoord { line: area.br().line, column: (area.tl().column + column) as u16 }),
        right.tl() == (ScreenCoord { line: area.tl().line, column: (area.tl().column + column + 1) as u16 }),
        right.br() == area.br(),
        area.width_spec() > column + 1,
    ensures
        area.holds_absolute(c) <==> (left.holds_absolute(c) || right.holds_absolute(c)),
        !(left.holds_absolute(c) && right.holds_absolute(c)),
{
}

/// Splitting after an internal line partitions the area: every cell of the
/// area lies in exactly one of the two halves, and no cell outside the area
/// lies in either.
pub proof fn lemma_split_line_partitions(area: ScreenArea, line: u16, top: ScreenArea, bottom: ScreenArea, c: ScreenCoord)
    requires
        area.wf(),
        top.tl() == area.tl(),
        top.br() == (ScreenCoord { line: (area.tl().line + line) as u16, column: area.br().column }),
        bottom.tl() == (ScreenCoord { line: (area.tl().line + line + 1) as u16, column: area.tl().column }),
        bottom.br() == area.br(),
        area.height_spec() > line + 1,
    ensures
        area.holds_absolute(c) <==> (top.holds_absolute(c) || bottom.holds_absolute(c)),
        !(top.holds_absolute(c) && bottom.holds_absolute(c)),
{
}

/// Translating through a nested area is the same as translating twice: a
/// coordinate inside `inner` (itself given relative to `outer`) lands on the
/// same screen cell either way, and that cell lies inside `outer`.
pub proof fn lemma_nested_translation(outer: ScreenArea, inner: ScreenArea, nested: ScreenArea, c: ScreenCoord)
    requires
        outer.wf(),
        outer.fits(),
        inner.wf(),
        outer.contains_spec(inner.br()),
        nested.tl() == outer.translate_spec(inner.tl()),
        nested.br() == outer.translate_spec(inner.br()),
        inner.contains_spec(c),
    ensures
        nested.translate_spec(c) == outer.translate_spec(inner.translate_spec(c)),
        outer.holds_absolute(nested.translate_spec(c)),
        outer.contains_spec(inner.translate_spec(c)),
{
}

} // verus!
