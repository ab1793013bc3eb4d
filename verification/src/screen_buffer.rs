//! What is on the terminal, cell by cell, and what will be drawn next: a
//! screen buffer, and sub-screens that write into a rectangle of it.
use vstd::prelude::*;
use unicode_segmentation::UnicodeSegmentation;
use crate::geo::{ScreenArea, ScreenCoord};
use crate::text::{push_char, push_str, str_eq};
use crate::theme::{plain_style, Style};

verus! {

// ---------------------------------------------------------------------------
// Graphemes.
// ---------------------------------------------------------------------------

/// The extended grapheme clusters of `s`, as `unicode-segmentation`
/// splits them.
pub uninterp spec fn grapheme_clusters(s: Seq<char>) -> Seq<Seq<char>>;

/// The strings of `parts`, one after the other.
pub open spec fn concat(parts: Seq<Seq<char>>) -> Seq<char>
    decreases parts.len(),
{
    if parts.len() == 0 {
        Seq::empty()
    } else {
        concat(parts.drop_last()) + parts.last()
    }
}

pub open spec fn strings_view(v: Seq<String>) -> Seq<Seq<char>> {
    v.map_values(|g: String| g@)
}

/// `UnicodeSegmentation::graphemes(s, true)`: the extended grapheme clusters
/// of `s`, in order. They are the pieces of `s` between consecutive cluster
/// boundaries: none is empty, and together they make `s` back.
#[verifier::external_body]
pub(crate) fn graphemes_of(s: &str) -> (r: Vec<String>)
    ensures
        strings_view(r@) == grapheme_clusters(s@),
        concat(strings_view(r@)) == s@,
        forall|i: int| 0 <= i < r@.len() ==> (#[trigger] r@[i])@.len() > 0,
{
    s.graphemes(true).map(|g| g.to_string()).collect()
}

/// The number of extended grapheme clusters of `s`
/// (`UnicodeSegmentation::graphemes(s, true).count()`).
#[verifier::external_body]
fn grapheme_count(s: &str) -> (r: usize)
    ensures
        r == grapheme_clusters(s@).len(),
{
    s.graphemes(true).count()
}

/// A string that can be shown on a single terminal cell: at most one
/// grapheme cluster (none for the empty grapheme).
#[derive(Debug, Clone, PartialEq, Eq, PartialOrd, Ord)]
pub struct Grapheme(String);

impl View for Grapheme {
    type V = Seq<char>;

    closed spec fn view(&self) -> Seq<char> {
        self.0@
    }
}

impl Grapheme {
    /// The empty grapheme.
    pub fn new() -> (r: Grapheme)
        ensures
            r@ == Seq::<char>::empty(),
    {
        Grapheme(String::new())
    }

    /// Empties the grapheme.
    pub fn clear(&mut self)
        ensures
            final(self)@ == Seq::<char>::empty(),
    {
        self.0 = String::new();
    }

    /// A single space `" "`.
    pub fn space() -> (r: Grapheme)
        ensures
            r@ == seq![' '],
    {
        let mut s = String::new();
        push_char(&mut s, ' ');
        Grapheme(s)
    }

    /// The text of the grapheme.
    pub fn as_str(&self) -> (r: &str)
        ensures
            r@ == self@,
    {
        self.0.as_str()
    }

    /// Appends `c` when the result is still one grapheme cluster; returns
    /// whether it did.
    pub fn push(&mut self, c: char) -> (r: bool)
        ensures
            r == (grapheme_clusters(old(self)@.push(c)).len() == 1),
            r ==> final(self)@ == old(self)@.push(c),
            !r ==> final(self)@ == old(self)@,
    {
        let before = self.0.clone();
        push_char(&mut self.0, c);
        if grapheme_count(self.0.as_str()) == 1 {
            true
        } else {
            self.0 = before;
            false
        }
    }

    /// Appends `s` when the result is still one grapheme cluster; returns
    /// whether it did.
    pub fn push_str(&mut self, s: &str) -> (r: bool)
        ensures
            r == (grapheme_clusters(old(self)@ + s@).len() == 1),
            r ==> final(self)@ == old(self)@ + s@,
            !r ==> final(self)@ == old(self)@,
    {
        let before = self.0.clone();
        push_str(&mut self.0, s);
        if grapheme_count(self.0.as_str()) == 1 {
            true
        } else {
            self.0 = before;
            false
        }
    }

    /// The grapheme made of `s`, which must be exactly one grapheme cluster.
    pub fn from_string(s: String) -> (r: Grapheme)
        requires
            grapheme_clusters(s@).len() == 1,
        ensures
            r@ == s@,
    {
        Grapheme(s)
    }

    /// The grapheme made of `s`, or `None` when `s` is not exactly one
    /// grapheme cluster.
    pub fn try_from_string(s: String) -> (r: Option<Grapheme>)
        ensures
            r is Some == (grapheme_clusters(s@).len() == 1),
            r matches Some(g) ==> g@ == s@,
    {
        if grapheme_count(s.as_str()) == 1 {
            Some(Grapheme::from_string(s))
        } else {
            None
        }
    }

    /// The grapheme made of the single char `c`.
    pub fn from_char(c: char) -> (r: Grapheme)
        ensures
            r@ == seq![c],
    {
        let mut s = String::new();
        push_char(&mut s, c);
        assert(s@ =~= seq![c]);
        Grapheme(s)
    }

    /// The grapheme made of `s`, a grapheme cluster that the segmentation
    /// handed out (or a single char).
    pub(crate) fn from_cluster(s: String) -> (r: Grapheme)
        ensures
            r@ == s@,
    {
        Grapheme(s)
    }

    /// A copy of this grapheme.
    pub fn duplicate(&self) -> (r: Grapheme)
        ensures
            r@ == self@,
    {
        Grapheme(self.0.clone())
    }
}

impl Default for Grapheme {
    fn default() -> (r: Grapheme)
        ensures
            r@ == Seq::<char>::empty(),
    {
        Grapheme::new()
    }
}

// ---------------------------------------------------------------------------
// Cells.
// ---------------------------------------------------------------------------

/// A single cell of the screen: a grapheme and its style.
#[derive(Debug, Clone, PartialEq, Eq)]
pub struct Cell {
    pub style: Style,
    pub grapheme: Grapheme,
}

pub struct CellView {
    pub style: Style,
    pub grapheme: Seq<char>,
}

impl View for Cell {
    type V = CellView;

    open spec fn view(&self) -> CellView {
        CellView { style: self.style, grapheme: self.grapheme@ }
    }
}

pub open spec fn blank_cell_view() -> CellView {
    CellView { style: plain_style(), grapheme: seq![' '] }
}

impl Cell {
    pub fn new(style: Style, grapheme: Grapheme) -> (r: Cell)
        ensures
            r@ == (CellView { style, grapheme: grapheme@ }),
    {
        Cell { style, grapheme }
    }

    /// A space with the plain style.
    pub fn blank() -> (r: Cell)
        ensures
            r@ == blank_cell_view(),
    {
        Cell { style: Style::plain(), grapheme: Grapheme::space() }
    }

    /// A copy of this cell.
    pub fn duplicate(&self) -> (r: Cell)
        ensures
            r@ == self@,
    {
        Cell { style: self.style, grapheme: self.grapheme.duplicate() }
    }

    /// Whether both cells hold the same grapheme with the same style.
    pub fn same_as(&self, other: &Cell) -> (r: bool)
        ensures
            r == (self@ == other@),
    {
        self.style == other.style && str_eq(self.grapheme.as_str(), other.grapheme.as_str())
    }
}


// ---------------------------------------------------------------------------
// The screen buffer.
// ---------------------------------------------------------------------------

/// Everything that is on the terminal (`committed`) and what was written
/// since the last draw (`pending`, per cell: `None` where nothing was).
/// Drawing only sends the cells that changed.
#[derive(Debug)]
pub struct ScreenBuffer {
    lines: u16,
    columns: u16,
    cursor: ScreenCoord,
    committed: Vec<Cell>,
    pending: Vec<Option<Cell>>,
}

pub struct ScreenBufferView {
    pub lines: nat,
    pub columns: nat,
    pub cursor: ScreenCoord,
    pub committed: Seq<CellView>,
    pub pending: Seq<Option<CellView>>,
}

pub open spec fn opt_cell_view(c: Option<Cell>) -> Option<CellView> {
    match c {
        Some(c) => Some(c@),
        None => None,
    }
}

impl View for ScreenBuffer {
    type V = ScreenBufferView;

    closed spec fn view(&self) -> ScreenBufferView {
        ScreenBufferView {
            lines: self.lines as nat,
            columns: self.columns as nat,
            cursor: self.cursor,
            committed: self.committed@.map_values(|c: Cell| c@),
            pending: self.pending@.map_values(|c: Option<Cell>| opt_cell_view(c)),
        }
    }
}

/// Dimensions a screen buffer can have: at least one cell, and no more cells
/// than a `u16` counts.
pub open spec fn valid_dimensions(lines: int, columns: int) -> bool {
    1 <= lines && 1 <= columns && lines * columns <= u16::MAX
}

impl ScreenBufferView {
    pub open spec fn len(self) -> nat {
        self.lines * self.columns
    }

    pub open spec fn wf(self) -> bool {
        &&& valid_dimensions(self.lines as int, self.columns as int)
        &&& self.committed.len() == self.len()
        &&& self.pending.len() == self.len()
        &&& self.cursor.line < self.lines
        &&& self.cursor.column < self.columns
    }

    pub open spec fn contains(self, c: ScreenCoord) -> bool {
        c.line < self.lines && c.column < self.columns
    }

    /// The index of the cell at `c`, line after line.
    pub open spec fn index_of(self, c: ScreenCoord) -> int {
        c.line * self.columns + c.column
    }

    /// The coordinate of the cell at index `i`.
    pub open spec fn coord_of(self, i: int) -> ScreenCoord {
        ScreenCoord { line: (i / self.columns as int) as u16, column: (i % self.columns as int) as u16 }
    }

    /// What cell `i` shows once drawn: the last write, or what is there.
    pub open spec fn shown(self, i: int) -> CellView {
        match self.pending[i] {
            Some(c) => c,
            None => self.committed[i],
        }
    }

    pub open spec fn shown_cells(self) -> Seq<CellView> {
        Seq::new(self.len(), |i: int| self.shown(i))
    }

    /// The cells among the first `n` that were written with something else
    /// than what is on the terminal, in order.
    pub open spec fn changes(self, n: nat) -> Seq<(ScreenCoord, CellView)>
        decreases n,
    {
        if n == 0 {
            Seq::empty()
        } else {
            let prev = self.changes((n - 1) as nat);
            let i = n - 1;
            match self.pending[i] {
                Some(c) => if c != self.committed[i] {
                    prev.push((self.coord_of(i), c))
                } else {
                    prev
                },
                None => prev,
            }
        }
    }
}

/// A buffer of `lines` by `columns` blank cells, nothing pending, the cursor
/// at `cursor`.
pub open spec fn blank_buffer(lines: nat, columns: nat, cursor: ScreenCoord) -> ScreenBufferView {
    ScreenBufferView {
        lines,
        columns,
        cursor,
        committed: Seq::new(lines * columns, |_i: int| blank_cell_view()),
        pending: Seq::new(lines * columns, |_i: int| None),
    }
}

/// How a cell shows as text: its grapheme, a space for the empty one.
pub open spec fn cell_text(c: CellView) -> Seq<char> {
    if c.grapheme.len() == 0 {
        seq![' ']
    } else {
        c.grapheme
    }
}

/// The first `n` cells as text, a line break before each new line.
pub open spec fn screen_text(cells: Seq<CellView>, columns: nat, n: nat) -> Seq<char>
    decreases n,
{
    if n == 0 {
        Seq::empty()
    } else {
        let i = n - 1;
        screen_text(cells, columns, (n - 1) as nat) + (if i != 0 && i % columns as int == 0 {
            seq!['\n']
        } else {
            Seq::empty()
        }) + cell_text(cells[i])
    }
}

pub open spec fn changes_view(v: Seq<(ScreenCoord, Cell)>) -> Seq<(ScreenCoord, CellView)> {
    v.map_values(|p: (ScreenCoord, Cell)| (p.0, p.1@))
}

proof fn lemma_index_bounds(lines: u16, columns: u16, c: ScreenCoord)
    requires
        valid_dimensions(lines as int, columns as int),
        c.line < lines,
        c.column < columns,
    ensures
        0 <= c.line * columns + c.column < lines * columns,
{
    assert(c.line * columns + c.column < lines * columns) by (nonlinear_arith)
        requires
            c.line < lines,
            c.column < columns,
    ;
}

fn blank_cells(n: usize) -> (r: (Vec<Cell>, Vec<Option<Cell>>))
    ensures
        r.0@.map_values(|c: Cell| c@) == Seq::new(n as nat, |_i: int| blank_cell_view()),
        r.1@.map_values(|c: Option<Cell>| opt_cell_view(c)) == Seq::new(n as nat, |_i: int| None::<CellView>),
{
    let mut committed: Vec<Cell> = Vec::new();
    let mut pending: Vec<Option<Cell>> = Vec::new();
    let mut i: usize = 0;
    while i < n
        invariant
            i <= n,
            committed@.len() == i,
            pending@.len() == i,
            forall|k: int| 0 <= k < i ==> (#[trigger] committed@[k])@ == blank_cell_view(),
            forall|k: int| 0 <= k < i ==> (#[trigger] pending@[k]) is None,
        decreases n - i,
    {
        committed.push(Cell::blank());
        pending.push(None);
        i = i + 1;
    }
    assert(committed@.map_values(|c: Cell| c@) =~= Seq::new(n as nat, |_i: int| blank_cell_view()));
    assert(pending@.map_values(|c: Option<Cell>| opt_cell_view(c)) =~= Seq::new(n as nat, |_i: int| None::<CellView>));
    (committed, pending)
}

impl ScreenBuffer {
    /// A buffer of `lines` by `columns` blank cells.
    pub fn new(lines: u16, columns: u16) -> (r: ScreenBuffer)
        requires
            valid_dimensions(lines as int, columns as int),
        ensures
            r@.wf(),
            r@ == blank_buffer(lines as nat, columns as nat, ScreenCoord { line: 0, column: 0 }),
    {
        let (committed, pending) = blank_cells((lines * columns) as usize);
        ScreenBuffer { lines, columns, cursor: ScreenCoord::zero(), committed, pending }
    }

    /// Resizes the buffer, discarding its content entirely (what was
    /// pending included): redraw everything before displaying again. The
    /// cursor is kept, moved inside the new dimensions.
    pub fn resize(&mut self, lines: u16, columns: u16)
        requires
            valid_dimensions(lines as int, columns as int),
        ensures
            final(self)@.wf(),
            final(self)@ == blank_buffer(
                lines as nat,
                columns as nat,
                ScreenCoord {
                    line: if old(self)@.cursor.line < lines { old(self)@.cursor.line } else { (lines - 1) as u16 },
                    column: if old(self)@.cursor.column < columns {
                        old(self)@.cursor.column
                    } else {
                        (columns - 1) as u16
                    },
                },
            ),
    {
        let (committed, pending) = blank_cells((lines * columns) as usize);
        self.committed = committed;
        self.pending = pending;
        self.lines = lines;
        self.columns = columns;
        let line = if self.cursor.line < lines { self.cursor.line } else { lines - 1 };
        let column = if self.cursor.column < columns { self.cursor.column } else { columns - 1 };
        self.cursor = ScreenCoord { line, column };
    }

    pub fn height(&self) -> (r: u16)
        ensures
            r == self@.lines,
    {
        self.lines
    }

    pub fn width(&self) -> (r: u16)
        ensures
            r == self@.columns,
    {
        self.columns
    }

    /// Where the terminal cursor is put after drawing.
    pub fn cursor(&self) -> (r: ScreenCoord)
        ensures
            r == self@.cursor,
    {
        self.cursor
    }

    fn index(&self, coord: ScreenCoord) -> (r: usize)
        requires
            self@.wf(),
            self@.contains(coord),
        ensures
            r == self@.index_of(coord),
            r < self@.len(),
    {
        proof {
            lemma_index_bounds(self.lines, self.columns, coord);
        }
        (coord.line * self.columns + coord.column) as usize
    }

    /// The cell shown at `coord`, `None` outside the buffer.
    pub fn get(&self, coord: ScreenCoord) -> (r: Option<&Cell>)
        requires
            self@.wf(),
        ensures
            r is Some == self@.contains(coord),
            r matches Some(c) ==> c@ == self@.shown(self@.index_of(coord)),
    {
        if coord.line >= self.lines || coord.column >= self.columns {
            return None;
        }
        let i = self.index(coord);
        assert(opt_cell_view(self.pending@[i as int]) == self@.pending[i as int]);
        assert(self.committed@[i as int]@ == self@.committed[i as int]);
        match &self.pending[i] {
            Some(c) => Some(c),
            None => Some(&self.committed[i]),
        }
    }

    /// Writes `cell` at `coord`; it shows there from the next draw on.
    pub fn set(&mut self, coord: ScreenCoord, cell: Cell)
        requires
            old(self)@.wf(),
            old(self)@.contains(coord),
        ensures
            final(self)@ == (ScreenBufferView {
                pending: old(self)@.pending.update(old(self)@.index_of(coord), Some(cell@)),
                ..old(self)@
            }),
    {
        let i = self.index(coord);
        let ghost cv = cell@;
        self.pending.set(i, Some(cell));
        assert(self@.pending =~= old(self)@.pending.update(i as int, Some(cv)));
        assert(self@.committed =~= old(self)@.committed);
    }

    /// Whether `coord` was written since the last draw.
    pub fn is_dirty(&self, coord: ScreenCoord) -> (r: bool)
        requires
            self@.wf(),
            self@.contains(coord),
        ensures
            r == self@.pending[self@.index_of(coord)] is Some,
    {
        let i = self.index(coord);
        assert(opt_cell_view(self.pending@[i as int]) == self@.pending[i as int]);
        self.pending[i].is_some()
    }

    /// Puts the terminal cursor at `coord`.
    pub fn set_cursor(&mut self, coord: ScreenCoord)
        requires
            old(self)@.wf(),
            old(self)@.contains(coord),
        ensures
            final(self)@ == (ScreenBufferView { cursor: coord, ..old(self)@ }),
    {
        self.cursor = coord;
        assert(self@.committed =~= old(self)@.committed);
        assert(self@.pending =~= old(self)@.pending);
    }

    /// The buffer as text, as drawn: one line of text per line of cells.
    pub fn display_as_text(&self) -> (r: String)
        requires
            self@.wf(),
        ensures
            r@ == screen_text(self@.shown_cells(), self@.columns, self@.len()),
    {
        let ghost v = self@;
        let n = self.pending.len();
        let mut out = String::new();
        let mut i: usize = 0;
        while i < n
            invariant
                v == self@,
                v.wf(),
                n == v.len(),
                i <= n,
                out@ == screen_text(v.shown_cells(), v.columns, i as nat),
            decreases n - i,
        {
            if i != 0 && i % (self.columns as usize) == 0 {
                push_char(&mut out, '\n');
            }
            assert(opt_cell_view(self.pending@[i as int]) == v.pending[i as int]);
            assert(self.committed@[i as int]@ == v.committed[i as int]);
            let cell = match &self.pending[i] {
                Some(c) => c,
                None => &self.committed[i],
            };
            assert(cell@ == v.shown_cells()[i as int]);
            if cell.grapheme.as_str().unicode_len() == 0 {
                push_char(&mut out, ' ');
            } else {
                push_str(&mut out, cell.grapheme.as_str());
            }
            i = i + 1;
        }
        out
    }

    /// Commits what was written since the last draw: every written cell
    /// becomes what is on the terminal, nothing is pending any more. Returns
    /// the cells to send to the terminal, those whose content changed, in
    /// order.
    pub fn take_changes(&mut self) -> (r: Vec<(ScreenCoord, Cell)>)
        requires
            old(self)@.wf(),
        ensures
            final(self)@.wf(),
            changes_view(r@) == old(self)@.changes(old(self)@.len()),
            final(self)@ == (ScreenBufferView {
                committed: old(self)@.shown_cells(),
                pending: Seq::new(old(self)@.len(), |_i: int| None::<CellView>),
                ..old(self)@
            }),
    {
        let ghost v = self@;
        let n = self.pending.len();
        let mut out: Vec<(ScreenCoord, Cell)> = Vec::new();
        let mut i: usize = 0;
        while i < n
            invariant
                v == old(self)@,
                v.wf(),
                n == v.len(),
                i <= n,
                self.lines == v.lines,
                self.columns == v.columns,
                self.cursor == v.cursor,
                self.committed@.len() == n,
                self.pending@.len() == n,
                forall|k: int| 0 <= k < i ==> (#[trigger] self.committed@[k])@ == v.shown(k),
                forall|k: int| 0 <= k < i ==> (#[trigger] self.pending@[k]) is None,
                forall|k: int| i <= k < n ==> (#[trigger] self.committed@[k])@ == v.committed[k],
                forall|k: int| i <= k < n ==> opt_cell_view(#[trigger] self.pending@[k]) == v.pending[k],
                changes_view(out@) == v.changes(i as nat),
            decreases n - i,
        {
            assert(opt_cell_view(self.pending@[i as int]) == v.pending[i as int]);
            let pending = match &self.pending[i] {
                Some(c) => Some(c.duplicate()),
                None => None,
            };
            match pending {
                Some(cell) => {
                    assert(cell@ == v.pending[i as int]->0);
                    if !cell.same_as(&self.committed[i]) {
                        let column = (i % (self.columns as usize)) as u16;
                        let line = (i / (self.columns as usize)) as u16;
                        out.push((ScreenCoord { line, column }, cell.duplicate()));
                        assert(changes_view(out@) =~= v.changes(i as nat).push((v.coord_of(i as int), cell@)));
                        self.committed.set(i, cell);
                    } else {
                        self.committed.set(i, cell);
                    }
                },
                None => {},
            }
            self.pending.set(i, None);
            i = i + 1;
        }
        assert(self@.committed =~= v.shown_cells());
        assert(self@.pending =~= Seq::new(v.len(), |_i: int| None::<CellView>));
        out
    }
}


// ---------------------------------------------------------------------------
// Sub-screens.
// ---------------------------------------------------------------------------

pub proof fn lemma_index_in_range(v: ScreenBufferView, c: ScreenCoord)
    requires
        v.wf(),
        v.contains(c),
    ensures
        0 <= v.index_of(c) < v.len(),
{
    let cols = v.columns as int;
    let lines = v.lines as int;
    assert(c.line * cols + c.column < lines * cols) by (nonlinear_arith)
        requires
            0 <= c.line < lines,
            0 <= c.column < cols,
    ;
}

pub proof fn lemma_index_injective(v: ScreenBufferView, a: ScreenCoord, b: ScreenCoord)
    requires
        v.wf(),
        v.contains(a),
        v.contains(b),
        v.index_of(a) == v.index_of(b),
    ensures
        a == b,
{
    let cols = v.columns as int;
    assert(a.line == b.line) by (nonlinear_arith)
        requires
            a.line * cols + a.column == b.line * cols + b.column,
            0 <= a.column < cols,
            0 <= b.column < cols,
            0 <= a.line,
            0 <= b.line,
    ;
}

/// A cell written at `coord` is what the buffer shows there, and every
/// other cell shows what it showed before.
pub proof fn lemma_read_back_write(v: ScreenBufferView, coord: ScreenCoord, cell: CellView, other: ScreenCoord)
    requires
        v.wf(),
        v.contains(coord),
        v.contains(other),
    ensures
        ({
            let after = ScreenBufferView { pending: v.pending.update(v.index_of(coord), Some(cell)), ..v };
            &&& after.wf()
            &&& after.shown(after.index_of(coord)) == cell
            &&& other != coord ==> after.shown(after.index_of(other)) == v.shown(v.index_of(other))
        }),
{
    lemma_index_in_range(v, coord);
    lemma_index_in_range(v, other);
    if other != coord && v.index_of(other) == v.index_of(coord) {
        lemma_index_injective(v, other, coord);
    }
}

/// A written cell is listed among the changes exactly when it differs from
/// what the terminal shows there, in its style or in its text: every such
/// cell among the first `n` is listed at its coordinate, and everything
/// listed is such a cell.
pub proof fn lemma_changes_are_the_differing_cells(v: ScreenBufferView, n: nat)
    requires
        n <= v.pending.len(),
        n <= v.committed.len(),
    ensures
        forall|i: int|
            #![trigger v.pending[i]]
            0 <= i < n && v.pending[i] is Some && (v.pending[i]->0.style != v.committed[i].style
                || v.pending[i]->0.grapheme != v.committed[i].grapheme) ==> v.changes(n).contains(
                (v.coord_of(i), v.pending[i]->0),
            ),
        forall|k: int|
            #![trigger v.changes(n)[k]]
            0 <= k < v.changes(n).len() ==> exists|i: int|
                #![trigger v.pending[i]]
                0 <= i < n && v.pending[i] == Some(v.changes(n)[k].1) && v.coord_of(i) == v.changes(n)[k].0
                    && v.changes(n)[k].1 != v.committed[i],
    decreases n,
{
    if n > 0 {
        let m = (n - 1) as nat;
        lemma_changes_are_the_differing_cells(v, m);
        let prev = v.changes(m);
        assert forall|i: int|
            #![trigger v.pending[i]]
            0 <= i < n && v.pending[i] is Some && (v.pending[i]->0.style != v.committed[i].style
                || v.pending[i]->0.grapheme != v.committed[i].grapheme) implies v.changes(n).contains(
            (v.coord_of(i), v.pending[i]->0),
        ) by {
            if i < m {
                let k = choose|k: int| 0 <= k < prev.len() && prev[k] == (v.coord_of(i), v.pending[i]->0);
                match v.pending[m as int] {
                    Some(c) => if c != v.committed[m as int] {
                        assert(v.changes(n) == prev.push((v.coord_of(m as int), c)));
                        assert(v.changes(n)[k] == prev[k]);
                    } else {
                    },
                    None => {},
                }
            } else {
                assert(v.pending[i]->0 != v.committed[i]);
                assert(v.changes(n) == prev.push((v.coord_of(i), v.pending[i]->0)));
                assert(v.changes(n)[prev.len() as int] == (v.coord_of(i), v.pending[i]->0));
            }
        }
        assert forall|k: int|
            #![trigger v.changes(n)[k]]
            0 <= k < v.changes(n).len() implies exists|i: int|
                #![trigger v.pending[i]]
                0 <= i < n && v.pending[i] == Some(v.changes(n)[k].1) && v.coord_of(i) == v.changes(n)[k].0
                    && v.changes(n)[k].1 != v.committed[i] by {
            if k < prev.len() {
                match v.pending[m as int] {
                    Some(c) => if c != v.committed[m as int] {
                        assert(v.changes(n)[k] == prev[k]);
                    },
                    None => {},
                }
                assert(v.changes(n)[k] == prev[k]);
                assert(prev[k] == prev[k]);
            } else {
                assert(v.pending[m as int] is Some);
            }
        }
    }
}

/// Nothing pending among the first `n` cells: nothing among them changes.
proof fn lemma_no_pending_no_changes(v: ScreenBufferView, n: nat)
    requires
        n <= v.pending.len(),
        forall|i: int| 0 <= i < n ==> v.pending[i] is None,
    ensures
        v.changes(n) == Seq::<(ScreenCoord, CellView)>::empty(),
    decreases n,
{
    if n > 0 {
        lemma_no_pending_no_changes(v, (n - 1) as nat);
    }
}

/// Committing what was written keeps what the screen shows, and leaves
/// nothing to send: a second draw right after a first one sends no cell.
pub proof fn lemma_commit_is_stable(v: ScreenBufferView)
    requires
        v.wf(),
    ensures
        ({
            let after = ScreenBufferView {
                committed: v.shown_cells(),
                pending: Seq::new(v.len(), |_i: int| None::<CellView>),
                ..v
            };
            &&& after.wf()
            &&& after.shown_cells() == v.shown_cells()
            &&& after.changes(after.len()) == Seq::<(ScreenCoord, CellView)>::empty()
        }),
{
    let after = ScreenBufferView {
        committed: v.shown_cells(),
        pending: Seq::new(v.len(), |_i: int| None::<CellView>),
        ..v
    };
    assert(after.shown_cells() =~= v.shown_cells());
    lemma_no_pending_no_changes(after, after.len());
}

/// A rectangle of a screen buffer that a component draws into, with its own
/// coordinates: `(0, 0)` is its top left corner. Several sub-screens of one
/// buffer can be used in turn; each write goes to the buffer handed in.
#[derive(Debug, Clone, Copy)]
pub struct SubScreen {
    pub area: ScreenArea,
}

impl SubScreen {
    /// The area lies inside a buffer of these dimensions.
    pub open spec fn fits_in(self, v: ScreenBufferView) -> bool {
        &&& self.area.wf()
        &&& self.area.fits()
        &&& self.area.br().line < v.lines
        &&& self.area.br().column < v.columns
        &&& v.wf()
    }

    /// The absolute coordinate of the internal coordinate `c`.
    pub open spec fn absolute(self, c: ScreenCoord) -> ScreenCoord {
        self.area.translate_spec(c)
    }

    pub fn height(&self) -> (r: u16)
        requires
            self.area.wf(),
            self.area.fits(),
        ensures
            r == self.area.height_spec(),
    {
        self.area.height()
    }

    pub fn width(&self) -> (r: u16)
        requires
            self.area.wf(),
            self.area.fits(),
        ensures
            r == self.area.width_spec(),
    {
        self.area.width()
    }

    /// Puts the terminal cursor at `cursor`, inside this sub-screen.
    pub fn set_cursor(&self, buffer: &mut ScreenBuffer, cursor: ScreenCoord)
        requires
            self.fits_in(old(buffer)@),
            self.area.contains_spec(cursor),
        ensures
            final(buffer)@ == (ScreenBufferView { cursor: self.absolute(cursor), ..old(buffer)@ }),
    {
        let at = self.area.translate_internal_coord(cursor);
        buffer.set_cursor(at);
    }

    /// Splits the sub-screen vertically right after `column`: the left part
    /// and the right part, nothing in between.
    pub fn split_after_col(&self, column: u16) -> (r: (SubScreen, SubScreen))
        requires
            self.area.wf(),
            self.area.fits(),
            self.area.width_spec() > column + 1,
        ensures
            r.0.area.wf(),
            r.1.area.wf(),
            r.0.area.tl() == self.area.tl(),
            r.0.area.br() == (ScreenCoord { line: self.area.br().line, column: (self.area.tl().column + column) as u16 }),
            r.1.area.tl() == (ScreenCoord { line: self.area.tl().line, column: (self.area.tl().column + column + 1) as u16 }),
            r.1.area.br() == self.area.br(),
    {
        let (left, right) = self.area.split_after_internal_column(column);
        (SubScreen { area: left }, SubScreen { area: right })
    }

    /// Splits the sub-screen horizontally right after `line`: the top part
    /// and the bottom part, nothing in between.
    pub fn split_after_line(&self, line: u16) -> (r: (SubScreen, SubScreen))
        requires
            self.area.wf(),
            self.area.fits(),
            self.area.height_spec() > line + 1,
        ensures
            r.0.area.wf(),
            r.1.area.wf(),
            r.0.area.tl() == self.area.tl(),
            r.0.area.br() == (ScreenCoord { line: (self.area.tl().line + line) as u16, column: self.area.br().column }),
            r.1.area.tl() == (ScreenCoord { line: (self.area.tl().line + line + 1) as u16, column: self.area.tl().column }),
            r.1.area.br() == self.area.br(),
    {
        let (top, bottom) = self.area.split_after_internal_line(line);
        (SubScreen { area: top }, SubScreen { area: bottom })
    }

    /// The sub-screen covering `area`, given in this sub-screen's
    /// coordinates.
    pub fn sub_screen(&self, area: ScreenArea) -> (r: SubScreen)
        requires
            self.area.wf(),
            self.area.fits(),
            area.wf(),
            self.area.contains_spec(area.br()),
        ensures
            r.area.wf(),
            r.area.tl() == self.area.translate_spec(area.tl()),
            r.area.br() == self.area.translate_spec(area.br()),
    {
        SubScreen { area: self.area.shrink_to_internal_area(area) }
    }

    /// The cell shown at `coord`, `None` outside this sub-screen.
    pub fn get<'a>(&self, buffer: &'a ScreenBuffer, coord: ScreenCoord) -> (r: Option<&'a Cell>)
        requires
            self.fits_in(buffer@),
        ensures
            r is Some == self.area.contains_spec(coord),
            r matches Some(c) ==> c@ == buffer@.shown(buffer@.index_of(self.absolute(coord))),
    {
        if !self.area.contains_internal_coord(coord) {
            None
        } else {
            let at = self.area.translate_internal_coord(coord);
            buffer.get(at)
        }
    }

    /// Writes `cell` at `coord`, inside this sub-screen.
    pub fn set(&self, buffer: &mut ScreenBuffer, coord: ScreenCoord, cell: Cell)
        requires
            self.fits_in(old(buffer)@),
            self.area.contains_spec(coord),
        ensures
            final(buffer)@ == (ScreenBufferView {
                pending: old(buffer)@.pending.update(old(buffer)@.index_of(self.absolute(coord)), Some(cell@)),
                ..old(buffer)@
            }),
    {
        let at = self.area.translate_internal_coord(coord);
        buffer.set(at, cell);
    }

    /// Writes `cell` on every cell of this sub-screen.
    pub fn fill(&self, buffer: &mut ScreenBuffer, cell: &Cell)
        requires
            self.fits_in(old(buffer)@),
        ensures
            final(buffer)@.wf(),
            final(buffer)@.lines == old(buffer)@.lines,
            final(buffer)@.columns == old(buffer)@.columns,
            final(buffer)@.cursor == old(buffer)@.cursor,
            final(buffer)@.committed == old(buffer)@.committed,
            final(buffer)@.pending.len() == old(buffer)@.pending.len(),
            forall|c: ScreenCoord| #[trigger] old(buffer)@.contains(c) ==> final(buffer)@.pending[old(buffer)@.index_of(c)]
                == if self.area.holds_absolute(c) {
                    Some(cell@)
                } else {
                    old(buffer)@.pending[old(buffer)@.index_of(c)]
                },
    {
        let ghost v = buffer@;
        let height = self.area.height();
        let width = self.area.width();
        let tl = self.area.top_left();
        let mut line: u16 = 0;
        while line < height
            invariant
                self.fits_in(v),
                height == self.area.height_spec(),
                width == self.area.width_spec(),
                tl == self.area.tl(),
                line <= height,
                buffer@.wf(),
                buffer@.lines == v.lines,
                buffer@.columns == v.columns,
                buffer@.cursor == v.cursor,
                buffer@.committed == v.committed,
                buffer@.pending.len() == v.pending.len(),
                forall|c: ScreenCoord| #[trigger] v.contains(c) ==> buffer@.pending[v.index_of(c)] == if self.area.holds_absolute(c)
                    && c.line < tl.line + line {
                    Some(cell@)
                } else {
                    v.pending[v.index_of(c)]
                },
            decreases height - line,
        {
            let mut column: u16 = 0;
            while column < width
                invariant
                    self.fits_in(v),
                    height == self.area.height_spec(),
                    width == self.area.width_spec(),
                    tl == self.area.tl(),
                    line < height,
                    column <= width,
                    buffer@.wf(),
                    buffer@.lines == v.lines,
                    buffer@.columns == v.columns,
                    buffer@.cursor == v.cursor,
                    buffer@.committed == v.committed,
                    buffer@.pending.len() == v.pending.len(),
                    forall|c: ScreenCoord| #[trigger] v.contains(c) ==> buffer@.pending[v.index_of(c)] == if self.area.holds_absolute(c)
                        && (c.line < tl.line + line || (c.line == tl.line + line && c.column < tl.column + column)) {
                        Some(cell@)
                    } else {
                        v.pending[v.index_of(c)]
                    },
                decreases width - column,
            {
                let coord = ScreenCoord { line, column };
                let ghost at = self.absolute(coord);
                let ghost before = buffer@;
                proof {
                    lemma_index_in_range(v, at);
                }
                self.set(buffer, coord, cell.duplicate());
                assert forall|c: ScreenCoord| #[trigger] v.contains(c) implies buffer@.pending[v.index_of(c)] == if self.area.holds_absolute(c)
                    && (c.line < tl.line + line || (c.line == tl.line + line && c.column < tl.column + column + 1)) {
                    Some(cell@)
                } else {
                    v.pending[v.index_of(c)]
                } by {
                    lemma_index_in_range(v, c);
                    if c != at {
                        if v.index_of(c) == v.index_of(at) {
                            lemma_index_injective(v, c, at);
                        }
                    }
                }
                column = column + 1;
            }
            line = line + 1;
        }
    }
}

impl ScreenBuffer {
    /// The sub-screen covering the whole buffer.
    pub fn as_sub_screen(&self) -> (r: SubScreen)
        requires
            self@.wf(),
        ensures
            r.fits_in(self@),
            r.area.tl() == (ScreenCoord { line: 0, column: 0 }),
            r.area.br() == (ScreenCoord { line: (self@.lines - 1) as u16, column: (self@.columns - 1) as u16 }),
    {
        SubScreen {
            area: ScreenArea::new(ScreenCoord::zero(), ScreenCoord { line: self.lines - 1, column: self.columns - 1 }),
        }
    }
}


impl SubScreen {
    /// Writes the cells of row `line` of this sub-screen: `texts[col]` with
    /// `style` at each column `col`.
    pub fn write_row(&self, buffer: &mut ScreenBuffer, line: u16, texts: &Vec<String>, style: Style)
        requires
            self.fits_in(old(buffer)@),
            line < self.area.height_spec(),
            texts@.len() == self.area.width_spec(),
        ensures
            final(buffer)@.wf(),
            final(buffer)@.lines == old(buffer)@.lines,
            final(buffer)@.columns == old(buffer)@.columns,
            final(buffer)@.cursor == old(buffer)@.cursor,
            final(buffer)@.committed == old(buffer)@.committed,
            final(buffer)@.pending.len() == old(buffer)@.pending.len(),
            forall|c: ScreenCoord| #[trigger] old(buffer)@.contains(c) ==> final(buffer)@.pending[old(buffer)@.index_of(c)]
                == if self.area.holds_absolute(c) && c.line == self.area.tl().line + line {
                    Some(CellView { style, grapheme: texts@[c.column - self.area.tl().column]@ })
                } else {
                    old(buffer)@.pending[old(buffer)@.index_of(c)]
                },
    {
        let ghost v = buffer@;
        let width = self.area.width();
        let tl = self.area.top_left();
        let mut column: u16 = 0;
        while column < width
            invariant
                self.fits_in(v),
                width == self.area.width_spec(),
                tl == self.area.tl(),
                line < self.area.height_spec(),
                texts@.len() == width,
                column <= width,
                buffer@.wf(),
                buffer@.lines == v.lines,
                buffer@.columns == v.columns,
                buffer@.cursor == v.cursor,
                buffer@.committed == v.committed,
                buffer@.pending.len() == v.pending.len(),
                forall|c: ScreenCoord| #[trigger] v.contains(c) ==> buffer@.pending[v.index_of(c)] == if self.area.holds_absolute(c)
                    && c.line == tl.line + line && c.column < tl.column + column {
                    Some(CellView { style, grapheme: texts@[c.column - tl.column]@ })
                } else {
                    v.pending[v.index_of(c)]
                },
            decreases width - column,
        {
            let coord = ScreenCoord { line, column };
            let ghost at = self.absolute(coord);
            proof {
                lemma_index_in_range(v, at);
            }
            let cell = Cell::new(style, Grapheme::from_cluster(texts[column as usize].clone()));
            self.set(buffer, coord, cell);
            assert forall|c: ScreenCoord| #[trigger] v.contains(c) implies buffer@.pending[v.index_of(c)] == if self.area.holds_absolute(c)
                && c.line == tl.line + line && c.column < tl.column + column + 1 {
                Some(CellView { style, grapheme: texts@[c.column - tl.column]@ })
            } else {
                v.pending[v.index_of(c)]
            } by {
                lemma_index_in_range(v, c);
                if c != at {
                    if v.index_of(c) == v.index_of(at) {
                        lemma_index_injective(v, c, at);
                    }
                }
            }
            column = column + 1;
        }
    }
}


impl SubScreen {
    /// Writes `chars` with `style` on row `line` of this sub-screen, from its
    /// first column on, as many as fit.
    pub fn put_chars(&self, buffer: &mut ScreenBuffer, line: u16, chars: &Vec<char>, style: Style)
        requires
            self.fits_in(old(buffer)@),
            line < self.area.height_spec(),
        ensures
            final(buffer)@.wf(),
            final(buffer)@.lines == old(buffer)@.lines,
            final(buffer)@.columns == old(buffer)@.columns,
            final(buffer)@.cursor == old(buffer)@.cursor,
            final(buffer)@.committed == old(buffer)@.committed,
            final(buffer)@.pending.len() == old(buffer)@.pending.len(),
            forall|c: ScreenCoord| #[trigger] old(buffer)@.contains(c) ==> final(buffer)@.pending[old(buffer)@.index_of(c)]
                == if self.area.holds_absolute(c) && c.line == self.area.tl().line + line && c.column - self.area.tl().column
                    < chars@.len() {
                    Some(CellView { style, grapheme: seq![chars@[c.column - self.area.tl().column]] })
                } else {
                    old(buffer)@.pending[old(buffer)@.index_of(c)]
                },
    {
        let ghost v = buffer@;
        let width = self.area.width();
        let tl = self.area.top_left();
        let mut column: u16 = 0;
        while column < width && (column as usize) < chars.len()
            invariant
                self.fits_in(v),
                width == self.area.width_spec(),
                tl == self.area.tl(),
                line < self.area.height_spec(),
                column <= width,
                buffer@.wf(),
                buffer@.lines == v.lines,
                buffer@.columns == v.columns,
                buffer@.cursor == v.cursor,
                buffer@.committed == v.committed,
                buffer@.pending.len() == v.pending.len(),
                forall|c: ScreenCoord| #[trigger] v.contains(c) ==> buffer@.pending[v.index_of(c)] == if self.area.holds_absolute(c)
                    && c.line == tl.line + line && c.column < tl.column + column && c.column - tl.column < chars@.len() {
                    Some(CellView { style, grapheme: seq![chars@[c.column - tl.column]] })
                } else {
                    v.pending[v.index_of(c)]
                },
            decreases width - column,
        {
            let coord = ScreenCoord { line, column };
            let ghost at = self.absolute(coord);
            proof {
                lemma_index_in_range(v, at);
            }
            let cell = Cell::new(style, Grapheme::from_char(chars[column as usize]));
            self.set(buffer, coord, cell);
            assert forall|c: ScreenCoord| #[trigger] v.contains(c) implies buffer@.pending[v.index_of(c)] == if self.area.holds_absolute(c)
                && c.line == tl.line + line && c.column < tl.column + column + 1 && c.column - tl.column < chars@.len() {
                Some(CellView { style, grapheme: seq![chars@[c.column - tl.column]] })
            } else {
                v.pending[v.index_of(c)]
            } by {
                lemma_index_in_range(v, c);
                if c != at {
                    if v.index_of(c) == v.index_of(at) {
                        lemma_index_injective(v, c, at);
                    }
                }
            }
            column = column + 1;
        }
    }
}


impl SubScreen {
    /// Writes `texts` with `style` on row `line` of this sub-screen, one per
    /// cell from its first column on, as many as fit.
    pub fn put_texts(&self, buffer: &mut ScreenBuffer, line: u16, texts: &Vec<String>, style: Style)
        requires
            self.fits_in(old(buffer)@),
            line < self.area.height_spec(),
        ensures
            final(buffer)@.wf(),
            final(buffer)@.lines == old(buffer)@.lines,
            final(buffer)@.columns == old(buffer)@.columns,
            final(buffer)@.cursor == old(buffer)@.cursor,
            final(buffer)@.committed == old(buffer)@.committed,
            final(buffer)@.pending.len() == old(buffer)@.pending.len(),
            forall|c: ScreenCoord| #[trigger] old(buffer)@.contains(c) ==> final(buffer)@.pending[old(buffer)@.index_of(c)]
                == if self.area.holds_absolute(c) && c.line == self.area.tl().line + line && c.column - self.area.tl().column
                    < texts@.len() {
                    Some(CellView { style, grapheme: texts@[c.column - self.area.tl().column]@ })
                } else {
                    old(buffer)@.pending[old(buffer)@.index_of(c)]
                },
    {
        let ghost v = buffer@;
        let width = self.area.width();
        let tl = self.area.top_left();
        let mut column: u16 = 0;
        while column < width && (column as usize) < texts.len()
            invariant
                self.fits_in(v),
                width == self.area.width_spec(),
                tl == self.area.tl(),
                line < self.area.height_spec(),
                column <= width,
                buffer@.wf(),
                buffer@.lines == v.lines,
                buffer@.columns == v.columns,
                buffer@.cursor == v.cursor,
                buffer@.committed == v.committed,
                buffer@.pending.len() == v.pending.len(),
                forall|c: ScreenCoord| #[trigger] v.contains(c) ==> buffer@.pending[v.index_of(c)] == if self.area.holds_absolute(c)
                    && c.line == tl.line + line && c.column < tl.column + column && c.column - tl.column < texts@.len() {
                    Some(CellView { style, grapheme: texts@[c.column - tl.column]@ })
                } else {
                    v.pending[v.index_of(c)]
                },
            decreases width - column,
        {
            let coord = ScreenCoord { line, column };
            let ghost at = self.absolute(coord);
            proof {
                lemma_index_in_range(v, at);
            }
            let cell = Cell::new(style, Grapheme::from_cluster(texts[column as usize].clone()));
            self.set(buffer, coord, cell);
            assert forall|c: ScreenCoord| #[trigger] v.contains(c) implies buffer@.pending[v.index_of(c)] == if self.area.holds_absolute(c)
                && c.line == tl.line + line && c.column < tl.column + column + 1 && c.column - tl.column < texts@.len() {
                Some(CellView { style, grapheme: texts@[c.column - tl.column]@ })
            } else {
                v.pending[v.index_of(c)]
            } by {
                lemma_index_in_range(v, c);
                if c != at {
                    if v.index_of(c) == v.index_of(at) {
                        lemma_index_injective(v, c, at);
                    }
                }
            }
            column = column + 1;
        }
    }
}

} // verus!
