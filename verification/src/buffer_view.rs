//! A view on a buffer: which lines are visible, where the selection is, and
//! how the code is drawn (with a line-number gutter, optionally soft-wrapped).
use vstd::prelude::*;
use ropey::Rope;
use crate::action::{Anchor, DeleteDirection, Direction};
use crate::action::ActionView;
use crate::editor::{cursor_before, event_action, ActionResult, Cursor, InputEventView, KeyCode, Selection, SelectionMode};
use crate::mode::Mode;
use crate::geo::ScreenCoord;
use crate::layout::{
    continuation_gutter, first_line_feed, gutter_width, gutter_width_spec, lemma_first_line_feed_range,
    lemma_wrap_from_shape, make_continuation_gutter, make_number_gutter, min, number_gutter,
    starts_line_feed, wrap_chunks, wrap_rows,
};
use crate::screen_buffer::{Cell, CellView, Grapheme, ScreenBuffer, ScreenBufferView, SubScreen};
use crate::text::{chars_of, push_char, push_str};
use crate::rope::{
    is_line_break, lemma_insert_keeps_line_start, line_start, rope_insert_char, rope_len_lines, rope_line_len, rope_line_text, rope_line_to_char,
    rope_lines, rope_remove_char, rope_text,
};
use crate::screen_buffer::{grapheme_clusters, graphemes_of, strings_view};
use crate::theme::{plain_style, Color, Style};

verus! {

/// A view on a buffer, drawn into an area of `width` by `height` cells.
#[derive(Debug, Clone, Copy, PartialEq, Eq, Structural)]
pub struct BufferView {
    pub width: usize,
    pub height: usize,
    /// The buffer line shown on the first row.
    pub top_line: usize,
    /// Whether this view has the focus (and so the terminal cursor).
    pub active: bool,
    pub selection: Selection,
    pub background: Style,
    pub soft_wrap: bool,
}

pub open spec fn sat_sub(a: int, b: int) -> int {
    if a >= b {
        a - b
    } else {
        0
    }
}

/// The width left for the text once the gutter is drawn (at least one).
pub open spec fn content_width_spec(width: int, gutter: int) -> int {
    if width - gutter >= 1 {
        width - gutter
    } else {
        1
    }
}

/// The number of rows the lines `from..from + count` of `lines` take once
/// wrapped at `width` graphemes (the lines past the end take none).
pub open spec fn rows_used(lines: Seq<Seq<char>>, from: int, count: nat, width: nat) -> nat
    decreases count,
{
    if count == 0 || from + count - 1 >= lines.len() {
        if count == 0 {
            0
        } else {
            rows_used(lines, from, (count - 1) as nat, width)
        }
    } else {
        rows_used(lines, from, (count - 1) as nat, width) + wrap_rows(
            grapheme_clusters(lines[from + count - 1]),
            width,
        ).len()
    }
}

/// The anchor that moves.
pub open spec fn anchor_of(s: Selection, anchor: Anchor) -> Cursor {
    match anchor {
        Anchor::Tail => s.tail,
        Anchor::Head => s.head,
    }
}

/// The directions whose moves are not decided yet.
pub open spec fn undecided_direction(d: Direction) -> bool {
    d is EndOfFile || d is PageUp || d is PageDown
}

/// Whether moving down from `line` scrolls the view instead of moving the
/// anchor: the anchor is on the last visible row.
pub open spec fn scrolls_down(v: BufferView, lines: Seq<Seq<char>>, line: int) -> bool {
    if v.soft_wrap {
        rows_used(
            lines,
            v.top_line as int,
            (sat_sub(line, v.top_line as int) + 1) as nat,
            content_width_spec(v.width as int, gutter_width_spec(v.top_line as nat, v.height as nat) as int) as nat,
        ) >= v.height
    } else {
        line == v.top_line + v.height
    }
}

/// What moving `anchor` in `direction` does to the view, over the buffer
/// lines `lines`: the new view and what to do next.
pub open spec fn move_anchor_spec(v: BufferView, lines: Seq<Seq<char>>, anchor: Anchor, direction: Direction, mode: SelectionMode) -> (BufferView, ActionResult) {
    let a = anchor_of(v.selection, anchor);
    let moved: Option<(usize, Cursor)> = match direction {
        Direction::Up => if a.line == 0 {
            None
        } else if a.line == v.top_line {
            Some(((v.top_line - 1) as usize, a))
        } else {
            Some((v.top_line, Cursor { line: (a.line - 1) as usize, ..a }))
        },
        Direction::Down => if a.line == lines.len() {
            None
        } else if scrolls_down(v, lines, a.line as int) {
            Some(((v.top_line + 1) as usize, a))
        } else {
            Some((v.top_line, Cursor { line: (a.line + 1) as usize, ..a }))
        },
        Direction::Right => Some(
            (v.top_line, Cursor { column: min(a.column + 1, lines[a.line as int].len() as int) as usize, ..a }),
        ),
        Direction::Left => Some((v.top_line, Cursor { column: sat_sub(a.column as int, 1) as usize, ..a })),
        Direction::StartOfLine => Some((v.top_line, Cursor { column: 0, ..a })),
        Direction::EndOfLine => Some((v.top_line, Cursor { column: lines[a.line as int].len() as usize, ..a })),
        Direction::StartOfFile => Some((0, Cursor { line: 0, column: 0 })),
        _ => None,
    };
    match moved {
        None => (v, ActionResult::Nothing),
        Some((top, c)) => (
            BufferView {
                top_line: top,
                selection: match mode {
                    SelectionMode::Char => Selection { head: c, tail: c },
                },
                ..v
            },
            ActionResult::Redraw,
        ),
    }
}

/// What a view needs for moving an anchor in `direction` without panicking.
pub open spec fn can_move(v: BufferView, lines: Seq<Seq<char>>, anchor: Anchor, direction: Direction) -> bool {
    let a = anchor_of(v.selection, anchor);
    &&& !undecided_direction(direction)
    &&& v.top_line + v.height <= usize::MAX
    &&& (direction is Right || direction is EndOfLine) ==> a.line < lines.len()
    &&& direction is Down ==> {
        &&& a.line <= lines.len()
        &&& v.top_line < usize::MAX
        &&& (v.soft_wrap ==> v.top_line <= lines.len() && a.line < usize::MAX && rows_used(
            lines,
            v.top_line as int,
            (sat_sub(a.line as int, v.top_line as int) + 1) as nat,
            content_width_spec(v.width as int, gutter_width_spec(v.top_line as nat, v.height as nat) as int) as nat,
        ) <= usize::MAX)
    }
}

/// What resizing to `width` by `height` does: the view keeps its head line
/// visible, scrolling as little as it can.
pub open spec fn resize_spec(v: BufferView, width: usize, height: usize) -> BufferView {
    let head = v.selection.head.line;
    let top = if head < v.top_line {
        head
    } else if head >= v.top_line + height {
        (head + 1 - height) as usize
    } else {
        v.top_line
    };
    BufferView { width, height, top_line: top, ..v }
}

/// Deleting backward right after typing a char that is not a line break
/// gives the text back: on the view `insert` leaves (head one column
/// further on the same line), `delete` is allowed and removes exactly the
/// char just typed.
pub proof fn lemma_delete_undoes_insert(before: Rope, after: Rope, head: Cursor, c: char)
    requires
        !is_line_break(c),
        head.line < rope_lines(before).len(),
        line_start(rope_lines(before), head.line as int) + head.column <= rope_text(before).len(),
        rope_text(after) == rope_text(before).insert(line_start(rope_lines(before), head.line as int) + head.column, c),
    ensures
        ({
            let typed = line_start(rope_lines(before), head.line as int) + head.column;
            &&& head.line < rope_lines(after).len()
            &&& line_start(rope_lines(after), head.line as int) + (head.column + 1) - 1 == typed
            &&& typed < rope_text(after).len()
            &&& rope_text(after).remove(typed) == rope_text(before)
        }),
{
    let typed = line_start(rope_lines(before), head.line as int) + head.column;
    lemma_insert_keeps_line_start(rope_text(before), typed, c, head.line as int);
    assert(rope_text(before).insert(typed, c).remove(typed) =~= rope_text(before));
}

/// Moving an anchor sideways keeps it on its line: Left goes back one
/// column (staying put at column 0), Right goes one column further (up to
/// the line's length, its line break included), StartOfLine goes to column
/// 0 and EndOfLine to the line's length. The selection collapses onto the
/// moved anchor and the view does not scroll.
pub proof fn lemma_sideways_moves(v: BufferView, lines: Seq<Seq<char>>, anchor: Anchor, direction: Direction)
    requires
        direction is Left || direction is Right || direction is StartOfLine || direction is EndOfLine,
        (direction is Right || direction is EndOfLine) ==> anchor_of(v.selection, anchor).line < lines.len()
            && lines[anchor_of(v.selection, anchor).line as int].len() <= usize::MAX,
    ensures
        ({
            let a = anchor_of(v.selection, anchor);
            let (w, r) = move_anchor_spec(v, lines, anchor, direction, SelectionMode::Char);
            let column: int = match direction {
                Direction::Left => if a.column > 0 { a.column - 1 } else { 0 },
                Direction::Right => if a.column + 1 <= lines[a.line as int].len() { a.column + 1 } else {
                    lines[a.line as int].len() as int
                },
                Direction::StartOfLine => 0,
                _ => lines[a.line as int].len() as int,
            };
            &&& w.selection.head.line == a.line
            &&& w.selection.head.column == column
            &&& w.selection.tail == w.selection.head
            &&& w.top_line == v.top_line
            &&& w.width == v.width && w.height == v.height
            &&& r == ActionResult::Redraw
        }),
{
}

/// Moving an anchor up or down keeps its column. Up from the first line
/// does nothing; up from the top row of the view scrolls the view up one
/// line and leaves the anchor on its line; otherwise the anchor goes to the
/// line above. Down from one past the last line does nothing; otherwise
/// either the anchor goes to the line below, or (when it is at the bottom
/// of the view) the view scrolls down one line and the anchor stays.
pub proof fn lemma_vertical_moves(v: BufferView, lines: Seq<Seq<char>>, anchor: Anchor, direction: Direction)
    requires
        direction is Up || direction is Down,
        direction is Down ==> anchor_of(v.selection, anchor).line < usize::MAX && v.top_line < usize::MAX,
    ensures
        ({
            let a = anchor_of(v.selection, anchor);
            let (w, r) = move_anchor_spec(v, lines, anchor, direction, SelectionMode::Char);
            if (direction is Up && a.line == 0) || (direction is Down && a.line == lines.len()) {
                w == v && r == ActionResult::Nothing
            } else {
                &&& r == ActionResult::Redraw
                &&& w.selection.head == w.selection.tail
                &&& w.selection.head.column == a.column
                &&& if direction is Up {
                    ||| (w.selection.head.line == a.line - 1 && w.top_line == v.top_line)
                    ||| (w.selection.head.line == a.line && a.line == v.top_line && w.top_line == v.top_line - 1)
                } else {
                    ||| (w.selection.head.line == a.line + 1 && w.top_line == v.top_line)
                    ||| (w.selection.head.line == a.line && w.top_line == v.top_line + 1)
                }
            }
        }),
{
}

/// Where the head lands when the key `k` is pressed in `mode` on the view
/// `v` over `lines`, if the key moves it.
pub open spec fn head_after_key(mode: Mode, k: KeyCode, v: BufferView, lines: Seq<Seq<char>>) -> Option<Cursor> {
    match event_action(mode, InputEventView::Key(k)) {
        Some(ActionView::MoveAnchor(anchor, direction)) => Some(
            move_anchor_spec(v, lines, anchor, direction, SelectionMode::Char).0.selection.head,
        ),
        _ => None,
    }
}

/// In every mode, the arrow keys Left and Right move the head one char
/// back or forth on its line, Home takes it to the start of its line and
/// End to its end (the line's length, its line break included).
pub proof fn lemma_keys_move_the_head(mode: Mode, v: BufferView, lines: Seq<Seq<char>>)
    requires
        v.selection.head.line < lines.len(),
        lines[v.selection.head.line as int].len() <= usize::MAX,
    ensures
        ({
            let h = v.selection.head;
            let len = lines[h.line as int].len();
            &&& head_after_key(mode, KeyCode::Left, v, lines) == Some(
                Cursor { line: h.line, column: if h.column > 0 { (h.column - 1) as usize } else { 0 } },
            )
            &&& head_after_key(mode, KeyCode::Right, v, lines) == Some(
                Cursor { line: h.line, column: if h.column + 1 <= len { (h.column + 1) as usize } else { len as usize } },
            )
            &&& head_after_key(mode, KeyCode::Home, v, lines) == Some(Cursor { line: h.line, column: 0 })
            &&& head_after_key(mode, KeyCode::End, v, lines) == Some(Cursor { line: h.line, column: len as usize })
        }),
{
    lemma_sideways_moves(v, lines, Anchor::Head, Direction::Left);
    lemma_sideways_moves(v, lines, Anchor::Head, Direction::Right);
    lemma_sideways_moves(v, lines, Anchor::Head, Direction::StartOfLine);
    lemma_sideways_moves(v, lines, Anchor::Head, Direction::EndOfLine);
}

/// The navigation keys ask for the same move in every mode, and no two of
/// them ask for the same one.
pub proof fn lemma_navigation_keys_are_distinct(mode: Mode, k1: KeyCode, k2: KeyCode)
    requires
        k1 is Left || k1 is Right || k1 is Up || k1 is Down || k1 is Home || k1 is End || k1 is PageUp || k1 is PageDown,
        k2 is Left || k2 is Right || k2 is Up || k2 is Down || k2 is Home || k2 is End || k2 is PageUp || k2 is PageDown,
        k1 != k2,
    ensures
        event_action(mode, InputEventView::Key(k1)) == event_action(Mode::Normal, InputEventView::Key(k1)),
        event_action(mode, InputEventView::Key(k1)) is Some,
        event_action(mode, InputEventView::Key(k1)) != event_action(mode, InputEventView::Key(k2)),
{
}

/// After a resize to at least one row, the line of the selection's head is
/// in view; a head that was already in view does not scroll it.
pub proof fn lemma_resize_keeps_head_in_view(v: BufferView, width: usize, height: usize)
    requires
        height >= 1,
    ensures
        ({
            let r = resize_spec(v, width, height);
            &&& r.top_line <= v.selection.head.line < r.top_line + height
            &&& (v.top_line <= v.selection.head.line < v.top_line + height) ==> r.top_line == v.top_line
            &&& r.selection == v.selection
        }),
{
}

impl BufferView {
    /// Moves `anchor` in `direction`; the view scrolls when the anchor
    /// would leave it.
    pub fn move_anchor(&mut self, rope: &Rope, anchor: Anchor, direction: Direction, mode: SelectionMode) -> (r: ActionResult)
        requires
            can_move(*old(self), rope_lines(*rope), anchor, direction),
        ensures
            (*final(self), r) == move_anchor_spec(*old(self), rope_lines(*rope), anchor, direction, mode),
    {
        let ghost lines = rope_lines(*rope);
        let mut main_anchor = match anchor {
            Anchor::Tail => self.selection.tail,
            Anchor::Head => self.selection.head,
        };
        match direction {
            Direction::Up => {
                if main_anchor.line == 0 {
                    return ActionResult::Nothing;
                } else if main_anchor.line == self.top_line {
                    self.top_line = self.top_line - 1;
                } else {
                    main_anchor.line = main_anchor.line - 1;
                }
            },
            Direction::Down => {
                if main_anchor.line == rope_len_lines(rope) {
                    return ActionResult::Nothing;
                }
                let scrolls = if self.soft_wrap {
                    self.rows_used_by_wrapping(rope, main_anchor.line) >= self.height
                } else {
                    main_anchor.line == self.top_line + self.height
                };
                if scrolls {
                    self.top_line = self.top_line + 1;
                } else {
                    main_anchor.line = main_anchor.line + 1;
                }
            },
            Direction::Right => {
                let len = rope_line_len(rope, main_anchor.line);
                let next = if main_anchor.column < usize::MAX { main_anchor.column + 1 } else { usize::MAX };
                main_anchor.column = if next <= len { next } else { len };
            },
            Direction::Left => {
                main_anchor.column = if main_anchor.column >= 1 { main_anchor.column - 1 } else { 0 };
            },
            Direction::StartOfLine => {
                main_anchor.column = 0;
            },
            Direction::EndOfLine => {
                main_anchor.column = rope_line_len(rope, main_anchor.line);
            },
            Direction::StartOfFile => {
                self.top_line = 0;
                main_anchor.line = 0;
                main_anchor.column = 0;
            },
            _ => {
                return ActionResult::Nothing;
            },
        }
        match mode {
            SelectionMode::Char => {
                self.selection.head = main_anchor;
                self.selection.tail = main_anchor;
            },
        }
        ActionResult::Redraw
    }

    /// The number of screen rows the buffer lines `top_line..=through_line`
    /// take once wrapped at the view's current width.
    fn rows_used_by_wrapping(&self, rope: &Rope, through_line: usize) -> (r: usize)
        requires
            self.top_line + self.height <= usize::MAX,
            self.top_line <= rope_lines(*rope).len(),
            through_line < usize::MAX,
            rows_used(
                rope_lines(*rope),
                self.top_line as int,
                (sat_sub(through_line as int, self.top_line as int) + 1) as nat,
                content_width_spec(self.width as int, gutter_width_spec(self.top_line as nat, self.height as nat) as int) as nat,
            ) <= usize::MAX,
        ensures
            r == rows_used(
                rope_lines(*rope),
                self.top_line as int,
                (sat_sub(through_line as int, self.top_line as int) + 1) as nat,
                content_width_spec(self.width as int, gutter_width_spec(self.top_line as nat, self.height as nat) as int) as nat,
            ),
    {
        let ghost lines = rope_lines(*rope);
        let gw = gutter_width(self.top_line, self.height);
        let content_width = if self.width > gw && self.width - gw >= 1 { self.width - gw } else { 1 };
        let count = (if through_line >= self.top_line { through_line - self.top_line } else { 0 }) + 1;
        let n = rope_len_lines(rope);
        let mut total: usize = 0;
        let mut i: usize = 0;
        while i < count
            invariant
                i <= count,
                n == lines.len(),
                lines == rope_lines(*rope),
                self.top_line <= n,
                content_width >= 1,
                total == rows_used(lines, self.top_line as int, i as nat, content_width as nat),
                rows_used(lines, self.top_line as int, count as nat, content_width as nat) <= usize::MAX,
            decreases count - i,
        {
            proof {
                lemma_rows_used_monotonic(lines, self.top_line as int, (i + 1) as nat, count as nat, content_width as nat);
            }
            if i < n - self.top_line {
                let text = rope_line_text(rope, self.top_line + i);
                let graphemes = graphemes_of(text.as_str());
                let rows = wrap_chunks(&graphemes, content_width);
                assert(graphemes@.map_values(|s: String| s@) == strings_view(graphemes@));
                total = total + rows.len();
            }
            i = i + 1;
        }
        total
    }

    /// Updates the size this view renders into. The top line moves just
    /// enough to keep the head's line visible.
    pub fn resize(&mut self, width: usize, height: usize)
        requires
            old(self).top_line + height <= usize::MAX,
            old(self).selection.head.line < usize::MAX,
        ensures
            *final(self) == resize_spec(*old(self), width, height),
    {
        self.width = width;
        self.height = height;
        let head_line = self.selection.head.line;
        if head_line < self.top_line {
            self.top_line = head_line;
        } else if head_line >= self.top_line + self.height {
            self.top_line = head_line + 1 - self.height;
        }
    }

    /// Inserts `c` at the head of the selection, which moves after it (to
    /// the start of the next line for a line feed); the selection collapses
    /// onto the head.
    pub fn insert(&mut self, rope: &mut Rope, c: char) -> (r: ActionResult)
        requires
            old(self).selection.head.line <= rope_lines(*old(rope)).len(),
            line_start(rope_lines(*old(rope)), old(self).selection.head.line as int) + old(self).selection.head.column
                <= rope_text(*old(rope)).len(),
            old(self).selection.head.line < usize::MAX,
            old(self).selection.head.column < usize::MAX,
        ensures
            r == ActionResult::Redraw,
            rope_text(*final(rope)) == rope_text(*old(rope)).insert(
                line_start(rope_lines(*old(rope)), old(self).selection.head.line as int) + old(self).selection.head.column,
                c,
            ),
            ({
                let h = old(self).selection.head;
                let head = if c == '\n' {
                    Cursor { line: (h.line + 1) as usize, column: 0 }
                } else {
                    Cursor { line: h.line, column: (h.column + 1) as usize }
                };
                *final(self) == (BufferView { selection: Selection { head, tail: head }, ..*old(self) })
            }),
    {
        let offset = rope_line_to_char(rope, self.selection.head.line);
        let insert_at = offset + self.selection.head.column;
        rope_insert_char(rope, insert_at, c);
        if c == '\n' {
            self.selection.head.line = self.selection.head.line + 1;
            self.selection.head.column = 0;
        } else {
            self.selection.head.column = self.selection.head.column + 1;
        }
        self.selection.tail = self.selection.head;
        ActionResult::Redraw
    }

    /// Deletes the char before the head. At the start of a line, the line
    /// break before it goes and the line joins the previous one; at the start
    /// of the buffer nothing happens.
    pub fn delete(&mut self, rope: &mut Rope, direction: DeleteDirection) -> (r: ActionResult)
        requires
            direction == DeleteDirection::Left,
            old(self).selection.head.line <= rope_lines(*old(rope)).len(),
            ({
                let h = old(self).selection.head;
                let lines = rope_lines(*old(rope));
                let text = rope_text(*old(rope));
                &&& h.column > 0 ==> line_start(lines, h.line as int) + h.column - 1 < text.len()
                &&& (h.column == 0 && h.line > 0) ==> line_start(lines, h.line - 1) < line_start(lines, h.line as int)
                    && text[line_start(lines, h.line as int) - 1] == '\n'
            }),
        ensures
            ({
                let h = old(self).selection.head;
                let lines = rope_lines(*old(rope));
                let text = rope_text(*old(rope));
                if h.column == 0 && h.line == 0 {
                    &&& r == ActionResult::Nothing
                    &&& *final(self) == *old(self)
                    &&& rope_text(*final(rope)) == text
                } else if h.column == 0 {
                    let joined = line_start(lines, h.line as int) - 1;
                    let head = Cursor {
                        line: (h.line - 1) as usize,
                        column: (joined - line_start(lines, h.line - 1)) as usize,
                    };
                    &&& r == ActionResult::Redraw
                    &&& rope_text(*final(rope)) == text.remove(joined)
                    &&& *final(self) == (BufferView { selection: Selection { head, tail: head }, ..*old(self) })
                } else {
                    let head = Cursor { line: h.line, column: (h.column - 1) as usize };
                    &&& r == ActionResult::Redraw
                    &&& rope_text(*final(rope)) == text.remove(line_start(lines, h.line as int) + h.column - 1)
                    &&& *final(self) == (BufferView { selection: Selection { head, tail: head }, ..*old(self) })
                }
            }),
    {
        let ghost lines = rope_lines(*rope);
        let head = self.selection.head;
        if head.column == 0 && head.line == 0 {
            return ActionResult::Nothing;
        }
        if head.column == 0 {
            proof {
                lemma_line_start_monotonic(lines, head.line as int, lines.len() as int);
                assert(lines.take(lines.len() as int) =~= lines);
            }
            let prev_line_start = rope_line_to_char(rope, head.line - 1);
            let current_line_start = rope_line_to_char(rope, head.line);
            let newline_char = current_line_start - 1;
            rope_remove_char(rope, newline_char);
            self.selection.head.line = head.line - 1;
            self.selection.head.column = newline_char - prev_line_start;
        } else {
            self.selection.head.column = head.column - 1;
            let offset = rope_line_to_char(rope, head.line);
            let remove_char = offset + self.selection.head.column;
            rope_remove_char(rope, remove_char);
        }
        self.selection.tail = self.selection.head;
        ActionResult::Redraw
    }
}

pub proof fn lemma_rows_used_monotonic(lines: Seq<Seq<char>>, from: int, a: nat, b: nat, width: nat)
    requires
        a <= b,
    ensures
        rows_used(lines, from, a, width) <= rows_used(lines, from, b, width),
    decreases b,
{
    if a < b {
        lemma_rows_used_monotonic(lines, from, a, (b - 1) as nat, width);
    }
}

pub proof fn lemma_line_start_monotonic(lines: Seq<Seq<char>>, a: int, b: int)
    requires
        0 <= a <= b <= lines.len(),
    ensures
        line_start(lines, a) <= line_start(lines, b),
    decreases b - a,
{
    if a < b {
        lemma_line_start_monotonic(lines, a, b - 1);
        assert(lines.take(b).drop_last() =~= lines.take(b - 1));
    }
}


// ---------------------------------------------------------------------------
// Drawing.
// ---------------------------------------------------------------------------

/// The text of column `col` of an unwrapped row: the gutter, then the
/// graphemes of the line from column `gw` on (as many as fit), then spaces.
/// A line feed ends the line: from its column on, the row is blank.
pub open spec fn plain_row_cell(gutter: Seq<char>, gs: Seq<Seq<char>>, gw: int, width: int, col: int) -> Seq<char> {
    let limit = min(gs.len() as int, sat_sub(width, gw));
    let k = first_line_feed(gs, 0, limit);
    if gw <= col && col < gw + k {
        gs[col - gw]
    } else if k < limit && col >= gw + k {
        seq![' ']
    } else if col < gutter.len() {
        seq![gutter[col]]
    } else {
        seq![' ']
    }
}

/// One screen row of a wrapped buffer line: the line, the index of the row
/// among the rows of that line, and the graphemes `start..end` it shows.
pub struct RowRef {
    pub line: int,
    pub seg: int,
    pub start: int,
    pub end: int,
}

/// The rows of the buffer line `i` wrapped at `width` graphemes.
pub open spec fn line_rows(lines: Seq<Seq<char>>, i: int, width: nat) -> Seq<RowRef> {
    let w = wrap_rows(grapheme_clusters(lines[i]), width);
    Seq::new(w.len(), |j: int| RowRef { line: i, seg: j, start: w[j].0, end: w[j].1 })
}

/// The rows of the buffer lines `from..to`, one line after the other.
pub open spec fn rows_between(lines: Seq<Seq<char>>, from: int, to: int, width: nat) -> Seq<RowRef>
    decreases to - from,
{
    if to <= from {
        Seq::empty()
    } else {
        rows_between(lines, from, to - 1, width) + line_rows(lines, to - 1, width)
    }
}

/// The text of column `col` of the wrapped row `row`.
pub open spec fn wrapped_row_cell(lines: Seq<Seq<char>>, row: RowRef, gw: int, col: int) -> Seq<char> {
    let gs = grapheme_clusters(lines[row.line]);
    let gutter = if row.seg == 0 {
        number_gutter(row.line as nat, gw as nat)
    } else {
        continuation_gutter(gw as nat)
    };
    if gw <= col && col - gw < row.end - row.start {
        gs[row.start + col - gw]
    } else if col < gutter.len() {
        seq![gutter[col]]
    } else {
        seq![' ']
    }
}

/// The text drawn at the internal coordinate `c` of an area of `width` by
/// `height` cells.
pub open spec fn code_cell(v: BufferView, lines: Seq<Seq<char>>, width: int, height: int, c: ScreenCoord) -> Seq<char> {
    let gw = gutter_width_spec(v.top_line as nat, height as nat) as int;
    let cw = content_width_spec(width, gw);
    if !v.soft_wrap {
        if c.line < height && v.top_line + c.line < lines.len() {
            plain_row_cell(
                number_gutter((v.top_line + c.line) as nat, gw as nat),
                grapheme_clusters(lines[v.top_line + c.line]),
                gw,
                width,
                c.column as int,
            )
        } else {
            seq![' ']
        }
    } else {
        let rows = rows_between(lines, v.top_line as int, lines.len() as int, cw as nat);
        if c.line < height && c.line < rows.len() {
            wrapped_row_cell(lines, rows[c.line as int], gw, c.column as int)
        } else {
            seq![' ']
        }
    }
}

/// The last of the first `n` rows showing segment `seg` of `line`.
pub open spec fn find_segment_row(rows: Seq<RowRef>, n: int, line: int, seg: int) -> Option<int>
    decreases n,
{
    if n <= 0 {
        None
    } else if rows[n - 1].line == line && rows[n - 1].seg == seg {
        Some(n - 1)
    } else {
        find_segment_row(rows, n - 1, line, seg)
    }
}

/// The last of the first `n` rows showing `line`.
pub open spec fn last_line_row(rows: Seq<RowRef>, n: int, line: int) -> Option<int>
    decreases n,
{
    if n <= 0 {
        None
    } else if rows[n - 1].line == line {
        Some(n - 1)
    } else {
        last_line_row(rows, n - 1, line)
    }
}

/// Where the cursor goes in an area of `width` by `height` cells, when the
/// view is active: on the head. Wrapped, on the row and column of the
/// head's grapheme, else at the end of the last visible row of its line,
/// else at the start of the text area; always inside the area.
pub open spec fn cursor_spec(v: BufferView, lines: Seq<Seq<char>>, width: int, height: int) -> ScreenCoord {
    let gw = gutter_width_spec(v.top_line as nat, height as nat) as int;
    let cw = content_width_spec(width, gw);
    let h = v.selection.head;
    if !v.soft_wrap {
        let column = min(min(h.column as int, cw - 1) + gw, width - 1);
        ScreenCoord { line: (h.line - v.top_line) as u16, column: column as u16 }
    } else {
        let rows = rows_between(lines, v.top_line as int, lines.len() as int, cw as nat);
        let n = min(height, rows.len() as int);
        let (line, column) = match find_segment_row(rows, n, h.line as int, (h.column as int) / cw) {
            Some(r) => (r, gw + (h.column as int) % cw),
            None => match last_line_row(rows, n, h.line as int) {
                Some(r) => (r, min(gw + rows[r].end - rows[r].start, width - 1)),
                None => (0, gw),
            },
        };
        ScreenCoord { line: min(line, height - 1) as u16, column: min(column, width - 1) as u16 }
    }
}

/// The internal coordinate, in `sub`, of the absolute coordinate `c`.
pub open spec fn internal(sub: SubScreen, c: ScreenCoord) -> ScreenCoord {
    ScreenCoord { line: (c.line - sub.area.tl().line) as u16, column: (c.column - sub.area.tl().column) as u16 }
}

/// What a view needs to be drawn into `sub` without panicking.
pub open spec fn can_draw(v: BufferView, lines: Seq<Seq<char>>, sub: SubScreen, buffer: ScreenBufferView) -> bool {
    &&& sub.fits_in(buffer)
    &&& v.top_line <= lines.len()
    &&& v.top_line + sub.area.height_spec() <= usize::MAX
    &&& (v.active && !v.soft_wrap) ==> v.top_line <= v.selection.head.line < v.top_line + sub.area.height_spec()
}

fn plain_row_texts(gutter: &String, gs: &Vec<String>, gw: usize, width: usize) -> (r: Vec<String>)
    ensures
        r@.len() == width,
        forall|col: int| 0 <= col < width ==> (#[trigger] r@[col])@ == plain_row_cell(gutter@, strings_view(gs@), gw as int, width as int, col),
{
    let ghost g = strings_view(gs@);
    let room = if width >= gw { width - gw } else { 0 };
    let limit = if gs.len() <= room { gs.len() } else { room };
    proof {
        lemma_first_line_feed_range(g, 0, limit as int);
    }
    let mut k: usize = 0;
    while k < limit
        invariant
            k <= limit <= gs@.len(),
            g == strings_view(gs@),
            first_line_feed(g, 0, limit as int) == first_line_feed(g, k as int, limit as int),
        ensures
            k <= limit,
            first_line_feed(g, 0, limit as int) == first_line_feed(g, k as int, limit as int),
            k < limit ==> starts_line_feed(g[k as int]),
        decreases limit - k,
    {
        let gk = &gs[k];
        assert(g[k as int] == gk@);
        if gk.as_str().unicode_len() > 0 && gk.as_str().get_char(0) == '\n' {
            break;
        }
        k = k + 1;
    }
    let gutter_chars = chars_of(gutter.as_str());
    let mut out: Vec<String> = Vec::new();
    let mut col: usize = 0;
    while col < width
        invariant
            col <= width,
            k <= limit <= gs@.len(),
            limit == min(gs@.len() as int, sat_sub(width as int, gw as int)),
            g == strings_view(gs@),
            k == first_line_feed(g, 0, limit as int),
            gutter_chars@ == gutter@,
            out@.len() == col,
            forall|c: int| 0 <= c < col ==> (#[trigger] out@[c])@ == plain_row_cell(gutter@, g, gw as int, width as int, c),
        decreases width - col,
    {
        let text = if gw <= col && col < gw + k {
            assert(g[col - gw] == gs@[col - gw]@);
            gs[col - gw].clone()
        } else if k < limit && col >= gw + k {
            let mut t = String::new();
            push_char(&mut t, ' ');
            t
        } else if col < gutter_chars.len() {
            let mut t = String::new();
            push_char(&mut t, gutter_chars[col]);
            t
        } else {
            let mut t = String::new();
            push_char(&mut t, ' ');
            t
        };
        assert(text@ =~= plain_row_cell(gutter@, g, gw as int, width as int, col as int));
        out.push(text);
        col = col + 1;
    }
    out
}

fn wrapped_row_texts(gutter: &String, gs: &Vec<String>, start: usize, end: usize, gw: usize, width: usize) -> (r: Vec<String>)
    requires
        start <= end <= gs@.len(),
    ensures
        r@.len() == width,
        forall|col: int| 0 <= col < width ==> {
            let cell = (#[trigger] r@[col])@;
            if gw <= col && col - gw < end - start {
                cell == gs@[start + col - gw]@
            } else if col < gutter@.len() {
                cell == seq![gutter@[col]]
            } else {
                cell == seq![' ']
            }
        },
{
    let gutter_chars = chars_of(gutter.as_str());
    let mut out: Vec<String> = Vec::new();
    let mut col: usize = 0;
    while col < width
        invariant
            col <= width,
            start <= end <= gs@.len(),
            gutter_chars@ == gutter@,
            out@.len() == col,
            forall|c: int| 0 <= c < col ==> {
                let cell = (#[trigger] out@[c])@;
                if gw <= c && c - gw < end - start {
                    cell == gs@[start + c - gw]@
                } else if c < gutter@.len() {
                    cell == seq![gutter@[c]]
                } else {
                    cell == seq![' ']
                }
            },
        decreases width - col,
    {
        let text = if gw <= col && col - gw < end - start {
            gs[start + (col - gw)].clone()
        } else if col < gutter_chars.len() {
            let mut t = String::new();
            push_char(&mut t, gutter_chars[col]);
            t
        } else {
            let mut t = String::new();
            push_char(&mut t, ' ');
            t
        };
        proof {
            if !(gw <= col && col - gw < end - start) {
                assert(text@ =~= (if col < gutter@.len() { seq![gutter@[col as int]] } else { seq![' '] }));
            }
        }
        out.push(text);
        col = col + 1;
    }
    out
}


pub proof fn lemma_find_segment_row_range(rows: Seq<RowRef>, n: int, line: int, seg: int)
    ensures
        find_segment_row(rows, n, line, seg) matches Some(r) ==> 0 <= r < n && rows[r].line == line,
    decreases n,
{
    if n > 0 {
        lemma_find_segment_row_range(rows, n - 1, line, seg);
    }
}

pub proof fn lemma_last_line_row_range(rows: Seq<RowRef>, n: int, line: int)
    ensures
        last_line_row(rows, n, line) matches Some(r) ==> 0 <= r < n && rows[r].line == line,
    decreases n,
{
    if n > 0 {
        lemma_last_line_row_range(rows, n - 1, line);
    }
}

pub proof fn lemma_rows_between_ordered(lines: Seq<Seq<char>>, from: int, to: int, width: nat)
    requires
        width >= 1,
        0 <= from,
        to <= lines.len(),
    ensures
        forall|k: int| 0 <= k < rows_between(lines, from, to, width).len() ==> (#[trigger] rows_between(lines, from, to, width)[k]).start
            <= rows_between(lines, from, to, width)[k].end,
    decreases to - from,
{
    if from < to {
        lemma_rows_between_ordered(lines, from, to - 1, width);
        let prev = rows_between(lines, from, to - 1, width);
        let line_r = line_rows(lines, to - 1, width);
        let g = grapheme_clusters(lines[to - 1]);
        lemma_wrap_from_shape(g, width, 0);
        assert forall|k: int| 0 <= k < (prev + line_r).len() implies (#[trigger] (prev + line_r)[k]).start <= (prev + line_r)[k].end by {
            if k >= prev.len() {
                assert((prev + line_r)[k] == line_r[k - prev.len()]);
            }
        }
    }
}

pub proof fn lemma_rows_between_prefix(lines: Seq<Seq<char>>, from: int, a: int, b: int, width: nat)
    requires
        from <= a <= b,
    ensures
        rows_between(lines, from, a, width).len() <= rows_between(lines, from, b, width).len(),
        rows_between(lines, from, b, width).subrange(0, rows_between(lines, from, a, width).len() as int)
            == rows_between(lines, from, a, width),
    decreases b - a,
{
    if a < b {
        lemma_rows_between_prefix(lines, from, a, b - 1, width);
        let x = rows_between(lines, from, a, width);
        let y = rows_between(lines, from, b - 1, width);
        assert((y + line_rows(lines, b - 1, width)).subrange(0, x.len() as int) =~= y.subrange(0, x.len() as int));
    }
}

/// The cells of a buffer after a view drew its code into `sub`: each cell of
/// the area holds the text `code_cell` gives, with the view's background
/// style; the other cells are untouched.
pub open spec fn drawn(v: BufferView, lines: Seq<Seq<char>>, sub: SubScreen, before: ScreenBufferView, after: ScreenBufferView) -> bool {
    &&& after.wf()
    &&& after.lines == before.lines
    &&& after.columns == before.columns
    &&& after.committed == before.committed
    &&& after.pending.len() == before.pending.len()
    &&& forall|c: ScreenCoord| #[trigger] before.contains(c) ==> after.pending[before.index_of(c)] == if sub.area.holds_absolute(c) {
        Some(
            CellView {
                style: v.background,
                grapheme: code_cell(v, lines, sub.area.width_spec(), sub.area.height_spec(), internal(sub, c)),
            },
        )
    } else {
        before.pending[before.index_of(c)]
    }
}

impl BufferView {
    /// Draws the visible lines of the buffer into `sub`, each behind a
    /// gutter with its line number; the view owns the whole area, so cells
    /// without text get its background. Soft-wrapped, a line that doesn't fit
    /// continues on the rows below it behind a `↪` gutter. An active view
    /// puts the terminal cursor on the head of its selection.
    pub fn draw_code(&self, rope: &Rope, buffer: &mut ScreenBuffer, sub: SubScreen)
        requires
            can_draw(*self, rope_lines(*rope), sub, old(buffer)@),
        ensures
            drawn(*self, rope_lines(*rope), sub, old(buffer)@, final(buffer)@),
            final(buffer)@.cursor == if self.active {
                sub.absolute(cursor_spec(*self, rope_lines(*rope), sub.area.width_spec(), sub.area.height_spec()))
            } else {
                old(buffer)@.cursor
            },
    {
        let ghost lines = rope_lines(*rope);
        let ghost v0 = buffer@;
        let background = Cell::new(self.background, Grapheme::space());
        sub.fill(buffer, &background);
        assert forall|c: ScreenCoord| #[trigger] buffer@.contains(c) && sub.area.holds_absolute(c) implies buffer@.pending[buffer@.index_of(c)]
            == Some(CellView { style: self.background, grapheme: seq![' '] }) by {
            assert(v0.contains(c));
        }
        let height = sub.height();
        let width = sub.width();
        let gw = gutter_width(self.top_line, height as usize);
        let content_width = if width as usize > gw { width as usize - gw } else { 1 };
        if self.active && !self.soft_wrap {
            let clamped = if self.selection.head.column <= content_width - 1 {
                self.selection.head.column
            } else {
                content_width - 1
            };
            let column = if clamped + gw <= (width - 1) as usize { clamped + gw } else { (width - 1) as usize };
            let screen_cursor = Cursor { line: self.selection.head.line, column };
            let coord = screen_cursor.to_screen_coord(self.top_line);
            sub.set_cursor(buffer, coord);
        }
        if !self.soft_wrap {
            let n = rope_len_lines(rope);
            let tl = sub.area.top_left();
            let mut row: u16 = 0;
            while row < height && self.top_line + (row as usize) < n
                invariant
                    sub.fits_in(v0),
                    height == sub.area.height_spec(),
                    width == sub.area.width_spec(),
                    tl == sub.area.tl(),
                    gw == gutter_width_spec(self.top_line as nat, height as nat),
                    n == lines.len(),
                    lines == rope_lines(*rope),
                    !self.soft_wrap,
                    can_draw(*self, lines, sub, v0),
                    row <= height,
                    buffer@.wf(),
                    buffer@.lines == v0.lines,
                    buffer@.columns == v0.columns,
                    buffer@.committed == v0.committed,
                    buffer@.pending.len() == v0.pending.len(),
                    buffer@.cursor == (if self.active {
                        sub.absolute(cursor_spec(*self, lines, width as int, height as int))
                    } else {
                        v0.cursor
                    }),
                    forall|c: ScreenCoord| #[trigger] v0.contains(c) ==> buffer@.pending[v0.index_of(c)] == if sub.area.holds_absolute(c) {
                        Some(
                            CellView {
                                style: self.background,
                                grapheme: if c.line < tl.line + row {
                                    code_cell(*self, lines, width as int, height as int, internal(sub, c))
                                } else {
                                    seq![' ']
                                },
                            },
                        )
                    } else {
                        v0.pending[v0.index_of(c)]
                    },
                decreases height - row,
            {
                let line = self.top_line + row as usize;
                let gutter = make_number_gutter(line, gw);
                let text = rope_line_text(rope, line);
                let graphemes = graphemes_of(text.as_str());
                let texts = plain_row_texts(&gutter, &graphemes, gw, width as usize);
                let ghost before = buffer@;
                sub.write_row(buffer, row, &texts, self.background);
                assert forall|c: ScreenCoord| #[trigger] v0.contains(c) implies buffer@.pending[v0.index_of(c)] == if sub.area.holds_absolute(c) {
                    Some(
                        CellView {
                            style: self.background,
                            grapheme: if c.line < tl.line + row + 1 {
                                code_cell(*self, lines, width as int, height as int, internal(sub, c))
                            } else {
                                seq![' ']
                            },
                        },
                    )
                } else {
                    v0.pending[v0.index_of(c)]
                } by {
                    assert(before.contains(c));
                    if sub.area.holds_absolute(c) && c.line == tl.line + row {
                        let col = c.column - tl.column;
                        assert(internal(sub, c) == ScreenCoord { line: row, column: col as u16 });
                        assert(texts@[col]@ == plain_row_cell(gutter@, strings_view(graphemes@), gw as int, width as int, col));
                    }
                }
                row = row + 1;
            }
            assert forall|c: ScreenCoord| #[trigger] v0.contains(c) implies buffer@.pending[v0.index_of(c)] == if sub.area.holds_absolute(c) {
                Some(
                    CellView {
                        style: self.background,
                        grapheme: code_cell(*self, lines, width as int, height as int, internal(sub, c)),
                    },
                )
            } else {
                v0.pending[v0.index_of(c)]
            } by {
                if sub.area.holds_absolute(c) && c.line >= tl.line + row {
                    assert(internal(sub, c).line >= row);
                }
            }
        } else {
            let ghost mid = buffer@;
            self.draw_code_wrapped(rope, buffer, sub, gw, content_width);
            assert forall|c: ScreenCoord| #[trigger] v0.contains(c) implies buffer@.pending[v0.index_of(c)] == if sub.area.holds_absolute(c) {
                Some(
                    CellView {
                        style: self.background,
                        grapheme: code_cell(*self, lines, width as int, height as int, internal(sub, c)),
                    },
                )
            } else {
                v0.pending[v0.index_of(c)]
            } by {
                assert(mid.contains(c));
            }
        }
    }
}


impl BufferView {
    /// The soft-wrapped drawing of [`Self::draw_code`]: a line that doesn't
    /// fit `content_width` graphemes continues on the rows below it.
    fn draw_code_wrapped(&self, rope: &Rope, buffer: &mut ScreenBuffer, sub: SubScreen, gw: usize, content_width: usize)
        requires
            sub.fits_in(old(buffer)@),
            self.soft_wrap,
            self.top_line <= rope_lines(*rope).len(),
            gw == gutter_width_spec(self.top_line as nat, sub.area.height_spec() as nat),
            content_width == content_width_spec(sub.area.width_spec(), gw as int),
            2 * (gw - 2) <= self.top_line + sub.area.height_spec(),
            self.top_line + sub.area.height_spec() <= usize::MAX,
            forall|c: ScreenCoord| #[trigger] old(buffer)@.contains(c) && sub.area.holds_absolute(c) ==> old(buffer)@.pending[old(buffer)@.index_of(c)]
                == Some(CellView { style: self.background, grapheme: seq![' '] }),
        ensures
            final(buffer)@.wf(),
            final(buffer)@.lines == old(buffer)@.lines,
            final(buffer)@.columns == old(buffer)@.columns,
            final(buffer)@.committed == old(buffer)@.committed,
            final(buffer)@.pending.len() == old(buffer)@.pending.len(),
            final(buffer)@.cursor == if self.active {
                sub.absolute(cursor_spec(*self, rope_lines(*rope), sub.area.width_spec(), sub.area.height_spec()))
            } else {
                old(buffer)@.cursor
            },
            forall|c: ScreenCoord| #[trigger] old(buffer)@.contains(c) ==> final(buffer)@.pending[old(buffer)@.index_of(c)]
                == if sub.area.holds_absolute(c) {
                    Some(
                        CellView {
                            style: self.background,
                            grapheme: code_cell(*self, rope_lines(*rope), sub.area.width_spec(), sub.area.height_spec(), internal(sub, c)),
                        },
                    )
                } else {
                    old(buffer)@.pending[old(buffer)@.index_of(c)]
                },
    {
        let ghost lines = rope_lines(*rope);
        let ghost v0 = buffer@;
        let height = sub.height() as usize;
        let width = sub.width() as usize;
        let tl = sub.area.top_left();
        let n = rope_len_lines(rope);
        let ghost rows = rows_between(lines, self.top_line as int, n as int, content_width as nat);
        let head = self.selection.head;
        let target_seg = head.column / content_width;
        let mut screen_row: usize = 0;
        let mut cursor_coord: Option<(usize, usize)> = None;
        let mut last_head_line_coord: Option<(usize, usize)> = None;
        let mut i: usize = self.top_line;
        proof {
            lemma_rows_between_prefix(lines, self.top_line as int, i as int, n as int, content_width as nat);
        }
        while i < n && screen_row < height
            invariant
                sub.fits_in(v0),
                height == sub.area.height_spec(),
                width == sub.area.width_spec(),
                tl == sub.area.tl(),
                gw == gutter_width_spec(self.top_line as nat, height as nat),
                content_width == content_width_spec(width as int, gw as int),
                content_width >= 1,
                target_seg == head.column / content_width,
                head == self.selection.head,
                n == lines.len(),
                lines == rope_lines(*rope),
                rows == rows_between(lines, self.top_line as int, n as int, content_width as nat),
                self.soft_wrap,
                self.top_line <= i <= n,
                2 * (gw - 2) <= self.top_line + height,
                self.top_line + height <= usize::MAX,
                screen_row <= height,
                screen_row < height ==> screen_row == rows_between(lines, self.top_line as int, i as int, content_width as nat).len(),
                screen_row <= rows.len(),
                rows_between(lines, self.top_line as int, i as int, content_width as nat).len() <= rows.len(),
                screen_row == height ==> screen_row <= rows.len(),
                buffer@.wf(),
                buffer@.lines == v0.lines,
                buffer@.columns == v0.columns,
                buffer@.committed == v0.committed,
                buffer@.pending.len() == v0.pending.len(),
                buffer@.cursor == v0.cursor,
                self.active ==> cursor_coord == (match find_segment_row(rows, screen_row as int, head.line as int, target_seg as int) {
                    Some(r) => Some((r as usize, (gw + head.column % content_width) as usize)),
                    None => None::<(usize, usize)>,
                }),
                self.active ==> last_head_line_coord == (match last_line_row(rows, screen_row as int, head.line as int) {
                    Some(r) => Some((r as usize, min(gw + rows[r].end - rows[r].start, width - 1) as usize)),
                    None => None::<(usize, usize)>,
                }),
                forall|c: ScreenCoord| #[trigger] v0.contains(c) ==> buffer@.pending[v0.index_of(c)] == if sub.area.holds_absolute(c) {
                    Some(
                        CellView {
                            style: self.background,
                            grapheme: if c.line < tl.line + screen_row {
                                wrapped_row_cell(lines, rows[c.line - tl.line], gw as int, c.column - tl.column)
                            } else {
                                seq![' ']
                            },
                        },
                    )
                } else {
                    v0.pending[v0.index_of(c)]
                },
            decreases n - i,
        {
            proof {
                lemma_rows_between_prefix(lines, self.top_line as int, i + 1, n as int, content_width as nat);
            }
            let ghost before_rows = rows_between(lines, self.top_line as int, i as int, content_width as nat);
            let ghost line_r = line_rows(lines, i as int, content_width as nat);
            assert(rows_between(lines, self.top_line as int, i + 1, content_width as nat) == before_rows + line_r);
            let text = rope_line_text(rope, i);
            let graphemes = graphemes_of(text.as_str());
            let chunks = wrap_chunks(&graphemes, content_width);
            assert(graphemes@.map_values(|s: String| s@) == strings_view(graphemes@));
            proof {
                lemma_wrap_from_shape(strings_view(graphemes@), content_width as nat, 0);
                assert forall|k: int| 0 <= k < line_r.len() implies 0 <= (#[trigger] line_r[k]).start <= line_r[k].end
                    <= graphemes@.len() && line_r[k].end - line_r[k].start <= content_width by {
                    assert(line_r[k].start == wrap_rows(strings_view(graphemes@), content_width as nat)[k].0);
                }
            }
            let mut j: usize = 0;
            while j < chunks.len() && screen_row < height
                invariant
                    sub.fits_in(v0),
                    height == sub.area.height_spec(),
                    width == sub.area.width_spec(),
                    tl == sub.area.tl(),
                    gw == gutter_width_spec(self.top_line as nat, height as nat),
                    content_width == content_width_spec(width as int, gw as int),
                    content_width >= 1,
                    target_seg == head.column / content_width,
                    head == self.selection.head,
                    n == lines.len(),
                    lines == rope_lines(*rope),
                    rows == rows_between(lines, self.top_line as int, n as int, content_width as nat),
                    self.top_line <= i < n,
                    before_rows == rows_between(lines, self.top_line as int, i as int, content_width as nat),
                    line_r == line_rows(lines, i as int, content_width as nat),
                    rows.subrange(0, (before_rows + line_r).len() as int) == before_rows + line_r,
                    (before_rows + line_r).len() <= rows.len(),
                    strings_view(graphemes@) == grapheme_clusters(lines[i as int]),
                    chunks@.len() == line_r.len(),
                    forall|k: int| 0 <= k < chunks@.len() ==> (#[trigger] chunks@[k]).0 as int == line_r[k].start && chunks@[k].1 as int == line_r[k].end,
                    forall|k: int| 0 <= k < line_r.len() ==> 0 <= (#[trigger] line_r[k]).start <= line_r[k].end <= graphemes@.len(),
                    forall|k: int| 0 <= k < line_r.len() ==> (#[trigger] line_r[k]).end - line_r[k].start <= content_width,
                    2 * (gw - 2) <= self.top_line + height,
                    j <= chunks@.len(),
                    screen_row <= height,
                    screen_row == before_rows.len() + j,
                    buffer@.wf(),
                    buffer@.lines == v0.lines,
                    buffer@.columns == v0.columns,
                    buffer@.committed == v0.committed,
                    buffer@.pending.len() == v0.pending.len(),
                    buffer@.cursor == v0.cursor,
                    self.active ==> cursor_coord == (match find_segment_row(rows, screen_row as int, head.line as int, target_seg as int) {
                        Some(r) => Some((r as usize, (gw + head.column % content_width) as usize)),
                        None => None::<(usize, usize)>,
                    }),
                    self.active ==> last_head_line_coord == (match last_line_row(rows, screen_row as int, head.line as int) {
                        Some(r) => Some((r as usize, min(gw + rows[r].end - rows[r].start, width - 1) as usize)),
                        None => None::<(usize, usize)>,
                    }),
                    forall|c: ScreenCoord| #[trigger] v0.contains(c) ==> buffer@.pending[v0.index_of(c)] == if sub.area.holds_absolute(c) {
                        Some(
                            CellView {
                                style: self.background,
                                grapheme: if c.line < tl.line + screen_row {
                                    wrapped_row_cell(lines, rows[c.line - tl.line], gw as int, c.column - tl.column)
                                } else {
                                    seq![' ']
                                },
                            },
                        )
                    } else {
                        v0.pending[v0.index_of(c)]
                    },
                decreases chunks@.len() - j,
            {
                let (start, end) = chunks[j];
                let ghost row_ref = line_r[j as int];
                assert((before_rows + line_r)[screen_row as int] == row_ref);
                assert(rows.subrange(0, (before_rows + line_r).len() as int)[screen_row as int] == rows[screen_row as int]);
                assert(rows[screen_row as int] == row_ref);
                let gutter = if j == 0 {
                    make_number_gutter(i, gw)
                } else {
                    make_continuation_gutter(gw)
                };
                let texts = wrapped_row_texts(&gutter, &graphemes, start, end, gw, width);
                let ghost before = buffer@;
                sub.write_row(buffer, screen_row as u16, &texts, self.background);
                assert forall|c: ScreenCoord| #[trigger] v0.contains(c) implies buffer@.pending[v0.index_of(c)] == if sub.area.holds_absolute(c) {
                    Some(
                        CellView {
                            style: self.background,
                            grapheme: if c.line < tl.line + screen_row + 1 {
                                wrapped_row_cell(lines, rows[c.line - tl.line], gw as int, c.column - tl.column)
                            } else {
                                seq![' ']
                            },
                        },
                    )
                } else {
                    v0.pending[v0.index_of(c)]
                } by {
                    assert(before.contains(c));
                    if sub.area.holds_absolute(c) && c.line == tl.line + screen_row {
                        let col = c.column - tl.column;
                        assert(0 <= col < width);
                        let cell = texts@[col]@;
                        let expected = wrapped_row_cell(lines, row_ref, gw as int, col);
                        if gw <= col && col - gw < end - start {
                            assert(graphemes@[start + col - gw]@ == strings_view(graphemes@)[start + col - gw]);
                        }
                        assert(cell == expected);
                    }
                }
                if self.active && i == head.line {
                    let seg_end = if gw + (end - start) <= width - 1 { gw + (end - start) } else { width - 1 };
                    last_head_line_coord = Some((screen_row, seg_end));
                    if j == target_seg {
                        cursor_coord = Some((screen_row, gw + head.column % content_width));
                    }
                }
                screen_row = screen_row + 1;
                j = j + 1;
            }
            proof {
                if screen_row < height {
                    assert(j == chunks@.len());
                }
            }
            i = i + 1;
        }
        proof {
            lemma_rows_between_prefix(lines, self.top_line as int, i as int, n as int, content_width as nat);
            assert(screen_row == min(height as int, rows.len() as int));
            lemma_find_segment_row_range(rows, screen_row as int, head.line as int, target_seg as int);
            lemma_last_line_row_range(rows, screen_row as int, head.line as int);
        }
        assert forall|c: ScreenCoord| #[trigger] v0.contains(c) implies buffer@.pending[v0.index_of(c)] == if sub.area.holds_absolute(c) {
            Some(
                CellView {
                    style: self.background,
                    grapheme: code_cell(*self, lines, width as int, height as int, internal(sub, c)),
                },
            )
        } else {
            v0.pending[v0.index_of(c)]
        } by {
            if sub.area.holds_absolute(c) {
                assert(internal(sub, c).line == c.line - tl.line);
                assert(internal(sub, c).column == c.column - tl.column);
            }
        }
        if self.active {
            let ghost cw = content_width as int;
            let ghost nn = min(height as int, rows.len() as int);
            let ghost pair: (int, int) = match find_segment_row(rows, nn, head.line as int, (head.column as int) / cw) {
                Some(r) => (r, gw + (head.column as int) % cw),
                None => match last_line_row(rows, nn, head.line as int) {
                    Some(r) => (r, min(gw + rows[r].end - rows[r].start, width - 1)),
                    None => (0, gw as int),
                },
            };
            let (line, column) = match cursor_coord {
                Some(coord) => coord,
                None => match last_head_line_coord {
                    Some(coord) => coord,
                    None => (0, gw),
                },
            };
            proof {
                lemma_rows_between_ordered(lines, self.top_line as int, n as int, content_width as nat);
                match find_segment_row(rows, nn, head.line as int, (head.column as int) / cw) {
                    Some(r) => {
                        assert(0 <= r < nn);
                        assert((head.column as int) % cw < cw);
                    },
                    None => {
                        match last_line_row(rows, nn, head.line as int) {
                            Some(r) => {
                                assert(0 <= r < nn);
                                assert(rows[r].start <= rows[r].end);
                            },
                            None => {},
                        }
                    },
                }
            }
            assert(line as int == pair.0 && column as int == pair.1);
            let line = if line <= height - 1 { line } else { height - 1 };
            let column = if column <= width - 1 { column } else { width - 1 };
            assert(line as int == min(pair.0, height - 1));
            assert(column as int == min(pair.1, width - 1));
            sub.set_cursor(buffer, ScreenCoord { line: line as u16, column: column as u16 });
        }
    }
}


/// The title shown in the tab line.
pub open spec fn tab_title() -> Seq<char> {
    "*scratch*"@
}

/// The style of the tab line.
pub open spec fn tab_line_style() -> Style {
    Style { bg: Some(Color::White), ..plain_style() }
}

/// The style of the title in the tab line.
pub open spec fn tab_title_style() -> Style {
    Style { fg: Some(Color::White), bg: Some(Color::DarkGrey), ..plain_style() }
}

/// The combining marks the cursor marks are drawn with, on top of the text:
/// a box around the head, a double underline under the tail, an underline
/// under what is in between.
pub open spec fn box_mark() -> char {
    '\u{20DE}'
}

pub open spec fn underline_mark() -> char {
    '\u{0332}'
}

pub open spec fn double_underline_mark() -> char {
    '\u{0333}'
}

/// Where the selection is marked, in order, with the mark of each place:
/// a box on the head, then (when the selection spans more than one char) a
/// double underline on the tail and an underline on one cell per column
/// from the start of the selection to its end. Head and tail sit behind the
/// gutter (their columns plus the gutter width `gw`); the underlined run
/// starts at the selection's start column plus twice `gw`, so it is shifted
/// right of the selection by one more gutter width.
pub open spec fn selection_marks(v: BufferView, gw: int) -> Seq<(ScreenCoord, char)> {
    let head = Cursor { line: v.selection.head.line, column: (v.selection.head.column + gw) as usize };
    let tail = Cursor { line: v.selection.tail.line, column: (v.selection.tail.column + gw) as usize };
    let hc = ScreenCoord { line: (head.line - v.top_line) as u16, column: head.column as u16 };
    let tc = ScreenCoord { line: (tail.line - v.top_line) as u16, column: tail.column as u16 };
    if head == tail {
        seq![(hc, box_mark())]
    } else {
        let (start, end) = if cursor_before(head, tail) {
            (head, tail)
        } else {
            (tail, head)
        };
        seq![(hc, box_mark()), (tc, double_underline_mark())] + Seq::new(
            (end.column - start.column) as nat,
            |k: int|
                (
                    ScreenCoord { line: (start.line - v.top_line) as u16, column: (start.column + k + gw) as u16 },
                    underline_mark(),
                ),
        )
    }
}

/// The buffer `b` after appending each mark of `marks[0..n]`, in order, to
/// the cell of `sub` it names.
pub open spec fn apply_marks(b: ScreenBufferView, sub: SubScreen, marks: Seq<(ScreenCoord, char)>, n: int) -> ScreenBufferView
    decreases n,
{
    if n <= 0 {
        b
    } else {
        let prev = apply_marks(b, sub, marks, n - 1);
        let i = prev.index_of(sub.absolute(marks[n - 1].0));
        let cell = prev.shown(i);
        ScreenBufferView {
            pending: prev.pending.update(i, Some(CellView { style: cell.style, grapheme: cell.grapheme.push(marks[n - 1].1) })),
            ..prev
        }
    }
}

pub proof fn lemma_apply_marks_shape(b: ScreenBufferView, sub: SubScreen, marks: Seq<(ScreenCoord, char)>, n: int)
    requires
        sub.fits_in(b),
        n <= marks.len(),
        forall|k: int| 0 <= k < n ==> sub.area.contains_spec(#[trigger] marks[k].0),
    ensures
        apply_marks(b, sub, marks, n).wf(),
        apply_marks(b, sub, marks, n).lines == b.lines,
        apply_marks(b, sub, marks, n).columns == b.columns,
        apply_marks(b, sub, marks, n).cursor == b.cursor,
        apply_marks(b, sub, marks, n).committed == b.committed,
    decreases n,
{
    if n > 0 {
        lemma_apply_marks_shape(b, sub, marks, n - 1);
        let prev = apply_marks(b, sub, marks, n - 1);
        let at = sub.absolute(marks[n - 1].0);
        assert(sub.area.contains_spec(marks[n - 1].0));
        crate::screen_buffer::lemma_index_in_range(prev, at);
    }
}

fn char_cursor(c: Cursor, gw: usize) -> (r: Cursor)
    requires
        c.column + gw <= usize::MAX,
    ensures
        r == (Cursor { line: c.line, column: (c.column + gw) as usize }),
{
    Cursor { line: c.line, column: c.column + gw }
}

impl BufferView {
    /// Draws the tab line into `tab`: the buffer's name on a white line.
    pub fn draw_tab(&self, buffer: &mut ScreenBuffer, tab: SubScreen)
        requires
            tab.fits_in(old(buffer)@),
        ensures
            final(buffer)@.wf(),
            final(buffer)@.lines == old(buffer)@.lines,
            final(buffer)@.columns == old(buffer)@.columns,
            final(buffer)@.cursor == old(buffer)@.cursor,
            final(buffer)@.committed == old(buffer)@.committed,
            final(buffer)@.pending.len() == old(buffer)@.pending.len(),
            forall|c: ScreenCoord| #[trigger] old(buffer)@.contains(c) ==> final(buffer)@.pending[old(buffer)@.index_of(c)]
                == if tab.area.holds_absolute(c) {
                    if c.line == tab.area.tl().line && c.column - tab.area.tl().column < tab_title().len() {
                        Some(CellView { style: tab_title_style(), grapheme: seq![tab_title()[c.column - tab.area.tl().column]] })
                    } else {
                        Some(CellView { style: tab_line_style(), grapheme: seq![' '] })
                    }
                } else {
                    old(buffer)@.pending[old(buffer)@.index_of(c)]
                },
    {
        let ghost v0 = buffer@;
        let line_style = Style { bg: Some(Color::White), ..Style::plain() };
        let title_style = Style { fg: Some(Color::White), bg: Some(Color::DarkGrey), ..Style::plain() };
        tab.fill(buffer, &Cell::new(line_style, Grapheme::space()));
        let ghost mid = buffer@;
        let title = chars_of("*scratch*");
        tab.put_chars(buffer, 0, &title, title_style);
        assert forall|c: ScreenCoord| #[trigger] v0.contains(c) implies buffer@.pending[v0.index_of(c)] == if tab.area.holds_absolute(c) {
            if c.line == tab.area.tl().line && c.column - tab.area.tl().column < tab_title().len() {
                Some(CellView { style: tab_title_style(), grapheme: seq![tab_title()[c.column - tab.area.tl().column]] })
            } else {
                Some(CellView { style: tab_line_style(), grapheme: seq![' '] })
            }
        } else {
            v0.pending[v0.index_of(c)]
        } by {
            assert(mid.contains(c));
        }
    }

    /// Marks the selection on the code drawn into `sub`, with combining
    /// marks added to the text of the cells: a box on the head, a double
    /// underline on the tail, and underlines on as many cells as the
    /// selection spans columns, placed as `selection_marks` says (shifted
    /// right of the selection by one gutter width).
    pub fn draw_selection(&self, buffer: &mut ScreenBuffer, sub: SubScreen)
        requires
            sub.fits_in(old(buffer)@),
            self.top_line + sub.area.height_spec() <= usize::MAX,
            self.top_line <= self.selection.head.line,
            self.top_line <= self.selection.tail.line,
            self.selection.head != self.selection.tail ==> self.selection.head.line == self.selection.tail.line,
            self.selection.head.column + 2 * gutter_width_spec(self.top_line as nat, sub.area.height_spec() as nat) <= usize::MAX,
            self.selection.tail.column + 2 * gutter_width_spec(self.top_line as nat, sub.area.height_spec() as nat) <= usize::MAX,
            forall|k: int| 0 <= k < selection_marks(*self, gutter_width_spec(self.top_line as nat, sub.area.height_spec() as nat) as int).len()
                ==> sub.area.contains_spec(
                #[trigger] selection_marks(*self, gutter_width_spec(self.top_line as nat, sub.area.height_spec() as nat) as int)[k].0,
            ),
        ensures
            final(buffer)@ == apply_marks(
                old(buffer)@,
                sub,
                selection_marks(*self, gutter_width_spec(self.top_line as nat, sub.area.height_spec() as nat) as int),
                selection_marks(*self, gutter_width_spec(self.top_line as nat, sub.area.height_spec() as nat) as int).len() as int,
            ),
    {
        let gw = gutter_width(self.top_line, sub.height() as usize);
        let ghost marks = selection_marks(*self, gw as int);
        let ghost v0 = buffer@;
        let head_cursor = char_cursor(self.selection.head, gw);
        let tail_cursor = char_cursor(self.selection.tail, gw);
        assert(sub.area.contains_spec(marks[0].0));
        put_mark(buffer, sub, head_cursor.to_screen_coord(self.top_line), '\u{20DE}');
        proof {
            lemma_apply_marks_shape(v0, sub, marks, 0);
            assert(buffer@ == apply_marks(v0, sub, marks, 1));
        }
        if head_cursor == tail_cursor {
            return;
        }
        assert(sub.area.contains_spec(marks[1].0));
        put_mark(buffer, sub, tail_cursor.to_screen_coord(self.top_line), '\u{0333}');
        proof {
            lemma_apply_marks_shape(v0, sub, marks, 1);
            assert(buffer@ == apply_marks(v0, sub, marks, 2));
        }
        let (start, end) = if head_cursor.is_before(&tail_cursor) {
            (head_cursor, tail_cursor)
        } else {
            (tail_cursor, head_cursor)
        };
        let mut col = start.column;
        while col < end.column
            invariant
                start.column <= col <= end.column,
                start.line == end.line,
                self.top_line <= start.line,
                end.column + gw <= usize::MAX,
                sub.fits_in(v0),
                marks == selection_marks(*self, gw as int),
                gw == gutter_width_spec(self.top_line as nat, sub.area.height_spec() as nat),
                marks.len() == 2 + (end.column - start.column),
                forall|k: int| 2 <= k < marks.len() ==> (#[trigger] marks[k]) == (
                    ScreenCoord { line: (start.line - self.top_line) as u16, column: (start.column + (k - 2) + gw) as u16 },
                    underline_mark(),
                ),
                forall|k: int| 0 <= k < marks.len() ==> sub.area.contains_spec(#[trigger] marks[k].0),
                buffer@ == apply_marks(v0, sub, marks, 2 + (col - start.column)),
            decreases end.column - col,
        {
            let ghost k = 2 + (col - start.column);
            assert(marks[k] == (
                ScreenCoord { line: (start.line - self.top_line) as u16, column: (col + gw) as u16 },
                underline_mark(),
            ));
            let at = Cursor { line: start.line, column: col + gw }.to_screen_coord(self.top_line);
            assert(at == marks[k].0);
            assert(sub.area.contains_spec(marks[k].0));
            proof {
                lemma_apply_marks_shape(v0, sub, marks, k);
            }
            put_mark(buffer, sub, at, '\u{0332}');
            col = col + 1;
        }
    }
}

/// Appends the combining mark `m` to the text of the cell `at` of `sub`.
fn put_mark(buffer: &mut ScreenBuffer, sub: SubScreen, at: ScreenCoord, m: char)
    requires
        sub.fits_in(old(buffer)@),
        sub.area.contains_spec(at),
    ensures
        final(buffer)@.wf(),
        ({
            let i = old(buffer)@.index_of(sub.absolute(at));
            let cell = old(buffer)@.shown(i);
            final(buffer)@ == (ScreenBufferView {
                pending: old(buffer)@.pending.update(i, Some(CellView { style: cell.style, grapheme: cell.grapheme.push(m) })),
                ..old(buffer)@
            })
        }),
{
    let (style, mut text) = match sub.get(buffer, at) {
        Some(cell) => {
            let mut text = String::new();
            push_str(&mut text, cell.grapheme.as_str());
            (cell.style, text)
        },
        None => (Style::plain(), String::new()),
    };
    push_char(&mut text, m);
    proof {
        crate::screen_buffer::lemma_index_in_range(buffer@, sub.absolute(at));
    }
    sub.set(buffer, at, Cell::new(style, Grapheme::from_cluster(text)));
}

} // verus!
