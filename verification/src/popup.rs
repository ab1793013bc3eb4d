//! A popup: a view drawn on top of whatever is already on the screen,
//! anchored to the right edge, growing out of its resting bottom right
//! corner. How far it has grown at a given time is decided by its caller;
//! here it is drawn at a given size.
use vstd::prelude::*;
use ropey::Rope;
use crate::buffer_view::{cursor_spec, drawn, BufferView};
use crate::geo::{ScreenArea, ScreenCoord};
use crate::rope::rope_lines;
use crate::screen_buffer::{Cell, Grapheme, ScreenBuffer, SubScreen};
use crate::theme::{Color, Style};

verus! {

/// Where a popup rests on the screen.
#[derive(Debug, Clone, Copy, PartialEq, Eq, Structural)]
pub enum PopupPosition {
    Top,
    Bottom,
    Center,
}

/// A popup showing `content`, at `position`.
#[derive(Debug, Clone, Copy, PartialEq, Eq, Structural)]
pub struct Popup {
    pub position: PopupPosition,
    pub content: BufferView,
}

/// The style the popup's area is cleared with before its content is drawn.
pub open spec fn popup_fill_style() -> Style {
    Style { fg: Some(Color::White), bg: Some(Color::DarkGrey), bold: false, italic: false, underline: false }
}

impl Popup {
    /// The popup has a resting place on a screen: it is not centered (which
    /// has no place yet), and at the top its content has at least one line.
    pub open spec fn placeable(self) -> bool {
        &&& self.position != PopupPosition::Center
        &&& self.position == PopupPosition::Top ==> 1 <= self.content.height as u16
    }

    /// The corner, in the coordinates of `screen`, the popup rests at once
    /// fully grown: the last column, and the last line of the content at the
    /// top or the last line of the screen at the bottom.
    pub open spec fn resting_bottom_right_spec(self, screen: SubScreen) -> ScreenCoord {
        ScreenCoord {
            line: match self.position {
                PopupPosition::Top => ((self.content.height as u16) - 1) as u16,
                _ => (screen.area.height_spec() - 1) as u16,
            },
            column: (screen.area.width_spec() - 1) as u16,
        }
    }

    /// The area, in the coordinates of `screen`, the popup covers when grown
    /// to `width` by `height` cells.
    pub open spec fn area_spec(self, screen: SubScreen, width: u16, height: u16) -> (ScreenCoord, ScreenCoord) {
        let br = self.resting_bottom_right_spec(screen);
        (ScreenCoord { line: (br.line + 1 - height) as u16, column: (br.column + 1 - width) as u16 }, br)
    }

    pub fn resting_bottom_right(&self, screen: &SubScreen) -> (r: ScreenCoord)
        requires
            self.placeable(),
            screen.area.wf(),
            screen.area.fits(),
        ensures
            r == self.resting_bottom_right_spec(*screen),
    {
        let column = screen.width() - 1;
        let line = match self.position {
            PopupPosition::Top => self.content.height as u16 - 1,
            _ => screen.height() - 1,
        };
        ScreenCoord { line, column }
    }

    /// Draws the popup grown to `width` by `height` cells: its area is
    /// cleared, then the content is drawn in it. Nothing outside the area
    /// changes. An active content puts the terminal cursor on its head; an
    /// inactive one leaves the cursor where it was.
    pub fn draw(&self, rope: &Rope, buffer: &mut ScreenBuffer, screen: SubScreen, width: u16, height: u16)
        requires
            screen.fits_in(old(buffer)@),
            self.placeable(),
            self.resting_bottom_right_spec(screen).line < screen.area.height_spec(),
            1 <= width <= screen.area.width_spec(),
            1 <= height <= self.resting_bottom_right_spec(screen).line + 1,
            self.content.top_line <= rope_lines(*rope).len(),
            self.content.top_line + height <= usize::MAX,
            (self.content.active && !self.content.soft_wrap) ==> self.content.top_line <= self.content.selection.head.line
                < self.content.top_line + height,
        ensures
            forall|sub: SubScreen|
                #![trigger drawn(self.content, rope_lines(*rope), sub, old(buffer)@, final(buffer)@)]
                sub.area.tl() == screen.absolute(self.area_spec(screen, width, height).0)
                    && sub.area.br() == screen.absolute(self.area_spec(screen, width, height).1)
                    ==> drawn(self.content, rope_lines(*rope), sub, old(buffer)@, final(buffer)@),
            final(buffer)@.cursor == if self.content.active {
                let origin = screen.absolute(self.area_spec(screen, width, height).0);
                let at = cursor_spec(self.content, rope_lines(*rope), width as int, height as int);
                ScreenCoord { line: (at.line + origin.line) as u16, column: (at.column + origin.column) as u16 }
            } else {
                old(buffer)@.cursor
            },
    {
        let bottom_right = self.resting_bottom_right(&screen);
        let top_left = ScreenCoord { line: bottom_right.line + 1 - height, column: bottom_right.column + 1 - width };
        let area = ScreenArea::new(top_left, bottom_right);
        let popup_screen = screen.sub_screen(area);
        let ghost v0 = buffer@;
        let style = Style { fg: Some(Color::White), bg: Some(Color::DarkGrey), ..Style::plain() };
        popup_screen.fill(buffer, &Cell::new(style, Grapheme::space()));
        let ghost v1 = buffer@;
        proof {
            assert(popup_screen.fits_in(v1));
        }
        self.content.draw_code(rope, buffer, popup_screen);
        proof {
            assert forall|c: ScreenCoord| #[trigger] v0.contains(c) implies buffer@.pending[v0.index_of(c)] == if popup_screen.area.holds_absolute(c) {
                Some(
                    crate::screen_buffer::CellView {
                        style: self.content.background,
                        grapheme: crate::buffer_view::code_cell(
                            self.content,
                            rope_lines(*rope),
                            popup_screen.area.width_spec(),
                            popup_screen.area.height_spec(),
                            crate::buffer_view::internal(popup_screen, c),
                        ),
                    },
                )
            } else {
                v0.pending[v0.index_of(c)]
            } by {
                assert(v1.contains(c));
            }
        }
    }
}

} // verus!
