//! How the terminal is divided between the tab line, the code and the
//! status bar.
use vstd::prelude::*;
use crate::geo::{ScreenArea, ScreenCoord};

verus! {

/// Rows reserved for the tab line at the top of the screen.
pub const TAB_HEIGHT: u16 = 1;

/// Rows reserved for the status bar at the bottom of the screen.
pub const STATUS_HEIGHT: u16 = 1;

/// Splits the whole screen area into the tab line (its first row), the
/// code (everything in between) and the status bar (its last row).
pub fn layout(area: ScreenArea) -> (r: (ScreenArea, ScreenArea, ScreenArea))
    requires
        area.wf(),
        area.fits(),
        area.height_spec() >= TAB_HEIGHT + STATUS_HEIGHT + 1,
    ensures
        r.0.wf(),
        r.1.wf(),
        r.2.wf(),
        r.0.tl() == area.tl(),
        r.0.br() == (ScreenCoord { line: area.tl().line, column: area.br().column }),
        r.1.tl() == (ScreenCoord { line: (area.tl().line + TAB_HEIGHT) as u16, column: area.tl().column }),
        r.1.br() == (ScreenCoord { line: (area.br().line - STATUS_HEIGHT) as u16, column: area.br().column }),
        r.2.tl() == (ScreenCoord { line: area.br().line, column: area.tl().column }),
        r.2.br() == area.br(),
        r.0.height_spec() == TAB_HEIGHT,
        r.1.height_spec() == area.height_spec() - TAB_HEIGHT - STATUS_HEIGHT,
        r.2.height_spec() == STATUS_HEIGHT,
        r.0.width_spec() == area.width_spec(),
        r.1.width_spec() == area.width_spec(),
        r.2.width_spec() == area.width_spec(),
{
    let (tab, rem) = area.split_after_internal_line(TAB_HEIGHT - 1);
    let (code, status) = rem.split_after_internal_line(rem.height() - STATUS_HEIGHT - 1);
    (tab, code, status)
}

} // verus!
