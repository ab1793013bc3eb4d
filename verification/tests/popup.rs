use keyed_editor::buffer_view::BufferView;
use keyed_editor::editor::Selection;
use keyed_editor::popup::{Popup, PopupPosition};
use keyed_editor::screen_buffer::{Cell, Grapheme, ScreenBuffer};
use keyed_editor::theme::Style;
use ropey::Rope;

/// Fills the whole screen with a recognizable "code" pattern, standing in
/// for whatever the rest of the editor draws behind the popup.
fn draw_code(screen: &mut ScreenBuffer) {
    let sub = screen.as_sub_screen();
    sub.fill(screen, &Cell::new(Style::default(), Grapheme::from_char('.')));
}

fn popup(position: PopupPosition, width: usize, height: usize) -> Popup {
    Popup {
        position,
        content: BufferView {
            width,
            height,
            top_line: 0,
            active: false,
            selection: Selection::default(),
            background: Style::default(),
            soft_wrap: false,
        },
    }
}

fn draw_popup(popup: &Popup, rope: &Rope, screen: &mut ScreenBuffer, width: u16, height: u16) -> String {
    draw_code(screen);
    let sub = screen.as_sub_screen();
    popup.draw(rope, screen, sub, width, height);
    screen.display_as_text()
}

#[test]
fn a_fully_grown_popup_rests_in_the_bottom_right_corner() {
    let mut screen = ScreenBuffer::new(8, 20);
    let rope = Rope::from_str("AA\nBB\nCC");
    let popup = popup(PopupPosition::Bottom, 8, 4);
    let shown = draw_popup(&popup, &rope, &mut screen, 8, 4);
    assert_eq!(
        shown,
        [
            "....................",
            "....................",
            "....................",
            "....................",
            "............0| AA   ",
            "............1| BB   ",
            "............2| CC   ",
            "............        ",
        ]
        .join("\n")
    );
}

#[test]
fn a_growing_popup_shows_part_of_its_content() {
    let mut screen = ScreenBuffer::new(8, 20);
    let rope = Rope::from_str("AA\nBB\nCC");
    let popup = popup(PopupPosition::Bottom, 8, 4);

    let shown = draw_popup(&popup, &rope, &mut screen, 5, 2);
    let lines: Vec<&str> = shown.lines().collect();
    assert_eq!(lines[5], "....................");
    assert_eq!(lines[6], "...............0| AA");
    assert_eq!(lines[7], "...............1| BB");

    let shown = draw_popup(&popup, &rope, &mut screen, 7, 4);
    let lines: Vec<&str> = shown.lines().collect();
    assert_eq!(lines[3], "....................");
    assert_eq!(lines[4], ".............0| AA  ");
    assert_eq!(lines[7], ".............       ");

    // Never shrunk to nothing: a single cell is still covered.
    let shown = draw_popup(&popup, &rope, &mut screen, 1, 1);
    let lines: Vec<&str> = shown.lines().collect();
    assert_eq!(lines[6], "....................");
    assert_eq!(lines[7], "...................0");
}

#[test]
fn a_popup_taller_than_its_content_still_fully_hides_the_code_behind_it() {
    let mut screen = ScreenBuffer::new(8, 20);
    let rope = Rope::from_str("Hi");
    let popup = popup(PopupPosition::Bottom, 8, 5);
    let shown = draw_popup(&popup, &rope, &mut screen, 8, 5);
    assert_eq!(
        shown,
        [
            "....................",
            "....................",
            "....................",
            "............0| Hi   ",
            "............        ",
            "............        ",
            "............        ",
            "............        ",
        ]
        .join("\n")
    );
}

#[test]
fn a_popup_at_the_top_rests_below_its_content_height() {
    let mut screen = ScreenBuffer::new(8, 20);
    let rope = Rope::from_str("AA");
    let popup = popup(PopupPosition::Top, 6, 2);
    let sub = screen.as_sub_screen();
    let corner = popup.resting_bottom_right(&sub);
    assert_eq!((corner.line, corner.column), (1, 19));

    let shown = draw_popup(&popup, &rope, &mut screen, 6, 2);
    let lines: Vec<&str> = shown.lines().collect();
    assert_eq!(lines[0], "..............0| AA ");
    assert_eq!(lines[1], "..............      ");
    assert_eq!(lines[2], "....................");
}

#[test]
fn an_inactive_popup_leaves_the_cursor_and_an_active_one_takes_it() {
    let mut screen = ScreenBuffer::new(8, 20);
    let rope = Rope::from_str("AA\nBB");
    let mut shown = popup(PopupPosition::Bottom, 8, 4);
    let before = screen.cursor();
    draw_popup(&shown, &rope, &mut screen, 8, 4);
    assert_eq!(screen.cursor(), before);

    shown.content.active = true;
    shown.content.selection.head.column = 1;
    draw_popup(&shown, &rope, &mut screen, 8, 4);
    // The popup's area starts at line 4, column 12; its gutter is three wide.
    assert_eq!((screen.cursor().line, screen.cursor().column), (4, 16));
}
