use keyed_editor::action::{Anchor, DeleteDirection, Direction};
use keyed_editor::buffer_view::BufferView;
use keyed_editor::editor::{ActionResult, Cursor, Selection, SelectionMode};
use keyed_editor::geo::ScreenCoord;
use keyed_editor::layout::{gutter_width, wrap_chunks};
use keyed_editor::screen_buffer::ScreenBuffer;
use keyed_editor::theme::Style;
use ropey::Rope;

/// The lines 248 to 258 of the document the views are tested on.
const EXCERPT: [&str; 11] = [
    "Of course, in the beginning, this cannot be effected except by means of despotic inroads on the rights of property, and on the conditions of bourgeois production.",
    "",
    "These measures will, of course, be different in different countries.",
    "",
    "Nevertheless, in most advanced countries, the following will be pretty generally applicable.",
    "",
    "1. Abolition of property in land and application of all rents of land to public purposes.",
    "2. A heavy progressive or graduated income tax.",
    "3. Abolition of all rights of inheritance.",
    "4. Confiscation of the property of all emigrants and rebels.",
    "5. Centralisation of credit in the hands of the state, by means of a national bank with State capital and an exclusive monopoly.",
];

/// A document of 300 lines, standing for a long file: numbered filler
/// lines around the excerpt above.
fn long_document() -> String {
    let mut text = String::new();
    for i in 0..300 {
        if (248..259).contains(&i) {
            text.push_str(EXCERPT[i - 248]);
            text.push('\n');
        } else {
            text.push_str(&format!("line number {i} of the document\n"));
        }
    }
    text
}

/// Draws the code and the selection, and returns the screen as text, each
/// line without its trailing blanks.
fn draw_and_display(view: &BufferView, rope: &Rope, buffer: &mut ScreenBuffer) -> String {
    let sub = buffer.as_sub_screen();
    view.draw_code(rope, buffer, sub);
    let sub = buffer.as_sub_screen();
    view.draw_selection(buffer, sub);
    trim_lines(&buffer.display_as_text())
}

fn trim_lines(s: &str) -> String {
    let lines: Vec<&str> = s.lines().map(|l| l.trim_end()).collect();
    lines.join("\n").trim_end().to_string()
}

fn snapshot(lines: &[&str]) -> String {
    trim_lines(&lines.join("\n"))
}

fn setup_buffer_view() -> (ScreenBuffer, BufferView, Rope) {
    let width = 110;
    let height = 10;
    let view = BufferView {
        width,
        height,
        top_line: 248,
        selection: Selection { tail: Cursor { line: 250, column: 0 }, head: Cursor { line: 250, column: 0 } },
        active: true,
        background: Style::default(),
        soft_wrap: false,
    };
    let buffer = ScreenBuffer::new(height as u16, width as u16);
    (buffer, view, Rope::from_str(&long_document()))
}

fn setup_wrap_test(text: &str, width: usize, height: usize, soft_wrap: bool) -> (ScreenBuffer, BufferView, Rope) {
    let view = BufferView {
        width,
        height,
        top_line: 0,
        selection: Selection::default(),
        active: true,
        background: Style::default(),
        soft_wrap,
    };
    let buffer = ScreenBuffer::new(height as u16, width as u16);
    (buffer, view, Rope::from_str(text))
}

/// Draws only the code (no cursor marks) and returns the screen as text.
fn buffer_text(view: &BufferView, rope: &Rope, buffer: &mut ScreenBuffer) -> String {
    let sub = buffer.as_sub_screen();
    view.draw_code(rope, buffer, sub);
    buffer.display_as_text().trim_end().to_string()
}

fn draw(view: &BufferView, rope: &Rope, buffer: &mut ScreenBuffer) {
    let sub = buffer.as_sub_screen();
    view.draw_code(rope, buffer, sub);
}

#[test]
fn delete_at_start_of_file_does_nothing() {
    let (_buffer, mut view, mut rope) = setup_buffer_view();
    view.move_anchor(&rope, Anchor::Head, Direction::StartOfFile, SelectionMode::Char);
    assert_eq!(view.selection.head, Cursor { line: 0, column: 0 });

    let content_before = rope.to_string();

    let result = view.delete(&mut rope, DeleteDirection::Left);

    assert!(matches!(result, ActionResult::Nothing));
    assert_eq!(view.selection.head, Cursor { line: 0, column: 0 });
    assert_eq!(rope.to_string(), content_before);
}

#[test]
fn resize_updates_the_cached_width_and_height() {
    let (_buffer, mut view, _rope) = setup_buffer_view();
    assert_eq!(view.width, 110);
    assert_eq!(view.height, 10);

    view.resize(42, 7);

    assert_eq!(view.width, 42);
    assert_eq!(view.height, 7);
}

#[test]
fn resize_scrolls_up_to_keep_the_cursor_visible_when_shrinking() {
    let (_buffer, mut view, rope) = setup_buffer_view();
    assert_eq!(view.selection.head.line, 250);
    assert_eq!(view.top_line, 248);

    view.resize(110, 1);

    assert_eq!(view.top_line, 250);
    // Drawing into a one-row area keeps the cursor on its line.
    let mut buffer = ScreenBuffer::new(1, 110);
    draw(&view, &rope, &mut buffer);
    assert_eq!(buffer.cursor().line, 0);
}

#[test]
fn resize_scrolls_down_if_top_line_is_already_past_the_cursor() {
    let (mut buffer, mut view, rope) = setup_buffer_view();
    // Simulate `top_line` having drifted ahead of the cursor's line.
    view.top_line = 255;

    view.resize(110, 10);

    assert_eq!(view.top_line, view.selection.head.line);
    draw(&view, &rope, &mut buffer);
    assert_eq!(buffer.cursor().line, 0);
}

#[test]
fn resize_narrower_while_deep_in_a_wrapped_line_keeps_the_cursor_sensible() {
    let (_buffer, mut view, mut rope) = setup_wrap_test("", 20, 5, true);
    for _ in 0..50 {
        view.insert(&mut rope, 'x');
    }
    assert_eq!(view.selection.head, Cursor { line: 0, column: 50 });

    view.resize(10, 5);

    let mut buffer = ScreenBuffer::new(5, 10);
    draw(&view, &rope, &mut buffer);

    // The cursor's line is longer, wrapped, than the view is tall: it lands
    // on the last visible row of that line.
    assert_eq!(buffer.cursor().line, 4);
}

#[test]
fn typing_past_the_view_width_with_soft_wrap_off_does_not_crash() {
    let (mut buffer, mut view, mut rope) = setup_buffer_view();
    assert!(!view.soft_wrap);

    for _ in 0..150 {
        view.insert(&mut rope, 'x');
    }

    draw(&view, &rope, &mut buffer);

    // Clamped to the rightmost visible column instead of overflowing.
    assert_eq!(buffer.cursor(), ScreenCoord { line: 2, column: 109 });
}

#[test]
fn soft_wrap_renders_a_continuation_row_with_a_wrap_marker_gutter() {
    let (mut buffer, view, rope) = setup_wrap_test("0123456789ABCDEF", 10, 5, true);
    assert_eq!(buffer_text(&view, &rope, &mut buffer), "0| 0123456\n ↪ 789ABCD\n ↪ EF");
}

#[test]
fn soft_wrap_moves_the_cursor_onto_the_wrapped_row() {
    let (mut buffer, mut view, mut rope) = setup_wrap_test("", 10, 5, true);

    for c in "abcdefghi".chars() {
        view.insert(&mut rope, c);
    }
    assert_eq!(view.selection.head, Cursor { line: 0, column: 9 });

    draw(&view, &rope, &mut buffer);

    // content_width is 7 (10 - gutter_width of 3): column 9 is on the
    // second wrapped row (segment 1), at offset 9 % 7 == 2.
    assert_eq!(buffer.cursor(), ScreenCoord { line: 1, column: 5 });
}

#[test]
fn cursor_exactly_at_the_wrap_boundary_moves_to_the_start_of_the_next_row() {
    let (mut buffer, mut view, mut rope) = setup_wrap_test("", 10, 5, true);

    for c in "abcdefg".chars() {
        view.insert(&mut rope, c);
    }

    assert_eq!(buffer_text(&view, &rope, &mut buffer), "0| abcdefg\n ↪");

    assert_eq!(view.selection.head, Cursor { line: 0, column: 7 });

    draw(&view, &rope, &mut buffer);

    // The cursor should sit at the start of the next line
    assert_eq!(buffer.cursor(), ScreenCoord { line: 1, column: 3 });

    draw(&view, &rope, &mut buffer);

    assert_eq!(buffer_text(&view, &rope, &mut buffer), "0| abcdefg\n ↪");
}

#[test]
fn soft_wrap_can_wrap_a_line_more_than_once() {
    let (mut buffer, view, rope) = setup_wrap_test("0123456789ABCDEFGH\nnext", 8, 6, true);
    assert_eq!(
        buffer_text(&view, &rope, &mut buffer),
        "0| 01234\n ↪ 56789\n ↪ ABCDE\n ↪ FGH  \n1| next"
    );
}

#[test]
fn soft_wrap_line_ending_exactly_on_a_chunk_boundary_gets_a_blank_continuation_row() {
    let (mut buffer, view, rope) = setup_wrap_test("01234\nnext", 8, 4, true);
    assert_eq!(buffer_text(&view, &rope, &mut buffer), "0| 01234\n ↪      \n1| next");
}

#[test]
fn soft_wrap_scrolls_earlier_once_a_wrapped_line_fills_the_screen() {
    let (_buffer, mut view, rope) = setup_wrap_test("01234567\nb\nc\nd", 8, 3, true);
    assert!(view.soft_wrap);
    assert_eq!(view.top_line, 0);

    // Line 0 ("01234567") wraps onto 2 screen rows (content_width is 5),
    // so line 1 ("b") already lands on the 3rd (last) visible row.
    view.move_anchor(&rope, Anchor::Head, Direction::Down, SelectionMode::Char);
    assert_eq!(view.top_line, 0);
    assert_eq!(view.selection.head.line, 1);

    // Moving down once more must scroll now.
    view.move_anchor(&rope, Anchor::Head, Direction::Down, SelectionMode::Char);
    assert_eq!(view.top_line, 1);
    assert_eq!(view.selection.head.line, 1);
}

#[test]
fn basic_display() {
    let (mut buffer, view, rope) = setup_buffer_view();
    assert_eq!(
        draw_and_display(&view, &rope, &mut buffer),
        snapshot(&[
            "248| Of course, in the beginning, this cannot be effected except by means of despotic inroads on the rights of",
            "249|                                                                                                          ",
            "250| T\u{20DE}hese measures will, of course, be different in different countries.                                     ",
            "251|                                                                                                          ",
            "252| Nevertheless, in most advanced countries, the following will be pretty generally applicable.             ",
            "253|                                                                                                          ",
            "254| 1. Abolition of property in land and application of all rents of land to public purposes.                ",
            "255| 2. A heavy progressive or graduated income tax.                                                          ",
            "256| 3. Abolition of all rights of inheritance.                                                               ",
            "257| 4. Confiscation of the property of all emigrants and rebels.",
        ])
    );
}

#[test]
fn move_anchor_basic() {
    let (mut buffer, mut view, rope) = setup_buffer_view();
    let rest = [
        "251|",
        "252| Nevertheless, in most advanced countries, the following will be pretty generally applicable.",
        "253|",
        "254| 1. Abolition of property in land and application of all rents of land to public purposes.",
        "255| 2. A heavy progressive or graduated income tax.",
        "256| 3. Abolition of all rights of inheritance.",
        "257| 4. Confiscation of the property of all emigrants and rebels.",
    ];
    let first = "248| Of course, in the beginning, this cannot be effected except by means of despotic inroads on the rights of";
    let screen = |l249: &str, l250: &str| {
        let mut lines = vec![first, l249, l250];
        lines.extend_from_slice(&rest);
        snapshot(&lines)
    };

    assert_eq!(
        draw_and_display(&view, &rope, &mut buffer),
        screen("249|", "250| T\u{20DE}hese measures will, of course, be different in different countries.")
    );

    view.move_anchor(&rope, Anchor::Head, Direction::Right, SelectionMode::Char);
    assert_eq!(
        draw_and_display(&view, &rope, &mut buffer),
        screen("249|", "250| Th\u{20DE}ese measures will, of course, be different in different countries.")
    );

    view.move_anchor(&rope, Anchor::Head, Direction::Up, SelectionMode::Char);
    assert_eq!(
        draw_and_display(&view, &rope, &mut buffer),
        screen("249|   \u{20DE}", "250| These measures will, of course, be different in different countries.")
    );

    view.move_anchor(&rope, Anchor::Head, Direction::Down, SelectionMode::Char);
    assert_eq!(
        draw_and_display(&view, &rope, &mut buffer),
        screen("249|", "250| Th\u{20DE}ese measures will, of course, be different in different countries.")
    );
}

#[test]
fn insert_newline_moves_cursor_to_next_line() {
    let (mut buffer, mut view, mut rope) = setup_buffer_view();
    assert_eq!(view.selection.head, Cursor { line: 250, column: 0 });

    view.insert(&mut rope, '\n');

    assert_eq!(view.selection.head, Cursor { line: 251, column: 0 });
    assert_eq!(
        draw_and_display(&view, &rope, &mut buffer),
        snapshot(&[
            "248| Of course, in the beginning, this cannot be effected except by means of despotic inroads on the rights of",
            "249|",
            "250|",
            "251| T\u{20DE}hese measures will, of course, be different in different countries.",
            "252|",
            "253| Nevertheless, in most advanced countries, the following will be pretty generally applicable.",
            "254|",
            "255| 1. Abolition of property in land and application of all rents of land to public purposes.",
            "256| 2. A heavy progressive or graduated income tax.",
            "257| 3. Abolition of all rights of inheritance.",
        ])
    );
}

#[test]
fn delete_at_start_of_line_joins_with_previous_line() {
    let (mut buffer, mut view, mut rope) = setup_buffer_view();

    // The cursor starts at the beginning of line 250, right after the
    // blank line 249.
    assert_eq!(view.selection.head, Cursor { line: 250, column: 0 });

    view.delete(&mut rope, DeleteDirection::Left);

    // The blank line 249 had no characters of its own, so joining with it
    // leaves the cursor at its former (empty) start.
    assert_eq!(view.selection.head, Cursor { line: 249, column: 0 });
    assert_eq!(
        draw_and_display(&view, &rope, &mut buffer),
        snapshot(&[
            "248| Of course, in the beginning, this cannot be effected except by means of despotic inroads on the rights of",
            "249| T\u{20DE}hese measures will, of course, be different in different countries.",
            "250|",
            "251| Nevertheless, in most advanced countries, the following will be pretty generally applicable.",
            "252|",
            "253| 1. Abolition of property in land and application of all rents of land to public purposes.",
            "254| 2. A heavy progressive or graduated income tax.",
            "255| 3. Abolition of all rights of inheritance.",
            "256| 4. Confiscation of the property of all emigrants and rebels.",
            "257| 5. Centralisation of credit in the hands of the state, by means of a national bank with State capital and",
        ])
    );
}

#[test]
fn insert_newline_in_a_short_text_splits_the_line() {
    let (_buffer, mut view, mut rope) = setup_wrap_test("ab\ncd", 20, 5, false);
    view.move_anchor(&rope, Anchor::Head, Direction::Right, SelectionMode::Char);
    assert_eq!(view.selection.head, Cursor { line: 0, column: 1 });

    view.insert(&mut rope, '\n');

    assert_eq!(view.selection.head, Cursor { line: 1, column: 0 });
    assert_eq!(view.selection.tail, view.selection.head);
    assert_eq!(rope.to_string(), "a\nb\ncd");
}

#[test]
fn delete_at_start_of_line_in_a_short_text_joins_the_lines() {
    let (_buffer, mut view, mut rope) = setup_wrap_test("ab\ncd", 20, 5, false);
    view.move_anchor(&rope, Anchor::Head, Direction::Down, SelectionMode::Char);
    assert_eq!(view.selection.head, Cursor { line: 1, column: 0 });

    let result = view.delete(&mut rope, DeleteDirection::Left);

    assert!(matches!(result, ActionResult::Redraw));
    assert_eq!(view.selection.head, Cursor { line: 0, column: 2 });
    assert_eq!(rope.to_string(), "abcd");
}

#[test]
fn insert_then_delete_restores_the_text() {
    let (_buffer, mut view, mut rope) = setup_wrap_test("hello\nworld", 20, 5, false);
    view.move_anchor(&rope, Anchor::Head, Direction::Down, SelectionMode::Char);
    view.move_anchor(&rope, Anchor::Head, Direction::Right, SelectionMode::Char);
    let before = (rope.to_string(), view.selection);
    view.insert(&mut rope, 'X');
    assert_eq!(rope.to_string(), "hello\nwXorld");
    view.delete(&mut rope, DeleteDirection::Left);
    assert_eq!((rope.to_string(), view.selection), before);
}

#[test]
fn moving_the_anchor_clamps_to_the_line() {
    let (_buffer, mut view, rope) = setup_wrap_test("ab\nlonger line", 20, 5, false);
    for _ in 0..5 {
        view.move_anchor(&rope, Anchor::Head, Direction::Right, SelectionMode::Char);
    }
    // "ab\n" has three chars, its line break included.
    assert_eq!(view.selection.head, Cursor { line: 0, column: 3 });
    view.move_anchor(&rope, Anchor::Head, Direction::StartOfLine, SelectionMode::Char);
    assert_eq!(view.selection.head, Cursor { line: 0, column: 0 });
    view.move_anchor(&rope, Anchor::Head, Direction::Left, SelectionMode::Char);
    assert_eq!(view.selection.head, Cursor { line: 0, column: 0 });
    let r = view.move_anchor(&rope, Anchor::Head, Direction::Up, SelectionMode::Char);
    assert!(matches!(r, ActionResult::Nothing));
    view.move_anchor(&rope, Anchor::Head, Direction::Down, SelectionMode::Char);
    view.move_anchor(&rope, Anchor::Head, Direction::EndOfLine, SelectionMode::Char);
    assert_eq!(view.selection.head, Cursor { line: 1, column: 11 });
}

#[test]
fn unwrapped_lines_are_cut_at_the_view_width() {
    let (mut buffer, view, rope) = setup_wrap_test("0123456789ABCDEF\nnext", 10, 3, false);
    assert_eq!(buffer_text(&view, &rope, &mut buffer), "0| 0123456\n1| next");
    assert_eq!(buffer.cursor(), ScreenCoord { line: 0, column: 3 });
}

#[test]
fn the_gutter_grows_with_the_line_numbers() {
    let mut text = String::new();
    for i in 0..12 {
        text.push_str(&format!("{i}\n"));
    }
    let (mut buffer, mut view, rope) = setup_wrap_test(&text, 8, 3, false);
    view.top_line = 9;
    view.selection.head.line = 10;
    assert_eq!(buffer_text(&view, &rope, &mut buffer), " 9| 9   \n10| 10  \n11| 11");
}

#[test]
fn tab_line_shows_the_buffer_name() {
    let (mut buffer, view, _rope) = setup_wrap_test("", 12, 2, false);
    let (tab, _rest) = buffer.as_sub_screen().split_after_line(0);
    view.draw_tab(&mut buffer, tab);
    assert_eq!(buffer.display_as_text(), "*scratch*   \n            ");
}

#[test]
fn selection_marks_the_head() {
    let (mut buffer, view, rope) = setup_wrap_test("abc", 10, 2, false);
    draw(&view, &rope, &mut buffer);
    let sub = buffer.as_sub_screen();
    view.draw_selection(&mut buffer, sub);
    assert_eq!(buffer.display_as_text(), "0| a\u{20DE}bc    \n          ");
}

#[test]
fn wrap_chunks_split_a_line_into_rows() {
    let g = |s: &str| s.chars().map(|c| c.to_string()).collect::<Vec<_>>();
    assert_eq!(wrap_chunks(&g("abcdefg"), 3), vec![(0, 3), (3, 6), (6, 7)]);
    assert_eq!(wrap_chunks(&g("abcdef"), 3), vec![(0, 3), (3, 6), (6, 6)]);
    assert_eq!(wrap_chunks(&g("ab\n"), 3), vec![(0, 2)]);
    assert_eq!(wrap_chunks(&g("abc\n"), 3), vec![(0, 3), (3, 3)]);
    assert_eq!(wrap_chunks(&g(""), 3), vec![(0, 0)]);
}

#[test]
fn gutter_width_counts_the_digits_of_the_last_line_number() {
    assert_eq!(gutter_width(0, 1), 2);
    assert_eq!(gutter_width(0, 10), 3);
    assert_eq!(gutter_width(5, 6), 4);
    assert_eq!(gutter_width(248, 10), 5);
    assert_eq!(gutter_width(990, 10), 5);
    assert_eq!(gutter_width(991, 10), 6);
}

#[test]
fn deleting_right_after_typing_gives_back_the_text() {
    let (_buffer, mut view, mut rope) = setup_wrap_test("hello\nworld\n", 20, 5, false);
    let at = Cursor { line: 1, column: 2 };
    view.selection = Selection { tail: at, head: at };
    let before = rope.to_string();
    view.insert(&mut rope, 'x');
    assert_eq!(rope.to_string(), "hello\nwoxrld\n");
    view.delete(&mut rope, DeleteDirection::Left);
    assert_eq!(rope.to_string(), before);
    assert_eq!(view.selection.head, at);
}

#[test]
fn typing_between_a_carriage_return_and_a_line_feed_can_be_undone() {
    let (_buffer, mut view, mut rope) = setup_wrap_test("a\r\nb", 20, 5, false);
    let at = Cursor { line: 0, column: 2 };
    view.selection = Selection { tail: at, head: at };
    view.insert(&mut rope, 'x');
    assert_eq!(rope.to_string(), "a\rx\nb");
    // The carriage return now ends a line of its own.
    assert_eq!(rope.len_lines(), 3);
    view.delete(&mut rope, DeleteDirection::Left);
    assert_eq!(rope.to_string(), "a\r\nb");
    assert_eq!(rope.len_lines(), 2);
}
