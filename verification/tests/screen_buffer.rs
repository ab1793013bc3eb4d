use keyed_editor::geo::{ScreenArea, ScreenCoord};
use keyed_editor::screen_buffer::{Cell, Grapheme, ScreenBuffer};
use keyed_editor::theme::Style;

fn cell(c: char) -> Cell {
    Cell::new(Style::default(), Grapheme::from_char(c))
}

fn c(line: u16, column: u16) -> ScreenCoord {
    ScreenCoord { line, column }
}

/// The text of the buffer as it will be drawn, without the trailing blanks.
fn text(screen: &ScreenBuffer) -> String {
    screen.display_as_text().trim_end().to_string()
}

#[test]
fn basic_print() {
    let mut screen = ScreenBuffer::new(10, 10);

    for (i, ch) in "status bar".chars().enumerate() {
        let mut coord = c(8, i as u16);
        screen.set(coord, cell('-'));
        coord.line += 1;
        screen.set(coord, cell(ch));
    }
    for (i, ch) in "|tabs|tabs".chars().enumerate() {
        let mut coord = c(0, i as u16);
        screen.set(coord, cell(ch));
        coord.line += 1;
        screen.set(coord, cell('-'));
    }
    for (i, ch) in "Gutter".chars().enumerate() {
        let i = i + 2;
        let mut coord = c(i as u16, 0);
        screen.set(coord, cell(ch));
        coord.column += 1;
        screen.set(coord, cell('|'));
        // shove 3 spaces for identation.
        for _ in 0..4 {
            coord.column += 1;
            screen.set(coord, cell(' '));
        }
        for (j, ch) in "Code..".chars().enumerate() {
            let coord = c(i as u16, (2 + j + (i % 3)) as u16);
            screen.set(coord, cell(ch));
        }
    }

    assert_eq!(
        text(&screen),
        "|tabs|tabs\n----------\nG|  Code..\nu|Code..  \nt| Code.. \nt|  Code..\ne|Code..  \nr| Code.. \n----------\nstatus bar"
    );
}

#[test]
fn basic_sub_screen_print() {
    let mut screen = ScreenBuffer::new(10, 10);
    let sub_screen = screen.as_sub_screen();
    let status_view = sub_screen.sub_screen(ScreenArea::new(c(8, 0), c(9, 9)));

    for (i, ch) in "status bar".chars().enumerate() {
        let mut coord = c(0, i as u16);
        status_view.set(&mut screen, coord, cell('-'));
        coord.line += 1;
        status_view.set(&mut screen, coord, cell(ch));
    }

    let tabs_view = sub_screen.sub_screen(ScreenArea::new(c(0, 0), c(1, 9)));
    for (i, ch) in "|tabs|tabs".chars().enumerate() {
        let mut coord = c(0, i as u16);
        tabs_view.set(&mut screen, coord, cell(ch));
        coord.line += 1;
        tabs_view.set(&mut screen, coord, cell('-'));
    }

    let code_view = sub_screen.sub_screen(ScreenArea::new(c(2, 0), c(8, 9)));
    for (i, ch) in "Gutter".chars().enumerate() {
        let mut coord = c(i as u16, 0);
        code_view.set(&mut screen, coord, cell(ch));
        coord.column += 1;
        code_view.set(&mut screen, coord, cell('|'));
        // shove 3 spaces for identation.
        for _ in 0..4 {
            coord.column += 1;
            code_view.set(&mut screen, coord, cell(' '));
        }
        for (j, ch) in "Code..".chars().enumerate() {
            let coord = c(i as u16, (2 + j + (i % 3)) as u16);
            code_view.set(&mut screen, coord, cell(ch));
        }
    }

    assert_eq!(
        text(&screen),
        "|tabs|tabs\n----------\nG|Code..  \nu| Code.. \nt|  Code..\nt|Code..  \ne| Code.. \nr|  Code..\n----------\nstatus bar"
    );
}

#[test]
fn basic_sub_screen_split_print() {
    let mut screen = ScreenBuffer::new(10, 10);
    let sub_screen = screen.as_sub_screen();
    assert_eq!(sub_screen.width(), 10);
    assert_eq!(sub_screen.height(), 10);
    let (sub_screen, status_view) = sub_screen.split_after_line(7);
    assert_eq!(status_view.width(), 10);
    assert_eq!(status_view.height(), 2);
    assert_eq!(sub_screen.width(), 10);
    assert_eq!(sub_screen.height(), 8);

    for (i, ch) in "status bar".chars().enumerate() {
        let mut coord = c(0, i as u16);
        status_view.set(&mut screen, coord, cell('-'));
        coord.line += 1;
        status_view.set(&mut screen, coord, cell(ch));
    }

    let (tabs_view, sub_screen) = sub_screen.split_after_line(1);
    assert_eq!(status_view.width(), 10);
    assert_eq!(status_view.height(), 2);
    assert_eq!(sub_screen.width(), 10);
    assert_eq!(sub_screen.height(), 6);

    for (i, ch) in "|tabs|tabs".chars().enumerate() {
        let mut coord = c(0, i as u16);
        tabs_view.set(&mut screen, coord, cell(ch));
        coord.line += 1;
        tabs_view.set(&mut screen, coord, cell('-'));
    }

    let (gutter_view, code_view) = sub_screen.split_after_col(1);
    assert_eq!(gutter_view.width(), 2);
    assert_eq!(gutter_view.height(), 6);
    assert_eq!(code_view.width(), 8);
    assert_eq!(code_view.height(), 6);

    for (i, ch) in "Gutter".chars().enumerate() {
        let mut coord = c(i as u16, 0);
        gutter_view.set(&mut screen, coord, cell(ch));
        coord.column += 1;
        gutter_view.set(&mut screen, coord, cell('|'));

        // shove 3 spaces for identation.
        coord.column = 0;
        for _ in 0..4 {
            coord.column += 1;
            code_view.set(&mut screen, coord, cell(' '));
        }
        for (j, ch) in "Code..".chars().enumerate() {
            let coord = c(i as u16, (j + (i % 3)) as u16);
            code_view.set(&mut screen, coord, cell(ch));
        }
    }

    assert_eq!(
        text(&screen),
        "|tabs|tabs\n----------\nG|Code..  \nu| Code.. \nt|  Code..\nt|Code..  \ne| Code.. \nr|  Code..\n----------\nstatus bar"
    );
}

#[test]
fn fresh_buffer_has_no_dirty_cells() {
    let screen = ScreenBuffer::new(10, 10);
    let area = ScreenArea::new(ScreenCoord::zero(), c(9, 9));
    for coord in area.iter() {
        assert!(!screen.is_dirty(coord));
    }
}

#[test]
fn writing_a_cell_marks_it_dirty() {
    let mut screen = ScreenBuffer::new(10, 10);
    let coord = c(3, 4);
    assert!(!screen.is_dirty(coord));

    screen.set(coord, cell('x'));

    assert!(screen.is_dirty(coord));
    // Other cells are untouched.
    assert!(!screen.is_dirty(c(3, 5)));
}

#[test]
fn display_on_screen_commits_and_clears_dirty_cells() {
    let mut screen = ScreenBuffer::new(10, 10);
    let coord = c(3, 4);
    screen.set(coord, cell('x'));
    assert!(screen.is_dirty(coord));

    let changes = screen.take_changes();

    assert!(!screen.is_dirty(coord));
    assert_eq!(screen.get(coord).unwrap().grapheme, Grapheme::from_char('x'));
    assert_eq!(changes, vec![(coord, cell('x'))]);
}

#[test]
fn overwriting_a_cell_multiple_times_before_drawing_only_keeps_the_last_write() {
    let mut screen = ScreenBuffer::new(10, 10);
    let coord = c(1, 1);

    screen.set(coord, cell('a'));
    screen.set(coord, cell('b'));
    screen.set(coord, cell('c'));

    let changes = screen.take_changes();

    assert!(!screen.is_dirty(coord));
    assert_eq!(screen.get(coord).unwrap().grapheme, Grapheme::from_char('c'));
    assert_eq!(changes, vec![(coord, cell('c'))]);
}

#[test]
fn rewriting_a_cell_to_its_committed_value_is_not_dirty_after_drawing() {
    let mut screen = ScreenBuffer::new(10, 10);
    let coord = c(2, 2);
    let space = Cell::new(Style::default(), Grapheme::space());

    // The cell already holds a space by default; writing it again doesn't
    // change what's committed, but the write still marks it dirty until the
    // next draw cleans it up.
    screen.set(coord, space.clone());
    assert!(screen.is_dirty(coord));

    let changes = screen.take_changes();

    assert!(!screen.is_dirty(coord));
    // Nothing changed on the terminal: nothing to send.
    assert!(changes.is_empty());
}

#[test]
fn resize_changes_dimensions_and_discards_old_content() {
    let mut screen = ScreenBuffer::new(10, 10);
    screen.set(c(0, 0), cell('x'));
    screen.take_changes();

    assert_eq!(text(&screen), "x");

    screen.resize(5, 20);

    assert_eq!(screen.height(), 5);
    assert_eq!(screen.width(), 20);
    assert_eq!(text(&screen), "");
}

#[test]
fn resize_flushes_pending_writes_before_discarding_them() {
    let mut screen = ScreenBuffer::new(10, 10);
    let coord = c(1, 1);
    // Write a cell but never draw it before resizing.
    screen.set(coord, cell('x'));
    assert!(screen.is_dirty(coord));

    screen.resize(10, 10);

    assert!(!screen.is_dirty(coord));
}

#[test]
fn changes_are_listed_in_screen_order_with_their_coordinates() {
    let mut screen = ScreenBuffer::new(3, 4);
    screen.set(c(2, 1), cell('b'));
    screen.set(c(0, 3), cell('a'));
    let changes = screen.take_changes();
    assert_eq!(changes, vec![(c(0, 3), cell('a')), (c(2, 1), cell('b'))]);
    assert_eq!(screen.display_as_text(), "   a\n    \n b  ");
}

#[test]
fn fill_and_cursor_stay_inside_their_sub_screen() {
    let mut screen = ScreenBuffer::new(3, 4);
    let sub = screen.as_sub_screen().sub_screen(ScreenArea::new(c(1, 1), c(2, 2)));
    sub.fill(&mut screen, &cell('#'));
    sub.set_cursor(&mut screen, c(1, 0));
    assert_eq!(screen.display_as_text(), "    \n ## \n ## ");
    assert_eq!(screen.cursor(), c(2, 1));
    assert!(sub.get(&screen, c(2, 0)).is_none());
    assert_eq!(sub.get(&screen, c(0, 0)).unwrap().grapheme, Grapheme::from_char('#'));
}

#[test]
fn graphemes_join_only_into_one_cluster() {
    let mut g = Grapheme::new();
    assert!(g.push('e'));
    assert!(g.push('\u{301}'));
    assert_eq!(g.as_str(), "e\u{301}");
    assert!(!g.push('x'));
    assert_eq!(g.as_str(), "e\u{301}");
    assert!(!g.push_str("ab"));
    assert_eq!(g.as_str(), "e\u{301}");
    g.clear();
    assert_eq!(g.as_str(), "");
    assert!(Grapheme::try_from_string("ab".to_string()).is_none());
    assert_eq!(Grapheme::try_from_string("\r\n".to_string()).unwrap().as_str(), "\r\n");
}

#[test]
fn a_second_draw_right_after_a_first_sends_nothing() {
    let mut screen = ScreenBuffer::new(3, 4);
    screen.set(c(1, 2), cell('z'));
    let shown_before = screen.display_as_text();
    assert_eq!(screen.take_changes().len(), 1);
    assert_eq!(screen.display_as_text(), shown_before);
    assert!(screen.take_changes().is_empty());
}

#[test]
fn a_write_reads_back_and_leaves_other_cells_alone() {
    let mut screen = ScreenBuffer::new(3, 4);
    screen.set(c(0, 0), cell('a'));
    screen.set(c(2, 3), cell('b'));
    assert_eq!(screen.get(c(2, 3)).unwrap(), &cell('b'));
    assert_eq!(screen.get(c(0, 0)).unwrap(), &cell('a'));
    assert_eq!(screen.get(c(1, 1)).unwrap().grapheme, Grapheme::space());
    assert!(screen.get(c(3, 0)).is_none());
}
