use keyed_editor::action::{Action, Anchor, DeleteDirection, Direction};
use keyed_editor::editor::{event_to_action, Cursor, InputEvent, KeyCode};
use keyed_editor::geo::{ScreenArea, ScreenCoord};
use keyed_editor::mode::Mode;
use keyed_editor::screen::{layout, STATUS_HEIGHT, TAB_HEIGHT};

#[test]
fn layout_reserves_the_tab_line_and_status_bar_around_the_code_area() {
    let area = ScreenArea::new(ScreenCoord::zero(), ScreenCoord { line: 9, column: 19 });
    let (tab, code, status) = layout(area);

    assert_eq!(tab.width(), 20);
    assert_eq!(tab.height(), TAB_HEIGHT);

    assert_eq!(code.width(), 20);
    assert_eq!(code.height(), 10 - TAB_HEIGHT - STATUS_HEIGHT);

    assert_eq!(status.width(), 20);
    assert_eq!(status.height(), STATUS_HEIGHT);
}

#[test]
fn keys_in_normal_mode_are_commands() {
    let key = |k| event_to_action(Mode::Normal, InputEvent::Key(k));
    assert_eq!(key(KeyCode::Char('q')), Some(Action::Quit));
    assert_eq!(key(KeyCode::Char('i')), Some(Action::ChangeMode(Mode::Insert)));
    assert_eq!(key(KeyCode::Char(' ')), Some(Action::OpenPopup));
    assert_eq!(key(KeyCode::Char('x')), None);
    assert_eq!(key(KeyCode::Enter), None);
    assert_eq!(key(KeyCode::Tab), None);
    assert_eq!(key(KeyCode::Backspace), Some(Action::Delete(DeleteDirection::Left)));
    assert_eq!(key(KeyCode::Left), Some(Action::MoveAnchor(Anchor::Head, Direction::Left)));
    assert_eq!(key(KeyCode::Home), Some(Action::MoveAnchor(Anchor::Head, Direction::StartOfLine)));
    assert_eq!(key(KeyCode::F(3)), None);
}

#[test]
fn keys_in_insert_mode_insert_text() {
    let key = |k| event_to_action(Mode::Insert, InputEvent::Key(k));
    assert_eq!(key(KeyCode::Char('q')), Some(Action::Insert('q')));
    assert_eq!(key(KeyCode::Enter), Some(Action::Insert('\n')));
    assert_eq!(key(KeyCode::Tab), Some(Action::Insert('\t')));
    assert_eq!(key(KeyCode::Esc), Some(Action::ChangeMode(Mode::Normal)));
}

#[test]
fn other_events() {
    assert_eq!(event_to_action(Mode::Normal, InputEvent::FocusGained), Some(Action::FocusGained));
    assert_eq!(event_to_action(Mode::Normal, InputEvent::Resize(3, 4)), Some(Action::Redraw));
    assert_eq!(event_to_action(Mode::Normal, InputEvent::Mouse), None);
    assert_eq!(
        event_to_action(Mode::Normal, InputEvent::Paste("hi".to_string())),
        Some(Action::PasteRawString("hi".to_string()))
    );
}

#[test]
fn cursors_are_ordered_by_line_then_column() {
    let a = Cursor { line: 1, column: 9 };
    let b = Cursor { line: 2, column: 0 };
    assert!(a < b);
    assert!(a.is_before(&b));
    assert!(!b.is_before(&a));
    assert!(Cursor { line: 2, column: 1 } > b);
    assert_eq!(b.to_screen_coord(1), ScreenCoord { line: 1, column: 0 });
}
