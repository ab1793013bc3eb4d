//! Positions in a buffer, selections, and what a terminal event asks the
//! editor to do.
use vstd::prelude::*;
use core::cmp::Ordering;
use vstd::std_specs::cmp::PartialOrdSpecImpl;
use crate::action::{Action, ActionView, Anchor, DeleteDirection, Direction};
use crate::geo::ScreenCoord;
use crate::mode::Mode;

verus! {

/// A position in a buffer: a line and a column (in chars), both 0-based.
#[derive(Debug, Default, Clone, Copy, PartialEq, Eq, Structural)]
pub struct Cursor {
    pub line: usize,
    pub column: usize,
}

impl Cursor {
    /// The screen coordinate of this position, for a view whose top line is
    /// `line_offset`. Both parts are taken modulo 2^16.
    #[verifier::truncate]
    pub fn to_screen_coord(self, line_offset: usize) -> (r: ScreenCoord)
        requires
            line_offset <= self.line,
        ensures
            r == (ScreenCoord { line: (self.line - line_offset) as u16, column: self.column as u16 }),
    {
        ScreenCoord { line: (self.line - line_offset) as u16, column: self.column as u16 }
    }
}

/// Positions are ordered by line, then by column.
pub open spec fn cursor_order(a: Cursor, b: Cursor) -> Option<Ordering> {
    if a.line < b.line {
        Some(Ordering::Less)
    } else if a.line > b.line {
        Some(Ordering::Greater)
    } else if a.column < b.column {
        Some(Ordering::Less)
    } else if a.column > b.column {
        Some(Ordering::Greater)
    } else {
        Some(Ordering::Equal)
    }
}

/// `a` comes before `b`: on an earlier line, or earlier on the same line.
pub open spec fn cursor_before(a: Cursor, b: Cursor) -> bool {
    a.line < b.line || (a.line == b.line && a.column < b.column)
}

pub proof fn lemma_cursor_before(a: Cursor, b: Cursor)
    ensures
        cursor_before(a, b) <==> cursor_order(a, b) == Some(Ordering::Less),
{
}

impl Cursor {
    /// Whether this position comes before `other` (`self < other`).
    pub fn is_before(&self, other: &Cursor) -> (r: bool)
        ensures
            r == cursor_before(*self, *other),
    {
        proof {
            lemma_cursor_before(*self, *other);
        }
        *self < *other
    }
}

impl PartialOrd for Cursor {
    fn partial_cmp(&self, other: &Self) -> (r: Option<Ordering>) {
        if self.line < other.line {
            Some(Ordering::Less)
        } else if self.line > other.line {
            Some(Ordering::Greater)
        } else if self.column < other.column {
            Some(Ordering::Less)
        } else if self.column > other.column {
            Some(Ordering::Greater)
        } else {
            Some(Ordering::Equal)
        }
    }
}

impl PartialOrdSpecImpl for Cursor {
    open spec fn obeys_partial_cmp_spec() -> bool {
        true
    }

    open spec fn partial_cmp_spec(&self, other: &Self) -> Option<Ordering> {
        cursor_order(*self, *other)
    }
}

/// A selection: where it started (`tail`) and where it ends (`head`).
#[derive(Debug, Default, Clone, Copy, PartialEq, Eq, Structural)]
pub struct Selection {
    pub tail: Cursor,
    pub head: Cursor,
}

/// How moving an anchor changes the selection.
#[derive(Debug, Default, Copy, Clone, PartialEq, Eq, Structural)]
pub enum SelectionMode {
    /// The selection collapses onto the moved anchor.
    #[default]
    Char,
}

/// What the editor has to do after an action.
#[derive(Debug, Copy, Clone, PartialEq, Eq, Structural)]
pub enum ActionResult {
    Redraw,
    Exit,
    Nothing,
}

/// A key of the keyboard, as the terminal reports it.
#[derive(Debug, Copy, Clone, PartialEq, Eq, Structural)]
pub enum KeyCode {
    Backspace,
    Enter,
    Left,
    Right,
    Up,
    Down,
    Home,
    End,
    PageUp,
    PageDown,
    Tab,
    BackTab,
    Delete,
    Insert,
    F(u8),
    Char(char),
    Null,
    Esc,
    CapsLock,
    ScrollLock,
    NumLock,
    PrintScreen,
    Pause,
    Menu,
    KeypadBegin,
    /// A media key.
    Media,
    /// A modifier key pressed on its own.
    Modifier,
}

/// A terminal event.
#[derive(Debug, Clone, PartialEq, Eq)]
pub enum InputEvent {
    FocusGained,
    FocusLost,
    Key(KeyCode),
    Mouse,
    Paste(String),
    Resize(u16, u16),
}

pub enum InputEventView {
    FocusGained,
    FocusLost,
    Key(KeyCode),
    Mouse,
    Paste(Seq<char>),
    Resize(u16, u16),
}

impl View for InputEvent {
    type V = InputEventView;

    open spec fn view(&self) -> InputEventView {
        match self {
            InputEvent::FocusGained => InputEventView::FocusGained,
            InputEvent::FocusLost => InputEventView::FocusLost,
            InputEvent::Key(k) => InputEventView::Key(*k),
            InputEvent::Mouse => InputEventView::Mouse,
            InputEvent::Paste(s) => InputEventView::Paste(s@),
            InputEvent::Resize(w, h) => InputEventView::Resize(*w, *h),
        }
    }
}

/// The keys for which no action is decided yet.
pub open spec fn undecided_key(k: KeyCode) -> bool {
    k is BackTab || k is Media || k is Modifier
}

/// The action a key asks for in `mode`.
pub open spec fn key_action(mode: Mode, k: KeyCode) -> Option<ActionView> {
    match k {
        KeyCode::Backspace => Some(ActionView::Delete(DeleteDirection::Left)),
        KeyCode::Delete => Some(ActionView::Delete(DeleteDirection::Right)),
        KeyCode::Enter => if mode == Mode::Insert {
            Some(ActionView::Insert('\n'))
        } else {
            None
        },
        KeyCode::Left => Some(ActionView::MoveAnchor(Anchor::Head, Direction::Left)),
        KeyCode::Right => Some(ActionView::MoveAnchor(Anchor::Head, Direction::Right)),
        KeyCode::Up => Some(ActionView::MoveAnchor(Anchor::Head, Direction::Up)),
        KeyCode::Down => Some(ActionView::MoveAnchor(Anchor::Head, Direction::Down)),
        KeyCode::Home => Some(ActionView::MoveAnchor(Anchor::Head, Direction::StartOfLine)),
        KeyCode::End => Some(ActionView::MoveAnchor(Anchor::Head, Direction::EndOfLine)),
        KeyCode::PageUp => Some(ActionView::MoveAnchor(Anchor::Head, Direction::PageUp)),
        KeyCode::PageDown => Some(ActionView::MoveAnchor(Anchor::Head, Direction::PageDown)),
        KeyCode::Tab => if mode == Mode::Insert {
            Some(ActionView::Insert('\t'))
        } else {
            None
        },
        KeyCode::Insert => Some(ActionView::ChangeMode(Mode::Insert)),
        KeyCode::Char(c) => if mode == Mode::Insert {
            Some(ActionView::Insert(c))
        } else if c == 'q' {
            Some(ActionView::Quit)
        } else if c == 'i' {
            Some(ActionView::ChangeMode(Mode::Insert))
        } else if c == ' ' {
            Some(ActionView::OpenPopup)
        } else {
            None
        },
        KeyCode::Esc => Some(ActionView::ChangeMode(Mode::Normal)),
        _ => None,
    }
}

/// The action an event asks for in `mode`.
pub open spec fn event_action(mode: Mode, e: InputEventView) -> Option<ActionView> {
    match e {
        InputEventView::FocusGained => Some(ActionView::FocusGained),
        InputEventView::FocusLost => Some(ActionView::FocusLost),
        InputEventView::Key(k) => key_action(mode, k),
        InputEventView::Mouse => None,
        InputEventView::Paste(s) => Some(ActionView::PasteRawString(s)),
        InputEventView::Resize(_, _) => Some(ActionView::Redraw),
    }
}

pub open spec fn opt_action(a: Option<Action>) -> Option<ActionView> {
    match a {
        Some(a) => Some(a@),
        None => None,
    }
}

/// The action a terminal event asks for while the editor is in `mode`.
pub fn event_to_action(mode: Mode, event: InputEvent) -> (r: Option<Action>)
    requires
        !(event@ matches InputEventView::Key(k) && undecided_key(k)),
    ensures
        opt_action(r) == event_action(mode, event@),
{
    match event {
        InputEvent::FocusGained => Some(Action::FocusGained),
        InputEvent::FocusLost => Some(Action::FocusLost),
        InputEvent::Key(code) => match code {
            KeyCode::Backspace => Some(Action::Delete(DeleteDirection::Left)),
            KeyCode::Delete => Some(Action::Delete(DeleteDirection::Right)),
            KeyCode::Enter => if mode == Mode::Insert {
                Some(Action::Insert('\n'))
            } else {
                None
            },
            KeyCode::Left => Some(Action::MoveAnchor(Anchor::Head, Direction::Left)),
            KeyCode::Right => Some(Action::MoveAnchor(Anchor::Head, Direction::Right)),
            KeyCode::Up => Some(Action::MoveAnchor(Anchor::Head, Direction::Up)),
            KeyCode::Down => Some(Action::MoveAnchor(Anchor::Head, Direction::Down)),
            KeyCode::Home => Some(Action::MoveAnchor(Anchor::Head, Direction::StartOfLine)),
            KeyCode::End => Some(Action::MoveAnchor(Anchor::Head, Direction::EndOfLine)),
            KeyCode::PageUp => Some(Action::MoveAnchor(Anchor::Head, Direction::PageUp)),
            KeyCode::PageDown => Some(Action::MoveAnchor(Anchor::Head, Direction::PageDown)),
            KeyCode::Tab => if mode == Mode::Insert {
                Some(Action::Insert('\t'))
            } else {
                None
            },
            KeyCode::Insert => Some(Action::ChangeMode(Mode::Insert)),
            KeyCode::Char(c) => if mode == Mode::Insert {
                Some(Action::Insert(c))
            } else if c == 'q' {
                Some(Action::Quit)
            } else if c == 'i' {
                Some(Action::ChangeMode(Mode::Insert))
            } else if c == ' ' {
                Some(Action::OpenPopup)
            } else {
                None
            },
            KeyCode::Esc => Some(Action::ChangeMode(Mode::Normal)),
            _ => None,
        },
        InputEvent::Mouse => None,
        InputEvent::Paste(content) => Some(Action::PasteRawString(content)),
        InputEvent::Resize(_, _) => Some(Action::Redraw),
    }
}

} // verus!
