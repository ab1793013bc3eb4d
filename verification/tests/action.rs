use keyed_editor::action::{Action, Anchor, DeleteDirection, Direction, PasteSource};
use keyed_editor::mode::Mode;

fn parse(s: &str) -> Result<Action, keyed_editor::action::ActionParseError> {
    s.parse::<Action>()
}

#[test]
fn parses_unit_variants() {
    assert_eq!(parse("Quit"), Ok(Action::Quit));
    assert_eq!(parse("FocusGained"), Ok(Action::FocusGained));
    assert_eq!(parse("FocusLost"), Ok(Action::FocusLost));
    assert_eq!(parse("Redraw"), Ok(Action::Redraw));
    assert_eq!(parse("OpenPopup"), Ok(Action::OpenPopup));
}

#[test]
fn parses_paste_raw_string() {
    assert_eq!(
        parse("PasteRawString(\"hello world\")"),
        Ok(Action::PasteRawString("hello world".to_string()))
    );
    assert_eq!(
        parse("PasteRawString(\"say \\\"hi\\\"\")"),
        Ok(Action::PasteRawString("say \"hi\"".to_string()))
    );
}

#[test]
fn parses_paste() {
    assert_eq!(parse("Paste(Internal)"), Ok(Action::Paste(PasteSource::Internal)));
    assert_eq!(parse("Paste(System)"), Ok(Action::Paste(PasteSource::System)));
}

#[test]
fn parses_change_mode() {
    assert_eq!(parse("ChangeMode(Insert)"), Ok(Action::ChangeMode(Mode::Insert)));
    assert_eq!(parse("ChangeMode(Normal)"), Ok(Action::ChangeMode(Mode::Normal)));
}

#[test]
fn parses_insert() {
    assert_eq!(parse("Insert('a')"), Ok(Action::Insert('a')));
    assert_eq!(parse("Insert('\\n')"), Ok(Action::Insert('\n')));
    assert_eq!(parse("Insert('(')"), Ok(Action::Insert('(')));
    assert_eq!(parse("Insert(')')"), Ok(Action::Insert(')')));
}

#[test]
fn parses_delete() {
    assert_eq!(parse("Delete(Left)"), Ok(Action::Delete(DeleteDirection::Left)));
    assert_eq!(parse("Delete(Right)"), Ok(Action::Delete(DeleteDirection::Right)));
}

#[test]
fn parses_move_anchor() {
    assert_eq!(
        parse("MoveAnchor(Tail, Up)"),
        Ok(Action::MoveAnchor(Anchor::Tail, Direction::Up))
    );
}

#[test]
fn tolerates_whitespace() {
    assert_eq!(parse("  ChangeMode ( Insert ) "), Ok(Action::ChangeMode(Mode::Insert)));
    assert_eq!(parse("MoveAnchor(Tail,Up)"), Ok(Action::MoveAnchor(Anchor::Tail, Direction::Up)));
    assert_eq!(parse("MoveAnchor( Tail , Up )"), Ok(Action::MoveAnchor(Anchor::Tail, Direction::Up)));
}

#[test]
fn round_trips_through_debug() {
    let actions = [
        Action::Quit,
        Action::FocusGained,
        Action::FocusLost,
        Action::Redraw,
        Action::OpenPopup,
        Action::PasteRawString("hello world".to_string()),
        Action::Paste(PasteSource::Internal),
        Action::Paste(PasteSource::System),
        Action::ChangeMode(Mode::Insert),
        Action::ChangeMode(Mode::Normal),
        Action::MoveAnchor(Anchor::Tail, Direction::Up),
        Action::MoveAnchor(Anchor::Head, Direction::EndOfLine),
        Action::Insert('a'),
        Action::Insert('\n'),
        Action::Delete(DeleteDirection::Left),
        Action::Delete(DeleteDirection::Right),
    ];

    for action in actions {
        let debug = format!("{action:?}");
        assert_eq!(debug.parse::<Action>().as_ref(), Ok(&action), "round-trip of {debug:?}");
    }
}

fn rendered(input: &str) -> String {
    let err = input.parse::<Action>().unwrap_err();
    err.render(input)
}

#[test]
fn empty_input() {
    assert_eq!(rendered(""), "\n^ unexpected end of input, expected an action name");
}

#[test]
fn unknown_action() {
    assert_eq!(
        rendered("Cuit"),
        "Cuit\n^^^^ unknown action `Cuit`, expected one of: Quit, FocusGained, FocusLost, Redraw, PasteRawString, Paste, ChangeMode, MoveAnchor, Insert, Delete, OpenPopup"
    );
}

#[test]
fn unknown_mode_value() {
    assert_eq!(
        rendered("ChangeMode(Insrt)"),
        "ChangeMode(Insrt)\n           ^^^^^ unknown Mode value `Insrt`, expected one of: Normal, Insert, did you mean `Insert`?"
    );
}

#[test]
fn unknown_mode_value_without_a_close_match() {
    assert_eq!(
        rendered("ChangeMode(Xyz123)"),
        "ChangeMode(Xyz123)\n           ^^^^^^ unknown Mode value `Xyz123`, expected one of: Normal, Insert"
    );
}

#[test]
fn extra_argument() {
    assert_eq!(
        rendered("MoveAnchor(Tail, Up, Down)"),
        "MoveAnchor(Tail, Up, Down)\n                   ^ expected `)`, found `,`"
    );
}

#[test]
fn missing_argument() {
    assert_eq!(
        rendered("MoveAnchor(Tail)"),
        "MoveAnchor(Tail)\n               ^ expected `,`, found `)`"
    );
}

#[test]
fn missing_open_paren() {
    assert_eq!(
        rendered("ChangeMode Insert)"),
        "ChangeMode Insert)\n           ^ expected `(`, found `I`"
    );
}

#[test]
fn missing_close_paren() {
    assert_eq!(
        rendered("ChangeMode(Insert"),
        "ChangeMode(Insert\n                 ^ expected `)`, found end of input"
    );
}

#[test]
fn insert_missing_quotes() {
    assert_eq!(rendered("Insert(a)"), "Insert(a)\n       ^ expected `'`, found `a`");
}

#[test]
fn unterminated_char_literal() {
    assert_eq!(
        rendered("Insert('a"),
        "Insert('a\n         ^ expected `'`, found end of input"
    );
}

#[test]
fn unterminated_string_literal() {
    assert_eq!(
        rendered("PasteRawString(\"unterminated)"),
        "PasteRawString(\"unterminated)\n               ^^^^^^^^^^^^^^ unterminated string literal"
    );
}

#[test]
fn invalid_escape() {
    assert_eq!(
        rendered("Insert('\\q')"),
        "Insert('\\q')\n        ^^ invalid escape sequence `\\q`"
    );
}

#[test]
fn trailing_input() {
    assert_eq!(
        rendered("Quit extra"),
        "Quit extra\n     ^^^^^ trailing input after complete action"
    );
}

#[test]
fn unit_variant_rejects_parens() {
    assert_eq!(rendered("Quit()"), "Quit()\n    ^^ trailing input after complete action");
}

#[test]
fn error_message_names_the_span() {
    let err = "Cuit".parse::<Action>().unwrap_err();
    assert_eq!(err.span.start, 0);
    assert_eq!(err.span.len, 4);
    assert_eq!(
        err.message(),
        "unknown action `Cuit`, expected one of: Quit, FocusGained, FocusLost, Redraw, PasteRawString, Paste, ChangeMode, MoveAnchor, Insert, Delete, OpenPopup (at 0..4)"
    );
}

#[test]
fn mode_names_ignore_ascii_case() {
    assert_eq!(parse("ChangeMode(insert)"), Ok(Action::ChangeMode(Mode::Insert)));
    assert_eq!(parse("ChangeMode(NORMAL)"), Ok(Action::ChangeMode(Mode::Normal)));
    assert_eq!(Mode::Normal.as_str(), "normal");
    assert_eq!(Mode::Insert.as_str(), "insert");
}

#[test]
fn the_canonical_text_is_the_debug_text_and_parses_back() {
    let actions = [
        Action::Quit,
        Action::OpenPopup,
        Action::PasteRawString("say \"hi\"\\\n\t\r\0".to_string()),
        Action::Paste(PasteSource::System),
        Action::ChangeMode(Mode::Normal),
        Action::MoveAnchor(Anchor::Head, Direction::PageDown),
        Action::Insert('\''),
        Action::Insert('"'),
        Action::Insert('\\'),
        Action::Insert('é'),
        Action::Delete(DeleteDirection::Right),
    ];
    for action in actions {
        let text = action.to_text();
        assert_eq!(text, format!("{action:?}"));
        assert_eq!(Action::parse(&text), Ok(action));
    }
}
