use keyed_editor::action::{Action, DeleteDirection};
use keyed_editor::keymap::{Keymap, KeymapParseError, ModifierKeymap, Modifier, RowKind};
use keyed_editor::location::Location;
use keyed_editor::mode::Mode;

fn parse_result(input: &str) -> Result<Keymap, KeymapParseError> {
    let document: kdl::KdlDocument = input.parse().unwrap();
    Keymap::parse(&document, &Location::root().key("keymap \"test\""))
}

fn parse(input: &str) -> Keymap {
    parse_result(input).unwrap()
}

fn err(input: &str) -> String {
    parse_result(input).unwrap_err().message()
}

#[test]
fn empty_body_defaults_to_an_empty_keymap() {
    assert_eq!(parse(""), Keymap::default());
}

#[test]
fn parses_a_base_row_with_mixed_bound_and_unbound_slots() {
    let keymap = parse(
        r#"
        normal {
            base {
                home "Quit" #null "ChangeMode(Insert)" #null #null #null #null #null #null #null #null #null
            }
        }
        "#,
    );
    let normal = keymap.modes.get(&Mode::Normal).unwrap();
    assert_eq!(normal.resolve(Modifier::Base, RowKind::Home, 0), Some(&Action::Quit));
    assert_eq!(normal.resolve(Modifier::Base, RowKind::Home, 1), None);
    assert_eq!(
        normal.resolve(Modifier::Base, RowKind::Home, 2),
        Some(&Action::ChangeMode(Mode::Insert))
    );
    // Trailing columns are `#null`: explicitly unbound.
    assert_eq!(normal.resolve(Modifier::Base, RowKind::Home, 11), None);
}

#[test]
fn shifted_fallback_reads_through_to_base() {
    let keymap = parse(
        r#"
        normal {
            base { home "Quit" "OpenPopup" #null #null #null #null #null #null #null #null #null #null }
            shifted { home _ "Delete(Left)" #null #null #null #null #null #null #null #null #null #null }
        }
        "#,
    );
    let normal = keymap.modes.get(&Mode::Normal).unwrap();
    // Column 0 falls back to base's `Quit`.
    assert_eq!(normal.resolve(Modifier::Shifted, RowKind::Home, 0), Some(&Action::Quit));
    // Column 1 overrides base's `OpenPopup`.
    assert_eq!(
        normal.resolve(Modifier::Shifted, RowKind::Home, 1),
        Some(&Action::Delete(DeleteDirection::Left))
    );
}

#[test]
fn fallback_in_base_is_a_hard_error() {
    let error = err(
        r#"
        normal {
            base { home _ #null #null #null #null #null #null #null #null #null #null #null }
        }
        "#,
    );
    assert_eq!(
        error,
        r#"`keymap "test" > normal > base > home` entry 0 uses `_`, but `base` has nothing further to fall back to"#
    );
}

#[test]
fn unknown_mode_name_reports_a_suggestion() {
    let error = err(
        r#"
        nromal {
            base { home "Quit" }
        }
        "#,
    );
    assert_eq!(
        error,
        r#"unknown mode `nromal` in `keymap "test" > nromal`, expected one of: Normal, Insert, did you mean `Normal`?"#
    );
}

#[test]
fn unknown_modifier_name_is_an_error() {
    let error = err(
        r#"
        normal {
            pressed { home "Quit" }
        }
        "#,
    );
    assert_eq!(
        error,
        r#"unknown modifier `pressed` in `keymap "test" > normal`, expected one of: base, shifted, alted, ctrled"#
    );
}

#[test]
fn unknown_row_name_is_silently_ignored() {
    let keymap = parse(
        r#"
        normal {
            base { thumb "Quit" }
        }
        "#,
    );
    // Parses without error; `thumb` just isn't a recognized row (yet).
    assert_eq!(keymap.modes.get(&Mode::Normal).unwrap(), &ModifierKeymap::default());
}

#[test]
fn row_over_the_limit_is_an_error() {
    let thirteen = vec!["#null"; 13].join(" ");
    let input = format!(
        r#"
        normal {{
            base {{ home {thirteen} }}
        }}
        "#
    );
    let error = err(&input);
    assert_eq!(
        error,
        r#"`keymap "test" > normal > base > home` has 13 entries, but a row must have 12 entries"#
    );
}

#[test]
fn invalid_row_entry_type_is_an_error() {
    let error = err(
        r#"
        normal {
            base { home 42 #null #null #null #null #null #null #null #null #null #null #null }
        }
        "#,
    );
    assert_eq!(
        error,
        r#"`keymap "test" > normal > base > home` entry 0 must be a string action, `_`, or `#null`, found `42`"#
    );
}

#[test]
fn invalid_action_string_wraps_the_underlying_error() {
    let error = err(
        r#"
        normal {
            base { home "MoveAnchor(Tail)" #null #null #null #null #null #null #null #null #null #null #null }
        }
        "#,
    );
    assert_eq!(
        error,
        r#"invalid action at `keymap "test" > normal > base > home[0]`: expected `,`, found `)` (at 15..15)"#
    );
}

#[test]
fn layer_field_is_parsed_but_otherwise_inert() {
    let keymap = parse(
        r#"
        layer "default"
        normal {
            base { home "Quit" #null #null #null #null #null #null #null #null #null #null #null }
        }
        "#,
    );
    assert_eq!(keymap.layer, Some("default".to_string()));
}

#[test]
fn two_sibling_modes_both_parse() {
    let keymap = parse(
        r#"
        normal {
            base { home "Quit" #null #null #null #null #null #null #null #null #null #null #null }
        }
        insert {
            base { home "ChangeMode(Normal)" #null #null #null #null #null #null #null #null #null #null #null }
        }
        "#,
    );
    assert_eq!(keymap.modes.len(), 2);
    assert!(keymap.modes.contains_key(&Mode::Normal));
    assert!(keymap.modes.contains_key(&Mode::Insert));
}

#[test]
fn a_fallback_over_an_unbound_base_key_is_unbound() {
    let keymap = parse(
        r#"
        insert {
            base { top #null #null #null #null #null #null #null #null #null #null #null #null }
            ctrled { top _ _ #null #null #null #null #null #null #null #null #null "Quit" }
        }
        "#,
    );
    let insert = keymap.modes.get(&Mode::Insert).unwrap();
    assert_eq!(insert.resolve(Modifier::Ctrled, RowKind::Top, 0), None);
    assert_eq!(insert.resolve(Modifier::Ctrled, RowKind::Top, 11), Some(&Action::Quit));
    assert_eq!(insert.resolve(Modifier::Base, RowKind::Top, 11), None);
    assert_eq!(keymap.resolve(Mode::Normal, Modifier::Base, RowKind::Top, 0), None);
    assert_eq!(keymap.resolve(Mode::Insert, Modifier::Ctrled, RowKind::Top, 11), Some(&Action::Quit));
}

#[test]
fn a_row_with_too_few_entries_is_an_error() {
    let error = err(
        r#"
        normal {
            alted { bottom "Quit" }
        }
        "#,
    );
    assert_eq!(
        error,
        r#"`keymap "test" > normal > alted > bottom` has 1 entries, but a row must have 12 entries"#
    );
}

#[test]
fn a_later_block_of_the_same_mode_replaces_the_earlier_one() {
    let keymap = parse(
        r#"
        normal {
            base { home "Quit" #null #null #null #null #null #null #null #null #null #null #null }
        }
        Normal {
            base { home "OpenPopup" #null #null #null #null #null #null #null #null #null #null #null }
        }
        "#,
    );
    assert_eq!(keymap.modes.len(), 1);
    let normal = keymap.modes.get(&Mode::Normal).unwrap();
    assert_eq!(normal.resolve(Modifier::Base, RowKind::Home, 0), Some(&Action::OpenPopup));
}

#[test]
fn location_renders_keys_and_indices() {
    let loc = Location::root().key("keymap").key("normal").index(3).key("base");
    assert_eq!(loc.render(), "keymap > normal[3] > base");
    assert_eq!(Location::root().render(), "");
    assert_eq!(Location::root().index(2).render(), "[2]");
}

#[test]
fn a_modifier_grid_answers_on_its_own_where_base_holds_a_fallback() {
    let mut mk = ModifierKeymap::unbound();
    mk.base.home.0[3] = keyed_editor::keymap::RowEntry::Fallback;
    mk.shifted.home.0[3] = keyed_editor::keymap::RowEntry::Bound(Action::Quit);
    assert_eq!(mk.resolve(Modifier::Shifted, RowKind::Home, 3), Some(&Action::Quit));
    assert_eq!(mk.resolve(Modifier::Alted, RowKind::Home, 3), None);
}
