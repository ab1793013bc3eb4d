use keyed_editor::config::{
    default_config_kdl, inline_theme, resolve_chain, parse_config_text, theme_source, theme_without_base_dir, ConfigLayer,
    ConfigParseError, StatusBarConfig, ThemeSource,
};
use keyed_editor::document::get_node;
use keyed_editor::theme::{parse_color, Color, Style, Theme, ThemeParseError};

/// Reads a layer from raw text, which has no directory to read theme files
/// from and no bundled theme to name.
fn parse_raw(input: &str) -> Result<ConfigLayer, ConfigParseError> {
    let document = parse_config_text(input)?;
    let theme = get_node(&document, "theme").map(|node| match theme_source(node) {
        ThemeSource::Named(path) => Err(theme_without_base_dir(&path)),
        ThemeSource::Inline => inline_theme(node),
    });
    ConfigLayer::from_document(&document, theme)
}

fn empty_layer() -> ConfigLayer {
    ConfigLayer { status_bar: StatusBarConfig { animation_speed: None }, theme: None, soft_wrap: None }
}

fn default_layer() -> ConfigLayer {
    parse_raw(default_config_kdl()).unwrap()
}

fn parse_theme(input: &str) -> Result<Theme, ThemeParseError> {
    let document: kdl::KdlDocument = input.parse().unwrap();
    Theme::parse(&document)
}

#[test]
fn default_layer_parses() {
    // The bundled file stays valid and sets every field.
    let layer = parse_raw(default_config_kdl()).unwrap();
    assert!(layer.status_bar.animation_speed.is_some());
    assert!(layer.theme.is_some());
    assert!(layer.soft_wrap.is_some());
}

#[test]
fn empty_layer_falls_back_to_bundled_default() {
    let layer = resolve_chain(&vec![empty_layer(), default_layer()]);
    assert_eq!(layer.status_bar.animation_speed, Some(500));
}

#[test]
fn child_layer_overrides_parent() {
    let mut child = empty_layer();
    child.status_bar.animation_speed = Some(100);
    let resolved = resolve_chain(&vec![child, default_layer()]);
    assert_eq!(resolved.status_bar.animation_speed, Some(100));
}

#[test]
fn child_layer_falls_through_when_unset() {
    let mut parent = default_layer();
    parent.status_bar.animation_speed = Some(250);
    let resolved = resolve_chain(&vec![empty_layer(), parent]);
    assert_eq!(resolved.status_bar.animation_speed, Some(250));
}

#[test]
fn sibling_layers_sharing_a_parent_dont_affect_each_other() {
    let mut parent = default_layer();
    parent.status_bar.animation_speed = Some(250);
    let mut view_a = vec![empty_layer(), parent];
    let view_b = vec![empty_layer(), parent];

    view_a[0].status_bar.animation_speed = Some(10);

    assert_eq!(resolve_chain(&view_a).status_bar.animation_speed, Some(10));
    assert_eq!(resolve_chain(&view_b).status_bar.animation_speed, Some(250));
}

#[test]
fn load_raw_never_touches_disk() {
    let layer = parse_raw("status_bar { animation_speed 42 }").unwrap();
    let resolved = resolve_chain(&vec![layer, default_layer()]);
    assert_eq!(resolved.status_bar.animation_speed, Some(42));
}

#[test]
fn resolving_reads_every_value_from_the_first_layer_that_sets_it() {
    let mut top = empty_layer();
    top.soft_wrap = Some(true);
    let mut middle = empty_layer();
    middle.status_bar.animation_speed = Some(7);
    middle.soft_wrap = Some(false);
    let resolved = resolve_chain(&vec![top, middle, default_layer()]);
    assert_eq!(resolved.soft_wrap, Some(true));
    assert_eq!(resolved.status_bar.animation_speed, Some(7));
    assert_eq!(resolved.theme, default_layer().theme);
    assert_eq!(resolve_chain(&vec![]), empty_layer());
}

#[test]
fn soft_wrap_defaults_to_false() {
    let layer = parse_raw(default_config_kdl()).unwrap();
    assert_eq!(layer.soft_wrap, Some(false));
}

#[test]
fn parses_status_bar_animation_speed() {
    let layer = parse_raw(
        r#"
        status_bar {
            animation_speed 100
        }
        "#,
    )
    .unwrap();
    assert_eq!(layer.status_bar.animation_speed, Some(100));
}

#[test]
fn empty_input_sets_nothing() {
    let layer = parse_raw("").unwrap();
    assert_eq!(
        format!("{layer:#?}"),
        "ConfigLayer {\n    status_bar: StatusBarConfig {\n        animation_speed: None,\n    },\n    theme: None,\n    soft_wrap: None,\n}"
    );
    assert_eq!(layer, ConfigLayer { status_bar: StatusBarConfig { animation_speed: None }, theme: None, soft_wrap: None });
}

#[test]
fn rejects_non_integer_animation_speed() {
    let err = parse_raw(
        r#"
        status_bar {
            animation_speed "fast"
        }
        "#,
    )
    .unwrap_err();
    assert!(matches!(err, ConfigParseError::InvalidAnimationSpeed { .. }));
    assert_eq!(
        err.message(),
        "`status_bar > animation_speed` must be an integer number of milliseconds, found `fast`"
    );
}

#[test]
fn parses_soft_wrap() {
    let layer = parse_raw("soft_wrap #true").unwrap();
    assert_eq!(layer.soft_wrap, Some(true));
}

#[test]
fn rejects_non_boolean_soft_wrap() {
    let err = parse_raw(r#"soft_wrap "true""#).unwrap_err();
    assert!(matches!(err, ConfigParseError::InvalidSoftWrap { .. }));
}

#[test]
fn parses_an_inline_theme() {
    let layer = parse_raw(
        r#"
        theme {
            ui {
                status_bar {
                    fg "white"
                    bg "dark_grey"
                }
            }
        }
        "#,
    )
    .unwrap();
    let theme = layer.theme.expect("theme was set");
    assert_eq!(
        theme.ui.status_bar,
        Style { fg: Some(Color::White), bg: Some(Color::DarkGrey), ..Default::default() }
    );
}

#[test]
fn a_bare_theme_node_with_no_path_and_no_body_defaults_to_an_empty_theme() {
    let layer = parse_raw("theme").unwrap();
    assert_eq!(layer.theme, Some(Theme::default()));
}

#[test]
fn a_path_like_theme_from_the_default_config_reports_a_default_placeholder() {
    let err = parse_raw(r#"theme "not_a_built_in.kdl""#).unwrap_err();
    let ConfigParseError::ThemeFileIo { path, .. } = err else {
        panic!("expected a ThemeFileIo error, got {err:?}");
    };
    assert_eq!(path, "*default*/theme/not_a_built_in.kdl");
}

#[test]
fn invalid_kdl_is_reported() {
    let err = parse_raw("status_bar {").unwrap_err();
    assert!(matches!(err, ConfigParseError::Kdl(_)));
    assert_eq!(err.message(), "failed to parse the config file: Failed to parse KDL document");
}

#[test]
fn errors_come_in_document_order() {
    // Both the status bar and the theme are wrong: the status bar is reported.
    let err = parse_raw(
        r#"
        status_bar { animation_speed #false }
        theme "elsewhere.kdl"
        soft_wrap 3
        "#,
    )
    .unwrap_err();
    assert_eq!(
        err.message(),
        "`status_bar > animation_speed` must be an integer number of milliseconds, found `#false`"
    );
    let err = parse_raw("theme \"x\"\nsoft_wrap 3").unwrap_err();
    assert_eq!(err.message(), "could not read theme file `*default*/theme/x`: not a built-in theme name");
    let err = parse_raw("soft_wrap 3").unwrap_err();
    assert_eq!(err.message(), "`soft_wrap` must be a boolean, found `3`");
}

#[test]
fn empty_theme_falls_back_to_empty_style_for_every_field() {
    let theme = parse_theme("").unwrap();
    assert_eq!(theme.ui.status_bar, Style::default());
    assert_eq!(theme.ui.popup, Style::default());
    assert_eq!(theme.ui.background, Style::default());
}

#[test]
fn resolves_palette_names() {
    let theme = parse_theme(
        r##"
        palette {
            bg "#282a36"
            fg "#f8f8f2"
        }
        ui {
            status_bar {
                fg "fg"
                bg "bg"
            }
        }
        "##,
    )
    .unwrap();
    let style = theme.ui.status_bar;
    assert_eq!(style.fg, Some(Color::Rgb { r: 0xf8, g: 0xf8, b: 0xf2 }));
    assert_eq!(style.bg, Some(Color::Rgb { r: 0x28, g: 0x2a, b: 0x36 }));
}

#[test]
fn falls_back_to_a_literal_color_when_not_in_the_palette() {
    let theme = parse_theme(
        r#"
        ui {
            popup {
                fg "white"
                bg "dark_grey"
            }
        }
        "#,
    )
    .unwrap();
    let style = theme.ui.popup;
    assert_eq!(style.fg, Some(Color::White));
    assert_eq!(style.bg, Some(Color::DarkGrey));
}

#[test]
fn parses_modifiers() {
    let theme = parse_theme(
        r#"
        ui {
            status_bar {
                bold #true
                italic #true
                underline #true
            }
        }
        "#,
    )
    .unwrap();
    let style = theme.ui.status_bar;
    assert!(style.bold);
    assert!(style.italic);
    assert!(style.underline);
}

#[test]
fn rejects_an_unknown_color_name() {
    let err = parse_theme(
        r#"
        ui {
            status_bar {
                fg "not_a_color"
            }
        }
        "#,
    )
    .unwrap_err();
    assert_eq!(
        err,
        ThemeParseError::InvalidColor { key: "ui.status_bar.fg".to_string(), found: "not_a_color".to_string() }
    );
}

#[test]
fn undefined_fields_default_to_an_empty_style() {
    let theme = parse_theme(
        r#"
        ui {
            status_bar {
                fg "white"
            }
        }
        "#,
    )
    .unwrap();
    assert_eq!(theme.ui.popup, Style::default());
}

#[test]
fn palette_entries_need_a_valid_color() {
    let err = parse_theme("palette { accent }").unwrap_err();
    assert_eq!(err, ThemeParseError::MissingPaletteValue { key: "accent".to_string() });
    assert_eq!(err.message(), "palette entry `accent` is missing a color value");
    let err = parse_theme("palette { accent \"#12\" }").unwrap_err();
    assert_eq!(err, ThemeParseError::InvalidColor { key: "accent".to_string(), found: "#12".to_string() });
}

#[test]
fn later_palette_entries_win() {
    let theme = parse_theme(
        r##"
        palette {
            accent "red"
            accent "blue"
        }
        ui { background { bg "accent" } }
        "##,
    )
    .unwrap();
    assert_eq!(theme.ui.background.bg, Some(Color::Blue));
}

#[test]
fn parse_color_reads_hex_and_names() {
    assert_eq!(parse_color("#ff0080"), Some(Color::Rgb { r: 255, g: 0, b: 128 }));
    assert_eq!(parse_color("#FF0080ignored"), Some(Color::Rgb { r: 255, g: 0, b: 128 }));
    assert_eq!(parse_color("#+f+f+f"), Some(Color::Rgb { r: 15, g: 15, b: 15 }));
    assert_eq!(parse_color("#ff00"), None);
    assert_eq!(parse_color("#gg0000"), None);
    assert_eq!(parse_color("dark_gray"), Some(Color::DarkGrey));
    assert_eq!(parse_color("gray"), Some(Color::Grey));
    assert_eq!(parse_color("Black"), None);
}

#[test]
fn a_theme_file_is_parsed_from_its_text() {
    let theme = keyed_editor::config::theme_from_file_text(
        "dir/theme/custom.kdl",
        r#"ui { status_bar { fg "red" } }"#,
    )
    .unwrap();
    assert_eq!(theme.ui.status_bar.fg, Some(Color::Red));
}

#[test]
fn a_theme_file_that_is_not_kdl_is_reported_as_unreadable() {
    let err = keyed_editor::config::theme_from_file_text("dir/theme/bad.kdl", "ui {").unwrap_err();
    assert_eq!(
        err,
        ConfigParseError::ThemeFileIo {
            path: "dir/theme/bad.kdl".to_string(),
            message: "Failed to parse KDL document".to_string(),
        }
    );
}

#[test]
fn a_theme_file_with_a_bad_color_reports_the_theme_error() {
    let err = keyed_editor::config::theme_from_file_text("t.kdl", r#"ui { popup { bg "nope" } }"#).unwrap_err();
    assert!(matches!(err, ConfigParseError::Theme(_)));
}
