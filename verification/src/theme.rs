//! Themes: the colors and text attributes of each themable element, read
//! from a KDL document with an optional palette of named colors.
use vstd::prelude::*;
use kdl::{KdlDocument, KdlEntry, KdlNode};
use crate::document::{
    arg_of, document_nodes, entry_text, entry_value, first_named, get_arg, get_node,
    kdl_document_view, kdl_entry_view, kdl_node_view, node_children, node_entries, node_name,
    EntryView, NodeView, Value, ValueView,
};
use crate::text::{chars_of, push_str, str_eq};

verus! {

/// A terminal color.
#[derive(Debug, Clone, Copy, PartialEq, Eq, Structural)]
pub enum Color {
    Black,
    DarkGrey,
    Red,
    DarkRed,
    Green,
    DarkGreen,
    Yellow,
    DarkYellow,
    Blue,
    DarkBlue,
    Magenta,
    DarkMagenta,
    Cyan,
    DarkCyan,
    White,
    Grey,
    Rgb { r: u8, g: u8, b: u8 },
}

/// The style applied to one themable element. A color left unset falls
/// back to the terminal's own default.
#[derive(Debug, Clone, Copy, PartialEq, Eq, Structural)]
pub struct Style {
    pub fg: Option<Color>,
    pub bg: Option<Color>,
    pub bold: bool,
    pub italic: bool,
    pub underline: bool,
}

/// The themable elements of the interface.
#[derive(Debug, Clone, Copy, PartialEq, Eq, Structural)]
pub struct UiTheme {
    pub background: Style,
    pub status_bar: Style,
    pub popup: Style,
}

/// A theme. Every themable element is a field, grouped as the sections of
/// the theme's KDL document are (`ui { status_bar { .. } }` is
/// `theme.ui.status_bar`).
#[derive(Debug, Clone, Copy, PartialEq, Eq, Structural)]
pub struct Theme {
    pub ui: UiTheme,
}

/// The style with no color and no attribute.
pub open spec fn plain_style() -> Style {
    Style { fg: None, bg: None, bold: false, italic: false, underline: false }
}

impl Style {
    /// The style with no color and no attribute.
    pub fn plain() -> (r: Style)
        ensures
            r == plain_style(),
    {
        Style { fg: None, bg: None, bold: false, italic: false, underline: false }
    }
}

impl Default for Style {
    fn default() -> (r: Style)
        ensures
            r == plain_style(),
    {
        Style::plain()
    }
}

/// The theme where every element has the plain style.
pub open spec fn plain_theme() -> Theme {
    Theme { ui: UiTheme { background: plain_style(), status_bar: plain_style(), popup: plain_style() } }
}

impl Theme {
    /// The theme where every element has the plain style.
    pub fn plain() -> (r: Theme)
        ensures
            r == plain_theme(),
    {
        Theme { ui: UiTheme { background: Style::plain(), status_bar: Style::plain(), popup: Style::plain() } }
    }
}

impl Default for Theme {
    fn default() -> (r: Theme)
        ensures
            r == plain_theme(),
    {
        Theme::plain()
    }
}

impl Default for UiTheme {
    fn default() -> (r: UiTheme)
        ensures
            r == plain_theme().ui,
    {
        Theme::plain().ui
    }
}

/// Why a theme was refused.
#[derive(Debug, Clone, PartialEq, Eq)]
pub enum ThemeParseError {
    MissingPaletteValue { key: String },
    InvalidColor { key: String, found: String },
}

pub enum ThemeErrorView {
    MissingPaletteValue { key: Seq<char> },
    InvalidColor { key: Seq<char>, found: Seq<char> },
}

impl View for ThemeParseError {
    type V = ThemeErrorView;

    open spec fn view(&self) -> ThemeErrorView {
        match self {
            ThemeParseError::MissingPaletteValue { key } => ThemeErrorView::MissingPaletteValue { key: key@ },
            ThemeParseError::InvalidColor { key, found } => ThemeErrorView::InvalidColor { key: key@, found: found@ },
        }
    }
}

/// The message of a theme error.
pub open spec fn theme_error_message(e: ThemeErrorView) -> Seq<char> {
    match e {
        ThemeErrorView::MissingPaletteValue { key } => "palette entry `"@ + key + "` is missing a color value"@,
        ThemeErrorView::InvalidColor { key, found } => "`"@ + key + "` must be a color name or a `#rrggbb` hex value, found `"@
            + found + "`"@,
    }
}

impl ThemeParseError {
    /// The message describing this error.
    pub fn message(&self) -> (r: String)
        ensures
            r@ == theme_error_message(self@),
    {
        let mut out = String::new();
        match self {
            ThemeParseError::MissingPaletteValue { key } => {
                push_str(&mut out, "palette entry `");
                push_str(&mut out, key.as_str());
                push_str(&mut out, "` is missing a color value");
            },
            ThemeParseError::InvalidColor { key, found } => {
                push_str(&mut out, "`");
                push_str(&mut out, key.as_str());
                push_str(&mut out, "` must be a color name or a `#rrggbb` hex value, found `");
                push_str(&mut out, found.as_str());
                push_str(&mut out, "`");
            },
        }
        assert(out@ =~= theme_error_message(self@));
        out
    }
}

// ---------------------------------------------------------------------------
// Colors.
// ---------------------------------------------------------------------------

/// The value of a hexadecimal digit.
pub open spec fn hex_digit(c: char) -> Option<u8> {
    if '0' <= c && c <= '9' {
        Some((c as u32 - '0' as u32) as u8)
    } else if 'a' <= c && c <= 'f' {
        Some((c as u32 - 'a' as u32 + 10) as u8)
    } else if 'A' <= c && c <= 'F' {
        Some((c as u32 - 'A' as u32 + 10) as u8)
    } else {
        None
    }
}

/// A byte written with two chars, as `u8::from_str_radix(_, 16)` reads
/// them: two hex digits, or `+` and one hex digit.
pub open spec fn hex_byte(c0: char, c1: char) -> Option<u8> {
    match hex_digit(c1) {
        None => None,
        Some(low) => if c0 == '+' {
            Some(low)
        } else {
            match hex_digit(c0) {
                Some(high) => Some((high * 16 + low) as u8),
                None => None,
            }
        },
    }
}

/// The color a `#rrggbb` value after the `#` stands for: the first six chars
/// are read as three bytes, anything after them is ignored.
pub open spec fn hex_color(hex: Seq<char>) -> Option<Color> {
    if hex.len() < 6 {
        None
    } else {
        match (hex_byte(hex[0], hex[1]), hex_byte(hex[2], hex[3]), hex_byte(hex[4], hex[5])) {
            (Some(r), Some(g), Some(b)) => Some(Color::Rgb { r, g, b }),
            _ => None,
        }
    }
}

/// The color named `raw`.
pub open spec fn named_color(raw: Seq<char>) -> Option<Color> {
    if raw == "black"@ {
        Some(Color::Black)
    } else if raw == "dark_grey"@ || raw == "dark_gray"@ {
        Some(Color::DarkGrey)
    } else if raw == "red"@ {
        Some(Color::Red)
    } else if raw == "dark_red"@ {
        Some(Color::DarkRed)
    } else if raw == "green"@ {
        Some(Color::Green)
    } else if raw == "dark_green"@ {
        Some(Color::DarkGreen)
    } else if raw == "yellow"@ {
        Some(Color::Yellow)
    } else if raw == "dark_yellow"@ {
        Some(Color::DarkYellow)
    } else if raw == "blue"@ {
        Some(Color::Blue)
    } else if raw == "dark_blue"@ {
        Some(Color::DarkBlue)
    } else if raw == "magenta"@ {
        Some(Color::Magenta)
    } else if raw == "dark_magenta"@ {
        Some(Color::DarkMagenta)
    } else if raw == "cyan"@ {
        Some(Color::Cyan)
    } else if raw == "dark_cyan"@ {
        Some(Color::DarkCyan)
    } else if raw == "white"@ {
        Some(Color::White)
    } else if raw == "grey"@ || raw == "gray"@ {
        Some(Color::Grey)
    } else {
        None
    }
}

/// A color written as `#rrggbb` or by one of the names.
pub open spec fn parse_color_spec(raw: Seq<char>) -> Option<Color> {
    if raw.len() > 0 && raw[0] == '#' {
        hex_color(raw.drop_first())
    } else {
        named_color(raw)
    }
}

/// The name a color is written with; an RGB color has none.
pub open spec fn color_name(c: Color) -> Option<Seq<char>> {
    match c {
        Color::Black => Some("black"@),
        Color::DarkGrey => Some("dark_grey"@),
        Color::Red => Some("red"@),
        Color::DarkRed => Some("dark_red"@),
        Color::Green => Some("green"@),
        Color::DarkGreen => Some("dark_green"@),
        Color::Yellow => Some("yellow"@),
        Color::DarkYellow => Some("dark_yellow"@),
        Color::Blue => Some("blue"@),
        Color::DarkBlue => Some("dark_blue"@),
        Color::Magenta => Some("magenta"@),
        Color::DarkMagenta => Some("dark_magenta"@),
        Color::Cyan => Some("cyan"@),
        Color::DarkCyan => Some("dark_cyan"@),
        Color::White => Some("white"@),
        Color::Grey => Some("grey"@),
        Color::Rgb { .. } => None,
    }
}

/// The second spelling a few colors accept: `dark_gray` and `gray`.
pub open spec fn color_alias(c: Color) -> Option<Seq<char>> {
    match c {
        Color::DarkGrey => Some("dark_gray"@),
        Color::Grey => Some("gray"@),
        _ => None,
    }
}

/// Every color name, and every alias, parses to the color it names.
pub proof fn lemma_color_names_parse_to_their_color(c: Color)
    ensures
        color_name(c) matches Some(n) ==> parse_color_spec(n) == Some(c),
        color_alias(c) matches Some(n) ==> parse_color_spec(n) == Some(c),
{
    reveal_strlit("black");
    reveal_strlit("dark_grey");
    reveal_strlit("dark_gray");
    reveal_strlit("red");
    reveal_strlit("dark_red");
    reveal_strlit("green");
    reveal_strlit("dark_green");
    reveal_strlit("yellow");
    reveal_strlit("dark_yellow");
    reveal_strlit("blue");
    reveal_strlit("dark_blue");
    reveal_strlit("magenta");
    reveal_strlit("dark_magenta");
    reveal_strlit("cyan");
    reveal_strlit("dark_cyan");
    reveal_strlit("white");
    reveal_strlit("grey");
    reveal_strlit("gray");
    match c {
        Color::Black => {
            assert(parse_color_spec("black"@) == Some(c));
        },
        Color::DarkGrey => {
            assert(parse_color_spec("dark_grey"@) == Some(c));
            assert(parse_color_spec("dark_gray"@) == Some(c));
        },
        Color::Red => {
            assert(parse_color_spec("red"@) == Some(c));
        },
        Color::DarkRed => {
            assert(parse_color_spec("dark_red"@) == Some(c));
        },
        Color::Green => {
            assert(parse_color_spec("green"@) == Some(c));
        },
        Color::DarkGreen => {
            assert(parse_color_spec("dark_green"@) == Some(c));
        },
        Color::Yellow => {
            assert(parse_color_spec("yellow"@) == Some(c));
        },
        Color::DarkYellow => {
            assert(parse_color_spec("dark_yellow"@) == Some(c));
        },
        Color::Blue => {
            assert(parse_color_spec("blue"@) == Some(c));
        },
        Color::DarkBlue => {
            assert(parse_color_spec("dark_blue"@) == Some(c));
        },
        Color::Magenta => {
            assert(parse_color_spec("magenta"@) == Some(c));
        },
        Color::DarkMagenta => {
            assert(parse_color_spec("dark_magenta"@) == Some(c));
        },
        Color::Cyan => {
            assert(parse_color_spec("cyan"@) == Some(c));
        },
        Color::DarkCyan => {
            assert(parse_color_spec("dark_cyan"@) == Some(c));
        },
        Color::White => {
            assert(parse_color_spec("white"@) == Some(c));
        },
        Color::Grey => {
            assert(parse_color_spec("grey"@) == Some(c));
            assert(parse_color_spec("gray"@) == Some(c));
        },
        Color::Rgb { .. } => {},
    }
}

/// A word that is not a hex color parses only when it is the name or the
/// alias of the color it gives: two different names never give the same
/// color unless one is the other's alias.
pub proof fn lemma_parsed_names_are_color_names(raw: Seq<char>)
    requires
        !(raw.len() > 0 && raw[0] == '#'),
    ensures
        parse_color_spec(raw) matches Some(c) ==> color_name(c) == Some(raw) || color_alias(c) == Some(raw),
{
}

fn hex_digit_of(c: char) -> (r: Option<u8>)
    ensures
        r == hex_digit(c),
{
    if '0' <= c && c <= '9' {
        Some((c as u32 - '0' as u32) as u8)
    } else if 'a' <= c && c <= 'f' {
        Some((c as u32 - 'a' as u32 + 10) as u8)
    } else if 'A' <= c && c <= 'F' {
        Some((c as u32 - 'A' as u32 + 10) as u8)
    } else {
        None
    }
}

fn hex_byte_of(c0: char, c1: char) -> (r: Option<u8>)
    ensures
        r == hex_byte(c0, c1),
{
    match hex_digit_of(c1) {
        None => None,
        Some(low) => if c0 == '+' {
            Some(low)
        } else {
            match hex_digit_of(c0) {
                Some(high) => Some(high * 16 + low),
                None => None,
            }
        },
    }
}

/// Parses either a `#rrggbb` hex value or one of the color names.
pub fn parse_color(raw: &str) -> (r: Option<Color>)
    ensures
        r == parse_color_spec(raw@),
{
    let chars = chars_of(raw);
    if chars.len() > 0 && chars[0] == '#' {
        if chars.len() < 7 {
            return None;
        }
        let r = hex_byte_of(chars[1], chars[2]);
        let g = hex_byte_of(chars[3], chars[4]);
        let b = hex_byte_of(chars[5], chars[6]);
        proof {
            let hex = raw@.drop_first();
            assert(hex[0] == chars@[1] && hex[1] == chars@[2] && hex[2] == chars@[3]);
            assert(hex[3] == chars@[4] && hex[4] == chars@[5] && hex[5] == chars@[6]);
        }
        return match (r, g, b) {
            (Some(r), Some(g), Some(b)) => Some(Color::Rgb { r, g, b }),
            _ => None,
        };
    }
    if str_eq(raw, "black") {
        Some(Color::Black)
    } else if str_eq(raw, "dark_grey") || str_eq(raw, "dark_gray") {
        Some(Color::DarkGrey)
    } else if str_eq(raw, "red") {
        Some(Color::Red)
    } else if str_eq(raw, "dark_red") {
        Some(Color::DarkRed)
    } else if str_eq(raw, "green") {
        Some(Color::Green)
    } else if str_eq(raw, "dark_green") {
        Some(Color::DarkGreen)
    } else if str_eq(raw, "yellow") {
        Some(Color::Yellow)
    } else if str_eq(raw, "dark_yellow") {
        Some(Color::DarkYellow)
    } else if str_eq(raw, "blue") {
        Some(Color::Blue)
    } else if str_eq(raw, "dark_blue") {
        Some(Color::DarkBlue)
    } else if str_eq(raw, "magenta") {
        Some(Color::Magenta)
    } else if str_eq(raw, "dark_magenta") {
        Some(Color::DarkMagenta)
    } else if str_eq(raw, "cyan") {
        Some(Color::Cyan)
    } else if str_eq(raw, "dark_cyan") {
        Some(Color::DarkCyan)
    } else if str_eq(raw, "white") {
        Some(Color::White)
    } else if str_eq(raw, "grey") || str_eq(raw, "gray") {
        Some(Color::Grey)
    } else {
        None
    }
}


// ---------------------------------------------------------------------------
// Palettes and styles.
// ---------------------------------------------------------------------------

/// The named colors of a theme, in the order they were written; a later
/// entry of the same name wins.
pub struct Palette {
    entries: Vec<(String, Color)>,
}

impl View for Palette {
    type V = Seq<(Seq<char>, Color)>;

    closed spec fn view(&self) -> Seq<(Seq<char>, Color)> {
        self.entries@.map_values(|e: (String, Color)| (e.0@, e.1))
    }
}

/// The color named `key` in `palette`: its last entry of that name.
pub open spec fn palette_lookup(palette: Seq<(Seq<char>, Color)>, key: Seq<char>) -> Option<Color>
    decreases palette.len(),
{
    if palette.len() == 0 {
        None
    } else if palette.last().0 == key {
        Some(palette.last().1)
    } else {
        palette_lookup(palette.drop_last(), key)
    }
}

impl Palette {
    pub fn new() -> (r: Palette)
        ensures
            r@ == Seq::<(Seq<char>, Color)>::empty(),
    {
        let r = Palette { entries: Vec::new() };
        assert(r@ =~= Seq::<(Seq<char>, Color)>::empty());
        r
    }

    pub fn insert(&mut self, name: String, color: Color)
        ensures
            final(self)@ == old(self)@.push((name@, color)),
    {
        let ghost n = name@;
        self.entries.push((name, color));
        assert(self@ =~= old(self)@.push((n, color)));
    }

    pub fn get(&self, key: &str) -> (r: Option<Color>)
        ensures
            r == palette_lookup(self@, key@),
    {
        let mut i = self.entries.len();
        assert(self@.take(i as int) =~= self@);
        while i > 0
            invariant
                i <= self.entries@.len(),
                palette_lookup(self@, key@) == palette_lookup(self@.take(i as int), key@),
            decreases i,
        {
            assert(self@.take(i as int).last() == self@[i - 1]);
            assert(self@[i - 1] == (self.entries@[i - 1].0@, self.entries@[i - 1].1));
            if str_eq(self.entries[i - 1].0.as_str(), key) {
                return Some(self.entries[i - 1].1);
            }
            assert(self@.take(i as int).drop_last() =~= self@.take(i - 1));
            i = i - 1;
        }
        None
    }
}

/// The string value of the first entry of a node, if it is a string.
pub open spec fn first_string(entries: Seq<EntryView>) -> Option<Seq<char>> {
    if entries.len() > 0 {
        match entries[0].value {
            ValueView::String(s) => Some(s),
            _ => None,
        }
    } else {
        None
    }
}

/// The palette written by the first `n` children of a `palette` node.
pub open spec fn palette_prefix(nodes: Seq<NodeView>, n: nat) -> Result<Seq<(Seq<char>, Color)>, ThemeErrorView>
    decreases n,
{
    if n == 0 {
        Ok(Seq::empty())
    } else {
        match palette_prefix(nodes, (n - 1) as nat) {
            Err(e) => Err(e),
            Ok(p) => {
                let entry = nodes[n - 1];
                match first_string(entry.entries) {
                    None => Err(ThemeErrorView::MissingPaletteValue { key: entry.name }),
                    Some(v) => match parse_color_spec(v) {
                        None => Err(ThemeErrorView::InvalidColor { key: entry.name, found: v }),
                        Some(c) => Ok(p.push((entry.name, c))),
                    },
                }
            },
        }
    }
}

/// A `palette` node: each child names a color, written as the child's
/// first value.
pub open spec fn palette_spec(node: NodeView) -> Result<Seq<(Seq<char>, Color)>, ThemeErrorView> {
    match node.children {
        None => Ok(Seq::empty()),
        Some(c) => palette_prefix(c, c.len()),
    }
}

/// The color of the entry `e` of the `field` of `key`: a palette name first,
/// then a literal color.
pub open spec fn resolve_color_spec(key: Seq<char>, field: Seq<char>, e: EntryView, palette: Seq<(Seq<char>, Color)>) -> Result<Color, ThemeErrorView> {
    let err = ThemeErrorView::InvalidColor { key: key + "."@ + field, found: e.text };
    match e.value {
        ValueView::String(raw) => match palette_lookup(palette, raw) {
            Some(c) => Ok(c),
            None => match parse_color_spec(raw) {
                Some(c) => Ok(c),
                None => Err(err),
            },
        },
        _ => Err(err),
    }
}

/// The color field `field` of a style block, unset where absent.
pub open spec fn color_field_spec(key: Seq<char>, field: Seq<char>, nodes: Seq<NodeView>, palette: Seq<(Seq<char>, Color)>) -> Result<Option<Color>, ThemeErrorView> {
    match arg_of(nodes, field) {
        Some(e) => match resolve_color_spec(key, field, e, palette) {
            Ok(c) => Ok(Some(c)),
            Err(x) => Err(x),
        },
        None => Ok(None),
    }
}

/// An attribute of a style block: set only by a `#true` argument.
pub open spec fn flag_spec(nodes: Seq<NodeView>, name: Seq<char>) -> bool {
    match arg_of(nodes, name) {
        Some(e) => match e.value {
            ValueView::Bool(b) => b,
            _ => false,
        },
        None => false,
    }
}

/// A style block `node` for the element `key`.
pub open spec fn style_spec(key: Seq<char>, node: NodeView, palette: Seq<(Seq<char>, Color)>) -> Result<Style, ThemeErrorView> {
    match node.children {
        None => Ok(plain_style()),
        Some(c) => match color_field_spec(key, "fg"@, c, palette) {
            Err(x) => Err(x),
            Ok(fg) => match color_field_spec(key, "bg"@, c, palette) {
                Err(x) => Err(x),
                Ok(bg) => Ok(
                    Style {
                        fg,
                        bg,
                        bold: flag_spec(c, "bold"@),
                        italic: flag_spec(c, "italic"@),
                        underline: flag_spec(c, "underline"@),
                    },
                ),
            },
        },
    }
}

/// The style block `name` of `section`, plain where there is none.
pub open spec fn named_style_spec(section: Option<Seq<NodeView>>, key: Seq<char>, name: Seq<char>, palette: Seq<(Seq<char>, Color)>) -> Result<Style, ThemeErrorView> {
    match section {
        None => Ok(plain_style()),
        Some(s) => match first_named(s, name) {
            None => Ok(plain_style()),
            Some(node) => style_spec(key, node, palette),
        },
    }
}

/// The children of the `ui` node, if any.
pub open spec fn ui_section(nodes: Seq<NodeView>) -> Option<Seq<NodeView>> {
    match first_named(nodes, "ui"@) {
        Some(n) => n.children,
        None => None,
    }
}

/// A theme document: an optional `palette`, then the sections.
pub open spec fn theme_spec(nodes: Seq<NodeView>) -> Result<Theme, ThemeErrorView> {
    let palette = match first_named(nodes, "palette"@) {
        Some(n) => palette_spec(n),
        None => Ok(Seq::empty()),
    };
    match palette {
        Err(e) => Err(e),
        Ok(p) => {
            let ui = ui_section(nodes);
            match named_style_spec(ui, "ui.background"@, "background"@, p) {
                Err(e) => Err(e),
                Ok(background) => match named_style_spec(ui, "ui.status_bar"@, "status_bar"@, p) {
                    Err(e) => Err(e),
                    Ok(status_bar) => match named_style_spec(ui, "ui.popup"@, "popup"@, p) {
                        Err(e) => Err(e),
                        Ok(popup) => Ok(Theme { ui: UiTheme { background, status_bar, popup } }),
                    },
                },
            }
        },
    }
}

pub open spec fn theme_result_view(r: Result<Theme, ThemeParseError>) -> Result<Theme, ThemeErrorView> {
    match r {
        Ok(t) => Ok(t),
        Err(e) => Err(e@),
    }
}

pub proof fn lemma_palette_prefix_err(nodes: Seq<NodeView>, k: nat, n: nat)
    requires
        k <= n,
        palette_prefix(nodes, k) is Err,
    ensures
        palette_prefix(nodes, n) == palette_prefix(nodes, k),
    decreases n,
{
    if k < n {
        lemma_palette_prefix_err(nodes, k, (n - 1) as nat);
    }
}

fn owned(s: &str) -> (r: String)
    ensures
        r@ == s@,
{
    let mut out = String::new();
    push_str(&mut out, s);
    out
}

/// Parses a `palette` node into its named colors.
fn parse_palette(node: &KdlNode) -> (r: Result<Palette, ThemeParseError>)
    ensures
        match r {
            Ok(p) => palette_spec(kdl_node_view(*node)) == Ok::<_, ThemeErrorView>(p@),
            Err(e) => palette_spec(kdl_node_view(*node)) == Err::<Seq<(Seq<char>, Color)>, _>(e@),
        },
{
    let mut palette = Palette::new();
    let children = match node_children(node) {
        Some(c) => c,
        None => return Ok(palette),
    };
    let nodes = document_nodes(children);
    let ghost all = kdl_document_view(*children);
    let mut i: usize = 0;
    while i < nodes.len()
        invariant
            i <= nodes@.len() == all.len(),
            all == kdl_document_view(*children),
            kdl_node_view(*node).children == Some(all),
            forall|k: int| 0 <= k < nodes@.len() ==> kdl_node_view(#[trigger] nodes@[k]) == all[k],
            palette_prefix(all, i as nat) == Ok::<_, ThemeErrorView>(palette@),
        decreases nodes@.len() - i,
    {
        let entry = &nodes[i];
        assert(kdl_node_view(*entry) == all[i as int]);
        let name = node_name(entry);
        let entries = node_entries(entry);
        let value = if entries.len() > 0 {
            assert(kdl_entry_view(entries@[0]) == kdl_node_view(*entry).entries[0]);
            match entry_value(&entries[0]) {
                Value::String(s) => Some(s),
                _ => None,
            }
        } else {
            None
        };
        let value = match value {
            Some(v) => v,
            None => {
                proof {
                    lemma_palette_prefix_err(all, (i + 1) as nat, all.len());
                }
                return Err(ThemeParseError::MissingPaletteValue { key: owned(name) });
            },
        };
        let color = match parse_color(value.as_str()) {
            Some(c) => c,
            None => {
                proof {
                    lemma_palette_prefix_err(all, (i + 1) as nat, all.len());
                }
                return Err(ThemeParseError::InvalidColor { key: owned(name), found: value });
            },
        };
        palette.insert(owned(name), color);
        i = i + 1;
    }
    Ok(palette)
}

/// The color of a `fg`/`bg` entry: a palette name first, then a literal.
fn resolve_color(key: &str, field: &str, entry: &KdlEntry, palette: &Palette) -> (r: Result<Color, ThemeParseError>)
    ensures
        match r {
            Ok(c) => resolve_color_spec(key@, field@, kdl_entry_view(*entry), palette@) == Ok::<_, ThemeErrorView>(c),
            Err(e) => resolve_color_spec(key@, field@, kdl_entry_view(*entry), palette@) == Err::<Color, _>(e@),
        },
{
    match entry_value(entry) {
        Value::String(raw) => {
            match palette.get(raw.as_str()) {
                Some(c) => return Ok(c),
                None => {},
            }
            match parse_color(raw.as_str()) {
                Some(c) => return Ok(c),
                None => {},
            }
        },
        _ => {},
    }
    let mut full = owned(key);
    push_str(&mut full, ".");
    push_str(&mut full, field);
    Err(ThemeParseError::InvalidColor { key: full, found: entry_text(entry) })
}

fn color_field(key: &str, field: &str, children: &KdlDocument, palette: &Palette) -> (r: Result<Option<Color>, ThemeParseError>)
    ensures
        match r {
            Ok(c) => color_field_spec(key@, field@, kdl_document_view(*children), palette@) == Ok::<_, ThemeErrorView>(c),
            Err(e) => color_field_spec(key@, field@, kdl_document_view(*children), palette@) == Err::<Option<Color>, _>(e@),
        },
{
    match get_arg(children, field) {
        Some(entry) => match resolve_color(key, field, entry, palette) {
            Ok(c) => Ok(Some(c)),
            Err(e) => Err(e),
        },
        None => Ok(None),
    }
}

fn flag(children: &KdlDocument, name: &str) -> (r: bool)
    ensures
        r == flag_spec(kdl_document_view(*children), name@),
{
    match get_arg(children, name) {
        Some(entry) => match entry_value(entry) {
            Value::Bool(b) => b,
            _ => false,
        },
        None => false,
    }
}

/// Parses a style block (`fg`, `bg`, `bold`, `italic`, `underline`); `key`
/// names the element in error messages.
fn parse_style(key: &str, node: &KdlNode, palette: &Palette) -> (r: Result<Style, ThemeParseError>)
    ensures
        theme_style_view(r) == style_spec(key@, kdl_node_view(*node), palette@),
{
    let children = match node_children(node) {
        Some(c) => c,
        None => return Ok(Style::plain()),
    };
    let fg = match color_field(key, "fg", children, palette) {
        Ok(c) => c,
        Err(e) => return Err(e),
    };
    let bg = match color_field(key, "bg", children, palette) {
        Ok(c) => c,
        Err(e) => return Err(e),
    };
    Ok(
        Style {
            fg,
            bg,
            bold: flag(children, "bold"),
            italic: flag(children, "italic"),
            underline: flag(children, "underline"),
        },
    )
}

pub open spec fn theme_style_view(r: Result<Style, ThemeParseError>) -> Result<Style, ThemeErrorView> {
    match r {
        Ok(s) => Ok(s),
        Err(e) => Err(e@),
    }
}

/// Parses the style block `name` of `section`, or the plain style where
/// `section` or that block is absent.
fn parse_named_style(section: Option<&KdlDocument>, full_key: &str, name: &str, palette: &Palette) -> (r: Result<Style, ThemeParseError>)
    ensures
        theme_style_view(r) == named_style_spec(
            match section {
                Some(d) => Some(kdl_document_view(*d)),
                None => None,
            },
            full_key@,
            name@,
            palette@,
        ),
{
    let doc = match section {
        Some(d) => d,
        None => return Ok(Style::plain()),
    };
    match get_node(doc, name) {
        Some(node) => parse_style(full_key, node, palette),
        None => Ok(Style::plain()),
    }
}

impl Theme {
    /// Parses a theme document: an optional `palette` block of named colors,
    /// then nested sections (`ui { status_bar { fg "..." bg "..." } }`). A
    /// `fg`/`bg` value is looked up in the palette first, and read as a
    /// literal color (`#rrggbb` or a color name) when it isn't there.
    pub fn parse(document: &KdlDocument) -> (r: Result<Theme, ThemeParseError>)
        ensures
            theme_result_view(r) == theme_spec(kdl_document_view(*document)),
    {
        let palette = match get_node(document, "palette") {
            Some(node) => match parse_palette(node) {
                Ok(p) => p,
                Err(e) => return Err(e),
            },
            None => Palette::new(),
        };
        let ui_section = match get_node(document, "ui") {
            Some(node) => node_children(node),
            None => None,
        };
        let background = match parse_named_style(ui_section, "ui.background", "background", &palette) {
            Ok(s) => s,
            Err(e) => return Err(e),
        };
        let status_bar = match parse_named_style(ui_section, "ui.status_bar", "status_bar", &palette) {
            Ok(s) => s,
            Err(e) => return Err(e),
        };
        let popup = match parse_named_style(ui_section, "ui.popup", "popup", &palette) {
            Ok(s) => s,
            Err(e) => return Err(e),
        };
        Ok(Theme { ui: UiTheme { background, status_bar, popup } })
    }
}

} // verus!
