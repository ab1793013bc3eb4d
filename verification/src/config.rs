//! One layer of configuration, read from a `config.kdl` document. Layers
//! are stacked by the application: a value unset in a layer is read from
//! the layer below it.
use vstd::prelude::*;
use kdl::{KdlDocument, KdlError, KdlNode};
use crate::document::{
    arg_of, entry_text, entry_value, first_named, first_arg, get_arg, get_node, kdl_document_view,
    kdl_entry_view, kdl_error_text, kdl_node_view, kdl_parse, node_children, parse_kdl, NodeView, Value, ValueView,
};
use crate::text::push_str;
use crate::theme::{theme_result_view, theme_spec, Theme, ThemeErrorView, ThemeParseError, plain_theme};

verus! {

/// The bundled default configuration, the root of every chain of layers.
/// It sets every field.
pub fn default_config_kdl() -> (r: &'static str)
    ensures
        r@ == "status_bar {\n    animation_speed 500\n}\ntheme\nsoft_wrap #false\n"@,
{
    "status_bar {\n    animation_speed 500\n}\ntheme\nsoft_wrap #false\n"
}

/// The status bar settings of a layer.
#[derive(Debug, Clone, Copy, PartialEq, Eq, Structural)]
pub struct StatusBarConfig {
    /// How long, in milliseconds, an animation step of the status bar lasts.
    pub animation_speed: Option<i64>,
}

/// What one layer sets; `None` leaves the value to the layers below.
#[derive(Debug, Clone, Copy, PartialEq, Eq, Structural)]
pub struct ConfigLayer {
    pub status_bar: StatusBarConfig,
    pub theme: Option<Theme>,
    pub soft_wrap: Option<bool>,
}

impl ConfigLayer {
    /// The layer that sets nothing.
    pub fn empty() -> (r: ConfigLayer)
        ensures
            r == (ConfigLayer { status_bar: StatusBarConfig { animation_speed: None }, theme: None, soft_wrap: None }),
    {
        ConfigLayer { status_bar: StatusBarConfig { animation_speed: None }, theme: None, soft_wrap: None }
    }
}

impl Default for ConfigLayer {
    fn default() -> (r: ConfigLayer)
        ensures
            r == (ConfigLayer { status_bar: StatusBarConfig { animation_speed: None }, theme: None, soft_wrap: None }),
    {
        ConfigLayer::empty()
    }
}

/// Why a layer of configuration was refused.
#[derive(Debug, PartialEq, Eq)]
pub enum ConfigParseError {
    /// The text is not a KDL document.
    Kdl(KdlError),
    InvalidAnimationSpeed { found: String },
    InvalidSoftWrap { found: String },
    Theme(ThemeParseError),
    ThemeFileIo { path: String, message: String },
}

pub enum ConfigErrorView {
    Kdl,
    InvalidAnimationSpeed { found: Seq<char> },
    InvalidSoftWrap { found: Seq<char> },
    Theme(ThemeErrorView),
    ThemeFileIo { path: Seq<char>, message: Seq<char> },
}

impl View for ConfigParseError {
    type V = ConfigErrorView;

    open spec fn view(&self) -> ConfigErrorView {
        match self {
            ConfigParseError::Kdl(_) => ConfigErrorView::Kdl,
            ConfigParseError::InvalidAnimationSpeed { found } => ConfigErrorView::InvalidAnimationSpeed { found: found@ },
            ConfigParseError::InvalidSoftWrap { found } => ConfigErrorView::InvalidSoftWrap { found: found@ },
            ConfigParseError::Theme(e) => ConfigErrorView::Theme(e@),
            ConfigParseError::ThemeFileIo { path, message } => ConfigErrorView::ThemeFileIo {
                path: path@,
                message: message@,
            },
        }
    }
}

/// The message of a configuration error.
pub open spec fn config_error_message(e: ConfigErrorView) -> Seq<char> {
    match e {
        ConfigErrorView::Kdl => "failed to parse the config file: Failed to parse KDL document"@,
        ConfigErrorView::InvalidAnimationSpeed { found } => "`status_bar > animation_speed` must be an integer number of milliseconds, found `"@
            + found + "`"@,
        ConfigErrorView::InvalidSoftWrap { found } => "`soft_wrap` must be a boolean, found `"@ + found + "`"@,
        ConfigErrorView::Theme(t) => crate::theme::theme_error_message(t),
        ConfigErrorView::ThemeFileIo { path, message } => "could not read theme file `"@ + path + "`: "@ + message,
    }
}

impl ConfigParseError {
    /// The message describing this error.
    pub fn message(&self) -> (r: String)
        ensures
            r@ == config_error_message(self@),
    {
        let mut out = String::new();
        match self {
            ConfigParseError::Kdl(_) => {
                push_str(&mut out, "failed to parse the config file: Failed to parse KDL document");
            },
            ConfigParseError::InvalidAnimationSpeed { found } => {
                push_str(&mut out, "`status_bar > animation_speed` must be an integer number of milliseconds, found `");
                push_str(&mut out, found.as_str());
                push_str(&mut out, "`");
            },
            ConfigParseError::InvalidSoftWrap { found } => {
                push_str(&mut out, "`soft_wrap` must be a boolean, found `");
                push_str(&mut out, found.as_str());
                push_str(&mut out, "`");
            },
            ConfigParseError::Theme(t) => {
                out = t.message();
            },
            ConfigParseError::ThemeFileIo { path, message } => {
                push_str(&mut out, "could not read theme file `");
                push_str(&mut out, path.as_str());
                push_str(&mut out, "`: ");
                push_str(&mut out, message.as_str());
            },
        }
        assert(out@ =~= config_error_message(self@));
        out
    }
}

/// Parses the text of a `config.kdl` as a KDL document.
pub fn parse_config_text(input: &str) -> (r: Result<KdlDocument, ConfigParseError>)
    ensures
        match r {
            Ok(doc) => kdl_parse(input@) == Some(kdl_document_view(doc)),
            Err(e) => kdl_parse(input@) is None && e@ == ConfigErrorView::Kdl,
        },
{
    match parse_kdl(input) {
        Ok(doc) => Ok(doc),
        Err(e) => Err(ConfigParseError::Kdl(e)),
    }
}

/// What a top-level `theme` node asks for.
#[derive(Debug, Clone, PartialEq, Eq)]
pub enum ThemeSource {
    /// `theme "name"`: a built-in theme's name, or else the path of a theme
    /// file under the `theme/` directory next to the config file.
    Named(String),
    /// `theme { .. }`: a theme written inline, or a bare `theme`: the plain
    /// theme.
    Inline,
}

pub enum ThemeSourceView {
    Named(Seq<char>),
    Inline,
}

impl View for ThemeSource {
    type V = ThemeSourceView;

    open spec fn view(&self) -> ThemeSourceView {
        match self {
            ThemeSource::Named(s) => ThemeSourceView::Named(s@),
            ThemeSource::Inline => ThemeSourceView::Inline,
        }
    }
}

/// A `theme` node names a theme when its first entry is a string.
pub open spec fn theme_source_spec(node: NodeView) -> ThemeSourceView {
    if node.entries.len() > 0 && node.entries[0].value is String {
        ThemeSourceView::Named(node.entries[0].value->String_0)
    } else {
        ThemeSourceView::Inline
    }
}

/// What the `theme` node `node` asks for.
pub fn theme_source(node: &KdlNode) -> (r: ThemeSource)
    ensures
        r@ == theme_source_spec(kdl_node_view(*node)),
{
    let entries = crate::document::node_entries(node);
    if entries.len() > 0 {
        assert(kdl_entry_view(entries@[0]) == kdl_node_view(*node).entries[0]);
        match entry_value(&entries[0]) {
            Value::String(s) => return ThemeSource::Named(s),
            _ => {},
        }
    }
    ThemeSource::Inline
}

/// The theme written inside a `theme` node: its children parsed as a theme
/// document, or the plain theme when it has none.
pub open spec fn inline_theme_spec(node: NodeView) -> Result<Theme, ConfigErrorView> {
    match node.children {
        Some(c) => match theme_spec(c) {
            Ok(t) => Ok(t),
            Err(e) => Err(ConfigErrorView::Theme(e)),
        },
        None => Ok(plain_theme()),
    }
}

pub open spec fn config_theme_view(r: Result<Theme, ConfigParseError>) -> Result<Theme, ConfigErrorView> {
    match r {
        Ok(t) => Ok(t),
        Err(e) => Err(e@),
    }
}

/// Parses the theme written inside the `theme` node `node`.
pub fn inline_theme(node: &KdlNode) -> (r: Result<Theme, ConfigParseError>)
    ensures
        config_theme_view(r) == inline_theme_spec(kdl_node_view(*node)),
{
    match node_children(node) {
        Some(children) => match Theme::parse(children) {
            Ok(t) => Ok(t),
            Err(e) => Err(ConfigParseError::Theme(e)),
        },
        None => Ok(Theme::plain()),
    }
}

/// The theme written in a theme file whose text is `content`; `path` is how
/// the file is shown in messages. Text that is not a KDL document is
/// reported as a failure to read the file, with KDL's message.
pub open spec fn theme_file_spec(path: Seq<char>, content: Seq<char>) -> Result<Theme, ConfigErrorView> {
    match kdl_parse(content) {
        None => Err(ConfigErrorView::ThemeFileIo { path, message: "Failed to parse KDL document"@ }),
        Some(doc) => match theme_spec(doc) {
            Ok(t) => Ok(t),
            Err(e) => Err(ConfigErrorView::Theme(e)),
        },
    }
}

/// Parses the text `content` of the theme file shown as `path`.
pub fn theme_from_file_text(path: &str, content: &str) -> (r: Result<Theme, ConfigParseError>)
    ensures
        config_theme_view(r) == theme_file_spec(path@, content@),
{
    match parse_kdl(content) {
        Ok(document) => match Theme::parse(&document) {
            Ok(t) => Ok(t),
            Err(e) => Err(ConfigParseError::Theme(e)),
        },
        Err(e) => {
            let mut shown = String::new();
            push_str(&mut shown, path);
            Err(ConfigParseError::ThemeFileIo { path: shown, message: kdl_error_text(&e) })
        },
    }
}

/// How a base directory is shown in messages; the bundled configuration has
/// none.
pub open spec fn display_base_dir_spec(base_dir: Option<Seq<char>>) -> Seq<char> {
    match base_dir {
        Some(dir) => dir,
        None => "*default*"@,
    }
}

/// How the directory `base_dir` (already displayed as text) is shown in
/// messages; `None` stands for the bundled configuration.
pub fn display_base_dir(base_dir: Option<&str>) -> (r: String)
    ensures
        r@ == display_base_dir_spec(
            match base_dir {
                Some(d) => Some(d@),
                None => None,
            },
        ),
{
    let mut out = String::new();
    match base_dir {
        Some(dir) => push_str(&mut out, dir),
        None => push_str(&mut out, "*default*"),
    }
    out
}

/// The error for a theme name that is not built in, in a layer that has no
/// directory to read a theme file from.
pub fn theme_without_base_dir(path: &str) -> (r: ConfigParseError)
    ensures
        r@ == (ConfigErrorView::ThemeFileIo {
            path: "*default*"@ + "/theme/"@ + path@,
            message: "not a built-in theme name"@,
        }),
{
    let mut full = display_base_dir(None);
    push_str(&mut full, "/theme/");
    push_str(&mut full, path);
    let mut message = String::new();
    push_str(&mut message, "not a built-in theme name");
    ConfigParseError::ThemeFileIo { path: full, message }
}

/// The animation speed a document sets, in milliseconds: the first argument
/// of `animation_speed` in the `status_bar` block, an integer (taken modulo
/// 2^64 as an `i64`).
pub open spec fn animation_speed_spec(nodes: Seq<NodeView>) -> Result<Option<i64>, ConfigErrorView> {
    match first_named(nodes, "status_bar"@) {
        Some(n) => match n.children {
            Some(c) => match arg_of(c, "animation_speed"@) {
                Some(e) => match e.value {
                    ValueView::Integer(ms) => Ok(Some(ms as i64)),
                    _ => Err(ConfigErrorView::InvalidAnimationSpeed { found: e.text }),
                },
                None => Ok(None),
            },
            None => Ok(None),
        },
        None => Ok(None),
    }
}

/// The `soft_wrap` setting of a document: the first argument of its
/// `soft_wrap` node, a boolean.
pub open spec fn soft_wrap_spec(nodes: Seq<NodeView>) -> Result<Option<bool>, ConfigErrorView> {
    match arg_of(nodes, "soft_wrap"@) {
        Some(e) => match e.value {
            ValueView::Bool(b) => Ok(Some(b)),
            _ => Err(ConfigErrorView::InvalidSoftWrap { found: e.text }),
        },
        None => Ok(None),
    }
}

/// A layer read from a document whose `theme` node resolved to `theme`
/// (`None` when it has no `theme` node). Errors are reported in document
/// order: the status bar, then the theme, then `soft_wrap`.
pub open spec fn layer_spec(nodes: Seq<NodeView>, theme: Option<Result<Theme, ConfigErrorView>>) -> Result<ConfigLayer, ConfigErrorView> {
    match animation_speed_spec(nodes) {
        Err(e) => Err(e),
        Ok(speed) => match theme {
            Some(Err(e)) => Err(e),
            _ => match soft_wrap_spec(nodes) {
                Err(e) => Err(e),
                Ok(soft_wrap) => Ok(
                    ConfigLayer {
                        status_bar: StatusBarConfig { animation_speed: speed },
                        theme: match theme {
                            Some(Ok(t)) => Some(t),
                            _ => None,
                        },
                        soft_wrap,
                    },
                ),
            },
        },
    }
}

pub open spec fn layer_result_view(r: Result<ConfigLayer, ConfigParseError>) -> Result<ConfigLayer, ConfigErrorView> {
    match r {
        Ok(l) => Ok(l),
        Err(e) => Err(e@),
    }
}

pub open spec fn theme_arg_view(theme: Option<Result<Theme, ConfigParseError>>) -> Option<Result<Theme, ConfigErrorView>> {
    match theme {
        Some(r) => Some(config_theme_view(r)),
        None => None,
    }
}

#[verifier::truncate]
fn millis(ms: i128) -> (r: i64)
    ensures
        r == ms as i64,
{
    ms as i64
}

impl ConfigLayer {
    /// Reads one layer from `document`; `theme` is what its `theme` node
    /// resolved to (see [`theme_source`]), `None` when it has none.
    pub fn from_document(document: &KdlDocument, theme: Option<Result<Theme, ConfigParseError>>) -> (r: Result<ConfigLayer, ConfigParseError>)
        ensures
            layer_result_view(r) == layer_spec(kdl_document_view(*document), theme_arg_view(theme)),
    {
        let mut layer = ConfigLayer::empty();
        match get_node(document, "status_bar") {
            Some(status_bar) => match node_children(status_bar) {
                Some(children) => match get_arg(children, "animation_speed") {
                    Some(entry) => match entry_value(entry) {
                        Value::Integer(ms) => {
                            layer.status_bar.animation_speed = Some(millis(ms));
                        },
                        _ => {
                            return Err(ConfigParseError::InvalidAnimationSpeed { found: entry_text(entry) });
                        },
                    },
                    None => {},
                },
                None => {},
            },
            None => {},
        }
        match theme {
            Some(Ok(t)) => layer.theme = Some(t),
            Some(Err(e)) => return Err(e),
            None => {},
        }
        match get_arg(document, "soft_wrap") {
            Some(entry) => match entry_value(entry) {
                Value::Bool(b) => layer.soft_wrap = Some(b),
                _ => return Err(ConfigParseError::InvalidSoftWrap { found: entry_text(entry) }),
            },
            None => {},
        }
        Ok(layer)
    }
}


// ---------------------------------------------------------------------------
// A chain of layers.
// ---------------------------------------------------------------------------

/// The animation speed the chain `layers` (top layer first) sets: that of
/// the first layer that sets one.
pub open spec fn chain_animation_speed(layers: Seq<ConfigLayer>) -> Option<i64>
    decreases layers.len(),
{
    if layers.len() == 0 {
        None
    } else {
        match chain_animation_speed(layers.drop_last()) {
            Some(v) => Some(v),
            None => layers.last().status_bar.animation_speed,
        }
    }
}

/// The theme the chain `layers` (top layer first) sets.
pub open spec fn chain_theme(layers: Seq<ConfigLayer>) -> Option<Theme>
    decreases layers.len(),
{
    if layers.len() == 0 {
        None
    } else {
        match chain_theme(layers.drop_last()) {
            Some(v) => Some(v),
            None => layers.last().theme,
        }
    }
}

/// The `soft_wrap` setting the chain `layers` (top layer first) sets.
pub open spec fn chain_soft_wrap(layers: Seq<ConfigLayer>) -> Option<bool>
    decreases layers.len(),
{
    if layers.len() == 0 {
        None
    } else {
        match chain_soft_wrap(layers.drop_last()) {
            Some(v) => Some(v),
            None => layers.last().soft_wrap,
        }
    }
}

/// What a chain of layers sets, as one layer.
pub open spec fn chain_spec(layers: Seq<ConfigLayer>) -> ConfigLayer {
    ConfigLayer {
        status_bar: StatusBarConfig { animation_speed: chain_animation_speed(layers) },
        theme: chain_theme(layers),
        soft_wrap: chain_soft_wrap(layers),
    }
}

/// Reads each value of a chain of layers (top layer first) from the first
/// layer that sets it.
pub fn resolve_chain(layers: &Vec<ConfigLayer>) -> (r: ConfigLayer)
    ensures
        r == chain_spec(layers@),
{
    let mut speed: Option<i64> = None;
    let mut theme: Option<Theme> = None;
    let mut soft_wrap: Option<bool> = None;
    let mut i: usize = 0;
    while i < layers.len()
        invariant
            i <= layers@.len(),
            speed == chain_animation_speed(layers@.take(i as int)),
            theme == chain_theme(layers@.take(i as int)),
            soft_wrap == chain_soft_wrap(layers@.take(i as int)),
        decreases layers@.len() - i,
    {
        assert(layers@.take(i + 1).drop_last() =~= layers@.take(i as int));
        let layer = layers[i];
        if speed.is_none() {
            speed = layer.status_bar.animation_speed;
        }
        if theme.is_none() {
            theme = layer.theme;
        }
        if soft_wrap.is_none() {
            soft_wrap = layer.soft_wrap;
        }
        i = i + 1;
    }
    assert(layers@.take(layers@.len() as int) =~= layers@);
    ConfigLayer { status_bar: StatusBarConfig { animation_speed: speed }, theme, soft_wrap }
}

/// A value set by the top layer of a chain is the value of the chain.
pub proof fn lemma_top_layer_wins(layers: Seq<ConfigLayer>)
    requires
        layers.len() > 0,
    ensures
        layers[0].status_bar.animation_speed is Some ==> chain_animation_speed(layers) == layers[0].status_bar.animation_speed,
        layers[0].theme is Some ==> chain_theme(layers) == layers[0].theme,
        layers[0].soft_wrap is Some ==> chain_soft_wrap(layers) == layers[0].soft_wrap,
    decreases layers.len(),
{
    if layers.len() > 1 {
        lemma_top_layer_wins(layers.drop_last());
        assert(layers.drop_last()[0] == layers[0]);
    } else {
        assert(layers.drop_last() =~= Seq::<ConfigLayer>::empty());
        assert(chain_animation_speed(layers.drop_last()) is None);
        assert(chain_theme(layers.drop_last()) is None);
        assert(chain_soft_wrap(layers.drop_last()) is None);
        assert(layers.last() == layers[0]);
    }
}

/// A value the top layer leaves unset is read from the layers below it.
pub proof fn lemma_unset_falls_through(top: ConfigLayer, below: Seq<ConfigLayer>)
    ensures
        top.status_bar.animation_speed is None ==> chain_animation_speed(seq![top] + below) == chain_animation_speed(below),
        top.theme is None ==> chain_theme(seq![top] + below) == chain_theme(below),
        top.soft_wrap is None ==> chain_soft_wrap(seq![top] + below) == chain_soft_wrap(below),
    decreases below.len(),
{
    let whole = seq![top] + below;
    if below.len() == 0 {
        assert(whole.drop_last() =~= Seq::<ConfigLayer>::empty());
        assert(chain_animation_speed(whole.drop_last()) is None);
        assert(chain_theme(whole.drop_last()) is None);
        assert(chain_soft_wrap(whole.drop_last()) is None);
        assert(whole.last() == top);
    } else {
        lemma_unset_falls_through(top, below.drop_last());
        assert(whole.drop_last() =~= seq![top] + below.drop_last());
        assert(whole.last() == below.last());
    }
}

/// A layer that sets nothing, pushed on top of a chain, changes nothing.
pub proof fn lemma_empty_layer_changes_nothing(below: Seq<ConfigLayer>)
    ensures
        chain_spec(seq![ConfigLayer { status_bar: StatusBarConfig { animation_speed: None }, theme: None, soft_wrap: None }] + below)
            == chain_spec(below),
{
    lemma_unset_falls_through(
        ConfigLayer { status_bar: StatusBarConfig { animation_speed: None }, theme: None, soft_wrap: None },
        below,
    );
}

} // verus!
