//! Positional keymaps: for each mode, four grids (no modifier, shift, alt,
//! ctrl) of three keyboard rows of [`ROW_LEN`] keys, each key bound to an
//! action, explicitly unbound, or falling back to the key without modifier.
use vstd::prelude::*;
use kdl::{KdlDocument, KdlEntry, KdlNode};
use crate::action::{
    join, join_names, mode_names, mode_variants, parse_spec, result_view, Action,
    ActionParseError, ActionView, ParseErrorView, error_message,
};
use crate::document::{
    arg_of, entry_text, entry_value, first_named, get_arg, get_node, kdl_document_view,
    kdl_entry_view, kdl_node_view, node_children, node_entries, node_name, document_nodes,
    entry_name, EntryView, NodeView, Value, ValueView,
};
use crate::location::{render_location, Location, SegmentView};
use crate::mode::{mode_from_name_spec, Mode};
use crate::suggest::{did_you_mean, suggestion};
use crate::text::{chars_of, push_decimal, push_str, str_eq, decimal};

verus! {

/// The number of keys in a [`Row`].
pub const ROW_LEN: usize = 12;

/// The three physical rows of the keyboard.
#[derive(Debug, Clone, Copy, PartialEq, Eq, Structural)]
pub enum RowKind {
    Top,
    Home,
    Bottom,
}

/// Which physical modifier, if any, was held.
#[derive(Debug, Clone, Copy, PartialEq, Eq, Structural)]
pub enum Modifier {
    /// No modifier held.
    Base,
    Shifted,
    Alted,
    Ctrled,
}

/// One key inside a [`Row`].
#[derive(Debug, Clone, PartialEq, Eq)]
pub enum RowEntry {
    /// `#null`: nothing happens.
    Unbound,
    /// `_`: the key of the `base` grid at the same position.
    Fallback,
    /// A parsed [`Action`].
    Bound(Action),
}

/// All the keys of a row.
#[derive(Debug, Clone, PartialEq, Eq)]
pub struct Row(pub [RowEntry; ROW_LEN]);

/// The three rows of one grid.
#[derive(Debug, Clone, PartialEq, Eq)]
pub struct RowSet {
    pub top: Row,
    pub home: Row,
    pub bottom: Row,
}

/// The four grids bound for one [`Mode`]: `base` (no modifier held), plus
/// `shifted`, `alted` and `ctrled`.
#[derive(Debug, Clone, PartialEq, Eq)]
pub struct ModifierKeymap {
    pub base: RowSet,
    pub shifted: RowSet,
    pub alted: RowSet,
    pub ctrled: RowSet,
}

/// The grids of each mode that has some: a map from [`Mode`] to
/// [`ModifierKeymap`], with a slot per mode.
#[derive(Debug, Clone, PartialEq, Eq)]
pub struct ModeMap {
    normal: Option<ModifierKeymap>,
    insert: Option<ModifierKeymap>,
}

/// One keymap layer.
#[derive(Debug, Clone, PartialEq, Eq)]
pub struct Keymap {
    pub modes: ModeMap,
    pub layer: Option<String>,
}

// ---------------------------------------------------------------------------
// Views.
// ---------------------------------------------------------------------------

pub enum RowEntryView {
    Unbound,
    Fallback,
    Bound(ActionView),
}

pub struct RowSetView {
    pub top: Seq<RowEntryView>,
    pub home: Seq<RowEntryView>,
    pub bottom: Seq<RowEntryView>,
}

pub struct ModifierKeymapView {
    pub base: RowSetView,
    pub shifted: RowSetView,
    pub alted: RowSetView,
    pub ctrled: RowSetView,
}

pub struct KeymapView {
    pub modes: Map<Mode, ModifierKeymapView>,
    pub layer: Option<Seq<char>>,
}

impl View for RowEntry {
    type V = RowEntryView;

    open spec fn view(&self) -> RowEntryView {
        match self {
            RowEntry::Unbound => RowEntryView::Unbound,
            RowEntry::Fallback => RowEntryView::Fallback,
            RowEntry::Bound(a) => RowEntryView::Bound(a@),
        }
    }
}

impl View for Row {
    type V = Seq<RowEntryView>;

    open spec fn view(&self) -> Seq<RowEntryView> {
        self.0@.map_values(|e: RowEntry| e@)
    }
}

impl View for RowSet {
    type V = RowSetView;

    open spec fn view(&self) -> RowSetView {
        RowSetView { top: self.top@, home: self.home@, bottom: self.bottom@ }
    }
}

impl View for ModifierKeymap {
    type V = ModifierKeymapView;

    open spec fn view(&self) -> ModifierKeymapView {
        ModifierKeymapView {
            base: self.base@,
            shifted: self.shifted@,
            alted: self.alted@,
            ctrled: self.ctrled@,
        }
    }
}

impl View for ModeMap {
    type V = Map<Mode, ModifierKeymapView>;

    closed spec fn view(&self) -> Map<Mode, ModifierKeymapView> {
        let with_normal = match self.normal {
            Some(k) => Map::empty().insert(Mode::Normal, k@),
            None => Map::empty(),
        };
        match self.insert {
            Some(k) => with_normal.insert(Mode::Insert, k@),
            None => with_normal,
        }
    }
}

pub open spec fn opt_string_view(o: Option<String>) -> Option<Seq<char>> {
    match o {
        Some(s) => Some(s@),
        None => None,
    }
}

impl View for Keymap {
    type V = KeymapView;

    open spec fn view(&self) -> KeymapView {
        KeymapView { modes: self.modes@, layer: opt_string_view(self.layer) }
    }
}

// ---------------------------------------------------------------------------
// Resolving a key.
// ---------------------------------------------------------------------------

/// The grid of `mk` used while `modifier` is held.
pub open spec fn grid_of(mk: ModifierKeymapView, modifier: Modifier) -> RowSetView {
    match modifier {
        Modifier::Base => mk.base,
        Modifier::Shifted => mk.shifted,
        Modifier::Alted => mk.alted,
        Modifier::Ctrled => mk.ctrled,
    }
}

/// The row `kind` of `grid`.
pub open spec fn row_of(grid: RowSetView, kind: RowKind) -> Seq<RowEntryView> {
    match kind {
        RowKind::Top => grid.top,
        RowKind::Home => grid.home,
        RowKind::Bottom => grid.bottom,
    }
}

/// The action bound at `(modifier, row, col)`: a `_` reads the `base`
/// grid at the same position.
pub open spec fn resolve_spec(mk: ModifierKeymapView, modifier: Modifier, row: RowKind, col: int) -> Option<ActionView> {
    match row_of(grid_of(mk, modifier), row)[col] {
        RowEntryView::Bound(a) => Some(a),
        RowEntryView::Unbound => None,
        RowEntryView::Fallback => match row_of(mk.base, row)[col] {
            RowEntryView::Bound(a) => Some(a),
            _ => None,
        },
    }
}

/// Each row kind selects its own row of a grid: `Top` the `top` row, `Home`
/// the `home` row and `Bottom` the `bottom` row.
pub proof fn lemma_row_kinds_select_their_rows(g: RowSetView)
    ensures
        row_of(g, RowKind::Top) == g.top,
        row_of(g, RowKind::Home) == g.home,
        row_of(g, RowKind::Bottom) == g.bottom,
{
}

/// A key bound in a row of the grid of a modifier resolves to that
/// binding: the key at `col` of the `top`, `home` or `bottom` row is what
/// resolving `Top`, `Home` or `Bottom` at `col` gives.
pub proof fn lemma_bound_keys_resolve_to_their_binding(mk: ModifierKeymapView, modifier: Modifier, col: int)
    ensures
        grid_of(mk, modifier).top[col] matches RowEntryView::Bound(a) ==> resolve_spec(mk, modifier, RowKind::Top, col) == Some(a),
        grid_of(mk, modifier).home[col] matches RowEntryView::Bound(a) ==> resolve_spec(mk, modifier, RowKind::Home, col) == Some(a),
        grid_of(mk, modifier).bottom[col] matches RowEntryView::Bound(a) ==> resolve_spec(mk, modifier, RowKind::Bottom, col)
            == Some(a),
{
}

/// No key of the `base` grid is a `_`: it has nothing to fall back to.
pub open spec fn base_is_final(mk: ModifierKeymapView) -> bool {
    forall|kind: RowKind, col: int| 0 <= col < ROW_LEN ==> !(#[trigger] row_of(mk.base, kind)[col] is Fallback)
}

pub open spec fn opt_action_view(r: Option<&Action>) -> Option<ActionView> {
    match r {
        Some(a) => Some(a@),
        None => None,
    }
}

/// A `_` key behaves as the key without modifier at the same position.
pub proof fn lemma_fallback_reads_base(mk: ModifierKeymapView, modifier: Modifier, row: RowKind, col: int)
    requires
        row_of(grid_of(mk, modifier), row)[col] is Fallback,
        !(row_of(mk.base, row)[col] is Fallback),
    ensures
        resolve_spec(mk, modifier, row, col) == resolve_spec(mk, Modifier::Base, row, col),
{
}

/// With every base key final, the key pressed with a modifier resolves to
/// its own binding when it has one, and to the base binding otherwise.
pub proof fn lemma_resolve_is_override_or_base(mk: ModifierKeymapView, modifier: Modifier, row: RowKind, col: int)
    requires
        base_is_final(mk),
        0 <= col < ROW_LEN,
    ensures
        row_of(grid_of(mk, modifier), row)[col] is Fallback ==> resolve_spec(mk, modifier, row, col)
            == resolve_spec(mk, Modifier::Base, row, col),
        !(row_of(grid_of(mk, modifier), row)[col] is Fallback) ==> resolve_spec(mk, modifier, row, col)
            == match row_of(grid_of(mk, modifier), row)[col] {
            RowEntryView::Bound(a) => Some(a),
            _ => None,
        },
{
    assert(!(row_of(mk.base, row)[col] is Fallback));
}

impl Row {
    /// A row with every key unbound.
    pub fn unbound() -> (r: Row)
        ensures
            r@ == empty_row(),
    {
        let r = Row(
            [
                RowEntry::Unbound,
                RowEntry::Unbound,
                RowEntry::Unbound,
                RowEntry::Unbound,
                RowEntry::Unbound,
                RowEntry::Unbound,
                RowEntry::Unbound,
                RowEntry::Unbound,
                RowEntry::Unbound,
                RowEntry::Unbound,
                RowEntry::Unbound,
                RowEntry::Unbound,
            ],
        );
        assert(r@ =~= empty_row());
        r
    }
}

impl Default for Row {
    fn default() -> (r: Row)
        ensures
            r@ == empty_row(),
    {
        Row::unbound()
    }
}

impl RowSet {
    /// A grid with every key unbound.
    pub fn unbound() -> (r: RowSet)
        ensures
            r@ == empty_row_set(),
    {
        RowSet { top: Row::unbound(), home: Row::unbound(), bottom: Row::unbound() }
    }

    fn row(&self, kind: RowKind) -> (r: &Row)
        ensures
            r@ == row_of(self@, kind),
    {
        match kind {
            RowKind::Top => &self.top,
            RowKind::Home => &self.home,
            RowKind::Bottom => &self.bottom,
        }
    }
}

impl Default for RowSet {
    fn default() -> (r: RowSet)
        ensures
            r@ == empty_row_set(),
    {
        RowSet::unbound()
    }
}

impl ModifierKeymap {
    /// Four grids with every key unbound.
    pub fn unbound() -> (r: ModifierKeymap)
        ensures
            r@ == empty_modifier_keymap(),
    {
        ModifierKeymap {
            base: RowSet::unbound(),
            shifted: RowSet::unbound(),
            alted: RowSet::unbound(),
            ctrled: RowSet::unbound(),
        }
    }

    fn grid(&self, modifier: Modifier) -> (r: &RowSet)
        ensures
            r@ == grid_of(self@, modifier),
    {
        match modifier {
            Modifier::Base => &self.base,
            Modifier::Shifted => &self.shifted,
            Modifier::Alted => &self.alted,
            Modifier::Ctrled => &self.ctrled,
        }
    }

    /// The action bound at `(modifier, row, col)`, following a `_` to the
    /// `base` grid when the modifier grid doesn't override this position.
    /// A `_` that leads to a `_` of the base grid has no answer.
    pub fn resolve(&self, modifier: Modifier, row: RowKind, col: usize) -> (r: Option<&Action>)
        requires
            col < ROW_LEN,
            row_of(grid_of(self@, modifier), row)[col as int] is Fallback ==> !(row_of(self@.base, row)[col as int] is Fallback),
        ensures
            opt_action_view(r) == resolve_spec(self@, modifier, row, col as int),
    {
        let entries = &self.grid(modifier).row(row).0;
        assert(entries@[col as int]@ == row_of(grid_of(self@, modifier), row)[col as int]);
        match &entries[col] {
            RowEntry::Bound(action) => Some(action),
            RowEntry::Unbound => None,
            RowEntry::Fallback => {
                let base = &self.base.row(row).0;
                assert(base@[col as int]@ == row_of(self@.base, row)[col as int]);
                match &base[col] {
                    RowEntry::Bound(action) => Some(action),
                    _ => None,
                }
            },
        }
    }
}

impl Default for ModifierKeymap {
    fn default() -> (r: ModifierKeymap)
        ensures
            r@ == empty_modifier_keymap(),
    {
        ModifierKeymap::unbound()
    }
}

impl ModeMap {
    /// The map binding no mode.
    pub fn new() -> (r: ModeMap)
        ensures
            r@ == Map::<Mode, ModifierKeymapView>::empty(),
    {
        let r = ModeMap { normal: None, insert: None };
        assert(r@ =~= Map::<Mode, ModifierKeymapView>::empty());
        r
    }

    /// The grids bound for `mode`, if any.
    pub fn get(&self, mode: &Mode) -> (r: Option<&ModifierKeymap>)
        ensures
            r is Some == self@.contains_key(*mode),
            r matches Some(k) ==> self@[*mode] == k@,
    {
        match mode {
            Mode::Normal => match &self.normal {
                Some(k) => Some(k),
                None => None,
            },
            Mode::Insert => match &self.insert {
                Some(k) => Some(k),
                None => None,
            },
        }
    }

    /// Whether `mode` has grids.
    pub fn contains_key(&self, mode: &Mode) -> (r: bool)
        ensures
            r == self@.contains_key(*mode),
    {
        match mode {
            Mode::Normal => self.normal.is_some(),
            Mode::Insert => self.insert.is_some(),
        }
    }

    /// The number of modes with grids.
    pub fn len(&self) -> (r: usize)
        ensures
            r == self@.len(),
    {
        let ghost empty = Map::<Mode, ModifierKeymapView>::empty();
        proof {
            assert(empty.dom() =~= Set::<Mode>::empty());
        }
        let mut n: usize = 0;
        if self.normal.is_some() {
            n = n + 1;
        }
        if self.insert.is_some() {
            n = n + 1;
        }
        proof {
            let with_normal = if self.normal is Some {
                empty.insert(Mode::Normal, self.normal->0@)
            } else {
                empty
            };
            assert(with_normal.dom().finite());
            assert(!with_normal.dom().contains(Mode::Insert));
        }
        n
    }

    /// Binds `mode` to `keymap`, handing back what it was bound to before.
    pub fn insert(&mut self, mode: Mode, keymap: ModifierKeymap) -> (r: Option<ModifierKeymap>)
        ensures
            final(self)@ == old(self)@.insert(mode, keymap@),
            r is Some == old(self)@.contains_key(mode),
            r matches Some(k) ==> old(self)@[mode] == k@,
    {
        let ghost k = keymap@;
        let prev = match mode {
            Mode::Normal => {
                let prev = self.normal.take();
                self.normal = Some(keymap);
                prev
            },
            Mode::Insert => {
                let prev = self.insert.take();
                self.insert = Some(keymap);
                prev
            },
        };
        assert(self@ =~= old(self)@.insert(mode, k));
        prev
    }
}

impl Default for ModeMap {
    fn default() -> (r: ModeMap)
        ensures
            r@ == Map::<Mode, ModifierKeymapView>::empty(),
    {
        ModeMap::new()
    }
}

/// Every mode's `base` grid is free of `_`.
pub open spec fn keymap_wf(modes: Map<Mode, ModifierKeymapView>) -> bool {
    forall|m: Mode| #[trigger] modes.contains_key(m) ==> base_is_final(modes[m])
}

impl Keymap {
    /// The empty keymap: no mode bound, no layer.
    pub fn empty() -> (r: Keymap)
        ensures
            r@ == (KeymapView { modes: Map::empty(), layer: None }),
    {
        Keymap { modes: ModeMap::new(), layer: None }
    }

    /// The action bound for `mode` at `(modifier, row, col)`.
    pub fn resolve(&self, mode: Mode, modifier: Modifier, row: RowKind, col: usize) -> (r: Option<&Action>)
        requires
            col < ROW_LEN,
            self@.modes.contains_key(mode) && row_of(grid_of(self@.modes[mode], modifier), row)[col as int] is Fallback
                ==> !(row_of(self@.modes[mode].base, row)[col as int] is Fallback),
        ensures
            opt_action_view(r) == (if self@.modes.contains_key(mode) {
                resolve_spec(self@.modes[mode], modifier, row, col as int)
            } else {
                None
            }),
    {
        match self.modes.get(&mode) {
            Some(mk) => mk.resolve(modifier, row, col),
            None => None,
        }
    }
}

impl Default for Keymap {
    fn default() -> (r: Keymap)
        ensures
            r@ == (KeymapView { modes: Map::empty(), layer: None }),
    {
        Keymap::empty()
    }
}

// ---------------------------------------------------------------------------
// Parsing.
// ---------------------------------------------------------------------------

/// Why a keymap was refused.
#[derive(Debug, Clone, PartialEq, Eq)]
pub enum KeymapParseError {
    UnknownMode { location: String, found: String, valid: String, did_you_mean: Option<String> },
    UnknownModifier { location: String, found: String },
    InvalidAction { location: String, source: ActionParseError },
    BadSizedRow { location: String, count: usize },
    InvalidRowEntry { location: String, index: usize, found: String },
    FallbackInBaseGrid { location: String, index: usize },
}

pub enum KeymapErrorView {
    UnknownMode { location: Seq<char>, found: Seq<char>, valid: Seq<char>, did_you_mean: Option<Seq<char>> },
    UnknownModifier { location: Seq<char>, found: Seq<char> },
    InvalidAction { location: Seq<char>, source: ParseErrorView },
    BadSizedRow { location: Seq<char>, count: nat },
    InvalidRowEntry { location: Seq<char>, index: nat, found: Seq<char> },
    FallbackInBaseGrid { location: Seq<char>, index: nat },
}

impl View for KeymapParseError {
    type V = KeymapErrorView;

    open spec fn view(&self) -> KeymapErrorView {
        match self {
            KeymapParseError::UnknownMode { location, found, valid, did_you_mean } => KeymapErrorView::UnknownMode {
                location: location@,
                found: found@,
                valid: valid@,
                did_you_mean: opt_string_view(*did_you_mean),
            },
            KeymapParseError::UnknownModifier { location, found } => KeymapErrorView::UnknownModifier {
                location: location@,
                found: found@,
            },
            KeymapParseError::InvalidAction { location, source } => KeymapErrorView::InvalidAction {
                location: location@,
                source: source@,
            },
            KeymapParseError::BadSizedRow { location, count } => KeymapErrorView::BadSizedRow {
                location: location@,
                count: *count as nat,
            },
            KeymapParseError::InvalidRowEntry { location, index, found } => KeymapErrorView::InvalidRowEntry {
                location: location@,
                index: *index as nat,
                found: found@,
            },
            KeymapParseError::FallbackInBaseGrid { location, index } => KeymapErrorView::FallbackInBaseGrid {
                location: location@,
                index: *index as nat,
            },
        }
    }
}

pub open spec fn empty_row() -> Seq<RowEntryView> {
    Seq::new(ROW_LEN as nat, |_i: int| RowEntryView::Unbound)
}

pub open spec fn empty_row_set() -> RowSetView {
    RowSetView { top: empty_row(), home: empty_row(), bottom: empty_row() }
}

pub open spec fn empty_modifier_keymap() -> ModifierKeymapView {
    ModifierKeymapView {
        base: empty_row_set(),
        shifted: empty_row_set(),
        alted: empty_row_set(),
        ctrled: empty_row_set(),
    }
}

/// The positional entries (arguments) among `entries`, in order.
pub open spec fn positional(entries: Seq<EntryView>) -> Seq<EntryView>
    decreases entries.len(),
{
    if entries.len() == 0 {
        Seq::empty()
    } else {
        let prev = positional(entries.drop_last());
        if entries.last().name is None {
            prev.push(entries.last())
        } else {
            prev
        }
    }
}

/// The key written by the entry at `index` of a row at `loc`.
pub open spec fn row_entry_spec(e: EntryView, loc: Seq<SegmentView>, is_base: bool, index: nat) -> Result<RowEntryView, KeymapErrorView> {
    match e.value {
        ValueView::Null => Ok(RowEntryView::Unbound),
        ValueView::String(s) => if s == "_"@ {
            if is_base {
                Err(KeymapErrorView::FallbackInBaseGrid { location: render_location(loc), index })
            } else {
                Ok(RowEntryView::Fallback)
            }
        } else {
            match parse_spec(s) {
                Ok(a) => Ok(RowEntryView::Bound(a)),
                Err(err) => Err(
                    KeymapErrorView::InvalidAction {
                        location: render_location(loc.push(SegmentView::Index(index))),
                        source: err,
                    },
                ),
            }
        },
        _ => Err(KeymapErrorView::InvalidRowEntry { location: render_location(loc), index, found: e.text }),
    }
}

/// The first `n` keys of a row, or the first error among them.
pub open spec fn row_prefix_spec(pos: Seq<EntryView>, loc: Seq<SegmentView>, is_base: bool, n: nat) -> Result<Seq<RowEntryView>, KeymapErrorView>
    decreases n,
{
    if n == 0 {
        Ok(Seq::empty())
    } else {
        match row_prefix_spec(pos, loc, is_base, (n - 1) as nat) {
            Err(e) => Err(e),
            Ok(keys) => match row_entry_spec(pos[n - 1], loc, is_base, (n - 1) as nat) {
                Ok(k) => Ok(keys.push(k)),
                Err(e) => Err(e),
            },
        }
    }
}

/// A row node: exactly [`ROW_LEN`] positional entries, each `#null`, `_`
/// (outside `base`) or an action.
pub open spec fn row_spec(node: NodeView, loc: Seq<SegmentView>, is_base: bool) -> Result<Seq<RowEntryView>, KeymapErrorView> {
    let pos = positional(node.entries);
    if pos.len() != ROW_LEN {
        Err(KeymapErrorView::BadSizedRow { location: render_location(loc), count: pos.len() })
    } else {
        row_prefix_spec(pos, loc, is_base, ROW_LEN as nat)
    }
}

/// The row named `name` among `nodes`, unbound where there is none.
pub open spec fn named_row_spec(nodes: Seq<NodeView>, name: Seq<char>, loc: Seq<SegmentView>, is_base: bool) -> Result<Seq<RowEntryView>, KeymapErrorView> {
    match first_named(nodes, name) {
        Some(node) => row_spec(node, loc.push(SegmentView::Key(name)), is_base),
        None => Ok(empty_row()),
    }
}

/// A grid: its `top`, `home` and `bottom` rows; other children are ignored.
pub open spec fn row_set_spec(nodes: Seq<NodeView>, loc: Seq<SegmentView>, is_base: bool) -> Result<RowSetView, KeymapErrorView> {
    match named_row_spec(nodes, "top"@, loc, is_base) {
        Err(e) => Err(e),
        Ok(top) => match named_row_spec(nodes, "home"@, loc, is_base) {
            Err(e) => Err(e),
            Ok(home) => match named_row_spec(nodes, "bottom"@, loc, is_base) {
                Err(e) => Err(e),
                Ok(bottom) => Ok(RowSetView { top, home, bottom }),
            },
        },
    }
}

/// The modifier a grid node is named after.
pub open spec fn modifier_named(name: Seq<char>) -> Option<Modifier> {
    if name == "base"@ {
        Some(Modifier::Base)
    } else if name == "shifted"@ {
        Some(Modifier::Shifted)
    } else if name == "alted"@ {
        Some(Modifier::Alted)
    } else if name == "ctrled"@ {
        Some(Modifier::Ctrled)
    } else {
        None
    }
}

/// `mk` with the grid of `modifier` replaced by `grid`.
pub open spec fn with_grid(mk: ModifierKeymapView, modifier: Modifier, grid: RowSetView) -> ModifierKeymapView {
    match modifier {
        Modifier::Base => ModifierKeymapView { base: grid, ..mk },
        Modifier::Shifted => ModifierKeymapView { shifted: grid, ..mk },
        Modifier::Alted => ModifierKeymapView { alted: grid, ..mk },
        Modifier::Ctrled => ModifierKeymapView { ctrled: grid, ..mk },
    }
}

/// The grids written by the first `n` children of a mode block at `loc`.
pub open spec fn modifier_keymap_prefix(nodes: Seq<NodeView>, loc: Seq<SegmentView>, n: nat) -> Result<ModifierKeymapView, KeymapErrorView>
    decreases n,
{
    if n == 0 {
        Ok(empty_modifier_keymap())
    } else {
        match modifier_keymap_prefix(nodes, loc, (n - 1) as nat) {
            Err(e) => Err(e),
            Ok(mk) => {
                let child = nodes[n - 1];
                match modifier_named(child.name) {
                    None => Err(KeymapErrorView::UnknownModifier { location: render_location(loc), found: child.name }),
                    Some(m) => {
                        let grid = match child.children {
                            Some(rows) => row_set_spec(rows, loc.push(SegmentView::Key(child.name)), m == Modifier::Base),
                            None => Ok(empty_row_set()),
                        };
                        match grid {
                            Err(e) => Err(e),
                            Ok(g) => Ok(with_grid(mk, m, g)),
                        }
                    },
                }
            },
        }
    }
}

/// A mode block: `base`, `shifted`, `alted` and `ctrled` grids; any other
/// child is an error. A later grid of the same name replaces an earlier one.
pub open spec fn modifier_keymap_spec(nodes: Seq<NodeView>, loc: Seq<SegmentView>) -> Result<ModifierKeymapView, KeymapErrorView> {
    modifier_keymap_prefix(nodes, loc, nodes.len())
}

/// The `layer` of a keymap body: the first argument of its `layer` node,
/// when that is a string.
pub open spec fn layer_spec(nodes: Seq<NodeView>) -> Option<Seq<char>> {
    match arg_of(nodes, "layer"@) {
        Some(e) => match e.value {
            ValueView::String(s) => Some(s),
            _ => None,
        },
        None => None,
    }
}

/// The modes written by the first `n` children of a keymap body at `loc`.
pub open spec fn keymap_prefix(nodes: Seq<NodeView>, loc: Seq<SegmentView>, n: nat) -> Result<Map<Mode, ModifierKeymapView>, KeymapErrorView>
    decreases n,
{
    if n == 0 {
        Ok(Map::empty())
    } else {
        match keymap_prefix(nodes, loc, (n - 1) as nat) {
            Err(e) => Err(e),
            Ok(modes) => {
                let child = nodes[n - 1];
                if child.name == "layer"@ {
                    Ok(modes)
                } else {
                    let child_loc = loc.push(SegmentView::Key(child.name));
                    match mode_from_name_spec(child.name) {
                        None => Err(
                            KeymapErrorView::UnknownMode {
                                location: render_location(child_loc),
                                found: child.name,
                                valid: join(mode_names(), ", "@),
                                did_you_mean: suggestion(child.name, mode_names()),
                            },
                        ),
                        Some(mode) => {
                            let mk = match child.children {
                                Some(grids) => modifier_keymap_spec(grids, child_loc),
                                None => Ok(empty_modifier_keymap()),
                            };
                            match mk {
                                Err(e) => Err(e),
                                Ok(k) => Ok(modes.insert(mode, k)),
                            }
                        },
                    }
                }
            },
        }
    }
}

/// A keymap body: an optional `layer`, then one block per mode (mode names
/// ignore ASCII case). A later block of the same mode replaces an earlier one.
pub open spec fn keymap_spec(nodes: Seq<NodeView>, loc: Seq<SegmentView>) -> Result<KeymapView, KeymapErrorView> {
    match keymap_prefix(nodes, loc, nodes.len()) {
        Err(e) => Err(e),
        Ok(modes) => Ok(KeymapView { modes, layer: layer_spec(nodes) }),
    }
}

pub open spec fn keymap_result_view(r: Result<Keymap, KeymapParseError>) -> Result<KeymapView, KeymapErrorView> {
    match r {
        Ok(k) => Ok(k@),
        Err(e) => Err(e@),
    }
}


// ---------------------------------------------------------------------------
// What parsing keeps: no `_` in a base grid.
// ---------------------------------------------------------------------------

pub proof fn lemma_row_prefix_shape(pos: Seq<EntryView>, loc: Seq<SegmentView>, is_base: bool, n: nat)
    ensures
        row_prefix_spec(pos, loc, is_base, n) matches Ok(keys) ==> keys.len() == n && (is_base
            ==> forall|k: int| 0 <= k < n ==> !(#[trigger] keys[k] is Fallback)),
    decreases n,
{
    if n > 0 {
        lemma_row_prefix_shape(pos, loc, is_base, (n - 1) as nat);
    }
}

pub proof fn lemma_named_row_shape(nodes: Seq<NodeView>, name: Seq<char>, loc: Seq<SegmentView>, is_base: bool)
    ensures
        named_row_spec(nodes, name, loc, is_base) matches Ok(keys) ==> keys.len() == ROW_LEN && (is_base
            ==> forall|k: int| 0 <= k < ROW_LEN ==> !(#[trigger] keys[k] is Fallback)),
{
    match first_named(nodes, name) {
        Some(node) => {
            lemma_row_prefix_shape(positional(node.entries), loc.push(SegmentView::Key(name)), is_base, ROW_LEN as nat);
        },
        None => {},
    }
}

pub proof fn lemma_base_row_set_final(nodes: Seq<NodeView>, loc: Seq<SegmentView>)
    ensures
        row_set_spec(nodes, loc, true) matches Ok(g) ==> forall|kind: RowKind, col: int|
            0 <= col < ROW_LEN ==> !(#[trigger] row_of(g, kind)[col] is Fallback),
{
    lemma_named_row_shape(nodes, "top"@, loc, true);
    lemma_named_row_shape(nodes, "home"@, loc, true);
    lemma_named_row_shape(nodes, "bottom"@, loc, true);
}

pub proof fn lemma_modifier_keymap_prefix_final(nodes: Seq<NodeView>, loc: Seq<SegmentView>, n: nat)
    ensures
        modifier_keymap_prefix(nodes, loc, n) matches Ok(mk) ==> base_is_final(mk),
    decreases n,
{
    if n > 0 {
        lemma_modifier_keymap_prefix_final(nodes, loc, (n - 1) as nat);
        let child = nodes[n - 1];
        match child.children {
            Some(rows) => lemma_base_row_set_final(rows, loc.push(SegmentView::Key(child.name))),
            None => {},
        }
    }
}

pub proof fn lemma_keymap_prefix_wf(nodes: Seq<NodeView>, loc: Seq<SegmentView>, n: nat)
    ensures
        keymap_prefix(nodes, loc, n) matches Ok(modes) ==> keymap_wf(modes),
    decreases n,
{
    if n > 0 {
        lemma_keymap_prefix_wf(nodes, loc, (n - 1) as nat);
        let child = nodes[n - 1];
        match child.children {
            Some(grids) => {
                let child_loc = loc.push(SegmentView::Key(child.name));
                lemma_modifier_keymap_prefix_final(grids, child_loc, grids.len());
            },
            None => {},
        }
    }
}

/// Every keymap that parses has no `_` in any `base` grid, so resolving a
/// key never falls back from `base`.
pub proof fn lemma_parsed_keymap_wf(nodes: Seq<NodeView>, loc: Seq<SegmentView>)
    ensures
        keymap_spec(nodes, loc) matches Ok(k) ==> keymap_wf(k.modes),
{
    lemma_keymap_prefix_wf(nodes, loc, nodes.len());
}

// ---------------------------------------------------------------------------
// The parser.
// ---------------------------------------------------------------------------

fn owned(s: &str) -> (r: String)
    ensures
        r@ == s@,
{
    let mut out = String::new();
    push_str(&mut out, s);
    out
}

/// Parses the entry at `index` of a row at `location`.
fn parse_row_entry(entry: &KdlEntry, location: &Location, is_base: bool, index: usize) -> (r: Result<RowEntry, KeymapParseError>)
    ensures
        match r {
            Ok(key) => row_entry_spec(kdl_entry_view(*entry), location.segs(), is_base, index as nat) == Ok::<_, KeymapErrorView>(key@),
            Err(e) => row_entry_spec(kdl_entry_view(*entry), location.segs(), is_base, index as nat) == Err::<RowEntryView, _>(e@),
        },
{
    match entry_value(entry) {
        Value::Null => Ok(RowEntry::Unbound),
        Value::String(s) => {
            if str_eq(s.as_str(), "_") {
                if is_base {
                    Err(KeymapParseError::FallbackInBaseGrid { location: location.render(), index })
                } else {
                    Ok(RowEntry::Fallback)
                }
            } else {
                match Action::parse(s.as_str()) {
                    Ok(action) => Ok(RowEntry::Bound(action)),
                    Err(source) => {
                        let at = location.index(index);
                        Err(KeymapParseError::InvalidAction { location: at.render(), source })
                    },
                }
            }
        },
        _ => Err(KeymapParseError::InvalidRowEntry { location: location.render(), index, found: entry_text(entry) }),
    }
}

pub proof fn lemma_row_prefix_err(pos: Seq<EntryView>, loc: Seq<SegmentView>, is_base: bool, k: nat, n: nat)
    requires
        k <= n,
        row_prefix_spec(pos, loc, is_base, k) is Err,
    ensures
        row_prefix_spec(pos, loc, is_base, n) == row_prefix_spec(pos, loc, is_base, k),
    decreases n,
{
    if k < n {
        lemma_row_prefix_err(pos, loc, is_base, k, (n - 1) as nat);
    }
}

pub proof fn lemma_modifier_keymap_prefix_err(nodes: Seq<NodeView>, loc: Seq<SegmentView>, k: nat, n: nat)
    requires
        k <= n,
        modifier_keymap_prefix(nodes, loc, k) is Err,
    ensures
        modifier_keymap_prefix(nodes, loc, n) == modifier_keymap_prefix(nodes, loc, k),
    decreases n,
{
    if k < n {
        lemma_modifier_keymap_prefix_err(nodes, loc, k, (n - 1) as nat);
    }
}

pub proof fn lemma_keymap_prefix_err(nodes: Seq<NodeView>, loc: Seq<SegmentView>, k: nat, n: nat)
    requires
        k <= n,
        keymap_prefix(nodes, loc, k) is Err,
    ensures
        keymap_prefix(nodes, loc, n) == keymap_prefix(nodes, loc, k),
    decreases n,
{
    if k < n {
        lemma_keymap_prefix_err(nodes, loc, k, (n - 1) as nat);
    }
}

/// Parses one row node's positional entries (`top #null "Delete(Left)" _ ...`).
/// `is_base` says whether `_` is refused (it is inside `base`).
fn parse_row(node: &KdlNode, location: &Location, is_base: bool) -> (r: Result<Row, KeymapParseError>)
    ensures
        match r {
            Ok(row) => row_spec(kdl_node_view(*node), location.segs(), is_base) == Ok::<_, KeymapErrorView>(row@),
            Err(e) => row_spec(kdl_node_view(*node), location.segs(), is_base) == Err::<Seq<RowEntryView>, _>(e@),
        },
{
    let entries = node_entries(node);
    let ghost all = kdl_node_view(*node).entries;
    let mut pos: Vec<&KdlEntry> = Vec::new();
    let mut i: usize = 0;
    while i < entries.len()
        invariant
            i <= entries@.len() == all.len(),
            all == kdl_node_view(*node).entries,
            forall|k: int| 0 <= k < entries@.len() ==> kdl_entry_view(#[trigger] entries@[k]) == all[k],
            pos@.len() == positional(all.take(i as int)).len(),
            forall|k: int| 0 <= k < pos@.len() ==> kdl_entry_view(*#[trigger] pos@[k]) == positional(all.take(i as int))[k],
        decreases entries@.len() - i,
    {
        let e = &entries[i];
        assert(all.take(i + 1).drop_last() =~= all.take(i as int));
        assert(all.take(i + 1).last() == all[i as int]);
        if entry_name(e).is_none() {
            pos.push(e);
        }
        i = i + 1;
    }
    assert(all.take(entries@.len() as int) =~= all);
    let ghost p = positional(all);
    if pos.len() != ROW_LEN {
        return Err(KeymapParseError::BadSizedRow { location: location.render(), count: pos.len() });
    }
    let mut row = Row::unbound();
    let mut index: usize = 0;
    assert(row@.take(0) =~= Seq::<RowEntryView>::empty());
    while index < ROW_LEN
        invariant
            index <= ROW_LEN,
            pos@.len() == ROW_LEN == p.len(),
            p == positional(kdl_node_view(*node).entries),
            forall|k: int| 0 <= k < pos@.len() ==> kdl_entry_view(*#[trigger] pos@[k]) == p[k],
            row_prefix_spec(p, location.segs(), is_base, index as nat) == Ok::<_, KeymapErrorView>(row@.take(index as int)),
            row@.len() == ROW_LEN,
        decreases ROW_LEN - index,
    {
        let entry = pos[index];
        assert(kdl_entry_view(*entry) == p[index as int]);
        let key = match parse_row_entry(entry, location, is_base, index) {
            Ok(key) => key,
            Err(e) => {
                proof {
                    lemma_row_prefix_err(p, location.segs(), is_base, (index + 1) as nat, ROW_LEN as nat);
                }
                return Err(e);
            },
        };
        let ghost before = row@;
        row.0[index] = key;
        assert(row@ =~= before.update(index as int, key@));
        assert(row@.take(index + 1) =~= before.take(index as int).push(key@));
        index = index + 1;
    }
    assert(row@.take(ROW_LEN as int) =~= row@);
    Ok(row)
}

/// Parses the `top`/`home`/`bottom` rows of one grid; other children are
/// ignored.
fn parse_row_set(document: &KdlDocument, location: &Location, is_base: bool) -> (r: Result<RowSet, KeymapParseError>)
    ensures
        match r {
            Ok(g) => row_set_spec(kdl_document_view(*document), location.segs(), is_base) == Ok::<_, KeymapErrorView>(g@),
            Err(e) => row_set_spec(kdl_document_view(*document), location.segs(), is_base) == Err::<RowSetView, _>(e@),
        },
{
    let top = match get_node(document, "top") {
        Some(node) => match parse_row(node, &location.key("top"), is_base) {
            Ok(row) => row,
            Err(e) => return Err(e),
        },
        None => Row::unbound(),
    };
    let home = match get_node(document, "home") {
        Some(node) => match parse_row(node, &location.key("home"), is_base) {
            Ok(row) => row,
            Err(e) => return Err(e),
        },
        None => Row::unbound(),
    };
    let bottom = match get_node(document, "bottom") {
        Some(node) => match parse_row(node, &location.key("bottom"), is_base) {
            Ok(row) => row,
            Err(e) => return Err(e),
        },
        None => Row::unbound(),
    };
    Ok(RowSet { top, home, bottom })
}

/// Parses the `base`/`shifted`/`alted`/`ctrled` children of one mode block.
/// Any other child name is an error.
fn parse_modifier_keymap(document: &KdlDocument, location: &Location) -> (r: Result<ModifierKeymap, KeymapParseError>)
    ensures
        match r {
            Ok(mk) => modifier_keymap_spec(kdl_document_view(*document), location.segs()) == Ok::<_, KeymapErrorView>(mk@),
            Err(e) => modifier_keymap_spec(kdl_document_view(*document), location.segs()) == Err::<ModifierKeymapView, _>(e@),
        },
{
    let nodes = document_nodes(document);
    let ghost all = kdl_document_view(*document);
    let mut mk = ModifierKeymap::unbound();
    let mut i: usize = 0;
    while i < nodes.len()
        invariant
            i <= nodes@.len() == all.len(),
            all == kdl_document_view(*document),
            forall|k: int| 0 <= k < nodes@.len() ==> kdl_node_view(#[trigger] nodes@[k]) == all[k],
            modifier_keymap_prefix(all, location.segs(), i as nat) == Ok::<_, KeymapErrorView>(mk@),
        decreases nodes@.len() - i,
    {
        let child = &nodes[i];
        assert(kdl_node_view(*child) == all[i as int]);
        let name = node_name(child);
        let modifier = if str_eq(name, "base") {
            Modifier::Base
        } else if str_eq(name, "shifted") {
            Modifier::Shifted
        } else if str_eq(name, "alted") {
            Modifier::Alted
        } else if str_eq(name, "ctrled") {
            Modifier::Ctrled
        } else {
            proof {
                lemma_modifier_keymap_prefix_err(all, location.segs(), (i + 1) as nat, all.len());
            }
            return Err(KeymapParseError::UnknownModifier { location: location.render(), found: owned(name) });
        };
        let child_location = location.key(name);
        let grid = match node_children(child) {
            Some(rows) => match parse_row_set(rows, &child_location, modifier == Modifier::Base) {
                Ok(g) => g,
                Err(e) => {
                    proof {
                        lemma_modifier_keymap_prefix_err(all, location.segs(), (i + 1) as nat, all.len());
                    }
                    return Err(e);
                },
            },
            None => RowSet::unbound(),
        };
        match modifier {
            Modifier::Base => mk.base = grid,
            Modifier::Shifted => mk.shifted = grid,
            Modifier::Alted => mk.alted = grid,
            Modifier::Ctrled => mk.ctrled = grid,
        }
        i = i + 1;
    }
    Ok(mk)
}

impl Keymap {
    /// Parses one keymap's body, the children of a `keymap "name" { ... }`
    /// node found at `location`. An empty body parses to the empty keymap.
    pub fn parse(document: &KdlDocument, location: &Location) -> (r: Result<Keymap, KeymapParseError>)
        ensures
            keymap_result_view(r) == keymap_spec(kdl_document_view(*document), location.segs()),
            r matches Ok(k) ==> keymap_wf(k@.modes),
    {
        proof {
            lemma_parsed_keymap_wf(kdl_document_view(*document), location.segs());
        }
        let mut keymap = Keymap::empty();
        match get_arg(document, "layer") {
            Some(entry) => match entry_value(entry) {
                Value::String(s) => keymap.layer = Some(s),
                _ => {},
            },
            None => {},
        }
        let nodes = document_nodes(document);
        let ghost all = kdl_document_view(*document);
        let mut i: usize = 0;
        while i < nodes.len()
            invariant
                i <= nodes@.len() == all.len(),
                all == kdl_document_view(*document),
                forall|k: int| 0 <= k < nodes@.len() ==> kdl_node_view(#[trigger] nodes@[k]) == all[k],
                keymap_prefix(all, location.segs(), i as nat) == Ok::<_, KeymapErrorView>(keymap@.modes),
                keymap@.layer == layer_spec(all),
            decreases nodes@.len() - i,
        {
            let child = &nodes[i];
            assert(kdl_node_view(*child) == all[i as int]);
            let name = node_name(child);
            if !str_eq(name, "layer") {
                let child_location = location.key(name);
                let chars = chars_of(name);
                assert(chars@.subrange(0, chars@.len() as int) =~= name@);
                let mode = match Mode::from_name(chars.as_slice(), 0, chars.len()) {
                    Some(mode) => mode,
                    None => {
                        proof {
                            lemma_keymap_prefix_err(all, location.segs(), (i + 1) as nat, all.len());
                        }
                        let variants = mode_variants();
                        return Err(
                            KeymapParseError::UnknownMode {
                                location: child_location.render(),
                                found: owned(name),
                                valid: join_names(&variants),
                                did_you_mean: did_you_mean(name, &variants),
                            },
                        );
                    },
                };
                let grids = match node_children(child) {
                    Some(grids) => match parse_modifier_keymap(grids, &child_location) {
                        Ok(mk) => mk,
                        Err(e) => {
                            proof {
                                lemma_keymap_prefix_err(all, location.segs(), (i + 1) as nat, all.len());
                            }
                            return Err(e);
                        },
                    },
                    None => ModifierKeymap::unbound(),
                };
                keymap.modes.insert(mode, grids);
            }
            i = i + 1;
        }
        Ok(keymap)
    }
}


// ---------------------------------------------------------------------------
// Messages.
// ---------------------------------------------------------------------------

/// The message of a keymap error.
pub open spec fn keymap_error_message(e: KeymapErrorView) -> Seq<char> {
    match e {
        KeymapErrorView::UnknownMode { location, found, valid, did_you_mean } => "unknown mode `"@ + found + "` in `"@
            + location + "`, expected one of: "@ + valid + match did_you_mean {
            Some(c) => ", did you mean `"@ + c + "`?"@,
            None => Seq::empty(),
        },
        KeymapErrorView::UnknownModifier { location, found } => "unknown modifier `"@ + found + "` in `"@ + location
            + "`, expected one of: base, shifted, alted, ctrled"@,
        KeymapErrorView::InvalidAction { location, source } => "invalid action at `"@ + location + "`: "@
            + error_message(source),
        KeymapErrorView::BadSizedRow { location, count } => "`"@ + location + "` has "@ + decimal(count)
            + " entries, but a row must have "@ + decimal(ROW_LEN as nat) + " entries"@,
        KeymapErrorView::InvalidRowEntry { location, index, found } => "`"@ + location + "` entry "@ + decimal(index)
            + " must be a string action, `_`, or `#null`, found `"@ + found + "`"@,
        KeymapErrorView::FallbackInBaseGrid { location, index } => "`"@ + location + "` entry "@ + decimal(index)
            + " uses `_`, but `base` has nothing further to fall back to"@,
    }
}

impl KeymapParseError {
    /// The message describing this error.
    pub fn message(&self) -> (r: String)
        requires
            self matches KeymapParseError::InvalidAction { source, .. } ==> source.span.start + source.span.len
                <= usize::MAX,
        ensures
            r@ == keymap_error_message(self@),
    {
        let mut out = String::new();
        match self {
            KeymapParseError::UnknownMode { location, found, valid, did_you_mean } => {
                push_str(&mut out, "unknown mode `");
                push_str(&mut out, found.as_str());
                push_str(&mut out, "` in `");
                push_str(&mut out, location.as_str());
                push_str(&mut out, "`, expected one of: ");
                push_str(&mut out, valid.as_str());
                match did_you_mean {
                    Some(c) => {
                        push_str(&mut out, ", did you mean `");
                        push_str(&mut out, c.as_str());
                        push_str(&mut out, "`?");
                    },
                    None => {},
                }
            },
            KeymapParseError::UnknownModifier { location, found } => {
                push_str(&mut out, "unknown modifier `");
                push_str(&mut out, found.as_str());
                push_str(&mut out, "` in `");
                push_str(&mut out, location.as_str());
                push_str(&mut out, "`, expected one of: base, shifted, alted, ctrled");
            },
            KeymapParseError::InvalidAction { location, source } => {
                push_str(&mut out, "invalid action at `");
                push_str(&mut out, location.as_str());
                push_str(&mut out, "`: ");
                let m = source.message();
                push_str(&mut out, m.as_str());
            },
            KeymapParseError::BadSizedRow { location, count } => {
                push_str(&mut out, "`");
                push_str(&mut out, location.as_str());
                push_str(&mut out, "` has ");
                push_decimal(&mut out, *count);
                push_str(&mut out, " entries, but a row must have ");
                push_decimal(&mut out, ROW_LEN);
                push_str(&mut out, " entries");
            },
            KeymapParseError::InvalidRowEntry { location, index, found } => {
                push_str(&mut out, "`");
                push_str(&mut out, location.as_str());
                push_str(&mut out, "` entry ");
                push_decimal(&mut out, *index);
                push_str(&mut out, " must be a string action, `_`, or `#null`, found `");
                push_str(&mut out, found.as_str());
                push_str(&mut out, "`");
            },
            KeymapParseError::FallbackInBaseGrid { location, index } => {
                push_str(&mut out, "`");
                push_str(&mut out, location.as_str());
                push_str(&mut out, "` entry ");
                push_decimal(&mut out, *index);
                push_str(&mut out, " uses `_`, but `base` has nothing further to fall back to");
            },
        }
        assert(out@ =~= keymap_error_message(self@));
        out
    }
}

} // verus!
