//! The actions the editor performs, and the small language they are written
//! in (in keymaps): `Quit`, `Insert('a')`, `MoveAnchor(Head, Left)`, ...
use vstd::prelude::*;
use crate::mode::{Mode, mode_from_name_spec, mode_variant_name};
use crate::suggest::{did_you_mean, suggestion};
use crate::text::{
    byte_offset, char_utf8_len, chars_of, is_alphanumeric, is_whitespace, is_whitespace_spec,
    char_alphanumeric, is_ascii_alphanumeric_spec, lemma_byte_offset_monotonic, lemma_byte_offset_step, lemma_str_len,
    push_char, push_decimal, push_str, slice_is, string_of, utf8_len, utf8_width, decimal,
};

verus! {

#[derive(Debug, Clone, PartialEq, Eq)]
pub enum Action {
    Quit,
    FocusGained,
    FocusLost,
    Redraw,
    PasteRawString(String),
    Paste(PasteSource),
    ChangeMode(Mode),
    MoveAnchor(Anchor, Direction),
    Insert(char),
    Delete(DeleteDirection),
    OpenPopup,
}

/// Where a [`Action::Paste`] should read its content from.
#[derive(Debug, Copy, Clone, PartialEq, Eq, Structural)]
pub enum PasteSource {
    Internal,
    System,
}

#[derive(Debug, Copy, Clone, PartialEq, Eq, Structural)]
pub enum DeleteDirection {
    Left,
    Right,
}

#[derive(Debug, Copy, Clone, PartialEq, Eq, Structural)]
pub enum Direction {
    Up,
    Down,
    Right,
    Left,
    StartOfLine,
    EndOfLine,
    StartOfFile,
    EndOfFile,
    PageUp,
    PageDown,
}

#[derive(Debug, Copy, Clone, PartialEq, Eq, Structural)]
pub enum Anchor {
    Tail,
    Head,
}

/// An [`Action`] as a mathematical value.
pub enum ActionView {
    Quit,
    FocusGained,
    FocusLost,
    Redraw,
    PasteRawString(Seq<char>),
    Paste(PasteSource),
    ChangeMode(Mode),
    MoveAnchor(Anchor, Direction),
    Insert(char),
    Delete(DeleteDirection),
    OpenPopup,
}

impl View for Action {
    type V = ActionView;

    open spec fn view(&self) -> ActionView {
        match self {
            Action::Quit => ActionView::Quit,
            Action::FocusGained => ActionView::FocusGained,
            Action::FocusLost => ActionView::FocusLost,
            Action::Redraw => ActionView::Redraw,
            Action::PasteRawString(s) => ActionView::PasteRawString(s@),
            Action::Paste(p) => ActionView::Paste(*p),
            Action::ChangeMode(m) => ActionView::ChangeMode(*m),
            Action::MoveAnchor(a, d) => ActionView::MoveAnchor(*a, *d),
            Action::Insert(c) => ActionView::Insert(*c),
            Action::Delete(d) => ActionView::Delete(*d),
            Action::OpenPopup => ActionView::OpenPopup,
        }
    }
}

/// A byte-offset range into a string.
#[derive(Debug, Copy, Clone, PartialEq, Eq, Structural)]
pub struct Span {
    pub start: usize,
    pub len: usize,
}

impl Span {
    fn new(start: usize, len: usize) -> (r: Self)
        ensures
            r == (Span { start, len }),
    {
        Span { start, len }
    }

    fn at(pos: usize) -> (r: Self)
        ensures
            r == (Span { start: pos, len: 0 }),
    {
        Span { start: pos, len: 0 }
    }

    /// The exclusive end of this span (`start + len`).
    pub fn end(&self) -> (r: usize)
        requires
            self.start + self.len <= usize::MAX,
        ensures
            r == self.start + self.len,
    {
        self.start + self.len
    }
}

#[derive(Debug, Clone, PartialEq, Eq)]
pub struct ActionParseError {
    pub span: Span,
    pub kind: ActionParseErrorKind,
}

#[derive(Debug, Clone, PartialEq, Eq)]
pub enum ActionParseErrorKind {
    UnexpectedEof { expected: &'static str },
    UnknownAction { found: String, valid: String },
    UnknownEnumValue {
        enum_name: &'static str,
        found: String,
        valid: String,
        did_you_mean: Option<String>,
    },
    UnexpectedChar { expected: char, found: char },
    ExpectedCharGotEof { expected: char },
    UnterminatedCharLiteral,
    UnterminatedStringLiteral,
    InvalidEscape { found: char },
    TrailingInput,
}

/// An [`ActionParseErrorKind`] as a mathematical value.
pub enum ErrorKindView {
    UnexpectedEof { expected: Seq<char> },
    UnknownAction { found: Seq<char>, valid: Seq<char> },
    UnknownEnumValue {
        enum_name: Seq<char>,
        found: Seq<char>,
        valid: Seq<char>,
        did_you_mean: Option<Seq<char>>,
    },
    UnexpectedChar { expected: char, found: char },
    ExpectedCharGotEof { expected: char },
    UnterminatedCharLiteral,
    UnterminatedStringLiteral,
    InvalidEscape { found: char },
    TrailingInput,
}

/// An [`ActionParseError`] as a mathematical value.
pub struct ParseErrorView {
    pub span: Span,
    pub kind: ErrorKindView,
}

pub open spec fn opt_string_view(o: Option<String>) -> Option<Seq<char>> {
    match o {
        Some(s) => Some(s@),
        None => None,
    }
}

impl View for ActionParseErrorKind {
    type V = ErrorKindView;

    open spec fn view(&self) -> ErrorKindView {
        match self {
            ActionParseErrorKind::UnexpectedEof { expected } => ErrorKindView::UnexpectedEof {
                expected: expected@,
            },
            ActionParseErrorKind::UnknownAction { found, valid } => ErrorKindView::UnknownAction {
                found: found@,
                valid: valid@,
            },
            ActionParseErrorKind::UnknownEnumValue { enum_name, found, valid, did_you_mean } =>
                ErrorKindView::UnknownEnumValue {
                enum_name: enum_name@,
                found: found@,
                valid: valid@,
                did_you_mean: opt_string_view(*did_you_mean),
            },
            ActionParseErrorKind::UnexpectedChar { expected, found } =>
                ErrorKindView::UnexpectedChar { expected: *expected, found: *found },
            ActionParseErrorKind::ExpectedCharGotEof { expected } =>
                ErrorKindView::ExpectedCharGotEof { expected: *expected },
            ActionParseErrorKind::UnterminatedCharLiteral => ErrorKindView::UnterminatedCharLiteral,
            ActionParseErrorKind::UnterminatedStringLiteral =>
                ErrorKindView::UnterminatedStringLiteral,
            ActionParseErrorKind::InvalidEscape { found } => ErrorKindView::InvalidEscape {
                found: *found,
            },
            ActionParseErrorKind::TrailingInput => ErrorKindView::TrailingInput,
        }
    }
}

impl View for ActionParseError {
    type V = ParseErrorView;

    open spec fn view(&self) -> ParseErrorView {
        ParseErrorView { span: self.span, kind: self.kind@ }
    }
}

// ---------------------------------------------------------------------------
// The grammar, as spec functions over the chars of the input. Positions are
// char indices; spans are byte offsets into the UTF-8 encoding.
// ---------------------------------------------------------------------------

pub open spec fn span_at(s: Seq<char>, i: int) -> Span {
    Span { start: byte_offset(s, i) as usize, len: 0 }
}

pub open spec fn span_between(s: Seq<char>, i: int, j: int) -> Span {
    Span { start: byte_offset(s, i) as usize, len: (byte_offset(s, j) - byte_offset(s, i)) as usize }
}

pub open spec fn err(span: Span, kind: ErrorKindView) -> ParseErrorView {
    ParseErrorView { span, kind }
}

/// The first index at or after `i` that isn't whitespace.
pub open spec fn skip_ws(s: Seq<char>, i: int) -> int
    decreases s.len() - i,
{
    if 0 <= i < s.len() && is_whitespace_spec(s[i]) {
        skip_ws(s, i + 1)
    } else {
        i
    }
}

/// Whether `c` can be part of an identifier: an alphanumeric char (by
/// Unicode's tables, which for ASCII are exactly the letters and digits) or
/// `_`.
pub open spec fn is_ident_char(c: char) -> bool {
    if (c as u32) < 0x80 {
        is_ascii_alphanumeric_spec(c) || c == '_'
    } else {
        char_alphanumeric(c)
    }
}

/// The first index at or after `i` that can't continue an identifier.
pub open spec fn ident_end(s: Seq<char>, i: int) -> int
    decreases s.len() - i,
{
    if 0 <= i < s.len() && is_ident_char(s[i]) {
        ident_end(s, i + 1)
    } else {
        i
    }
}

/// An identifier starting at `i` (possibly empty), as the range of its chars;
/// fails only at the end of the input.
pub open spec fn ident_spec(s: Seq<char>, i: int, expected: Seq<char>) -> Result<(int, int), ParseErrorView> {
    if i >= s.len() {
        Err(err(span_at(s, i), ErrorKindView::UnexpectedEof { expected }))
    } else {
        Ok((i, ident_end(s, i)))
    }
}

/// The char `c`, right at `i`.
pub open spec fn match_spec(s: Seq<char>, i: int, c: char) -> Result<int, ParseErrorView> {
    if i < s.len() && s[i] == c {
        Ok(i + 1)
    } else if i < s.len() {
        Err(err(span_at(s, i), ErrorKindView::UnexpectedChar { expected: c, found: s[i] }))
    } else {
        Err(err(span_at(s, i), ErrorKindView::ExpectedCharGotEof { expected: c }))
    }
}

/// The char `c`, after optional whitespace.
pub open spec fn expect_spec(s: Seq<char>, i: int, c: char) -> Result<int, ParseErrorView> {
    match_spec(s, skip_ws(s, i), c)
}

/// What the escape sequence `\c` stands for.
pub open spec fn escape_spec(c: char) -> Option<char> {
    if c == '\\' {
        Some('\\')
    } else if c == '\'' {
        Some('\'')
    } else if c == '"' {
        Some('"')
    } else if c == 'n' {
        Some('\n')
    } else if c == 't' {
        Some('\t')
    } else if c == 'r' {
        Some('\r')
    } else if c == '0' {
        Some('\0')
    } else {
        None
    }
}

/// A `'c'` char literal starting right at `i`.
pub open spec fn char_lit_spec(s: Seq<char>, i: int) -> Result<(char, int), ParseErrorView> {
    match match_spec(s, i, '\'') {
        Err(e) => Err(e),
        Ok(j) => {
            let body: Result<(char, int), ParseErrorView> = if j < s.len() && s[j] == '\\' {
                if j + 1 < s.len() {
                    match escape_spec(s[j + 1]) {
                        Some(v) => Ok((v, j + 2)),
                        None => Err(
                            err(
                                span_between(s, j, j + 2),
                                ErrorKindView::InvalidEscape { found: s[j + 1] },
                            ),
                        ),
                    }
                } else {
                    Err(err(span_between(s, i, j + 1), ErrorKindView::UnterminatedCharLiteral))
                }
            } else if j < s.len() {
                Ok((s[j], j + 1))
            } else {
                Err(err(span_between(s, i, j), ErrorKindView::UnterminatedCharLiteral))
            };
            match body {
                Err(e) => Err(e),
                Ok((v, k)) => match match_spec(s, k, '\'') {
                    Err(e) => Err(e),
                    Ok(m) => Ok((v, m)),
                },
            }
        },
    }
}

/// The rest of a string literal opened at `start`, from `j` on: its value
/// and the index right after the closing quote.
pub open spec fn str_body_spec(s: Seq<char>, start: int, j: int) -> Result<(Seq<char>, int), ParseErrorView>
    decreases s.len() - j,
{
    if j < 0 || j >= s.len() {
        Err(err(span_between(s, start, j), ErrorKindView::UnterminatedStringLiteral))
    } else if s[j] == '"' {
        Ok((Seq::empty(), j + 1))
    } else if s[j] == '\\' {
        if j + 1 < s.len() {
            match escape_spec(s[j + 1]) {
                Some(v) => match str_body_spec(s, start, j + 2) {
                    Ok((rest, k)) => Ok((seq![v] + rest, k)),
                    Err(e) => Err(e),
                },
                None => Err(
                    err(span_between(s, j, j + 2), ErrorKindView::InvalidEscape { found: s[j + 1] }),
                ),
            }
        } else {
            Err(err(span_between(s, start, j + 1), ErrorKindView::UnterminatedStringLiteral))
        }
    } else {
        match str_body_spec(s, start, j + 1) {
            Ok((rest, k)) => Ok((seq![s[j]] + rest, k)),
            Err(e) => Err(e),
        }
    }
}

/// A `"..."` string literal starting right at `i`.
pub open spec fn str_lit_spec(s: Seq<char>, i: int) -> Result<(Seq<char>, int), ParseErrorView> {
    match match_spec(s, i, '"') {
        Err(e) => Err(e),
        Ok(j) => str_body_spec(s, i, j),
    }
}

/// `items` joined with `sep` in between.
pub open spec fn join(items: Seq<Seq<char>>, sep: Seq<char>) -> Seq<char>
    decreases items.len(),
{
    if items.len() == 0 {
        Seq::empty()
    } else if items.len() == 1 {
        items[0]
    } else {
        join(items.drop_last(), sep) + sep + items.last()
    }
}

pub open spec fn action_names() -> Seq<Seq<char>> {
    seq![
        "Quit"@, "FocusGained"@, "FocusLost"@, "Redraw"@, "PasteRawString"@, "Paste"@,
        "ChangeMode"@, "MoveAnchor"@, "Insert"@, "Delete"@, "OpenPopup"@,
    ]
}

pub open spec fn paste_source_names() -> Seq<Seq<char>> {
    seq!["Internal"@, "System"@]
}

pub open spec fn delete_direction_names() -> Seq<Seq<char>> {
    seq!["Left"@, "Right"@]
}

pub open spec fn anchor_names() -> Seq<Seq<char>> {
    seq!["Tail"@, "Head"@]
}

pub open spec fn direction_names() -> Seq<Seq<char>> {
    seq![
        "Up"@, "Down"@, "Right"@, "Left"@, "StartOfLine"@, "EndOfLine"@, "StartOfFile"@,
        "EndOfFile"@, "PageUp"@, "PageDown"@,
    ]
}

pub open spec fn mode_names() -> Seq<Seq<char>> {
    seq!["Normal"@, "Insert"@]
}

pub open spec fn paste_source_named(n: Seq<char>) -> Option<PasteSource> {
    if n == "Internal"@ {
        Some(PasteSource::Internal)
    } else if n == "System"@ {
        Some(PasteSource::System)
    } else {
        None
    }
}

pub open spec fn delete_direction_named(n: Seq<char>) -> Option<DeleteDirection> {
    if n == "Left"@ {
        Some(DeleteDirection::Left)
    } else if n == "Right"@ {
        Some(DeleteDirection::Right)
    } else {
        None
    }
}

pub open spec fn anchor_named(n: Seq<char>) -> Option<Anchor> {
    if n == "Tail"@ {
        Some(Anchor::Tail)
    } else if n == "Head"@ {
        Some(Anchor::Head)
    } else {
        None
    }
}

pub open spec fn direction_named(n: Seq<char>) -> Option<Direction> {
    if n == "Up"@ {
        Some(Direction::Up)
    } else if n == "Down"@ {
        Some(Direction::Down)
    } else if n == "Right"@ {
        Some(Direction::Right)
    } else if n == "Left"@ {
        Some(Direction::Left)
    } else if n == "StartOfLine"@ {
        Some(Direction::StartOfLine)
    } else if n == "EndOfLine"@ {
        Some(Direction::EndOfLine)
    } else if n == "StartOfFile"@ {
        Some(Direction::StartOfFile)
    } else if n == "EndOfFile"@ {
        Some(Direction::EndOfFile)
    } else if n == "PageUp"@ {
        Some(Direction::PageUp)
    } else if n == "PageDown"@ {
        Some(Direction::PageDown)
    } else {
        None
    }
}

/// The error for the unknown value `found` of the enum `enum_name`.
pub open spec fn unknown_value(enum_name: Seq<char>, names: Seq<Seq<char>>, found: Seq<char>, span: Span) -> ParseErrorView {
    err(
        span,
        ErrorKindView::UnknownEnumValue {
            enum_name,
            found,
            valid: join(names, ", "@),
            did_you_mean: suggestion(found, names),
        },
    )
}

/// `( <ident> )` where the identifier names a value of one enum, read by
/// `named`; returns the value's name range.
pub open spec fn enum_arg_spec(s: Seq<char>, i: int, expected: Seq<char>) -> Result<(int, int, int), ParseErrorView> {
    match expect_spec(s, i, '(') {
        Err(e) => Err(e),
        Ok(j) => match ident_spec(s, skip_ws(s, j), expected) {
            Err(e) => Err(e),
            Ok((a, b)) => Ok((a, b, b)),
        },
    }
}

pub open spec fn close_spec<T>(s: Seq<char>, value: T, i: int) -> Result<(T, int), ParseErrorView> {
    match expect_spec(s, i, ')') {
        Err(e) => Err(e),
        Ok(j) => Ok((value, j)),
    }
}

/// The arguments of `Paste`, from right after its name.
pub open spec fn paste_args_spec(s: Seq<char>, i: int) -> Result<(ActionView, int), ParseErrorView> {
    match enum_arg_spec(s, i, "a PasteSource value"@) {
        Err(e) => Err(e),
        Ok((a, b, _)) => match paste_source_named(s.subrange(a, b)) {
            None => Err(unknown_value("PasteSource"@, paste_source_names(), s.subrange(a, b), span_between(s, a, b))),
            Some(v) => close_spec(s, ActionView::Paste(v), b),
        },
    }
}

/// The arguments of `ChangeMode`, from right after its name.
pub open spec fn change_mode_args_spec(s: Seq<char>, i: int) -> Result<(ActionView, int), ParseErrorView> {
    match enum_arg_spec(s, i, "a Mode value"@) {
        Err(e) => Err(e),
        Ok((a, b, _)) => match mode_from_name_spec(s.subrange(a, b)) {
            None => Err(unknown_value("Mode"@, mode_names(), s.subrange(a, b), span_between(s, a, b))),
            Some(v) => close_spec(s, ActionView::ChangeMode(v), b),
        },
    }
}

/// The arguments of `Delete`, from right after its name.
pub open spec fn delete_args_spec(s: Seq<char>, i: int) -> Result<(ActionView, int), ParseErrorView> {
    match enum_arg_spec(s, i, "a DeleteDirection value"@) {
        Err(e) => Err(e),
        Ok((a, b, _)) => match delete_direction_named(s.subrange(a, b)) {
            None => Err(unknown_value("DeleteDirection"@, delete_direction_names(), s.subrange(a, b), span_between(s, a, b))),
            Some(v) => close_spec(s, ActionView::Delete(v), b),
        },
    }
}

/// The arguments of `MoveAnchor`, from right after its name.
pub open spec fn move_anchor_args_spec(s: Seq<char>, i: int) -> Result<(ActionView, int), ParseErrorView> {
    match enum_arg_spec(s, i, "an Anchor value"@) {
        Err(e) => Err(e),
        Ok((a, b, _)) => match anchor_named(s.subrange(a, b)) {
            None => Err(unknown_value("Anchor"@, anchor_names(), s.subrange(a, b), span_between(s, a, b))),
            Some(anchor) => match expect_spec(s, b, ',') {
                Err(e) => Err(e),
                Ok(j) => match ident_spec(s, skip_ws(s, j), "a Direction value"@) {
                    Err(e) => Err(e),
                    Ok((c, d)) => match direction_named(s.subrange(c, d)) {
                        None => Err(unknown_value("Direction"@, direction_names(), s.subrange(c, d), span_between(s, c, d))),
                        Some(dir) => close_spec(s, ActionView::MoveAnchor(anchor, dir), d),
                    },
                },
            },
        },
    }
}

/// The arguments of `Insert`, from right after its name.
pub open spec fn insert_args_spec(s: Seq<char>, i: int) -> Result<(ActionView, int), ParseErrorView> {
    match expect_spec(s, i, '(') {
        Err(e) => Err(e),
        Ok(j) => match char_lit_spec(s, j) {
            Err(e) => Err(e),
            Ok((c, k)) => close_spec(s, ActionView::Insert(c), k),
        },
    }
}

/// The arguments of `PasteRawString`, from right after its name.
pub open spec fn paste_raw_args_spec(s: Seq<char>, i: int) -> Result<(ActionView, int), ParseErrorView> {
    match expect_spec(s, i, '(') {
        Err(e) => Err(e),
        Ok(j) => match str_lit_spec(s, j) {
            Err(e) => Err(e),
            Ok((v, k)) => close_spec(s, ActionView::PasteRawString(v), k),
        },
    }
}

/// One action, after optional whitespace, starting at `i`.
pub open spec fn action_spec(s: Seq<char>, i: int) -> Result<(ActionView, int), ParseErrorView> {
    match ident_spec(s, skip_ws(s, i), "an action name"@) {
        Err(e) => Err(e),
        Ok((a, b)) => {
            let name = s.subrange(a, b);
            if name == "Quit"@ {
                Ok((ActionView::Quit, b))
            } else if name == "FocusGained"@ {
                Ok((ActionView::FocusGained, b))
            } else if name == "FocusLost"@ {
                Ok((ActionView::FocusLost, b))
            } else if name == "Redraw"@ {
                Ok((ActionView::Redraw, b))
            } else if name == "OpenPopup"@ {
                Ok((ActionView::OpenPopup, b))
            } else if name == "PasteRawString"@ {
                paste_raw_args_spec(s, b)
            } else if name == "Paste"@ {
                paste_args_spec(s, b)
            } else if name == "ChangeMode"@ {
                change_mode_args_spec(s, b)
            } else if name == "Insert"@ {
                insert_args_spec(s, b)
            } else if name == "Delete"@ {
                delete_args_spec(s, b)
            } else if name == "MoveAnchor"@ {
                move_anchor_args_spec(s, b)
            } else {
                Err(
                    err(
                        span_between(s, a, b),
                        ErrorKindView::UnknownAction { found: name, valid: join(action_names(), ", "@) },
                    ),
                )
            }
        },
    }
}

/// What parsing the whole text `s` as one action gives.
pub open spec fn parse_spec(s: Seq<char>) -> Result<ActionView, ParseErrorView> {
    match action_spec(s, 0) {
        Err(e) => Err(e),
        Ok((a, i)) => {
            let j = skip_ws(s, i);
            if j != s.len() {
                Err(err(span_between(s, j, s.len() as int), ErrorKindView::TrailingInput))
            } else {
                Ok(a)
            }
        },
    }
}

pub open spec fn result_view(r: Result<Action, ActionParseError>) -> Result<ActionView, ParseErrorView> {
    match r {
        Ok(a) => Ok(a@),
        Err(e) => Err(e@),
    }
}

// ---------------------------------------------------------------------------
// The parser.
// ---------------------------------------------------------------------------

/// What an escape sequence `\c` stands for.
fn escape(c: char) -> (r: Option<char>)
    ensures
        r == escape_spec(c),
{
    if c == '\\' {
        Some('\\')
    } else if c == '\'' {
        Some('\'')
    } else if c == '"' {
        Some('"')
    } else if c == 'n' {
        Some('\n')
    } else if c == 't' {
        Some('\t')
    } else if c == 'r' {
        Some('\r')
    } else if c == '0' {
        Some('\0')
    } else {
        None
    }
}

/// A position in the text being parsed: the index of the next char, and its
/// byte offset.
struct Cursor {
    chars: Vec<char>,
    idx: usize,
    pos: usize,
}

impl Cursor {
    spec fn wf(&self) -> bool {
        &&& self.idx <= self.chars@.len()
        &&& self.pos == byte_offset(self.chars@, self.idx as int)
        &&& utf8_len(self.chars@) <= usize::MAX
    }

    spec fn text(&self) -> Seq<char> {
        self.chars@
    }

    fn new(input: &str) -> (r: Self)
        ensures
            r.wf(),
            r.text() == input@,
            r.idx == 0,
    {
        let n = input.as_bytes().len();
        proof {
            lemma_str_len(input);
            assert(input@.take(0) =~= Seq::<char>::empty());
            assert(utf8_len(Seq::<char>::empty()) == 0);
        }
        Cursor { chars: chars_of(input), idx: 0, pos: 0 }
    }

    proof fn lemma_offsets(&self, i: int)
        requires
            self.wf(),
            0 <= i <= self.chars@.len(),
        ensures
            byte_offset(self.chars@, i) <= utf8_len(self.chars@),
    {
        lemma_byte_offset_monotonic(self.chars@, i, self.chars@.len() as int);
        assert(self.chars@.take(self.chars@.len() as int) =~= self.chars@);
    }

    fn peek(&self) -> (r: Option<char>)
        requires
            self.wf(),
        ensures
            self.idx < self.chars@.len() ==> r == Some(self.chars@[self.idx as int]),
            self.idx >= self.chars@.len() ==> r is None,
    {
        if self.idx < self.chars.len() {
            Some(self.chars[self.idx])
        } else {
            None
        }
    }

    fn advance(&mut self) -> (r: Option<char>)
        requires
            old(self).wf(),
        ensures
            final(self).wf(),
            final(self).chars == old(self).chars,
            old(self).idx < old(self).chars@.len() ==> r == Some(old(self).chars@[old(self).idx as int])
                && final(self).idx == old(self).idx + 1 && final(self).pos > old(self).pos,
            old(self).idx >= old(self).chars@.len() ==> r is None && final(self).idx == old(self).idx,
    {
        if self.idx < self.chars.len() {
            let c = self.chars[self.idx];
            proof {
                lemma_byte_offset_step(self.chars@, self.idx as int);
                self.lemma_offsets(self.idx + 1);
            }
            self.pos = self.pos + char_utf8_len(c);
            self.idx = self.idx + 1;
            Some(c)
        } else {
            None
        }
    }

    fn skip_whitespace(&mut self)
        requires
            old(self).wf(),
        ensures
            final(self).wf(),
            final(self).chars == old(self).chars,
            final(self).idx == skip_ws(old(self).chars@, old(self).idx as int),
    {
        let ghost start = self.idx as int;
        loop
            invariant
                self.wf(),
                self.chars == old(self).chars,
                start == old(self).idx,
                skip_ws(self.chars@, start) == skip_ws(self.chars@, self.idx as int),
            decreases self.chars@.len() - self.idx,
        {
            match self.peek() {
                Some(c) => {
                    if is_whitespace(c) {
                        assert(skip_ws(self.chars@, self.idx as int) == skip_ws(self.chars@, self.idx + 1));
                        self.advance();
                    } else {
                        assert(skip_ws(self.chars@, self.idx as int) == self.idx);
                        return;
                    }
                },
                None => {
                    assert(skip_ws(self.chars@, self.idx as int) == self.idx);
                    return;
                },
            }
        }
    }

    fn span_since(&self, start: usize) -> (r: Span)
        requires
            self.wf(),
            start <= self.pos,
        ensures
            r == (Span { start, len: (self.pos - start) as usize }),
    {
        Span::new(start, self.pos - start)
    }

    proof fn lemma_span_between(&self, i: int, j: int)
        requires
            self.wf(),
            0 <= i <= j <= self.chars@.len(),
        ensures
            byte_offset(self.chars@, i) <= byte_offset(self.chars@, j) <= usize::MAX,
    {
        lemma_byte_offset_monotonic(self.chars@, i, j);
        self.lemma_offsets(j);
    }

    /// An identifier at the cursor, possibly empty. Returns the range of its
    /// chars and its span.
    fn parse_ident(&mut self, expected: &'static str) -> (r: Result<(usize, usize, Span), ActionParseError>)
        requires
            old(self).wf(),
        ensures
            final(self).wf(),
            final(self).chars == old(self).chars,
            r matches Ok((a, b, _)) ==> a == old(self).idx && a <= b <= old(self).chars@.len(),
            match (r, ident_spec(old(self).chars@, old(self).idx as int, expected@)) {
                (Ok((a, b, sp)), Ok((a2, b2))) => a == a2 && b == b2 && final(self).idx == b
                    && sp == span_between(old(self).chars@, a as int, b as int),
                (Err(e), Err(e2)) => e@ == e2,
                _ => false,
            },
            r is Err ==> final(self).idx == old(self).idx && final(self).pos == old(self).pos,
    {
        let start = self.pos;
        let start_idx = self.idx;
        if self.peek().is_none() {
            return Err(
                ActionParseError {
                    span: Span::at(start),
                    kind: ActionParseErrorKind::UnexpectedEof { expected },
                },
            );
        }
        let ghost s = self.chars@;
        loop
            invariant
                self.wf(),
                self.chars == old(self).chars,
                s == self.chars@,
                start_idx == old(self).idx,
                start_idx < s.len(),
                start_idx <= self.idx,
                start == byte_offset(s, start_idx as int),
                ident_end(s, start_idx as int) == ident_end(s, self.idx as int),
            ensures
                ident_end(s, start_idx as int) == self.idx,
            decreases self.chars@.len() - self.idx,
        {
            match self.peek() {
                Some(c) => {
                    if is_alphanumeric(c) || c == '_' {
                        assert(ident_end(s, self.idx as int) == ident_end(s, self.idx + 1));
                        self.advance();
                    } else {
                        assert(ident_end(s, self.idx as int) == self.idx);
                        break;
                    }
                },
                None => {
                    assert(ident_end(s, self.idx as int) == self.idx);
                    break;
                },
            }
        }
        proof {
            self.lemma_span_between(start_idx as int, self.idx as int);
        }
        Ok((start_idx, self.idx, self.span_since(start)))
    }

    fn advance_match(&mut self, c: char) -> (r: Result<Span, ActionParseError>)
        requires
            old(self).wf(),
        ensures
            final(self).wf(),
            final(self).chars == old(self).chars,
            match (r, match_spec(old(self).chars@, old(self).idx as int, c)) {
                (Ok(_), Ok(j)) => final(self).idx == j,
                (Err(e), Err(e2)) => e@ == e2,
                _ => false,
            },
    {
        let start = self.pos;
        match self.peek() {
            Some(found) => {
                if found == c {
                    self.advance();
                    Ok(self.span_since(start))
                } else {
                    Err(
                        ActionParseError {
                            span: Span::at(start),
                            kind: ActionParseErrorKind::UnexpectedChar { expected: c, found },
                        },
                    )
                }
            },
            None => Err(
                ActionParseError {
                    span: Span::at(start),
                    kind: ActionParseErrorKind::ExpectedCharGotEof { expected: c },
                },
            ),
        }
    }

    /// Skips whitespace, then expects `c` at the cursor.
    fn expect_char(&mut self, c: char) -> (r: Result<Span, ActionParseError>)
        requires
            old(self).wf(),
        ensures
            final(self).wf(),
            final(self).chars == old(self).chars,
            match (r, expect_spec(old(self).chars@, old(self).idx as int, c)) {
                (Ok(_), Ok(j)) => final(self).idx == j,
                (Err(e), Err(e2)) => e@ == e2,
                _ => false,
            },
    {
        self.skip_whitespace();
        self.advance_match(c)
    }

    /// Consumes a `'c'` char literal. Whitespace before it is not permitted.
    fn parse_char_literal(&mut self) -> (r: Result<char, ActionParseError>)
        requires
            old(self).wf(),
        ensures
            final(self).wf(),
            final(self).chars == old(self).chars,
            match (r, char_lit_spec(old(self).chars@, old(self).idx as int)) {
                (Ok(v), Ok((v2, j))) => v == v2 && final(self).idx == j,
                (Err(e), Err(e2)) => e@ == e2,
                _ => false,
            },
    {
        let ghost s = self.chars@;
        let ghost i = self.idx as int;
        let start = self.pos;
        self.advance_match('\'')?;
        let value = match self.peek() {
            Some('\\') => {
                let esc_start = self.pos;
                let ghost j = self.idx as int;
                self.advance();
                match self.advance() {
                    Some(c) => match escape(c) {
                        Some(value) => value,
                        None => {
                            proof {
                                self.lemma_span_between(j, self.idx as int);
                            }
                            return Err(
                                ActionParseError {
                                    span: self.span_since(esc_start),
                                    kind: ActionParseErrorKind::InvalidEscape { found: c },
                                },
                            );
                        },
                    },
                    None => {
                        proof {
                            self.lemma_span_between(i, self.idx as int);
                        }
                        return Err(
                            ActionParseError {
                                span: self.span_since(start),
                                kind: ActionParseErrorKind::UnterminatedCharLiteral,
                            },
                        );
                    },
                }
            },
            Some(c) => {
                self.advance();
                c
            },
            None => {
                proof {
                    self.lemma_span_between(i, self.idx as int);
                }
                return Err(
                    ActionParseError {
                        span: self.span_since(start),
                        kind: ActionParseErrorKind::UnterminatedCharLiteral,
                    },
                );
            },
        };
        self.advance_match('\'')?;
        Ok(value)
    }

    /// Consumes a `"..."` string literal. Whitespace before it is not
    /// permitted.
    fn parse_string_literal(&mut self) -> (r: Result<String, ActionParseError>)
        requires
            old(self).wf(),
        ensures
            final(self).wf(),
            final(self).chars == old(self).chars,
            match (r, str_lit_spec(old(self).chars@, old(self).idx as int)) {
                (Ok(v), Ok((v2, j))) => v@ == v2 && final(self).idx == j,
                (Err(e), Err(e2)) => e@ == e2,
                _ => false,
            },
    {
        let ghost s = self.chars@;
        let ghost i = self.idx as int;
        let start = self.pos;
        self.advance_match('"')?;
        let mut value = String::new();
        assert(value@ + Seq::<char>::empty() =~= Seq::<char>::empty());
        loop
            invariant_except_break
                str_lit_spec(s, i) == match str_body_spec(s, i, self.idx as int) {
                    Ok((rest, k)) => Ok((value@ + rest, k)),
                    Err(e) => Err(e),
                },
            invariant
                self.wf(),
                self.chars == old(self).chars,
                s == self.chars@,
                i == old(self).idx,
                0 <= i < self.idx,
                start == byte_offset(s, i),
            ensures
                str_lit_spec(s, i) == Ok::<(Seq<char>, int), ParseErrorView>((value@, self.idx as int)),
            decreases self.chars@.len() - self.idx,
        {
            let ghost j = self.idx as int;
            match self.peek() {
                Some('"') => {
                    self.advance();
                    assert(value@ + Seq::<char>::empty() =~= value@);
                    break;
                },
                Some('\\') => {
                    let esc_start = self.pos;
                    self.advance();
                    match self.advance() {
                        Some(c) => match escape(c) {
                            Some(actual) => {
                                let ghost before = value@;
                                push_char(&mut value, actual);
                                proof {
                                    match str_body_spec(s, i, j + 2) {
                                        Ok((rest, k)) => {
                                            assert(before + (seq![actual] + rest) =~= value@ + rest);
                                        },
                                        Err(_) => {},
                                    }
                                }
                            },
                            None => {
                                proof {
                                    self.lemma_span_between(j, self.idx as int);
                                }
                                let e = ActionParseError {
                                    span: self.span_since(esc_start),
                                    kind: ActionParseErrorKind::InvalidEscape { found: c },
                                };
                                assert(e@ == err(span_between(s, j, j + 2), ErrorKindView::InvalidEscape { found: s[j + 1] }));
                                return Err(e);
                            },
                        },
                        None => {
                            proof {
                                self.lemma_span_between(i, self.idx as int);
                            }
                            let e = ActionParseError {
                                span: self.span_since(start),
                                kind: ActionParseErrorKind::UnterminatedStringLiteral,
                            };
                            assert(e@ == err(span_between(s, i, j + 1), ErrorKindView::UnterminatedStringLiteral));
                            return Err(e);
                        },
                    }
                },
                Some(c) => {
                    let ghost before = value@;
                    push_char(&mut value, c);
                    self.advance();
                    proof {
                        match str_body_spec(s, i, j + 1) {
                            Ok((rest, k)) => {
                                assert(before + (seq![c] + rest) =~= value@ + rest);
                            },
                            Err(_) => {},
                        }
                    }
                },
                None => {
                    proof {
                        self.lemma_span_between(i, self.idx as int);
                    }
                    let e = ActionParseError {
                        span: self.span_since(start),
                        kind: ActionParseErrorKind::UnterminatedStringLiteral,
                    };
                    assert(e@ == err(span_between(s, i, j), ErrorKindView::UnterminatedStringLiteral));
                    return Err(e);
                },
            }
        }
        Ok(value)
    }

    /// A `String` holding the chars `a..b` of the text.
    fn text_between(&self, a: usize, b: usize) -> (r: String)
        requires
            a <= b <= self.chars@.len(),
        ensures
            r@ == self.chars@.subrange(a as int, b as int),
    {
        string_of(self.chars.as_slice(), a, b)
    }
}

/// `names` joined with `", "` in between.
pub(crate) fn join_names(names: &Vec<&'static str>) -> (r: String)
    ensures
        r@ == join(names@.map_values(|n: &'static str| n@), ", "@),
{
    let ghost items = names@.map_values(|n: &'static str| n@);
    let mut out = String::new();
    let mut i: usize = 0;
    while i < names.len()
        invariant
            i <= names@.len(),
            items == names@.map_values(|n: &'static str| n@),
            out@ == join(items.take(i as int), ", "@),
        decreases names@.len() - i,
    {
        assert(items.take(i + 1).drop_last() =~= items.take(i as int));
        if i != 0 {
            push_str(&mut out, ", ");
        } else {
            assert(out@ =~= Seq::<char>::empty());
        }
        push_str(&mut out, names[i]);
        assert(items.take(i + 1).last() == names@[i as int]@);
        i = i + 1;
    }
    assert(items.take(names@.len() as int) =~= items);
    out
}

fn paste_source_variants() -> (r: Vec<&'static str>)
    ensures
        r@.map_values(|n: &'static str| n@) == paste_source_names(),
{
    let v = vec!["Internal", "System"];
    assert(v@.map_values(|n: &'static str| n@) =~= paste_source_names());
    v
}

fn delete_direction_variants() -> (r: Vec<&'static str>)
    ensures
        r@.map_values(|n: &'static str| n@) == delete_direction_names(),
{
    let v = vec!["Left", "Right"];
    assert(v@.map_values(|n: &'static str| n@) =~= delete_direction_names());
    v
}

fn anchor_variants() -> (r: Vec<&'static str>)
    ensures
        r@.map_values(|n: &'static str| n@) == anchor_names(),
{
    let v = vec!["Tail", "Head"];
    assert(v@.map_values(|n: &'static str| n@) =~= anchor_names());
    v
}

fn direction_variants() -> (r: Vec<&'static str>)
    ensures
        r@.map_values(|n: &'static str| n@) == direction_names(),
{
    let v = vec![
        "Up",
        "Down",
        "Right",
        "Left",
        "StartOfLine",
        "EndOfLine",
        "StartOfFile",
        "EndOfFile",
        "PageUp",
        "PageDown",
    ];
    assert(v@.map_values(|n: &'static str| n@) =~= direction_names());
    v
}

pub(crate) fn mode_variants() -> (r: Vec<&'static str>)
    ensures
        r@.map_values(|n: &'static str| n@) == mode_names(),
{
    let v = Mode::variants();
    assert(v@.map_values(|n: &'static str| n@) =~= mode_names());
    v
}

fn action_variants() -> (r: Vec<&'static str>)
    ensures
        r@.map_values(|n: &'static str| n@) == action_names(),
{
    let v = vec![
        "Quit",
        "FocusGained",
        "FocusLost",
        "Redraw",
        "PasteRawString",
        "Paste",
        "ChangeMode",
        "MoveAnchor",
        "Insert",
        "Delete",
        "OpenPopup",
    ];
    assert(v@.map_values(|n: &'static str| n@) =~= action_names());
    v
}

/// The error for an unknown value of an enum.
fn unknown_enum_value(
    enum_name: &'static str,
    variants: &Vec<&'static str>,
    found: String,
    span: Span,
) -> (r: ActionParseError)
    ensures
        r@ == unknown_value(enum_name@, variants@.map_values(|n: &'static str| n@), found@, span),
{
    let valid = join_names(variants);
    let suggestion = did_you_mean(found.as_str(), variants);
    ActionParseError {
        span,
        kind: ActionParseErrorKind::UnknownEnumValue {
            enum_name,
            found,
            valid,
            did_you_mean: suggestion,
        },
    }
}

fn parse_paste_args(cursor: &mut Cursor) -> (r: Result<Action, ActionParseError>)
    requires
        old(cursor).wf(),
    ensures
        final(cursor).wf(),
        final(cursor).chars == old(cursor).chars,
        match (r, paste_args_spec(old(cursor).chars@, old(cursor).idx as int)) {
            (Ok(a), Ok((a2, j))) => a@ == a2 && final(cursor).idx == j,
            (Err(e), Err(e2)) => e@ == e2,
            _ => false,
        },
{
    cursor.expect_char('(')?;
    cursor.skip_whitespace();
    let (a, b, span) = cursor.parse_ident("a PasteSource value")?;
    let source = if slice_is(cursor.chars.as_slice(), a, b, "Internal") {
        PasteSource::Internal
    } else if slice_is(cursor.chars.as_slice(), a, b, "System") {
        PasteSource::System
    } else {
        let found = cursor.text_between(a, b);
        return Err(unknown_enum_value("PasteSource", &paste_source_variants(), found, span));
    };
    cursor.expect_char(')')?;
    Ok(Action::Paste(source))
}

fn parse_change_mode_args(cursor: &mut Cursor) -> (r: Result<Action, ActionParseError>)
    requires
        old(cursor).wf(),
    ensures
        final(cursor).wf(),
        final(cursor).chars == old(cursor).chars,
        match (r, change_mode_args_spec(old(cursor).chars@, old(cursor).idx as int)) {
            (Ok(a), Ok((a2, j))) => a@ == a2 && final(cursor).idx == j,
            (Err(e), Err(e2)) => e@ == e2,
            _ => false,
        },
{
    cursor.expect_char('(')?;
    cursor.skip_whitespace();
    let (a, b, span) = cursor.parse_ident("a Mode value")?;
    let mode = match Mode::from_name(cursor.chars.as_slice(), a, b) {
        Some(mode) => mode,
        None => {
            let found = cursor.text_between(a, b);
            return Err(unknown_enum_value("Mode", &mode_variants(), found, span));
        },
    };
    cursor.expect_char(')')?;
    Ok(Action::ChangeMode(mode))
}

fn parse_delete_args(cursor: &mut Cursor) -> (r: Result<Action, ActionParseError>)
    requires
        old(cursor).wf(),
    ensures
        final(cursor).wf(),
        final(cursor).chars == old(cursor).chars,
        match (r, delete_args_spec(old(cursor).chars@, old(cursor).idx as int)) {
            (Ok(a), Ok((a2, j))) => a@ == a2 && final(cursor).idx == j,
            (Err(e), Err(e2)) => e@ == e2,
            _ => false,
        },
{
    cursor.expect_char('(')?;
    cursor.skip_whitespace();
    let (a, b, span) = cursor.parse_ident("a DeleteDirection value")?;
    let dir = if slice_is(cursor.chars.as_slice(), a, b, "Left") {
        DeleteDirection::Left
    } else if slice_is(cursor.chars.as_slice(), a, b, "Right") {
        DeleteDirection::Right
    } else {
        let found = cursor.text_between(a, b);
        return Err(unknown_enum_value("DeleteDirection", &delete_direction_variants(), found, span));
    };
    cursor.expect_char(')')?;
    Ok(Action::Delete(dir))
}

fn parse_direction(cursor: &Cursor, a: usize, b: usize) -> (r: Option<Direction>)
    requires
        a <= b <= cursor.chars@.len(),
    ensures
        r == direction_named(cursor.chars@.subrange(a as int, b as int)),
{
    let chars = cursor.chars.as_slice();
    if slice_is(chars, a, b, "Up") {
        Some(Direction::Up)
    } else if slice_is(chars, a, b, "Down") {
        Some(Direction::Down)
    } else if slice_is(chars, a, b, "Right") {
        Some(Direction::Right)
    } else if slice_is(chars, a, b, "Left") {
        Some(Direction::Left)
    } else if slice_is(chars, a, b, "StartOfLine") {
        Some(Direction::StartOfLine)
    } else if slice_is(chars, a, b, "EndOfLine") {
        Some(Direction::EndOfLine)
    } else if slice_is(chars, a, b, "StartOfFile") {
        Some(Direction::StartOfFile)
    } else if slice_is(chars, a, b, "EndOfFile") {
        Some(Direction::EndOfFile)
    } else if slice_is(chars, a, b, "PageUp") {
        Some(Direction::PageUp)
    } else if slice_is(chars, a, b, "PageDown") {
        Some(Direction::PageDown)
    } else {
        None
    }
}

fn parse_move_anchor_args(cursor: &mut Cursor) -> (r: Result<Action, ActionParseError>)
    requires
        old(cursor).wf(),
    ensures
        final(cursor).wf(),
        final(cursor).chars == old(cursor).chars,
        match (r, move_anchor_args_spec(old(cursor).chars@, old(cursor).idx as int)) {
            (Ok(a), Ok((a2, j))) => a@ == a2 && final(cursor).idx == j,
            (Err(e), Err(e2)) => e@ == e2,
            _ => false,
        },
{
    cursor.expect_char('(')?;
    cursor.skip_whitespace();
    let (a, b, a_span) = cursor.parse_ident("an Anchor value")?;
    let anchor = if slice_is(cursor.chars.as_slice(), a, b, "Tail") {
        Anchor::Tail
    } else if slice_is(cursor.chars.as_slice(), a, b, "Head") {
        Anchor::Head
    } else {
        let found = cursor.text_between(a, b);
        return Err(unknown_enum_value("Anchor", &anchor_variants(), found, a_span));
    };
    cursor.expect_char(',')?;
    cursor.skip_whitespace();
    let (c, d, d_span) = cursor.parse_ident("a Direction value")?;
    let direction = match parse_direction(cursor, c, d) {
        Some(dir) => dir,
        None => {
            let found = cursor.text_between(c, d);
            return Err(unknown_enum_value("Direction", &direction_variants(), found, d_span));
        },
    };
    cursor.expect_char(')')?;
    Ok(Action::MoveAnchor(anchor, direction))
}

fn parse_insert_args(cursor: &mut Cursor) -> (r: Result<Action, ActionParseError>)
    requires
        old(cursor).wf(),
    ensures
        final(cursor).wf(),
        final(cursor).chars == old(cursor).chars,
        match (r, insert_args_spec(old(cursor).chars@, old(cursor).idx as int)) {
            (Ok(a), Ok((a2, j))) => a@ == a2 && final(cursor).idx == j,
            (Err(e), Err(e2)) => e@ == e2,
            _ => false,
        },
{
    cursor.expect_char('(')?;
    let c = cursor.parse_char_literal()?;
    cursor.expect_char(')')?;
    Ok(Action::Insert(c))
}

fn parse_paste_raw_args(cursor: &mut Cursor) -> (r: Result<Action, ActionParseError>)
    requires
        old(cursor).wf(),
    ensures
        final(cursor).wf(),
        final(cursor).chars == old(cursor).chars,
        match (r, paste_raw_args_spec(old(cursor).chars@, old(cursor).idx as int)) {
            (Ok(a), Ok((a2, j))) => a@ == a2 && final(cursor).idx == j,
            (Err(e), Err(e2)) => e@ == e2,
            _ => false,
        },
{
    cursor.expect_char('(')?;
    let s = cursor.parse_string_literal()?;
    cursor.expect_char(')')?;
    Ok(Action::PasteRawString(s))
}

fn parse_action(cursor: &mut Cursor) -> (r: Result<Action, ActionParseError>)
    requires
        old(cursor).wf(),
    ensures
        final(cursor).wf(),
        final(cursor).chars == old(cursor).chars,
        match (r, action_spec(old(cursor).chars@, old(cursor).idx as int)) {
            (Ok(a), Ok((a2, j))) => a@ == a2 && final(cursor).idx == j,
            (Err(e), Err(e2)) => e@ == e2,
            _ => false,
        },
{
    cursor.skip_whitespace();
    let (a, b, ident_span) = cursor.parse_ident("an action name")?;
    let chars = cursor.chars.as_slice();
    if slice_is(chars, a, b, "Quit") {
        Ok(Action::Quit)
    } else if slice_is(chars, a, b, "FocusGained") {
        Ok(Action::FocusGained)
    } else if slice_is(chars, a, b, "FocusLost") {
        Ok(Action::FocusLost)
    } else if slice_is(chars, a, b, "Redraw") {
        Ok(Action::Redraw)
    } else if slice_is(chars, a, b, "OpenPopup") {
        Ok(Action::OpenPopup)
    } else if slice_is(chars, a, b, "PasteRawString") {
        parse_paste_raw_args(cursor)
    } else if slice_is(chars, a, b, "Paste") {
        parse_paste_args(cursor)
    } else if slice_is(chars, a, b, "ChangeMode") {
        parse_change_mode_args(cursor)
    } else if slice_is(chars, a, b, "Insert") {
        parse_insert_args(cursor)
    } else if slice_is(chars, a, b, "Delete") {
        parse_delete_args(cursor)
    } else if slice_is(chars, a, b, "MoveAnchor") {
        parse_move_anchor_args(cursor)
    } else {
        let found = cursor.text_between(a, b);
        let valid = join_names(&action_variants());
        Err(
            ActionParseError {
                span: ident_span,
                kind: ActionParseErrorKind::UnknownAction { found, valid },
            },
        )
    }
}

impl Action {
    /// Parses one action from `s`. Whitespace is allowed around the action
    /// and between its tokens, but not before a char or string literal.
    pub fn parse(s: &str) -> (r: Result<Action, ActionParseError>)
        ensures
            result_view(r) == parse_spec(s@),
    {
        let mut cursor = Cursor::new(s);
        let action = parse_action(&mut cursor)?;
        cursor.skip_whitespace();
        let n = cursor.chars.len();
        if cursor.idx != n {
            proof {
                cursor.lemma_span_between(cursor.idx as int, n as int);
                assert(cursor.chars@.take(n as int) =~= cursor.chars@);
            }
            let start = cursor.pos;
            let mut end = cursor.pos;
            let mut k = cursor.idx;
            while k < n
                invariant
                    cursor.wf(),
                    cursor.idx <= k <= n,
                    n == cursor.chars@.len(),
                    end == byte_offset(cursor.chars@, k as int),
                decreases n - k,
            {
                proof {
                    lemma_byte_offset_step(cursor.chars@, k as int);
                    cursor.lemma_offsets(k + 1);
                }
                end = end + char_utf8_len(cursor.chars[k]);
                k = k + 1;
            }
            return Err(
                ActionParseError { span: Span::new(start, end - start), kind: ActionParseErrorKind::TrailingInput },
            );
        }
        Ok(action)
    }
}

impl core::str::FromStr for Action {
    type Err = ActionParseError;

    fn from_str(s: &str) -> (r: Result<Self, Self::Err>)
        ensures
            result_view(r) == parse_spec(s@),
    {
        Action::parse(s)
    }
}


// ---------------------------------------------------------------------------
// Messages.
// ---------------------------------------------------------------------------

/// The message of an error kind.
pub open spec fn kind_message(k: ErrorKindView) -> Seq<char> {
    match k {
        ErrorKindView::UnexpectedEof { expected } => "unexpected end of input, expected "@ + expected,
        ErrorKindView::UnknownAction { found, valid } => "unknown action `"@ + found
            + "`, expected one of: "@ + valid,
        ErrorKindView::UnknownEnumValue { enum_name, found, valid, did_you_mean } => "unknown "@
            + enum_name + " value `"@ + found + "`, expected one of: "@ + valid + match did_you_mean {
            Some(c) => ", did you mean `"@ + c + "`?"@,
            None => Seq::empty(),
        },
        ErrorKindView::UnexpectedChar { expected, found } => "expected `"@ + seq![expected]
            + "`, found `"@ + seq![found] + "`"@,
        ErrorKindView::ExpectedCharGotEof { expected } => "expected `"@ + seq![expected]
            + "`, found end of input"@,
        ErrorKindView::UnterminatedCharLiteral => "unterminated char literal"@,
        ErrorKindView::UnterminatedStringLiteral => "unterminated string literal"@,
        ErrorKindView::InvalidEscape { found } => "invalid escape sequence `\\"@ + seq![found] + "`"@,
        ErrorKindView::TrailingInput => "trailing input after complete action"@,
    }
}

/// The message of an error: its kind's message, then where it is.
pub open spec fn error_message(e: ParseErrorView) -> Seq<char> {
    kind_message(e.kind) + " (at "@ + decimal(e.span.start as nat) + ".."@ + decimal(
        (e.span.start + e.span.len) as nat,
    ) + ")"@
}

/// `n` copies of `c`.
pub open spec fn repeat(c: char, n: nat) -> Seq<char> {
    Seq::new(n, |_i: int| c)
}

pub(crate) fn push_repeat(out: &mut String, c: char, n: usize)
    ensures
        final(out)@ == old(out)@ + repeat(c, n as nat),
{
    let mut i: usize = 0;
    while i < n
        invariant
            i <= n,
            out@ == old(out)@ + repeat(c, i as nat),
        decreases n - i,
    {
        push_char(out, c);
        assert(out@ =~= old(out)@ + repeat(c, (i + 1) as nat));
        i = i + 1;
    }
}

impl ActionParseErrorKind {
    /// The message describing this error.
    pub fn message(&self) -> (r: String)
        ensures
            r@ == kind_message(self@),
    {
        let mut out = String::new();
        match self {
            ActionParseErrorKind::UnexpectedEof { expected } => {
                push_str(&mut out, "unexpected end of input, expected ");
                push_str(&mut out, expected);
            },
            ActionParseErrorKind::UnknownAction { found, valid } => {
                push_str(&mut out, "unknown action `");
                push_str(&mut out, found.as_str());
                push_str(&mut out, "`, expected one of: ");
                push_str(&mut out, valid.as_str());
                assert(out@ =~= kind_message(self@));
            },
            ActionParseErrorKind::UnknownEnumValue { enum_name, found, valid, did_you_mean } => {
                push_str(&mut out, "unknown ");
                push_str(&mut out, enum_name);
                push_str(&mut out, " value `");
                push_str(&mut out, found.as_str());
                push_str(&mut out, "`, expected one of: ");
                push_str(&mut out, valid.as_str());
                match did_you_mean {
                    Some(c) => {
                        push_str(&mut out, ", did you mean `");
                        push_str(&mut out, c.as_str());
                        push_str(&mut out, "`?");
                    },
                    None => {},
                }
                assert(out@ =~= kind_message(self@));
            },
            ActionParseErrorKind::UnexpectedChar { expected, found } => {
                push_str(&mut out, "expected `");
                push_char(&mut out, *expected);
                push_str(&mut out, "`, found `");
                push_char(&mut out, *found);
                push_str(&mut out, "`");
                assert(out@ =~= kind_message(self@));
            },
            ActionParseErrorKind::ExpectedCharGotEof { expected } => {
                push_str(&mut out, "expected `");
                push_char(&mut out, *expected);
                push_str(&mut out, "`, found end of input");
                assert(out@ =~= kind_message(self@));
            },
            ActionParseErrorKind::UnterminatedCharLiteral => {
                push_str(&mut out, "unterminated char literal");
            },
            ActionParseErrorKind::UnterminatedStringLiteral => {
                push_str(&mut out, "unterminated string literal");
            },
            ActionParseErrorKind::InvalidEscape { found } => {
                push_str(&mut out, "invalid escape sequence `\\");
                push_char(&mut out, *found);
                push_str(&mut out, "`");
                assert(out@ =~= kind_message(self@));
            },
            ActionParseErrorKind::TrailingInput => {
                push_str(&mut out, "trailing input after complete action");
            },
        }
        assert(out@ =~= kind_message(self@));
        out
    }
}

impl ActionParseError {
    /// The message describing this error: `"{kind} (at {start}..{end})"`.
    pub fn message(&self) -> (r: String)
        requires
            self.span.start + self.span.len <= usize::MAX,
        ensures
            r@ == error_message(self@),
    {
        let mut out = self.kind.message();
        push_str(&mut out, " (at ");
        push_decimal(&mut out, self.span.start);
        push_str(&mut out, "..");
        push_decimal(&mut out, self.span.end());
        push_str(&mut out, ")");
        assert(out@ =~= error_message(self@));
        out
    }

    /// Renders a diagnostic: the input, then a line of carets under the span
    /// (at least one), followed by the message of the error's kind.
    pub fn render(&self, input: &str) -> (r: String)
        requires
            exists|i: int, j: int|
                0 <= i <= j <= input@.len() && byte_offset(input@, i) == self.span.start
                    && byte_offset(input@, j) == self.span.start + self.span.len,
        ensures
            forall|i: int, j: int|
                0 <= i <= j <= input@.len() && byte_offset(input@, i) == self.span.start
                    && byte_offset(input@, j) == self.span.start + self.span.len ==> r@ == input@
                    + seq!['\n'] + repeat(' ', i as nat) + repeat(
                    '^',
                    if j - i > 0 {
                        (j - i) as nat
                    } else {
                        1
                    },
                ) + seq![' '] + kind_message(self.kind@),
    {
        let chars = chars_of(input);
        let start = self.span.start;
        let nbytes = input.as_bytes().len();
        proof {
            let (i, j) = choose|i: int, j: int|
                0 <= i <= j <= input@.len() && byte_offset(input@, i) == self.span.start
                    && byte_offset(input@, j) == self.span.start + self.span.len;
            lemma_str_len(input);
            lemma_byte_offset_monotonic(input@, j, input@.len() as int);
        }
        let end = self.span.start + self.span.len;
        let n = chars.len();
        let ghost s = input@;
        let ghost (gi, gj) = choose|i: int, j: int|
            0 <= i <= j <= input@.len() && byte_offset(input@, i) == self.span.start
                && byte_offset(input@, j) == self.span.start + self.span.len;
        proof {
            assert(s.take(0) =~= Seq::<char>::empty());
            assert(utf8_len(Seq::<char>::empty()) == 0);
            lemma_byte_offset_monotonic(s, gi, gj);
        }
        // The char index at which the span starts, then the one at which it ends.
        let mut k: usize = 0;
        let mut pos: usize = 0;
        while pos != start
            invariant
                chars@ == s,
                n == s.len(),
                k <= gi <= gj <= n,
                pos == byte_offset(s, k as int),
                byte_offset(s, gi) == start,
                byte_offset(s, gj) == end,
            decreases gi - k,
        {
            assert(k < gi);
            proof {
                lemma_byte_offset_step(s, k as int);
                lemma_byte_offset_monotonic(s, k + 1, gj);
            }
            pos = pos + char_utf8_len(chars[k]);
            k = k + 1;
        }
        proof {
            lemma_offsets_injective(s, k as int, gi);
        }
        let first = k;
        while pos != end
            invariant
                chars@ == s,
                n == s.len(),
                first == gi,
                gi <= k <= gj <= n,
                pos == byte_offset(s, k as int),
                byte_offset(s, gj) == end,
            decreases gj - k,
        {
            assert(k < gj);
            proof {
                lemma_byte_offset_step(s, k as int);
                lemma_byte_offset_monotonic(s, k + 1, gj);
            }
            pos = pos + char_utf8_len(chars[k]);
            k = k + 1;
        }
        proof {
            lemma_offsets_injective(s, k as int, gj);
        }
        let last = k;
        let mut out = String::new();
        push_str(&mut out, input);
        push_char(&mut out, '\n');
        push_repeat(&mut out, ' ', first);
        let width = if last - first > 0 { last - first } else { 1 };
        push_repeat(&mut out, '^', width);
        push_char(&mut out, ' ');
        let msg = self.kind.message();
        push_str(&mut out, msg.as_str());
        proof {
            assert forall|i: int, j: int|
                0 <= i <= j <= input@.len() && byte_offset(input@, i) == self.span.start
                    && byte_offset(input@, j) == self.span.start + self.span.len implies i == gi && j == gj by {
                lemma_offsets_injective(s, i, gi);
                lemma_offsets_injective(s, j, gj);
            }
        }
        out
    }
}

/// Distinct char indices have distinct byte offsets.
pub proof fn lemma_offsets_injective(s: Seq<char>, i: int, j: int)
    requires
        0 <= i <= s.len(),
        0 <= j <= s.len(),
        byte_offset(s, i) == byte_offset(s, j),
    ensures
        i == j,
{
    if i < j {
        lemma_byte_offset_step(s, i);
        lemma_byte_offset_monotonic(s, i + 1, j);
    } else if j < i {
        lemma_byte_offset_step(s, j);
        lemma_byte_offset_monotonic(s, j + 1, i);
    }
}

} // verus!
