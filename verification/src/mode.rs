//! The editor modes.
use vstd::prelude::*;
use crate::text::{eq_ignore_ascii_case, slice_is_ignore_ascii_case};

verus! {

/// The mode the editor is in: it decides what a key press does.
#[derive(Debug, Clone, Copy, PartialEq, Eq, Structural, Hash)]
pub enum Mode {
    Normal,
    Insert,
}

/// The names the modes are written with, in declaration order.
pub open spec fn mode_variant_name(m: Mode) -> Seq<char> {
    match m {
        Mode::Normal => "Normal"@,
        Mode::Insert => "Insert"@,
    }
}

/// The mode spelled `name`, ASCII case ignored.
pub open spec fn mode_from_name_spec(name: Seq<char>) -> Option<Mode> {
    if eq_ignore_ascii_case(name, "Normal"@) {
        Some(Mode::Normal)
    } else if eq_ignore_ascii_case(name, "Insert"@) {
        Some(Mode::Insert)
    } else {
        None
    }
}

impl Mode {
    /// The lowercase name shown to the user.
    pub fn as_str(&self) -> (r: &'static str)
        ensures
            r@ == (match *self {
                Mode::Normal => "normal"@,
                Mode::Insert => "insert"@,
            }),
    {
        match self {
            Mode::Normal => "normal",
            Mode::Insert => "insert",
        }
    }

    /// Every variant name, in declaration order.
    pub fn variants() -> (r: Vec<&'static str>)
        ensures
            r@.len() == 2,
            r@[0]@ == "Normal"@,
            r@[1]@ == "Insert"@,
    {
        let mut v: Vec<&'static str> = Vec::new();
        v.push("Normal");
        v.push("Insert");
        v
    }

    /// Parses a mode name, ignoring ASCII case: `normal`, `Normal` and
    /// `NORMAL` all name [`Mode::Normal`].
    pub fn from_name(chars: &[char], start: usize, end: usize) -> (r: Option<Mode>)
        requires
            start <= end <= chars@.len(),
        ensures
            r == mode_from_name_spec(chars@.subrange(start as int, end as int)),
    {
        if slice_is_ignore_ascii_case(chars, start, end, "Normal") {
            Some(Mode::Normal)
        } else if slice_is_ignore_ascii_case(chars, start, end, "Insert") {
            Some(Mode::Insert)
        } else {
            None
        }
    }
}

impl Default for Mode {
    fn default() -> (r: Self)
        ensures
            r == Mode::Normal,
    {
        Mode::Normal
    }
}

} // verus!
