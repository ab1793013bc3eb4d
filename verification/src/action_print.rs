//! Printing an action as its canonical text, the text the parser reads
//! back to the same action.
use vstd::prelude::*;
use crate::action::{Action, ActionView, Anchor, DeleteDirection, Direction, PasteSource, ParseErrorView, parse_spec};
use crate::action_text::{action_text, char_literal_body, lemma_action_text_parses, string_literal_body, string_literal_char};
use crate::mode::Mode;
use crate::text::{chars_of, push_char, push_str};

verus! {

/// Appending one char to a string literal's content appends its escape.
proof fn lemma_string_body_push(v: Seq<char>, c: char)
    ensures
        string_literal_body(v.push(c)) == string_literal_body(v) + string_literal_char(c),
    decreases v.len(),
{
    if v.len() == 0 {
        assert(v.push(c).drop_first() =~= Seq::<char>::empty());
        assert(string_literal_body(Seq::<char>::empty()) == Seq::<char>::empty());
        assert(string_literal_body(v) == Seq::<char>::empty());
        assert(string_literal_body(v.push(c)) =~= string_literal_char(c));
    } else {
        lemma_string_body_push(v.drop_first(), c);
        assert(v.push(c).drop_first() =~= v.drop_first().push(c));
        assert(string_literal_body(v.push(c)) =~= string_literal_char(v[0]) + (string_literal_body(v.drop_first())
            + string_literal_char(c)));
    }
}

/// Appends the escape of `c` for a `'...'` char literal (`quote` is `'`)
/// or a `"..."` string literal (`quote` is `"`).
fn push_escaped(out: &mut String, c: char, quote: char)
    requires
        quote == '\'' || quote == '"',
    ensures
        final(out)@ == old(out)@ + (if quote == '\'' { char_literal_body(c) } else { string_literal_char(c) }),
{
    let escaped = if c == '\\' {
        Some('\\')
    } else if c == quote {
        Some(quote)
    } else if c == '\n' {
        Some('n')
    } else if c == '\t' {
        Some('t')
    } else if c == '\r' {
        Some('r')
    } else if c == '\0' {
        Some('0')
    } else {
        None
    };
    match escaped {
        Some(e) => {
            push_char(out, '\\');
            push_char(out, e);
        },
        None => push_char(out, c),
    }
}

impl Action {
    /// The canonical text of this action, as `action_text` gives it: the
    /// text `Action::parse` reads back to this same action.
    pub fn to_text(&self) -> (r: String)
        ensures
            r@ == action_text(self@),
    {
        let mut out = String::new();
        match self {
            Action::Quit => push_str(&mut out, "Quit"),
            Action::FocusGained => push_str(&mut out, "FocusGained"),
            Action::FocusLost => push_str(&mut out, "FocusLost"),
            Action::Redraw => push_str(&mut out, "Redraw"),
            Action::OpenPopup => push_str(&mut out, "OpenPopup"),
            Action::PasteRawString(v) => {
                push_str(&mut out, "PasteRawString");
                push_char(&mut out, '(');
                push_char(&mut out, '"');
                let ghost head = out@;
                let chars = chars_of(v.as_str());
                let mut i: usize = 0;
                while i < chars.len()
                    invariant
                        i <= chars@.len(),
                        chars@ == v@,
                        out@ == head + string_literal_body(chars@.take(i as int)),
                    decreases chars@.len() - i,
                {
                    proof {
                        lemma_string_body_push(chars@.take(i as int), chars@[i as int]);
                        assert(chars@.take(i as int).push(chars@[i as int]) =~= chars@.take(i + 1));
                    }
                    push_escaped(&mut out, chars[i], '"');
                    i = i + 1;
                }
                assert(chars@.take(chars@.len() as int) =~= v@);
                push_char(&mut out, '"');
                push_char(&mut out, ')');
            },
            Action::Paste(p) => {
                push_str(&mut out, "Paste");
                push_char(&mut out, '(');
                match p {
                    PasteSource::Internal => push_str(&mut out, "Internal"),
                    PasteSource::System => push_str(&mut out, "System"),
                }
                push_char(&mut out, ')');
            },
            Action::ChangeMode(m) => {
                push_str(&mut out, "ChangeMode");
                push_char(&mut out, '(');
                match m {
                    Mode::Normal => push_str(&mut out, "Normal"),
                    Mode::Insert => push_str(&mut out, "Insert"),
                }
                push_char(&mut out, ')');
            },
            Action::MoveAnchor(a, d) => {
                push_str(&mut out, "MoveAnchor");
                push_char(&mut out, '(');
                match a {
                    Anchor::Tail => push_str(&mut out, "Tail"),
                    Anchor::Head => push_str(&mut out, "Head"),
                }
                push_char(&mut out, ',');
                push_char(&mut out, ' ');
                match d {
                    Direction::Up => push_str(&mut out, "Up"),
                    Direction::Down => push_str(&mut out, "Down"),
                    Direction::Right => push_str(&mut out, "Right"),
                    Direction::Left => push_str(&mut out, "Left"),
                    Direction::StartOfLine => push_str(&mut out, "StartOfLine"),
                    Direction::EndOfLine => push_str(&mut out, "EndOfLine"),
                    Direction::StartOfFile => push_str(&mut out, "StartOfFile"),
                    Direction::EndOfFile => push_str(&mut out, "EndOfFile"),
                    Direction::PageUp => push_str(&mut out, "PageUp"),
                    Direction::PageDown => push_str(&mut out, "PageDown"),
                }
                push_char(&mut out, ')');
            },
            Action::Insert(c) => {
                push_str(&mut out, "Insert");
                push_char(&mut out, '(');
                push_char(&mut out, '\'');
                push_escaped(&mut out, *c, '\'');
                push_char(&mut out, '\'');
                push_char(&mut out, ')');
            },
            Action::Delete(d) => {
                push_str(&mut out, "Delete");
                push_char(&mut out, '(');
                match d {
                    DeleteDirection::Left => push_str(&mut out, "Left"),
                    DeleteDirection::Right => push_str(&mut out, "Right"),
                }
                push_char(&mut out, ')');
            },
        }
        assert(out@ =~= action_text(self@));
        out
    }
}

/// Parsing the canonical text of an action gives the action back.
pub proof fn lemma_to_text_round_trip(a: Action)
    ensures
        parse_spec(action_text(a@)) == Ok::<ActionView, ParseErrorView>(a@),
{
    lemma_action_text_parses(a@);
}

} // verus!
