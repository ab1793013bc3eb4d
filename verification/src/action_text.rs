//! The canonical text of an action, and the law that ties it to the parser:
//! the text of every action parses back to that same action.
use vstd::prelude::*;
use crate::action::{
    ActionView, Anchor, DeleteDirection, Direction, PasteSource, action_spec, char_lit_spec,
    close_spec, escape_spec, expect_spec, ident_end, ident_spec, is_ident_char, match_spec,
    parse_spec, skip_ws, str_body_spec, str_lit_spec, paste_source_named, delete_direction_named,
    anchor_named, direction_named, paste_args_spec, change_mode_args_spec, delete_args_spec,
    move_anchor_args_spec, insert_args_spec, paste_raw_args_spec, enum_arg_spec,
};
use crate::mode::{Mode, mode_from_name_spec, mode_variant_name};
use crate::text::{is_whitespace_spec, is_ascii_alphanumeric_spec, eq_ignore_ascii_case, ascii_lower};

verus! {

/// How `c` is written inside a `'...'` char literal.
pub open spec fn char_literal_body(c: char) -> Seq<char> {
    if c == '\\' {
        seq!['\\', '\\']
    } else if c == '\'' {
        seq!['\\', '\'']
    } else if c == '\n' {
        seq!['\\', 'n']
    } else if c == '\t' {
        seq!['\\', 't']
    } else if c == '\r' {
        seq!['\\', 'r']
    } else if c == '\0' {
        seq!['\\', '0']
    } else {
        seq![c]
    }
}

/// How `c` is written inside a `"..."` string literal.
pub open spec fn string_literal_char(c: char) -> Seq<char> {
    if c == '\\' {
        seq!['\\', '\\']
    } else if c == '"' {
        seq!['\\', '"']
    } else if c == '\n' {
        seq!['\\', 'n']
    } else if c == '\t' {
        seq!['\\', 't']
    } else if c == '\r' {
        seq!['\\', 'r']
    } else if c == '\0' {
        seq!['\\', '0']
    } else {
        seq![c]
    }
}

/// How `v` is written between the quotes of a string literal.
pub open spec fn string_literal_body(v: Seq<char>) -> Seq<char>
    decreases v.len(),
{
    if v.len() == 0 {
        Seq::empty()
    } else {
        string_literal_char(v[0]) + string_literal_body(v.drop_first())
    }
}

pub open spec fn paste_source_name(p: PasteSource) -> Seq<char> {
    match p {
        PasteSource::Internal => "Internal"@,
        PasteSource::System => "System"@,
    }
}

pub open spec fn delete_direction_name(d: DeleteDirection) -> Seq<char> {
    match d {
        DeleteDirection::Left => "Left"@,
        DeleteDirection::Right => "Right"@,
    }
}

pub open spec fn anchor_name(a: Anchor) -> Seq<char> {
    match a {
        Anchor::Tail => "Tail"@,
        Anchor::Head => "Head"@,
    }
}

pub open spec fn direction_name(d: Direction) -> Seq<char> {
    match d {
        Direction::Up => "Up"@,
        Direction::Down => "Down"@,
        Direction::Right => "Right"@,
        Direction::Left => "Left"@,
        Direction::StartOfLine => "StartOfLine"@,
        Direction::EndOfLine => "EndOfLine"@,
        Direction::StartOfFile => "StartOfFile"@,
        Direction::EndOfFile => "EndOfFile"@,
        Direction::PageUp => "PageUp"@,
        Direction::PageDown => "PageDown"@,
    }
}

/// `name(arg)`.
pub open spec fn call(name: Seq<char>, arg: Seq<char>) -> Seq<char> {
    name + seq!['('] + arg + seq![')']
}

/// The canonical text of an action: the way Rust's `Debug` writes it, with
/// the escapes the action language knows (`\\`, `\'`, `\"`, `\n`, `\t`,
/// `\r`, `\0`) and every other char written as it is.
pub open spec fn action_text(a: ActionView) -> Seq<char> {
    match a {
        ActionView::Quit => "Quit"@,
        ActionView::FocusGained => "FocusGained"@,
        ActionView::FocusLost => "FocusLost"@,
        ActionView::Redraw => "Redraw"@,
        ActionView::OpenPopup => "OpenPopup"@,
        ActionView::PasteRawString(v) => call(
            "PasteRawString"@,
            seq!['"'] + string_literal_body(v) + seq!['"'],
        ),
        ActionView::Paste(p) => call("Paste"@, paste_source_name(p)),
        ActionView::ChangeMode(m) => call("ChangeMode"@, mode_variant_name(m)),
        ActionView::MoveAnchor(a, d) => call(
            "MoveAnchor"@,
            anchor_name(a) + seq![',', ' '] + direction_name(d),
        ),
        ActionView::Insert(c) => call("Insert"@, seq!['\''] + char_literal_body(c) + seq!['\'']),
        ActionView::Delete(d) => call("Delete"@, delete_direction_name(d)),
    }
}

pub open spec fn all_ascii_letters(n: Seq<char>) -> bool {
    forall|k: int| 0 <= k < n.len() ==> ('a' <= #[trigger] n[k] <= 'z' || 'A' <= n[k] <= 'Z')
}

proof fn reveal_names()
    ensures
        "Quit"@ =~= seq!['Q', 'u', 'i', 't'],
        "FocusGained"@ =~= seq!['F', 'o', 'c', 'u', 's', 'G', 'a', 'i', 'n', 'e', 'd'],
        "FocusLost"@ =~= seq!['F', 'o', 'c', 'u', 's', 'L', 'o', 's', 't'],
        "Redraw"@ =~= seq!['R', 'e', 'd', 'r', 'a', 'w'],
        "OpenPopup"@ =~= seq!['O', 'p', 'e', 'n', 'P', 'o', 'p', 'u', 'p'],
        "PasteRawString"@ =~= seq!['P', 'a', 's', 't', 'e', 'R', 'a', 'w', 'S', 't', 'r', 'i', 'n', 'g'],
        "Paste"@ =~= seq!['P', 'a', 's', 't', 'e'],
        "ChangeMode"@ =~= seq!['C', 'h', 'a', 'n', 'g', 'e', 'M', 'o', 'd', 'e'],
        "Insert"@ =~= seq!['I', 'n', 's', 'e', 'r', 't'],
        "Delete"@ =~= seq!['D', 'e', 'l', 'e', 't', 'e'],
        "MoveAnchor"@ =~= seq!['M', 'o', 'v', 'e', 'A', 'n', 'c', 'h', 'o', 'r'],
{
    reveal_strlit("Quit");
    reveal_strlit("FocusGained");
    reveal_strlit("FocusLost");
    reveal_strlit("Redraw");
    reveal_strlit("OpenPopup");
    reveal_strlit("PasteRawString");
    reveal_strlit("Paste");
    reveal_strlit("ChangeMode");
    reveal_strlit("Insert");
    reveal_strlit("Delete");
    reveal_strlit("MoveAnchor");
}

proof fn reveal_value_names()
    ensures
        "Internal"@ =~= seq!['I', 'n', 't', 'e', 'r', 'n', 'a', 'l'],
        "System"@ =~= seq!['S', 'y', 's', 't', 'e', 'm'],
        "Left"@ =~= seq!['L', 'e', 'f', 't'],
        "Right"@ =~= seq!['R', 'i', 'g', 'h', 't'],
        "Tail"@ =~= seq!['T', 'a', 'i', 'l'],
        "Head"@ =~= seq!['H', 'e', 'a', 'd'],
        "Normal"@ =~= seq!['N', 'o', 'r', 'm', 'a', 'l'],
        "Insert"@ =~= seq!['I', 'n', 's', 'e', 'r', 't'],
        "Up"@ =~= seq!['U', 'p'],
        "Down"@ =~= seq!['D', 'o', 'w', 'n'],
        "StartOfLine"@ =~= seq!['S', 't', 'a', 'r', 't', 'O', 'f', 'L', 'i', 'n', 'e'],
        "EndOfLine"@ =~= seq!['E', 'n', 'd', 'O', 'f', 'L', 'i', 'n', 'e'],
        "StartOfFile"@ =~= seq!['S', 't', 'a', 'r', 't', 'O', 'f', 'F', 'i', 'l', 'e'],
        "EndOfFile"@ =~= seq!['E', 'n', 'd', 'O', 'f', 'F', 'i', 'l', 'e'],
        "PageUp"@ =~= seq!['P', 'a', 'g', 'e', 'U', 'p'],
        "PageDown"@ =~= seq!['P', 'a', 'g', 'e', 'D', 'o', 'w', 'n'],
{
    reveal_strlit("Internal");
    reveal_strlit("System");
    reveal_strlit("Left");
    reveal_strlit("Right");
    reveal_strlit("Tail");
    reveal_strlit("Head");
    reveal_strlit("Normal");
    reveal_strlit("Insert");
    reveal_strlit("Up");
    reveal_strlit("Down");
    reveal_strlit("StartOfLine");
    reveal_strlit("EndOfLine");
    reveal_strlit("StartOfFile");
    reveal_strlit("EndOfFile");
    reveal_strlit("PageUp");
    reveal_strlit("PageDown");
}

/// A run of ASCII letters followed by a char that can't continue an
/// identifier (or by the end) is one whole identifier.
proof fn lemma_ident_end(s: Seq<char>, i: int, n: Seq<char>)
    requires
        0 <= i,
        i + n.len() <= s.len(),
        s.subrange(i, i + n.len()) == n,
        all_ascii_letters(n),
        i + n.len() == s.len() || !is_ident_char(s[i + n.len()]),
    ensures
        ident_end(s, i) == i + n.len(),
    decreases n.len(),
{
    if n.len() > 0 {
        assert(s[i] == n[0]);
        assert(is_ident_char(s[i]));
        assert(s.subrange(i + 1, i + n.len()) =~= n.drop_first());
        lemma_ident_end(s, i + 1, n.drop_first());
    }
}

proof fn lemma_skip_none(s: Seq<char>, i: int)
    requires
        0 <= i <= s.len(),
        i < s.len() ==> !is_whitespace_spec(s[i]),
    ensures
        skip_ws(s, i) == i,
{
}

/// The body of a string literal written canonically reads back as the value.
proof fn lemma_string_body(s: Seq<char>, start: int, j: int, v: Seq<char>)
    requires
        0 <= j,
        j + string_literal_body(v).len() + 1 <= s.len(),
        s.subrange(j, j + string_literal_body(v).len() + 1) == string_literal_body(v) + seq!['"'],
    ensures
        str_body_spec(s, start, j) == Ok::<(Seq<char>, int), crate::action::ParseErrorView>(
            (v, j + string_literal_body(v).len() + 1),
        ),
    decreases v.len(),
{
    let body = string_literal_body(v);
    if v.len() == 0 {
        assert(s[j] == (body + seq!['"'])[0]);
        assert(v =~= Seq::<char>::empty());
    } else {
        let c = v[0];
        let w = string_literal_char(c);
        let rest = string_literal_body(v.drop_first());
        assert(body == w + rest);
        assert(s.subrange(j + w.len(), j + w.len() + rest.len() + 1) =~= rest + seq!['"']) by {
            assert forall|k: int| 0 <= k < rest.len() + 1 implies s.subrange(j + w.len(), j + w.len() + rest.len() + 1)[k] == (rest + seq!['"'])[k] by {
                assert(s.subrange(j, j + body.len() + 1)[w.len() + k] == (body + seq!['"'])[w.len() + k]);
            }
        }
        lemma_string_body(s, start, j + w.len(), v.drop_first());
        assert(s[j] == (body + seq!['"'])[0]);
        assert(seq![c] + v.drop_first() =~= v);
        if w.len() == 2 {
            assert(s[j + 1] == (body + seq!['"'])[1]);
            assert(s[j] == '\\');
            assert(escape_spec(s[j + 1]) == Some(c));
        } else {
            assert(w == seq![c]);
            assert(s[j] == c);
            assert(c != '"' && c != '\\');
        }
    }
}

/// A string literal written canonically reads back as the value.
proof fn lemma_string_literal(s: Seq<char>, i: int, v: Seq<char>)
    requires
        0 <= i,
        i + string_literal_body(v).len() + 2 <= s.len(),
        s.subrange(i, i + string_literal_body(v).len() + 2) == seq!['"'] + string_literal_body(v) + seq!['"'],
    ensures
        str_lit_spec(s, i) == Ok::<(Seq<char>, int), crate::action::ParseErrorView>(
            (v, i + string_literal_body(v).len() + 2),
        ),
{
    let body = string_literal_body(v);
    assert(s[i] == (seq!['"'] + body + seq!['"'])[0]);
    assert(s.subrange(i + 1, i + 1 + body.len() + 1) =~= body + seq!['"']) by {
        assert forall|k: int| 0 <= k < body.len() + 1 implies s.subrange(i + 1, i + 1 + body.len() + 1)[k] == (body + seq!['"'])[k] by {
            assert(s.subrange(i, i + body.len() + 2)[1 + k] == (seq!['"'] + body + seq!['"'])[1 + k]);
        }
    }
    lemma_string_body(s, i, i + 1, v);
}

/// A char literal written canonically reads back as the char.
proof fn lemma_char_literal(s: Seq<char>, i: int, c: char)
    requires
        0 <= i,
        i + char_literal_body(c).len() + 2 <= s.len(),
        s.subrange(i, i + char_literal_body(c).len() + 2) == seq!['\''] + char_literal_body(c) + seq!['\''],
    ensures
        char_lit_spec(s, i) == Ok::<(char, int), crate::action::ParseErrorView>(
            (c, i + char_literal_body(c).len() + 2),
        ),
{
    let lit = seq!['\''] + char_literal_body(c) + seq!['\''];
    assert(s[i] == lit[0]);
    assert(s[i + 1] == lit[1]);
    assert(s[i + 2] == lit[2]);
    if char_literal_body(c).len() == 2 {
        assert(s[i + 3] == lit[3]);
    }
}


/// An action's name at the start of `s`, followed by the end or by `(`, is
/// read as one identifier.
proof fn lemma_head(s: Seq<char>, name: Seq<char>, expected: Seq<char>)
    requires
        name.len() > 0,
        name.len() <= s.len(),
        s.subrange(0, name.len() as int) == name,
        all_ascii_letters(name),
        name.len() == s.len() || s[name.len() as int] == '(',
    ensures
        skip_ws(s, 0) == 0,
        ident_spec(s, skip_ws(s, 0), expected) == Ok::<(int, int), crate::action::ParseErrorView>((0, name.len() as int)),
{
    assert(s[0] == name[0]);
    lemma_skip_none(s, 0);
    lemma_ident_end(s, 0, name);
}

/// An enum value's name right at `i`, followed by `)` or `,`, is read as one
/// identifier, after no whitespace.
proof fn lemma_value(s: Seq<char>, i: int, name: Seq<char>, expected: Seq<char>)
    requires
        0 <= i,
        name.len() > 0,
        i + name.len() < s.len(),
        s.subrange(i, i + name.len()) == name,
        all_ascii_letters(name),
        s[i + name.len()] == ')' || s[i + name.len()] == ',',
    ensures
        skip_ws(s, i) == i,
        ident_spec(s, skip_ws(s, i), expected) == Ok::<(int, int), crate::action::ParseErrorView>((i, i + name.len())),
{
    assert(s[i] == s.subrange(i, i + name.len())[0]);
    lemma_skip_none(s, i);
    lemma_ident_end(s, i, name);
}

/// `c` right at `i` (with no whitespace before it) is expected there.
proof fn lemma_expect(s: Seq<char>, i: int, c: char)
    requires
        0 <= i < s.len(),
        s[i] == c,
        !is_whitespace_spec(c),
    ensures
        expect_spec(s, i, c) == Ok::<int, crate::action::ParseErrorView>(i + 1),
{
    lemma_skip_none(s, i);
}

proof fn lemma_names_letters()
    ensures
        all_ascii_letters("Quit"@),
        all_ascii_letters("FocusGained"@),
        all_ascii_letters("FocusLost"@),
        all_ascii_letters("Redraw"@),
        all_ascii_letters("OpenPopup"@),
        all_ascii_letters("PasteRawString"@),
        all_ascii_letters("Paste"@),
        all_ascii_letters("ChangeMode"@),
        all_ascii_letters("Insert"@),
        all_ascii_letters("Delete"@),
        all_ascii_letters("MoveAnchor"@),
        forall|p: PasteSource| all_ascii_letters(#[trigger] paste_source_name(p)) && paste_source_name(p).len() > 0,
        forall|d: DeleteDirection| all_ascii_letters(#[trigger] delete_direction_name(d)) && delete_direction_name(d).len() > 0,
        forall|a: Anchor| all_ascii_letters(#[trigger] anchor_name(a)) && anchor_name(a).len() > 0,
        forall|d: Direction| all_ascii_letters(#[trigger] direction_name(d)) && direction_name(d).len() > 0,
        forall|m: Mode| all_ascii_letters(#[trigger] mode_variant_name(m)) && mode_variant_name(m).len() > 0,
{
    reveal_names();
    reveal_value_names();
}

/// Every value name is read back as that value.
proof fn lemma_value_names_read_back()
    ensures
        forall|p: PasteSource| paste_source_named(#[trigger] paste_source_name(p)) == Some(p),
        forall|d: DeleteDirection| delete_direction_named(#[trigger] delete_direction_name(d)) == Some(d),
        forall|a: Anchor| anchor_named(#[trigger] anchor_name(a)) == Some(a),
        forall|d: Direction| direction_named(#[trigger] direction_name(d)) == Some(d),
        forall|m: Mode| mode_from_name_spec(#[trigger] mode_variant_name(m)) == Some(m),
{
    reveal_value_names();
    assert(eq_ignore_ascii_case("Normal"@, "Normal"@));
    assert(eq_ignore_ascii_case("Insert"@, "Insert"@));
    assert(ascii_lower("Insert"@[0]) != ascii_lower("Normal"@[0]));
    assert(!eq_ignore_ascii_case("Insert"@, "Normal"@));
}

/// The text of an action with arguments, `name(arg)`, split at the parens.
proof fn lemma_call_parts(name: Seq<char>, arg: Seq<char>)
    ensures
        ({
            let s = call(name, arg);
            &&& s.len() == name.len() + arg.len() + 2
            &&& s.subrange(0, name.len() as int) == name
            &&& s[name.len() as int] == '('
            &&& s.subrange(name.len() + 1int, name.len() + 1int + arg.len()) == arg
            &&& s[name.len() + 1int + arg.len()] == ')'
        }),
{
    let s = call(name, arg);
    assert(s.subrange(0, name.len() as int) =~= name);
    assert(s.subrange(name.len() + 1int, name.len() + 1int + arg.len()) =~= arg);
}

proof fn lemma_sub_at(s: Seq<char>, a: int, b: int, k: int)
    requires
        0 <= a <= a + k < b <= s.len(),
    ensures
        s.subrange(a, b)[k] == s[a + k],
{
}

/// `Paste(..)`, `ChangeMode(..)` and `Delete(..)`: one value name between
/// parens.
proof fn lemma_one_value_args(s: Seq<char>, n: int, v: Seq<char>, expected: Seq<char>)
    requires
        s == call(s.subrange(0, n), v),
        0 < n,
        n + v.len() + 2 == s.len(),
        v.len() > 0,
        all_ascii_letters(v),
    ensures
        enum_arg_spec(s, n, expected) == Ok::<(int, int, int), crate::action::ParseErrorView>((n + 1, n + 1 + v.len(), n + 1 + v.len())),
        s.subrange(n + 1, n + 1 + v.len()) == v,
        expect_spec(s, n + 1 + v.len(), ')') == Ok::<int, crate::action::ParseErrorView>(s.len() as int),
{
    lemma_call_parts(s.subrange(0, n), v);
    lemma_expect(s, n, '(');
    lemma_value(s, n + 1, v, expected);
    lemma_expect(s, n + 1 + v.len(), ')');
}

proof fn lemma_unit(a: ActionView, name: Seq<char>)
    requires
        action_text(a) == name,
        name.len() > 0,
        all_ascii_letters(name),
        action_spec(name, 0) == Ok::<(ActionView, int), crate::action::ParseErrorView>((a, name.len() as int)),
    ensures
        parse_spec(action_text(a)) == Ok::<ActionView, crate::action::ParseErrorView>(a),
{
    lemma_skip_none(name, name.len() as int);
}

proof fn lemma_unit_text(a: ActionView)
    requires
        a is Quit || a is FocusGained || a is FocusLost || a is Redraw || a is OpenPopup,
    ensures
        parse_spec(action_text(a)) == Ok::<ActionView, crate::action::ParseErrorView>(a),
{
    reveal_names();
    lemma_names_letters();
    let s = action_text(a);
    assert(s.subrange(0, s.len() as int) =~= s);
    lemma_head(s, s, "an action name"@);
    lemma_unit(a, s);
}

proof fn lemma_paste_text(p: PasteSource)
    ensures
        parse_spec(action_text(ActionView::Paste(p))) == Ok::<ActionView, crate::action::ParseErrorView>(ActionView::Paste(p)),
{
    reveal_names();
    lemma_names_letters();
    lemma_value_names_read_back();
    let a = ActionView::Paste(p);
    let s = action_text(a);
    let name = "Paste"@;
    let v = paste_source_name(p);
    lemma_call_parts(name, v);
    lemma_head(s, name, "an action name"@);
    assert(s == call(s.subrange(0, 5), v));
    lemma_one_value_args(s, 5, v, "a PasteSource value"@);
    assert(paste_args_spec(s, 5) == Ok::<(ActionView, int), crate::action::ParseErrorView>((a, s.len() as int)));
    lemma_skip_none(s, s.len() as int);
}

proof fn lemma_delete_text(d: DeleteDirection)
    ensures
        parse_spec(action_text(ActionView::Delete(d))) == Ok::<ActionView, crate::action::ParseErrorView>(ActionView::Delete(d)),
{
    reveal_names();
    lemma_names_letters();
    lemma_value_names_read_back();
    let a = ActionView::Delete(d);
    let s = action_text(a);
    let name = "Delete"@;
    let v = delete_direction_name(d);
    lemma_call_parts(name, v);
    lemma_head(s, name, "an action name"@);
    assert(s == call(s.subrange(0, 6), v));
    lemma_one_value_args(s, 6, v, "a DeleteDirection value"@);
    assert(delete_args_spec(s, 6) == Ok::<(ActionView, int), crate::action::ParseErrorView>((a, s.len() as int)));
    lemma_skip_none(s, s.len() as int);
}

proof fn lemma_change_mode_text(m: Mode)
    ensures
        parse_spec(action_text(ActionView::ChangeMode(m))) == Ok::<ActionView, crate::action::ParseErrorView>(ActionView::ChangeMode(m)),
{
    reveal_names();
    lemma_names_letters();
    lemma_value_names_read_back();
    let a = ActionView::ChangeMode(m);
    let s = action_text(a);
    let name = "ChangeMode"@;
    let v = mode_variant_name(m);
    lemma_call_parts(name, v);
    lemma_head(s, name, "an action name"@);
    assert(s == call(s.subrange(0, 10), v));
    lemma_one_value_args(s, 10, v, "a Mode value"@);
    assert(change_mode_args_spec(s, 10) == Ok::<(ActionView, int), crate::action::ParseErrorView>((a, s.len() as int)));
    lemma_skip_none(s, s.len() as int);
}

#[verifier::rlimit(40)]
proof fn lemma_move_anchor_text(an: Anchor, d: Direction)
    ensures
        parse_spec(action_text(ActionView::MoveAnchor(an, d))) == Ok::<ActionView, crate::action::ParseErrorView>(ActionView::MoveAnchor(an, d)),
{
    reveal_names();
    lemma_names_letters();
    lemma_value_names_read_back();
    let a = ActionView::MoveAnchor(an, d);
    let s = action_text(a);
    let name = "MoveAnchor"@;
    let va = anchor_name(an);
    let vd = direction_name(d);
    let arg = va + seq![',', ' '] + vd;
    lemma_call_parts(name, arg);
    lemma_head(s, name, "an action name"@);
    let n = 10int;
    lemma_expect(s, n, '(');
    assert(s.subrange(n + 1, n + 1 + va.len()) =~= va) by {
        assert forall|k: int| 0 <= k < va.len() implies s.subrange(n + 1, n + 1 + va.len())[k] == va[k] by {
            lemma_sub_at(s, n + 1, n + 1 + arg.len(), k);
            assert(arg[k] == va[k]);
        }
    }
    lemma_sub_at(s, n + 1, n + 1 + arg.len(), va.len() as int);
    assert(arg[va.len() as int] == ',');
    lemma_value(s, n + 1, va, "an Anchor value"@);
    let j = n + 1 + va.len();
    lemma_expect(s, j, ',');
    lemma_sub_at(s, n + 1, n + 1 + arg.len(), va.len() + 1int);
    assert(arg[va.len() + 1int] == ' ');
    assert(skip_ws(s, j + 1) == skip_ws(s, j + 2));
    let d0 = j + 2;
    assert(s.subrange(d0, d0 + vd.len()) =~= vd) by {
        assert forall|k: int| 0 <= k < vd.len() implies s.subrange(d0, d0 + vd.len())[k] == vd[k] by {
            lemma_sub_at(s, n + 1, n + 1 + arg.len(), va.len() + 2 + k);
            assert(arg[va.len() + 2 + k] == vd[k]);
        }
    }
    lemma_value(s, d0, vd, "a Direction value"@);
    lemma_expect(s, d0 + vd.len(), ')');
    assert(enum_arg_spec(s, n, "an Anchor value"@) == Ok::<(int, int, int), crate::action::ParseErrorView>((n + 1, j, j)));
    assert(anchor_named(s.subrange(n + 1, j)) == Some(an));
    assert(expect_spec(s, j, ',') == Ok::<int, crate::action::ParseErrorView>(j + 1));
    assert(skip_ws(s, j + 1) == d0);
    assert(direction_named(s.subrange(d0, d0 + vd.len())) == Some(d));
    assert(close_spec(s, a, d0 + vd.len()) == Ok::<(ActionView, int), crate::action::ParseErrorView>((a, s.len() as int)));
    assert(move_anchor_args_spec(s, n) == Ok::<(ActionView, int), crate::action::ParseErrorView>((a, s.len() as int)));
    lemma_skip_none(s, s.len() as int);
}

proof fn lemma_insert_text(c: char)
    ensures
        parse_spec(action_text(ActionView::Insert(c))) == Ok::<ActionView, crate::action::ParseErrorView>(ActionView::Insert(c)),
{
    reveal_names();
    lemma_names_letters();
    let a = ActionView::Insert(c);
    let s = action_text(a);
    let name = "Insert"@;
    let lit = seq!['\''] + char_literal_body(c) + seq!['\''];
    lemma_call_parts(name, lit);
    lemma_head(s, name, "an action name"@);
    let n = 6int;
    lemma_expect(s, n, '(');
    lemma_char_literal(s, n + 1, c);
    lemma_expect(s, n + 1 + lit.len(), ')');
    assert(insert_args_spec(s, n) == Ok::<(ActionView, int), crate::action::ParseErrorView>((a, s.len() as int)));
    lemma_skip_none(s, s.len() as int);
}

proof fn lemma_paste_raw_text(v: Seq<char>)
    ensures
        parse_spec(action_text(ActionView::PasteRawString(v))) == Ok::<ActionView, crate::action::ParseErrorView>(ActionView::PasteRawString(v)),
{
    reveal_names();
    lemma_names_letters();
    let a = ActionView::PasteRawString(v);
    let s = action_text(a);
    let name = "PasteRawString"@;
    let lit = seq!['"'] + string_literal_body(v) + seq!['"'];
    lemma_call_parts(name, lit);
    lemma_head(s, name, "an action name"@);
    let n = 14int;
    lemma_expect(s, n, '(');
    lemma_string_literal(s, n + 1, v);
    lemma_expect(s, n + 1 + lit.len(), ')');
    assert(paste_raw_args_spec(s, n) == Ok::<(ActionView, int), crate::action::ParseErrorView>((a, s.len() as int)));
    lemma_skip_none(s, s.len() as int);
}

/// The canonical text of every action parses back to that action.
pub proof fn lemma_action_text_parses(a: ActionView)
    ensures
        parse_spec(action_text(a)) == Ok::<ActionView, crate::action::ParseErrorView>(a),
{
    match a {
        ActionView::Paste(p) => lemma_paste_text(p),
        ActionView::Delete(d) => lemma_delete_text(d),
        ActionView::ChangeMode(m) => lemma_change_mode_text(m),
        ActionView::MoveAnchor(an, d) => lemma_move_anchor_text(an, d),
        ActionView::Insert(c) => lemma_insert_text(c),
        ActionView::PasteRawString(v) => lemma_paste_raw_text(v),
        _ => lemma_unit_text(a),
    }
}

} // verus!
