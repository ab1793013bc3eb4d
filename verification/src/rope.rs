//! The text of a buffer, held in a `ropey::Rope`, seen as its lines.
use vstd::prelude::*;
use ropey::Rope;
use crate::screen_buffer::concat;

verus! {

#[verifier::external_type_specification]
#[verifier::external_body]
pub struct ExRope(Rope);

/// The text a rope holds.
pub uninterp spec fn rope_text(rope: Rope) -> Seq<char>;

/// A char that is a line break on its own: LF, VT, FF, CR, NEL, LINE
/// SEPARATOR or PARAGRAPH SEPARATOR (what Ropey recognizes with its default
/// features).
pub open spec fn is_line_break(c: char) -> bool {
    ||| c == '\n'
    ||| c == '\u{b}'
    ||| c == '\u{c}'
    ||| c == '\r'
    ||| c == '\u{85}'
    ||| c == '\u{2028}'
    ||| c == '\u{2029}'
}

/// The line break at `i` ends a line there: a CR followed by an LF does not,
/// the pair is one line break ending with the LF.
pub open spec fn ends_line_at(t: Seq<char>, i: int) -> bool {
    &&& 0 <= i < t.len()
    &&& is_line_break(t[i])
    &&& !(t[i] == '\r' && i + 1 < t.len() && t[i + 1] == '\n')
}

/// The index just after the first line break of `t` at or after `i`, if
/// there is one.
pub open spec fn first_line_end_from(t: Seq<char>, i: int) -> Option<int>
    decreases t.len() - i,
{
    if i < 0 || i >= t.len() {
        None
    } else if ends_line_at(t, i) {
        Some(i + 1)
    } else {
        first_line_end_from(t, i + 1)
    }
}

pub proof fn lemma_first_line_end_range(t: Seq<char>, i: int)
    ensures
        first_line_end_from(t, i) matches Some(e) ==> 0 <= i < e <= t.len() && ends_line_at(t, e - 1)
            && forall|k: int| i <= k < e - 1 ==> !ends_line_at(t, k),
        first_line_end_from(t, i) is None ==> forall|k: int| 0 <= i <= k ==> !ends_line_at(t, k),
    decreases t.len() - i,
{
    if 0 <= i < t.len() && !ends_line_at(t, i) {
        lemma_first_line_end_range(t, i + 1);
    }
}

/// The lines of `t` as Ropey sees them: a line ends just after a line
/// break, which it includes; the last line has none and may be empty (so
/// `"a\nb\n"` has the lines `"a\n"`, `"b\n"` and `""`).
pub closed spec fn split_lines(t: Seq<char>) -> Seq<Seq<char>>
    decreases t.len(),
{
    match first_line_end_from(t, 0) {
        Some(e) => {
            proof {
                lemma_first_line_end_range(t, 0);
            }
            seq![t.take(e)] + split_lines(t.skip(e))
        },
        None => seq![t],
    }
}

/// The lines of a rope, in order, each with its line break.
pub open spec fn rope_lines(rope: Rope) -> Seq<Seq<char>> {
    split_lines(rope_text(rope))
}

/// The char index at which line `line` starts.
pub open spec fn line_start(lines: Seq<Seq<char>>, line: int) -> int {
    concat(lines.take(line)).len() as int
}

proof fn lemma_concat_prepend(first: Seq<char>, rest: Seq<Seq<char>>)
    ensures
        concat(seq![first] + rest) == first + concat(rest),
    decreases rest.len(),
{
    if rest.len() == 0 {
        assert(seq![first] + rest =~= seq![first]);
        assert(seq![first].drop_last() =~= Seq::<Seq<char>>::empty());
        assert(first + concat(rest) =~= first);
        assert(concat(seq![first].drop_last()) + seq![first].last() =~= first);
    } else {
        lemma_concat_prepend(first, rest.drop_last());
        assert((seq![first] + rest).drop_last() =~= seq![first] + rest.drop_last());
        assert(first + concat(rest) =~= first + concat(rest.drop_last()) + rest.last());
    }
}

/// The lines of a text make the text back, and there is at least one.
pub proof fn lemma_split_lines_concat(t: Seq<char>)
    ensures
        concat(split_lines(t)) == t,
        split_lines(t).len() >= 1,
    decreases t.len(),
{
    lemma_first_line_end_range(t, 0);
    match first_line_end_from(t, 0) {
        Some(e) => {
            lemma_split_lines_concat(t.skip(e));
            lemma_concat_prepend(t.take(e), split_lines(t.skip(e)));
            assert(split_lines(t) == seq![t.take(e)] + split_lines(t.skip(e)));
            assert(t.take(e) + t.skip(e) =~= t);
        },
        None => {
            assert(split_lines(t) == seq![t]);
            assert(seq![t].drop_last() =~= Seq::<Seq<char>>::empty());
            assert(concat(seq![t].drop_last()) == Seq::<char>::empty());
            assert(seq![t].last() == t);
            assert(Seq::<char>::empty() + t =~= t);
        },
    }
}

/// The text of a rope is its lines put back together.
pub proof fn lemma_rope_lines_concat(rope: Rope)
    ensures
        concat(rope_lines(rope)) == rope_text(rope),
        rope_lines(rope).len() >= 1,
{
    lemma_split_lines_concat(rope_text(rope));
}

proof fn lemma_first_line_end_is(t: Seq<char>, i: int, e: int)
    requires
        0 <= i < e <= t.len(),
        ends_line_at(t, e - 1),
        forall|k: int| i <= k < e - 1 ==> !ends_line_at(t, k),
    ensures
        first_line_end_from(t, i) == Some(e),
    decreases e - i,
{
    if i < e - 1 {
        lemma_first_line_end_is(t, i + 1, e);
    }
}

proof fn lemma_line_start_prepend(first: Seq<char>, rest: Seq<Seq<char>>, h: int)
    requires
        1 <= h <= rest.len() + 1,
    ensures
        line_start(seq![first] + rest, h) == first.len() + line_start(rest, h - 1),
{
    assert((seq![first] + rest).take(h) =~= seq![first] + rest.take(h - 1));
    lemma_concat_prepend(first, rest.take(h - 1));
}

/// Inserting a char that is not a line break at or after the start of a
/// line leaves that line, and every line before it, starting where it did.
pub proof fn lemma_insert_keeps_line_start(t: Seq<char>, p: int, c: char, h: int)
    requires
        0 <= p <= t.len(),
        !is_line_break(c),
        0 <= h < split_lines(t).len(),
        line_start(split_lines(t), h) <= p,
    ensures
        h < split_lines(t.insert(p, c)).len(),
        line_start(split_lines(t.insert(p, c)), h) == line_start(split_lines(t), h),
    decreases h,
{
    let t2 = t.insert(p, c);
    lemma_split_lines_concat(t2);
    if h > 0 {
        lemma_first_line_end_range(t, 0);
        match first_line_end_from(t, 0) {
            Some(e) => {
                let rest = t.skip(e);
                assert(split_lines(t) == seq![t.take(e)] + split_lines(rest));
                lemma_line_start_prepend(t.take(e), split_lines(rest), h);
                assert(e <= p);
                assert forall|k: int| 0 <= k < e - 1 implies !ends_line_at(t2, k) by {
                    assert(t2[k] == t[k]);
                    assert(t2[k + 1] == t[k + 1]);
                    assert(!ends_line_at(t, k));
                }
                assert(t2[e - 1] == t[e - 1]);
                if e < p {
                    assert(t2[e] == t[e]);
                } else if e < t2.len() {
                    assert(t2[e] == c);
                }
                assert(ends_line_at(t2, e - 1));
                lemma_first_line_end_is(t2, 0, e);
                let rest2 = t2.skip(e);
                assert(rest2 =~= rest.insert(p - e, c));
                assert(split_lines(t2) == seq![t2.take(e)] + split_lines(rest2));
                lemma_insert_keeps_line_start(rest, p - e, c, h - 1);
                lemma_line_start_prepend(t2.take(e), split_lines(rest2), h);
            },
            None => {
                assert(split_lines(t) == seq![t]);
            },
        }
    } else {
        assert(split_lines(t).take(0) =~= Seq::<Seq<char>>::empty());
        assert(split_lines(t2).take(0) =~= Seq::<Seq<char>>::empty());
    }
}

/// `Rope::len_lines`: the number of lines.
#[verifier::external_body]
pub(crate) fn rope_len_lines(rope: &Rope) -> (r: usize)
    ensures
        r == rope_lines(*rope).len(),
{
    rope.len_lines()
}

/// `Rope::line_to_char`: the char index at which line `line` starts; for
/// `line == len_lines()`, the length of the text.
#[verifier::external_body]
pub(crate) fn rope_line_to_char(rope: &Rope, line: usize) -> (r: usize)
    requires
        line <= rope_lines(*rope).len(),
    ensures
        r == line_start(rope_lines(*rope), line as int),
        r <= rope_text(*rope).len() <= usize::MAX,
{
    rope.line_to_char(line)
}

/// `Rope::line(line).len_chars()`: the number of chars of line `line`,
/// its line break included.
#[verifier::external_body]
pub(crate) fn rope_line_len(rope: &Rope, line: usize) -> (r: usize)
    requires
        line < rope_lines(*rope).len(),
    ensures
        r == rope_lines(*rope)[line as int].len(),
{
    rope.line(line).len_chars()
}

/// The text of line `line` (`Rope::line` as a `String`), its line break
/// included.
#[verifier::external_body]
pub(crate) fn rope_line_text(rope: &Rope, line: usize) -> (r: String)
    requires
        line < rope_lines(*rope).len(),
    ensures
        r@ == rope_lines(*rope)[line as int],
{
    rope.line(line).to_string()
}

/// `Rope::insert_char`: inserts `c` at the char index `at`.
#[verifier::external_body]
pub(crate) fn rope_insert_char(rope: &mut Rope, at: usize, c: char)
    requires
        at <= rope_text(*old(rope)).len(),
    ensures
        rope_text(*final(rope)) == rope_text(*old(rope)).insert(at as int, c),
{
    rope.insert_char(at, c)
}

/// `Rope::remove(at..=at)`: removes the char at index `at`.
#[verifier::external_body]
pub(crate) fn rope_remove_char(rope: &mut Rope, at: usize)
    requires
        at < rope_text(*old(rope)).len(),
    ensures
        rope_text(*final(rope)) == rope_text(*old(rope)).remove(at as int),
{
    rope.remove(at..=at)
}

} // verus!
