//! How a buffer line is laid out on screen rows: soft-wrapping into chunks
//! of graphemes, and the line-number gutter.
use vstd::prelude::*;
use crate::action::{push_repeat, repeat};
use crate::text::{decimal, push_decimal, push_str};

verus! {

/// Whether the grapheme `g` is a line feed (possibly followed by more).
pub open spec fn starts_line_feed(g: Seq<char>) -> bool {
    g.len() > 0 && g[0] == '\n'
}

/// The index of the first grapheme of `g[from..to]` that starts with a line
/// feed, or `to` when there is none.
pub open spec fn first_line_feed(g: Seq<Seq<char>>, from: int, to: int) -> int
    decreases to - from,
{
    if from >= to {
        to
    } else if starts_line_feed(g[from]) {
        from
    } else {
        first_line_feed(g, from + 1, to)
    }
}

pub open spec fn min(a: int, b: int) -> int {
    if a <= b {
        a
    } else {
        b
    }
}

/// The rows a line of graphemes `g` takes once wrapped at `width` graphemes,
/// starting with the row that begins at grapheme `start`; each row as the
/// range of graphemes it shows. A line feed ends the line and is not shown;
/// a line that fills its last row exactly gets one more, empty, row.
pub open spec fn wrap_from(g: Seq<Seq<char>>, width: nat, start: int) -> Seq<(int, int)>
    decreases g.len() - start,
{
    if width == 0 || start > g.len() {
        Seq::empty()
    } else {
        let end = min(start + width, g.len() as int);
        let k = first_line_feed(g, start, end);
        if k < end {
            seq![(start, k)]
        } else if g.len() - start < width {
            seq![(start, g.len() as int)]
        } else {
            seq![(start, start + width)] + wrap_from(g, width, start + width)
        }
    }
}

/// The rows of the line `g` wrapped at `width` graphemes.
pub open spec fn wrap_rows(g: Seq<Seq<char>>, width: nat) -> Seq<(int, int)> {
    wrap_from(g, width, 0)
}

pub proof fn lemma_first_line_feed_range(g: Seq<Seq<char>>, from: int, to: int)
    requires
        from <= to,
    ensures
        from <= first_line_feed(g, from, to) <= to,
        forall|j: int| from <= j < first_line_feed(g, from, to) ==> !starts_line_feed(#[trigger] g[j]),
        first_line_feed(g, from, to) < to ==> starts_line_feed(g[first_line_feed(g, from, to)]),
    decreases to - from,
{
    if from < to && !starts_line_feed(g[from]) {
        lemma_first_line_feed_range(g, from + 1, to);
    }
}

pub proof fn lemma_wrap_from_shape(g: Seq<Seq<char>>, width: nat, start: int)
    requires
        width >= 1,
        0 <= start <= g.len(),
    ensures
        wrap_from(g, width, start).len() >= 1,
        forall|i: int| 0 <= i < wrap_from(g, width, start).len() ==> start <= (#[trigger] wrap_from(g, width, start)[i]).0
            <= wrap_from(g, width, start)[i].1 <= g.len() && wrap_from(g, width, start)[i].1
            - wrap_from(g, width, start)[i].0 <= width,
    decreases g.len() - start,
{
    let end = min(start + width, g.len() as int);
    lemma_first_line_feed_range(g, start, end);
    let k = first_line_feed(g, start, end);
    if k < end {
    } else if g.len() - start < width {
    } else {
        lemma_wrap_from_shape(g, width, start + width);
    }
}

/// The rows of one line wrapped at `width` graphemes (at least one), each as
/// the range of graphemes of `graphemes` it shows.
pub fn wrap_chunks(graphemes: &Vec<String>, width: usize) -> (r: Vec<(usize, usize)>)
    requires
        width >= 1,
    ensures
        r@.len() == wrap_rows(graphemes@.map_values(|s: String| s@), width as nat).len(),
        forall|i: int| 0 <= i < r@.len() ==> (#[trigger] r@[i]).0 as int == wrap_rows(graphemes@.map_values(|s: String| s@), width as nat)[i].0
            && r@[i].1 as int == wrap_rows(graphemes@.map_values(|s: String| s@), width as nat)[i].1,
{
    let ghost g = graphemes@.map_values(|s: String| s@);
    let n = graphemes.len();
    let mut out: Vec<(usize, usize)> = Vec::new();
    let mut start: usize = 0;
    loop
        invariant_except_break
            start <= n,
            n == g.len(),
            g == graphemes@.map_values(|s: String| s@),
            width >= 1,
            wrap_rows(g, width as nat) == out@.map_values(|p: (usize, usize)| (p.0 as int, p.1 as int)) + wrap_from(g, width as nat, start as int),
        ensures
            wrap_rows(g, width as nat) == out@.map_values(|p: (usize, usize)| (p.0 as int, p.1 as int)),
        decreases n - start,
    {
        let ghost prev = out@.map_values(|p: (usize, usize)| (p.0 as int, p.1 as int));
        let end = if width <= n - start { start + width } else { n };
        let mut k = start;
        while k < end
            invariant
                start <= k <= end <= n,
                n == g.len(),
                g == graphemes@.map_values(|s: String| s@),
                end == min(start + width, n as int),
                first_line_feed(g, start as int, end as int) == first_line_feed(g, k as int, end as int),
            ensures
                start <= k <= end,
                first_line_feed(g, start as int, end as int) == first_line_feed(g, k as int, end as int),
                k < end ==> starts_line_feed(g[k as int]),
            decreases end - k,
        {
            let gk = &graphemes[k];
            assert(g[k as int] == gk@);
            if gk.as_str().unicode_len() > 0 && gk.as_str().get_char(0) == '\n' {
                break;
            }
            k = k + 1;
        }
        if k < end {
            out.push((start, k));
            assert(out@.map_values(|p: (usize, usize)| (p.0 as int, p.1 as int)) =~= prev.push((start as int, k as int)));
            break;
        } else if n - start < width {
            out.push((start, n));
            assert(out@.map_values(|p: (usize, usize)| (p.0 as int, p.1 as int)) =~= prev.push((start as int, n as int)));
            break;
        } else {
            out.push((start, start + width));
            assert(out@.map_values(|p: (usize, usize)| (p.0 as int, p.1 as int)) =~= prev.push((start as int, (start + width) as int)));
            start = start + width;
        }
    }
    out
}

/// The number of decimal digits needed for every number below `n`:
/// `ceil(log10(n))`, 0 for `n <= 1`.
pub open spec fn ceil_log10(n: nat) -> nat
    decreases n,
{
    if n <= 1 {
        0
    } else {
        1 + ceil_log10(((n + 9) / 10) as nat)
    }
}

/// The number of columns reserved for the gutter (`"NNN| "`), from the
/// widest line number that can be visible: `ceil(log10(top_line + height)) + 2`.
pub open spec fn gutter_width_spec(top_line: nat, height: nat) -> nat {
    ceil_log10(top_line + height) + 2
}

/// The gutter width of a view whose top line is `top_line` and that shows
/// `height` rows.
pub fn gutter_width(top_line: usize, height: usize) -> (r: usize)
    requires
        top_line + height <= usize::MAX,
    ensures
        r == gutter_width_spec(top_line as nat, height as nat),
        2 * (r - 2) <= top_line + height,
{
    let n = top_line + height;
    proof {
        lemma_ceil_log10_small(n as nat);
    }
    let mut m: usize = n;
    let mut digits: usize = 0;
    while m > 1
        invariant
            m <= n,
            digits + ceil_log10(m as nat) == ceil_log10(n as nat),
            2 * ceil_log10(n as nat) <= n,
        decreases m,
    {
        m = (m - 1) / 10 + 1;
        digits = digits + 1;
    }
    digits + 2
}

pub proof fn lemma_ceil_log10_small(n: nat)
    ensures
        2 * ceil_log10(n) <= n,
    decreases n,
{
    if n > 1 {
        lemma_ceil_log10_small(((n + 9) / 10) as nat);
    }
}

/// A number right-aligned in at least `width` columns.
pub open spec fn pad_left(text: Seq<char>, width: nat) -> Seq<char> {
    if text.len() < width {
        repeat(' ', (width - text.len()) as nat) + text
    } else {
        text
    }
}

/// The gutter of the first row of the line `number`: the number
/// right-aligned in `width - 2` columns, then `"| "`.
pub open spec fn number_gutter(number: nat, width: nat) -> Seq<char> {
    pad_left(decimal(number), (width - 2) as nat) + "| "@
}

/// The gutter of a continuation row: blank, then the wrap marker.
pub open spec fn continuation_gutter(width: nat) -> Seq<char> {
    repeat(' ', (width - 2) as nat) + "↪ "@
}

/// The gutter of the first row of the line `number`.
pub fn make_number_gutter(number: usize, width: usize) -> (r: String)
    requires
        width >= 2,
    ensures
        r@ == number_gutter(number as nat, width as nat),
{
    let mut digits = String::new();
    push_decimal(&mut digits, number);
    let len = digits.as_str().unicode_len();
    let mut out = String::new();
    if len < width - 2 {
        push_repeat(&mut out, ' ', width - 2 - len);
    }
    push_str(&mut out, digits.as_str());
    push_str(&mut out, "| ");
    assert(out@ =~= number_gutter(number as nat, width as nat));
    out
}

/// The gutter of a continuation row.
pub fn make_continuation_gutter(width: usize) -> (r: String)
    requires
        width >= 2,
    ensures
        r@ == continuation_gutter(width as nat),
{
    let mut out = String::new();
    push_repeat(&mut out, ' ', width - 2);
    push_str(&mut out, "↪ ");
    out
}

} // verus!
