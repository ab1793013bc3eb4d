//! Small components drawn on the screen: a text in a fixed number of cells
//! (cropped or scrolling when it doesn't fit) and the status bar. Time is
//! given as nanoseconds since the Unix epoch.
use vstd::prelude::*;
use crate::geo::ScreenCoord;
use crate::mode::Mode;
use crate::screen_buffer::{Cell, CellView, Grapheme, ScreenBuffer, ScreenBufferView, SubScreen, graphemes_of, grapheme_clusters, strings_view};
use crate::text::{push_char, push_str, str_eq};
use crate::theme::{plain_style, Color, Style};

verus! {

/// An animation that repeats itself forever, one step after the other.
#[derive(Debug, Clone, Copy, PartialEq, Eq, Structural)]
pub struct LoopingAnimation {
    /// When it started, in nanoseconds since the Unix epoch.
    pub started_at: i128,
    /// How long one step lasts, in nanoseconds.
    pub step_duration: i128,
}

/// The number of full steps elapsed at `now` (none before the start, none
/// for a step that lasts nothing).
pub open spec fn step_spec(a: LoopingAnimation, now: int) -> nat {
    if a.step_duration <= 0 || now - a.started_at <= 0 {
        0
    } else {
        let n = (now - a.started_at) / (a.step_duration as int);
        if n > usize::MAX {
            usize::MAX as nat
        } else {
            n as nat
        }
    }
}

impl LoopingAnimation {
    /// The start and the step duration are within 10^28 nanoseconds of
    /// zero (over three hundred billion years), as every time and duration
    /// a clock or a configuration gives is; then the wakeup time computes
    /// without overflow.
    pub open spec fn in_time_range(self) -> bool {
        &&& -10_000_000_000_000_000_000_000_000_000int <= self.started_at <= 10_000_000_000_000_000_000_000_000_000int
        &&& -10_000_000_000_000_000_000_000_000_000int <= self.step_duration <= 10_000_000_000_000_000_000_000_000_000int
    }

    pub fn start(now: i128, step_duration: i128) -> (r: LoopingAnimation)
        ensures
            r == (LoopingAnimation { started_at: now, step_duration }),
    {
        LoopingAnimation { started_at: now, step_duration }
    }

    /// How many full steps have elapsed since the animation started.
    pub fn step(&self, now: i128) -> (r: usize)
        requires
            i128::MIN <= now - self.started_at <= i128::MAX,
        ensures
            r == step_spec(*self, now as int),
    {
        if self.step_duration <= 0 {
            return 0;
        }
        let elapsed = now - self.started_at;
        if elapsed <= 0 {
            return 0;
        }
        let n = elapsed / self.step_duration;
        if n > usize::MAX as i128 {
            usize::MAX
        } else {
            n as usize
        }
    }

    /// When the next step starts: the start, plus one step more than have
    /// elapsed (at most `i32::MAX` steps).
    pub fn next_wakeup(&self, now: i128) -> (r: Option<i128>)
        requires
            i128::MIN <= now - self.started_at <= i128::MAX,
            self.in_time_range(),
        ensures
            r == Some((self.started_at + self.step_duration * (if step_spec(*self, now as int) + 1 > 0x7fff_ffff {
                0x7fff_ffff
            } else {
                step_spec(*self, now as int) + 1
            })) as i128),
    {
        let step = self.step(now);
        let next: i128 = if step >= 0x7fff_ffff { 0x7fff_ffff } else { (step + 1) as i128 };
        assert(-0x7fff_ffff * 10_000_000_000_000_000_000_000_000_000int <= self.step_duration * next
            <= 0x7fff_ffff * 10_000_000_000_000_000_000_000_000_000int) by (nonlinear_arith)
            requires
                -10_000_000_000_000_000_000_000_000_000int <= self.step_duration <= 10_000_000_000_000_000_000_000_000_000int,
                1 <= next <= 0x7fff_ffff,
        ;
        Some(self.started_at + self.step_duration * next)
    }
}

/// What a [`FixedSizeText`] does with a text longer than its size.
#[derive(Debug, Copy, Clone, PartialEq, Eq, Structural)]
pub enum FixedSizeTextOverflow {
    /// Shows its start.
    CropRight,
    /// Shows its end.
    CropLeft,
    /// Scrolls through it, a space between its end and its start.
    Animate,
}

/// A text displayed in a fixed number of terminal cells.
#[derive(Debug)]
pub struct FixedSizeText {
    size: usize,
    text: String,
    graphemes: Vec<Grapheme>,
    style: Style,
    overflow: FixedSizeTextOverflow,
    displaying_from: usize,
    displaying_to: usize,
    /// How long one step of the animation lasts, in nanoseconds.
    animation_speed: i128,
    /// The scrolling animation; `None` until first drawn.
    loop_anim: Option<LoopingAnimation>,
}

pub struct FixedSizeTextView {
    pub size: nat,
    pub text: Seq<char>,
    pub graphemes: Seq<Seq<char>>,
    pub style: Style,
    pub overflow: FixedSizeTextOverflow,
    pub from: nat,
    pub to: nat,
    pub animation_speed: int,
    pub loop_anim: Option<LoopingAnimation>,
}

impl View for FixedSizeText {
    type V = FixedSizeTextView;

    closed spec fn view(&self) -> FixedSizeTextView {
        FixedSizeTextView {
            size: self.size as nat,
            text: self.text@,
            graphemes: self.graphemes@.map_values(|g: Grapheme| g@),
            style: self.style,
            overflow: self.overflow,
            from: self.displaying_from as nat,
            to: self.displaying_to as nat,
            animation_speed: self.animation_speed as int,
            loop_anim: self.loop_anim,
        }
    }
}

/// The window shown when not scrolling, with the animation reset: the start
/// of the text, or its end for [`FixedSizeTextOverflow::CropLeft`].
pub open spec fn recomputed(v: FixedSizeTextView) -> FixedSizeTextView {
    let len = v.graphemes.len();
    match v.overflow {
        FixedSizeTextOverflow::CropLeft => FixedSizeTextView {
            from: if len >= v.size { (len - v.size) as nat } else { 0 },
            to: len,
            loop_anim: None,
            ..v
        },
        _ => FixedSizeTextView {
            from: 0,
            to: if v.size <= len { v.size } else { len },
            loop_anim: None,
            ..v
        },
    }
}

/// The grapheme shown at position `k` of the endless sequence: the text, a
/// space, the text again, and so on.
pub open spec fn cycle_cell(graphemes: Seq<Seq<char>>, k: int) -> Seq<char> {
    let i = k % (graphemes.len() as int + 1);
    if i < graphemes.len() {
        graphemes[i]
    } else {
        seq![' ']
    }
}

/// The positions of the endless sequence shown, from `.0` (included) for
/// `.1` cells; and the animation after drawing at `now`.
pub open spec fn shown_window(v: FixedSizeTextView, now: int) -> (int, int, Option<LoopingAnimation>) {
    if v.overflow == FixedSizeTextOverflow::Animate {
        let anim = match v.loop_anim {
            Some(a) => a,
            None => LoopingAnimation { started_at: now as i128, step_duration: v.animation_speed as i128 },
        };
        let step = step_spec(anim, now) as int;
        (step, v.to - v.from, Some(anim))
    } else {
        (v.from as int, v.to - v.from, v.loop_anim)
    }
}

fn cycle_text(graphemes: &Vec<Grapheme>, k: usize) -> (r: String)
    ensures
        r@ == cycle_cell(graphemes@.map_values(|g: Grapheme| g@), k as int),
{
    let i = if graphemes.len() == usize::MAX { k } else { k % (graphemes.len() + 1) };
    proof {
        if graphemes@.len() == usize::MAX {
            vstd::arithmetic::div_mod::lemma_small_mod(k as nat, (graphemes@.len() + 1) as nat);
        }
    }
    if i < graphemes.len() {
        let mut s = String::new();
        push_str(&mut s, graphemes[i].as_str());
        assert(graphemes@.map_values(|g: Grapheme| g@)[i as int] == graphemes@[i as int]@);
        s
    } else {
        let mut s = String::new();
        push_char(&mut s, ' ');
        assert(s@ =~= seq![' ']);
        s
    }
}

/// The window of a text is inside the text and no wider than its size.
pub open spec fn text_wf(v: FixedSizeTextView) -> bool {
    &&& v.from <= v.to
    &&& v.to - v.from <= v.size
    &&& v.to <= v.graphemes.len()
}

/// Whatever the text, its size and what it does on overflow, the window
/// recomputed after a change lies inside the text and is no wider than the
/// size.
pub proof fn lemma_recomputed_wf(v: FixedSizeTextView)
    ensures
        text_wf(recomputed(v)),
{
}

impl FixedSizeText {
    /// The window lies inside the text and is no wider than the size.
    #[verifier::type_invariant]
    spec fn window_wf(self) -> bool {
        text_wf(self@)
    }

    /// An empty text shown in `size` cells; `animation_speed` is how long a
    /// step of the scrolling lasts, in milliseconds.
    pub fn new(size: usize, overflow: FixedSizeTextOverflow, animation_speed: i64) -> (r: FixedSizeText)
        ensures
            r@ == (FixedSizeTextView {
                size: size as nat,
                text: Seq::empty(),
                graphemes: Seq::empty(),
                style: plain_style(),
                overflow,
                from: 0,
                to: 0,
                animation_speed: animation_speed * 1_000_000,
                loop_anim: None,
            }),
    {
        let r = FixedSizeText {
            size,
            text: String::new(),
            graphemes: Vec::new(),
            style: Style::plain(),
            overflow,
            displaying_from: 0,
            displaying_to: 0,
            animation_speed: (animation_speed as i128) * 1_000_000,
            loop_anim: None,
        };
        assert(r@.graphemes =~= Seq::<Seq<char>>::empty());
        r
    }

    pub fn size(&self) -> (r: usize)
        ensures
            r == self@.size,
    {
        self.size
    }

    pub fn overflow(&self) -> (r: FixedSizeTextOverflow)
        ensures
            r == self@.overflow,
    {
        self.overflow
    }

    pub fn text(&self) -> (r: &str)
        ensures
            r@ == self@.text,
    {
        self.text.as_str()
    }

    pub fn set_style(&mut self, style: Style)
        ensures
            final(self)@ == (FixedSizeTextView { style, ..old(self)@ }),
    {
        proof {
            use_type_invariant(&*self);
        }
        self.style = style;
    }

    /// The text made of these parts, its window placed for the size and
    /// the overflow, and its animation reset.
    fn recompute_displaying_from_to(
        size: usize,
        text: String,
        graphemes: Vec<Grapheme>,
        style: Style,
        overflow: FixedSizeTextOverflow,
        animation_speed: i128,
    ) -> (r: FixedSizeText)
        ensures
            r@ == recomputed(
                FixedSizeTextView {
                    size: size as nat,
                    text: text@,
                    graphemes: graphemes@.map_values(|g: Grapheme| g@),
                    style,
                    overflow,
                    from: 0,
                    to: 0,
                    animation_speed: animation_speed as int,
                    loop_anim: None,
                },
            ),
    {
        let len = graphemes.len();
        let (from, to) = match overflow {
            FixedSizeTextOverflow::CropRight | FixedSizeTextOverflow::Animate => (0, if size <= len { size } else { len }),
            FixedSizeTextOverflow::CropLeft => (if len >= size { len - size } else { 0 }, len),
        };
        FixedSizeText {
            size,
            text,
            graphemes,
            style,
            overflow,
            displaying_from: from,
            displaying_to: to,
            animation_speed,
            loop_anim: None,
        }
    }

    /// Takes the text out of `self`, leaving an empty one in its place.
    fn take(&mut self) -> (r: FixedSizeText)
        ensures
            r@ == old(self)@,
    {
        let mut out = FixedSizeText::recompute_displaying_from_to(
            0,
            String::new(),
            Vec::new(),
            Style::plain(),
            FixedSizeTextOverflow::CropRight,
            0,
        );
        core::mem::swap(&mut out, self);
        out
    }

    /// Shows the text in `size` cells from now on.
    pub fn resize(&mut self, size: usize)
        ensures
            final(self)@ == recomputed(FixedSizeTextView { size: size as nat, ..old(self)@ }),
    {
        let old = self.take();
        let FixedSizeText { text, graphemes, style, overflow, animation_speed, .. } = old;
        *self = FixedSizeText::recompute_displaying_from_to(size, text, graphemes, style, overflow, animation_speed);
    }

    pub fn set_overflow(&mut self, overflow: FixedSizeTextOverflow)
        ensures
            final(self)@ == recomputed(FixedSizeTextView { overflow, ..old(self)@ }),
    {
        let old = self.take();
        let FixedSizeText { size, text, graphemes, style, animation_speed, .. } = old;
        *self = FixedSizeText::recompute_displaying_from_to(size, text, graphemes, style, overflow, animation_speed);
    }

    /// Shows `text` from now on, split into its graphemes.
    pub fn set_text(&mut self, text: String)
        ensures
            final(self)@ == recomputed(FixedSizeTextView { text: text@, graphemes: grapheme_clusters(text@), ..old(self)@ }),
    {
        let parts = graphemes_of(text.as_str());
        let mut graphemes: Vec<Grapheme> = Vec::new();
        let mut i: usize = 0;
        while i < parts.len()
            invariant
                i <= parts@.len(),
                graphemes@.len() == i,
                forall|k: int| 0 <= k < i ==> (#[trigger] graphemes@[k])@ == parts@[k]@,
            decreases parts@.len() - i,
        {
            graphemes.push(Grapheme::from_cluster(parts[i].clone()));
            i = i + 1;
        }
        assert(graphemes@.map_values(|g: Grapheme| g@) =~= strings_view(parts@));
        let old = self.take();
        let FixedSizeText { size, style, overflow, animation_speed, .. } = old;
        *self = FixedSizeText::recompute_displaying_from_to(size, text, graphemes, style, overflow, animation_speed);
    }

    /// Draws the text on the first row of `screen`; scrolling, it starts the
    /// animation the first time it is drawn.
    pub fn draw(&mut self, buffer: &mut ScreenBuffer, screen: SubScreen, now: i128)
        requires
            screen.fits_in(old(buffer)@),
            old(self)@.size <= screen.area.width_spec(),
            old(self)@.loop_anim matches Some(a) ==> i128::MIN <= now - a.started_at <= i128::MAX,
            old(self)@.overflow == FixedSizeTextOverflow::Animate ==> step_spec(
                match old(self)@.loop_anim {
                    Some(a) => a,
                    None => LoopingAnimation { started_at: now, step_duration: old(self)@.animation_speed as i128 },
                },
                now as int,
            ) + old(self)@.size <= usize::MAX,
        ensures
            final(self)@ == (FixedSizeTextView { loop_anim: shown_window(old(self)@, now as int).2, ..old(self)@ }),
            final(buffer)@.wf(),
            final(buffer)@.lines == old(buffer)@.lines,
            final(buffer)@.columns == old(buffer)@.columns,
            final(buffer)@.cursor == old(buffer)@.cursor,
            final(buffer)@.committed == old(buffer)@.committed,
            final(buffer)@.pending.len() == old(buffer)@.pending.len(),
            forall|c: ScreenCoord| #[trigger] old(buffer)@.contains(c) ==> final(buffer)@.pending[old(buffer)@.index_of(c)]
                == if screen.area.holds_absolute(c) && c.line == screen.area.tl().line && c.column - screen.area.tl().column
                    < shown_window(old(self)@, now as int).1 {
                    Some(
                        CellView {
                            style: old(self)@.style,
                            grapheme: cycle_cell(
                                old(self)@.graphemes,
                                shown_window(old(self)@, now as int).0 + (c.column - screen.area.tl().column),
                            ),
                        },
                    )
                } else {
                    old(buffer)@.pending[old(buffer)@.index_of(c)]
                },
    {
        proof {
            use_type_invariant(&*self);
        }
        let ghost v = self@;
        let (from, count) = if self.overflow == FixedSizeTextOverflow::Animate {
            let anim = match self.loop_anim {
                Some(a) => a,
                None => LoopingAnimation::start(now, self.animation_speed),
            };
            self.loop_anim = Some(anim);
            let step = anim.step(now);
            (step, self.displaying_to - self.displaying_from)
        } else {
            (self.displaying_from, self.displaying_to - self.displaying_from)
        };
        let mut texts: Vec<String> = Vec::new();
        let mut i: usize = 0;
        while i < count
            invariant
                i <= count,
                count <= v.size,
                from + count <= usize::MAX,
                self.graphemes@.map_values(|g: Grapheme| g@) == v.graphemes,
                texts@.len() == i,
                forall|k: int| 0 <= k < i ==> (#[trigger] texts@[k])@ == cycle_cell(v.graphemes, from + k),
            decreases count - i,
        {
            texts.push(cycle_text(&self.graphemes, from + i));
            i = i + 1;
        }
        screen.put_texts(buffer, 0, &texts, self.style);
    }

    /// When the text wants to be drawn again: never unless it scrolls; at
    /// once if it was never drawn; else when the next step starts.
    pub fn next_wakeup(&self, now: i128) -> (r: Option<i128>)
        requires
            self@.loop_anim matches Some(a) ==> {
                &&& i128::MIN <= now - a.started_at <= i128::MAX
                &&& a.in_time_range()
            },
        ensures
            self@.overflow != FixedSizeTextOverflow::Animate ==> r is None,
            self@.overflow == FixedSizeTextOverflow::Animate ==> match self@.loop_anim {
                Some(a) => r == Some(
                    (a.started_at + a.step_duration * (if step_spec(a, now as int) + 1 > 0x7fff_ffff {
                        0x7fff_ffff
                    } else {
                        step_spec(a, now as int) + 1
                    })) as i128,
                ),
                None => r == Some(now),
            },
    {
        if self.overflow != FixedSizeTextOverflow::Animate {
            return None;
        }
        match &self.loop_anim {
            Some(anim) => anim.next_wakeup(now),
            None => Some(now),
        }
    }
}


/// The number of cells the current mode is shown in.
pub const MODE_WIDTH: usize = 5;

/// The style of the status bar.
pub open spec fn status_bar_style() -> Style {
    Style { fg: Some(Color::White), bg: Some(Color::DarkGrey), ..plain_style() }
}

/// The status bar at the bottom of the screen: the current mode, scrolling
/// when its name doesn't fit.
#[derive(Debug)]
pub struct StatusBar {
    mode: FixedSizeText,
}

/// The mode text once prepared for showing `mode`: `MODE_WIDTH` cells,
/// holding the name of the mode (each change restarting the scrolling).
pub open spec fn prepared_mode_text(v: FixedSizeTextView, mode: Mode) -> FixedSizeTextView {
    let sized = if v.size != MODE_WIDTH {
        recomputed(FixedSizeTextView { size: MODE_WIDTH as nat, ..v })
    } else {
        v
    };
    let name = mode_name(mode);
    if sized.text != name {
        recomputed(FixedSizeTextView { text: name, graphemes: grapheme_clusters(name), ..sized })
    } else {
        sized
    }
}

/// The lowercase name of a mode.
pub open spec fn mode_name(mode: Mode) -> Seq<char> {
    match mode {
        Mode::Normal => "normal"@,
        Mode::Insert => "insert"@,
    }
}

impl StatusBar {
    /// A status bar whose mode scrolls one step every `animation_speed`
    /// milliseconds.
    pub fn new(animation_speed: i64) -> (r: StatusBar)
        ensures
            r.mode_view() == (FixedSizeTextView {
                size: MODE_WIDTH as nat,
                text: Seq::empty(),
                graphemes: Seq::empty(),
                style: status_bar_style(),
                overflow: FixedSizeTextOverflow::Animate,
                from: 0,
                to: 0,
                animation_speed: animation_speed * 1_000_000,
                loop_anim: None,
            }),
            text_wf(r.mode_view()),
    {
        let mut mode = FixedSizeText::new(MODE_WIDTH, FixedSizeTextOverflow::Animate, animation_speed);
        mode.set_style(Style { fg: Some(Color::White), bg: Some(Color::DarkGrey), ..Style::plain() });
        StatusBar { mode }
    }

    /// The text showing the mode.
    pub closed spec fn mode_view(&self) -> FixedSizeTextView {
        self.mode@
    }

    /// Draws the status bar on the part of `screen` right of its first
    /// `height` columns, and hands back that remaining part.
    pub fn draw(&mut self, buffer: &mut ScreenBuffer, screen: SubScreen, now: i128, mode: Mode) -> (r: SubScreen)
        requires
            screen.fits_in(old(buffer)@),
            screen.area.width_spec() > screen.area.height_spec() + MODE_WIDTH + 1,
            old(self).mode_view().loop_anim matches Some(a) ==> i128::MIN <= now - a.started_at <= i128::MAX,
            usize::MAX as int - MODE_WIDTH >= step_spec(
                match old(self).mode_view().loop_anim {
                    Some(a) => a,
                    None => LoopingAnimation { started_at: now, step_duration: old(self).mode_view().animation_speed as i128 },
                },
                now as int,
            ),
        ensures
            r.area.tl() == screen.area.tl(),
            r.area.br() == (ScreenCoord { line: screen.area.br().line, column: (screen.area.tl().column + screen.area.height_spec() - 1) as u16 }),
            ({
                let prepared = prepared_mode_text(old(self).mode_view(), mode);
                let window = shown_window(prepared, now as int);
                let left = screen.area.tl().column + screen.area.height_spec();
                &&& final(self).mode_view() == (FixedSizeTextView { loop_anim: window.2, ..prepared })
                &&& text_wf(final(self).mode_view())
                &&& final(buffer)@.wf()
                &&& final(buffer)@.lines == old(buffer)@.lines
                &&& final(buffer)@.columns == old(buffer)@.columns
                &&& final(buffer)@.cursor == old(buffer)@.cursor
                &&& final(buffer)@.committed == old(buffer)@.committed
                &&& final(buffer)@.pending.len() == old(buffer)@.pending.len()
                &&& forall|c: ScreenCoord| #[trigger] old(buffer)@.contains(c) ==> final(buffer)@.pending[old(buffer)@.index_of(c)]
                    == if screen.area.holds_absolute(c) && c.column >= left {
                        if c.line == screen.area.tl().line && c.column - left < window.1 {
                            Some(CellView { style: prepared.style, grapheme: cycle_cell(prepared.graphemes, window.0 + (c.column - left)) })
                        } else {
                            Some(CellView { style: status_bar_style(), grapheme: seq![' '] })
                        }
                    } else {
                        old(buffer)@.pending[old(buffer)@.index_of(c)]
                    }
            }),
    {
        proof {
            use_type_invariant(&self.mode);
        }
        let ghost v0 = buffer@;
        let (remaining, status_bar) = screen.split_after_col(screen.height() - 1);
        let style = Style { fg: Some(Color::White), bg: Some(Color::DarkGrey), ..Style::plain() };
        status_bar.fill(buffer, &Cell::new(style, Grapheme::space()));
        let ghost v1 = buffer@;
        if self.mode.size() != MODE_WIDTH {
            self.mode.resize(MODE_WIDTH);
        }
        let name = mode.as_str();
        if !str_eq(self.mode.text(), name) {
            let mut owned = String::new();
            push_str(&mut owned, name);
            self.mode.set_text(owned);
        }
        let (mode_view, _rest) = status_bar.split_after_col(MODE_WIDTH as u16);
        self.mode.draw(buffer, mode_view, now);
        assert forall|c: ScreenCoord| #[trigger] v0.contains(c) implies buffer@.pending[v0.index_of(c)] == if screen.area.holds_absolute(c)
            && c.column >= screen.area.tl().column + screen.area.height_spec() {
            if c.line == screen.area.tl().line && c.column - (screen.area.tl().column + screen.area.height_spec())
                < shown_window(prepared_mode_text(old(self).mode_view(), mode), now as int).1 {
                Some(
                    CellView {
                        style: prepared_mode_text(old(self).mode_view(), mode).style,
                        grapheme: cycle_cell(
                            prepared_mode_text(old(self).mode_view(), mode).graphemes,
                            shown_window(prepared_mode_text(old(self).mode_view(), mode), now as int).0 + (c.column - (
                            screen.area.tl().column + screen.area.height_spec())),
                        ),
                    },
                )
            } else {
                Some(CellView { style: status_bar_style(), grapheme: seq![' '] })
            }
        } else {
            v0.pending[v0.index_of(c)]
        } by {
            assert(v1.contains(c));
        }
        remaining
    }

    /// When the status bar wants to be drawn again: when its mode scrolls.
    pub fn next_wakeup(&self, now: i128) -> (r: Option<i128>)
        requires
            self.mode_view().loop_anim matches Some(a) ==> {
                &&& i128::MIN <= now - a.started_at <= i128::MAX
                &&& a.in_time_range()
            },
        ensures
            self.mode_view().overflow != FixedSizeTextOverflow::Animate ==> r is None,
            self.mode_view().overflow == FixedSizeTextOverflow::Animate ==> match self.mode_view().loop_anim {
                Some(a) => r == Some(
                    (a.started_at + a.step_duration * (if step_spec(a, now as int) + 1 > 0x7fff_ffff {
                        0x7fff_ffff
                    } else {
                        step_spec(a, now as int) + 1
                    })) as i128,
                ),
                None => r == Some(now),
            },
    {
        self.mode.next_wakeup(now)
    }
}

} // verus!
