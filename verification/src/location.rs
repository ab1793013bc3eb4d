//! Where something sits in the KDL config, for error messages.
use vstd::prelude::*;
use crate::text::{decimal, push_decimal, push_str};

verus! {

/// One step down into the config: a named node, or an entry's index.
#[derive(Debug, Clone, PartialEq, Eq)]
pub enum Segment {
    Key(String),
    Index(usize),
}

pub enum SegmentView {
    Key(Seq<char>),
    Index(nat),
}

impl View for Segment {
    type V = SegmentView;

    open spec fn view(&self) -> SegmentView {
        match self {
            Segment::Key(name) => SegmentView::Key(name@),
            Segment::Index(i) => SegmentView::Index(*i as nat),
        }
    }
}

/// A location in the KDL config: the root, followed by named and indexed
/// steps. It renders as `a > b > c[3]`: a name right after the root stands
/// alone, a later name follows ` > `, an index is written in brackets.
#[derive(Debug, Clone, PartialEq, Eq)]
pub struct Location {
    pub segments: Vec<Segment>,
}

/// How the location made of `segs` is written.
pub open spec fn render_location(segs: Seq<SegmentView>) -> Seq<char>
    decreases segs.len(),
{
    if segs.len() == 0 {
        Seq::empty()
    } else {
        let prev = render_location(segs.drop_last());
        match segs.last() {
            SegmentView::Key(name) => if segs.len() == 1 {
                name
            } else {
                prev + " > "@ + name
            },
            SegmentView::Index(i) => prev + "["@ + decimal(i) + "]"@,
        }
    }
}

impl Segment {
    /// A copy of this segment.
    pub fn duplicate(&self) -> (r: Segment)
        ensures
            r@ == self@,
    {
        match self {
            Segment::Key(name) => Segment::Key(name.clone()),
            Segment::Index(i) => Segment::Index(*i),
        }
    }
}

impl Location {
    /// A copy of this location's segments.
    fn copy_segments(&self) -> (r: Vec<Segment>)
        ensures
            r@.map_values(|s: Segment| s@) == self.segs(),
    {
        let mut out: Vec<Segment> = Vec::new();
        let mut i: usize = 0;
        while i < self.segments.len()
            invariant
                i <= self.segments@.len(),
                out@.len() == i,
                forall|k: int| 0 <= k < i ==> (#[trigger] out@[k])@ == self.segments@[k]@,
            decreases self.segments@.len() - i,
        {
            let seg = self.segments[i].duplicate();
            out.push(seg);
            i = i + 1;
        }
        assert(out@.map_values(|s: Segment| s@) =~= self.segs());
        out
    }

    pub open spec fn segs(&self) -> Seq<SegmentView> {
        self.segments@.map_values(|s: Segment| s@)
    }

    /// The root of the config document. Renders as nothing on its own.
    pub fn root() -> (r: Location)
        ensures
            r.segs() == Seq::<SegmentView>::empty(),
    {
        let r = Location { segments: Vec::new() };
        assert(r.segs() =~= Seq::<SegmentView>::empty());
        r
    }

    /// This location, one named step further.
    pub fn key(&self, name: &str) -> (r: Location)
        ensures
            r.segs() == self.segs().push(SegmentView::Key(name@)),
    {
        let mut segments = self.copy_segments();
        let mut n = String::new();
        push_str(&mut n, name);
        segments.push(Segment::Key(n));
        let r = Location { segments };
        assert(r.segs() =~= self.segs().push(SegmentView::Key(name@)));
        r
    }

    /// This location, one indexed step further.
    pub fn index(&self, index: usize) -> (r: Location)
        ensures
            r.segs() == self.segs().push(SegmentView::Index(index as nat)),
    {
        let mut segments = self.copy_segments();
        segments.push(Segment::Index(index));
        let r = Location { segments };
        assert(r.segs() =~= self.segs().push(SegmentView::Index(index as nat)));
        r
    }

    /// The text of this location, e.g. `keymap "default" > normal > base`.
    pub fn render(&self) -> (r: String)
        ensures
            r@ == render_location(self.segs()),
    {
        let mut out = String::new();
        let mut i: usize = 0;
        let ghost segs = self.segs();
        while i < self.segments.len()
            invariant
                i <= self.segments@.len(),
                segs == self.segs(),
                out@ == render_location(segs.take(i as int)),
            decreases self.segments@.len() - i,
        {
            assert(segs.take(i + 1).drop_last() =~= segs.take(i as int));
            match &self.segments[i] {
                Segment::Key(name) => {
                    if i != 0 {
                        push_str(&mut out, " > ");
                    } else {
                        assert(out@ =~= Seq::<char>::empty());
                    }
                    push_str(&mut out, name.as_str());
                    assert(i != 0 ==> out@ =~= render_location(segs.take(i as int)) + " > "@ + name@);
                },
                Segment::Index(k) => {
                    push_str(&mut out, "[");
                    push_decimal(&mut out, *k);
                    push_str(&mut out, "]");
                    assert(out@ =~= render_location(segs.take(i as int)) + "["@ + decimal(*k as nat) + "]"@);
                },
            }
            i = i + 1;
        }
        assert(segs.take(self.segments@.len() as int) =~= segs);
        out
    }
}

} // verus!
