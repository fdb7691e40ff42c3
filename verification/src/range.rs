//! Selections on a fretboard: a run of frets and a run of strings.

use vstd::prelude::*;

verus! {

/// A selection: the frets `fret_start..=fret_end` on the strings
/// `string_start..=string_end`. Frets are counted from the nut.
///
/// A selection of one fret on one string is a point, any wider one a span
/// (several strings on one fret make a barre). A muted selection marks its
/// strings as not played.
#[derive(Clone, Copy, Debug, PartialEq, Eq, Structural)]
pub struct Range {
    pub fret_start: u8,
    pub fret_end: u8,
    pub string_start: u8,
    pub string_end: u8,
    pub muted: bool,
}

/// The smaller of two bytes.
pub open spec fn lower(a: u8, b: u8) -> u8 {
    if a <= b {
        a
    } else {
        b
    }
}

/// The larger of two bytes.
pub open spec fn upper(a: u8, b: u8) -> u8 {
    if a <= b {
        b
    } else {
        a
    }
}

impl Range {
    /// Neither run is turned round.
    pub open spec fn wf(self) -> bool {
        self.fret_start <= self.fret_end && self.string_start <= self.string_end
    }

    /// The selection covers one fret on one string.
    pub open spec fn is_point(self) -> bool {
        self.fret_start == self.fret_end && self.string_start == self.string_end
    }

    /// The two selections share a fret and share a string.
    pub open spec fn overlaps(self, other: Range) -> bool {
        &&& self.fret_start <= other.fret_end
        &&& other.fret_start <= self.fret_end
        &&& self.string_start <= other.string_end
        &&& other.string_start <= self.string_end
    }

    /// The selection of one fret on one string.
    pub fn point(fret: u8, string: u8) -> (r: Range)
        ensures
            r == (Range {
                fret_start: fret,
                fret_end: fret,
                string_start: string,
                string_end: string,
                muted: false,
            }),
            r.is_point(),
            r.wf(),
    {
        Range { fret_start: fret, fret_end: fret, string_start: string, string_end: string, muted: false }
    }

    /// The mark of a string that is not played.
    pub fn muted(fret: u8, string: u8) -> (r: Range)
        ensures
            r == (Range {
                fret_start: fret,
                fret_end: fret,
                string_start: string,
                string_end: string,
                muted: true,
            }),
            r.is_point(),
            r.wf(),
    {
        Range { fret_start: fret, fret_end: fret, string_start: string, string_end: string, muted: true }
    }

    /// The barre on one fret from one string to another, in either order.
    pub fn barre(fret: u8, from: u8, to: u8) -> (r: Range)
        ensures
            r == (Range {
                fret_start: fret,
                fret_end: fret,
                string_start: lower(from, to),
                string_end: upper(from, to),
                muted: false,
            }),
            r.wf(),
    {
        let (low, high) = if from <= to { (from, to) } else { (to, from) };
        Range { fret_start: fret, fret_end: fret, string_start: low, string_end: high, muted: false }
    }

    /// The span on one string from one fret to another, in either order.
    pub fn stretch(from: u8, to: u8, string: u8) -> (r: Range)
        ensures
            r == (Range {
                fret_start: lower(from, to),
                fret_end: upper(from, to),
                string_start: string,
                string_end: string,
                muted: false,
            }),
            r.wf(),
    {
        let (low, high) = if from <= to { (from, to) } else { (to, from) };
        Range { fret_start: low, fret_end: high, string_start: string, string_end: string, muted: false }
    }

    /// The fret and string of a point, and nothing for a span.
    pub fn into_point(self) -> (at: Option<(u8, u8)>)
        ensures
            at == (if self.is_point() {
                Some((self.fret_start, self.string_start))
            } else {
                None
            }),
    {
        if self.fret_start == self.fret_end && self.string_start == self.string_end {
            Some((self.fret_start, self.string_start))
        } else {
            None
        }
    }

    /// Whether the selection marks strings that are not played.
    pub fn is_muted(self) -> (muted: bool)
        ensures
            muted == self.muted,
    {
        self.muted
    }

    /// Whether two selections share a fret and share a string.
    pub fn is_intersection(self, other: &Range) -> (hit: bool)
        ensures
            hit == self.overlaps(*other),
    {
        self.fret_start <= other.fret_end && other.fret_start <= self.fret_end
            && self.string_start <= other.string_end && other.string_start <= self.string_end
    }
}

/// The places in `s`, in rising order, of the selections that overlap `q`.
pub open spec fn hits(s: Seq<Range>, q: Range) -> Seq<int>
    decreases s.len(),
{
    if s.len() == 0 {
        Seq::empty()
    } else if s.last().overlaps(q) {
        hits(s.drop_last(), q).push(s.len() - 1)
    } else {
        hits(s.drop_last(), q)
    }
}

/// Every entry of `hits` is the place of a selection that overlaps `q`.
pub proof fn lemma_hits_sound(s: Seq<Range>, q: Range, k: int)
    requires
        0 <= k < hits(s, q).len(),
    ensures
        0 <= hits(s, q)[k] < s.len(),
        s[hits(s, q)[k]].overlaps(q),
    decreases s.len(),
{
    if s.len() > 0 {
        let rest = hits(s.drop_last(), q);
        if k < rest.len() {
            lemma_hits_sound(s.drop_last(), q, k);
        }
    }
}

/// Every selection that overlaps `q` has its place among the `hits`.
pub proof fn lemma_hits_complete(s: Seq<Range>, q: Range, i: int)
    requires
        0 <= i < s.len(),
        s[i].overlaps(q),
    ensures
        hits(s, q).contains(i),
    decreases s.len(),
{
    if i == s.len() - 1 {
        let h = hits(s, q);
        assert(h[h.len() - 1] == i);
    } else {
        lemma_hits_complete(s.drop_last(), q, i);
        let rest = hits(s.drop_last(), q);
        let k = choose|k: int| 0 <= k < rest.len() && rest[k] == i;
        assert(hits(s, q)[k] == i);
    }
}

/// The `hits` rise: a later entry is a later place.
pub proof fn lemma_hits_rising(s: Seq<Range>, q: Range, j: int, k: int)
    requires
        0 <= j < k < hits(s, q).len(),
    ensures
        hits(s, q)[j] < hits(s, q)[k],
    decreases s.len(),
{
    if s.len() > 0 {
        let rest = hits(s.drop_last(), q);
        if k < rest.len() {
            lemma_hits_rising(s.drop_last(), q, j, k);
        } else {
            lemma_hits_sound(s.drop_last(), q, j);
        }
    }
}

/// Where nothing in `s` overlaps `q`, there are no `hits`.
pub proof fn lemma_apart(s: Seq<Range>, q: Range)
    requires
        forall|i: int| 0 <= i < s.len() ==> !(#[trigger] s[i]).overlaps(q),
    ensures
        hits(s, q).len() == 0,
    decreases s.len(),
{
    if s.len() > 0 {
        let t = s.drop_last();
        assert forall|i: int| 0 <= i < t.len() implies !(#[trigger] t[i]).overlaps(q) by {
            assert(t[i] == s[i]);
        }
        lemma_apart(t, q);
        assert(!s[s.len() - 1].overlaps(q));
    }
}

} // verus!
