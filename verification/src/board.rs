//! The fretboard: its counts and its selections, toggled one at a time.

use vstd::prelude::*;
use crate::range::{Range, hits, lemma_apart, lemma_hits_sound};

verus! {

/// The number of strings of a fresh fretboard.
pub const DEFAULT_STRINGS: u8 = 6;

/// The number of frets of a fresh fretboard.
pub const DEFAULT_FRETS: u8 = 6;

/// The fret at which a fresh fretboard starts.
pub const DEFAULT_STARTING_FRET: u8 = 3;

/// The selections after `q` is toggled: a point that overlaps a selection
/// takes the first such selection out, anything else joins at the end.
pub open spec fn toggled(s: Seq<Range>, q: Range) -> Seq<Range> {
    if q.is_point() && hits(s, q).len() > 0 {
        s.remove(hits(s, q)[0])
    } else {
        s.push(q)
    }
}

/// A selection that has just been inserted is found by a search for it, at
/// the last place.
pub proof fn lemma_inserted_is_found(s: Seq<Range>, q: Range)
    requires
        q.wf(),
    ensures
        hits(s.push(q), q).len() > 0,
        hits(s.push(q), q).last() == s.len(),
        hits(s.push(q), q).contains(s.len() as int),
{
    let t = s.push(q);
    assert(t.last() == q);
    assert(q.overlaps(q));
    let h = hits(t, q);
    assert(h[h.len() - 1] == s.len());
}

/// A toggle changes the number of selections by exactly one.
pub proof fn lemma_toggle_counts(s: Seq<Range>, q: Range)
    ensures
        q.is_point() && hits(s, q).len() > 0 ==> toggled(s, q).len() == s.len() - 1,
        !(q.is_point() && hits(s, q).len() > 0) ==> toggled(s, q).len() == s.len() + 1,
{
    if q.is_point() && hits(s, q).len() > 0 {
        lemma_hits_sound(s, q, 0);
    }
}

/// A toggle that adds leaves what was there in place and puts the new
/// selection behind it.
pub proof fn lemma_toggle_on_appends(s: Seq<Range>, q: Range)
    requires
        !q.is_point() || hits(s, q).len() == 0,
    ensures
        toggled(s, q).len() == s.len() + 1,
        toggled(s, q).last() == q,
        toggled(s, q).drop_last() == s,
{
    assert(s.push(q).drop_last() =~= s);
}

/// Toggling a point twice leaves the selections as they were, where none of
/// them overlaps the point.
pub proof fn lemma_toggle_twice(s: Seq<Range>, q: Range)
    requires
        q.is_point(),
        forall|i: int| 0 <= i < s.len() ==> !(#[trigger] s[i]).overlaps(q),
    ensures
        toggled(toggled(s, q), q) == s,
{
    lemma_apart(s, q);
    let t = s.push(q);
    assert(toggled(s, q) == t);
    assert(t.drop_last() =~= s);
    assert(t.last() == q);
    assert(q.overlaps(q));
    assert(hits(t, q) =~= hits(s, q).push(s.len() as int));
    assert(hits(t, q)[0] == s.len());
    assert(t.remove(s.len() as int) =~= s);
}

/// Toggling a point twice on a diagram without selections leaves it without
/// selections.
pub proof fn lemma_toggle_twice_on_empty(q: Range)
    requires
        q.is_point(),
    ensures
        toggled(toggled(Seq::empty(), q), q) == Seq::<Range>::empty(),
{
    lemma_toggle_twice(Seq::empty(), q);
}

/// No selection stands at `index`: the diagram holds only `len` of them.
#[derive(Clone, Copy, Debug, PartialEq, Eq, Structural)]
pub struct IndexOutOfRange {
    pub index: usize,
    pub len: usize,
}

/// A fretboard diagram: so many strings, so many frets from a starting fret
/// on, and the selections in the order in which they were made.
pub struct Fretboard {
    strings: u8,
    frets: u8,
    starting_fret: u8,
    selections: Vec<Range>,
}

impl Fretboard {
    /// The selections, oldest first.
    pub closed spec fn selections(&self) -> Seq<Range> {
        self.selections@
    }

    /// The number of strings.
    pub closed spec fn string_count(&self) -> u8 {
        self.strings
    }

    /// The number of frets.
    pub closed spec fn fret_count(&self) -> u8 {
        self.frets
    }

    /// The fret shown at the top of the diagram.
    pub closed spec fn first_fret(&self) -> u8 {
        self.starting_fret
    }

    /// A diagram without selections.
    pub fn new(strings: u8, frets: u8, starting_fret: u8) -> (board: Fretboard)
        ensures
            board.selections() == Seq::<Range>::empty(),
            board.string_count() == strings,
            board.fret_count() == frets,
            board.first_fret() == starting_fret,
    {
        Fretboard { strings, frets, starting_fret, selections: Vec::new() }
    }

    pub fn strings(&self) -> (n: u8)
        ensures
            n == self.string_count(),
    {
        self.strings
    }

    pub fn frets(&self) -> (n: u8)
        ensures
            n == self.fret_count(),
    {
        self.frets
    }

    pub fn starting_fret(&self) -> (n: u8)
        ensures
            n == self.first_fret(),
    {
        self.starting_fret
    }

    /// The selections, oldest first.
    pub fn ranges(&self) -> (v: Vec<Range>)
        ensures
            v@ == self.selections(),
    {
        let mut v: Vec<Range> = Vec::new();
        let mut i: usize = 0;
        while i < self.selections.len()
            invariant
                0 <= i <= self.selections@.len(),
                v@ == self.selections@.take(i as int),
            decreases self.selections@.len() - i,
        {
            v.push(self.selections[i]);
            assert(self.selections@.take(i + 1) =~= self.selections@.take(i as int).push(
                self.selections@[i as int],
            ));
            i += 1;
        }
        assert(self.selections@.take(i as int) =~= self.selections@);
        v
    }

    /// Moves the diagram along the neck. The selections stay as they are.
    pub fn set_starting_fret(&mut self, starting_fret: u8)
        ensures
            final(self).first_fret() == starting_fret,
            final(self).selections() == old(self).selections(),
            final(self).string_count() == old(self).string_count(),
            final(self).fret_count() == old(self).fret_count(),
    {
        self.starting_fret = starting_fret;
    }

    /// Gives the diagram `strings` strings. The selections stay as they are,
    /// those past the last string too.
    pub fn set_strings(&mut self, strings: u8)
        ensures
            final(self).string_count() == strings,
            final(self).selections() == old(self).selections(),
            final(self).fret_count() == old(self).fret_count(),
            final(self).first_fret() == old(self).first_fret(),
    {
        self.strings = strings;
    }

    /// Gives the diagram `frets` frets. The selections stay as they are,
    /// those past the last fret too.
    pub fn set_frets(&mut self, frets: u8)
        ensures
            final(self).fret_count() == frets,
            final(self).selections() == old(self).selections(),
            final(self).string_count() == old(self).string_count(),
            final(self).first_fret() == old(self).first_fret(),
    {
        self.frets = frets;
    }

    /// The places of the selections that overlap `range`, in rising order.
    pub fn intersections(&self, range: &Range) -> (v: Vec<usize>)
        ensures
            v@.map_values(|i: usize| i as int) == hits(self.selections(), *range),
    {
        let mut v: Vec<usize> = Vec::new();
        let mut i: usize = 0;
        while i < self.selections.len()
            invariant
                0 <= i <= self.selections@.len(),
                v@.map_values(|k: usize| k as int) == hits(self.selections@.take(i as int), *range),
            decreases self.selections@.len() - i,
        {
            let ghost before = v@;
            let ghost next = self.selections@.take(i + 1);
            assert(next.drop_last() =~= self.selections@.take(i as int));
            assert(next.last() == self.selections@[i as int]);
            if self.selections[i].is_intersection(range) {
                v.push(i);
                assert(v@.map_values(|k: usize| k as int) =~= before.map_values(
                    |k: usize| k as int,
                ).push(i as int));
            }
            i += 1;
        }
        assert(self.selections@.take(i as int) =~= self.selections@);
        v
    }

    /// Adds a selection behind the others. Nothing is checked: a selection
    /// that is already there is there twice afterwards.
    pub fn insert(&mut self, range: Range)
        ensures
            final(self).selections() == old(self).selections().push(range),
            final(self).string_count() == old(self).string_count(),
            final(self).fret_count() == old(self).fret_count(),
            final(self).first_fret() == old(self).first_fret(),
    {
        self.selections.push(range);
    }

    /// Takes the selection at `index` out. Where there is none, the diagram
    /// stays as it was and the error says how many selections it holds.
    pub fn remove(&mut self, index: usize) -> (done: Result<(), IndexOutOfRange>)
        ensures
            index < old(self).selections().len() ==> done.is_ok() && final(self).selections()
                == old(self).selections().remove(index as int),
            index >= old(self).selections().len() ==> done == Err::<(), IndexOutOfRange>(
                IndexOutOfRange { index, len: old(self).selections().len() as usize },
            ) && final(self).selections() == old(self).selections(),
            final(self).string_count() == old(self).string_count(),
            final(self).fret_count() == old(self).fret_count(),
            final(self).first_fret() == old(self).first_fret(),
    {
        let len: usize = self.selections.len();
        if index < len {
            self.selections.remove(index);
            Ok(())
        } else {
            Err(IndexOutOfRange { index, len })
        }
    }

    /// The first place of a selection that overlaps `range`.
    pub fn first_intersection(&self, range: &Range) -> (at: Option<usize>)
        ensures
            hits(self.selections(), *range).len() == 0 ==> at.is_none(),
            hits(self.selections(), *range).len() > 0 ==> at.is_some() && at.unwrap() as int
                == hits(self.selections(), *range)[0] && at.unwrap() < self.selections().len(),
    {
        let found: Vec<usize> = self.intersections(range);
        if found.len() > 0 {
            proof {
                assert(found@.map_values(|i: usize| i as int)[0] == found@[0] as int);
                lemma_hits_sound(self.selections(), *range, 0);
            }
            Some(found[0])
        } else {
            assert(found@.map_values(|i: usize| i as int).len() == 0);
            None
        }
    }

    /// Toggles a selection. A point that overlaps a selection takes the
    /// first such selection out; anything else is added behind the others.
    pub fn push(&mut self, range: &Range)
        ensures
            final(self).selections() == toggled(old(self).selections(), *range),
            final(self).string_count() == old(self).string_count(),
            final(self).fret_count() == old(self).fret_count(),
            final(self).first_fret() == old(self).first_fret(),
    {
        let hit: Option<usize> = match range.into_point() {
            Some(_) => self.first_intersection(range),
            None => None,
        };
        match hit {
            Some(index) => {
                self.selections.remove(index);
            },
            None => {
                self.selections.push(*range);
            },
        }
    }
}

} // verus!
