//! The notes that a diagram sounds on a guitar in standard tuning.

use vstd::prelude::*;
use crate::board::Fretboard;
use crate::range::Range;

verus! {

/// The MIDI bytes of the open strings in standard tuning, lowest string
/// first: E, A, D, G, B, E.
pub open spec fn tuning() -> Seq<u8> {
    seq![64u8, 69u8, 74u8, 79u8, 83u8, 88u8]
}

/// `staff::fretboard::STANDARD`, each note as `MidiNote::into_byte` gives
/// it: the six open strings of a guitar, lowest first.
#[verifier::external_body]
fn standard_tuning() -> (v: Vec<u8>)
    ensures
        v@ == tuning(),
{
    staff::fretboard::STANDARD.iter().map(|m| m.into_byte()).collect()
}

/// `MidiNote + Interval` of `staff`: the note that lies `frets` semitones
/// above `note`. The sum must fit a byte, or the addition overflows.
#[verifier::external_body]
fn raised(note: u8, frets: u8) -> (r: u8)
    requires
        note + frets <= u8::MAX,
    ensures
        r == note + frets,
{
    (staff::midi::MidiNote::from_byte(note) + staff::Interval::new(frets)).into_byte()
}

/// The selection holds `string` down: it covers the string and is not
/// muted.
pub open spec fn holds_down(f: Range, string: int) -> bool {
    !f.muted && f.string_start <= string <= f.string_end
}

/// The highest fret at which a selection of `s` holds `string` down;
/// nothing where none does.
pub open spec fn highest(s: Seq<Range>, string: int) -> Option<u8>
    decreases s.len(),
{
    if s.len() == 0 {
        None
    } else {
        let rest = highest(s.drop_last(), string);
        let f = s.last();
        if holds_down(f, string) {
            match rest {
                Some(p) => if p >= f.fret_end {
                    rest
                } else {
                    Some(f.fret_end)
                },
                None => Some(f.fret_end),
            }
        } else {
            rest
        }
    }
}

/// The number of strings that can sound: those of the diagram, as far as the
/// tuning names them.
pub open spec fn sounding_strings(strings: u8) -> int {
    if strings < tuning().len() {
        strings as int
    } else {
        tuning().len() as int
    }
}

/// The MIDI bytes sounded on the strings below `upto`, lowest string first:
/// the open string's note raised by the highest fret held down on it. A
/// string that nothing holds down is silent and left out.
pub open spec fn sounded(s: Seq<Range>, upto: int) -> Seq<int>
    decreases upto,
{
    if upto <= 0 {
        Seq::empty()
    } else {
        let rest = sounded(s, upto - 1);
        match highest(s, upto - 1) {
            Some(p) => rest.push(tuning()[upto - 1] + p),
            None => rest,
        }
    }
}

/// Every note sounded on the strings below `upto` fits a byte.
pub open spec fn playable(s: Seq<Range>, upto: int) -> bool {
    forall|j: int|
        0 <= j < upto ==> (#[trigger] highest(s, j) matches Some(p) ==> tuning()[j] + p <= u8::MAX)
}

/// The highest fret at which a selection holds `string` down.
pub fn highest_on(ranges: &Vec<Range>, string: u8) -> (top: Option<u8>)
    ensures
        top == highest(ranges@, string as int),
{
    let mut top: Option<u8> = None;
    let mut i: usize = 0;
    while i < ranges.len()
        invariant
            0 <= i <= ranges@.len(),
            top == highest(ranges@.take(i as int), string as int),
        decreases ranges@.len() - i,
    {
        let f: Range = ranges[i];
        proof {
            let next = ranges@.take(i + 1);
            assert(next.drop_last() =~= ranges@.take(i as int));
            assert(next.last() == f);
        }
        if !f.muted && f.string_start <= string && string <= f.string_end {
            top = match top {
                Some(p) => if p >= f.fret_end {
                    Some(p)
                } else {
                    Some(f.fret_end)
                },
                None => Some(f.fret_end),
            };
        }
        i += 1;
    }
    assert(ranges@.take(i as int) =~= ranges@);
    top
}

impl Fretboard {
    /// The MIDI bytes that the diagram sounds in standard tuning, lowest
    /// string first, silent strings left out; nothing where a note would not
    /// fit a byte.
    pub fn midi_notes(&self) -> (notes: Option<Vec<u8>>)
        ensures
            playable(self.selections(), sounding_strings(self.string_count())) ==> notes.is_some()
                && notes.unwrap()@.map_values(|b: u8| b as int) == sounded(
                self.selections(),
                sounding_strings(self.string_count()),
            ),
            !playable(self.selections(), sounding_strings(self.string_count()))
                ==> notes.is_none(),
    {
        let ranges: Vec<Range> = self.ranges();
        let open: Vec<u8> = standard_tuning();
        let strings: u8 = self.strings();
        assert(tuning().len() == 6);
        let upto: usize = if (strings as usize) < open.len() {
            strings as usize
        } else {
            open.len()
        };
        let mut v: Vec<u8> = Vec::new();
        let mut j: usize = 0;
        while j < upto
            invariant
                ranges@ == self.selections(),
                open@ == tuning(),
                upto == sounding_strings(self.string_count()),
                0 <= j <= upto <= 6,
                v@.map_values(|b: u8| b as int) == sounded(ranges@, j as int),
                playable(ranges@, j as int),
            decreases upto - j,
        {
            let ghost before = v@;
            match highest_on(&ranges, j as u8) {
                Some(p) => {
                    if open[j] > u8::MAX - p {
                        assert(!playable(ranges@, upto as int)) by {
                            assert(highest(ranges@, j as int) == Some(p));
                        }
                        return None;
                    }
                    let note: u8 = raised(open[j], p);
                    v.push(note);
                    assert(v@.map_values(|b: u8| b as int) =~= before.map_values(|b: u8| b as int).push(
                        note as int,
                    ));
                },
                None => {},
            }
            j += 1;
        }
        Some(v)
    }
}

} // verus!
