//! Pitch classes: the twelve steps of the chromatic scale.

use vstd::prelude::*;

verus! {

/// The number of pitch classes.
pub const STEPS: u8 = 12;

/// The name of the pitch class `byte` steps above C.
pub open spec fn pitch_name(byte: u8) -> Seq<char> {
    let step = byte % 12;
    if step == 0 {
        "C"@
    } else if step == 1 {
        "C#"@
    } else if step == 2 {
        "D"@
    } else if step == 3 {
        "D#"@
    } else if step == 4 {
        "E"@
    } else if step == 5 {
        "F"@
    } else if step == 6 {
        "F#"@
    } else if step == 7 {
        "G"@
    } else if step == 8 {
        "G#"@
    } else if step == 9 {
        "A"@
    } else if step == 10 {
        "A#"@
    } else {
        "B"@
    }
}

/// What a set of all pitches hands out, as steps above C: its sixteen
/// places in turn, each folded into the twelve steps.
pub open spec fn handed_out() -> Seq<u8> {
    Seq::new(16, |i: int| (i % 12) as u8)
}

/// `Display` of `staff::Pitch`, on the pitch that `Pitch::from_byte` makes
/// of `byte`: the letter of the step `byte % 12`, with `#` for a raised one.
#[verifier::external_body]
fn staff_pitch_name(byte: u8) -> (s: String)
    ensures
        s@ == pitch_name(byte),
{
    staff::Pitch::from_byte(byte).to_string()
}

/// `PitchSet::all`, walked to its end, each pitch as `Pitch::into_byte`
/// gives it. The set is sixteen bits wide, so after the twelve pitches the
/// first four come round a second time.
#[verifier::external_body]
fn staff_all_pitches() -> (v: Vec<u8>)
    ensures
        v@ == handed_out(),
{
    staff::set::PitchSet::all().map(|p| p.into_byte()).collect()
}

/// A pitch class.
#[derive(Clone, Copy, Debug, PartialEq, Eq, Structural)]
pub struct Pitch {
    step: u8,
}

impl Pitch {
    /// The number of steps above C, below twelve.
    pub closed spec fn step(self) -> u8 {
        self.step
    }

    /// The pitch is one of the twelve.
    pub open spec fn wf(self) -> bool {
        self.step() < STEPS
    }

    /// The pitch class C.
    pub fn new() -> (p: Pitch)
        ensures
            p.step() == 0,
            p.wf(),
    {
        Pitch { step: 0 }
    }

    pub fn to_string(&self) -> (s: String)
        ensures
            s@ == pitch_name(self.step()),
    {
        staff_pitch_name(self.step)
    }

    pub fn into_byte(&self) -> (byte: u8)
        ensures
            byte == self.step(),
    {
        self.step
    }
}

/// The pitches to choose a root from: the twelve pitch classes from C
/// upwards, each once.
pub fn roots() -> (v: Vec<Pitch>)
    ensures
        v@.len() == STEPS,
        forall|i: int| 0 <= i < v@.len() ==> (#[trigger] v@[i]).step() == i,
        forall|i: int| 0 <= i < v@.len() ==> (#[trigger] v@[i]).wf(),
{
    let steps: Vec<u8> = staff_all_pitches();
    let mut v: Vec<Pitch> = Vec::new();
    let mut i: usize = 0;
    while i < STEPS as usize
        invariant
            steps@ == handed_out(),
            0 <= i <= STEPS,
            v@.len() == i,
            forall|k: int| 0 <= k < i ==> (#[trigger] v@[k]).step() == k,
        decreases STEPS - i,
    {
        v.push(Pitch { step: steps[i] });
        i += 1;
    }
    v
}

} // verus!
