use fretboard::notes::highest_on;
use fretboard::{Fretboard, Range};

#[test]
fn empty_board_is_silent() {
    assert_eq!(Fretboard::new(6, 6, 0).midi_notes(), Some(vec![]));
}

#[test]
fn open_strings_follow_standard_tuning() {
    let mut b = Fretboard::new(6, 6, 0);
    b.insert(Range::barre(0, 0, 5));
    assert_eq!(b.midi_notes(), Some(vec![64, 69, 74, 79, 83, 88]));
}

#[test]
fn notes_rise_with_the_fret_and_skip_silent_strings() {
    let mut b = Fretboard::new(6, 6, 0);
    b.insert(Range::point(0, 0));
    b.insert(Range::point(2, 1));
    b.insert(Range::barre(1, 3, 5));
    b.insert(Range::muted(4, 2));
    assert_eq!(b.midi_notes(), Some(vec![64, 71, 80, 84, 89]));
}

#[test]
fn starting_fret_does_not_move_the_notes() {
    let mut b = Fretboard::new(6, 6, 3);
    b.insert(Range::point(4, 0));
    assert_eq!(b.midi_notes(), Some(vec![68]));
    b.set_starting_fret(0);
    assert_eq!(b.midi_notes(), Some(vec![68]));
}

#[test]
fn highest_fret_on_a_string_sounds() {
    let mut b = Fretboard::new(6, 6, 0);
    b.insert(Range::point(3, 0));
    b.insert(Range::barre(1, 0, 2));
    b.insert(Range::stretch(2, 5, 2));
    assert_eq!(b.midi_notes(), Some(vec![67, 70, 79]));
    assert_eq!(highest_on(&b.ranges(), 0), Some(3));
    assert_eq!(highest_on(&b.ranges(), 2), Some(5));
    assert_eq!(highest_on(&b.ranges(), 3), None);
}

#[test]
fn strings_beyond_the_tuning_or_the_diagram_stay_silent() {
    let mut b = Fretboard::new(8, 6, 0);
    b.insert(Range::point(1, 7));
    b.insert(Range::point(1, 5));
    assert_eq!(b.midi_notes(), Some(vec![89]));
    b.set_strings(4);
    assert_eq!(b.midi_notes(), Some(vec![]));
    b.insert(Range::barre(2, 0, 5));
    assert_eq!(b.midi_notes(), Some(vec![66, 71, 76, 81]));
}

#[test]
fn notes_past_a_byte_are_refused() {
    let mut b = Fretboard::new(6, 6, 0);
    b.insert(Range::point(191, 0));
    assert_eq!(b.midi_notes(), Some(vec![255]));
    b.insert(Range::point(192, 0));
    assert_eq!(b.midi_notes(), None);
    b.set_strings(0);
    assert_eq!(b.midi_notes(), Some(vec![]));
}

#[test]
fn muted_mark_sounds_nothing_however_high() {
    let mut b = Fretboard::new(6, 6, 0);
    b.insert(Range::muted(255, 5));
    assert_eq!(b.midi_notes(), Some(vec![]));
}
