use fretboard::{roots, Pitch};

#[test]
fn new_pitch_is_c() {
    let p = Pitch::new();
    assert_eq!(p.into_byte(), 0);
    assert_eq!(p.to_string(), "C");
}

#[test]
fn roots_are_the_twelve_pitches_each_once() {
    let bytes: Vec<u8> = roots().iter().map(|p| p.into_byte()).collect();
    assert_eq!(bytes, vec![0, 1, 2, 3, 4, 5, 6, 7, 8, 9, 10, 11]);
}

#[test]
fn roots_carry_their_names() {
    let names: Vec<String> = roots().iter().map(|p| p.to_string()).collect();
    assert_eq!(
        names,
        vec!["C", "C#", "D", "D#", "E", "F", "F#", "G", "G#", "A", "A#", "B"]
    );
}
