use midikeys::notes::{note_to_name, A4, AS4, B2, B3, B4, C3, C4, C5, D3, D5, DS3, E5, F5, FS4, G3};

fn by_formatting(note: u8) -> String {
    let note_names = ["C", "C#", "D", "D#", "E", "F", "F#", "G", "G#", "A", "A#", "B"];
    let octave = (note / 12) as i8 - 1;
    format!("{}{}", note_names[(note % 12) as usize], octave)
}

#[test]
fn note_names_of_known_notes() {
    assert_eq!(note_to_name(60), "C4");
    assert_eq!(note_to_name(61), "C#4");
    assert_eq!(note_to_name(69), "A4");
    assert_eq!(note_to_name(47), "B2");
    assert_eq!(note_to_name(0), "C-1");
    assert_eq!(note_to_name(11), "B-1");
    assert_eq!(note_to_name(12), "C0");
    assert_eq!(note_to_name(127), "G9");
    assert_eq!(note_to_name(131), "B9");
    assert_eq!(note_to_name(132), "C10");
    assert_eq!(note_to_name(255), "D#20");
}

#[test]
fn note_names_of_all_notes() {
    for note in 0..=255u8 {
        assert_eq!(note_to_name(note), by_formatting(note));
    }
}

#[test]
fn note_constants_have_their_numbers() {
    assert_eq!(B2, 47);
    assert_eq!(C3, 48);
    assert_eq!(D3, 50);
    assert_eq!(DS3, 51);
    assert_eq!(G3, 55);
    assert_eq!(B3, 59);
    assert_eq!(C4, 60);
    assert_eq!(FS4, 66);
    assert_eq!(A4, 69);
    assert_eq!(AS4, 70);
    assert_eq!(B4, 71);
    assert_eq!(C5, 72);
    assert_eq!(D5, 74);
    assert_eq!(E5, 76);
    assert_eq!(F5, 77);
}
