use midikeys::dispatch::{Outcome, Transition};
use midikeys::helpers::{mapping_row, notice, print_mappings};
use midikeys::midi::{setup_midi_mappings, NoteKeyMap};

#[test]
fn rows_are_laid_out_in_columns() {
    assert_eq!(mapping_row(60, 45), "│   60 (C4 ) │ X            │");
    assert_eq!(mapping_row(48, 42), "│   48 (C3 ) │ LEFTSHIFT    │");
    assert_eq!(mapping_row(66, 29), "│   66 (F#4) │ LEFTCTRL     │");
    assert_eq!(mapping_row(0, 57), "│    0 (C-1) │ SPACE        │");
    assert_eq!(mapping_row(255, 700), "│  255 (D#20) │ unknown key: 700 │");
}

#[test]
fn table_lists_the_bindings_by_note() {
    let lines = print_mappings(&setup_midi_mappings());
    let expected = vec![
        "",
        "mappings:",
        "┌────────────┬──────────────┐",
        "│ MIDI Note  │ Keyboard Key │",
        "├────────────┼──────────────┤",
        "│   47 (B2 ) │ LEFTCTRL     │",
        "│   48 (C3 ) │ LEFTSHIFT    │",
        "│   50 (D3 ) │ A            │",
        "│   51 (D#3) │ W            │",
        "│   52 (E3 ) │ S            │",
        "│   53 (F3 ) │ D            │",
        "│   55 (G3 ) │ SPACE        │",
        "│   60 (C4 ) │ X            │",
        "│   62 (D4 ) │ Q            │",
        "│   66 (F#4) │ LEFTCTRL     │",
        "│   68 (G#4) │ Q            │",
        "│   69 (A4 ) │ R            │",
        "│   70 (A#4) │ F            │",
        "│   71 (B4 ) │ TAB          │",
        "└────────────┴──────────────┘",
        "",
    ];
    assert_eq!(lines, expected);
}

#[test]
fn table_of_no_bindings_has_no_rows() {
    let lines = print_mappings(&NoteKeyMap::new());
    assert_eq!(lines.len(), 7);
    assert_eq!(lines[4], "├────────────┼──────────────┤");
    assert_eq!(lines[5], "└────────────┴──────────────┘");
}

#[test]
fn notices_name_note_and_key() {
    let press = Outcome::Emit(Transition { note: 60, key: 45, down: true });
    let release = Outcome::Emit(Transition { note: 66, key: 29, down: false });
    assert_eq!(notice(&press), Some(String::from("C4 (60) → X DOWN")));
    assert_eq!(notice(&release), Some(String::from("F#4 (66) → LEFTCTRL UP")));
    assert_eq!(
        notice(&Outcome::Unmapped { note: 64 }),
        Some(String::from("unmapped note: E4 (64)"))
    );
    assert_eq!(notice(&Outcome::Ignored), None);
}
