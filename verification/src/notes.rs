//! Note numbers by name, and the name of a note number.

use vstd::prelude::*;
use vstd::string::*;
use crate::text::{append_decimal, signed_decimal};

verus! {

pub const B2: u8 = 71 - 24;

pub const B3: u8 = 71 - 12;

pub const C3: u8 = 60 - 12;

pub const CS3: u8 = 61 - 12;

pub const D3: u8 = 62 - 12;

pub const DS3: u8 = 63 - 12;

pub const E3: u8 = 64 - 12;

pub const F3: u8 = 65 - 12;

pub const FS3: u8 = 66 - 12;

pub const G3: u8 = 67 - 12;

pub const GS3: u8 = 68 - 12;

pub const A3: u8 = 69 - 12;

/// Middle C.
pub const C4: u8 = 60;

pub const CS4: u8 = 61;

pub const D4: u8 = 62;

pub const DS4: u8 = 63;

pub const E4: u8 = 64;

pub const F4: u8 = 65;

pub const FS4: u8 = 66;

pub const G4: u8 = 67;

pub const GS4: u8 = 68;

pub const A4: u8 = 69;

pub const AS4: u8 = 70;

pub const B4: u8 = 71;

pub const C5: u8 = 72;

pub const D5: u8 = 74;

pub const E5: u8 = 76;

pub const F5: u8 = 77;

/// The name of a pitch class, counted in semitones above C.
pub open spec fn pitch_class_name(class: int) -> Seq<char> {
    if class == 0 {
        "C"@
    } else if class == 1 {
        "C#"@
    } else if class == 2 {
        "D"@
    } else if class == 3 {
        "D#"@
    } else if class == 4 {
        "E"@
    } else if class == 5 {
        "F"@
    } else if class == 6 {
        "F#"@
    } else if class == 7 {
        "G"@
    } else if class == 8 {
        "G#"@
    } else if class == 9 {
        "A"@
    } else if class == 10 {
        "A#"@
    } else {
        "B"@
    }
}

/// The octave a note lies in. Note 0 lies in octave -1, note 60 in octave 4.
pub open spec fn octave_of(note: u8) -> int {
    note as int / 12 - 1
}

/// The name of a note: its pitch class followed by its octave.
pub open spec fn note_name(note: u8) -> Seq<char> {
    pitch_class_name(note as int % 12) + signed_decimal(octave_of(note))
}

/// The name of a pitch class as text.
pub fn pitch_class_str(class: u8) -> (name: &'static str)
    requires
        class < 12,
    ensures
        name@ == pitch_class_name(class as int),
{
    match class {
        0 => "C",
        1 => "C#",
        2 => "D",
        3 => "D#",
        4 => "E",
        5 => "F",
        6 => "F#",
        7 => "G",
        8 => "G#",
        9 => "A",
        10 => "A#",
        _ => "B",
    }
}

/// The name of a note, such as `C4` for note 60 and `C-1` for note 0.
pub fn note_to_name(note: u8) -> (name: String)
    ensures
        name@ == note_name(note),
{
    let mut name = String::from_str(pitch_class_str(note % 12));
    if note < 12 {
        proof {
            reveal_strlit("-");
        }
        name.append("-");
        append_decimal(&mut name, 1);
        assert(name@ =~= note_name(note));
    } else {
        let octave: u8 = note / 12 - 1;
        append_decimal(&mut name, octave as usize);
    }
    name
}

} // verus!
