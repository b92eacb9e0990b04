//! What the program shows: the table of bindings and a notice for each
//! message that deserves one.

use vstd::prelude::*;
use vstd::string::*;
use crate::dispatch::Outcome;
use crate::keys::{key_label, key_label_text};
use crate::midi::NoteKeyMap;
use crate::notes::{note_name, note_to_name};
use crate::text::{align_left, align_right, append_decimal, decimal, left_aligned, right_aligned};

verus! {

/// Width of the column of note numbers.
pub const NUMBER_WIDTH: usize = 4;

/// Width of the column of note names.
pub const NAME_WIDTH: usize = 3;

/// Width of the column of key labels.
pub const LABEL_WIDTH: usize = 12;

/// The texts of a list of lines.
pub open spec fn texts(lines: Seq<String>) -> Seq<Seq<char>> {
    lines.map_values(|line: String| line@)
}

/// The row of the table for one binding: the note's number at the right of
/// its column, then its name and the key's label, each at the left of its
/// column.
pub open spec fn row_text(note: u8, key: u16) -> Seq<char> {
    "│ "@ + right_aligned(decimal(note as nat), 4) + " ("@ + left_aligned(note_name(note), 3)
        + ") │ "@ + left_aligned(key_label_text(key), 12) + " │"@
}

/// The lines above the rows: an empty line, the title, and the head of the
/// table.
pub open spec fn head_lines() -> Seq<Seq<char>> {
    seq![
        ""@,
        "mappings:"@,
        "┌────────────┬──────────────┐"@,
        "│ MIDI Note  │ Keyboard Key │"@,
        "├────────────┼──────────────┤"@,
    ]
}

/// The lines below the rows: the foot of the table and an empty line.
pub open spec fn foot_lines() -> Seq<Seq<char>> {
    seq!["└────────────┴──────────────┘"@, ""@]
}

/// The rows for the bound notes below `bound`, in rising order of note.
pub open spec fn rows_below(bindings: Map<u8, u16>, bound: nat) -> Seq<Seq<char>>
    decreases bound,
{
    if bound == 0 {
        Seq::empty()
    } else {
        let note = (bound - 1) as u8;
        let earlier = rows_below(bindings, (bound - 1) as nat);
        if bindings.contains_key(note) {
            earlier.push(row_text(note, bindings[note]))
        } else {
            earlier
        }
    }
}

/// The whole table: head, one row for each bound note in rising order of
/// note, foot.
pub open spec fn table_lines(bindings: Map<u8, u16>) -> Seq<Seq<char>> {
    head_lines() + rows_below(bindings, 256) + foot_lines()
}

/// The row of the table for one binding.
pub fn mapping_row(note: u8, key: u16) -> (row: String)
    ensures
        row@ == row_text(note, key),
{
    let mut number = String::new();
    append_decimal(&mut number, note as usize);
    assert(number@ =~= decimal(note as nat));
    let name = note_to_name(note);
    let label = key_label(key);
    let number_cell = align_right(number.as_str(), NUMBER_WIDTH);
    let name_cell = align_left(name.as_str(), NAME_WIDTH);
    let label_cell = align_left(label.as_str(), LABEL_WIDTH);
    let mut row = String::from_str("│ ");
    row.append(number_cell.as_str());
    row.append(" (");
    row.append(name_cell.as_str());
    row.append(") │ ");
    row.append(label_cell.as_str());
    row.append(" │");
    row
}

/// The table of bindings, line by line, ready to be printed.
pub fn print_mappings(mappings: &NoteKeyMap) -> (lines: Vec<String>)
    ensures
        texts(lines@) == table_lines(mappings@),
{
    let mut lines: Vec<String> = Vec::new();
    lines.push(String::from_str(""));
    lines.push(String::from_str("mappings:"));
    lines.push(String::from_str("┌────────────┬──────────────┐"));
    lines.push(String::from_str("│ MIDI Note  │ Keyboard Key │"));
    lines.push(String::from_str("├────────────┼──────────────┤"));
    assert(texts(lines@) =~= head_lines() + rows_below(mappings@, 0));

    let mut next: u16 = 0;
    while next < 256
        invariant
            next <= 256,
            texts(lines@) == head_lines() + rows_below(mappings@, next as nat),
        decreases 256 - next,
    {
        let note: u8 = next as u8;
        let ghost before = lines@;
        match mappings.lookup(note) {
            Some(key) => {
                lines.push(mapping_row(note, key));
                assert(texts(lines@) =~= texts(before).push(row_text(note, key)));
            },
            None => {},
        }
        next = next + 1;
        assert(texts(lines@) =~= head_lines() + rows_below(mappings@, next as nat));
    }
    let ghost rows = lines@;
    lines.push(String::from_str("└────────────┴──────────────┘"));
    lines.push(String::from_str(""));
    assert(texts(lines@) =~= texts(rows) + foot_lines());
    lines
}

/// A note as it is shown: its name, then its number in brackets.
pub open spec fn note_text(note: u8) -> Seq<char> {
    note_name(note) + " ("@ + decimal(note as nat) + ")"@
}

/// The notice for an outcome: a line for a key going down or up and for a
/// note that drives no key; none where nothing happened.
pub open spec fn notice_text(outcome: Outcome) -> Option<Seq<char>> {
    match outcome {
        Outcome::Emit(transition) => Some(
            note_text(transition.note) + " → "@ + key_label_text(transition.key) + if transition.down {
                " DOWN"@
            } else {
                " UP"@
            },
        ),
        Outcome::Unmapped { note } => Some("unmapped note: "@ + note_text(note)),
        Outcome::Ignored => None,
    }
}

/// Writes a note as it is shown at the end of `out`.
pub fn append_note(out: &mut String, note: u8)
    ensures
        final(out)@ == old(out)@ + note_text(note),
{
    let name = note_to_name(note);
    out.append(name.as_str());
    out.append(" (");
    append_decimal(out, note as usize);
    out.append(")");
    assert(out@ =~= old(out)@ + note_text(note));
}

/// The notice to show for an outcome, if it deserves one.
pub fn notice(outcome: &Outcome) -> (line: Option<String>)
    ensures
        line is Some == notice_text(*outcome) is Some,
        line matches Some(text) ==> Some(text@) == notice_text(*outcome),
{
    match outcome {
        Outcome::Emit(transition) => {
            let mut line = String::new();
            append_note(&mut line, transition.note);
            let label = key_label(transition.key);
            line.append(" → ");
            line.append(label.as_str());
            if transition.down {
                line.append(" DOWN");
            } else {
                line.append(" UP");
            }
            assert(Some(line@) =~= notice_text(*outcome));
            Some(line)
        },
        Outcome::Unmapped { note } => {
            let mut line = String::from_str("unmapped note: ");
            append_note(&mut line, *note);
            Some(line)
        },
        Outcome::Ignored => None,
    }
}

} // verus!
