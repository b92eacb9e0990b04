//! Decoding of raw controller messages into note events.

use vstd::prelude::*;

verus! {

/// Status nibble of a note-on message.
pub const NOTE_ON_STATUS: u8 = 0x9;

/// Status nibble of a note-off message.
pub const NOTE_OFF_STATUS: u8 = 0x8;

/// Shortest message that can carry a note event.
pub const NOTE_MESSAGE_LEN: usize = 3;

/// Whether a note starts or stops sounding.
#[derive(Clone, Copy, Debug, PartialEq, Eq, Structural)]
pub enum NoteKind {
    NoteOn,
    NoteOff,
}

/// A decoded note message.
#[derive(Clone, Copy, Debug, PartialEq, Eq, Structural)]
pub struct NoteEvent {
    pub note: u8,
    pub kind: NoteKind,
    pub velocity: u8,
}

/// The status of a message: the high nibble of its first byte. The low
/// nibble is the channel and plays no part.
pub open spec fn status_of(first: u8) -> int {
    first as int / 16
}

/// The event that a raw message stands for, if any.
///
/// A message of fewer than three bytes carries none. A note-on status with
/// a velocity above zero is a note-on; a note-off status, or a note-on
/// status with velocity zero, is a note-off. Every other status carries
/// none.
pub open spec fn decoded(bytes: Seq<u8>) -> Option<NoteEvent> {
    if bytes.len() < 3 {
        None
    } else if status_of(bytes[0]) == 0x9 && bytes[2] > 0 {
        Some(NoteEvent { note: bytes[1], kind: NoteKind::NoteOn, velocity: bytes[2] })
    } else if status_of(bytes[0]) == 0x8 || (status_of(bytes[0]) == 0x9 && bytes[2] == 0) {
        Some(NoteEvent { note: bytes[1], kind: NoteKind::NoteOff, velocity: bytes[2] })
    } else {
        None
    }
}

/// The status nibble of a first byte.
pub fn status_nibble(first: u8) -> (status: u8)
    ensures
        status as int == status_of(first),
        status < 16,
{
    let status: u8 = first >> 4;
    assert(first >> 4 == first / 16) by (bit_vector);
    status
}

/// Decodes one raw message.
pub fn decode(bytes: &[u8]) -> (event: Option<NoteEvent>)
    ensures
        event == decoded(bytes@),
{
    if bytes.len() < NOTE_MESSAGE_LEN {
        return None;
    }
    let status: u8 = status_nibble(bytes[0]);
    let note: u8 = bytes[1];
    let velocity: u8 = bytes[2];
    if status == NOTE_ON_STATUS && velocity > 0 {
        Some(NoteEvent { note, kind: NoteKind::NoteOn, velocity })
    } else if status == NOTE_OFF_STATUS || (status == NOTE_ON_STATUS && velocity == 0) {
        Some(NoteEvent { note, kind: NoteKind::NoteOff, velocity })
    } else {
        None
    }
}

/// A message too short to carry a note decodes to nothing.
pub proof fn lemma_short_message_carries_nothing(bytes: Seq<u8>)
    requires
        bytes.len() < 3,
    ensures
        decoded(bytes) is None,
{
}

/// A note-on status with velocity zero is read as a release, whatever the
/// channel.
pub proof fn lemma_silent_note_on_is_release(channel: u8, note: u8)
    requires
        channel < 16,
    ensures
        decoded(seq![(0x90 + channel) as u8, note, 0u8]) == Some(
            NoteEvent { note, kind: NoteKind::NoteOff, velocity: 0 },
        ),
{
}

} // verus!
