//! The binding of notes to keys, and the choice of an input port.

use std::collections::HashMap;
use vstd::prelude::*;
use vstd::std_specs::hash::*;
use crate::answer::{parse_index, parsed_index};
use crate::keys::{
    KEY_A, KEY_D, KEY_F, KEY_LEFTCTRL, KEY_LEFTSHIFT, KEY_Q, KEY_R, KEY_S, KEY_SPACE, KEY_TAB,
    KEY_W, KEY_X,
};
use crate::notes::{A4, AS4, B2, B4, C3, C4, D3, D4, DS3, E3, F3, FS4, G3, GS4};

verus! {

/// The key bound to a note in a table of bindings, if there is one.
pub open spec fn bound_key(bindings: Map<u8, u16>, note: u8) -> Option<u16> {
    if bindings.contains_key(note) {
        Some(bindings[note])
    } else {
        None
    }
}

/// Which key each note drives. Several notes may drive the same key, and a
/// note need not drive any.
pub struct NoteKeyMap {
    bindings: HashMap<u8, u16>,
}

impl View for NoteKeyMap {
    type V = Map<u8, u16>;

    closed spec fn view(&self) -> Map<u8, u16> {
        self.bindings@
    }
}

impl NoteKeyMap {
    /// A table with no binding.
    pub fn new() -> (table: NoteKeyMap)
        ensures
            table@ == Map::<u8, u16>::empty(),
    {
        NoteKeyMap { bindings: HashMap::new() }
    }

    /// Binds `note` to `key`, in place of the key it drove before.
    pub fn bind(&mut self, note: u8, key: u16)
        ensures
            final(self)@ == old(self)@.insert(note, key),
    {
        broadcast use group_hash_axioms;

        self.bindings.insert(note, key);
    }

    /// The key that `note` drives, if it is bound.
    pub fn lookup(&self, note: u8) -> (key: Option<u16>)
        ensures
            key == bound_key(self@, note),
    {
        broadcast use group_hash_axioms;

        match self.bindings.get(&note) {
            Some(key) => Some(*key),
            None => None,
        }
    }

    /// How many notes are bound.
    pub fn len(&self) -> (count: usize)
        ensures
            count == self@.len(),
            self@.dom().finite(),
    {
        broadcast use group_hash_axioms;

        self.bindings.len()
    }
}

/// The bindings that the program starts with.
pub open spec fn default_bindings() -> Map<u8, u16> {
    Map::<u8, u16>::empty().insert(B2, KEY_LEFTCTRL).insert(C3, KEY_LEFTSHIFT).insert(
        D3,
        KEY_A,
    ).insert(DS3, KEY_W).insert(E3, KEY_S).insert(F3, KEY_D).insert(G3, KEY_SPACE).insert(
        C4,
        KEY_X,
    ).insert(D4, KEY_Q).insert(FS4, KEY_LEFTCTRL).insert(GS4, KEY_Q).insert(A4, KEY_R).insert(
        AS4,
        KEY_F,
    ).insert(B4, KEY_TAB)
}

/// Builds the table of bindings that the program starts with.
pub fn setup_midi_mappings() -> (mappings: NoteKeyMap)
    ensures
        mappings@ == default_bindings(),
{
    let mut mappings = NoteKeyMap::new();

    mappings.bind(B2, KEY_LEFTCTRL);
    mappings.bind(C3, KEY_LEFTSHIFT);
    mappings.bind(D3, KEY_A);
    mappings.bind(DS3, KEY_W);
    mappings.bind(E3, KEY_S);
    mappings.bind(F3, KEY_D);
    mappings.bind(G3, KEY_SPACE);

    mappings.bind(C4, KEY_X);
    mappings.bind(D4, KEY_Q);

    mappings.bind(FS4, KEY_LEFTCTRL);
    mappings.bind(GS4, KEY_Q);
    mappings.bind(A4, KEY_R);
    mappings.bind(AS4, KEY_F);
    mappings.bind(B4, KEY_TAB);

    mappings
}

/// Why no input port could be chosen.
#[derive(Clone, Copy, Debug, PartialEq, Eq, Structural)]
pub enum SelectionError {
    /// There is no input port at all.
    NoDevices,
    /// The answer is not a number.
    NotANumber,
    /// The answer names no port.
    OutOfRange,
}

impl SelectionError {
    /// The sentence shown to the operator.
    pub open spec fn message_text(&self) -> Seq<char> {
        match self {
            SelectionError::NoDevices => "no MIDI input devices found!"@,
            SelectionError::NotANumber => "invalid number"@,
            SelectionError::OutOfRange => "invalid selection"@,
        }
    }

    /// The sentence shown to the operator.
    pub fn message(&self) -> (text: &'static str)
        ensures
            text@ == self.message_text(),
    {
        match self {
            SelectionError::NoDevices => "no MIDI input devices found!",
            SelectionError::NotANumber => "invalid number",
            SelectionError::OutOfRange => "invalid selection",
        }
    }
}

/// What has to happen before a port is chosen.
#[derive(Clone, Copy, Debug, PartialEq, Eq, Structural)]
pub enum PortPrompt {
    /// There is no port to choose.
    NoDevices,
    /// There is one port: it is taken without asking.
    OnlyDevice,
    /// The operator is asked for a number from 0 to `last`.
    Ask { last: usize },
}

/// What has to happen before one of `port_count` ports is chosen.
pub open spec fn prompt_for(port_count: usize) -> PortPrompt {
    if port_count == 0 {
        PortPrompt::NoDevices
    } else if port_count == 1 {
        PortPrompt::OnlyDevice
    } else {
        PortPrompt::Ask { last: (port_count - 1) as usize }
    }
}

/// The port chosen among `port_count` by an answer.
///
/// Without a port there is nothing to choose; a single port is taken
/// whatever the answer; otherwise the answer has to be a number below the
/// number of ports.
pub open spec fn selection(port_count: usize, answer: Seq<char>) -> Result<usize, SelectionError> {
    if port_count == 0 {
        Err(SelectionError::NoDevices)
    } else if port_count == 1 {
        Ok(0)
    } else {
        match parsed_index(answer) {
            None => Err(SelectionError::NotANumber),
            Some(index) => if index >= port_count {
                Err(SelectionError::OutOfRange)
            } else {
                Ok(index)
            },
        }
    }
}

/// Says whether the operator has to be asked, and for what.
pub fn port_prompt(port_count: usize) -> (prompt: PortPrompt)
    ensures
        prompt == prompt_for(port_count),
{
    if port_count == 0 {
        PortPrompt::NoDevices
    } else if port_count == 1 {
        PortPrompt::OnlyDevice
    } else {
        PortPrompt::Ask { last: port_count - 1 }
    }
}

/// Chooses one of `port_count` input ports from the operator's answer. The
/// answer is not read where there is no port or only one.
pub fn select_midi_port(port_count: usize, answer: &str) -> (chosen: Result<usize, SelectionError>)
    ensures
        chosen == selection(port_count, answer@),
        chosen matches Ok(index) ==> index < port_count,
{
    if port_count == 0 {
        return Err(SelectionError::NoDevices);
    }
    if port_count == 1 {
        return Ok(0);
    }
    match parse_index(answer) {
        None => Err(SelectionError::NotANumber),
        Some(index) => {
            if index >= port_count {
                Err(SelectionError::OutOfRange)
            } else {
                Ok(index)
            }
        },
    }
}

} // verus!
