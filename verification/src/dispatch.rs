//! The per-note press state and the decisions taken on each note event.

use std::collections::HashMap;
use vstd::prelude::*;
use vstd::std_specs::hash::*;
use crate::keys::EV_KEY;
use crate::message::{decode, decoded, NoteEvent, NoteKind};
use crate::midi::NoteKeyMap;

verus! {

/// Value sent for a key going down.
pub const KEY_DOWN_VALUE: i32 = 1;

/// Value sent for a key going up.
pub const KEY_UP_VALUE: i32 = 0;

/// One press or release of a key, with the note that caused it.
#[derive(Clone, Copy, Debug, PartialEq, Eq, Structural)]
pub struct Transition {
    pub note: u8,
    pub key: u16,
    pub down: bool,
}

impl Transition {
    /// The value that the output device takes for this transition.
    pub open spec fn value_spec(&self) -> i32 {
        if self.down {
            1
        } else {
            0
        }
    }

    /// The value that the output device takes for this transition: 1 for a
    /// press, 0 for a release.
    pub fn value(&self) -> (value: i32)
        ensures
            value == self.value_spec(),
    {
        if self.down {
            KEY_DOWN_VALUE
        } else {
            KEY_UP_VALUE
        }
    }

    /// The three fields of the event that the output device takes for this
    /// transition: the key event type, the key's code, and the value.
    pub fn event_fields(&self) -> (fields: (u16, u16, i32))
        ensures
            fields == (EV_KEY, self.key, self.value_spec()),
    {
        (EV_KEY, self.key, self.value())
    }
}

/// What handling one message came to.
#[derive(Clone, Copy, Debug, PartialEq, Eq, Structural)]
pub enum Outcome {
    /// A transition to send to the output device.
    Emit(Transition),
    /// A note-on for a note that drives no key: worth a notice, nothing
    /// else.
    Unmapped { note: u8 },
    /// Nothing to do.
    Ignored,
}

/// Whether a press state marks `note` as holding its key down. A note that
/// was never seen holds nothing.
pub open spec fn is_down(state: Map<u8, bool>, note: u8) -> bool {
    state.contains_key(note) && state[note]
}

/// The press state after one event.
///
/// A note that drives no key changes nothing. A note-on marks a released
/// note as pressed and leaves a pressed one alone; a note-off marks the
/// note as released whatever it was.
pub open spec fn next_state(keys: Map<u8, u16>, state: Map<u8, bool>, event: NoteEvent) -> Map<
    u8,
    bool,
> {
    if !keys.contains_key(event.note) {
        state
    } else {
        match event.kind {
            NoteKind::NoteOn => if is_down(state, event.note) {
                state
            } else {
                state.insert(event.note, true)
            },
            NoteKind::NoteOff => state.insert(event.note, false),
        }
    }
}

/// What one event comes to in a given press state.
///
/// A note-on presses the key of a released note and is dropped for a note
/// that is already pressed; a note-off always releases the key. For a note
/// that drives no key a note-on is reported and a note-off is dropped.
pub open spec fn outcome_of(keys: Map<u8, u16>, state: Map<u8, bool>, event: NoteEvent) -> Outcome {
    if !keys.contains_key(event.note) {
        match event.kind {
            NoteKind::NoteOn => Outcome::Unmapped { note: event.note },
            NoteKind::NoteOff => Outcome::Ignored,
        }
    } else {
        match event.kind {
            NoteKind::NoteOn => if is_down(state, event.note) {
                Outcome::Ignored
            } else {
                Outcome::Emit(Transition { note: event.note, key: keys[event.note], down: true })
            },
            NoteKind::NoteOff => Outcome::Emit(
                Transition { note: event.note, key: keys[event.note], down: false },
            ),
        }
    }
}

/// The press state after one raw message.
pub open spec fn state_after_message(keys: Map<u8, u16>, state: Map<u8, bool>, bytes: Seq<u8>) -> Map<
    u8,
    bool,
> {
    match decoded(bytes) {
        Some(event) => next_state(keys, state, event),
        None => state,
    }
}

/// What one raw message comes to in a given press state.
pub open spec fn outcome_of_message(keys: Map<u8, u16>, state: Map<u8, bool>, bytes: Seq<u8>) -> Outcome {
    match decoded(bytes) {
        Some(event) => outcome_of(keys, state, event),
        None => Outcome::Ignored,
    }
}

/// Whether every note that a press state knows of drives a key.
pub open spec fn tracks_bound_notes(keys: Map<u8, u16>, state: Map<u8, bool>) -> bool {
    forall|note: u8| state.contains_key(note) ==> keys.contains_key(note)
}

/// The press state with every known note marked as released.
pub open spec fn all_released(state: Map<u8, bool>) -> Map<u8, bool> {
    Map::new(|note: u8| state.contains_key(note), |note: u8| false)
}

/// The releases owed for the notes below `bound`, in rising order of note:
/// one for each note that is pressed and drives a key.
pub open spec fn releases_below(keys: Map<u8, u16>, state: Map<u8, bool>, bound: nat) -> Seq<
    Transition,
>
    decreases bound,
{
    if bound == 0 {
        Seq::empty()
    } else {
        let note = (bound - 1) as u8;
        let earlier = releases_below(keys, state, (bound - 1) as nat);
        if is_down(state, note) && keys.contains_key(note) {
            earlier.push(Transition { note, key: keys[note], down: false })
        } else {
            earlier
        }
    }
}

/// The releases owed when the session stops.
pub open spec fn releases_of(keys: Map<u8, u16>, state: Map<u8, bool>) -> Seq<Transition> {
    releases_below(keys, state, 256)
}

/// Which notes hold a key down. Notes are entered when they are first
/// pressed or released.
pub struct PressState {
    marks: HashMap<u8, bool>,
}

impl View for PressState {
    type V = Map<u8, bool>;

    closed spec fn view(&self) -> Map<u8, bool> {
        self.marks@
    }
}

impl PressState {
    /// A state in which no note has been seen.
    pub fn new() -> (state: PressState)
        ensures
            state@ == Map::<u8, bool>::empty(),
    {
        PressState { marks: HashMap::new() }
    }

    /// Whether `note` holds its key down.
    pub fn is_pressed(&self, note: u8) -> (pressed: bool)
        ensures
            pressed == is_down(self@, note),
    {
        broadcast use group_hash_axioms;

        match self.marks.get(&note) {
            Some(mark) => *mark,
            None => false,
        }
    }

    /// Whether `note` has been seen.
    pub fn has_seen(&self, note: u8) -> (seen: bool)
        ensures
            seen == self@.contains_key(note),
    {
        broadcast use group_hash_axioms;

        self.marks.contains_key(&note)
    }

    /// Marks `note` as pressed or released.
    pub(crate) fn mark(&mut self, note: u8, down: bool)
        ensures
            final(self)@ == old(self)@.insert(note, down),
    {
        broadcast use group_hash_axioms;

        self.marks.insert(note, down);
    }
}

/// The bindings together with the press state that they drive. All changes
/// to the press state go through this type. Once the session has been shut
/// down it takes no further event.
pub struct Dispatcher {
    keys: NoteKeyMap,
    pressed: PressState,
    stopped: bool,
}

impl Dispatcher {
    /// The bindings in use.
    pub closed spec fn bindings(&self) -> Map<u8, u16> {
        self.keys@
    }

    /// The press state.
    pub closed spec fn state(&self) -> Map<u8, bool> {
        self.pressed@
    }

    /// Whether the session is still running: it is until it is shut down.
    pub closed spec fn running(&self) -> bool {
        !self.stopped
    }

    /// Every note that has been seen drives a key: only such notes are ever
    /// entered. A new dispatcher is well formed, and every operation keeps
    /// it so.
    pub open spec fn wf(&self) -> bool {
        tracks_bound_notes(self.bindings(), self.state())
    }

    /// A dispatcher over `keys` in which no note has been seen.
    pub fn new(keys: NoteKeyMap) -> (dispatcher: Dispatcher)
        ensures
            dispatcher.wf(),
            dispatcher.running(),
            dispatcher.bindings() == keys@,
            dispatcher.state() == Map::<u8, bool>::empty(),
    {
        Dispatcher { keys, pressed: PressState::new(), stopped: false }
    }

    /// Whether the session is still running.
    pub fn is_running(&self) -> (running: bool)
        ensures
            running == self.running(),
    {
        !self.stopped
    }

    /// The press state, to be read.
    pub fn press_state(&self) -> (state: &PressState)
        ensures
            state@ == self.state(),
    {
        &self.pressed
    }

    /// The key that `note` drives, if it is bound.
    pub fn key_of(&self, note: u8) -> (key: Option<u16>)
        ensures
            key == crate::midi::bound_key(self.bindings(), note),
    {
        self.keys.lookup(note)
    }

    /// Whether `note` holds its key down.
    pub fn is_pressed(&self, note: u8) -> (pressed: bool)
        ensures
            pressed == is_down(self.state(), note),
    {
        self.pressed.is_pressed(note)
    }

    /// Takes one note event: updates the press state and says what to do.
    /// After the session has been shut down the event is dropped.
    pub fn handle_event(&mut self, event: NoteEvent) -> (outcome: Outcome)
        ensures
            old(self).wf() ==> final(self).wf(),
            final(self).running() == old(self).running(),
            final(self).bindings() == old(self).bindings(),
            final(self).state() == if old(self).running() {
                next_state(old(self).bindings(), old(self).state(), event)
            } else {
                old(self).state()
            },
            outcome == if old(self).running() {
                outcome_of(old(self).bindings(), old(self).state(), event)
            } else {
                Outcome::Ignored
            },
    {
        if self.stopped {
            return Outcome::Ignored;
        }
        match self.keys.lookup(event.note) {
            Some(key) => {
                match event.kind {
                    NoteKind::NoteOn => {
                        if self.pressed.is_pressed(event.note) {
                            Outcome::Ignored
                        } else {
                            self.pressed.mark(event.note, true);
                            Outcome::Emit(Transition { note: event.note, key, down: true })
                        }
                    },
                    NoteKind::NoteOff => {
                        self.pressed.mark(event.note, false);
                        Outcome::Emit(Transition { note: event.note, key, down: false })
                    },
                }
            },
            None => {
                match event.kind {
                    NoteKind::NoteOn => Outcome::Unmapped { note: event.note },
                    NoteKind::NoteOff => Outcome::Ignored,
                }
            },
        }
    }

    /// Takes one raw message: decodes it and handles the event it carries,
    /// if any. A message that carries none changes nothing, and neither
    /// does any message after the session has been shut down.
    pub fn handle_message(&mut self, bytes: &[u8]) -> (outcome: Outcome)
        ensures
            old(self).wf() ==> final(self).wf(),
            final(self).running() == old(self).running(),
            final(self).bindings() == old(self).bindings(),
            final(self).state() == if old(self).running() {
                state_after_message(old(self).bindings(), old(self).state(), bytes@)
            } else {
                old(self).state()
            },
            outcome == if old(self).running() {
                outcome_of_message(old(self).bindings(), old(self).state(), bytes@)
            } else {
                Outcome::Ignored
            },
            bytes@.len() < 3 ==> final(self).state() == old(self).state() && outcome
                == Outcome::Ignored,
    {
        match decode(bytes) {
            Some(event) => self.handle_event(event),
            None => Outcome::Ignored,
        }
    }

    /// Ends the session: marks every pressed note as released and returns
    /// the releases to send, one for each such note, in rising order of
    /// note. From then on no event is taken.
    pub fn shutdown(&mut self) -> (releases: Vec<Transition>)
        ensures
            old(self).wf() ==> final(self).wf(),
            !final(self).running(),
            final(self).bindings() == old(self).bindings(),
            final(self).state() == all_released(old(self).state()),
            releases@ == releases_of(old(self).bindings(), old(self).state()),
    {
        let mut releases: Vec<Transition> = Vec::new();
        let mut next: u16 = 0;
        while next < 256
            invariant
                next <= 256,
                self.bindings() == old(self).bindings(),
                self.state().dom() == old(self).state().dom(),
                forall|n: u8| n < next && self.state().contains_key(n) ==> !self.state()[n],
                forall|n: u8|
                    n >= next && self.state().contains_key(n) ==> self.state()[n] == old(
                        self,
                    ).state()[n],
                releases@ == releases_below(
                    old(self).bindings(),
                    old(self).state(),
                    next as nat,
                ),
            decreases 256 - next,
        {
            let note: u8 = next as u8;
            if self.pressed.is_pressed(note) {
                match self.keys.lookup(note) {
                    Some(key) => {
                        releases.push(Transition { note, key, down: false });
                    },
                    None => {},
                }
                self.pressed.mark(note, false);
                assert(self.state().dom() =~= old(self).state().dom());
            }
            next = next + 1;
        }
        assert(self.state() =~= all_released(old(self).state()));
        self.stopped = true;
        releases
    }
}

} // verus!
