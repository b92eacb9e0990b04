use midikeys::dispatch::{Dispatcher, Outcome, Transition};
use midikeys::message::{NoteEvent, NoteKind};
use midikeys::midi::{setup_midi_mappings, NoteKeyMap};

fn on(note: u8) -> NoteEvent {
    NoteEvent { note, kind: NoteKind::NoteOn, velocity: 100 }
}

fn off(note: u8) -> NoteEvent {
    NoteEvent { note, kind: NoteKind::NoteOff, velocity: 0 }
}

fn run(dispatcher: &mut Dispatcher, events: &[NoteEvent]) -> Vec<Transition> {
    let mut sent = Vec::new();
    for event in events {
        if let Outcome::Emit(transition) = dispatcher.handle_event(*event) {
            sent.push(transition);
        }
    }
    sent
}

fn count(sent: &[Transition], note: u8, down: bool) -> usize {
    sent.iter().filter(|t| t.note == note && t.down == down).count()
}

#[test]
fn note_off_always_leaves_note_released() {
    let mut d = Dispatcher::new(setup_midi_mappings());
    let sent = run(&mut d, &[off(60), off(60), off(60)]);
    assert!(!d.is_pressed(60));
    assert_eq!(sent, vec![Transition { note: 60, key: 45, down: false }; 3]);
    run(&mut d, &[on(60), on(60), off(60)]);
    assert!(!d.is_pressed(60));
    run(&mut d, &[on(60), off(60), off(60), off(60)]);
    assert!(!d.is_pressed(60));
}

#[test]
fn key_downs_and_key_ups_alternate() {
    let mut d = Dispatcher::new(setup_midi_mappings());
    let events = [
        on(60), on(60), on(62), on(60), off(60), off(60), on(60), on(62), off(62), on(60), on(99),
        off(99), on(62),
    ];
    let sent = run(&mut d, &events);
    for note in [60u8, 62, 99] {
        let mut held = false;
        let mut downs = 0usize;
        let mut ups = 0usize;
        for t in sent.iter().filter(|t| t.note == note) {
            if t.down {
                assert!(!held);
                held = true;
                downs += 1;
            } else {
                held = false;
                ups += 1;
            }
            assert!(downs <= ups + 1);
        }
        assert_eq!(held, d.is_pressed(note));
    }
    assert_eq!(count(&sent, 60, true), 2);
    assert_eq!(count(&sent, 60, false), 2);
    assert_eq!(count(&sent, 62, true), 2);
    assert_eq!(count(&sent, 62, false), 1);
    assert_eq!(count(&sent, 99, true), 0);
    assert_eq!(count(&sent, 99, false), 0);
}

#[test]
fn shutdown_sends_one_release_for_each_pressed_note() {
    let mut d = Dispatcher::new(setup_midi_mappings());
    run(&mut d, &[on(71), on(48), on(60), on(62), off(62), on(48), on(100)]);
    let owed = d.shutdown();
    assert_eq!(
        owed,
        vec![
            Transition { note: 48, key: 42, down: false },
            Transition { note: 60, key: 45, down: false },
            Transition { note: 71, key: 15, down: false },
        ]
    );
    for note in 0..=255u8 {
        assert!(!d.is_pressed(note));
    }
    assert_eq!(d.shutdown(), vec![]);
}

#[test]
fn every_key_down_is_answered_by_the_end_of_the_session() {
    let mut d = Dispatcher::new(setup_midi_mappings());
    let mut whole = run(&mut d, &[on(60), on(62), off(60), on(60), on(47), on(66), off(47)]);
    whole.extend(d.shutdown());
    for (i, t) in whole.iter().enumerate() {
        if t.down {
            assert!(whole[i + 1..].iter().any(|u| u.note == t.note && !u.down));
        }
    }
}

#[test]
fn short_messages_change_nothing() {
    let mut d = Dispatcher::new(setup_midi_mappings());
    d.handle_message(&[0x90, 60, 100]);
    for message in [&[][..], &[0x80][..], &[0x80, 60][..], &[0x90, 62][..], &[0x90][..]] {
        assert_eq!(d.handle_message(message), Outcome::Ignored);
        assert!(d.is_pressed(60));
        assert!(!d.is_pressed(62));
    }
    assert_eq!(d.shutdown(), vec![Transition { note: 60, key: 45, down: false }]);
}

#[test]
fn two_notes_on_one_key_are_tracked_apart() {
    let mut keys = NoteKeyMap::new();
    keys.bind(47, 29);
    keys.bind(66, 29);
    let mut d = Dispatcher::new(keys);
    assert_eq!(d.key_of(47), Some(29));
    assert_eq!(d.key_of(66), Some(29));
    assert_eq!(d.key_of(48), None);
    let sent = run(&mut d, &[on(47), on(66), off(47)]);
    assert_eq!(
        sent,
        vec![
            Transition { note: 47, key: 29, down: true },
            Transition { note: 66, key: 29, down: true },
            Transition { note: 47, key: 29, down: false },
        ]
    );
    assert!(!d.is_pressed(47));
    assert!(d.is_pressed(66));
    assert_eq!(d.shutdown(), vec![Transition { note: 66, key: 29, down: false }]);
}

#[test]
fn transition_values_are_one_and_zero() {
    let press = Transition { note: 60, key: 45, down: true };
    let release = Transition { note: 60, key: 45, down: false };
    assert_eq!(press.value(), 1);
    assert_eq!(release.value(), 0);
    assert_eq!(press.event_fields(), (1, 45, 1));
    assert_eq!(release.event_fields(), (1, 45, 0));
    let event = evdev::InputEvent::new(1, 45, 1);
    assert_eq!((event.event_type().0, event.code(), event.value()), press.event_fields());
}
