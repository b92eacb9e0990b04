use midikeys::dispatch::{Dispatcher, Outcome, PressState, Transition};
use midikeys::message::{decode, NoteEvent, NoteKind};
use midikeys::midi::NoteKeyMap;

const K: u16 = 45;

fn one_note() -> Dispatcher {
    let mut keys = NoteKeyMap::new();
    keys.bind(60, K);
    Dispatcher::new(keys)
}

fn down(note: u8, key: u16) -> Outcome {
    Outcome::Emit(Transition { note, key, down: true })
}

fn up(note: u8, key: u16) -> Outcome {
    Outcome::Emit(Transition { note, key, down: false })
}

#[test]
fn note_on_presses_key() {
    let mut d = one_note();
    assert_eq!(d.handle_message(&[0x90, 60, 100]), down(60, K));
    assert!(d.is_pressed(60));
}

#[test]
fn repeated_note_on_is_dropped() {
    let mut d = one_note();
    assert_eq!(d.handle_message(&[0x90, 60, 100]), down(60, K));
    assert_eq!(d.handle_message(&[0x90, 60, 100]), Outcome::Ignored);
    assert!(d.is_pressed(60));
}

#[test]
fn note_off_releases_key() {
    let mut d = one_note();
    d.handle_message(&[0x90, 60, 100]);
    assert_eq!(d.handle_message(&[0x80, 60, 0]), up(60, K));
    assert!(!d.is_pressed(60));
}

#[test]
fn silent_note_on_releases_key() {
    let mut d = one_note();
    d.handle_message(&[0x90, 60, 100]);
    assert_eq!(d.handle_message(&[0x90, 60, 0]), up(60, K));
    assert!(!d.is_pressed(60));
}

#[test]
fn two_byte_message_does_nothing() {
    assert_eq!(decode(&[0x90, 60]), None);
    let mut d = one_note();
    assert_eq!(d.handle_message(&[0x90, 60]), Outcome::Ignored);
    assert!(!d.is_pressed(60));
    d.handle_message(&[0x90, 60, 100]);
    assert_eq!(d.handle_message(&[0x80, 60]), Outcome::Ignored);
    assert!(d.is_pressed(60));
}

#[test]
fn unmapped_note_on_is_only_reported() {
    let mut d = one_note();
    assert_eq!(d.handle_message(&[0x90, 64, 90]), Outcome::Unmapped { note: 64 });
    assert!(!d.is_pressed(64));
    assert_eq!(d.handle_message(&[0x80, 64, 0]), Outcome::Ignored);
    assert!(!d.is_pressed(64));
    assert_eq!(d.shutdown(), vec![]);
}

#[test]
fn shutdown_releases_only_pressed_notes() {
    let mut keys = NoteKeyMap::new();
    keys.bind(60, K);
    keys.bind(64, 16);
    let mut d = Dispatcher::new(keys);
    d.handle_message(&[0x90, 60, 100]);
    d.handle_message(&[0x90, 64, 90]);
    d.handle_message(&[0x80, 64, 0]);
    assert!(d.is_pressed(60));
    assert!(!d.is_pressed(64));
    assert_eq!(d.shutdown(), vec![Transition { note: 60, key: K, down: false }]);
    assert!(!d.is_pressed(60));
    assert!(!d.is_pressed(64));
    assert_eq!(d.shutdown(), vec![]);
}

#[test]
fn decode_reads_status_note_and_velocity() {
    assert_eq!(
        decode(&[0x93, 61, 7]),
        Some(NoteEvent { note: 61, kind: NoteKind::NoteOn, velocity: 7 })
    );
    assert_eq!(
        decode(&[0x8f, 61, 7, 99]),
        Some(NoteEvent { note: 61, kind: NoteKind::NoteOff, velocity: 7 })
    );
    assert_eq!(decode(&[0xb0, 61, 7]), None);
    assert_eq!(decode(&[]), None);
}

#[test]
fn nothing_is_taken_after_shutdown() {
    let mut d = one_note();
    assert!(d.is_running());
    d.handle_message(&[0x90, 60, 100]);
    assert_eq!(d.shutdown(), vec![Transition { note: 60, key: K, down: false }]);
    assert!(!d.is_running());
    assert_eq!(d.handle_message(&[0x90, 60, 100]), Outcome::Ignored);
    assert!(!d.is_pressed(60));
    assert_eq!(d.handle_message(&[0x80, 60, 0]), Outcome::Ignored);
    assert_eq!(d.handle_message(&[0x90, 64, 1]), Outcome::Ignored);
    assert_eq!(d.shutdown(), vec![]);
    assert!(!d.is_running());
}

#[test]
fn notes_are_entered_when_first_pressed_or_released() {
    let fresh = PressState::new();
    assert!(!fresh.has_seen(60));
    assert!(!fresh.is_pressed(60));
    let mut d = one_note();
    assert!(!d.press_state().has_seen(60));
    d.handle_message(&[0x90, 64, 100]);
    assert!(!d.press_state().has_seen(64));
    d.handle_message(&[0x80, 60, 0]);
    assert!(d.press_state().has_seen(60));
    assert!(!d.press_state().is_pressed(60));
    d.handle_message(&[0x90, 60, 1]);
    assert!(d.press_state().is_pressed(60));
    d.shutdown();
    assert!(d.press_state().has_seen(60));
    assert!(!d.press_state().is_pressed(60));
}
