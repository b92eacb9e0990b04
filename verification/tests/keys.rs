use evdev::{AttributeSet, EventType, KeyCode};
use midikeys::keyboard::{keyboard_key_set, DEVICE_NAME};
use midikeys::keys;
use midikeys::keys::{key_label, label_from_debug};
use midikeys::midi::setup_midi_mappings;

fn named_keys() -> Vec<(u16, KeyCode)> {
    vec![
        (keys::KEY_ESC, KeyCode::KEY_ESC),
        (keys::KEY_1, KeyCode::KEY_1),
        (keys::KEY_2, KeyCode::KEY_2),
        (keys::KEY_3, KeyCode::KEY_3),
        (keys::KEY_4, KeyCode::KEY_4),
        (keys::KEY_5, KeyCode::KEY_5),
        (keys::KEY_TAB, KeyCode::KEY_TAB),
        (keys::KEY_Q, KeyCode::KEY_Q),
        (keys::KEY_W, KeyCode::KEY_W),
        (keys::KEY_E, KeyCode::KEY_E),
        (keys::KEY_R, KeyCode::KEY_R),
        (keys::KEY_ENTER, KeyCode::KEY_ENTER),
        (keys::KEY_LEFTCTRL, KeyCode::KEY_LEFTCTRL),
        (keys::KEY_A, KeyCode::KEY_A),
        (keys::KEY_S, KeyCode::KEY_S),
        (keys::KEY_D, KeyCode::KEY_D),
        (keys::KEY_F, KeyCode::KEY_F),
        (keys::KEY_LEFTSHIFT, KeyCode::KEY_LEFTSHIFT),
        (keys::KEY_X, KeyCode::KEY_X),
        (keys::KEY_SPACE, KeyCode::KEY_SPACE),
        (keys::KEY_UP, KeyCode::KEY_UP),
        (keys::KEY_LEFT, KeyCode::KEY_LEFT),
        (keys::KEY_RIGHT, KeyCode::KEY_RIGHT),
        (keys::KEY_DOWN, KeyCode::KEY_DOWN),
    ]
}

#[test]
fn key_codes_are_those_of_the_device_layer() {
    for (code, key) in named_keys() {
        assert_eq!(code, key.code());
    }
    assert_eq!(keys::EV_KEY, EventType::KEY.0);
}

#[test]
fn key_labels_drop_the_marker() {
    assert_eq!(key_label(keys::KEY_W), "W");
    assert_eq!(key_label(keys::KEY_LEFTSHIFT), "LEFTSHIFT");
    assert_eq!(key_label(keys::KEY_1), "1");
    assert_eq!(key_label(0x110), "BTN_LEFT");
    for (code, key) in named_keys() {
        assert_eq!(key_label(code), format!("{:?}", key).replace("KEY_", ""));
    }
    for code in [0u16, 84, 0x2ff, 0x300, 700, u16::MAX] {
        assert_eq!(key_label(code), format!("{:?}", KeyCode::new(code)).replace("KEY_", ""));
    }
    assert_eq!(label_from_debug("KEY_TAB"), "TAB");
    assert_eq!(label_from_debug("unknown key: 9"), "unknown key: 9");
}

#[test]
fn keyboard_registers_its_keys() {
    let set = keyboard_key_set();
    let held: Vec<KeyCode> = set.as_attribute_set().iter().collect();
    assert_eq!(held.len(), 24);
    for (_, key) in named_keys() {
        assert!(set.as_attribute_set().contains(key));
    }
    assert!(!set.as_attribute_set().contains(KeyCode::KEY_Z));
    let mut by_hand = AttributeSet::<KeyCode>::new();
    for (_, key) in named_keys() {
        by_hand.insert(key);
    }
    assert_eq!(held, by_hand.iter().collect::<Vec<KeyCode>>());
    assert_eq!(DEVICE_NAME, "MIDI Virtual KeyCodeboard");
}

#[test]
fn every_bound_key_is_on_the_keyboard() {
    let mappings = setup_midi_mappings();
    let set = keyboard_key_set();
    for note in 0..=255u8 {
        if let Some(code) = mappings.lookup(note) {
            assert!(code < keys::KEY_CODE_COUNT);
            assert!(set.as_attribute_set().contains(KeyCode::new(code)));
        }
    }
}
