//! The synthetic keyboard: its name and the keys it registers.

use vstd::prelude::*;
use crate::keys::{
    KEY_1, KEY_2, KEY_3, KEY_4, KEY_5, KEY_A, KEY_CODE_COUNT, KEY_D, KEY_DOWN, KEY_E, KEY_ENTER,
    KEY_ESC, KEY_F, KEY_LEFT, KEY_LEFTCTRL, KEY_LEFTSHIFT, KEY_Q, KEY_R, KEY_RIGHT, KEY_S,
    KEY_SPACE, KEY_TAB, KEY_UP, KEY_W, KEY_X,
};
use crate::midi::default_bindings;

verus! {

/// The name under which the synthetic keyboard is registered.
pub const DEVICE_NAME: &'static str = "MIDI Virtual KeyCodeboard";

/// The key code type of `evdev`. Nothing of its inside is used here: keys
/// are carried as their numeric codes.
#[verifier::external_type_specification]
#[verifier::external_body]
pub struct ExKeyCode(evdev::KeyCode);

/// The borrowed form of the key set of `evdev`, as a device builder takes
/// it.
#[verifier::external_type_specification]
#[verifier::external_body]
#[verifier::reject_recursive_types(T)]
pub struct ExAttributeSetRef<T>(evdev::AttributeSetRef<T>);

/// The keys that a device is to register. It holds an
/// `evdev::AttributeSet<evdev::KeyCode>`, which keeps one bit for each key
/// code below `KEY_CODE_COUNT`.
#[verifier::external_body]
pub struct KeySet {
    keys: evdev::AttributeSet<evdev::KeyCode>,
}

/// The codes of the keys that a key set holds.
pub uninterp spec fn key_set_codes(set: &KeySet) -> Set<u16>;

/// The codes of the keys that a borrowed key set of `evdev` holds.
pub uninterp spec fn attribute_codes(set: &evdev::AttributeSetRef<evdev::KeyCode>) -> Set<u16>;

impl View for KeySet {
    type V = Set<u16>;

    open spec fn view(&self) -> Set<u16> {
        key_set_codes(self)
    }
}

/// The codes of the keys that the synthetic keyboard registers.
pub open spec fn keyboard_code_set() -> Set<u16> {
    set![
        KEY_W,
        KEY_A,
        KEY_S,
        KEY_D,
        KEY_Q,
        KEY_E,
        KEY_R,
        KEY_F,
        KEY_X,
        KEY_SPACE,
        KEY_LEFTSHIFT,
        KEY_LEFTCTRL,
        KEY_TAB,
        KEY_1,
        KEY_2,
        KEY_3,
        KEY_4,
        KEY_5,
        KEY_UP,
        KEY_DOWN,
        KEY_LEFT,
        KEY_RIGHT,
        KEY_ENTER,
        KEY_ESC
    ]
}

impl KeySet {
    /// Calls `evdev::AttributeSet::new`, which clears every bit: the set
    /// holds no key.
    #[verifier::external_body]
    fn empty() -> (set: KeySet)
        ensures
            key_set_codes(&set) == Set::<u16>::empty(),
    {
        KeySet { keys: evdev::AttributeSet::new() }
    }

    /// Calls `evdev::AttributeSetRef::insert` with the key built by
    /// `evdev::KeyCode::new`: the bit of `code` is set and no other bit
    /// changes. With a code from `KEY_CODE_COUNT` on the call would panic,
    /// so such codes are kept out.
    #[verifier::external_body]
    fn insert(&mut self, code: u16)
        requires
            code < KEY_CODE_COUNT,
        ensures
            key_set_codes(final(self)) == key_set_codes(old(self)).insert(code),
    {
        self.keys.insert(evdev::KeyCode::new(code));
    }

    /// Borrows the set of `evdev` that is held, through its `Deref`: the
    /// same keys seen through the borrowed type.
    #[verifier::external_body]
    fn borrowed(&self) -> (set: &evdev::AttributeSetRef<evdev::KeyCode>)
        ensures
            attribute_codes(set) == key_set_codes(self),
    {
        &self.keys
    }

    /// The set in the form that a device builder takes.
    pub fn as_attribute_set(&self) -> (set: &evdev::AttributeSetRef<evdev::KeyCode>)
        ensures
            attribute_codes(set) == self@,
    {
        self.borrowed()
    }
}

/// The keys of the synthetic keyboard, as a set for the device to register.
pub fn keyboard_key_set() -> (set: KeySet)
    ensures
        set@ == keyboard_code_set(),
{
    let mut set = KeySet::empty();

    set.insert(KEY_W);
    set.insert(KEY_A);
    set.insert(KEY_S);
    set.insert(KEY_D);
    set.insert(KEY_Q);
    set.insert(KEY_E);
    set.insert(KEY_R);
    set.insert(KEY_F);
    set.insert(KEY_X);
    set.insert(KEY_SPACE);
    set.insert(KEY_LEFTSHIFT);
    set.insert(KEY_LEFTCTRL);
    set.insert(KEY_TAB);
    set.insert(KEY_1);
    set.insert(KEY_2);
    set.insert(KEY_3);
    set.insert(KEY_4);
    set.insert(KEY_5);
    set.insert(KEY_UP);
    set.insert(KEY_DOWN);
    set.insert(KEY_LEFT);
    set.insert(KEY_RIGHT);
    set.insert(KEY_ENTER);
    set.insert(KEY_ESC);

    assert(set@ =~= keyboard_code_set());
    set
}

/// Every key of the synthetic keyboard has a code that a device can
/// register.
pub proof fn lemma_keyboard_codes_can_be_registered(code: u16)
    requires
        keyboard_code_set().contains(code),
    ensures
        code < KEY_CODE_COUNT,
{
}

/// Every key that the starting bindings drive is a key of the synthetic
/// keyboard.
pub proof fn lemma_default_bindings_stay_on_keyboard(note: u8)
    requires
        default_bindings().contains_key(note),
    ensures
        keyboard_code_set().contains(default_bindings()[note]),
{
}

} // verus!
