//! Key codes of the synthetic keyboard and their printed labels.

use vstd::prelude::*;
use crate::text::{remove_all, without};

verus! {

/// Event type under which key presses and releases are sent.
pub const EV_KEY: u16 = 1;

/// Number of key codes that a device can register: valid codes lie below it.
pub const KEY_CODE_COUNT: u16 = 0x300;

pub const KEY_ESC: u16 = 1;

pub const KEY_1: u16 = 2;

pub const KEY_2: u16 = 3;

pub const KEY_3: u16 = 4;

pub const KEY_4: u16 = 5;

pub const KEY_5: u16 = 6;

pub const KEY_TAB: u16 = 15;

pub const KEY_Q: u16 = 16;

pub const KEY_W: u16 = 17;

pub const KEY_E: u16 = 18;

pub const KEY_R: u16 = 19;

pub const KEY_ENTER: u16 = 28;

pub const KEY_LEFTCTRL: u16 = 29;

pub const KEY_A: u16 = 30;

pub const KEY_S: u16 = 31;

pub const KEY_D: u16 = 32;

pub const KEY_F: u16 = 33;

pub const KEY_LEFTSHIFT: u16 = 42;

pub const KEY_X: u16 = 45;

pub const KEY_SPACE: u16 = 57;

pub const KEY_UP: u16 = 103;

pub const KEY_LEFT: u16 = 105;

pub const KEY_RIGHT: u16 = 106;

pub const KEY_DOWN: u16 = 108;

/// The text that `evdev` prints for a key code in debug form: the name of
/// the key, such as `KEY_W`, or a notice for a code that has no name.
pub uninterp spec fn key_debug_text(code: u16) -> Seq<char>;

/// The label of a key: its debug text with the marker `KEY_` taken out.
pub open spec fn key_label_text(code: u16) -> Seq<char> {
    without(key_debug_text(code), "KEY_"@)
}

/// Calls the `Debug` implementation of `evdev::KeyCode` on the key built by
/// `evdev::KeyCode::new`. The contract only names the text: it depends on
/// the code alone, and nothing is claimed about what it holds.
#[verifier::external_body]
fn key_debug(code: u16) -> (text: String)
    ensures
        text@ == key_debug_text(code),
{
    format!("{:?}", evdev::KeyCode::new(code))
}

/// The label that belongs to a key's debug text.
pub fn label_from_debug(debug: &str) -> (label: String)
    ensures
        label@ == without(debug@, "KEY_"@),
{
    remove_all(debug, "KEY_")
}

/// The label of a key code, such as `W` for the code of `KEY_W`.
pub fn key_label(code: u16) -> (label: String)
    ensures
        label@ == key_label_text(code),
{
    let debug = key_debug(code);
    label_from_debug(debug.as_str())
}

} // verus!
