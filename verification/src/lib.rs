//! Turns note messages from a musical controller into key presses and
//! releases for a synthetic keyboard.
//!
//! The crate holds the decisions only: decoding a raw message, tracking
//! which notes hold a key down, choosing the transition to emit, and
//! releasing every held key when the session stops. Reading the controller
//! and writing to the output device are left to the caller.

pub mod answer;
pub mod dispatch;
pub mod helpers;
pub mod keyboard;
pub mod keys;
pub mod message;
pub mod midi;
pub mod notes;
pub mod session;
pub mod text;
