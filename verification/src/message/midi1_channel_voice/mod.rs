//! Channel voice messages of MIDI 1.0, one word each.

use vstd::prelude::*;

pub mod channel_pressure;
pub mod helpers;
pub mod note_on;

pub use channel_pressure::{ChannelPressureBuilder, ChannelPressureMessage};
pub use note_on::{NoteOnBuilder, NoteOnMessage};

verus! {

/// The message type of the family.
pub const TYPE_CODE: u8 = 0x2;

} // verus!
