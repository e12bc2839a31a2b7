//! Channel voice messages of MIDI 2.0, two words each.

use vstd::prelude::*;

pub mod assignable_per_note_controller;
pub mod helpers;
pub mod registered_controller;

pub use assignable_per_note_controller::{
    AssignablePerNoteControllerBuilder, AssignablePerNoteControllerMessage,
};
pub use registered_controller::{RegisteredControllerBuilder, RegisteredControllerMessage};

verus! {

/// The message type of the family.
pub const TYPE_CODE: u8 = 0x4;

} // verus!
