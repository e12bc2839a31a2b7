//! The MIDI 2.0 channel voice family.

use vstd::prelude::*;

pub mod packet;

pub use packet::Packet;

verus! {

/// The message type of the family.
pub const UMP_MESSAGE_TYPE: u8 = 0x4;

} // verus!
