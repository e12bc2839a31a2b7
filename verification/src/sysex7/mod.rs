//! Reassembly of system-exclusive payloads that span several fragments.

use vstd::prelude::*;

pub mod accumulator;
pub mod framing;
pub mod packet;
pub mod parser;

pub use crate::message::system_exclusive_7bit::Status;
pub use accumulator::Sysex7Accumulator;
pub use packet::Packet;
pub use parser::{ParseResult, Sysex7Parser};

verus! {

/// The message type of the family.
pub const UMP_MESSAGE_TYPE: u8 = 0x3;

/// The byte that opens a message in the byte stream.
pub const START_BYTE: u8 = 0xF0;

/// The byte that closes a message in the byte stream.
pub const END_BYTE: u8 = 0xF7;

/// A reassembled logical message.
pub type Sysex7<'a> = crate::message::system_exclusive_7bit::Sysex7MessageGroup<'a>;

} // verus!
