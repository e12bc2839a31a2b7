//! The UMP stream family: discovery and configuration of endpoints.

use crate::numeric_types::U10;
use vstd::prelude::*;

pub mod packet;

pub use packet::{Format, Packet};

verus! {

/// The message type of the family.
pub const UMP_MESSAGE_TYPE: u8 = 0xF;

/// The status of the message that starts with `word`: the ten bits below
/// its message type and format.
pub open spec fn status_of_word(word: u32) -> u16 {
    ((word >> 16) & 0x3FF) as u16
}

/// The status of the message in `buffer`.
pub fn status_from_buffer(buffer: &[u32]) -> (r: U10)
    requires
        buffer@.len() >= 1,
    ensures
        r@ == status_of_word(buffer@[0]),
{
    let word = buffer[0];
    let status = (word >> 16) & 0x3FF;
    assert(((word >> 16) & 0x3FF) <= 0x3FF) by (bit_vector);
    U10::new(status as u16)
}

} // verus!
