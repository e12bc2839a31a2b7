//! Fields that only the MIDI 1.0 channel voice messages have.

use crate::detail::bit_ops::{nibble_of, octet_of, with_octet};
use crate::message::helpers::{
    low7, second_data_byte_from_packet, with_first, write_second_data_byte_to_packet,
};
use crate::numeric_types::U7;
use vstd::prelude::*;

verus! {

/// The velocity of a note message: its second data byte, as seven bits.
pub fn note_velocity_from_packet(p: &[u32]) -> (r: U7)
    requires
        p@.len() >= 1,
    ensures
        r@ == low7(octet_of(p@[0], 3)),
{
    second_data_byte_from_packet(p)
}

/// Writes the velocity of a note message.
pub fn write_note_velocity_to_packet(velocity: U7, p: &mut [u32])
    requires
        old(p)@.len() >= 1,
    ensures
        final(p)@ == with_first(old(p)@, with_octet(old(p)@[0], 3, velocity@)),
        octet_of(final(p)@[0], 3) == velocity@,
        octet_of(final(p)@[0], 2) == octet_of(old(p)@[0], 2),
        forall|n: usize|
            n < 4 ==> #[trigger] nibble_of(final(p)@[0], n) == nibble_of(old(p)@[0], n),
{
    write_second_data_byte_to_packet(velocity, p);
}

} // verus!
