//! Fields that only the MIDI 2.0 channel voice messages have.

use crate::detail::bit_ops::{nibble_of, octet_of, with_octet};
use crate::error::Error;
use crate::message::helpers::{
    is_packet, low7, note_from_packet, packet_check, second_data_byte_from_packet, size_check,
    validate_buffer_size, validate_packet, with_first, write_note_to_packet,
    write_second_data_byte_to_packet,
};
use crate::numeric_types::{U4, U7};
use vstd::prelude::*;

verus! {

/// Whether `words` hold a two-word packet of the given type and op code.
pub open spec fn is_two_word_packet(words: Seq<u32>, type_code: u8, op_code: u8) -> bool {
    is_packet(words, type_code, op_code) && words.len() >= 2
}

/// What validating `words` as a two-word packet reports: first the type
/// and the op code are checked, then the length.
pub open spec fn two_word_check(words: Seq<u32>, type_code: u8, op_code: u8) -> Result<
    (),
    Error,
> {
    match packet_check(words, type_code, op_code) {
        Ok(_) => size_check(words, 2),
        Err(e) => Err(e),
    }
}

/// Checks that `p` holds a two-word packet of the given type and op code.
pub fn validate_two_word_packet(p: &[u32], type_code: U4, op_code: U4) -> (r: Result<(), Error>)
    ensures
        r == two_word_check(p@, type_code@, op_code@),
        r is Ok <==> is_two_word_packet(p@, type_code@, op_code@),
{
    match validate_packet(p, type_code, op_code) {
        Ok(()) => validate_buffer_size(p, 2),
        Err(e) => Err(e),
    }
}

/// The bank of a controller message: its first data byte, as seven bits.
pub fn controller_bank_from_packet(p: &[u32]) -> (r: U7)
    requires
        p@.len() >= 1,
    ensures
        r@ == low7(octet_of(p@[0], 2)),
{
    note_from_packet(p)
}

/// The index of a controller message: its second data byte, as seven bits.
pub fn controller_index_from_packet(p: &[u32]) -> (r: U7)
    requires
        p@.len() >= 1,
    ensures
        r@ == low7(octet_of(p@[0], 3)),
{
    second_data_byte_from_packet(p)
}

/// The data of a controller message: its second word.
pub fn controller_data_from_packet(p: &[u32]) -> (r: u32)
    requires
        p@.len() >= 2,
    ensures
        r == p@[1],
{
    p[1]
}

/// Writes the bank of a controller message.
pub fn write_controller_bank_to_packet(bank: U7, p: &mut [u32])
    requires
        old(p)@.len() >= 1,
    ensures
        final(p)@ == with_first(old(p)@, with_octet(old(p)@[0], 2, bank@)),
        octet_of(final(p)@[0], 2) == bank@,
        octet_of(final(p)@[0], 3) == octet_of(old(p)@[0], 3),
        forall|n: usize|
            n < 4 ==> #[trigger] nibble_of(final(p)@[0], n) == nibble_of(old(p)@[0], n),
{
    write_note_to_packet(bank, p);
}

/// Writes the index of a controller message.
pub fn write_controller_index_to_packet(index: U7, p: &mut [u32])
    requires
        old(p)@.len() >= 1,
    ensures
        final(p)@ == with_first(old(p)@, with_octet(old(p)@[0], 3, index@)),
        octet_of(final(p)@[0], 3) == index@,
        octet_of(final(p)@[0], 2) == octet_of(old(p)@[0], 2),
        forall|n: usize|
            n < 4 ==> #[trigger] nibble_of(final(p)@[0], n) == nibble_of(old(p)@[0], n),
{
    write_second_data_byte_to_packet(index, p);
}

/// Writes the data of a controller message.
pub fn write_controller_data_to_packet(data: u32, p: &mut [u32])
    requires
        old(p)@.len() >= 2,
    ensures
        final(p)@ == old(p)@.update(1, data),
{
    p[1] = data;
}

} // verus!
