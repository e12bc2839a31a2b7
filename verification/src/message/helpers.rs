//! Reading and writing the fields that the packet families share.
//!
//! The first word of every packet holds the message type in nibble 0 and
//! the group in nibble 1. Channel voice packets hold their op code in
//! nibble 2, the channel in nibble 3 and two data bytes in octets 2 and 3.

use crate::detail::bit_ops::{
    lemma_with_octet_keeps_nibble, nibble_of, octet_of, with_nibble, with_octet, BitOps,
};
use crate::detail::common_err_strings::{ERR_INCORRECT_OP_CODE, ERR_INCORRECT_UMP_MESSAGE_TYPE};
use crate::error::{BufferOverflow, Error, InvalidData};
use crate::numeric_types::{U4, U7};
use vstd::prelude::*;

verus! {

/// Whether `words` start a packet of the given type and op code.
pub open spec fn is_packet(words: Seq<u32>, type_code: u8, op_code: u8) -> bool {
    &&& words.len() >= 1
    &&& nibble_of(words[0], 0) == type_code
    &&& nibble_of(words[0], 2) == op_code
}

/// What validating `words` against a type and an op code reports.
pub open spec fn packet_check(words: Seq<u32>, type_code: u8, op_code: u8) -> Result<(), Error> {
    if words.len() == 0 {
        Err(Error::overflow())
    } else if nibble_of(words[0], 0) != type_code {
        Err(Error::invalid(ERR_INCORRECT_UMP_MESSAGE_TYPE))
    } else if nibble_of(words[0], 2) != op_code {
        Err(Error::invalid(ERR_INCORRECT_OP_CODE))
    } else {
        Ok(())
    }
}

/// What checking that `words` holds at least `min_size` words reports.
pub open spec fn size_check(words: Seq<u32>, min_size: usize) -> Result<(), Error> {
    if words.len() < min_size {
        Err(Error::overflow())
    } else {
        Ok(())
    }
}

/// The low seven bits of a data byte.
pub open spec fn low7(byte: u8) -> u8 {
    byte % 128
}

/// `words` with the first word replaced.
pub open spec fn with_first(words: Seq<u32>, word: u32) -> Seq<u32> {
    words.update(0, word)
}

/// The low seven bits of `byte`.
pub fn truncate_u7(byte: u8) -> (r: U7)
    ensures
        r@ == low7(byte),
{
    let low = byte & 0x7F;
    assert(byte & 0x7F == byte % 128) by (bit_vector);
    U7::new(low)
}

/// Checks that `p` is not empty and carries the given type and op code.
pub fn validate_packet(p: &[u32], type_code: U4, op_code: U4) -> (r: Result<(), Error>)
    ensures
        r == packet_check(p@, type_code@, op_code@),
{
    if p.len() == 0 {
        Err(Error::BufferOverflow(BufferOverflow))
    } else if p[0].nibble(0).value() != type_code.value() {
        Err(Error::InvalidData(InvalidData(ERR_INCORRECT_UMP_MESSAGE_TYPE)))
    } else if p[0].nibble(2).value() != op_code.value() {
        Err(Error::InvalidData(InvalidData(ERR_INCORRECT_OP_CODE)))
    } else {
        Ok(())
    }
}

/// Checks that `buffer` holds at least `min_size` words.
pub fn validate_buffer_size(buffer: &[u32], min_size: usize) -> (r: Result<(), Error>)
    ensures
        r == size_check(buffer@, min_size),
{
    if buffer.len() < min_size {
        Err(Error::BufferOverflow(BufferOverflow))
    } else {
        Ok(())
    }
}

/// Sets every word of `buffer` to zero.
pub fn clear_buffer(buffer: &mut [u32])
    ensures
        final(buffer)@.len() == old(buffer)@.len(),
        forall|i: int| 0 <= i < final(buffer)@.len() ==> final(buffer)@[i] == 0u32,
{
    let n = buffer.len();
    let mut i: usize = 0;
    while i < n
        invariant
            i <= n,
            buffer@.len() == n,
            forall|j: int| 0 <= j < i ==> buffer@[j] == 0u32,
        decreases n - i,
    {
        buffer[i] = 0;
        i += 1;
    }
}

/// Writes `value` into the nibble at `index` of the first word of `p`.
pub fn write_nibble_to_packet(index: usize, value: U4, p: &mut [u32])
    requires
        index < 8,
        old(p)@.len() >= 1,
    ensures
        final(p)@ == with_first(old(p)@, with_nibble(old(p)@[0], index, value@)),
        nibble_of(final(p)@[0], index) == value@,
        forall|other: usize|
            other < 8 && other != index ==> #[trigger] nibble_of(final(p)@[0], other) == nibble_of(
                old(p)@[0],
                other,
            ),
{
    let mut word = p[0];
    word.set_nibble(index, value);
    p[0] = word;
}

/// Writes `value` into the octet at `index` of the word at `word_index` of `p`.
pub fn write_octet_to_packet(word_index: usize, index: usize, value: u8, p: &mut [u32])
    requires
        index < 4,
        word_index < old(p)@.len(),
    ensures
        final(p)@ == old(p)@.update(
            word_index as int,
            with_octet(old(p)@[word_index as int], index, value),
        ),
        octet_of(final(p)@[word_index as int], index) == value,
        forall|other: usize|
            other < 4 && other != index ==> #[trigger] octet_of(
                final(p)@[word_index as int],
                other,
            ) == octet_of(old(p)@[word_index as int], other),
{
    let mut word = p[word_index];
    word.set_octet(index, value);
    p[word_index] = word;
}

/// The message type of the packet.
pub fn type_from_packet(p: &[u32]) -> (r: U4)
    requires
        p@.len() >= 1,
    ensures
        r@ == nibble_of(p@[0], 0),
{
    p[0].nibble(0)
}

/// The group of the packet.
pub fn group_from_packet(p: &[u32]) -> (r: U4)
    requires
        p@.len() >= 1,
    ensures
        r@ == nibble_of(p@[0], 1),
{
    p[0].nibble(1)
}

/// The channel of the packet.
pub fn channel_from_packet(p: &[u32]) -> (r: U4)
    requires
        p@.len() >= 1,
    ensures
        r@ == nibble_of(p@[0], 3),
{
    p[0].nibble(3)
}

/// The first data byte of the packet, as seven bits.
pub fn note_from_packet(p: &[u32]) -> (r: U7)
    requires
        p@.len() >= 1,
    ensures
        r@ == low7(octet_of(p@[0], 2)),
{
    truncate_u7(p[0].octet(2))
}

/// Writes the message type of the packet.
pub fn write_type_to_packet(type_code: U4, p: &mut [u32])
    requires
        old(p)@.len() >= 1,
    ensures
        final(p)@ == with_first(old(p)@, with_nibble(old(p)@[0], 0, type_code@)),
        nibble_of(final(p)@[0], 0) == type_code@,
        forall|other: usize|
            other < 8 && other != 0 ==> #[trigger] nibble_of(final(p)@[0], other) == nibble_of(
                old(p)@[0],
                other,
            ),
{
    write_nibble_to_packet(0, type_code, p);
}

/// Writes the group of the packet.
pub fn write_group_to_packet(group: U4, p: &mut [u32])
    requires
        old(p)@.len() >= 1,
    ensures
        final(p)@ == with_first(old(p)@, with_nibble(old(p)@[0], 1, group@)),
        nibble_of(final(p)@[0], 1) == group@,
        forall|other: usize|
            other < 8 && other != 1 ==> #[trigger] nibble_of(final(p)@[0], other) == nibble_of(
                old(p)@[0],
                other,
            ),
{
    write_nibble_to_packet(1, group, p);
}

/// Writes the op code of the packet.
pub fn write_op_code_to_packet(op_code: U4, p: &mut [u32])
    requires
        old(p)@.len() >= 1,
    ensures
        final(p)@ == with_first(old(p)@, with_nibble(old(p)@[0], 2, op_code@)),
        nibble_of(final(p)@[0], 2) == op_code@,
        forall|other: usize|
            other < 8 && other != 2 ==> #[trigger] nibble_of(final(p)@[0], other) == nibble_of(
                old(p)@[0],
                other,
            ),
{
    write_nibble_to_packet(2, op_code, p);
}

/// Writes the channel of the packet.
pub fn write_channel_to_packet(channel: U4, p: &mut [u32])
    requires
        old(p)@.len() >= 1,
    ensures
        final(p)@ == with_first(old(p)@, with_nibble(old(p)@[0], 3, channel@)),
        nibble_of(final(p)@[0], 3) == channel@,
        forall|other: usize|
            other < 8 && other != 3 ==> #[trigger] nibble_of(final(p)@[0], other) == nibble_of(
                old(p)@[0],
                other,
            ),
{
    write_nibble_to_packet(3, channel, p);
}

/// Writes the first data byte of the packet.
pub fn write_note_to_packet(note: U7, p: &mut [u32])
    requires
        old(p)@.len() >= 1,
    ensures
        final(p)@ == with_first(old(p)@, with_octet(old(p)@[0], 2, note@)),
        octet_of(final(p)@[0], 2) == note@,
        octet_of(final(p)@[0], 3) == octet_of(old(p)@[0], 3),
        forall|n: usize|
            n < 4 ==> #[trigger] nibble_of(final(p)@[0], n) == nibble_of(old(p)@[0], n),
{
    let ghost word = p@[0];
    write_octet_to_packet(0, 2, note.value(), p);
    proof {
        assert forall|n: usize| n < 4 implies #[trigger] nibble_of(p@[0], n) == nibble_of(
            word,
            n,
        ) by {
            lemma_with_octet_keeps_nibble(word, 2, note@, n);
        }
    }
}

/// Writes the second data byte of the packet.
pub fn write_second_data_byte_to_packet(value: U7, p: &mut [u32])
    requires
        old(p)@.len() >= 1,
    ensures
        final(p)@ == with_first(old(p)@, with_octet(old(p)@[0], 3, value@)),
        octet_of(final(p)@[0], 3) == value@,
        octet_of(final(p)@[0], 2) == octet_of(old(p)@[0], 2),
        forall|n: usize|
            n < 4 ==> #[trigger] nibble_of(final(p)@[0], n) == nibble_of(old(p)@[0], n),
{
    let ghost word = p@[0];
    write_octet_to_packet(0, 3, value.value(), p);
    proof {
        assert forall|n: usize| n < 4 implies #[trigger] nibble_of(p@[0], n) == nibble_of(
            word,
            n,
        ) by {
            lemma_with_octet_keeps_nibble(word, 3, value@, n);
        }
    }
}

/// The second data byte of the packet, as seven bits.
pub fn second_data_byte_from_packet(p: &[u32]) -> (r: U7)
    requires
        p@.len() >= 1,
    ensures
        r@ == low7(octet_of(p@[0], 3)),
{
    truncate_u7(p[0].octet(3))
}

/// The first word of a fresh packet: the type and the op code, all else zero.
pub open spec fn header(type_code: u8, op_code: u8) -> u32 {
    with_nibble(with_nibble(0u32, 2, op_code), 0, type_code)
}

/// Zeroes the first `size` words of `buffer`, writes the type and the op
/// code into the first, and hands out those words; or reports that
/// `buffer` is shorter than `size` and leaves it as it is. What the
/// caller's buffer holds in the end is what is left in the words handed
/// out, followed by the words after them, which are not touched.
pub fn start_packet<'a>(buffer: &'a mut [u32], size: usize, type_code: U4, op_code: U4) -> (r:
    Result<&'a mut [u32], Error>)
    requires
        size >= 1,
    ensures
        old(buffer)@.len() < size ==> r == Err::<&'a mut [u32], Error>(Error::overflow())
            && final(buffer)@ == old(buffer)@,
        old(buffer)@.len() >= size ==> r is Ok && r->Ok_0@ == fresh_packet(
            size as nat,
            type_code@,
            op_code@,
        ) && is_packet(r->Ok_0@, type_code@, op_code@),
        old(buffer)@.len() >= size ==> final(buffer)@ == final(r->Ok_0)@ + old(buffer)@.subrange(
            size as int,
            old(buffer)@.len() as int,
        ),
{
    if buffer.len() < size {
        return Err(Error::BufferOverflow(BufferOverflow));
    }
    let (packet, _) = buffer.split_at_mut(size);
    clear_buffer(packet);
    write_op_code_to_packet(op_code, packet);
    write_type_to_packet(type_code, packet);
    assert(packet@ =~= fresh_packet(size as nat, type_code@, op_code@));
    Ok(packet)
}

/// A fresh packet of `size` words: the header, then zeros.
pub open spec fn fresh_packet(size: nat, type_code: u8, op_code: u8) -> Seq<u32> {
    Seq::new(size, |i: int| if i == 0 { header(type_code, op_code) } else { 0u32 })
}

} // verus!
