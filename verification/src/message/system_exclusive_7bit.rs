//! System-exclusive messages in the packet stream.
//!
//! A payload of 7-bit bytes travels in fragments of two words. The first
//! word holds the message type in nibble 0, the group in nibble 1, the
//! status in nibble 2, the number of payload bytes in nibble 3 and the
//! first two payload bytes in octets 2 and 3; the second word holds up to
//! four more. A logical message is a single `Complete` fragment, or a
//! `Start` fragment, any number of `Continue` fragments and an `End`
//! fragment; its payload is the payloads of its fragments in order.

use crate::detail::bit_ops::{
    lemma_with_nibble, lemma_with_nibble_keeps_octet, lemma_with_octet,
    lemma_with_octet_keeps_nibble, nibble_of, octet_of, with_nibble, with_octet, BitOps,
};
use crate::detail::common_err_strings::{
    ERR_DATA_AFTER_END, ERR_EXPECTED_CONTINUE_OR_END, ERR_INCORRECT_UMP_MESSAGE_TYPE,
    ERR_INVALID_SYSEX7_PAYLOAD_SIZE, ERR_INVALID_SYSEX7_STATUS, ERR_PAYLOAD_TOO_LONG,
    ERR_SLICE_TOO_SHORT,
};
use crate::error::{BufferOverflow, Error, InvalidData};
use crate::message::helpers::{low7, truncate_u7, with_first};
use crate::numeric_types::{u7_values, U4, U7};
use crate::sysex7::framing::{
    advance, fragment_at, is_message, lemma_payload_append, lemma_scan_fault_stays,
    lemma_scan_finished_is_last, lemma_scan_fragments, message_check, message_payload, scan,
    State,
};
use vstd::prelude::*;

verus! {

/// The message type of the family.
pub const TYPE_CODE: u8 = 0x3;

/// The greatest number of payload bytes in one fragment.
pub const MAX_PAYLOAD: usize = 6;

/// The role of a fragment in its logical message.
#[derive(Copy, Clone, Debug, PartialEq, Eq, Structural)]
pub enum Status {
    /// The fragment is a whole message.
    Complete,
    /// The fragment opens a message.
    Start,
    /// The fragment continues a message.
    Continue,
    /// The fragment closes a message.
    End,
}

impl Status {
    /// The code of the status on the wire.
    pub open spec fn code(self) -> u8 {
        match self {
            Status::Complete => 0x0,
            Status::Start => 0x1,
            Status::Continue => 0x2,
            Status::End => 0x3,
        }
    }

    /// The status that a code on the wire stands for; codes above 3 stand for none.
    pub open spec fn from_code(code: u8) -> Status {
        if code == 0x0 {
            Status::Complete
        } else if code == 0x1 {
            Status::Start
        } else if code == 0x2 {
            Status::Continue
        } else {
            Status::End
        }
    }

    /// The code of the status on the wire.
    pub fn to_u4(self) -> (r: U4)
        ensures
            r@ == self.code(),
    {
        match self {
            Status::Complete => U4::new(0x0),
            Status::Start => U4::new(0x1),
            Status::Continue => U4::new(0x2),
            Status::End => U4::new(0x3),
        }
    }
}

impl Default for Status {
    fn default() -> (r: Status)
        ensures
            r == Status::Complete,
    {
        Status::Complete
    }
}

/// The group of the fragment in `words`.
pub open spec fn group_of(words: Seq<u32>) -> u8 {
    nibble_of(words[0], 1)
}

/// The status code of the fragment in `words`.
pub open spec fn status_code_of(words: Seq<u32>) -> u8 {
    nibble_of(words[0], 2)
}

/// The status of the fragment in `words`.
pub open spec fn status_of(words: Seq<u32>) -> Status {
    Status::from_code(status_code_of(words))
}

/// The number of payload bytes of the fragment in `words`.
pub open spec fn payload_count_of(words: Seq<u32>) -> u8 {
    nibble_of(words[0], 3)
}

/// The octet that holds payload byte `i` of the fragment in `words`.
pub open spec fn payload_slot(words: Seq<u32>, i: int) -> u8 {
    octet_of(words[(i + 2) / 4], ((i + 2) % 4) as usize)
}

/// Payload byte `i` of the fragment in `words`.
pub open spec fn payload_byte(words: Seq<u32>, i: int) -> u8 {
    low7(payload_slot(words, i))
}

/// The payload of the fragment in `words`.
pub open spec fn payload_of(words: Seq<u32>) -> Seq<u8> {
    Seq::new(payload_count_of(words) as nat, |i: int| payload_byte(words, i))
}

/// What validating `words` as a fragment reports. The checks run in this
/// order: the length, the message type, the status, the payload count.
pub open spec fn fragment_check(words: Seq<u32>) -> Result<(), Error> {
    if words.len() < 2 {
        Err(Error::overflow())
    } else if nibble_of(words[0], 0) != TYPE_CODE {
        Err(Error::invalid(ERR_INCORRECT_UMP_MESSAGE_TYPE))
    } else if status_code_of(words) > 0x3 {
        Err(Error::invalid(ERR_INVALID_SYSEX7_STATUS))
    } else if payload_count_of(words) > MAX_PAYLOAD {
        Err(Error::invalid(ERR_INVALID_SYSEX7_PAYLOAD_SIZE))
    } else {
        Ok(())
    }
}

/// Whether `words` start with a well-formed fragment.
pub open spec fn is_fragment(words: Seq<u32>) -> bool {
    fragment_check(words) is Ok
}

fn validate_buffer(buffer: &[u32]) -> (r: Result<(), Error>)
    ensures
        buffer@.len() >= 2 ==> r == Ok::<(), Error>(()),
        buffer@.len() < 2 ==> r == Err::<(), Error>(Error::overflow()),
{
    if buffer.len() >= 2 {
        Ok(())
    } else {
        Err(Error::BufferOverflow(BufferOverflow))
    }
}

fn validate_type(p: &[u32]) -> (r: Result<(), Error>)
    requires
        p@.len() >= 1,
    ensures
        nibble_of(p@[0], 0) == TYPE_CODE ==> r == Ok::<(), Error>(()),
        nibble_of(p@[0], 0) != TYPE_CODE ==> r == Err::<(), Error>(
            Error::invalid(ERR_INCORRECT_UMP_MESSAGE_TYPE),
        ),
{
    if p[0].nibble(0).value() != TYPE_CODE {
        Err(Error::InvalidData(InvalidData(ERR_INCORRECT_UMP_MESSAGE_TYPE)))
    } else {
        Ok(())
    }
}

fn status_from_packet(p: &[u32]) -> (r: Result<Status, Error>)
    requires
        p@.len() >= 1,
    ensures
        status_code_of(p@) <= 0x3 ==> r == Ok::<Status, Error>(status_of(p@)),
        status_code_of(p@) > 0x3 ==> r == Err::<Status, Error>(
            Error::invalid(ERR_INVALID_SYSEX7_STATUS),
        ),
{
    let code = p[0].nibble(2).value();
    if code == 0x0 {
        Ok(Status::Complete)
    } else if code == 0x1 {
        Ok(Status::Start)
    } else if code == 0x2 {
        Ok(Status::Continue)
    } else if code == 0x3 {
        Ok(Status::End)
    } else {
        Err(Error::InvalidData(InvalidData(ERR_INVALID_SYSEX7_STATUS)))
    }
}

fn validate_data(p: &[u32]) -> (r: Result<(), Error>)
    requires
        p@.len() >= 1,
    ensures
        payload_count_of(p@) <= MAX_PAYLOAD ==> r == Ok::<(), Error>(()),
        payload_count_of(p@) > MAX_PAYLOAD ==> r == Err::<(), Error>(
            Error::invalid(ERR_INVALID_SYSEX7_PAYLOAD_SIZE),
        ),
{
    let n: usize = p[0].nibble(3).value() as usize;
    if n > MAX_PAYLOAD {
        Err(Error::InvalidData(InvalidData(ERR_INVALID_SYSEX7_PAYLOAD_SIZE)))
    } else {
        Ok(())
    }
}

/// Checks that `data` starts with a well-formed fragment.
pub fn validate_fragment(data: &[u32]) -> (r: Result<(), Error>)
    ensures
        r == fragment_check(data@),
{
    match validate_buffer(data) {
        Ok(()) => {},
        Err(e) => {
            return Err(e);
        },
    }
    match validate_type(data) {
        Ok(()) => {},
        Err(e) => {
            return Err(e);
        },
    }
    match status_from_packet(data) {
        Ok(_) => {},
        Err(e) => {
            return Err(e);
        },
    }
    validate_data(data)
}

/// The payload bytes of a fragment that are still to come, one at a time.
pub struct PayloadIterator<'a> {
    data: &'a [u32],
    index: usize,
    total: usize,
}

impl<'a> PayloadIterator<'a> {
    #[verifier::type_invariant]
    spec fn well_formed(self) -> bool {
        self.data@.len() >= 2 && self.index <= self.total <= MAX_PAYLOAD
    }

    /// The bytes still to come, in order.
    pub closed spec fn remaining(&self) -> Seq<u8> {
        Seq::new(
            (self.total - self.index) as nat,
            |i: int| payload_byte(self.data@, self.index + i),
        )
    }

    /// The next byte, if any is left.
    pub fn next(&mut self) -> (r: Option<U7>)
        ensures
            old(self).remaining().len() == 0 ==> r is None && final(self).remaining() == old(
                self,
            ).remaining(),
            old(self).remaining().len() > 0 ==> r is Some && r->Some_0@ == old(self).remaining()[0]
                && final(self).remaining() == old(self).remaining().skip(1),
    {
        proof {
            use_type_invariant(&*self);
        }
        if self.index == self.total {
            None
        } else {
            let position = self.index + 2;
            let ret = truncate_u7(self.data[position / 4].octet(position % 4));
            self.index += 1;
            assert(self.remaining() =~= old(self).remaining().skip(1));
            Some(ret)
        }
    }

    /// All the bytes still to come. None is left afterwards.
    pub fn collect(&mut self) -> (r: Vec<U7>)
        ensures
            u7_values(r@) == old(self).remaining(),
            final(self).remaining().len() == 0,
    {
        let mut out: Vec<U7> = Vec::new();
        proof {
            use_type_invariant(&*self);
        }
        let ghost all = self.remaining();
        loop
            invariant
                u7_values(out@) + self.remaining() == all,
            ensures
                self.remaining().len() == 0,
            decreases self.remaining().len(),
        {
            let ghost before = self.remaining();
            let ghost so_far = out@;
            match self.next() {
                Some(byte) => {
                    out.push(byte);
                    assert(u7_values(out@) =~= u7_values(so_far).push(byte@));
                    assert(u7_values(out@) + self.remaining() =~= u7_values(so_far) + before);
                },
                None => {
                    break ;
                },
            }
        }
        assert(u7_values(out@) =~= all);
        out
    }
}

/// One fragment that lies in caller memory.
#[derive(Clone, Copy, Debug, PartialEq, Eq)]
pub struct Sysex7Message<'a>(&'a [u32]);

impl<'a> View for Sysex7Message<'a> {
    type V = Seq<u32>;

    /// The two words of the fragment.
    closed spec fn view(&self) -> Seq<u32> {
        self.0@
    }
}

impl<'a> Sysex7Message<'a> {
    #[verifier::type_invariant]
    spec fn well_formed(self) -> bool {
        self.0@.len() == 2 && is_fragment(self.0@)
    }

    /// The fragment in the first two words of `data`, if they hold one.
    pub fn from_data(data: &'a [u32]) -> (r: Result<Self, Error>)
        ensures
            match fragment_check(data@) {
                Ok(_) => r is Ok && r->Ok_0@ == data@.subrange(0, 2),
                Err(e) => r == Err::<Self, Error>(e),
            },
    {
        match validate_fragment(data) {
            Ok(()) => {
                let words = vstd::slice::slice_subrange(data, 0, 2);
                assert(words@[0] == data@[0]);
                Ok(Sysex7Message(words))
            },
            Err(e) => Err(e),
        }
    }

    /// The fragment in `data`, which the caller has validated.
    pub fn from_data_unchecked(data: &'a [u32]) -> (r: Self)
        requires
            is_fragment(data@),
        ensures
            r@ == data@.subrange(0, 2),
    {
        let words = vstd::slice::slice_subrange(data, 0, 2);
        assert(words@[0] == data@[0]);
        Sysex7Message(words)
    }

    /// The two words of the fragment.
    pub fn data(&self) -> (r: &'a [u32])
        ensures
            r@ == self@,
            r@.len() == 2,
            is_fragment(r@),
    {
        proof {
            use_type_invariant(self);
        }
        self.0
    }

    /// The group the fragment is addressed to.
    pub fn group(&self) -> (r: U4)
        ensures
            r@ == group_of(self@),
    {
        proof {
            use_type_invariant(self);
        }
        self.0[0].nibble(1)
    }

    /// The role of the fragment in its message.
    pub fn status(&self) -> (r: Status)
        ensures
            r == status_of(self@),
            r.code() == status_code_of(self@),
    {
        proof {
            use_type_invariant(self);
        }
        let code = self.0[0].nibble(2).value();
        if code == 0x0 {
            Status::Complete
        } else if code == 0x1 {
            Status::Start
        } else if code == 0x2 {
            Status::Continue
        } else {
            Status::End
        }
    }

    /// The payload of the fragment, to be read byte by byte.
    pub fn payload(&self) -> (r: PayloadIterator<'a>)
        ensures
            r.remaining() == payload_of(self@),
    {
        proof {
            use_type_invariant(self);
        }
        let r = PayloadIterator {
            data: self.0,
            index: 0,
            total: self.0[0].nibble(3).value() as usize,
        };
        assert(r.remaining() =~= payload_of(self@));
        r
    }
}

/// The octet that payload slot `i` holds once `bytes` are written: the
/// byte of `bytes` that belongs there, or else what the slot held.
pub open spec fn slot_after(words: Seq<u32>, bytes: Seq<u8>, i: int) -> u8 {
    if i < bytes.len() {
        bytes[i]
    } else {
        payload_slot(words, i)
    }
}

/// The fragment `words` with `bytes` as its payload: the count is set,
/// the bytes fill the first slots, and the slots after them keep what
/// they held.
pub open spec fn with_payload(words: Seq<u32>, bytes: Seq<u8>) -> Seq<u32> {
    seq![
        with_octet(
            with_octet(
                with_nibble(words[0], 3, bytes.len() as u8),
                2,
                slot_after(words, bytes, 0),
            ),
            3,
            slot_after(words, bytes, 1),
        ),
        with_octet(
            with_octet(
                with_octet(
                    with_octet(words[1], 0, slot_after(words, bytes, 2)),
                    1,
                    slot_after(words, bytes, 3),
                ),
                2,
                slot_after(words, bytes, 4),
            ),
            3,
            slot_after(words, bytes, 5),
        ),
    ]
}

/// A fresh fragment: the message type, all else zero.
pub open spec fn fresh_fragment() -> Seq<u32> {
    seq![with_nibble(0u32, 0, TYPE_CODE), 0u32]
}

/// A fragment of the given group and status with `payload`, all other bits zero.
pub open spec fn fragment_words(group: u8, status: Status, payload: Seq<u8>) -> Seq<u32> {
    let typed = fresh_fragment();
    let grouped = with_first(typed, with_nibble(typed[0], 1, group));
    let framed = with_first(grouped, with_nibble(grouped[0], 2, status.code()));
    with_payload(framed, payload)
}

/// A fresh fragment reads `0x3000_0000, 0`.
pub proof fn lemma_fresh_fragment()
    ensures
        fresh_fragment() == seq![0x3000_0000u32, 0u32],
        is_fragment(fresh_fragment()),
        status_of(fresh_fragment()) == Status::Complete,
        group_of(fresh_fragment()) == 0,
        payload_count_of(fresh_fragment()) == 0,
{
    assert(with_nibble(0u32, 0usize, 0x3u8) == 0x3000_0000u32 && nibble_of(0x3000_0000u32, 0usize)
        == 0x3u8 && nibble_of(0x3000_0000u32, 1usize) == 0u8 && nibble_of(0x3000_0000u32, 2usize)
        == 0u8 && nibble_of(0x3000_0000u32, 3usize) == 0u8) by (bit_vector);
    assert(fresh_fragment() =~= seq![0x3000_0000u32, 0u32]);
}

/// Two words are equal when their four leading nibbles and two trailing octets are.
pub proof fn lemma_first_word_by_fields(a: u32, b: u32)
    by (bit_vector)
    requires
        nibble_of(a, 0usize) == nibble_of(b, 0usize),
        nibble_of(a, 1usize) == nibble_of(b, 1usize),
        nibble_of(a, 2usize) == nibble_of(b, 2usize),
        nibble_of(a, 3usize) == nibble_of(b, 3usize),
        octet_of(a, 2usize) == octet_of(b, 2usize),
        octet_of(a, 3usize) == octet_of(b, 3usize),
    ensures
        a == b,
{
}

/// Two words are equal when their four octets are.
pub proof fn lemma_word_by_octets(a: u32, b: u32)
    by (bit_vector)
    requires
        octet_of(a, 0usize) == octet_of(b, 0usize),
        octet_of(a, 1usize) == octet_of(b, 1usize),
        octet_of(a, 2usize) == octet_of(b, 2usize),
        octet_of(a, 3usize) == octet_of(b, 3usize),
    ensures
        a == b,
{
}

/// Two fragments are equal when their header fields and payload slots are.
pub proof fn lemma_fragment_by_fields(a: Seq<u32>, b: Seq<u32>)
    requires
        a.len() == 2,
        b.len() == 2,
        forall|n: usize| n < 4 ==> #[trigger] nibble_of(a[0], n) == nibble_of(b[0], n),
        forall|i: int| 0 <= i < 6 ==> #[trigger] payload_slot(a, i) == payload_slot(b, i),
    ensures
        a == b,
{
    assert(nibble_of(a[0], 0) == nibble_of(b[0], 0));
    assert(nibble_of(a[0], 1) == nibble_of(b[0], 1));
    assert(nibble_of(a[0], 2) == nibble_of(b[0], 2));
    assert(nibble_of(a[0], 3) == nibble_of(b[0], 3));
    assert(payload_slot(a, 0) == payload_slot(b, 0));
    assert(payload_slot(a, 1) == payload_slot(b, 1));
    assert(payload_slot(a, 2) == payload_slot(b, 2));
    assert(payload_slot(a, 3) == payload_slot(b, 3));
    assert(payload_slot(a, 4) == payload_slot(b, 4));
    assert(payload_slot(a, 5) == payload_slot(b, 5));
    lemma_first_word_by_fields(a[0], b[0]);
    lemma_word_by_octets(a[1], b[1]);
    assert(a =~= b);
}

/// What `with_payload` leaves in each field: the header nibbles but the
/// count are those of `words`, the count is the number of bytes, and each
/// slot holds what `slot_after` says.
pub proof fn lemma_with_payload_fields(words: Seq<u32>, bytes: Seq<u8>)
    requires
        words.len() >= 2,
        bytes.len() <= MAX_PAYLOAD,
    ensures
        with_payload(words, bytes).len() == 2,
        forall|n: usize|
            n < 3 ==> #[trigger] nibble_of(with_payload(words, bytes)[0], n) == nibble_of(
                words[0],
                n,
            ),
        payload_count_of(with_payload(words, bytes)) == bytes.len(),
        forall|i: int|
            0 <= i < 6 ==> #[trigger] payload_slot(with_payload(words, bytes), i) == slot_after(
                words,
                bytes,
                i,
            ),
{
    let count = bytes.len() as u8;
    let s0 = slot_after(words, bytes, 0);
    let s1 = slot_after(words, bytes, 1);
    let s2 = slot_after(words, bytes, 2);
    let s3 = slot_after(words, bytes, 3);
    let s4 = slot_after(words, bytes, 4);
    let s5 = slot_after(words, bytes, 5);
    let a0 = with_nibble(words[0], 3, count);
    let a1 = with_octet(a0, 2, s0);
    let a2 = with_octet(a1, 3, s1);
    let b0 = with_octet(words[1], 0, s2);
    let b1 = with_octet(b0, 1, s3);
    let b2 = with_octet(b1, 2, s4);
    let b3 = with_octet(b2, 3, s5);
    let after = with_payload(words, bytes);
    assert(after[0] == a2);
    assert(after[1] == b3);
    assert forall|n: usize| n < 4 implies #[trigger] nibble_of(a2, n) == nibble_of(a0, n) by {
        lemma_with_octet_keeps_nibble(a0, 2, s0, n);
        lemma_with_octet_keeps_nibble(a1, 3, s1, n);
    }
    assert forall|n: usize| n < 3 implies #[trigger] nibble_of(after[0], n) == nibble_of(
        words[0],
        n,
    ) by {
        lemma_with_nibble(words[0], 3, count, n);
        assert(nibble_of(a2, n) == nibble_of(a0, n));
    }
    lemma_with_nibble(words[0], 3, count, 3);
    assert(nibble_of(a2, 3) == nibble_of(a0, 3));
    lemma_with_octet(a0, 2, s0, 3);
    lemma_with_octet(a1, 3, s1, 2);
    lemma_with_octet(words[1], 0, s2, 1);
    lemma_with_octet(b0, 1, s3, 0);
    lemma_with_octet(b0, 1, s3, 2);
    lemma_with_octet(b1, 2, s4, 0);
    lemma_with_octet(b1, 2, s4, 1);
    lemma_with_octet(b1, 2, s4, 3);
    lemma_with_octet(b2, 3, s5, 0);
    lemma_with_octet(b2, 3, s5, 1);
    lemma_with_octet(b2, 3, s5, 2);
    assert(payload_slot(after, 0) == s0);
    assert(payload_slot(after, 1) == s1);
    assert(payload_slot(after, 2) == s2);
    assert(payload_slot(after, 3) == s3);
    assert(payload_slot(after, 4) == s4);
    assert(payload_slot(after, 5) == s5);
}

/// A fragment built with a payload of at most six 7-bit bytes reads back
/// with that payload, and with the header it had.
pub proof fn lemma_payload_round_trip(words: Seq<u32>, bytes: Seq<u8>)
    requires
        is_fragment(words),
        bytes.len() <= MAX_PAYLOAD,
        forall|i: int| 0 <= i < bytes.len() ==> bytes[i] < 128,
    ensures
        is_fragment(with_payload(words, bytes)),
        payload_of(with_payload(words, bytes)) == bytes,
        group_of(with_payload(words, bytes)) == group_of(words),
        status_of(with_payload(words, bytes)) == status_of(words),
{
    lemma_with_payload_fields(words, bytes);
    let after = with_payload(words, bytes);
    assert(nibble_of(after[0], 0) == nibble_of(words[0], 0));
    assert(nibble_of(after[0], 1) == nibble_of(words[0], 1));
    assert(nibble_of(after[0], 2) == nibble_of(words[0], 2));
    assert forall|i: int| 0 <= i < bytes.len() implies payload_of(after)[i] == bytes[i] by {
        assert(payload_slot(after, i) == slot_after(words, bytes, i));
    }
    assert(payload_of(after) =~= bytes);
}

/// A `Complete` fragment built from a group and a payload of at most six
/// 7-bit bytes is well formed and reads back as that group, that status
/// and that payload. The same holds of the other three statuses.
pub proof fn lemma_fragment_round_trip(group: u8, status: Status, payload: Seq<u8>)
    requires
        group <= 0xF,
        payload.len() <= MAX_PAYLOAD,
        forall|i: int| 0 <= i < payload.len() ==> payload[i] < 128,
    ensures
        fragment_words(group, status, payload).len() == 2,
        is_fragment(fragment_words(group, status, payload)),
        group_of(fragment_words(group, status, payload)) == group,
        status_of(fragment_words(group, status, payload)) == status,
        payload_of(fragment_words(group, status, payload)) == payload,
{
    lemma_fresh_fragment();
    let typed = fresh_fragment();
    let grouped = with_first(typed, with_nibble(typed[0], 1, group));
    let framed = with_first(grouped, with_nibble(grouped[0], 2, status.code()));
    lemma_with_nibble(typed[0], 1, group, 0);
    lemma_with_nibble(typed[0], 1, group, 3);
    lemma_with_nibble(grouped[0], 2, status.code(), 0);
    lemma_with_nibble(grouped[0], 2, status.code(), 1);
    lemma_with_nibble(grouped[0], 2, status.code(), 3);
    assert(is_fragment(framed));
    lemma_payload_round_trip(framed, payload);
    lemma_with_payload_fields(framed, payload);
}

/// Writes a fragment into caller memory.
///
/// The builder holds either the two words being written or the first
/// error met; later steps keep that error.
pub struct Sysex7MessageBuilder<'a>(Result<&'a mut [u32], Error>);

impl<'a> Sysex7Message<'a> {
    /// A builder that writes into `buffer`.
    pub fn builder(buffer: &'a mut [u32]) -> (r: Sysex7MessageBuilder<'a>)
        ensures
            old(buffer)@.len() >= 2 ==> r.state() == Ok::<Seq<u32>, Error>(fresh_fragment()),
            old(buffer)@.len() < 2 ==> r.state() == Err::<Seq<u32>, Error>(Error::overflow()),
            old(buffer)@.len() >= 2 ==> final(buffer)@ == final(r.target())@
                + old(buffer)@.subrange(2, old(buffer)@.len() as int),
            old(buffer)@.len() < 2 ==> final(buffer)@ == old(buffer)@,
    {
        Sysex7MessageBuilder::new(buffer)
    }
}

impl<'a> Sysex7MessageBuilder<'a> {
    #[verifier::type_invariant]
    spec fn well_formed(self) -> bool {
        self.0 matches Ok(buffer) ==> buffer@.len() == 2 && is_fragment(buffer@)
    }

    /// The words written so far, or the error met.
    pub closed spec fn state(&self) -> Result<Seq<u32>, Error> {
        match self.0 {
            Ok(buffer) => Ok(buffer@),
            Err(e) => Err(e),
        }
    }

    /// The words in caller memory that the builder writes into, while no
    /// error was met.
    pub closed spec fn target(&self) -> &'a mut [u32] {
        self.0->Ok_0
    }

    /// Starts a `Complete` fragment of group 0 with no payload in the
    /// first two words of `buffer`.
    pub fn new(buffer: &'a mut [u32]) -> (r: Self)
        ensures
            old(buffer)@.len() >= 2 ==> r.state() == Ok::<Seq<u32>, Error>(fresh_fragment()),
            old(buffer)@.len() < 2 ==> r.state() == Err::<Seq<u32>, Error>(Error::overflow()),
            old(buffer)@.len() >= 2 ==> final(buffer)@ == final(r.target())@
                + old(buffer)@.subrange(2, old(buffer)@.len() as int),
            old(buffer)@.len() < 2 ==> final(buffer)@ == old(buffer)@,
    {
        if buffer.len() >= 2 {
            let (words, _) = buffer.split_at_mut(2);
            words[0] = 0;
            words[1] = 0;
            let mut first = words[0];
            first.set_nibble(0, U4::new(TYPE_CODE));
            words[0] = first;
            proof {
                lemma_fresh_fragment();
                assert(words@ =~= fresh_fragment());
            }
            Sysex7MessageBuilder(Ok(words))
        } else {
            Sysex7MessageBuilder(Err(Error::BufferOverflow(BufferOverflow)))
        }
    }

    /// Sets the group.
    pub fn group(self, g: U4) -> (r: Self)
        ensures
            self.state() matches Ok(w) ==> r.state() == Ok::<Seq<u32>, Error>(
                with_first(w, with_nibble(w[0], 1, g@)),
            ),
            self.state() is Err ==> r.state() == self.state(),
            self.state() is Ok ==> final(r.target())@ == final(self.target())@,
    {
        proof {
            use_type_invariant(&self);
        }
        match self.0 {
            Ok(buffer) => {
                let mut first = buffer[0];
                first.set_nibble(1, g);
                buffer[0] = first;
                Sysex7MessageBuilder(Ok(buffer))
            },
            Err(e) => Sysex7MessageBuilder(Err(e)),
        }
    }

    /// Sets the status.
    pub fn status(self, s: Status) -> (r: Self)
        ensures
            self.state() matches Ok(w) ==> r.state() == Ok::<Seq<u32>, Error>(
                with_first(w, with_nibble(w[0], 2, s.code())),
            ),
            self.state() is Err ==> r.state() == self.state(),
            self.state() is Ok ==> final(r.target())@ == final(self.target())@,
    {
        proof {
            use_type_invariant(&self);
        }
        match self.0 {
            Ok(buffer) => {
                let mut first = buffer[0];
                first.set_nibble(2, s.to_u4());
                buffer[0] = first;
                Sysex7MessageBuilder(Ok(buffer))
            },
            Err(e) => Sysex7MessageBuilder(Err(e)),
        }
    }

    /// Sets the payload. More than six bytes do not fit a fragment: the
    /// builder then records the fault, which `build` reports.
    pub fn payload(self, data: &[U7]) -> (r: Self)
        ensures
            self.state() matches Ok(w) ==> {
                if data@.len() <= MAX_PAYLOAD {
                    r.state() == Ok::<Seq<u32>, Error>(with_payload(w, u7_values(data@)))
                } else {
                    &&& r.state() == Err::<Seq<u32>, Error>(Error::invalid(ERR_PAYLOAD_TOO_LONG))
                    &&& final(self.target())@ == w
                }
            },
            self.state() is Err ==> r.state() == self.state(),
            r.state() is Ok ==> final(r.target())@ == final(self.target())@,
    {
        proof {
            use_type_invariant(&self);
        }
        match self.0 {
            Ok(buffer) => {
                if data.len() > MAX_PAYLOAD {
                    return Sysex7MessageBuilder(
                        Err(Error::InvalidData(InvalidData(ERR_PAYLOAD_TOO_LONG))),
                    );
                }
                let ghost before = buffer@;
                let ghost bytes = u7_values(data@);
                let count = data.len();
                let mut i: usize = 0;
                while i < count
                    invariant
                        i <= count,
                        count == data@.len(),
                        count <= MAX_PAYLOAD,
                        bytes == u7_values(data@),
                        before.len() == 2,
                        buffer@.len() == 2,
                        forall|n: usize|
                            n < 4 ==> #[trigger] nibble_of(buffer@[0], n) == nibble_of(
                                before[0],
                                n,
                            ),
                        forall|j: int|
                            0 <= j < i ==> #[trigger] payload_slot(buffer@, j) == bytes[j],
                        forall|j: int|
                            i <= j < 6 ==> #[trigger] payload_slot(buffer@, j) == payload_slot(
                                before,
                                j,
                            ),
                    decreases count - i,
                {
                    let position = i + 2;
                    let ghost current = buffer@;
                    let mut word = buffer[position / 4];
                    word.set_octet(position % 4, data[i].value());
                    buffer[position / 4] = word;
                    proof {
                        let target = current[(position / 4) as int];
                        assert forall|n: usize| n < 4 implies #[trigger] nibble_of(
                            buffer@[0],
                            n,
                        ) == nibble_of(before[0], n) by {
                            if position / 4 == 0 {
                                lemma_with_octet_keeps_nibble(
                                    target,
                                    (position % 4) as usize,
                                    data@[i as int]@,
                                    n,
                                );
                            }
                            assert(nibble_of(current[0], n) == nibble_of(before[0], n));
                        }
                        assert forall|j: int| 0 <= j < 6 && j != i implies #[trigger] payload_slot(
                            buffer@,
                            j,
                        ) == payload_slot(current, j) by {
                            if (j + 2) / 4 == position / 4 {
                                lemma_with_octet(
                                    target,
                                    (position % 4) as usize,
                                    data@[i as int]@,
                                    ((j + 2) % 4) as usize,
                                );
                            }
                        }
                        assert(payload_slot(buffer@, i as int) == bytes[i as int]);
                    }
                    i += 1;
                }
                let ghost filled = buffer@;
                let mut first = buffer[0];
                first.set_nibble(3, U4::new(count as u8));
                buffer[0] = first;
                proof {
                    let expected = with_payload(before, bytes);
                    lemma_with_payload_fields(before, bytes);
                    assert forall|j: int| 0 <= j < 6 implies #[trigger] payload_slot(buffer@, j)
                        == payload_slot(expected, j) by {
                        if j < 2 {
                            lemma_with_nibble_keeps_octet(
                                filled[0],
                                3,
                                count as u8,
                                ((j + 2) % 4) as usize,
                            );
                        }
                        assert(payload_slot(filled, j) == slot_after(before, bytes, j));
                        assert(payload_slot(expected, j) == slot_after(before, bytes, j));
                    }
                    assert forall|n: usize| n < 4 implies #[trigger] nibble_of(buffer@[0], n)
                        == nibble_of(expected[0], n) by {
                        assert(nibble_of(filled[0], n) == nibble_of(before[0], n));
                        if n < 3 {
                            assert(nibble_of(expected[0], n) == nibble_of(before[0], n));
                        }
                    }
                    lemma_fragment_by_fields(buffer@, expected);
                    assert(nibble_of(expected[0], 0) == nibble_of(before[0], 0));
                    assert(nibble_of(expected[0], 2) == nibble_of(before[0], 2));
                }
                Sysex7MessageBuilder(Ok(buffer))
            },
            Err(e) => Sysex7MessageBuilder(Err(e)),
        }
    }

    /// The fragment written, or the error met.
    pub fn build(self) -> (r: Result<Sysex7Message<'a>, Error>)
        ensures
            self.state() matches Ok(w) ==> r is Ok && r->Ok_0@ == w && final(self.target())@ == w,
            self.state() matches Err(e) ==> r == Err::<Sysex7Message<'a>, Error>(e),
    {
        proof {
            use_type_invariant(&self);
        }
        match self.0 {
            Ok(buffer) => Ok(Sysex7Message(buffer)),
            Err(e) => Err(e),
        }
    }
}

/// A logical message that lies in caller memory: its fragments, in order.
#[derive(Clone, Copy, Debug, PartialEq, Eq)]
pub struct Sysex7MessageGroup<'a>(&'a [u32]);

impl<'a> View for Sysex7MessageGroup<'a> {
    type V = Seq<u32>;

    /// The words of the message, two for each fragment.
    closed spec fn view(&self) -> Seq<u32> {
        self.0@
    }
}

impl<'a> Sysex7MessageGroup<'a> {
    #[verifier::type_invariant]
    spec fn well_formed(self) -> bool {
        is_message(self.0@)
    }

    /// The message in `data`, if `data` holds exactly one.
    pub fn from_data(data: &'a [u32]) -> (r: Result<Self, Error>)
        ensures
            match message_check(data@) {
                Ok(_) => r is Ok && r->Ok_0@ == data@,
                Err(e) => r == Err::<Self, Error>(e),
            },
    {
        if data.len() == 0 || data.len() % 2 != 0 {
            return Err(Error::InvalidData(InvalidData(ERR_SLICE_TOO_SHORT)));
        }
        let total = data.len();
        let count = total / 2;
        let mut state = State::ExpectingStart;
        let mut k: usize = 0;
        while k < count
            invariant
                k <= count,
                total == data@.len(),
                count == total / 2,
                total % 2 == 0,
                scan(data@, k as nat) == Ok::<State, Error>(state),
            decreases count - k,
        {
            let fragment = vstd::slice::slice_subrange(data, 2 * k, 2 * k + 2);
            assert(fragment@ == fragment_at(data@, k as int));
            if let State::Finished = state {
                proof {
                    lemma_scan_finished_is_last(data@, k as nat, count as nat);
                }
                return Err(Error::InvalidData(InvalidData(ERR_DATA_AFTER_END)));
            }
            match validate_fragment(fragment) {
                Ok(()) => {},
                Err(e) => {
                    proof {
                        lemma_scan_fault_stays(data@, (k + 1) as nat, count as nat);
                    }
                    return Err(e);
                },
            }
            let status = Sysex7Message::from_data_unchecked(fragment).status();
            assert(fragment@.subrange(0, 2) =~= fragment@);
            match advance(state, status) {
                Ok(next) => {
                    state = next;
                },
                Err(e) => {
                    proof {
                        lemma_scan_fault_stays(data@, (k + 1) as nat, count as nat);
                    }
                    return Err(Error::InvalidData(e));
                },
            }
            k += 1;
        }
        match state {
            State::Finished => Ok(Sysex7MessageGroup(data)),
            _ => Err(Error::InvalidData(InvalidData(ERR_EXPECTED_CONTINUE_OR_END))),
        }
    }

    /// The message in `data`, which the caller has validated.
    pub fn from_data_unchecked(data: &'a [u32]) -> (r: Self)
        requires
            is_message(data@),
        ensures
            r@ == data@,
    {
        Sysex7MessageGroup(data)
    }

    /// The words of the message.
    pub fn data(&self) -> (r: &'a [u32])
        ensures
            r@ == self@,
            is_message(r@),
    {
        proof {
            use_type_invariant(self);
        }
        self.0
    }

    /// The group the message is addressed to: that of its first fragment.
    pub fn group(&self) -> (r: U4)
        ensures
            r@ == group_of(self@),
    {
        proof {
            use_type_invariant(self);
        }
        self.0[0].nibble(1)
    }

    /// The fragments of the message, to be read one by one.
    pub fn messages(&self) -> (r: Sysex7MessageGroupIterator<'a>)
        ensures
            r.remaining() == Seq::new(
                (self@.len() / 2) as nat,
                |k: int| fragment_at(self@, k),
            ),
    {
        proof {
            use_type_invariant(self);
        }
        let r = Sysex7MessageGroupIterator { data: self.0, index: 0 };
        assert(r.remaining() =~= Seq::new(
            (self@.len() / 2) as nat,
            |k: int| fragment_at(self@, k),
        ));
        r
    }

    /// The payload of the message: the payloads of its fragments, in order.
    pub fn payload(&self) -> (r: Vec<U7>)
        ensures
            u7_values(r@) == message_payload(self@),
    {
        proof {
            use_type_invariant(self);
        }
        let data = self.0;
        let total = data.len();
        let count = total / 2;
        let mut out: Vec<U7> = Vec::new();
        let mut k: usize = 0;
        assert(data@.subrange(0, 0) =~= Seq::<u32>::empty());
        assert(u7_values(out@) =~= message_payload(data@.subrange(0, 0)));
        while k < count
            invariant
                k <= count,
                total == data@.len(),
                count == total / 2,
                total % 2 == 0,
                scan(data@, count as nat) is Ok,
                u7_values(out@) == message_payload(data@.subrange(0, 2 * k as int)),
            decreases count - k,
        {
            let fragment = vstd::slice::slice_subrange(data, 2 * k, 2 * k + 2);
            proof {
                lemma_scan_fragments(data@, count as nat, k as int);
                assert(fragment@ == fragment_at(data@, k as int));
                assert(fragment@.subrange(0, 2) =~= fragment@);
            }
            let mut bytes = Sysex7Message::from_data_unchecked(fragment).payload().collect();
            let ghost so_far = out@;
            let ghost more = bytes@;
            out.append(&mut bytes);
            proof {
                assert(u7_values(out@) =~= u7_values(so_far) + u7_values(more));
                lemma_payload_append(data@.subrange(0, 2 * k as int), fragment@);
                assert(data@.subrange(0, 2 * k as int) + fragment@ =~= data@.subrange(
                    0,
                    2 * (k + 1) as int,
                ));
            }
            k += 1;
        }
        assert(data@.subrange(0, 2 * count as int) =~= data@);
        out
    }
}

/// The fragments of a logical message that are still to come, one at a time.
pub struct Sysex7MessageGroupIterator<'a> {
    data: &'a [u32],
    index: usize,
}

impl<'a> Sysex7MessageGroupIterator<'a> {
    #[verifier::type_invariant]
    spec fn well_formed(self) -> bool {
        is_message(self.data@) && 2 * self.index <= self.data@.len()
    }

    /// The fragments still to come, in order, two words each.
    pub closed spec fn remaining(&self) -> Seq<Seq<u32>> {
        Seq::new(
            (self.data@.len() / 2 - self.index) as nat,
            |i: int| fragment_at(self.data@, self.index + i),
        )
    }

    /// The next fragment, if any is left.
    pub fn next(&mut self) -> (r: Option<Sysex7Message<'a>>)
        ensures
            old(self).remaining().len() == 0 ==> r is None && final(self).remaining() == old(
                self,
            ).remaining(),
            old(self).remaining().len() > 0 ==> r is Some && r->Some_0@ == old(self).remaining()[0]
                && final(self).remaining() == old(self).remaining().skip(1),
    {
        proof {
            use_type_invariant(&*self);
        }
        let data = self.data;
        let total = data.len();
        if self.index >= total / 2 {
            None
        } else {
            let fragment = vstd::slice::slice_subrange(data, 2 * self.index, 2 * self.index + 2);
            proof {
                lemma_scan_fragments(data@, (data@.len() / 2) as nat, self.index as int);
                assert(fragment@ == fragment_at(data@, self.index as int));
                assert(fragment@.subrange(0, 2) =~= fragment@);
            }
            let message = Sysex7Message::from_data_unchecked(fragment);
            self.index += 1;
            assert(self.remaining() =~= old(self).remaining().skip(1));
            Some(message)
        }
    }
}

} // verus!
