//! The time-code message as a value: a group and a time code.

use crate::detail::bit_ops::{nibble_of, octet_of, BitOps};
use crate::error::Error;
use crate::message::helpers::{group_from_packet, low7, truncate_u7};
use crate::message::system_common::{
    packed, status_check, validate_packet, write_data_to_packet, TIME_CODE,
};
use crate::numeric_types::{U4, U7};
use vstd::prelude::*;

verus! {

/// A time-code message.
#[derive(Clone, Copy, Debug, PartialEq, Eq)]
pub struct Message {
    group: U4,
    time_code: U7,
}

impl Message {
    /// The status byte of the message.
    pub const STATUS_CODE: u8 = 0xF1;

    /// The group of the message.
    pub closed spec fn spec_group(&self) -> u8 {
        self.group@
    }

    /// The time code of the message.
    pub closed spec fn spec_time_code(&self) -> u8 {
        self.time_code@
    }

    /// A message to `group` with `time_code`.
    pub fn new(group: U4, time_code: U7) -> (r: Message)
        ensures
            r.spec_group() == group@,
            r.spec_time_code() == time_code@,
    {
        Message { group, time_code }
    }

    /// The group the message is addressed to.
    pub fn group(&self) -> (r: U4)
        ensures
            r@ == self.spec_group(),
    {
        self.group
    }

    /// The time code.
    pub fn time_code(&self) -> (r: U7)
        ensures
            r@ == self.spec_time_code(),
    {
        self.time_code
    }

    /// Checks that `bytes` hold a time-code message.
    pub fn validate_ump(bytes: &[u32]) -> (r: Result<(), Error>)
        ensures
            r == status_check(bytes@, TIME_CODE),
    {
        validate_packet(bytes, Message::STATUS_CODE)
    }

    /// The message in `bytes`, which the caller has validated.
    pub fn from_ump(bytes: &[u32]) -> (r: Message)
        requires
            bytes@.len() >= 1,
        ensures
            r.spec_group() == nibble_of(bytes@[0], 1),
            r.spec_time_code() == low7(octet_of(bytes@[0], 2)),
    {
        Message { group: group_from_packet(bytes), time_code: truncate_u7(bytes[0].octet(2)) }
    }

    /// The message in `bytes`, if they hold one.
    pub fn try_from_ump(bytes: &[u32]) -> (r: Result<Message, Error>)
        ensures
            match status_check(bytes@, TIME_CODE) {
                Ok(_) => r is Ok && r->Ok_0.spec_group() == nibble_of(bytes@[0], 1)
                    && r->Ok_0.spec_time_code() == low7(octet_of(bytes@[0], 2)),
                Err(e) => r == Err::<Message, Error>(e),
            },
    {
        match Message::validate_ump(bytes) {
            Ok(()) => Ok(Message::from_ump(bytes)),
            Err(e) => Err(e),
        }
    }

    /// Writes the message into the first word of `bytes` and hands that word out.
    pub fn to_ump<'a>(&self, bytes: &'a mut [u32]) -> (r: &'a [u32])
        requires
            old(bytes)@.len() >= 1,
        ensures
            r@ == seq![
                packed(self.spec_group(), TIME_CODE, Some(self.spec_time_code()), None),
            ],
            final(bytes)@ == old(bytes)@.update(
                0,
                packed(self.spec_group(), TIME_CODE, Some(self.spec_time_code()), None),
            ),
    {
        write_data_to_packet(bytes, self.group, Message::STATUS_CODE, Some(self.time_code), None);
        let word = vstd::slice::slice_subrange(bytes, 0, 1);
        assert(word@ =~= seq![
            packed(self.spec_group(), TIME_CODE, Some(self.spec_time_code()), None),
        ]);
        word
    }
}

} // verus!
