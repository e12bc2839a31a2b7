//! The owned packet of the MIDI 2.0 channel voice family: two words.

use crate::channel_voice2::UMP_MESSAGE_TYPE;
use crate::detail::bit_ops::{nibble_of, with_nibble, BitOps};
use crate::error::InvalidData;
use crate::numeric_types::U4;
use crate::packet::{copy_padded, padded, type_check, validate_type};
use vstd::prelude::*;

verus! {

/// Two words that carry the family's message type.
#[derive(Eq, PartialEq, Clone, Copy, Debug)]
pub struct Packet(pub(crate) [u32; 2]);

impl View for Packet {
    type V = Seq<u32>;

    /// The two words of the packet.
    closed spec fn view(&self) -> Seq<u32> {
        self.0@
    }
}

impl Packet {
    #[verifier::type_invariant]
    spec fn well_formed(self) -> bool {
        nibble_of(self.0@[0], 0) == UMP_MESSAGE_TYPE
    }

    /// The packet made from `data`.
    pub fn try_from(data: &[u32]) -> (r: Result<Packet, InvalidData>)
        ensures
            match type_check(data@, UMP_MESSAGE_TYPE) {
                Ok(_) => r is Ok && r->Ok_0@ == padded(data@, 2),
                Err(e) => r == Err::<Packet, InvalidData>(e),
            },
    {
        match validate_type(data, UMP_MESSAGE_TYPE) {
            Ok(()) => Ok(Packet(copy_padded::<2>(data))),
            Err(e) => Err(e),
        }
    }

    /// The two words of the packet.
    pub fn data(&self) -> (r: &[u32])
        ensures
            r@ == self@,
            r@.len() == 2,
            nibble_of(r@[0], 0) == UMP_MESSAGE_TYPE,
    {
        proof {
            use_type_invariant(self);
        }
        self.0.as_slice()
    }

    /// The group the packet is addressed to.
    pub fn group(&self) -> (r: U4)
        ensures
            r@ == nibble_of(self@[0], 1),
    {
        self.0[0].nibble(1)
    }

    /// Sets the group and nothing else.
    pub fn set_group(&mut self, group: U4)
        ensures
            final(self)@ == old(self)@.update(0, with_nibble(old(self)@[0], 1, group@)),
            nibble_of(final(self)@[0], 1) == group@,
            forall|other: usize|
                other < 8 && other != 1 ==> #[trigger] nibble_of(final(self)@[0], other)
                    == nibble_of(old(self)@[0], other),
    {
        proof {
            use_type_invariant(&*self);
        }
        let mut first = self.0[0];
        first.set_nibble(1, group);
        let second = self.0[1];
        self.0 = [first, second];
        assert(self@ =~= old(self)@.update(0, with_nibble(old(self)@[0], 1, group@)));
    }

    /// The channel the packet is addressed to.
    pub fn channel(&self) -> (r: U4)
        ensures
            r@ == nibble_of(self@[0], 3),
    {
        self.0[0].nibble(3)
    }

    /// Sets the channel and nothing else.
    pub fn set_channel(&mut self, channel: U4)
        ensures
            final(self)@ == old(self)@.update(0, with_nibble(old(self)@[0], 3, channel@)),
            nibble_of(final(self)@[0], 3) == channel@,
            forall|other: usize|
                other < 8 && other != 3 ==> #[trigger] nibble_of(final(self)@[0], other)
                    == nibble_of(old(self)@[0], other),
    {
        proof {
            use_type_invariant(&*self);
        }
        let mut first = self.0[0];
        first.set_nibble(3, channel);
        let second = self.0[1];
        self.0 = [first, second];
        assert(self@ =~= old(self)@.update(0, with_nibble(old(self)@[0], 3, channel@)));
    }
}

impl core::ops::Deref for Packet {
    type Target = [u32];

    fn deref(&self) -> (r: &[u32])
        ensures
            r@ == self@,
    {
        self.0.as_slice()
    }
}

} // verus!
