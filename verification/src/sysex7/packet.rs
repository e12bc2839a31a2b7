//! The owned fragment: two words, validated when made.

use crate::detail::bit_ops::{lemma_with_nibble_keeps_octet, nibble_of, with_nibble, BitOps};
use crate::detail::common_err_strings::{
    ERR_INCORRECT_UMP_MESSAGE_TYPE, ERR_INVALID_SYSEX7_PAYLOAD_SIZE, ERR_INVALID_SYSEX7_STATUS,
    ERR_SLICE_TOO_SHORT,
};
use crate::error::InvalidData;
use crate::message::system_exclusive_7bit::{
    group_of, is_fragment, payload_count_of, payload_of, status_code_of, status_of, Status,
    Sysex7Message, MAX_PAYLOAD, TYPE_CODE,
};
use crate::numeric_types::U4;
use crate::packet::{copy_padded, padded};
use vstd::prelude::*;

verus! {

/// What validating `data` as the source of a fragment reports. The slice
/// must not be empty; its first word must carry the message type, a
/// status and a payload count that a fragment can have.
pub open spec fn packet_check(data: Seq<u32>) -> Result<(), InvalidData> {
    if data.len() == 0 {
        Err(InvalidData(ERR_SLICE_TOO_SHORT))
    } else if nibble_of(data[0], 0) != TYPE_CODE {
        Err(InvalidData(ERR_INCORRECT_UMP_MESSAGE_TYPE))
    } else if status_code_of(data) > 0x3 {
        Err(InvalidData(ERR_INVALID_SYSEX7_STATUS))
    } else if payload_count_of(data) > MAX_PAYLOAD {
        Err(InvalidData(ERR_INVALID_SYSEX7_PAYLOAD_SIZE))
    } else {
        Ok(())
    }
}

/// A fragment that owns its two words.
#[derive(Eq, PartialEq, Clone, Copy, Debug)]
pub struct Packet(pub(crate) [u32; 2]);

impl View for Packet {
    type V = Seq<u32>;

    /// The two words of the fragment.
    closed spec fn view(&self) -> Seq<u32> {
        self.0@
    }
}

impl Packet {
    #[verifier::type_invariant]
    spec fn well_formed(self) -> bool {
        is_fragment(self.0@)
    }

    /// The fragment made from `data`.
    pub fn try_from(data: &[u32]) -> (r: Result<Packet, InvalidData>)
        ensures
            match packet_check(data@) {
                Ok(_) => r is Ok && r->Ok_0@ == padded(data@, 2) && is_fragment(r->Ok_0@),
                Err(e) => r == Err::<Packet, InvalidData>(e),
            },
    {
        if data.len() == 0 {
            return Err(InvalidData(ERR_SLICE_TOO_SHORT));
        }
        let first = data[0];
        if first.nibble(0).value() != TYPE_CODE {
            return Err(InvalidData(ERR_INCORRECT_UMP_MESSAGE_TYPE));
        }
        if first.nibble(2).value() > 0x3 {
            return Err(InvalidData(ERR_INVALID_SYSEX7_STATUS));
        }
        if first.nibble(3).value() as usize > MAX_PAYLOAD {
            return Err(InvalidData(ERR_INVALID_SYSEX7_PAYLOAD_SIZE));
        }
        let words = copy_padded::<2>(data);
        assert(words@[0] == data@[0]);
        Ok(Packet(words))
    }

    /// The two words of the fragment.
    pub fn data(&self) -> (r: &[u32])
        ensures
            r@ == self@,
            r@.len() == 2,
            is_fragment(r@),
    {
        proof {
            use_type_invariant(self);
        }
        self.0.as_slice()
    }

    /// The fragment as a view of its own words.
    pub fn message(&self) -> (r: Sysex7Message<'_>)
        ensures
            r@ == self@,
    {
        proof {
            use_type_invariant(self);
        }
        let r = Sysex7Message::from_data_unchecked(self.0.as_slice());
        assert(r@ =~= self@);
        r
    }

    /// The group the fragment is addressed to.
    pub fn group(&self) -> (r: U4)
        ensures
            r@ == group_of(self@),
    {
        self.0[0].nibble(1)
    }

    /// Sets the group and nothing else.
    pub fn set_group(&mut self, group: U4)
        ensures
            final(self)@ == old(self)@.update(0, with_nibble(old(self)@[0], 1, group@)),
            group_of(final(self)@) == group@,
            status_of(final(self)@) == status_of(old(self)@),
            payload_of(final(self)@) == payload_of(old(self)@),
    {
        proof {
            use_type_invariant(&*self);
        }
        let mut first = self.0[0];
        first.set_nibble(1, group);
        let second = self.0[1];
        let bits = group.value();
        proof {
            lemma_with_nibble_keeps_octet(self.0@[0], 1, bits, 2);
            lemma_with_nibble_keeps_octet(self.0@[0], 1, bits, 3);
        }
        self.0 = [first, second];
        assert(self@ =~= old(self)@.update(0, with_nibble(old(self)@[0], 1, group@)));
        assert(payload_of(self@) =~= payload_of(old(self)@));
    }

    /// The role of the fragment in its message.
    pub fn status(&self) -> (r: Status)
        ensures
            r == status_of(self@),
            self@.len() == 2,
            is_fragment(self@),
    {
        proof {
            use_type_invariant(self);
        }
        let code = self.0[0].nibble(2).value();
        if code == 0x0 {
            Status::Complete
        } else if code == 0x1 {
            Status::Start
        } else if code == 0x2 {
            Status::Continue
        } else {
            Status::End
        }
    }
}

impl core::ops::Deref for Packet {
    type Target = [u32];

    fn deref(&self) -> (r: &[u32])
        ensures
            r@ == self@,
    {
        self.0.as_slice()
    }
}

} // verus!
