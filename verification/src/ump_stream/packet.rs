//! The owned packet of the UMP stream family: four words.

use crate::detail::bit_ops::{crumb_of, nibble_of, BitOps};
use crate::error::InvalidData;
use crate::packet::{copy_padded, padded, type_check, validate_type};
use crate::ump_stream::UMP_MESSAGE_TYPE;
use vstd::prelude::*;

verus! {

/// Four words that carry the family's message type.
#[derive(Eq, PartialEq, Clone, Copy, Debug)]
pub struct Packet(pub(crate) [u32; 4]);

/// The role of a packet in a message that may span several packets.
#[derive(Debug, Clone, Copy, Eq, PartialEq, Structural)]
pub enum Format {
    /// The packet is a whole message.
    Complete,
    /// The packet opens a message.
    Start,
    /// The packet continues a message.
    Continue,
    /// The packet closes a message.
    End,
}

impl Format {
    /// The format that a crumb on the wire stands for.
    pub open spec fn from_code(code: u8) -> Format {
        if code == 0x0 {
            Format::Complete
        } else if code == 0x1 {
            Format::Start
        } else if code == 0x2 {
            Format::Continue
        } else {
            Format::End
        }
    }
}

impl View for Packet {
    type V = Seq<u32>;

    /// The four words of the packet.
    closed spec fn view(&self) -> Seq<u32> {
        self.0@
    }
}

impl Packet {
    #[verifier::type_invariant]
    spec fn well_formed(self) -> bool {
        nibble_of(self.0@[0], 0) == UMP_MESSAGE_TYPE
    }

    /// The packet made from `data`.
    pub fn try_from(data: &[u32]) -> (r: Result<Packet, InvalidData>)
        ensures
            match type_check(data@, UMP_MESSAGE_TYPE) {
                Ok(_) => r is Ok && r->Ok_0@ == padded(data@, 4),
                Err(e) => r == Err::<Packet, InvalidData>(e),
            },
    {
        match validate_type(data, UMP_MESSAGE_TYPE) {
            Ok(()) => Ok(Packet(copy_padded::<4>(data))),
            Err(e) => Err(e),
        }
    }

    /// The four words of the packet.
    pub fn data(&self) -> (r: &[u32])
        ensures
            r@ == self@,
            r@.len() == 4,
            nibble_of(r@[0], 0) == UMP_MESSAGE_TYPE,
    {
        proof {
            use_type_invariant(self);
        }
        self.0.as_slice()
    }

    /// The role of the packet in its message: the crumb right after the message type.
    pub fn format(&self) -> (r: Format)
        ensures
            r == Format::from_code(crumb_of(self@[0], 2)),
    {
        format_from_data(self.0.as_slice())
    }
}

/// The format of the packet that starts `data`.
pub fn format_from_data(data: &[u32]) -> (r: Format)
    requires
        data@.len() >= 1,
    ensures
        r == Format::from_code(crumb_of(data@[0], 2)),
{
    let code = data[0].crumb(2).value();
    if code == 0x0 {
        Format::Complete
    } else if code == 0x1 {
        Format::Start
    } else if code == 0x2 {
        Format::Continue
    } else {
        Format::End
    }
}

impl core::ops::Deref for Packet {
    type Target = [u32];

    fn deref(&self) -> (r: &[u32])
        ensures
            r@ == self@,
    {
        self.0.as_slice()
    }
}

} // verus!
