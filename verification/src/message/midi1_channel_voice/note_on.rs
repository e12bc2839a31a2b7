//! The note-on message.

use crate::detail::bit_ops::{nibble_of, octet_of, with_nibble, with_octet};
use crate::error::Error;
use crate::message::helpers::{
    channel_from_packet, fresh_packet, group_from_packet, is_packet, low7, note_from_packet,
    packet_check, start_packet, validate_packet, with_first, write_channel_to_packet,
    write_group_to_packet, write_note_to_packet,
};
use crate::message::midi1_channel_voice::helpers::{
    note_velocity_from_packet, write_note_velocity_to_packet,
};
use crate::message::midi1_channel_voice::TYPE_CODE;
use crate::numeric_types::{U4, U7};
use vstd::prelude::*;

verus! {

/// The op code of the message.
pub const OP_CODE: u8 = 0b1001;

/// A note-on message that lies in caller memory.
#[derive(Clone, Copy, Debug, PartialEq, Eq)]
pub struct NoteOnMessage<'a>(&'a [u32]);

impl<'a> View for NoteOnMessage<'a> {
    type V = Seq<u32>;

    /// The words of the message.
    closed spec fn view(&self) -> Seq<u32> {
        self.0@
    }
}

impl<'a> NoteOnMessage<'a> {
    #[verifier::type_invariant]
    spec fn well_formed(self) -> bool {
        is_packet(self.0@, TYPE_CODE, OP_CODE)
    }

    /// A builder that writes into `buffer`.
    pub fn builder(buffer: &'a mut [u32]) -> (r: NoteOnBuilder<'a>)
        ensures
            old(buffer)@.len() >= 1 ==> r.state() == Ok::<Seq<u32>, Error>(
                fresh_packet(1, TYPE_CODE, OP_CODE),
            ),
            old(buffer)@.len() < 1 ==> r.state() == Err::<Seq<u32>, Error>(Error::overflow()),
            old(buffer)@.len() >= 1 ==> final(buffer)@ == final(r.target())@
                + old(buffer)@.subrange(1, old(buffer)@.len() as int),
            old(buffer)@.len() < 1 ==> final(buffer)@ == old(buffer)@,
    {
        NoteOnBuilder::new(buffer)
    }

    /// Checks that `buffer` holds a note-on message.
    pub fn validate_data(buffer: &[u32]) -> (r: Result<(), Error>)
        ensures
            r == packet_check(buffer@, TYPE_CODE, OP_CODE),
    {
        validate_packet(buffer, U4::new(TYPE_CODE), U4::new(OP_CODE))
    }

    /// The message in `buffer`, which the caller has validated.
    pub fn from_data_unchecked(buffer: &'a [u32]) -> (r: Self)
        requires
            is_packet(buffer@, TYPE_CODE, OP_CODE),
        ensures
            r@ == buffer@,
    {
        NoteOnMessage(buffer)
    }

    /// The message in `buffer`, if it holds one.
    pub fn from_data(buffer: &'a [u32]) -> (r: Result<Self, Error>)
        ensures
            match packet_check(buffer@, TYPE_CODE, OP_CODE) {
                Ok(_) => r is Ok && r->Ok_0@ == buffer@,
                Err(e) => r == Err::<Self, Error>(e),
            },
    {
        match Self::validate_data(buffer) {
            Ok(()) => Ok(NoteOnMessage(buffer)),
            Err(e) => Err(e),
        }
    }

    /// The words of the message.
    pub fn data(&self) -> (r: &'a [u32])
        ensures
            r@ == self@,
            is_packet(r@, TYPE_CODE, OP_CODE),
    {
        proof {
            use_type_invariant(self);
        }
        self.0
    }

    /// The group the message is addressed to.
    pub fn group(&self) -> (r: U4)
        ensures
            r@ == nibble_of(self@[0], 1),
    {
        proof {
            use_type_invariant(self);
        }
        group_from_packet(self.0)
    }

    /// The channel the message is addressed to.
    pub fn channel(&self) -> (r: U4)
        ensures
            r@ == nibble_of(self@[0], 3),
    {
        proof {
            use_type_invariant(self);
        }
        channel_from_packet(self.0)
    }

    /// The note number.
    pub fn note(&self) -> (r: U7)
        ensures
            r@ == low7(octet_of(self@[0], 2)),
    {
        proof {
            use_type_invariant(self);
        }
        note_from_packet(self.0)
    }

    /// The velocity of the note.
    pub fn velocity(&self) -> (r: U7)
        ensures
            r@ == low7(octet_of(self@[0], 3)),
    {
        proof {
            use_type_invariant(self);
        }
        note_velocity_from_packet(self.0)
    }
}

/// Writes a note-on message into caller memory.
///
/// The builder holds either the word being written or the error met when
/// the buffer was too short.
pub struct NoteOnBuilder<'a>(Result<&'a mut [u32], Error>);

impl<'a> NoteOnBuilder<'a> {
    #[verifier::type_invariant]
    spec fn well_formed(self) -> bool {
        self.0 matches Ok(buffer) ==> is_packet(buffer@, TYPE_CODE, OP_CODE)
    }

    /// The words written so far, or the error met.
    pub closed spec fn state(&self) -> Result<Seq<u32>, Error> {
        match self.0 {
            Ok(buffer) => Ok(buffer@),
            Err(e) => Err(e),
        }
    }

    /// The words in caller memory that the builder writes into, while no
    /// error was met.
    pub closed spec fn target(&self) -> &'a mut [u32] {
        self.0->Ok_0
    }

    /// Starts a message in the first word of `buffer`.
    pub fn new(buffer: &'a mut [u32]) -> (r: Self)
        ensures
            old(buffer)@.len() >= 1 ==> r.state() == Ok::<Seq<u32>, Error>(
                fresh_packet(1, TYPE_CODE, OP_CODE),
            ),
            old(buffer)@.len() < 1 ==> r.state() == Err::<Seq<u32>, Error>(Error::overflow()),
            old(buffer)@.len() >= 1 ==> final(buffer)@ == final(r.target())@
                + old(buffer)@.subrange(1, old(buffer)@.len() as int),
            old(buffer)@.len() < 1 ==> final(buffer)@ == old(buffer)@,
    {
        NoteOnBuilder(start_packet(buffer, 1, U4::new(TYPE_CODE), U4::new(OP_CODE)))
    }

    /// Sets the group.
    pub fn group(self, v: U4) -> (r: Self)
        ensures
            self.state() matches Ok(w) ==> r.state() == Ok::<Seq<u32>, Error>(
                with_first(w, with_nibble(w[0], 1, v@)),
            ),
            self.state() is Err ==> r.state() == self.state(),
            self.state() is Ok ==> final(r.target())@ == final(self.target())@,
    {
        proof {
            use_type_invariant(&self);
        }
        match self.0 {
            Ok(buffer) => {
                write_group_to_packet(v, buffer);
                NoteOnBuilder(Ok(buffer))
            },
            Err(e) => NoteOnBuilder(Err(e)),
        }
    }

    /// Sets the channel.
    pub fn channel(self, v: U4) -> (r: Self)
        ensures
            self.state() matches Ok(w) ==> r.state() == Ok::<Seq<u32>, Error>(
                with_first(w, with_nibble(w[0], 3, v@)),
            ),
            self.state() is Err ==> r.state() == self.state(),
            self.state() is Ok ==> final(r.target())@ == final(self.target())@,
    {
        proof {
            use_type_invariant(&self);
        }
        match self.0 {
            Ok(buffer) => {
                write_channel_to_packet(v, buffer);
                NoteOnBuilder(Ok(buffer))
            },
            Err(e) => NoteOnBuilder(Err(e)),
        }
    }

    /// Sets the note number.
    pub fn note(self, v: U7) -> (r: Self)
        ensures
            self.state() matches Ok(w) ==> r.state() == Ok::<Seq<u32>, Error>(
                with_first(w, with_octet(w[0], 2, v@)),
            ),
            self.state() is Err ==> r.state() == self.state(),
            self.state() is Ok ==> final(r.target())@ == final(self.target())@,
    {
        proof {
            use_type_invariant(&self);
        }
        match self.0 {
            Ok(buffer) => {
                write_note_to_packet(v, buffer);
                NoteOnBuilder(Ok(buffer))
            },
            Err(e) => NoteOnBuilder(Err(e)),
        }
    }

    /// Sets the velocity.
    pub fn velocity(self, v: U7) -> (r: Self)
        ensures
            self.state() matches Ok(w) ==> r.state() == Ok::<Seq<u32>, Error>(
                with_first(w, with_octet(w[0], 3, v@)),
            ),
            self.state() is Err ==> r.state() == self.state(),
            self.state() is Ok ==> final(r.target())@ == final(self.target())@,
    {
        proof {
            use_type_invariant(&self);
        }
        match self.0 {
            Ok(buffer) => {
                write_note_velocity_to_packet(v, buffer);
                NoteOnBuilder(Ok(buffer))
            },
            Err(e) => NoteOnBuilder(Err(e)),
        }
    }

    /// The message written, or the error met.
    pub fn build(self) -> (r: Result<NoteOnMessage<'a>, Error>)
        ensures
            self.state() matches Ok(w) ==> r is Ok && r->Ok_0@ == w && final(self.target())@ == w,
            self.state() matches Err(e) ==> r == Err::<NoteOnMessage<'a>, Error>(e),
    {
        proof {
            use_type_invariant(&self);
        }
        match self.0 {
            Ok(buffer) => Ok(NoteOnMessage(buffer)),
            Err(e) => Err(e),
        }
    }
}

} // verus!
