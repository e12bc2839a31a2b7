//! The shape that the messages of the family share.
//!
//! A message is told from the others by its status byte alone, which is
//! a parameter of the types here; each message of the family is one of
//! them at its own status.

use crate::detail::bit_ops::{nibble_of, octet_of, BitOps};
use crate::error::{BufferOverflow, Error};
use crate::message::helpers::{low7, truncate_u7};
use crate::message::system_common::{
    is_system_common, lemma_packed, packed, status_check, validate_packet, write_data_to_packet,
};
use crate::numeric_types::{U4, U7};
use vstd::prelude::*;

verus! {

/// A message with status `STATUS` that lies in caller memory.
#[derive(Clone, Copy, Debug, PartialEq, Eq)]
pub struct SimpleGenericBorrowed<'a, const STATUS: u8>(&'a [u32]);

/// A message with status `STATUS` that owns its word.
#[derive(Clone, Copy, Debug, PartialEq, Eq)]
pub struct SimpleGenericOwned<const STATUS: u8>([u32; 1]);

impl<'a, const STATUS: u8> View for SimpleGenericBorrowed<'a, STATUS> {
    type V = Seq<u32>;

    /// The words of the message.
    closed spec fn view(&self) -> Seq<u32> {
        self.0@
    }
}

impl<const STATUS: u8> View for SimpleGenericOwned<STATUS> {
    type V = Seq<u32>;

    /// The word of the message.
    closed spec fn view(&self) -> Seq<u32> {
        self.0@
    }
}

impl<'a, const STATUS: u8> SimpleGenericBorrowed<'a, STATUS> {
    #[verifier::type_invariant]
    spec fn well_formed(self) -> bool {
        is_system_common(self.0@, STATUS)
    }

    /// A builder that writes into `buffer`.
    pub fn builder(buffer: &'a mut [u32]) -> (r: SimpleGenericBuilder<'a, STATUS>)
        ensures
            old(buffer)@.len() >= 1 ==> r.state() == Ok::<Seq<u32>, Error>(
                seq![packed(0, STATUS, None, None)],
            ),
            old(buffer)@.len() < 1 ==> r.state() == Err::<Seq<u32>, Error>(Error::overflow()),
            old(buffer)@.len() >= 1 ==> final(buffer)@ == final(r.target())@
                + old(buffer)@.subrange(1, old(buffer)@.len() as int),
            old(buffer)@.len() < 1 ==> final(buffer)@ == old(buffer)@,
    {
        SimpleGenericBuilder::new(buffer)
    }

    /// Checks that `data` holds a message with status `STATUS`.
    pub fn validate_data(data: &[u32]) -> (r: Result<(), Error>)
        ensures
            r == status_check(data@, STATUS),
    {
        validate_packet(data, STATUS)
    }

    /// The message in `data`, which the caller has validated.
    pub fn from_data_unchecked(data: &'a [u32]) -> (r: Self)
        requires
            is_system_common(data@, STATUS),
        ensures
            r@ == data@,
    {
        SimpleGenericBorrowed(data)
    }

    /// The message in `data`, if it holds one with status `STATUS`.
    pub fn from_data(data: &'a [u32]) -> (r: Result<Self, Error>)
        ensures
            match status_check(data@, STATUS) {
                Ok(_) => r is Ok && r->Ok_0@ == data@,
                Err(e) => r == Err::<Self, Error>(e),
            },
    {
        match validate_packet(data, STATUS) {
            Ok(()) => Ok(SimpleGenericBorrowed(data)),
            Err(e) => Err(e),
        }
    }

    /// The words of the message.
    pub fn data(&self) -> (r: &'a [u32])
        ensures
            r@ == self@,
            is_system_common(r@, STATUS),
    {
        proof {
            use_type_invariant(self);
        }
        self.0
    }

    /// The group the message is addressed to.
    pub fn group(&self) -> (r: U4)
        ensures
            r@ == nibble_of(self@[0], 1),
    {
        proof {
            use_type_invariant(self);
        }
        self.0[0].nibble(1)
    }

    /// The first data byte, as seven bits.
    pub fn first_data_byte(&self) -> (r: U7)
        ensures
            r@ == low7(octet_of(self@[0], 2)),
    {
        proof {
            use_type_invariant(self);
        }
        truncate_u7(self.0[0].octet(2))
    }

    /// The second data byte, as seven bits.
    pub fn second_data_byte(&self) -> (r: U7)
        ensures
            r@ == low7(octet_of(self@[0], 3)),
    {
        proof {
            use_type_invariant(self);
        }
        truncate_u7(self.0[0].octet(3))
    }

    /// A copy of the message that owns its word.
    pub fn into_owned(self) -> (r: SimpleGenericOwned<STATUS>)
        ensures
            r@ == seq![self@[0]],
    {
        proof {
            use_type_invariant(&self);
        }
        let r = SimpleGenericOwned([self.0[0]]);
        assert(r@ =~= seq![self@[0]]);
        r
    }
}

impl<const STATUS: u8> SimpleGenericOwned<STATUS> {
    #[verifier::type_invariant]
    spec fn well_formed(self) -> bool {
        is_system_common(self.0@, STATUS)
    }

    /// The word of the message.
    pub fn data(&self) -> (r: &[u32])
        ensures
            r@ == self@,
            is_system_common(r@, STATUS),
    {
        proof {
            use_type_invariant(self);
        }
        self.0.as_slice()
    }

    /// The group the message is addressed to.
    pub fn group(&self) -> (r: U4)
        ensures
            r@ == nibble_of(self@[0], 1),
    {
        self.0[0].nibble(1)
    }
}

/// Writes a message with status `STATUS` into caller memory.
pub struct SimpleGenericBuilder<'a, const STATUS: u8>(Result<&'a mut [u32], Error>);

impl<'a, const STATUS: u8> SimpleGenericBuilder<'a, STATUS> {
    #[verifier::type_invariant]
    spec fn well_formed(self) -> bool {
        self.0 matches Ok(buffer) ==> is_system_common(buffer@, STATUS)
    }

    /// The words written so far, or the error met.
    pub closed spec fn state(&self) -> Result<Seq<u32>, Error> {
        match self.0 {
            Ok(buffer) => Ok(buffer@),
            Err(e) => Err(e),
        }
    }

    /// The words in caller memory that the builder writes into, while no
    /// error was met.
    pub closed spec fn target(&self) -> &'a mut [u32] {
        self.0->Ok_0
    }

    /// Starts a message to group 0 in the first word of `buffer`.
    pub fn new(buffer: &'a mut [u32]) -> (r: Self)
        ensures
            old(buffer)@.len() >= 1 ==> r.state() == Ok::<Seq<u32>, Error>(
                seq![packed(0, STATUS, None, None)],
            ),
            old(buffer)@.len() < 1 ==> r.state() == Err::<Seq<u32>, Error>(Error::overflow()),
            old(buffer)@.len() >= 1 ==> final(buffer)@ == final(r.target())@
                + old(buffer)@.subrange(1, old(buffer)@.len() as int),
            old(buffer)@.len() < 1 ==> final(buffer)@ == old(buffer)@,
    {
        if buffer.len() < 1 {
            return SimpleGenericBuilder(Err(Error::BufferOverflow(BufferOverflow)));
        }
        let (word, _) = buffer.split_at_mut(1);
        write_data_to_packet(word, U4::new(0), STATUS, None, None);
        proof {
            lemma_packed(0, STATUS, None, None);
            assert(word@ =~= seq![packed(0, STATUS, None, None)]);
        }
        SimpleGenericBuilder(Ok(word))
    }

    /// Sets the group.
    pub fn group(self, v: U4) -> (r: Self)
        ensures
            self.state() matches Ok(w) ==> r.state() == Ok::<Seq<u32>, Error>(
                w.update(0, crate::detail::bit_ops::with_nibble(w[0], 1, v@)),
            ),
            self.state() is Err ==> r.state() == self.state(),
            self.state() is Ok ==> final(r.target())@ == final(self.target())@,
    {
        proof {
            use_type_invariant(&self);
        }
        match self.0 {
            Ok(buffer) => {
                let ghost word = buffer@[0];
                let bits = v.value();
                let mut first = buffer[0];
                first.set_nibble(1, v);
                buffer[0] = first;
                proof {
                    crate::detail::bit_ops::lemma_with_nibble_keeps_octet(word, 1, bits, 1);
                }
                SimpleGenericBuilder(Ok(buffer))
            },
            Err(e) => SimpleGenericBuilder(Err(e)),
        }
    }

    /// The message written, or the error met.
    pub fn build(self) -> (r: Result<SimpleGenericBorrowed<'a, STATUS>, Error>)
        ensures
            self.state() matches Ok(w) ==> r is Ok && r->Ok_0@ == w && final(self.target())@ == w,
            self.state() matches Err(e) ==> r == Err::<SimpleGenericBorrowed<'a, STATUS>, Error>(e),
    {
        proof {
            use_type_invariant(&self);
        }
        match self.0 {
            Ok(buffer) => Ok(SimpleGenericBorrowed(buffer)),
            Err(e) => Err(e),
        }
    }
}

} // verus!
