//! System-exclusive messages in the legacy byte stream.
//!
//! On the wire such a message is the start marker `0xF0`, the payload, and
//! the end marker `0xF7`. A message is either borrowed from caller memory
//! or owns its bytes; builders exist for both.

use crate::detail::common_err_strings::ERR_INVALID_SYSEX_BYTES;
use crate::error::{BufferOverflow, Error, InvalidData};
use crate::numeric_types::{u7_values, U7};
use core::marker::PhantomData;
use vstd::prelude::*;

verus! {

/// The marker that opens a message.
pub const START_BYTE: u8 = 0xF0;

/// The marker that closes a message.
pub const END_BYTE: u8 = 0xF7;

/// Whether `bytes` are framed as a message: both markers, each in its place.
pub open spec fn is_sysex_bytes(bytes: Seq<u8>) -> bool {
    bytes.len() >= 2 && bytes[0] == START_BYTE && bytes[bytes.len() - 1] == END_BYTE
}

/// What lies between the two markers.
pub open spec fn payload_of(bytes: Seq<u8>) -> Seq<u8> {
    bytes.subrange(1, bytes.len() - 1)
}

/// A payload between its two markers.
pub open spec fn framed(payload: Seq<u8>) -> Seq<u8> {
    seq![START_BYTE] + payload + seq![END_BYTE]
}

/// Framing a payload gives a message with that payload.
pub proof fn lemma_framed_is_message(payload: Seq<u8>)
    ensures
        is_sysex_bytes(framed(payload)),
        payload_of(framed(payload)) == payload,
{
}

fn validate(buffer: &[u8]) -> (r: Result<(), Error>)
    ensures
        is_sysex_bytes(buffer@) ==> r == Ok::<(), Error>(()),
        !is_sysex_bytes(buffer@) ==> r == Err::<(), Error>(Error::invalid(ERR_INVALID_SYSEX_BYTES)),
{
    if buffer.len() < 2 || buffer[0] != START_BYTE || buffer[buffer.len() - 1] != END_BYTE {
        Err(Error::InvalidData(InvalidData(ERR_INVALID_SYSEX_BYTES)))
    } else {
        Ok(())
    }
}

/// A message that lies in caller memory.
#[derive(Clone, Copy, Debug, PartialEq, Eq)]
pub struct Sysex7BytesBorrowed<'a>(&'a [u8]);

/// A message that owns its bytes.
#[derive(Debug, PartialEq, Eq)]
pub struct Sysex7BytesOwned(Vec<u8>);

/// A message of either kind.
#[derive(Debug, PartialEq, Eq)]
pub enum Sysex7BytesMessage<'a> {
    Owned(Sysex7BytesOwned),
    Borrowed(Sysex7BytesBorrowed<'a>),
}

impl<'a> View for Sysex7BytesBorrowed<'a> {
    type V = Seq<u8>;

    /// The bytes of the message, markers included.
    closed spec fn view(&self) -> Seq<u8> {
        self.0@
    }
}

impl View for Sysex7BytesOwned {
    type V = Seq<u8>;

    /// The bytes of the message, markers included.
    closed spec fn view(&self) -> Seq<u8> {
        self.0@
    }
}

impl<'a> View for Sysex7BytesMessage<'a> {
    type V = Seq<u8>;

    /// The bytes of the message, markers included.
    open spec fn view(&self) -> Seq<u8> {
        match self {
            Sysex7BytesMessage::Owned(m) => m@,
            Sysex7BytesMessage::Borrowed(m) => m@,
        }
    }
}

impl<'a> Sysex7BytesBorrowed<'a> {
    #[verifier::type_invariant]
    spec fn well_formed(self) -> bool {
        is_sysex_bytes(self.0@)
    }

    /// A builder that writes into `buffer`.
    pub fn builder(buffer: &'a mut [u8]) -> (r: Sysex7BytesBorrowedBuilder<'a>)
        ensures
            old(buffer)@.len() >= 2 ==> {
                &&& r.state() == Ok::<Seq<u8>, Error>(seq![START_BYTE])
                &&& r.storage() == old(buffer)@.update(0, START_BYTE)
                &&& final(buffer)@ == final(r.target())@
            },
            old(buffer)@.len() < 2 ==> {
                &&& r.state() == Err::<Seq<u8>, Error>(Error::overflow())
                &&& final(buffer)@ == old(buffer)@
            },
    {
        Sysex7BytesBorrowedBuilder::new(buffer)
    }

    /// Accepts `buffer` exactly when it is framed as a message.
    pub fn validate_byte_data(buffer: &[u8]) -> (r: Result<(), Error>)
        ensures
            is_sysex_bytes(buffer@) ==> r == Ok::<(), Error>(()),
            !is_sysex_bytes(buffer@) ==> r == Err::<(), Error>(
                Error::invalid(ERR_INVALID_SYSEX_BYTES),
            ),
    {
        validate(buffer)
    }

    /// The message in `buffer`, which the caller has validated.
    pub fn from_byte_data_unchecked(buffer: &'a [u8]) -> (r: Self)
        requires
            is_sysex_bytes(buffer@),
        ensures
            r@ == buffer@,
    {
        Sysex7BytesBorrowed(buffer)
    }

    /// The message in `buffer`, if it is one.
    pub fn from_byte_data(buffer: &'a [u8]) -> (r: Result<Self, Error>)
        ensures
            is_sysex_bytes(buffer@) ==> r is Ok && r->Ok_0@ == buffer@,
            !is_sysex_bytes(buffer@) ==> r == Err::<Self, Error>(
                Error::invalid(ERR_INVALID_SYSEX_BYTES),
            ),
    {
        match validate(buffer) {
            Ok(()) => Ok(Sysex7BytesBorrowed(buffer)),
            Err(e) => Err(e),
        }
    }

    /// The bytes of the message, markers included.
    pub fn byte_data(&self) -> (r: &[u8])
        ensures
            r@ == self@,
            is_sysex_bytes(r@),
    {
        proof {
            use_type_invariant(self);
        }
        self.0
    }

    /// The payload, without the markers.
    pub fn payload(&self) -> (r: &[u8])
        ensures
            r@ == payload_of(self@),
    {
        proof {
            use_type_invariant(self);
        }
        vstd::slice::slice_subrange(self.0, 1, self.0.len() - 1)
    }

    /// A copy of the message that owns its bytes.
    pub fn into_owned(self) -> (r: Sysex7BytesOwned)
        ensures
            r@ == self@,
    {
        proof {
            use_type_invariant(&self);
        }
        Sysex7BytesOwned(vstd::slice::slice_to_vec(self.0))
    }
}

impl Clone for Sysex7BytesOwned {
    fn clone(&self) -> (r: Self)
        ensures
            r@ == self@,
    {
        proof {
            use_type_invariant(self);
        }
        Sysex7BytesOwned(vstd::slice::slice_to_vec(self.0.as_slice()))
    }
}

impl<'a> Clone for Sysex7BytesMessage<'a> {
    fn clone(&self) -> (r: Self)
        ensures
            r@ == self@,
            r is Owned <==> self is Owned,
    {
        match self {
            Sysex7BytesMessage::Owned(m) => Sysex7BytesMessage::Owned(m.clone()),
            Sysex7BytesMessage::Borrowed(m) => Sysex7BytesMessage::Borrowed(*m),
        }
    }
}

impl Sysex7BytesOwned {
    #[verifier::type_invariant]
    spec fn well_formed(self) -> bool {
        is_sysex_bytes(self.0@)
    }

    /// A builder for an owned message.
    pub fn builder() -> (r: Sysex7BytesBuilder<Self>)
        ensures
            r@ == Seq::<u8>::empty(),
    {
        Sysex7BytesBuilder::new()
    }

    /// The bytes of the message, markers included.
    pub fn byte_data(&self) -> (r: &[u8])
        ensures
            r@ == self@,
            is_sysex_bytes(r@),
    {
        proof {
            use_type_invariant(self);
        }
        self.0.as_slice()
    }

    /// The payload, without the markers.
    pub fn payload(&self) -> (r: &[u8])
        ensures
            r@ == payload_of(self@),
    {
        proof {
            use_type_invariant(self);
        }
        vstd::slice::slice_subrange(self.0.as_slice(), 1, self.0.len() - 1)
    }
}

impl<'a> Sysex7BytesMessage<'a> {
    /// A builder for an owned message, wrapped as a message of either kind.
    pub fn builder() -> (r: Sysex7BytesBuilder<Self>)
        ensures
            r@ == Seq::<u8>::empty(),
    {
        Sysex7BytesBuilder::new()
    }

    /// Accepts `buffer` exactly when it is framed as a message.
    pub fn validate_byte_data(buffer: &[u8]) -> (r: Result<(), Error>)
        ensures
            is_sysex_bytes(buffer@) ==> r == Ok::<(), Error>(()),
            !is_sysex_bytes(buffer@) ==> r == Err::<(), Error>(
                Error::invalid(ERR_INVALID_SYSEX_BYTES),
            ),
    {
        validate(buffer)
    }

    /// The borrowed message in `buffer`, which the caller has validated.
    pub fn from_byte_data_unchecked(buffer: &'a [u8]) -> (r: Self)
        requires
            is_sysex_bytes(buffer@),
        ensures
            r is Borrowed,
            r@ == buffer@,
    {
        Sysex7BytesMessage::Borrowed(Sysex7BytesBorrowed::from_byte_data_unchecked(buffer))
    }

    /// The borrowed message in `buffer`, if it is one.
    pub fn from_byte_data(buffer: &'a [u8]) -> (r: Result<Self, Error>)
        ensures
            is_sysex_bytes(buffer@) ==> r is Ok && r->Ok_0 is Borrowed && r->Ok_0@ == buffer@,
            !is_sysex_bytes(buffer@) ==> r == Err::<Self, Error>(
                Error::invalid(ERR_INVALID_SYSEX_BYTES),
            ),
    {
        match Sysex7BytesBorrowed::from_byte_data(buffer) {
            Ok(m) => Ok(Sysex7BytesMessage::Borrowed(m)),
            Err(e) => Err(e),
        }
    }

    /// The bytes of the message, markers included.
    pub fn byte_data(&self) -> (r: &[u8])
        ensures
            r@ == self@,
            is_sysex_bytes(r@),
    {
        match self {
            Sysex7BytesMessage::Owned(m) => m.byte_data(),
            Sysex7BytesMessage::Borrowed(m) => m.byte_data(),
        }
    }

    /// The payload, without the markers.
    pub fn payload(&self) -> (r: &[u8])
        ensures
            r@ == payload_of(self@),
    {
        match self {
            Sysex7BytesMessage::Owned(m) => m.payload(),
            Sysex7BytesMessage::Borrowed(m) => m.payload(),
        }
    }

    /// The message with bytes of its own: an owned one as it is, a borrowed one copied.
    pub fn into_owned(self) -> (r: Sysex7BytesOwned)
        ensures
            r@ == self@,
    {
        match self {
            Sysex7BytesMessage::Owned(m) => m,
            Sysex7BytesMessage::Borrowed(m) => m.into_owned(),
        }
    }
}

/// A message type that an owned message converts into without a change of bytes.
pub trait FromOwned: Sized {
    /// The bytes of the message, markers included.
    spec fn bytes(&self) -> Seq<u8>;

    /// The owned message that this message is or wraps, if it owns its bytes.
    spec fn owned(&self) -> Option<Sysex7BytesOwned>;

    /// Wraps an owned message.
    fn from_owned(owned: Sysex7BytesOwned) -> (r: Self)
        ensures
            r.owned() == Some(owned),
            r.bytes() == owned@,
    ;
}

impl FromOwned for Sysex7BytesOwned {
    open spec fn bytes(&self) -> Seq<u8> {
        self@
    }

    open spec fn owned(&self) -> Option<Sysex7BytesOwned> {
        Some(*self)
    }

    fn from_owned(owned: Sysex7BytesOwned) -> (r: Self) {
        owned
    }
}

impl<'a> FromOwned for Sysex7BytesMessage<'a> {
    open spec fn bytes(&self) -> Seq<u8> {
        self@
    }

    open spec fn owned(&self) -> Option<Sysex7BytesOwned> {
        match self {
            Sysex7BytesMessage::Owned(m) => Some(*m),
            Sysex7BytesMessage::Borrowed(_) => None,
        }
    }

    fn from_owned(owned: Sysex7BytesOwned) -> (r: Self) {
        Sysex7BytesMessage::Owned(owned)
    }
}

/// What a borrowed builder holds: the buffer, or the first error met.
pub open spec fn written_of(slot: Result<&mut [u8], Error>, size: usize) -> Result<Seq<u8>, Error> {
    match slot {
        Ok(buffer) => Ok(buffer@.subrange(0, size as int)),
        Err(e) => Err(e),
    }
}

/// Claims the next byte of the buffer and writes `value` there, or
/// records that the buffer is full and lets go of it as it is. An error
/// met earlier stays.
fn put<'a>(slot: Result<&'a mut [u8], Error>, size: usize, value: u8) -> (r: (
    Result<&'a mut [u8], Error>,
    usize,
))
    requires
        slot matches Ok(buffer) ==> size <= buffer@.len(),
    ensures
        slot matches Ok(buffer) ==> {
            if size < buffer@.len() {
                &&& r.0 is Ok
                &&& r.0->Ok_0@ == buffer@.update(size as int, value)
                &&& final(r.0->Ok_0)@ == final(buffer)@
                &&& r.1 == size + 1
            } else {
                &&& r.0 == Err::<&'a mut [u8], Error>(Error::overflow())
                &&& final(buffer)@ == buffer@
            }
        },
        slot matches Err(e) ==> r.0 == Err::<&'a mut [u8], Error>(e),
{
    match slot {
        Ok(buffer) => {
            if buffer.len() <= size {
                (Err(Error::BufferOverflow(BufferOverflow)), size)
            } else {
                buffer[size] = value;
                (Ok(buffer), size + 1)
            }
        },
        Err(e) => (Err(e), size),
    }
}

/// Writes a message into caller memory, byte by byte.
///
/// The builder holds either the buffer and how much of it is written, or
/// the first error that a step met; later steps keep that error. A step
/// that finds the buffer full lets go of it as it is.
pub struct Sysex7BytesBorrowedBuilder<'a>(Result<&'a mut [u8], Error>, usize);

impl<'a> Sysex7BytesBorrowedBuilder<'a> {
    #[verifier::type_invariant]
    spec fn well_formed(self) -> bool {
        self.0 matches Ok(buffer) ==> 1 <= self.1 <= buffer@.len() && buffer@[0] == START_BYTE
    }

    /// The bytes written so far, the start marker first, or the error met.
    pub closed spec fn state(&self) -> Result<Seq<u8>, Error> {
        written_of(self.0, self.1)
    }

    /// Every byte of the buffer, written or not, while no error was met.
    pub closed spec fn storage(&self) -> Seq<u8> {
        match self.0 {
            Ok(buffer) => buffer@,
            Err(e) => Seq::empty(),
        }
    }

    /// The length of the buffer; meaningful while no error was met.
    pub open spec fn room(&self) -> nat {
        self.storage().len()
    }

    /// The bytes in caller memory that the builder writes into, while no
    /// error was met.
    pub closed spec fn target(&self) -> &'a mut [u8] {
        self.0->Ok_0
    }

    /// Starts a message in `buffer`, which must hold at least the two
    /// markers. A shorter buffer is not written.
    pub fn new(buffer: &'a mut [u8]) -> (r: Self)
        ensures
            old(buffer)@.len() >= 2 ==> {
                &&& r.state() == Ok::<Seq<u8>, Error>(seq![START_BYTE])
                &&& r.storage() == old(buffer)@.update(0, START_BYTE)
                &&& final(buffer)@ == final(r.target())@
            },
            old(buffer)@.len() < 2 ==> {
                &&& r.state() == Err::<Seq<u8>, Error>(Error::overflow())
                &&& final(buffer)@ == old(buffer)@
            },
    {
        if buffer.len() < 2 {
            Sysex7BytesBorrowedBuilder(Err(Error::BufferOverflow(BufferOverflow)), 0)
        } else {
            buffer[0] = START_BYTE;
            let r = Sysex7BytesBorrowedBuilder(Ok(buffer), 1);
            assert(r.state()->Ok_0 =~= seq![START_BYTE]);
            r
        }
    }

    /// Appends `data` to the payload; the bytes of the buffer after it
    /// stay as they are. If the buffer cannot take all of `data` the
    /// builder records the overflow and the buffer is left full: it holds
    /// what was written and as much of `data` as fits.
    pub fn payload(self, data: &[U7]) -> (r: Self)
        ensures
            self.state() matches Ok(written) ==> {
                if written.len() + data@.len() <= self.room() {
                    &&& r.state() == Ok::<Seq<u8>, Error>(written + u7_values(data@))
                    &&& r.storage() == written + u7_values(data@) + self.storage().subrange(
                        written.len() + data@.len() as int,
                        self.room() as int,
                    )
                    &&& final(r.target())@ == final(self.target())@
                } else {
                    &&& r.state() == Err::<Seq<u8>, Error>(Error::overflow())
                    &&& final(self.target())@ == (written + u7_values(data@)).subrange(
                        0,
                        self.room() as int,
                    )
                }
            },
            self.state() is Err ==> r.state() == self.state(),
    {
        proof {
            use_type_invariant(&self);
        }
        let ghost start = self.state();
        let ghost room = self.room();
        let ghost stored = self.storage();
        let ghost values = u7_values(data@);
        let Sysex7BytesBorrowedBuilder(mut slot, mut size) = self;
        proof {
            assert(data@.subrange(0, 0) =~= Seq::<U7>::empty());
            if let Ok(written) = start {
                assert(written + u7_values(data@.subrange(0, 0)) =~= written);
                assert(slot->Ok_0@ =~= written + u7_values(data@.subrange(0, 0))
                    + stored.subrange(written.len() as int, room as int));
            }
        }
        let mut i: usize = 0;
        while i < data.len()
            invariant
                i <= data@.len(),
                values == u7_values(data@),
                stored.len() == room,
                start is Err ==> written_of(slot, size) == start,
                slot matches Ok(buffer) ==> 1 <= size <= buffer@.len() && buffer@[0] == START_BYTE
                    && buffer@.len() == room,
                start matches Ok(written) ==> {
                    if written.len() + i <= room {
                        &&& slot is Ok
                        &&& written_of(slot, size) == Ok::<Seq<u8>, Error>(
                            written + u7_values(data@.subrange(0, i as int)),
                        )
                        &&& slot->Ok_0@ == written + u7_values(data@.subrange(0, i as int))
                            + stored.subrange(written.len() + i, room as int)
                        &&& final(slot->Ok_0)@ == final(self.target())@
                    } else {
                        &&& written_of(slot, size) == Err::<Seq<u8>, Error>(Error::overflow())
                        &&& final(self.target())@ == (written + values).subrange(0, room as int)
                    }
                },
            decreases data@.len() - i,
        {
            let ghost before = written_of(slot, size);
            let ghost held = slot->Ok_0@;
            let ghost position = size;
            proof {
                if let Ok(written) = start {
                    if written.len() + i <= room {
                        assert(before->Ok_0.len() == size);
                        assert(u7_values(data@.subrange(0, i as int)).len() == i);
                        assert(size == written.len() + i);
                    }
                }
            }
            let d = data[i];
            let next = put(slot, size, d.value());
            slot = next.0;
            size = next.1;
            proof {
                if let Ok(written) = start {
                    let taken = u7_values(data@.subrange(0, i as int));
                    if written.len() + i + 1 <= room {
                        assert(written_of(slot, size)->Ok_0 =~= before->Ok_0.push(d@));
                        assert(u7_values(data@.subrange(0, i + 1)) =~= taken.push(d@));
                        assert(written_of(slot, size)->Ok_0 =~= written + u7_values(
                            data@.subrange(0, i + 1),
                        ));
                        assert(slot->Ok_0@ == held.update(position as int, d@));
                        assert(slot->Ok_0@ =~= written + u7_values(data@.subrange(0, i + 1))
                            + stored.subrange(written.len() + i + 1, room as int));
                    } else if written.len() + i <= room {
                        assert(taken =~= values.subrange(0, i as int));
                        assert(held =~= (written + values).subrange(0, room as int));
                    }
                }
            }
            i += 1;
        }
        proof {
            assert(data@.subrange(0, data@.len() as int) =~= data@);
        }
        Sysex7BytesBorrowedBuilder(slot, size)
    }

    /// Closes the message with the end marker and hands it out; the bytes
    /// of the buffer after the marker stay as they are. Or hands out the
    /// error met on the way; a buffer without room for the marker is left
    /// as it is.
    pub fn build(self) -> (r: Result<Sysex7BytesBorrowed<'a>, Error>)
        ensures
            self.state() matches Ok(written) ==> {
                if written.len() < self.room() {
                    &&& r is Ok
                    &&& r->Ok_0@ == written.push(END_BYTE)
                    &&& final(self.target())@ == written.push(END_BYTE)
                        + self.storage().subrange(written.len() + 1 as int, self.room() as int)
                } else {
                    &&& r == Err::<Sysex7BytesBorrowed<'a>, Error>(Error::overflow())
                    &&& final(self.target())@ == self.storage()
                }
            },
            self.state() matches Err(e) ==> r == Err::<Sysex7BytesBorrowed<'a>, Error>(e),
    {
        proof {
            use_type_invariant(&self);
        }
        let Sysex7BytesBorrowedBuilder(slot, size) = self;
        let closed = put(slot, size, END_BYTE);
        match closed.0 {
            Ok(buffer) => {
                let bytes = vstd::slice::slice_subrange(buffer, 0, closed.1);
                proof {
                    let written = self.state()->Ok_0;
                    assert(bytes@ =~= written.push(END_BYTE));
                    assert(buffer@ =~= written.push(END_BYTE) + self.storage().subrange(
                        written.len() + 1 as int,
                        self.room() as int,
                    ));
                }
                Ok(Sysex7BytesBorrowed(bytes))
            },
            Err(e) => Err(e),
        }
    }
}

/// One end of a range of payload positions.
#[derive(Clone, Copy, Debug, PartialEq, Eq, Structural)]
pub enum Bound {
    /// The range reaches up to and including the position.
    Included(usize),
    /// The range reaches up to but not including the position.
    Excluded(usize),
    /// The range reaches to the end of the payload on this side.
    Unbounded,
}

impl Bound {
    /// The first payload position of a range that starts at this bound.
    pub open spec fn first(self) -> int {
        match self {
            Bound::Included(v) => v as int,
            Bound::Excluded(v) => v + 1,
            Bound::Unbounded => 0,
        }
    }

    /// The payload position just past a range that ends at this bound, in
    /// a payload of `len` bytes.
    pub open spec fn past(self, len: int) -> int {
        match self {
            Bound::Included(v) => v + 1,
            Bound::Excluded(v) => v as int,
            Bound::Unbounded => len,
        }
    }
}

/// Builds an owned message; `M` is the message type handed out at the end.
///
/// The builder holds the payload so far; the markers are added at the end.
pub struct Sysex7BytesBuilder<M: FromOwned>(Vec<u8>, PhantomData<M>);

impl<M: FromOwned> View for Sysex7BytesBuilder<M> {
    type V = Seq<u8>;

    /// The payload so far.
    closed spec fn view(&self) -> Seq<u8> {
        self.0@
    }
}

impl<M: FromOwned> Sysex7BytesBuilder<M> {
    /// A builder with an empty payload.
    pub fn new() -> (r: Self)
        ensures
            r@ == Seq::<u8>::empty(),
    {
        Sysex7BytesBuilder(Vec::new(), PhantomData)
    }

    /// The length of the payload so far.
    pub fn len(&self) -> (r: usize)
        ensures
            r == self@.len(),
    {
        self.0.len()
    }

    /// The message with the payload so far: an owned message of the
    /// framed payload, wrapped as `M`. The builder stays usable.
    pub fn build(&self) -> (r: Result<M, Error>)
        ensures
            r is Ok,
            r->Ok_0.bytes() == framed(self@),
            r->Ok_0.owned() matches Some(owned) && owned@ == framed(self@),
    {
        let mut copy: Vec<u8> = Vec::new();
        copy.push(START_BYTE);
        let mut i: usize = 0;
        while i < self.0.len()
            invariant
                i <= self.0@.len(),
                copy@ == seq![START_BYTE] + self.0@.subrange(0, i as int),
            decreases self.0@.len() - i,
        {
            copy.push(self.0[i]);
            assert(copy@ =~= seq![START_BYTE] + self.0@.subrange(0, i + 1));
            i += 1;
        }
        copy.push(END_BYTE);
        assert(copy@ =~= framed(self@));
        Ok(M::from_owned(Sysex7BytesOwned(copy)))
    }

    /// Appends `data` to the payload.
    pub fn append_payload(&mut self, data: &[U7]) -> (r: &mut Self)
        ensures
            r@ == old(self)@ + u7_values(data@),
            *final(self) == *final(r),
    {
        let mut i: usize = 0;
        while i < data.len()
            invariant
                i <= data@.len(),
                self@ == old(self)@ + u7_values(data@.subrange(0, i as int)),
            decreases data@.len() - i,
        {
            let ghost before = self@;
            self.0.push(data[i].value());
            proof {
                assert(data@.subrange(0, i + 1) =~= data@.subrange(0, i as int).push(
                    data@[i as int],
                ));
                assert(self@ =~= before.push(data@[i as int]@));
            }
            i += 1;
        }
        proof {
            assert(data@.subrange(0, data@.len() as int) =~= data@);
        }
        self
    }

    /// Replaces the payload by `data`.
    pub fn payload(&mut self, data: &[U7]) -> (r: &mut Self)
        ensures
            r@ == u7_values(data@),
            *final(self) == *final(r),
    {
        self.0.clear();
        self.append_payload(data)
    }

    /// Replaces the payload positions from `start` to `end` by `data`,
    /// which may be shorter or longer than what it replaces. What lies
    /// before and after the range stays, in order.
    ///
    /// The range must lie within the payload so far.
    pub fn replace_payload_range(&mut self, data: &[U7], start: Bound, end: Bound) -> (r: &mut Self)
        requires
            0 <= start.first() <= end.past(old(self)@.len() as int) <= old(self)@.len(),
            old(self)@.len() + data@.len() <= usize::MAX,
        ensures
            r@ == old(self)@.subrange(0, start.first()) + u7_values(data@) + old(self)@.subrange(
                end.past(old(self)@.len() as int),
                old(self)@.len() as int,
            ),
            *final(self) == *final(r),
    {
        let ghost before = self.0@;
        let len = self.0.len();
        let range_start = match start {
            Bound::Unbounded => 0,
            Bound::Included(v) => v,
            Bound::Excluded(v) => v + 1,
        };
        let range_end = match end {
            Bound::Unbounded => len,
            Bound::Included(v) => v + 1,
            Bound::Excluded(v) => v,
        };
        let count = data.len();
        if range_start + count > range_end {
            // make room for the new data
            self.shift_tail(range_end, range_start + count - range_end, true);
        } else if range_start + count < range_end {
            // close the gap that the shorter data leaves
            self.shift_tail(range_end, range_end - (range_start + count), false);
        }
        let ghost shifted = self.0@;
        assert(shifted.len() == before.len() - (range_end - range_start) + count);
        assert(shifted.subrange(0, range_start as int) =~= before.subrange(0, range_start as int));
        assert(shifted.subrange(range_start + count, shifted.len() as int) =~= before.subrange(
            range_end as int,
            before.len() as int,
        ));
        let total = self.0.len();
        let mut i: usize = 0;
        while i < count
            invariant
                i <= count,
                count == data@.len(),
                range_start + count <= total,
                self.0@.len() == total,
                self.0@.len() == shifted.len(),
                forall|j: int| 0 <= j < range_start ==> self.0@[j] == shifted[j],
                forall|j: int|
                    range_start + count <= j < shifted.len() ==> self.0@[j] == shifted[j],
                forall|j: int| 0 <= j < i ==> self.0@[range_start + j] == data@[j]@,
            decreases count - i,
        {
            self.0.set(range_start + i, data[i].value());
            i += 1;
        }
        proof {
            let expected = before.subrange(0, range_start as int) + u7_values(data@)
                + before.subrange(range_end as int, before.len() as int);
            assert(self@.len() == expected.len());
            assert forall|j: int| 0 <= j < expected.len() implies self@[j] == expected[j] by {
                if j < range_start {
                    assert(shifted.subrange(0, range_start as int)[j] == before.subrange(
                        0,
                        range_start as int,
                    )[j]);
                } else if j < range_start + count {
                    assert(self.0@[range_start + (j - range_start)] == data@[j - range_start]@);
                } else {
                    let k = j - (range_start + count);
                    assert(shifted.subrange(range_start + count, shifted.len() as int)[k]
                        == before.subrange(range_end as int, before.len() as int)[k]);
                }
            }
            assert(self@ =~= expected);
        }
        self
    }

    /// Moves the bytes from `tail_start` on by `distance`: forward, which
    /// lengthens the payload and opens a gap before them, or backward,
    /// which overwrites what lay before them and shortens the payload.
    fn shift_tail(&mut self, tail_start: usize, distance: usize, forward: bool)
        requires
            tail_start <= old(self)@.len(),
            forward ==> old(self)@.len() + distance <= usize::MAX,
            !forward ==> distance <= tail_start,
        ensures
            forward ==> {
                &&& final(self)@.len() == old(self)@.len() + distance
                &&& final(self)@.subrange(0, tail_start as int) == old(self)@.subrange(
                    0,
                    tail_start as int,
                )
                &&& final(self)@.subrange(tail_start + distance, final(self)@.len() as int)
                    == old(self)@.subrange(tail_start as int, old(self)@.len() as int)
            },
            !forward ==> {
                &&& final(self)@.len() == old(self)@.len() - distance
                &&& final(self)@.subrange(0, tail_start - distance) == old(self)@.subrange(
                    0,
                    tail_start - distance,
                )
                &&& final(self)@.subrange(tail_start - distance, final(self)@.len() as int)
                    == old(self)@.subrange(tail_start as int, old(self)@.len() as int)
            },
    {
        let ghost before = self.0@;
        let old_size = self.0.len();
        if forward {
            self.0.resize(old_size + distance, 0x0);
            assert forall|j: int| 0 <= j < old_size implies self.0@[j] == before[j] by {
                assert(self.0@.subrange(0, old_size as int)[j] == before[j]);
            }
            let mut k: usize = old_size;
            while k > tail_start
                invariant
                    tail_start <= k <= old_size,
                    old_size == before.len(),
                    old_size + distance <= usize::MAX,
                    self.0@.len() == old_size + distance,
                    forall|j: int| 0 <= j < k ==> self.0@[j] == before[j],
                    forall|j: int| k <= j < old_size ==> self.0@[j + distance] == before[j],
                decreases k,
            {
                k -= 1;
                let unit = self.0[k];
                self.0.set(k + distance, unit);
            }
            assert(self.0@.subrange(0, tail_start as int) =~= before.subrange(
                0,
                tail_start as int,
            ));
            assert(self.0@.subrange(tail_start + distance, self.0@.len() as int)
                =~= before.subrange(tail_start as int, before.len() as int));
        } else {
            let mut k: usize = tail_start;
            while k < old_size
                invariant
                    tail_start <= k <= old_size,
                    distance <= tail_start,
                    old_size == before.len(),
                    self.0@.len() == old_size,
                    forall|j: int| 0 <= j < tail_start - distance ==> self.0@[j] == before[j],
                    forall|j: int| tail_start <= j < k ==> self.0@[j - distance] == before[j],
                    forall|j: int| k <= j < old_size ==> self.0@[j] == before[j],
                decreases old_size - k,
            {
                let unit = self.0[k];
                self.0.set(k - distance, unit);
                k += 1;
            }
            self.0.truncate(old_size - distance);
            assert(self.0@.subrange(0, tail_start - distance) =~= before.subrange(
                0,
                tail_start - distance,
            ));
            assert(self.0@.subrange(tail_start - distance, self.0@.len() as int)
                =~= before.subrange(tail_start as int, before.len() as int));
        }
    }
}

impl<M: FromOwned> Default for Sysex7BytesBuilder<M> {
    fn default() -> (r: Self)
        ensures
            r@ == Seq::<u8>::empty(),
    {
        Sysex7BytesBuilder::new()
    }
}

} // verus!
