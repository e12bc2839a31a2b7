//! The accumulator for the legacy byte stream.
//!
//! Bytes arrive in any portions. The accumulator skips bytes until the
//! start marker, then holds the marker and what follows up to the end
//! marker. Inside a message every byte but the end marker must have its
//! high bit clear: another byte is a fault, which drops what is held. A
//! finished message stays readable until the next byte arrives.

use crate::buffer::{Buffer, BufferMut, BufferResize, BufferTryResize};
use crate::detail::common_err_strings::ERR_UNEXPECTED_STATUS_BYTE;
use crate::error::{BufferOverflow, Error, InvalidData};
use crate::message::sysex_bytes::{
    framed, is_sysex_bytes, lemma_framed_is_message, payload_of, Sysex7BytesBorrowed,
};
use crate::sysex7::{END_BYTE, START_BYTE};
use vstd::prelude::*;

verus! {

/// Whether `held` is a finished message.
pub open spec fn is_complete(held: Seq<u8>) -> bool {
    held.len() > 0 && held[held.len() - 1] == END_BYTE
}

/// What the next byte is added to: nothing after a finished message,
/// else what is held.
pub open spec fn carried(held: Seq<u8>) -> Seq<u8> {
    if is_complete(held) {
        Seq::empty()
    } else {
        held
    }
}

/// What an accumulator that holds `held`, in a buffer of the given
/// capacity, holds after `byte`, and the fault if there is one. A byte
/// that the buffer has no room for leaves what is held as it was.
pub open spec fn after_byte(held: Seq<u8>, byte: u8, capacity: nat) -> (Seq<u8>, Option<Error>) {
    let start = carried(held);
    if start.len() == 0 && byte != START_BYTE {
        (start, None)
    } else if start.len() > 0 && byte >= 0x80 && byte != END_BYTE {
        (Seq::empty(), Some(Error::invalid(ERR_UNEXPECTED_STATUS_BYTE)))
    } else if start.len() + 1 > capacity {
        (held, Some(Error::overflow()))
    } else {
        (start.push(byte), None)
    }
}

/// What the accumulator holds after the first `n` bytes of `data`, and
/// the first fault among them; no byte after a fault is taken.
pub open spec fn after_bytes(held: Seq<u8>, data: Seq<u8>, n: nat, capacity: nat) -> (
    Seq<u8>,
    Option<Error>,
)
    decreases n,
{
    if n == 0 {
        (held, None)
    } else {
        let before = after_bytes(held, data, (n - 1) as nat, capacity);
        if before.1 is Some {
            before
        } else {
            after_byte(before.0, data[n - 1], capacity)
        }
    }
}

/// Whether `held` is what an accumulator can hold: nothing, or a start
/// marker and what followed it.
pub open spec fn is_run(held: Seq<u8>) -> bool {
    held.len() > 0 ==> held[0] == START_BYTE
}

/// A fault among the first bytes is the fault of the whole feed.
pub proof fn lemma_fault_stays(held: Seq<u8>, data: Seq<u8>, n: nat, m: nat, capacity: nat)
    requires
        after_bytes(held, data, n, capacity).1 is Some,
        n <= m,
    ensures
        after_bytes(held, data, m, capacity) == after_bytes(held, data, n, capacity),
    decreases m,
{
    if n < m {
        lemma_fault_stays(held, data, n, (m - 1) as nat, capacity);
    }
}

/// Each byte adds at most one to what is held.
pub proof fn lemma_grows_by_one(held: Seq<u8>, data: Seq<u8>, n: nat, capacity: nat)
    ensures
        after_bytes(held, data, n, capacity).0.len() <= held.len() + n,
    decreases n,
{
    if n > 0 {
        lemma_grows_by_one(held, data, (n - 1) as nat, capacity);
    }
}

/// A buffer with room for what is held and all of the data never overflows.
pub proof fn lemma_room_for_all_suffices(held: Seq<u8>, data: Seq<u8>, n: nat, capacity: nat)
    requires
        held.len() + data.len() <= capacity,
        n <= data.len(),
    ensures
        after_bytes(held, data, n, capacity).1 != Some(Error::overflow()),
    decreases n,
{
    if n > 0 {
        lemma_room_for_all_suffices(held, data, (n - 1) as nat, capacity);
        lemma_grows_by_one(held, data, (n - 1) as nat, capacity);
    }
}

/// What an idle accumulator holds after the first `n` bytes of a framed
/// payload: those bytes.
proof fn lemma_framed_prefix(payload: Seq<u8>, n: nat, capacity: nat)
    requires
        forall|i: int| 0 <= i < payload.len() ==> payload[i] < 0x80,
        payload.len() + 2 <= capacity,
        n <= payload.len() + 1,
    ensures
        after_bytes(Seq::empty(), framed(payload), n, capacity) == (
            framed(payload).subrange(0, n as int),
            None::<Error>,
        ),
    decreases n,
{
    let bytes = framed(payload);
    if n == 0 {
        assert(bytes.subrange(0, 0) =~= Seq::<u8>::empty());
    } else {
        lemma_framed_prefix(payload, (n - 1) as nat, capacity);
        let held = bytes.subrange(0, n - 1);
        assert(bytes.subrange(0, n as int) =~= held.push(bytes[n - 1]));
        if n > 1 {
            assert(held[held.len() - 1] == bytes[n - 2]);
            if n > 2 {
                assert(bytes[n - 2] == payload[n - 3]);
            }
            assert(bytes[n - 1] == payload[n - 2]);
        }
    }
}

/// An idle accumulator that is fed a payload of 7-bit bytes between the
/// two markers, in a buffer with room for it, reports no fault and holds
/// a finished message with that payload.
pub proof fn lemma_framed_payload_is_gathered(payload: Seq<u8>, capacity: nat)
    requires
        forall|i: int| 0 <= i < payload.len() ==> payload[i] < 0x80,
        payload.len() + 2 <= capacity,
    ensures
        after_bytes(Seq::empty(), framed(payload), framed(payload).len(), capacity) == (
            framed(payload),
            None::<Error>,
        ),
        is_complete(framed(payload)),
        is_sysex_bytes(framed(payload)),
        payload_of(framed(payload)) == payload,
{
    let bytes = framed(payload);
    let n = (payload.len() + 1) as nat;
    lemma_framed_prefix(payload, n, capacity);
    let held = bytes.subrange(0, n as int);
    assert(held.push(bytes[n as int]) =~= bytes);
    if payload.len() > 0 {
        assert(held[held.len() - 1] == payload[payload.len() - 1]);
    }
    lemma_framed_is_message(payload);
}

/// Gathers the bytes of one message at a time, in a buffer of type `B`.
pub struct Sysex7Accumulator<B: BufferMut<Unit = u8>> {
    buffer: B,
    end: usize,
}

impl<B: BufferMut<Unit = u8>> Sysex7Accumulator<B> {
    /// The invariant of the accumulator.
    pub closed spec fn wf(&self) -> bool {
        self.end <= self.buffer.units().len() && is_run(self.held())
    }

    /// The bytes held: those of the message in progress, or of the one just finished.
    pub closed spec fn held(&self) -> Seq<u8> {
        self.buffer.units().subrange(0, self.end as int)
    }

    /// Every byte of the accumulator's buffer, held or not.
    pub closed spec fn storage(&self) -> Seq<u8> {
        self.buffer.units()
    }

    /// The greatest number of bytes that the accumulator's buffer can take.
    pub closed spec fn capacity(&self) -> nat {
        self.buffer.capacity()
    }

    /// Whether the buffer has room for every byte of `data` that is stored.
    pub open spec fn has_room_for(&self, data: Seq<u8>) -> bool {
        after_bytes(self.held(), data, data.len(), self.capacity()).1 != Some(Error::overflow())
    }

    /// Whether the accumulator holds what `before` takes from `data`,
    /// in full or up to the first fault.
    pub open spec fn fed(&self, before: Self, data: Seq<u8>) -> bool {
        &&& self.wf()
        &&& self.capacity() == before.capacity()
        &&& self.held() =~= after_bytes(before.held(), data, data.len(), before.capacity()).0
    }

    /// Drops what is held.
    fn reset(&mut self)
        ensures
            final(self).end == 0,
            final(self).buffer == old(self).buffer,
    {
        self.end = 0;
    }

    /// An accumulator over `buffer`, every byte of which is set to zero.
    pub fn new(buffer: B) -> (r: Self)
        ensures
            r.wf(),
            r.held() == Seq::<u8>::empty(),
            r.capacity() == buffer.capacity(),
            r.storage().len() == buffer.units().len(),
            forall|i: int| 0 <= i < r.storage().len() ==> r.storage()[i] == 0u8,
    {
        let mut buffer = buffer;
        let units = buffer.buffer_mut();
        let n = units.len();
        let mut i: usize = 0;
        while i < n
            invariant
                i <= n,
                units@.len() == n,
                forall|j: int| 0 <= j < i ==> units@[j] == 0u8,
            decreases n - i,
        {
            units[i] = 0;
            i += 1;
        }
        let r = Sysex7Accumulator { buffer, end: 0 };
        assert(r.held() =~= Seq::<u8>::empty());
        r
    }

    /// The bytes held.
    pub fn data(&self) -> (r: &[u8])
        requires
            self.wf(),
        ensures
            r@ == self.held(),
    {
        vstd::slice::slice_subrange(self.buffer.buffer(), 0, self.end)
    }

    /// The message that the last byte finished, if it finished one.
    pub fn message(&self) -> (r: Option<Sysex7BytesBorrowed<'_>>)
        requires
            self.wf(),
        ensures
            r is Some <==> is_complete(self.held()),
            r matches Some(message) ==> message@ == self.held(),
    {
        let held = vstd::slice::slice_subrange(self.buffer.buffer(), 0, self.end);
        if held.len() > 0 && held[held.len() - 1] == END_BYTE {
            Some(Sysex7BytesBorrowed::from_byte_data_unchecked(held))
        } else {
            None
        }
    }

    /// Where the next byte goes: the start of the buffer after a
    /// finished message, else the end of what is held.
    fn start(&self) -> (r: usize)
        requires
            self.wf(),
        ensures
            r <= self.end,
            self.buffer.units().subrange(0, r as int) == carried(self.held()),
    {
        if self.end > 0 {
            let units = self.buffer.buffer();
            if units[self.end - 1] == END_BYTE {
                assert(self.buffer.units().subrange(0, 0) =~= carried(self.held()));
                return 0;
            }
        }
        self.end
    }

    /// Takes the bytes of `data` in order, up to the first fault.
    ///
    /// The buffer must have room for every byte that is stored; bytes
    /// that are skipped, or that follow a fault, need none. Room for what
    /// is held and all of `data` is always enough, as
    /// `lemma_room_for_all_suffices` shows.
    pub fn feed(&mut self, data: &[u8]) -> (r: Result<(), InvalidData>) where B: BufferResize
        requires
            old(self).wf(),
            old(self).has_room_for(data@),
        ensures
            final(self).fed(*old(self), data@),
            match after_bytes(old(self).held(), data@, data@.len(), old(self).capacity()).1 {
                None => r == Ok::<(), InvalidData>(()),
                Some(e) => r is Err && e == Error::InvalidData(r->Err_0),
            },
    {
        feed_bytes(self, data)
    }

    /// Takes the bytes of `data` in order, up to the first fault. A byte
    /// that the buffer has no room for is such a fault: the accumulator
    /// then holds what it held before that byte.
    pub fn try_feed(&mut self, data: &[u8]) -> (r: Result<(), Error>) where B: BufferTryResize
        requires
            old(self).wf(),
        ensures
            final(self).fed(*old(self), data@),
            match after_bytes(old(self).held(), data@, data@.len(), old(self).capacity()).1 {
                None => r == Ok::<(), Error>(()),
                Some(e) => r == Err::<(), Error>(e),
            },
    {
        let ghost first = self.held();
        let ghost capacity = self.capacity();
        let mut i: usize = 0;
        while i < data.len()
            invariant
                i <= data@.len(),
                self.wf(),
                self.capacity() == capacity,
                capacity == old(self).capacity(),
                first == old(self).held(),
                after_bytes(first, data@, i as nat, capacity) == (self.held(), None::<Error>),
            decreases data@.len() - i,
        {
            let byte = data[i];
            let position = self.start();
            let ghost held = self.held();
            proof {
                self.buffer.lemma_capacity();
            }
            if position == 0 && byte != START_BYTE {
                self.end = position;
                assert(self.held() =~= carried(held));
            } else if position > 0 && byte >= 0x80 && byte != END_BYTE {
                self.reset();
                proof {
                    assert(self.held() =~= Seq::<u8>::empty());
                    lemma_fault_stays(first, data@, (i + 1) as nat, data@.len(), capacity);
                }
                return Err(Error::InvalidData(InvalidData(ERR_UNEXPECTED_STATUS_BYTE)));
            } else {
                if position == usize::MAX {
                    proof {
                        lemma_fault_stays(first, data@, (i + 1) as nat, data@.len(), capacity);
                    }
                    return Err(Error::BufferOverflow(BufferOverflow));
                }
                match self.buffer.try_resize(position + 1) {
                    Err(e) => {
                        proof {
                            assert(self.held() =~= held);
                            lemma_fault_stays(first, data@, (i + 1) as nat, data@.len(), capacity);
                        }
                        return Err(Error::BufferOverflow(e));
                    },
                    Ok(()) => {
                        let units = self.buffer.buffer_mut();
                        units[position] = byte;
                        self.end = position + 1;
                        assert(self.held() =~= carried(held).push(byte));
                    },
                }
            }
            i += 1;
        }
        Ok(())
    }
}

/// Takes the bytes of `data` in order, up to the first fault.
fn feed_bytes<B: BufferMut<Unit = u8> + BufferResize>(
    reader: &mut Sysex7Accumulator<B>,
    data: &[u8],
) -> (r: Result<(), InvalidData>)
    requires
        old(reader).wf(),
        old(reader).has_room_for(data@),
    ensures
        final(reader).fed(*old(reader), data@),
        match after_bytes(old(reader).held(), data@, data@.len(), old(reader).capacity()).1 {
            None => r == Ok::<(), InvalidData>(()),
            Some(e) => r is Err && e == Error::InvalidData(r->Err_0),
        },
{
    if data.len() == 0 {
        return Ok(());
    }
    let ghost first = reader.held();
    let ghost capacity = reader.capacity();
    let mut i: usize = 0;
    while i < data.len()
        invariant
            i <= data@.len(),
            reader.wf(),
            reader.capacity() == capacity,
            capacity == old(reader).capacity(),
            first == old(reader).held(),
            after_bytes(first, data@, data@.len(), capacity).1 != Some(Error::overflow()),
            after_bytes(first, data@, i as nat, capacity) == (reader.held(), None::<Error>),
        decreases data@.len() - i,
    {
        let byte = data[i];
        let position = reader.start();
        let ghost held = reader.held();
        proof {
            reader.buffer.lemma_capacity();
        }
        if position == 0 && byte != START_BYTE {
            reader.end = position;
            assert(reader.held() =~= carried(held));
        } else if position > 0 && byte >= 0x80 && byte != END_BYTE {
            reader.reset();
            proof {
                assert(reader.held() =~= Seq::<u8>::empty());
                lemma_fault_stays(first, data@, (i + 1) as nat, data@.len(), capacity);
            }
            return Err(InvalidData(ERR_UNEXPECTED_STATUS_BYTE));
        } else {
            proof {
                if position + 1 > capacity {
                    lemma_fault_stays(first, data@, (i + 1) as nat, data@.len(), capacity);
                }
            }
            reader.buffer.resize(position + 1);
            let units = reader.buffer.buffer_mut();
            units[position] = byte;
            reader.end = position + 1;
            assert(reader.held() =~= carried(held).push(byte));
        }
        i += 1;
    }
    Ok(())
}

} // verus!
