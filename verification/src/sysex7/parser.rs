//! The reassembly parser: fragments in, logical messages out.
//!
//! The parser owns a buffer and the position up to which the buffer holds
//! the fragments of the message in progress. Each fragment either takes
//! the parser one step along the framing grammar and is appended, or is a
//! fault and leaves what the parser holds untouched. A finished message
//! stays readable until the next fragment arrives, which starts afresh.

use crate::buffer::{Buffer, BufferDefault, BufferMut, BufferResize, BufferTryResize};
use crate::error::{BufferOverflow, Error, InvalidData};
use crate::detail::common_err_strings::{
    ERR_EXPECTED_CONTINUE_OR_END, ERR_EXPECTED_START_OR_COMPLETE,
};
use crate::message::system_exclusive_7bit::{
    fragment_words, lemma_fragment_round_trip, status_of, Status, Sysex7MessageGroup, MAX_PAYLOAD,
};
use crate::sysex7::framing::{
    advance, is_message, lemma_payload_append, lemma_scan_append, message_payload, scan, step,
    State,
};
use crate::sysex7::packet::{packet_check, Packet};
use crate::packet::padded;
use vstd::prelude::*;

verus! {

/// What a parser in `state` that holds `words` starts the next fragment
/// from: a finished message is dropped, anything else is kept.
pub open spec fn recycled(state: State, words: Seq<u32>) -> (State, Seq<u32>) {
    match state {
        State::Finished => (State::ExpectingStart, Seq::empty()),
        _ => (state, words),
    }
}

/// The state and the words of a parser after `fragment`, and the fault
/// if the fragment is one. A fault leaves the parser where it started
/// the fragment from.
pub open spec fn after_fragment(state: State, words: Seq<u32>, fragment: Seq<u32>) -> (
    State,
    Seq<u32>,
    Option<InvalidData>,
) {
    let start = recycled(state, words);
    match step(start.0, status_of(fragment)) {
        Ok(next) => (next, start.1 + fragment, None),
        Err(e) => (start.0, start.1, Some(e)),
    }
}

/// What a fragment made of the parser.
#[derive(Debug, Eq, PartialEq, Clone, Copy)]
pub enum ParseResult<'a> {
    /// The message is still open.
    Incomplete,
    /// The fragment closed the message, which is handed out.
    Complete(Sysex7MessageGroup<'a>),
}

impl<'a> ParseResult<'a> {
    /// Whether the result is what a parser that reached `state` with
    /// `words` hands out.
    pub open spec fn reports(self, state: State, words: Seq<u32>) -> bool {
        match self {
            ParseResult::Incomplete => state !is Finished,
            ParseResult::Complete(message) => state is Finished && message@ =~= words,
        }
    }
}

/// Reassembles logical messages from fragments, in a buffer of type `B`.
pub struct Sysex7Parser<B: BufferMut<Unit = u32>> {
    state: State,
    index: usize,
    buffer: B,
}

impl<B: BufferMut<Unit = u32>> Sysex7Parser<B> {
    /// The invariant of the parser: the words it holds are the fragments
    /// that led it, in order, to the state it is in.
    pub closed spec fn wf(&self) -> bool {
        &&& self.index <= self.buffer.units().len()
        &&& self.index % 2 == 0
        &&& match self.state {
            State::ExpectingStart => self.index == 0,
            state => scan(self.words(), (self.index / 2) as nat) == Ok::<State, Error>(state),
        }
    }

    /// Where the parser stands in the framing grammar.
    pub closed spec fn state(&self) -> State {
        self.state
    }

    /// The fragments of the message in progress, or of the one just finished.
    pub closed spec fn words(&self) -> Seq<u32> {
        self.buffer.units().subrange(0, self.index as int)
    }

    /// The greatest number of words that the parser's buffer can take.
    pub closed spec fn capacity(&self) -> nat {
        self.buffer.capacity()
    }

    /// Whether the buffer has room for one more fragment.
    pub open spec fn has_room(&self) -> bool {
        recycled(self.state(), self.words()).1.len() + 2 <= self.capacity()
    }

    /// Whether the parser is what `before` is after it took `fragment`,
    /// be it as a step or as a fault.
    pub open spec fn took(&self, before: Self, fragment: Seq<u32>) -> bool {
        &&& self.wf()
        &&& self.capacity() == before.capacity()
        &&& self.state() == after_fragment(before.state(), before.words(), fragment).0
        &&& self.words() =~= after_fragment(before.state(), before.words(), fragment).1
    }

    /// Whether the parser holds what `before` holds.
    pub open spec fn kept(&self, before: Self) -> bool {
        &&& self.wf()
        &&& self.capacity() == before.capacity()
        &&& self.state() == before.state()
        &&& self.words() =~= before.words()
    }

    /// A parser over a buffer made by default.
    pub fn new() -> (r: Self) where B: BufferDefault
        ensures
            r.wf(),
            r.state() == State::ExpectingStart,
            r.words() == Seq::<u32>::empty(),
            r.capacity() == B::default_capacity(),
    {
        let r = Sysex7Parser { buffer: B::default(), index: 0, state: State::ExpectingStart };
        assert(r.words() =~= Seq::<u32>::empty());
        r
    }

    /// A parser over `buffer`, whatever `buffer` holds.
    pub fn new_with_buffer(buffer: B) -> (r: Self)
        ensures
            r.wf(),
            r.state() == State::ExpectingStart,
            r.words() == Seq::<u32>::empty(),
            r.capacity() == buffer.capacity(),
    {
        let r = Sysex7Parser { buffer, index: 0, state: State::ExpectingStart };
        assert(r.words() =~= Seq::<u32>::empty());
        r
    }

    /// Drops whatever the parser holds. It then expects a message to start.
    pub fn clear(&mut self)
        ensures
            final(self).wf(),
            final(self).state() == State::ExpectingStart,
            final(self).words() == Seq::<u32>::empty(),
            final(self).capacity() == old(self).capacity(),
    {
        self.index = 0;
        self.state = State::ExpectingStart;
        assert(self.words() =~= Seq::<u32>::empty());
    }

    /// The words that the parser holds.
    pub fn buffer(&self) -> (r: &[u32])
        requires
            self.wf(),
        ensures
            r@ == self.words(),
    {
        vstd::slice::slice_subrange(self.buffer.buffer(), 0, self.index)
    }

    /// The message that the last fragment finished, if it finished one.
    pub fn message(&self) -> (r: Option<Sysex7MessageGroup<'_>>)
        requires
            self.wf(),
        ensures
            r is Some <==> self.state() is Finished,
            r matches Some(message) ==> message@ == self.words(),
    {
        match self.state {
            State::Finished => Some(self.parse_buffer()),
            _ => None,
        }
    }

    /// The finished message that the parser holds.
    fn parse_buffer(&self) -> (r: Sysex7MessageGroup<'_>)
        requires
            self.wf(),
            self.state() is Finished,
        ensures
            r@ == self.words(),
    {
        let words = vstd::slice::slice_subrange(self.buffer.buffer(), 0, self.index);
        Sysex7MessageGroup::from_data_unchecked(words)
    }

    /// Where the parser starts the next fragment from: the state and the
    /// position in the buffer.
    fn start(&self) -> (r: (State, usize))
        requires
            self.wf(),
        ensures
            r.0 == recycled(self.state(), self.words()).0,
            r.1 == recycled(self.state(), self.words()).1.len(),
            r.1 <= self.index,
            r.1 % 2 == 0,
            r.0 !is Finished,
            scan(
                self.buffer.units().subrange(0, r.1 as int),
                (r.1 / 2) as nat,
            ) == Ok::<State, Error>(r.0),
    {
        match self.state {
            State::Finished => {
                assert(self.buffer.units().subrange(0, 0) =~= Seq::<u32>::empty());
                (State::ExpectingStart, 0)
            },
            State::ExpectingStart => (State::ExpectingStart, self.index),
            State::ExpectingEnd => (State::ExpectingEnd, self.index),
        }
    }

    /// Writes `packet` at `position`, where the buffer has room for it,
    /// and takes the parser to `next`.
    fn push(&mut self, packet: Packet, position: usize, next: State)
        requires
            position % 2 == 0,
            position + 2 <= old(self).buffer.units().len(),
            next !is ExpectingStart,
            scan(
                old(self).buffer.units().subrange(0, position as int) + packet@,
                (position / 2 + 1) as nat,
            ) == Ok::<State, Error>(next),
        ensures
            final(self).wf(),
            final(self).state() == next,
            final(self).words() == old(self).buffer.units().subrange(0, position as int) + packet@,
            final(self).capacity() == old(self).capacity(),
    {
        let ghost before = self.buffer.units();
        let words = packet.data();
        let first = words[0];
        let second = words[1];
        let target = self.buffer.buffer_mut();
        target[position] = first;
        target[position + 1] = second;
        self.index = position + 2;
        self.state = next;
        assert(self.words() =~= before.subrange(0, position as int) + packet@);
    }

    /// Takes `packet` as the next fragment. A fragment that the framing
    /// grammar does not allow is a fault and changes nothing but this: a
    /// message that was finished is dropped.
    ///
    /// The buffer must have room for a fragment that is taken; a
    /// fragment that is refused needs none.
    pub fn parse(&mut self, packet: Packet) -> (r: Result<ParseResult<'_>, InvalidData>) where
        B: BufferResize,

        requires
            old(self).wf(),
            after_fragment(old(self).state(), old(self).words(), packet@).2 is None ==> old(
                self,
            ).has_room(),
        ensures
            final(self).took(*old(self), packet@),
            match after_fragment(old(self).state(), old(self).words(), packet@).2 {
                Some(e) => r == Err::<ParseResult<'_>, InvalidData>(e),
                None => r is Ok && r->Ok_0.reports(final(self).state(), final(self).words()),
            },
    {
        let (state, position) = self.start();
        let ghost kept = self.buffer.units().subrange(0, position as int);
        match advance(state, packet.status()) {
            Err(e) => {
                self.index = position;
                self.state = state;
                assert(self.words() =~= kept);
                Err(e)
            },
            Ok(next) => {
                proof {
                    lemma_scan_append(kept, packet@);
                    self.buffer.lemma_capacity();
                }
                self.buffer.resize(position + 2);
                assert(self.buffer.units().subrange(0, position as int) =~= kept);
                self.push(packet, position, next);
                match next {
                    State::Finished => Ok(ParseResult::Complete(self.parse_buffer())),
                    _ => Ok(ParseResult::Incomplete),
                }
            },
        }
    }

    /// Takes `packet` as the next fragment, as `parse` does, in a buffer
    /// that may be full. If the fragment is no fault and the buffer has
    /// no room for it, the overflow is reported and the parser is left
    /// exactly as it was.
    pub fn try_parse(&mut self, packet: Packet) -> (r: Result<ParseResult<'_>, Error>) where
        B: BufferTryResize,

        requires
            old(self).wf(),
        ensures
            match after_fragment(old(self).state(), old(self).words(), packet@).2 {
                Some(e) => {
                    &&& final(self).took(*old(self), packet@)
                    &&& r == Err::<ParseResult<'_>, Error>(Error::InvalidData(e))
                },
                None => if old(self).has_room() {
                    &&& final(self).took(*old(self), packet@)
                    &&& r is Ok
                    &&& r->Ok_0.reports(final(self).state(), final(self).words())
                } else {
                    &&& final(self).kept(*old(self))
                    &&& r == Err::<ParseResult<'_>, Error>(Error::overflow())
                },
            },
    {
        let (state, position) = self.start();
        let ghost kept = self.buffer.units().subrange(0, position as int);
        proof {
            self.buffer.lemma_capacity();
        }
        match advance(state, packet.status()) {
            Err(e) => {
                self.index = position;
                self.state = state;
                assert(self.words() =~= kept);
                Err(Error::InvalidData(e))
            },
            Ok(next) => {
                if position > usize::MAX - 2 {
                    return Err(Error::BufferOverflow(BufferOverflow));
                }
                match self.buffer.try_resize(position + 2) {
                    Err(e) => {
                        assert(self.words() =~= old(self).words());
                        Err(Error::BufferOverflow(e))
                    },
                    Ok(()) => {
                        proof {
                            lemma_scan_append(kept, packet@);
                        }
                        assert(self.buffer.units().subrange(0, position as int) =~= kept);
                        self.push(packet, position, next);
                        match next {
                            State::Finished => Ok(ParseResult::Complete(self.parse_buffer())),
                            _ => Ok(ParseResult::Incomplete),
                        }
                    },
                }
            },
        }
    }

    /// Validates `data` as a fragment and takes it as `parse` does. Data
    /// that is no fragment is reported and leaves the parser as it was.
    ///
    /// The buffer must have room for a fragment that is taken; data that
    /// is refused needs none.
    pub fn parse_raw(&mut self, data: &[u32]) -> (r: Result<ParseResult<'_>, InvalidData>) where
        B: BufferResize,

        requires
            old(self).wf(),
            packet_check(data@) is Ok && after_fragment(
                old(self).state(),
                old(self).words(),
                padded(data@, 2),
            ).2 is None ==> old(self).has_room(),
        ensures
            match packet_check(data@) {
                Err(e) => r == Err::<ParseResult<'_>, InvalidData>(e) && final(self).kept(
                    *old(self),
                ),
                Ok(_) => {
                    &&& final(self).took(*old(self), padded(data@, 2))
                    &&& match after_fragment(
                        old(self).state(),
                        old(self).words(),
                        padded(data@, 2),
                    ).2 {
                        Some(e) => r == Err::<ParseResult<'_>, InvalidData>(e),
                        None => r is Ok && r->Ok_0.reports(
                            final(self).state(),
                            final(self).words(),
                        ),
                    }
                },
            },
    {
        match Packet::try_from(data) {
            Ok(packet) => self.parse(packet),
            Err(e) => Err(e),
        }
    }

    /// Validates `data` as a fragment and takes it as `try_parse` does.
    pub fn try_parse_raw(&mut self, data: &[u32]) -> (r: Result<ParseResult<'_>, Error>) where
        B: BufferTryResize,

        requires
            old(self).wf(),
        ensures
            match packet_check(data@) {
                Err(e) => {
                    &&& final(self).kept(*old(self))
                    &&& r == Err::<ParseResult<'_>, Error>(Error::InvalidData(e))
                },
                Ok(_) => match after_fragment(
                    old(self).state(),
                    old(self).words(),
                    padded(data@, 2),
                ).2 {
                    Some(e) => {
                        &&& final(self).took(*old(self), padded(data@, 2))
                        &&& r == Err::<ParseResult<'_>, Error>(Error::InvalidData(e))
                    },
                    None => if old(self).has_room() {
                        &&& final(self).took(*old(self), padded(data@, 2))
                        &&& r is Ok
                        &&& r->Ok_0.reports(final(self).state(), final(self).words())
                    } else {
                        &&& final(self).kept(*old(self))
                        &&& r == Err::<ParseResult<'_>, Error>(Error::overflow())
                    },
                },
            },
    {
        match Packet::try_from(data) {
            Ok(packet) => self.try_parse(packet),
            Err(e) => Err(Error::InvalidData(e)),
        }
    }
}

impl<B: BufferMut<Unit = u32> + BufferDefault> Default for Sysex7Parser<B> {
    fn default() -> (r: Self)
        ensures
            r.wf(),
            r.state() == State::ExpectingStart,
            r.words() == Seq::<u32>::empty(),
            r.capacity() == B::default_capacity(),
    {
        Self::new()
    }
}

/// Where a parser expects a message to start, a `Continue` or an `End`
/// fragment is refused and changes nothing, and a `Start` or a
/// `Complete` fragment is taken right after.
pub proof fn lemma_refused_where_start_expected(
    words: Seq<u32>,
    refused: Seq<u32>,
    fresh: Seq<u32>,
)
    requires
        status_of(refused) is Continue || status_of(refused) is End,
        status_of(fresh) is Start || status_of(fresh) is Complete,
    ensures
        after_fragment(State::ExpectingStart, words, refused) == (
            State::ExpectingStart,
            words,
            Some(InvalidData(ERR_EXPECTED_START_OR_COMPLETE)),
        ),
        after_fragment(State::ExpectingStart, words, fresh).2 is None,
        after_fragment(State::ExpectingStart, words, fresh).1 == words + fresh,
        after_fragment(State::ExpectingStart, words, fresh).0 == if status_of(fresh) is Start {
            State::ExpectingEnd
        } else {
            State::Finished
        },
{
}

/// Where a parser expects a message to go on, a `Start` or a `Complete`
/// fragment is refused and loses nothing of what was gathered: an `End`
/// fragment taken afterwards closes the message with all of it.
pub proof fn lemma_refused_where_end_expected(
    words: Seq<u32>,
    refused: Seq<u32>,
    closing: Seq<u32>,
)
    requires
        status_of(refused) is Start || status_of(refused) is Complete,
        status_of(closing) is End,
    ensures
        after_fragment(State::ExpectingEnd, words, refused) == (
            State::ExpectingEnd,
            words,
            Some(InvalidData(ERR_EXPECTED_CONTINUE_OR_END)),
        ),
        after_fragment(State::ExpectingEnd, words, closing) == (
            State::Finished,
            words + closing,
            None::<InvalidData>,
        ),
{
}

/// After a finished message the next fragment starts afresh: a `Start`
/// fragment is taken and what the parser then holds is that fragment alone.
pub proof fn lemma_fresh_after_finished(words: Seq<u32>, fresh: Seq<u32>)
    requires
        status_of(fresh) is Start,
    ensures
        after_fragment(State::Finished, words, fresh) == (
            State::ExpectingEnd,
            fresh,
            None::<InvalidData>,
        ),
{
    assert(Seq::<u32>::empty() + fresh =~= fresh);
}

/// The state and the words of a parser that started afresh and took the
/// first `n` of `fragments`, and the first fault among them; no
/// fragment after a fault is taken.
pub open spec fn after_fragments(fragments: Seq<Seq<u32>>, n: nat) -> (
    State,
    Seq<u32>,
    Option<InvalidData>,
)
    decreases n,
{
    if n == 0 {
        (State::ExpectingStart, Seq::empty(), None)
    } else {
        let before = after_fragments(fragments, (n - 1) as nat);
        if before.2 is Some {
            before
        } else {
            after_fragment(before.0, before.1, fragments[n - 1])
        }
    }
}

/// The first `n` of `chunks`, joined in order.
pub open spec fn joined(chunks: Seq<Seq<u8>>, n: nat) -> Seq<u8>
    decreases n,
{
    if n == 0 {
        Seq::empty()
    } else {
        joined(chunks, (n - 1) as nat) + chunks[n - 1]
    }
}

/// The status of fragment `i` of a payload that is split into `count` fragments.
pub open spec fn split_status(count: nat, i: int) -> Status {
    if count == 1 {
        Status::Complete
    } else if i == 0 {
        Status::Start
    } else if i == count - 1 {
        Status::End
    } else {
        Status::Continue
    }
}

/// The fragments that carry `chunks`, one chunk each, to `group`.
pub open spec fn split_fragments(group: u8, chunks: Seq<Seq<u8>>) -> Seq<Seq<u32>> {
    Seq::new(
        chunks.len(),
        |i: int| fragment_words(group, split_status(chunks.len(), i), chunks[i]),
    )
}

/// Whether every chunk fits one fragment: at most six bytes of seven bits.
pub open spec fn fits_fragments(chunks: Seq<Seq<u8>>) -> bool {
    forall|i: int|
        0 <= i < chunks.len() ==> (#[trigger] chunks[i]).len() <= MAX_PAYLOAD && forall|j: int|
            0 <= j < chunks[i].len() ==> chunks[i][j] < 128
}

/// Where a parser stands after the first `n` fragments of a split payload.
proof fn lemma_split_prefix(group: u8, chunks: Seq<Seq<u8>>, n: nat)
    requires
        group <= 0xF,
        fits_fragments(chunks),
        n <= chunks.len(),
    ensures
        after_fragments(split_fragments(group, chunks), n).2 is None,
        after_fragments(split_fragments(group, chunks), n).1.len() == 2 * n,
        scan(after_fragments(split_fragments(group, chunks), n).1, n) == Ok::<State, Error>(
            after_fragments(split_fragments(group, chunks), n).0,
        ),
        after_fragments(split_fragments(group, chunks), n).0 == if n == 0 {
            State::ExpectingStart
        } else if n < chunks.len() {
            State::ExpectingEnd
        } else {
            State::Finished
        },
        message_payload(after_fragments(split_fragments(group, chunks), n).1) == joined(chunks, n),
    decreases n,
{
    let fragments = split_fragments(group, chunks);
    if n == 0 {
        assert(message_payload(Seq::<u32>::empty()) =~= Seq::<u8>::empty());
    } else {
        let m = (n - 1) as nat;
        lemma_split_prefix(group, chunks, m);
        let before = after_fragments(fragments, m);
        let fragment = fragments[n - 1];
        let status = split_status(chunks.len(), n - 1);
        assert(chunks[n - 1].len() <= MAX_PAYLOAD);
        lemma_fragment_round_trip(group, status, chunks[n - 1]);
        assert(before.1.len() % 2 == 0) by (nonlinear_arith)
            requires
                before.1.len() == 2 * m,
        ;
        assert(before.1.len() / 2 == m) by (nonlinear_arith)
            requires
                before.1.len() == 2 * m,
        ;
        lemma_scan_append(before.1, fragment);
        lemma_payload_append(before.1, fragment);
    }
}

/// A payload that is split into two or more fragments, `Start` first,
/// `End` last and `Continue` between, is reassembled: a parser that
/// starts afresh reports no fault, leaves the message open after every
/// fragment but the last, and holds after the last a finished message
/// whose payload is the chunks in the order of delivery, that is the
/// payload before the split. A payload in a single `Complete` fragment
/// is the case of one chunk.
pub proof fn lemma_split_payload_reassembles(group: u8, chunks: Seq<Seq<u8>>)
    requires
        group <= 0xF,
        chunks.len() >= 1,
        fits_fragments(chunks),
    ensures
        forall|n: nat|
            1 <= n < chunks.len() ==> (#[trigger] after_fragments(
                split_fragments(group, chunks),
                n,
            )) == (
                State::ExpectingEnd,
                after_fragments(split_fragments(group, chunks), n).1,
                None::<InvalidData>,
            ),
        after_fragments(split_fragments(group, chunks), chunks.len()).0 == State::Finished,
        after_fragments(split_fragments(group, chunks), chunks.len()).2 is None,
        is_message(after_fragments(split_fragments(group, chunks), chunks.len()).1),
        message_payload(after_fragments(split_fragments(group, chunks), chunks.len()).1) == joined(
            chunks,
            chunks.len(),
        ),
{
    let fragments = split_fragments(group, chunks);
    assert forall|n: nat| 1 <= n < chunks.len() implies (#[trigger] after_fragments(fragments, n))
        == (State::ExpectingEnd, after_fragments(fragments, n).1, None::<InvalidData>) by {
        lemma_split_prefix(group, chunks, n);
    }
    lemma_split_prefix(group, chunks, chunks.len());
    let words = after_fragments(fragments, chunks.len()).1;
    assert(words.len() % 2 == 0 && words.len() / 2 == chunks.len()) by (nonlinear_arith)
        requires
            words.len() == 2 * chunks.len(),
    ;
}

} // verus!
