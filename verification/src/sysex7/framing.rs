//! The framing grammar of a logical message and the payload it carries.
//!
//! Fragments arrive in order. A message is one `Complete` fragment, or a
//! `Start` fragment, any number of `Continue` fragments and an `End`
//! fragment. Anything else is a fault.

use crate::detail::common_err_strings::{
    ERR_DATA_AFTER_END, ERR_EXPECTED_CONTINUE_OR_END, ERR_EXPECTED_START_OR_COMPLETE,
    ERR_SLICE_TOO_SHORT,
};
use crate::error::{Error, InvalidData};
use crate::message::system_exclusive_7bit::{
    fragment_check, is_fragment, payload_of, status_of, Status,
};
use vstd::prelude::*;

verus! {

/// Where a reader of fragments stands in the grammar.
#[derive(Clone, Copy, Debug, PartialEq, Eq, Structural)]
pub enum State {
    /// No message is open: the next fragment must open or be one.
    ExpectingStart,
    /// A message is open: the next fragment must continue or close it.
    ExpectingEnd,
    /// The last fragment closed a message.
    Finished,
}

/// Where a reader that expects a start or an end stands after a fragment
/// of the given status, or the fault that the fragment is.
pub open spec fn step(state: State, status: Status) -> Result<State, InvalidData> {
    match state {
        State::ExpectingEnd => match status {
            Status::Continue => Ok(State::ExpectingEnd),
            Status::End => Ok(State::Finished),
            _ => Err(InvalidData(ERR_EXPECTED_CONTINUE_OR_END)),
        },
        _ => match status {
            Status::Complete => Ok(State::Finished),
            Status::Start => Ok(State::ExpectingEnd),
            _ => Err(InvalidData(ERR_EXPECTED_START_OR_COMPLETE)),
        },
    }
}

/// Where a reader stands after a fragment of the given status, or the fault.
pub fn advance(state: State, status: Status) -> (r: Result<State, InvalidData>)
    ensures
        r == step(state, status),
{
    match state {
        State::ExpectingEnd => match status {
            Status::Continue => Ok(State::ExpectingEnd),
            Status::End => Ok(State::Finished),
            _ => Err(InvalidData(ERR_EXPECTED_CONTINUE_OR_END)),
        },
        _ => match status {
            Status::Complete => Ok(State::Finished),
            Status::Start => Ok(State::ExpectingEnd),
            _ => Err(InvalidData(ERR_EXPECTED_START_OR_COMPLETE)),
        },
    }
}

/// The two words of fragment `k` of `words`.
pub open spec fn fragment_at(words: Seq<u32>, k: int) -> Seq<u32> {
    words.subrange(2 * k, 2 * k + 2)
}

/// Where a reader that starts afresh stands after the first `n`
/// fragments of `words`, or the first fault among them. Within one
/// message nothing may follow the fragment that closes it.
pub open spec fn scan(words: Seq<u32>, n: nat) -> Result<State, Error>
    decreases n,
{
    if n == 0 {
        Ok(State::ExpectingStart)
    } else {
        match scan(words, (n - 1) as nat) {
            Err(e) => Err(e),
            Ok(State::Finished) => Err(Error::invalid(ERR_DATA_AFTER_END)),
            Ok(state) => match fragment_check(fragment_at(words, n - 1)) {
                Err(e) => Err(e),
                Ok(_) => match step(state, status_of(fragment_at(words, n - 1))) {
                    Ok(next) => Ok(next),
                    Err(e) => Err(Error::InvalidData(e)),
                },
            },
        }
    }
}

/// What validating `words` as one logical message reports.
pub open spec fn message_check(words: Seq<u32>) -> Result<(), Error> {
    if words.len() == 0 || words.len() % 2 != 0 {
        Err(Error::invalid(ERR_SLICE_TOO_SHORT))
    } else {
        match scan(words, words.len() / 2) {
            Err(e) => Err(e),
            Ok(State::Finished) => Ok(()),
            Ok(_) => Err(Error::invalid(ERR_EXPECTED_CONTINUE_OR_END)),
        }
    }
}

/// Whether `words` are one logical message.
pub open spec fn is_message(words: Seq<u32>) -> bool {
    message_check(words) is Ok
}

/// The payloads of the fragments of `words`, in order, as one payload.
pub open spec fn message_payload(words: Seq<u32>) -> Seq<u8>
    decreases words.len(),
{
    if words.len() < 2 {
        Seq::empty()
    } else {
        message_payload(words.subrange(0, words.len() - 2)) + payload_of(
            words.subrange(words.len() - 2, words.len() as int),
        )
    }
}

/// The first `n` fragments alone decide what a scan of them reports.
pub proof fn lemma_scan_prefix(a: Seq<u32>, b: Seq<u32>, n: nat)
    requires
        2 * n <= a.len(),
        2 * n <= b.len(),
        a.subrange(0, 2 * n as int) == b.subrange(0, 2 * n as int),
    ensures
        scan(a, n) == scan(b, n),
    decreases n,
{
    if n > 0 {
        let m = (n - 1) as nat;
        let head_a = a.subrange(0, 2 * n as int);
        let head_b = b.subrange(0, 2 * n as int);
        assert(a.subrange(0, 2 * m as int) =~= head_a.subrange(0, 2 * m as int));
        assert(b.subrange(0, 2 * m as int) =~= head_b.subrange(0, 2 * m as int));
        lemma_scan_prefix(a, b, m);
        assert(fragment_at(a, n - 1) =~= head_a.subrange(2 * m as int, 2 * m as int + 2));
        assert(fragment_at(b, n - 1) =~= head_b.subrange(2 * m as int, 2 * m as int + 2));
    }
}

/// What a scan reports once one more fragment is appended.
pub proof fn lemma_scan_append(words: Seq<u32>, fragment: Seq<u32>)
    requires
        words.len() % 2 == 0,
        fragment.len() == 2,
    ensures
        scan(words + fragment, (words.len() / 2 + 1) as nat) == match scan(
            words,
            words.len() / 2,
        ) {
            Err(e) => Err(e),
            Ok(State::Finished) => Err(Error::invalid(ERR_DATA_AFTER_END)),
            Ok(state) => match fragment_check(fragment) {
                Err(e) => Err(e),
                Ok(_) => match step(state, status_of(fragment)) {
                    Ok(next) => Ok(next),
                    Err(e) => Err(Error::InvalidData(e)),
                },
            },
        },
{
    let n = words.len() / 2;
    let all = words + fragment;
    assert(all.subrange(0, 2 * n as int) =~= words.subrange(0, 2 * n as int));
    lemma_scan_prefix(all, words, n);
    assert(fragment_at(all, n as int) =~= fragment);
}

/// Every fragment that a scan passed without fault is well formed.
pub proof fn lemma_scan_fragments(words: Seq<u32>, n: nat, k: int)
    requires
        scan(words, n) is Ok,
        0 <= k < n,
    ensures
        is_fragment(fragment_at(words, k)),
        scan(words, (k + 1) as nat) is Ok,
    decreases n,
{
    if k < n - 1 {
        lemma_scan_fragments(words, (n - 1) as nat, k);
    }
}

/// Appending a fragment appends its payload.
pub proof fn lemma_payload_append(words: Seq<u32>, fragment: Seq<u32>)
    requires
        fragment.len() == 2,
    ensures
        message_payload(words + fragment) == message_payload(words) + payload_of(fragment),
{
    let all = words + fragment;
    assert(all.subrange(0, all.len() - 2) =~= words);
    assert(all.subrange(all.len() - 2, all.len() as int) =~= fragment);
}

/// Once a scan has met a fault, it reports that fault however far it goes.
pub proof fn lemma_scan_fault_stays(words: Seq<u32>, n: nat, m: nat)
    requires
        scan(words, n) is Err,
        n <= m,
    ensures
        scan(words, m) == scan(words, n),
    decreases m,
{
    if n < m {
        lemma_scan_fault_stays(words, n, (m - 1) as nat);
    }
}

/// A scan that ends in `Finished` cannot be carried on.
pub proof fn lemma_scan_finished_is_last(words: Seq<u32>, n: nat, m: nat)
    requires
        scan(words, n) == Ok::<State, Error>(State::Finished),
        n < m,
    ensures
        scan(words, m) == Err::<State, Error>(Error::invalid(ERR_DATA_AFTER_END)),
    decreases m,
{
    if n + 1 < m {
        lemma_scan_finished_is_last(words, n, (m - 1) as nat);
    }
}

} // verus!
