//! What the owned packets of every family share.
//!
//! An owned packet is a fixed number of words. It is made from a slice
//! that is not empty and carries the family's message type in the first
//! nibble of its first word: the packet takes as many words as it has
//! room for, ignores the rest, and is zero where the slice is short.

use crate::detail::bit_ops::{nibble_of, BitOps};
use crate::detail::common_err_strings::{ERR_INCORRECT_UMP_MESSAGE_TYPE, ERR_SLICE_TOO_SHORT};
use crate::error::InvalidData;
use vstd::prelude::*;

verus! {

/// The first `size` words of `data`, with zeros where `data` is shorter.
pub open spec fn padded(data: Seq<u32>, size: nat) -> Seq<u32> {
    Seq::new(
        size,
        |i: int|
            if i < data.len() {
                data[i]
            } else {
                0u32
            },
    )
}

/// What checking `data` against a family's message type reports.
pub open spec fn type_check(data: Seq<u32>, type_code: u8) -> Result<(), InvalidData> {
    if data.len() == 0 {
        Err(InvalidData(ERR_SLICE_TOO_SHORT))
    } else if nibble_of(data[0], 0) != type_code {
        Err(InvalidData(ERR_INCORRECT_UMP_MESSAGE_TYPE))
    } else {
        Ok(())
    }
}

/// Checks that `data` is not empty and carries the message type.
pub fn validate_type(data: &[u32], type_code: u8) -> (r: Result<(), InvalidData>)
    ensures
        r == type_check(data@, type_code),
{
    if data.len() == 0 {
        return Err(InvalidData(ERR_SLICE_TOO_SHORT));
    }
    if data[0].nibble(0).value() != type_code {
        return Err(InvalidData(ERR_INCORRECT_UMP_MESSAGE_TYPE));
    }
    Ok(())
}

/// The first `N` words of `data`, with zeros where `data` is shorter.
pub fn copy_padded<const N: usize>(data: &[u32]) -> (r: [u32; N])
    ensures
        r@ == padded(data@, N as nat),
{
    let mut buffer = [0u32;N];
    let size = if data.len() < N {
        data.len()
    } else {
        N
    };
    let mut i: usize = 0;
    while i < size
        invariant
            i <= size,
            size <= N,
            size <= data@.len(),
            size == data@.len() || size == N,
            buffer@.len() == N,
            forall|j: int| 0 <= j < i ==> buffer@[j] == data@[j],
            forall|j: int| i <= j < N ==> buffer@[j] == 0u32,
        decreases size - i,
    {
        buffer[i] = data[i];
        i += 1;
    }
    assert(buffer@ =~= padded(data@, N as nat));
    buffer
}

} // verus!
