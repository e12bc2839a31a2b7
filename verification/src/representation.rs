//! Which encoding a type that is generic in its buffer is written for.
//!
//! Code that is generated for a message type needs to know whether the
//! type's buffer parameter is bound to the packet stream, to the byte
//! stream, or to any buffer. The bounds of each type parameter decide it.

use vstd::prelude::*;

verus! {

/// The encoding or encodings of a buffer.
#[derive(Clone, Copy, Debug, PartialEq, Eq, Structural)]
pub enum Representation {
    /// The packet stream.
    Ump,
    /// The byte stream.
    Bytes,
    /// Either of the two.
    UmpOrBytes,
}

/// What a trait bound says of a buffer.
#[derive(Clone, Copy, Debug, PartialEq, Eq, Structural)]
pub enum BoundKind {
    /// The bound names the packet stream.
    Ump,
    /// The bound names the byte stream.
    Bytes,
    /// The bound names any buffer.
    Buffer,
    /// The bound says nothing of buffers.
    Other,
}

/// Whether `kind` is among `bounds`.
pub open spec fn has_bound(bounds: Seq<BoundKind>, kind: BoundKind) -> bool {
    exists|i: int| 0 <= i < bounds.len() && bounds[i] == kind
}

/// The encoding that the bounds of one type parameter stand for: the
/// packet stream before the byte stream before any buffer.
pub open spec fn representation_of(bounds: Seq<BoundKind>) -> Option<Representation> {
    if has_bound(bounds, BoundKind::Ump) {
        Some(Representation::Ump)
    } else if has_bound(bounds, BoundKind::Bytes) {
        Some(Representation::Bytes)
    } else if has_bound(bounds, BoundKind::Buffer) {
        Some(Representation::UmpOrBytes)
    } else {
        None
    }
}

/// The bounds of each of `params`, as sequences.
pub open spec fn bounds_of(params: Seq<Vec<BoundKind>>) -> Seq<Seq<BoundKind>> {
    params.map_values(|bounds: Vec<BoundKind>| bounds@)
}

/// The first type parameter among the first `n` that is bound as a
/// buffer, with its encoding.
pub open spec fn first_buffer(params: Seq<Seq<BoundKind>>, n: nat) -> Option<
    (usize, Representation),
>
    decreases n,
{
    if n == 0 {
        None
    } else {
        match first_buffer(params, (n - 1) as nat) {
            Some(found) => Some(found),
            None => match representation_of(params[n - 1]) {
                Some(r) => Some(((n - 1) as usize, r)),
                None => None,
            },
        }
    }
}

fn contains(bounds: &Vec<BoundKind>, kind: BoundKind) -> (r: bool)
    ensures
        r == has_bound(bounds@, kind),
{
    let mut i: usize = 0;
    while i < bounds.len()
        invariant
            i <= bounds@.len(),
            forall|j: int| 0 <= j < i ==> bounds@[j] != kind,
        decreases bounds@.len() - i,
    {
        if bounds[i] == kind {
            return true;
        }
        i += 1;
    }
    false
}

/// The encoding that `bounds` stand for, if they name a buffer at all.
pub fn representation(bounds: &Vec<BoundKind>) -> (r: Option<Representation>)
    ensures
        r == representation_of(bounds@),
{
    if contains(bounds, BoundKind::Ump) {
        Some(Representation::Ump)
    } else if contains(bounds, BoundKind::Bytes) {
        Some(Representation::Bytes)
    } else if contains(bounds, BoundKind::Buffer) {
        Some(Representation::UmpOrBytes)
    } else {
        None
    }
}

/// The first of the type parameters that is bound as a buffer, by its
/// position, and the encoding it is bound to. `params` holds the bounds
/// of each type parameter, in the order of declaration.
pub fn buffer_generic(params: &Vec<Vec<BoundKind>>) -> (r: Option<(usize, Representation)>)
    ensures
        r == first_buffer(bounds_of(params@), params@.len()),
{
    let mut i: usize = 0;
    while i < params.len()
        invariant
            i <= params@.len(),
            first_buffer(bounds_of(params@), i as nat) is None,
        decreases params@.len() - i,
    {
        match representation(&params[i]) {
            Some(found) => {
                proof {
                    lemma_first_buffer_stays(bounds_of(params@), (i + 1) as nat, params@.len());
                }
                return Some((i, found));
            },
            None => {},
        }
        i += 1;
    }
    None
}

/// Once a buffer parameter is found, later parameters do not matter.
pub proof fn lemma_first_buffer_stays(params: Seq<Seq<BoundKind>>, n: nat, m: nat)
    requires
        first_buffer(params, n) is Some,
        n <= m,
    ensures
        first_buffer(params, m) == first_buffer(params, n),
    decreases m,
{
    if n < m {
        lemma_first_buffer_stays(params, n, (m - 1) as nat);
    }
}

} // verus!
