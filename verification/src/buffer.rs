//! Storage for messages, and what a storage can do.
//!
//! A buffer is a contiguous sequence of units, where a unit is either a
//! byte (the legacy stream) or a 32-bit word (the packet stream). Lengths
//! and capacities are always counted in units. Beyond being readable a
//! buffer may be writable, constructible by default, resizable within a
//! capacity that the caller must respect, or resizable with an error in
//! place of growth beyond its capacity.

use crate::error::BufferOverflow;
use vstd::prelude::*;

verus! {

/// Which of the two storage atoms a unit is.
#[derive(Clone, Copy, Debug, PartialEq, Eq, Structural)]
pub enum UnitId {
    /// An 8-bit byte.
    U8,
    /// A 32-bit word.
    U32,
}

/// A storage atom: a byte or a word.
pub trait Unit: Copy + Sized {
    /// The atom's zero value.
    spec fn spec_zero() -> Self;

    /// The atom's identity.
    spec fn spec_unit_id() -> UnitId;

    /// The atom's zero value.
    fn zero() -> (z: Self)
        ensures
            z == Self::spec_zero(),
    ;

    /// The atom's identity, by which generic code can branch.
    fn unit_id() -> (id: UnitId)
        ensures
            id == Self::spec_unit_id(),
    ;
}

impl Unit for u8 {
    open spec fn spec_zero() -> u8 {
        0u8
    }

    open spec fn spec_unit_id() -> UnitId {
        UnitId::U8
    }

    fn zero() -> (z: u8) {
        0u8
    }

    fn unit_id() -> (id: UnitId) {
        UnitId::U8
    }
}

impl Unit for u32 {
    open spec fn spec_zero() -> u32 {
        0u32
    }

    open spec fn spec_unit_id() -> UnitId {
        UnitId::U32
    }

    fn zero() -> (z: u32) {
        0u32
    }

    fn unit_id() -> (id: UnitId) {
        UnitId::U32
    }
}

/// What a resize to `size` units leaves of `before` in `after`: the units
/// that `size` keeps are unchanged and the units that it adds are zero.
pub open spec fn resized<U: Unit>(before: Seq<U>, after: Seq<U>, size: nat) -> bool {
    &&& after.len() >= size
    &&& forall|i: int| 0 <= i < size && i < before.len() ==> #[trigger] after[i] == before[i]
    &&& forall|i: int| before.len() <= i < size ==> #[trigger] after[i] == U::spec_zero()
}

/// A readable sequence of units.
pub trait Buffer {
    /// The atom the buffer is made of.
    type Unit: Unit;

    /// The units held, in order.
    spec fn units(&self) -> Seq<Self::Unit>;

    /// The greatest length, in units, that the storage can take.
    spec fn capacity(&self) -> nat;

    /// The units held, in order.
    fn buffer(&self) -> (r: &[Self::Unit])
        ensures
            r@ == self.units(),
    ;

    /// The units held never exceed the capacity, and the capacity fits the machine.
    proof fn lemma_capacity(&self)
        ensures
            self.units().len() <= self.capacity() <= usize::MAX,
    ;
}

/// A buffer whose units can be overwritten in place.
pub trait BufferMut: Buffer {
    /// The units held, for writing. What the caller leaves in the slice is
    /// what the buffer then holds; writes that keep the length keep the capacity.
    fn buffer_mut(&mut self) -> (r: &mut [Self::Unit])
        ensures
            r@ == old(self).units(),
            final(self).units() == final(r)@,
            final(r)@.len() == r@.len() ==> final(self).capacity() == old(self).capacity(),
    ;
}

/// A buffer that can be made from nothing; every unit it then holds is zero.
pub trait BufferDefault: Buffer + Sized {
    /// The number of units that a buffer made from nothing holds.
    spec fn default_len() -> nat;

    /// The capacity of a buffer made from nothing.
    spec fn default_capacity() -> nat;

    /// A buffer made from nothing.
    fn default() -> (r: Self)
        ensures
            r.units().len() == Self::default_len(),
            r.capacity() == Self::default_capacity(),
            forall|i: int|
                0 <= i < r.units().len() ==> #[trigger] r.units()[i] == Self::Unit::spec_zero(),
    ;
}

/// A buffer that can be resized within its capacity.
pub trait BufferResize: Buffer {
    /// Makes room for at least `size` units. The caller answers for the capacity.
    fn resize(&mut self, size: usize)
        requires
            size <= old(self).capacity(),
        ensures
            resized(old(self).units(), final(self).units(), size as nat),
            final(self).capacity() == old(self).capacity(),
    ;
}

/// A buffer that can be resized and reports, without changing, a size beyond its capacity.
pub trait BufferTryResize: Buffer {
    /// Makes room for at least `size` units, or fails and leaves the buffer as it was.
    fn try_resize(&mut self, size: usize) -> (r: Result<(), BufferOverflow>)
        ensures
            r is Ok <==> size <= old(self).capacity(),
            r is Ok ==> resized(old(self).units(), final(self).units(), size as nat),
            r is Err ==> final(self).units() == old(self).units(),
            final(self).capacity() == old(self).capacity(),
    ;
}

/// Brings `vec` to exactly `size` units, keeping what fits and adding zeros.
fn resize_vec<U: Unit>(vec: &mut Vec<U>, size: usize)
    ensures
        final(vec)@.len() == size,
        resized(old(vec)@, final(vec)@, size as nat),
{
    let ghost before = vec@;
    if size <= vec.len() {
        vec.truncate(size);
    } else {
        while vec.len() < size
            invariant
                before.len() <= vec@.len() <= size,
                forall|i: int| 0 <= i < before.len() ==> #[trigger] vec@[i] == before[i],
                forall|i: int|
                    before.len() <= i < vec@.len() ==> #[trigger] vec@[i] == U::spec_zero(),
            decreases size - vec@.len(),
        {
            vec.push(U::zero());
        }
    }
}

impl<U: Unit> Buffer for Vec<U> {
    type Unit = U;

    open spec fn units(&self) -> Seq<U> {
        self@
    }

    open spec fn capacity(&self) -> nat {
        usize::MAX as nat
    }

    fn buffer(&self) -> (r: &[U]) {
        self.as_slice()
    }

    proof fn lemma_capacity(&self) {
        assert(self@.len() == self.len());
    }
}

impl<U: Unit> BufferMut for Vec<U> {
    fn buffer_mut(&mut self) -> (r: &mut [U]) {
        self.as_mut_slice()
    }
}

impl<U: Unit> BufferDefault for Vec<U> {
    open spec fn default_len() -> nat {
        0
    }

    open spec fn default_capacity() -> nat {
        usize::MAX as nat
    }

    /// An empty vector.
    fn default() -> (r: Vec<U>) {
        Vec::new()
    }
}

impl<U: Unit> BufferResize for Vec<U> {
    /// Brings the vector to exactly `size` units.
    fn resize(&mut self, size: usize)
        ensures
            final(self)@.len() == size,
    {
        resize_vec(self, size);
    }
}

impl<U: Unit> BufferTryResize for Vec<U> {
    /// Brings the vector to exactly `size` units; a vector takes any size.
    fn try_resize(&mut self, size: usize) -> (r: Result<(), BufferOverflow>)
        ensures
            r is Ok,
            final(self)@.len() == size,
    {
        resize_vec(self, size);
        Ok(())
    }
}

impl<U: Unit, const N: usize> Buffer for [U; N] {
    type Unit = U;

    open spec fn units(&self) -> Seq<U> {
        self@
    }

    open spec fn capacity(&self) -> nat {
        N as nat
    }

    fn buffer(&self) -> (r: &[U]) {
        self.as_slice()
    }

    proof fn lemma_capacity(&self) {
    }
}

impl<U: Unit, const N: usize> BufferMut for [U; N] {
    fn buffer_mut(&mut self) -> (r: &mut [U]) {
        self
    }
}

impl<U: Unit, const N: usize> BufferDefault for [U; N] {
    open spec fn default_len() -> nat {
        N as nat
    }

    open spec fn default_capacity() -> nat {
        N as nat
    }

    /// An array of zeros.
    fn default() -> (r: [U; N]) {
        [U::zero(); N]
    }
}

impl<U: Unit, const N: usize> BufferResize for [U; N] {
    /// An array has room for any size up to its length and does not change.
    fn resize(&mut self, size: usize)
        ensures
            *final(self) == *old(self),
    {
    }
}

impl<U: Unit, const N: usize> BufferTryResize for [U; N] {
    /// An array has room for any size up to its length and does not change.
    fn try_resize(&mut self, size: usize) -> (r: Result<(), BufferOverflow>)
        ensures
            *final(self) == *old(self),
    {
        if size > N {
            Err(BufferOverflow)
        } else {
            Ok(())
        }
    }
}

impl<'a, U: Unit> Buffer for &'a [U] {
    type Unit = U;

    open spec fn units(&self) -> Seq<U> {
        self@
    }

    open spec fn capacity(&self) -> nat {
        self@.len()
    }

    fn buffer(&self) -> (r: &[U]) {
        *self
    }

    proof fn lemma_capacity(&self) {
        assert(self@.len() == self.len());
    }
}

impl<'a, U: Unit> Buffer for &'a mut [U] {
    type Unit = U;

    open spec fn units(&self) -> Seq<U> {
        self@
    }

    open spec fn capacity(&self) -> nat {
        self@.len()
    }

    fn buffer(&self) -> (r: &[U]) {
        &**self
    }

    proof fn lemma_capacity(&self) {
        assert(self@.len() == self.len());
    }
}

impl<'a, U: Unit> BufferMut for &'a mut [U] {
    fn buffer_mut(&mut self) -> (r: &mut [U]) {
        &mut **self
    }
}

impl<'a, U: Unit> BufferTryResize for &'a mut [U] {
    /// A region has room for any size up to its length and does not change.
    fn try_resize(&mut self, size: usize) -> (r: Result<(), BufferOverflow>)
        ensures
            final(self)@ == old(self)@,
    {
        if size > self.len() {
            Err(BufferOverflow)
        } else {
            Ok(())
        }
    }
}

} // verus!
