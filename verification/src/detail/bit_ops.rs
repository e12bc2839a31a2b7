//! Reading and writing sub-word fields of a 32-bit word.
//!
//! A word holds eight nibbles (4 bits), sixteen crumbs (2 bits) or four
//! octets (8 bits). Position 0 is the most significant field of its width.
//! A write replaces the target field and leaves every other bit as it was.

use crate::numeric_types::{U2, U4};
use vstd::prelude::*;

verus! {

/// How far the nibble at `index` sits above bit 0.
pub open spec fn nibble_shift(index: usize) -> u32 {
    (28 - 4 * index) as u32
}

/// How far the crumb at `index` sits above bit 0.
pub open spec fn crumb_shift(index: usize) -> u32 {
    (30 - 2 * index) as u32
}

/// How far the octet at `index` sits above bit 0.
pub open spec fn octet_shift(index: usize) -> u32 {
    (24 - 8 * index) as u32
}

/// The field of `word` that `mask`, moved up by `shift`, selects.
pub open spec fn field_of(word: u32, shift: u32, mask: u32) -> u32 {
    (word >> shift) & mask
}

/// `word` with the field that `mask`, moved up by `shift`, selects replaced by `value`.
pub open spec fn with_field(word: u32, shift: u32, mask: u32, value: u32) -> u32 {
    (word & !(mask << shift)) | (value << shift)
}

/// The nibble of `word` at `index`.
pub open spec fn nibble_of(word: u32, index: usize) -> u8 {
    field_of(word, nibble_shift(index), 0xF) as u8
}

/// The crumb of `word` at `index`.
pub open spec fn crumb_of(word: u32, index: usize) -> u8 {
    field_of(word, crumb_shift(index), 0x3) as u8
}

/// The octet of `word` at `index`.
pub open spec fn octet_of(word: u32, index: usize) -> u8 {
    field_of(word, octet_shift(index), 0xFF) as u8
}

/// `word` with the nibble at `index` replaced by `value`.
pub open spec fn with_nibble(word: u32, index: usize, value: u8) -> u32 {
    with_field(word, nibble_shift(index), 0xF, value as u32)
}

/// `word` with the crumb at `index` replaced by `value`.
pub open spec fn with_crumb(word: u32, index: usize, value: u8) -> u32 {
    with_field(word, crumb_shift(index), 0x3, value as u32)
}

/// `word` with the octet at `index` replaced by `value`.
pub open spec fn with_octet(word: u32, index: usize, value: u8) -> u32 {
    with_field(word, octet_shift(index), 0xFF, value as u32)
}

/// A mask of the low two, four or eight bits, with the number of bits it covers.
pub open spec fn is_field(mask: u32, width: u32) -> bool {
    (mask == 0x3 && width == 2) || (mask == 0xF && width == 4) || (mask == 0xFF && width == 8)
}

/// A field read always fits its mask.
pub proof fn lemma_field_in_range(word: u32, shift: u32, mask: u32)
    by (bit_vector)
    ensures
        field_of(word, shift, mask) <= mask,
{
}

/// A field that was just written reads back as the value written, and the
/// bits outside the field are those of the word before the write.
pub proof fn lemma_field_write_then_read(word: u32, shift: u32, mask: u32, width: u32, value: u32)
    by (bit_vector)
    requires
        is_field(mask, width),
        shift + width <= 32,
        value <= mask,
    ensures
        field_of(with_field(word, shift, mask, value), shift, mask) == value,
        with_field(word, shift, mask, value) & !(mask << shift) == word & !(mask << shift),
{
}

/// Writing one field leaves a field that shares no bit with it unchanged.
pub proof fn lemma_field_write_keeps_disjoint(
    word: u32,
    shift: u32,
    mask: u32,
    width: u32,
    value: u32,
    other_shift: u32,
    other_mask: u32,
    other_width: u32,
)
    by (bit_vector)
    requires
        is_field(mask, width),
        is_field(other_mask, other_width),
        shift + width <= 32,
        other_shift + other_width <= 32,
        shift + width <= other_shift || other_shift + other_width <= shift,
        value <= mask,
    ensures
        field_of(with_field(word, shift, mask, value), other_shift, other_mask) == field_of(
            word,
            other_shift,
            other_mask,
        ),
{
}

/// The nibble written at `index` reads back, and every other nibble keeps its value.
pub proof fn lemma_with_nibble(word: u32, index: usize, value: u8, other: usize)
    requires
        index < 8,
        other < 8,
        value <= 0xF,
    ensures
        nibble_of(with_nibble(word, index, value), index) == value,
        other != index ==> nibble_of(with_nibble(word, index, value), other) == nibble_of(
            word,
            other,
        ),
{
    lemma_field_write_then_read(word, nibble_shift(index), 0xF, 4, value as u32);
    if other != index {
        lemma_field_write_keeps_disjoint(
            word,
            nibble_shift(index),
            0xF,
            4,
            value as u32,
            nibble_shift(other),
            0xF,
            4,
        );
    }
}

/// Writing a nibble leaves every bit outside that nibble as it was.
pub proof fn lemma_with_nibble_keeps_other_bits(word: u32, index: usize, value: u8)
    requires
        index < 8,
        value <= 0xF,
    ensures
        with_nibble(word, index, value) & !(0xFu32 << nibble_shift(index)) == word & !(0xFu32
            << nibble_shift(index)),
{
    lemma_field_write_then_read(word, nibble_shift(index), 0xF, 4, value as u32);
}

/// The crumb written at `index` reads back, and every other crumb keeps its value.
pub proof fn lemma_with_crumb(word: u32, index: usize, value: u8, other: usize)
    requires
        index < 16,
        other < 16,
        value <= 0x3,
    ensures
        crumb_of(with_crumb(word, index, value), index) == value,
        other != index ==> crumb_of(with_crumb(word, index, value), other) == crumb_of(
            word,
            other,
        ),
{
    lemma_field_write_then_read(word, crumb_shift(index), 0x3, 2, value as u32);
    if other != index {
        lemma_field_write_keeps_disjoint(
            word,
            crumb_shift(index),
            0x3,
            2,
            value as u32,
            crumb_shift(other),
            0x3,
            2,
        );
    }
}

/// The octet written at `index` reads back, and every other octet keeps its value.
pub proof fn lemma_with_octet(word: u32, index: usize, value: u8, other: usize)
    requires
        index < 4,
        other < 4,
    ensures
        octet_of(with_octet(word, index, value), index) == value,
        other != index ==> octet_of(with_octet(word, index, value), other) == octet_of(
            word,
            other,
        ),
{
    lemma_field_write_then_read(word, octet_shift(index), 0xFF, 8, value as u32);
    if other != index {
        lemma_field_write_keeps_disjoint(
            word,
            octet_shift(index),
            0xFF,
            8,
            value as u32,
            octet_shift(other),
            0xFF,
            8,
        );
    }
}

/// Writing a nibble leaves every octet that does not contain it unchanged.
pub proof fn lemma_with_nibble_keeps_octet(word: u32, index: usize, value: u8, octet: usize)
    requires
        index < 8,
        octet < 4,
        value <= 0xF,
        index / 2 != octet,
    ensures
        octet_of(with_nibble(word, index, value), octet) == octet_of(word, octet),
{
    lemma_field_write_keeps_disjoint(
        word,
        nibble_shift(index),
        0xF,
        4,
        value as u32,
        octet_shift(octet),
        0xFF,
        8,
    );
}

/// Writing an octet leaves every nibble outside it unchanged.
pub proof fn lemma_with_octet_keeps_nibble(word: u32, index: usize, value: u8, nibble: usize)
    requires
        index < 4,
        nibble < 8,
        nibble / 2 != index,
    ensures
        nibble_of(with_octet(word, index, value), nibble) == nibble_of(word, nibble),
{
    lemma_field_write_keeps_disjoint(
        word,
        octet_shift(index),
        0xFF,
        8,
        value as u32,
        nibble_shift(nibble),
        0xF,
        4,
    );
}

/// Field access on a storage word.
pub trait BitOps: Sized {
    /// The word as a plain 32-bit value.
    spec fn word(&self) -> u32;

    /// Reads the nibble at `index`.
    fn nibble(&self, index: usize) -> (r: U4)
        requires
            index < 8,
        ensures
            r@ == nibble_of(self.word(), index),
    ;

    /// Replaces the nibble at `index` by `value` and nothing else.
    fn set_nibble(&mut self, index: usize, value: U4)
        requires
            index < 8,
        ensures
            final(self).word() == with_nibble(old(self).word(), index, value@),
            nibble_of(final(self).word(), index) == value@,
            forall|other: usize|
                other < 8 && other != index ==> #[trigger] nibble_of(final(self).word(), other)
                    == nibble_of(old(self).word(), other),
    ;

    /// Reads the crumb at `index`.
    fn crumb(&self, index: usize) -> (r: U2)
        requires
            index < 16,
        ensures
            r@ == crumb_of(self.word(), index),
    ;

    /// Replaces the crumb at `index` by `value` and nothing else.
    fn set_crumb(&mut self, index: usize, value: U2)
        requires
            index < 16,
        ensures
            final(self).word() == with_crumb(old(self).word(), index, value@),
            crumb_of(final(self).word(), index) == value@,
            forall|other: usize|
                other < 16 && other != index ==> #[trigger] crumb_of(final(self).word(), other)
                    == crumb_of(old(self).word(), other),
    ;

    /// Reads the octet at `index`.
    fn octet(&self, index: usize) -> (r: u8)
        requires
            index < 4,
        ensures
            r == octet_of(self.word(), index),
    ;

    /// Replaces the octet at `index` by `value` and nothing else.
    fn set_octet(&mut self, index: usize, value: u8)
        requires
            index < 4,
        ensures
            final(self).word() == with_octet(old(self).word(), index, value),
            octet_of(final(self).word(), index) == value,
            forall|other: usize|
                other < 4 && other != index ==> #[trigger] octet_of(final(self).word(), other)
                    == octet_of(old(self).word(), other),
    ;
}

impl BitOps for u32 {
    open spec fn word(&self) -> u32 {
        *self
    }

    fn nibble(&self, index: usize) -> (r: U4) {
        let shift: u32 = 28 - 4 * (index as u32);
        let field: u32 = (*self >> shift) & 0xF;
        proof {
            lemma_field_in_range(*self, shift, 0xF);
        }
        U4::new(field as u8)
    }

    fn set_nibble(&mut self, index: usize, value: U4) {
        let shift: u32 = 28 - 4 * (index as u32);
        let bits: u32 = value.value() as u32;
        let ghost before = *self;
        *self = (*self & !(0xFu32 << shift)) | (bits << shift);
        proof {
            assert forall|other: usize| other < 8 implies (other == index ==> #[trigger] nibble_of(
                *self,
                other,
            ) == value@) && (other != index ==> nibble_of(*self, other) == nibble_of(
                before,
                other,
            )) by {
                lemma_with_nibble(before, index, value@, other);
            }
        }
    }

    fn crumb(&self, index: usize) -> (r: U2) {
        let shift: u32 = 30 - 2 * (index as u32);
        let field: u32 = (*self >> shift) & 0x3;
        proof {
            lemma_field_in_range(*self, shift, 0x3);
        }
        U2::new(field as u8)
    }

    fn set_crumb(&mut self, index: usize, value: U2) {
        let shift: u32 = 30 - 2 * (index as u32);
        let bits: u32 = value.value() as u32;
        let ghost before = *self;
        *self = (*self & !(0x3u32 << shift)) | (bits << shift);
        proof {
            assert forall|other: usize| other < 16 implies (other == index ==> #[trigger] crumb_of(
                *self,
                other,
            ) == value@) && (other != index ==> crumb_of(*self, other) == crumb_of(
                before,
                other,
            )) by {
                lemma_with_crumb(before, index, value@, other);
            }
        }
    }

    fn octet(&self, index: usize) -> (r: u8) {
        let shift: u32 = 24 - 8 * (index as u32);
        let field: u32 = (*self >> shift) & 0xFF;
        proof {
            lemma_field_in_range(*self, shift, 0xFF);
        }
        field as u8
    }

    fn set_octet(&mut self, index: usize, value: u8) {
        let shift: u32 = 24 - 8 * (index as u32);
        let bits: u32 = value as u32;
        let ghost before = *self;
        *self = (*self & !(0xFFu32 << shift)) | (bits << shift);
        proof {
            assert forall|other: usize| other < 4 implies (other == index ==> #[trigger] octet_of(
                *self,
                other,
            ) == value) && (other != index ==> octet_of(*self, other) == octet_of(
                before,
                other,
            )) by {
                lemma_with_octet(before, index, value, other);
            }
        }
    }
}

} // verus!
