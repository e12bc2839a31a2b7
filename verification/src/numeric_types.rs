//! Unsigned integers narrower than a byte or a half-word.
//!
//! Each type holds its value in the smallest native integer that fits and
//! guarantees, as an invariant of the type, that the value is in range.

use vstd::prelude::*;

verus! {

/// A 2-bit unsigned integer.
#[derive(Clone, Copy, Debug, PartialEq, Eq, Structural, PartialOrd, Ord, Hash)]
pub struct U2(u8);

/// A 4-bit unsigned integer.
#[derive(Clone, Copy, Debug, PartialEq, Eq, Structural, PartialOrd, Ord, Hash)]
pub struct U4(u8);

/// A 7-bit unsigned integer.
#[derive(Clone, Copy, Debug, PartialEq, Eq, Structural, PartialOrd, Ord, Hash)]
pub struct U7(u8);

/// A 10-bit unsigned integer.
#[derive(Clone, Copy, Debug, PartialEq, Eq, Structural, PartialOrd, Ord, Hash)]
pub struct U10(u16);

impl View for U2 {
    type V = u8;

    closed spec fn view(&self) -> u8 {
        self.0
    }
}

impl View for U4 {
    type V = u8;

    closed spec fn view(&self) -> u8 {
        self.0
    }
}

impl View for U7 {
    type V = u8;

    closed spec fn view(&self) -> u8 {
        self.0
    }
}

impl View for U10 {
    type V = u16;

    closed spec fn view(&self) -> u16 {
        self.0
    }
}

impl U2 {
    /// The largest value, 3.
    pub const MAX: u8 = 0x3;

    #[verifier::type_invariant]
    spec fn in_range(self) -> bool {
        self.0 <= 0x3
    }

    /// Wraps `value`, which must fit in 2 bits.
    pub fn new(value: u8) -> (r: U2)
        requires
            value <= 0x3,
        ensures
            r@ == value,
    {
        U2(value)
    }

    /// Wraps `value` if it fits in 2 bits.
    pub fn try_new(value: u8) -> (r: Option<U2>)
        ensures
            value <= 0x3 ==> r is Some && r->Some_0@ == value,
            value > 0x3 ==> r is None,
    {
        if value <= 0x3 {
            Some(U2(value))
        } else {
            None
        }
    }

    /// The value held, always at most 3.
    pub fn value(self) -> (r: u8)
        ensures
            r == self@,
            r <= 0x3,
    {
        proof {
            use_type_invariant(self);
        }
        self.0
    }
}

impl U4 {
    /// The largest value, 15.
    pub const MAX: u8 = 0xF;

    #[verifier::type_invariant]
    spec fn in_range(self) -> bool {
        self.0 <= 0xF
    }

    /// Wraps `value`, which must fit in 4 bits.
    pub fn new(value: u8) -> (r: U4)
        requires
            value <= 0xF,
        ensures
            r@ == value,
    {
        U4(value)
    }

    /// Wraps `value` if it fits in 4 bits.
    pub fn try_new(value: u8) -> (r: Option<U4>)
        ensures
            value <= 0xF ==> r is Some && r->Some_0@ == value,
            value > 0xF ==> r is None,
    {
        if value <= 0xF {
            Some(U4(value))
        } else {
            None
        }
    }

    /// The value held, always at most 15.
    pub fn value(self) -> (r: u8)
        ensures
            r == self@,
            r <= 0xF,
    {
        proof {
            use_type_invariant(self);
        }
        self.0
    }
}

impl U7 {
    /// The largest value, 127.
    pub const MAX: u8 = 0x7F;

    #[verifier::type_invariant]
    spec fn in_range(self) -> bool {
        self.0 <= 0x7F
    }

    /// Wraps `value`, which must fit in 7 bits.
    pub fn new(value: u8) -> (r: U7)
        requires
            value <= 0x7F,
        ensures
            r@ == value,
    {
        U7(value)
    }

    /// Wraps `value` if it fits in 7 bits.
    pub fn try_new(value: u8) -> (r: Option<U7>)
        ensures
            value <= 0x7F ==> r is Some && r->Some_0@ == value,
            value > 0x7F ==> r is None,
    {
        if value <= 0x7F {
            Some(U7(value))
        } else {
            None
        }
    }

    /// The value held, always at most 127.
    pub fn value(self) -> (r: u8)
        ensures
            r == self@,
            r <= 0x7F,
    {
        proof {
            use_type_invariant(self);
        }
        self.0
    }
}

impl U10 {
    /// The largest value, 1023.
    pub const MAX: u16 = 0x3FF;

    #[verifier::type_invariant]
    spec fn in_range(self) -> bool {
        self.0 <= 0x3FF
    }

    /// Wraps `value`, which must fit in 10 bits.
    pub fn new(value: u16) -> (r: U10)
        requires
            value <= 0x3FF,
        ensures
            r@ == value,
    {
        U10(value)
    }

    /// Wraps `value` if it fits in 10 bits.
    pub fn try_new(value: u16) -> (r: Option<U10>)
        ensures
            value <= 0x3FF ==> r is Some && r->Some_0@ == value,
            value > 0x3FF ==> r is None,
    {
        if value <= 0x3FF {
            Some(U10(value))
        } else {
            None
        }
    }

    /// The value held, always at most 1023.
    pub fn value(self) -> (r: u16)
        ensures
            r == self@,
            r <= 0x3FF,
    {
        proof {
            use_type_invariant(self);
        }
        self.0
    }
}

impl Default for U2 {
    fn default() -> (r: U2)
        ensures
            r@ == 0,
    {
        U2(0)
    }
}

impl Default for U4 {
    fn default() -> (r: U4)
        ensures
            r@ == 0,
    {
        U4(0)
    }
}

impl Default for U7 {
    fn default() -> (r: U7)
        ensures
            r@ == 0,
    {
        U7(0)
    }
}

impl Default for U10 {
    fn default() -> (r: U10)
        ensures
            r@ == 0,
    {
        U10(0)
    }
}

/// The values held by a sequence of 7-bit integers.
pub open spec fn u7_values(s: Seq<U7>) -> Seq<u8> {
    s.map_values(|x: U7| x@)
}

} // verus!
