//! Odds and ends shared by the message families.

use vstd::prelude::*;

pub use crate::detail::bit_ops::BitOps;
pub use crate::message::helpers::truncate_u7;

verus! {

/// What every message type offers: it can be copied, printed and compared.
pub trait MessageTraits: Clone + core::fmt::Debug + PartialEq {

}

impl<T: Clone + core::fmt::Debug + PartialEq> MessageTraits for T {

}

} // verus!
