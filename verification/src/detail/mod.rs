//! Building blocks shared by every message family.

pub mod bit_ops;
pub mod common_err_strings;

pub use bit_ops::BitOps;
