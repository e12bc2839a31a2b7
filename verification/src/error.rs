//! The errors that validation and building report.

use vstd::prelude::*;

verus! {

/// A write, or a growth that a write needs, would exceed a buffer's capacity.
#[derive(Clone, Copy, Debug, PartialEq, Eq, Default)]
pub struct BufferOverflow;

/// The data handed in is not a well-formed message; the string says why.
#[derive(Clone, Copy, Debug, PartialEq, Eq)]
pub struct InvalidData(pub &'static str);

/// Either kind of failure.
#[derive(Clone, Copy, Debug, PartialEq, Eq)]
pub enum Error {
    BufferOverflow(BufferOverflow),
    InvalidData(InvalidData),
}

/// Raised by a storage that cannot take the length asked of it.
#[derive(Clone, Copy, Debug, PartialEq, Eq, Default)]
pub struct SysexTryResizeError;

impl From<SysexTryResizeError> for BufferOverflow {
    fn from(_value: SysexTryResizeError) -> (r: BufferOverflow) {
        BufferOverflow
    }
}

impl vstd::std_specs::convert::FromSpecImpl<SysexTryResizeError> for BufferOverflow {
    open spec fn obeys_from_spec() -> bool {
        true
    }

    open spec fn from_spec(_value: SysexTryResizeError) -> BufferOverflow {
        BufferOverflow
    }
}

impl Error {
    /// The overflow error as the general error.
    pub open spec fn overflow() -> Error {
        Error::BufferOverflow(BufferOverflow)
    }

    /// An invalid-data error with the given reason as the general error.
    pub open spec fn invalid(reason: &'static str) -> Error {
        Error::InvalidData(InvalidData(reason))
    }
}

} // verus!
