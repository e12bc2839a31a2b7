//! The reasons carried by [`crate::error::InvalidData`].

use vstd::prelude::*;

verus! {

/// The data is empty, or too short to be what it should be.
pub const ERR_SLICE_TOO_SHORT: &'static str = "slice too short";

/// The first word does not carry the message type of the family.
pub const ERR_INCORRECT_UMP_MESSAGE_TYPE: &'static str = "incorrect message type";

/// The first word does not carry the op code of the message.
pub const ERR_INCORRECT_OP_CODE: &'static str = "incorrect op code";

/// The status of a fragment is none of the four.
pub const ERR_INVALID_SYSEX7_STATUS: &'static str = "invalid sysex7 status";

/// A fragment claims more payload bytes than it can hold.
pub const ERR_INVALID_SYSEX7_PAYLOAD_SIZE: &'static str = "invalid sysex7 payload size";

/// A fragment continues or closes a message where none is open.
pub const ERR_EXPECTED_START_OR_COMPLETE: &'static str = "expected complete or start packet";

/// A fragment opens a message where one is open already, or the message is never closed.
pub const ERR_EXPECTED_CONTINUE_OR_END: &'static str = "expected continue or end packet";

/// Bytes are not framed by the two markers.
pub const ERR_INVALID_SYSEX_BYTES: &'static str =
    "sysex bytes must start with 0xF0 and end with 0xF7";

/// A byte with its high bit set, other than the end marker, lies inside a message.
pub const ERR_UNEXPECTED_STATUS_BYTE: &'static str = "unexpected status byte inside sysex";

/// A payload is too long for one fragment.
pub const ERR_PAYLOAD_TOO_LONG: &'static str = "payload exceeds six bytes";

/// The status byte names no message, or not the message asked for.
pub const ERR_UNKNOWN_STATUS: &'static str = "unknown status";

/// Fragments follow the one that closes the message.
pub const ERR_DATA_AFTER_END: &'static str = "data after the end of the message";

} // verus!
