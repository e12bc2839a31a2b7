//! The utility family: messages of type 0.

use crate::error::Error;
use crate::message::helpers::packet_check;
use crate::numeric_types::U4;
use vstd::prelude::*;

verus! {

/// The message type of the family.
pub const TYPE_CODE: u8 = 0x0;

/// Checks that `p` is not empty, is of the utility family and carries `op_code`.
pub fn validate_packet(p: &[u32], op_code: U4) -> (r: Result<(), Error>)
    ensures
        r == packet_check(p@, TYPE_CODE, op_code@),
{
    crate::message::helpers::validate_packet(p, U4::new(TYPE_CODE), op_code)
}

} // verus!
