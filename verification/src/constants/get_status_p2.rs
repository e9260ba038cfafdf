//! Parameter values for the GET STATUS command (P2)
use vstd::prelude::*;

verus! {

/// Return data in TLV format
pub const TLV_DATA: u8 = 0x02;

} // verus!
