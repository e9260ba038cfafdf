//! Parameter values for the LOAD command (P1)
use vstd::prelude::*;

verus! {

/// More blocks to follow
pub const MORE_BLOCKS: u8 = 0x00;
/// Last block
pub const LAST_BLOCK: u8 = 0x80;

} // verus!
