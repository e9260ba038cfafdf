//! Parameter values for the SELECT command (P1)
use vstd::prelude::*;

verus! {

/// Select by DF name
pub const BY_NAME: u8 = 0x04;

} // verus!
