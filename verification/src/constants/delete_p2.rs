//! Parameter values for the DELETE command (P2)
use vstd::prelude::*;

verus! {

/// Delete object
pub const OBJECT: u8 = 0x00;
/// Delete object and related objects
pub const OBJECT_AND_RELATED: u8 = 0x80;

} // verus!
