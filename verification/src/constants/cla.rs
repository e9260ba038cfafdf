//! GlobalPlatform command classes
use vstd::prelude::*;

verus! {

/// ISO7816 command class
pub const ISO7816: u8 = 0x00;
/// GlobalPlatform command class
pub const GP: u8 = 0x80;
/// Secure messaging command class (with MAC)
pub const MAC: u8 = 0x84;

} // verus!
