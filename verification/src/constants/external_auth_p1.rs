//! Parameter values for the EXTERNAL AUTHENTICATE command (P1)
use vstd::prelude::*;

verus! {

/// Authenticate using CMAC
pub const CMAC: u8 = 0x01;
/// Authenticate using RMAC
pub const RMAC: u8 = 0x10;
/// Authenticate using ENC
pub const ENC: u8 = 0x20;
/// Authenticate using RENC
pub const RENC: u8 = 0x40;

} // verus!
