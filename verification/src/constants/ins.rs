//! GlobalPlatform instruction codes
use vstd::prelude::*;

verus! {

/// SELECT command
pub const SELECT: u8 = 0xA4;
/// INITIALIZE UPDATE command
pub const INITIALIZE_UPDATE: u8 = 0x50;
/// EXTERNAL AUTHENTICATE command
pub const EXTERNAL_AUTHENTICATE: u8 = 0x82;
/// GET RESPONSE command
pub const GET_RESPONSE: u8 = 0xC0;
/// DELETE command
pub const DELETE: u8 = 0xE4;
/// LOAD command
pub const LOAD: u8 = 0xE8;
/// INSTALL command
pub const INSTALL: u8 = 0xE6;
/// GET STATUS command
pub const GET_STATUS: u8 = 0xF2;
/// PUT KEY command
pub const PUT_KEY: u8 = 0xD8;
/// STORE DATA command
pub const STORE_DATA: u8 = 0xE2;

} // verus!
