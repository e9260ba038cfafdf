//! Tags used in GlobalPlatform commands and responses
use vstd::prelude::*;

verus! {

/// AID tag for DELETE command
pub const DELETE_AID: u8 = 0x4F;
/// Load file data block tag
pub const LOAD_FILE_DATA_BLOCK: u8 = 0xC4;
/// AID tag for GET STATUS command
pub const GET_STATUS_AID: u8 = 0x4F;
/// Application label tag
pub const APPLICATION_LABEL: u8 = 0x50;
/// Security domain management data
pub const SD_MANAGEMENT_DATA: u8 = 0x73;
/// Key diversification data
pub const KEY_DIVERSIFICATION_DATA: u8 = 0xCF;

} // verus!
