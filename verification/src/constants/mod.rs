//! Constants of the GlobalPlatform card specification: command classes,
//! instruction codes, parameter values, tags and protocol versions.
use vstd::prelude::*;

pub mod cla;
pub mod delete_p2;
pub mod external_auth_p1;
pub mod get_status_p1;
pub mod get_status_p2;
pub mod install_p1;
pub mod ins;
pub mod load_p1;
pub mod scp;
pub mod select_p1;
pub mod tags;

verus! {

/// Default host challenge length in bytes
pub const DEFAULT_HOST_CHALLENGE_LENGTH: usize = 8;

/// Default card challenge length in bytes
pub const DEFAULT_CARD_CHALLENGE_LENGTH: usize = 8;

/// Security domain AID (ISD)
pub const SECURITY_DOMAIN_AID: [u8; 8] = [0xA0, 0x00, 0x00, 0x01, 0x51, 0x00, 0x00, 0x00];

} // verus!
