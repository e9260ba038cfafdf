//! Verified APDU (ISO/IEC 7816-4) and GlobalPlatform SCP02 card management library.
//!
//! The crate models smart-card commands and responses, their byte encodings,
//! status words, security levels, SIMPLE-TLV lookups, the SCP02 secure channel
//! cryptography and the GlobalPlatform card content management commands.
use vstd::prelude::*;

pub mod application;
pub mod command;
pub mod constants;
pub mod crypto;
pub mod error;
pub mod fci;
pub mod executor;
pub mod gp_commands;
pub mod gp_error;
pub mod get_status;
pub mod gp_responses;
pub mod load;
pub mod processor;
pub mod response;
pub mod secure_channel;
pub mod security;
pub mod session;
pub mod status;
pub mod tlv;
pub mod transport;

verus! {

} // verus!
