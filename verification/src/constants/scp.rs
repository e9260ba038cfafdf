//! Secure Channel Protocol (SCP) versions
use vstd::prelude::*;

verus! {

/// SCP01 protocol version
pub const SCP01: u8 = 0x01;
/// SCP02 protocol version
pub const SCP02: u8 = 0x02;
/// SCP03 protocol version
pub const SCP03: u8 = 0x03;

} // verus!
