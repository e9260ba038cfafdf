//! Parameter values for the GET STATUS command (P1)
use vstd::prelude::*;

verus! {

/// Get status of issuer security domain
pub const ISSUER_SECURITY_DOMAIN: u8 = 0x80;
/// Get status of applications
pub const APPLICATIONS: u8 = 0x40;
/// Get status of executable load files
pub const EXEC_LOAD_FILES: u8 = 0x20;
/// Get status of executable load files and modules
pub const EXEC_LOAD_FILES_AND_MODULES: u8 = 0x10;

} // verus!
