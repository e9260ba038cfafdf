//! Parameter values for the INSTALL command (P1)
use vstd::prelude::*;

verus! {

/// Install for load
pub const FOR_LOAD: u8 = 0x02;
/// Install for install
pub const FOR_INSTALL: u8 = 0x04;
/// Install for make selectable
pub const FOR_MAKE_SELECTABLE: u8 = 0x08;
/// Install for install and make selectable
pub const FOR_INSTALL_AND_MAKE_SELECTABLE: u8 = 0x0C;
/// Install for extradition
pub const FOR_EXTRADITION: u8 = 0x10;
/// Install for personalization
pub const FOR_PERSONALIZATION: u8 = 0x20;
/// Install for registry update
pub const FOR_REGISTRY_UPDATE: u8 = 0x40;

} // verus!
