//! Status words (SW1-SW2) of APDU responses.
use vstd::prelude::*;

verus! {

/// Status Word (SW1-SW2) from an APDU response
#[derive(Debug, Clone, Copy, PartialEq, Eq, Hash, Structural)]
pub struct StatusWord {
    /// First status byte (SW1)
    pub sw1: u8,
    /// Second status byte (SW2)
    pub sw2: u8,
}

/// Severity with which a status word is reported.
#[derive(Debug, Clone, Copy, PartialEq, Eq, Structural)]
pub enum TraceLevel {
    /// Normal processing
    Debug,
    /// Warnings (62xx, 63xx)
    Info,
    /// Errors
    Warn,
}

/// The 16-bit value SW1 * 256 + SW2.
pub open spec fn sw_value(sw1: u8, sw2: u8) -> int {
    sw1 as int * 256 + sw2 as int
}

/// Trace level that a status word is reported with.
pub open spec fn spec_trace_level(sw1: u8, sw2: u8) -> TraceLevel {
    if (sw1 == 0x90 && sw2 == 0x00) || sw1 == 0x61 {
        TraceLevel::Debug
    } else if sw1 == 0x62 || sw1 == 0x63 {
        TraceLevel::Info
    } else {
        TraceLevel::Warn
    }
}

/// Human readable description of a status word (ISO 7816-4 table).
pub open spec fn spec_description(sw1: u8, sw2: u8) -> &'static str {
    if sw1 == 0x90 && sw2 == 0x00 { "Success" }
    else if sw1 == 0x61 { "More data available" }
    else if sw1 == 0x62 && sw2 == 0x00 { "No information given" }
    else if sw1 == 0x62 && sw2 == 0x81 { "Part of returned data may be corrupted" }
    else if sw1 == 0x62 && sw2 == 0x82 { "End of file/record reached before reading Le bytes" }
    else if sw1 == 0x62 && sw2 == 0x83 { "Selected file invalidated" }
    else if sw1 == 0x62 && sw2 == 0x84 { "FCI not formatted according to specification" }
    else if sw1 == 0x63 && sw2 == 0x00 { "No information given" }
    else if sw1 == 0x63 && sw2 == 0x81 { "File filled up by the last write" }
    else if sw1 == 0x63 && sw2 / 16 == 12 { "Counter value" }
    else if sw1 == 0x64 && sw2 == 0x00 { "State of non-volatile memory unchanged" }
    else if sw1 == 0x65 && sw2 == 0x00 { "State of non-volatile memory changed" }
    else if sw1 == 0x65 && sw2 == 0x81 { "Memory failure" }
    else if sw1 == 0x67 && sw2 == 0x00 { "Wrong length" }
    else if sw1 == 0x68 && sw2 == 0x81 { "Logical channel not supported" }
    else if sw1 == 0x68 && sw2 == 0x82 { "Secure messaging not supported" }
    else if sw1 == 0x69 && sw2 == 0x81 { "Command incompatible with file structure" }
    else if sw1 == 0x69 && sw2 == 0x82 { "Security status not satisfied" }
    else if sw1 == 0x69 && sw2 == 0x83 { "Authentication method blocked" }
    else if sw1 == 0x69 && sw2 == 0x84 { "Referenced data invalidated" }
    else if sw1 == 0x69 && sw2 == 0x85 { "Conditions of use not satisfied" }
    else if sw1 == 0x69 && sw2 == 0x86 { "Command not allowed" }
    else if sw1 == 0x69 && sw2 == 0x87 { "Expected SM data objects missing" }
    else if sw1 == 0x69 && sw2 == 0x88 { "SM data objects incorrect" }
    else if sw1 == 0x6A && sw2 == 0x80 { "Incorrect parameters in the data field" }
    else if sw1 == 0x6A && sw2 == 0x81 { "Function not supported" }
    else if sw1 == 0x6A && sw2 == 0x82 { "File not found" }
    else if sw1 == 0x6A && sw2 == 0x83 { "Record not found" }
    else if sw1 == 0x6A && sw2 == 0x84 { "Not enough memory space in the file" }
    else if sw1 == 0x6A && sw2 == 0x85 { "Lc inconsistent with TLV structure" }
    else if sw1 == 0x6A && sw2 == 0x86 { "Incorrect parameters P1-P2" }
    else if sw1 == 0x6A && sw2 == 0x87 { "Lc inconsistent with P1-P2" }
    else if sw1 == 0x6A && sw2 == 0x88 { "Referenced data not found" }
    else if sw1 == 0x6B && sw2 == 0x00 { "Wrong parameters P1-P2" }
    else if sw1 == 0x6C { "Wrong Le field" }
    else if sw1 == 0x6D && sw2 == 0x00 { "Instruction code not supported or invalid" }
    else if sw1 == 0x6E && sw2 == 0x00 { "Class not supported" }
    else if sw1 == 0x6F && sw2 == 0x00 { "No precise diagnosis" }
    else { "Unknown status word" }
}

impl StatusWord {
    /// Create a new status word
    pub fn new(sw1: u8, sw2: u8) -> (res: Self)
        ensures
            res.sw1 == sw1,
            res.sw2 == sw2,
    {
        Self { sw1, sw2 }
    }

    /// Create from a u16 value (SW1 | SW2)
    pub fn from_u16(status: u16) -> (res: Self)
        ensures
            sw_value(res.sw1, res.sw2) == status as int,
            res.sw1 == status / 256,
            res.sw2 == status % 256,
    {
        let sw1: u8 = (status / 256) as u8;
        let sw2: u8 = (status % 256) as u8;
        Self { sw1, sw2 }
    }

    /// Convert to a u16 value (SW1 | SW2)
    pub fn to_u16(&self) -> (res: u16)
        ensures
            res as int == sw_value(self.sw1, self.sw2),
    {
        (self.sw1 as u16) * 256 + (self.sw2 as u16)
    }

    /// Check if this status word indicates success (90 00)
    pub fn is_success(&self) -> (res: bool)
        ensures
            res == (self.sw1 == 0x90 && self.sw2 == 0x00),
    {
        self.sw1 == 0x90 && self.sw2 == 0x00
    }

    /// Check if this status word indicates normal processing (61 XX)
    pub fn is_normal_processing(&self) -> (res: bool)
        ensures
            res == (self.sw1 == 0x61),
    {
        self.sw1 == 0x61
    }

    /// Check if this status word indicates more data is available (61 XX)
    pub fn is_more_data_available(&self) -> (res: bool)
        ensures
            res == (self.sw1 == 0x61),
    {
        self.sw1 == 0x61
    }

    /// Get the number of remaining bytes when SW1 = 61
    pub fn remaining_bytes(&self) -> (res: Option<u8>)
        ensures
            res == (if self.sw1 == 0x61 { Some(self.sw2) } else { None::<u8> }),
    {
        if self.sw1 == 0x61 {
            Some(self.sw2)
        } else {
            None
        }
    }

    /// Check if this status word indicates a warning (62 XX)
    pub fn is_warning(&self) -> (res: bool)
        ensures
            res == (self.sw1 == 0x62),
    {
        self.sw1 == 0x62
    }

    /// Check if this status word indicates a security condition not satisfied (69 82)
    pub fn is_security_condition_not_satisfied(&self) -> (res: bool)
        ensures
            res == (self.sw1 == 0x69 && self.sw2 == 0x82),
    {
        self.sw1 == 0x69 && self.sw2 == 0x82
    }

    /// Check if this status word indicates a file not found (6A 82)
    pub fn is_file_not_found(&self) -> (res: bool)
        ensures
            res == (self.sw1 == 0x6A && self.sw2 == 0x82),
    {
        self.sw1 == 0x6A && self.sw2 == 0x82
    }

    /// Check if this status word indicates an incorrect P1 or P2 parameter (6A 86)
    pub fn is_incorrect_p1p2(&self) -> (res: bool)
        ensures
            res == (self.sw1 == 0x6A && self.sw2 == 0x86),
    {
        self.sw1 == 0x6A && self.sw2 == 0x86
    }

    /// Check if this status word indicates incorrect parameters (6A XX)
    pub fn is_incorrect_parameters(&self) -> (res: bool)
        ensures
            res == (self.sw1 == 0x6A),
    {
        self.sw1 == 0x6A
    }

    /// Check if this status word indicates wrong length (67 00)
    pub fn is_wrong_length(&self) -> (res: bool)
        ensures
            res == (self.sw1 == 0x67 && self.sw2 == 0x00),
    {
        self.sw1 == 0x67 && self.sw2 == 0x00
    }

    /// Check if this status word indicates a command not allowed (69 86)
    pub fn is_command_not_allowed(&self) -> (res: bool)
        ensures
            res == (self.sw1 == 0x69 && self.sw2 == 0x86),
    {
        self.sw1 == 0x69 && self.sw2 == 0x86
    }

    /// Get the appropriate tracing level for this status word
    pub fn tracing_level(&self) -> (res: TraceLevel)
        ensures
            res == spec_trace_level(self.sw1, self.sw2),
    {
        if self.is_success() || self.is_normal_processing() {
            TraceLevel::Debug
        } else if self.sw1 == 0x62 || self.sw1 == 0x63 {
            TraceLevel::Info
        } else {
            TraceLevel::Warn
        }
    }

    /// Get a description of this status word
    pub fn description(&self) -> (res: &'static str)
        ensures
            res == spec_description(self.sw1, self.sw2),
    {
        let sw1 = self.sw1;
        let sw2 = self.sw2;
        if sw1 == 0x90 && sw2 == 0x00 { "Success" }
        else if sw1 == 0x61 { "More data available" }
        else if sw1 == 0x62 && sw2 == 0x00 { "No information given" }
        else if sw1 == 0x62 && sw2 == 0x81 { "Part of returned data may be corrupted" }
        else if sw1 == 0x62 && sw2 == 0x82 { "End of file/record reached before reading Le bytes" }
        else if sw1 == 0x62 && sw2 == 0x83 { "Selected file invalidated" }
        else if sw1 == 0x62 && sw2 == 0x84 { "FCI not formatted according to specification" }
        else if sw1 == 0x63 && sw2 == 0x00 { "No information given" }
        else if sw1 == 0x63 && sw2 == 0x81 { "File filled up by the last write" }
        else if sw1 == 0x63 && sw2 / 16 == 12 { "Counter value" }
        else if sw1 == 0x64 && sw2 == 0x00 { "State of non-volatile memory unchanged" }
        else if sw1 == 0x65 && sw2 == 0x00 { "State of non-volatile memory changed" }
        else if sw1 == 0x65 && sw2 == 0x81 { "Memory failure" }
        else if sw1 == 0x67 && sw2 == 0x00 { "Wrong length" }
        else if sw1 == 0x68 && sw2 == 0x81 { "Logical channel not supported" }
        else if sw1 == 0x68 && sw2 == 0x82 { "Secure messaging not supported" }
        else if sw1 == 0x69 && sw2 == 0x81 { "Command incompatible with file structure" }
        else if sw1 == 0x69 && sw2 == 0x82 { "Security status not satisfied" }
        else if sw1 == 0x69 && sw2 == 0x83 { "Authentication method blocked" }
        else if sw1 == 0x69 && sw2 == 0x84 { "Referenced data invalidated" }
        else if sw1 == 0x69 && sw2 == 0x85 { "Conditions of use not satisfied" }
        else if sw1 == 0x69 && sw2 == 0x86 { "Command not allowed" }
        else if sw1 == 0x69 && sw2 == 0x87 { "Expected SM data objects missing" }
        else if sw1 == 0x69 && sw2 == 0x88 { "SM data objects incorrect" }
        else if sw1 == 0x6A && sw2 == 0x80 { "Incorrect parameters in the data field" }
        else if sw1 == 0x6A && sw2 == 0x81 { "Function not supported" }
        else if sw1 == 0x6A && sw2 == 0x82 { "File not found" }
        else if sw1 == 0x6A && sw2 == 0x83 { "Record not found" }
        else if sw1 == 0x6A && sw2 == 0x84 { "Not enough memory space in the file" }
        else if sw1 == 0x6A && sw2 == 0x85 { "Lc inconsistent with TLV structure" }
        else if sw1 == 0x6A && sw2 == 0x86 { "Incorrect parameters P1-P2" }
        else if sw1 == 0x6A && sw2 == 0x87 { "Lc inconsistent with P1-P2" }
        else if sw1 == 0x6A && sw2 == 0x88 { "Referenced data not found" }
        else if sw1 == 0x6B && sw2 == 0x00 { "Wrong parameters P1-P2" }
        else if sw1 == 0x6C { "Wrong Le field" }
        else if sw1 == 0x6D && sw2 == 0x00 { "Instruction code not supported or invalid" }
        else if sw1 == 0x6E && sw2 == 0x00 { "Class not supported" }
        else if sw1 == 0x6F && sw2 == 0x00 { "No precise diagnosis" }
        else { "Unknown status word" }
    }
}

/// Converting a status word to its 16-bit value and back gives the same status word,
/// and converting a 16-bit value to a status word and back gives the same value.
pub proof fn lemma_status_word_u16_roundtrip(sw1: u8, sw2: u8, v: u16)
    ensures
        (sw_value(sw1, sw2) / 256) == sw1 as int,
        (sw_value(sw1, sw2) % 256) == sw2 as int,
        sw_value((v / 256) as u8, (v % 256) as u8) == v as int,
{
}

impl From<(u8, u8)> for StatusWord {
    /// The status word with the given SW1 and SW2
    fn from(tuple: (u8, u8)) -> (res: Self) {
        StatusWord { sw1: tuple.0, sw2: tuple.1 }
    }
}

impl vstd::std_specs::convert::FromSpecImpl<(u8, u8)> for StatusWord {
    open spec fn obeys_from_spec() -> bool {
        true
    }

    open spec fn from_spec(tuple: (u8, u8)) -> StatusWord {
        StatusWord { sw1: tuple.0, sw2: tuple.1 }
    }
}

impl From<u16> for StatusWord {
    /// The status word whose SW1 is the high byte and SW2 the low byte
    fn from(status: u16) -> (res: Self) {
        StatusWord::from_u16(status)
    }
}

impl vstd::std_specs::convert::FromSpecImpl<u16> for StatusWord {
    open spec fn obeys_from_spec() -> bool {
        true
    }

    open spec fn from_spec(status: u16) -> StatusWord {
        StatusWord { sw1: (status / 256) as u8, sw2: (status % 256) as u8 }
    }
}

impl From<StatusWord> for u16 {
    /// SW1 as the high byte, SW2 as the low byte
    fn from(status: StatusWord) -> (res: Self) {
        status.to_u16()
    }
}

impl vstd::std_specs::convert::FromSpecImpl<StatusWord> for u16 {
    open spec fn obeys_from_spec() -> bool {
        true
    }

    open spec fn from_spec(status: StatusWord) -> u16 {
        sw_value(status.sw1, status.sw2) as u16
    }
}

} // verus!
