//! Responses of the GlobalPlatform card management commands, classified by status word.
use vstd::prelude::*;

use crate::error::ResponseError;
use crate::fci::{ber_parse_all_result, parse_fci, spec_parse_fci, FciTemplate, FciView};
use crate::response::{bytes_to_vec, extract_response_parts, spec_payload_part};
use crate::tlv::{find_tlv_value, spec_find_tlv_value};

verus! {

/// SW1 of raw response bytes
pub open spec fn sw1_of(data: Seq<u8>) -> u8 {
    data[data.len() - 2]
}

/// SW2 of raw response bytes
pub open spec fn sw2_of(data: Seq<u8>) -> u8 {
    data[data.len() - 1]
}

/// Response to SELECT
#[derive(Debug, Clone, PartialEq, Eq)]
pub enum SelectResponse {
    /// Success response (9000) with the File Control Information
    Success { fci: Vec<u8> },
    /// File or application not found (6A82)
    NotFound,
    /// Security condition not satisfied (6982)
    SecurityConditionNotSatisfied,
    /// Command not allowed (6986)
    IncorrectParameters,
    /// Other error
    OtherError { sw1: u8, sw2: u8 },
}

/// `r` is the SELECT response for status (sw1, sw2) and the given payload.
pub open spec fn select_response_is(r: SelectResponse, sw1: u8, sw2: u8, payload: Seq<u8>) -> bool {
    match r {
        SelectResponse::Success { fci } => sw1 == 0x90 && sw2 == 0x00 && fci@ == payload,
        SelectResponse::NotFound => sw1 == 0x6A && sw2 == 0x82,
        SelectResponse::SecurityConditionNotSatisfied => sw1 == 0x69 && sw2 == 0x82,
        SelectResponse::IncorrectParameters => sw1 == 0x69 && sw2 == 0x86,
        SelectResponse::OtherError { sw1: a, sw2: b } => a == sw1 && b == sw2 && !(sw1 == 0x90
            && sw2 == 0x00) && !(sw1 == 0x6A && sw2 == 0x82) && !(sw1 == 0x69 && sw2 == 0x82) && !(
        sw1 == 0x69 && sw2 == 0x86),
    }
}

impl SelectResponse {
    /// Classify raw response bytes
    pub fn from_bytes(data: &[u8]) -> (res: Result<Self, ResponseError>)
        ensures
            res is Err <==> data@.len() < 2,
            res matches Err(e) ==> e == ResponseError::Incomplete,
            res matches Ok(r) ==> select_response_is(r, sw1_of(data@), sw2_of(data@), spec_payload_part(data@)),
    {
        let ((sw1, sw2), payload) = extract_response_parts(data)?;
        if sw1 == 0x90 && sw2 == 0x00 {
            Ok(SelectResponse::Success { fci: bytes_to_vec(payload) })
        } else if sw1 == 0x6A && sw2 == 0x82 {
            Ok(SelectResponse::NotFound)
        } else if sw1 == 0x69 && sw2 == 0x82 {
            Ok(SelectResponse::SecurityConditionNotSatisfied)
        } else if sw1 == 0x69 && sw2 == 0x86 {
            Ok(SelectResponse::IncorrectParameters)
        } else {
            Ok(SelectResponse::OtherError { sw1, sw2 })
        }
    }

    /// Returns true if the selection was successful
    pub fn is_success(&self) -> (res: bool)
        ensures
            res == (self is Success),
    {
        match self {
            SelectResponse::Success { .. } => true,
            _ => false,
        }
    }

    /// Returns true if the file or application was not found
    pub fn is_not_found(&self) -> (res: bool)
        ensures
            res == (self is NotFound),
    {
        match self {
            SelectResponse::NotFound => true,
            _ => false,
        }
    }

    /// Get the File Control Information (empty unless successful)
    pub fn fci(&self) -> (res: &[u8])
        ensures
            res@ == (match self {
                SelectResponse::Success { fci } => fci@,
                _ => Seq::<u8>::empty(),
            }),
    {
        match self {
            SelectResponse::Success { fci } => fci.as_slice(),
            _ => &[],
        }
    }

    /// Extract the application label (tag 50) from the FCI if available
    pub fn application_label(&self) -> (res: Option<Vec<u8>>)
        ensures
            res is Some <==> spec_find_tlv_value(self.fci_view(), 0x50) is Some,
            res matches Some(v) ==> spec_find_tlv_value(self.fci_view(), 0x50) == Some(v@),
    {
        find_tlv_value(self.fci(), 0x50)
    }

    /// Parse the FCI data into a structured format (None when it does not parse)
    pub fn parsed_fci(&self) -> (res: Option<FciTemplate>)
        ensures
            res is Some <==> spec_parse_fci(ber_parse_all_result(self.fci_view())) is Ok,
            res matches Some(f) ==> spec_parse_fci(ber_parse_all_result(self.fci_view())) == Ok::<FciView, &'static str>(f@),
    {
        match parse_fci(self.fci()) {
            Ok(f) => Some(f),
            Err(_) => None,
        }
    }

    /// The FCI bytes (empty unless successful)
    pub open spec fn fci_view(&self) -> Seq<u8> {
        match self {
            SelectResponse::Success { fci } => fci@,
            _ => Seq::<u8>::empty(),
        }
    }
}

/// Response to DELETE
#[derive(Debug, Clone, PartialEq, Eq)]
pub enum DeleteResponse {
    /// Success in deleting the object (9000)
    Success,
    /// Referenced data not found (6A88)
    ReferencedDataNotFound,
    /// Security condition not satisfied (6982)
    SecurityConditionNotSatisfied,
    /// Other error
    OtherError { sw1: u8, sw2: u8 },
}

/// `r` is the DELETE response for status (sw1, sw2).
pub open spec fn delete_response_is(r: DeleteResponse, sw1: u8, sw2: u8) -> bool {
    match r {
        DeleteResponse::Success => sw1 == 0x90 && sw2 == 0x00,
        DeleteResponse::ReferencedDataNotFound => sw1 == 0x6A && sw2 == 0x88,
        DeleteResponse::SecurityConditionNotSatisfied => sw1 == 0x69 && sw2 == 0x82,
        DeleteResponse::OtherError { sw1: a, sw2: b } => a == sw1 && b == sw2 && !(sw1 == 0x90
            && sw2 == 0x00) && !(sw1 == 0x6A && sw2 == 0x88) && !(sw1 == 0x69 && sw2 == 0x82),
    }
}

impl DeleteResponse {
    /// Classify raw response bytes
    pub fn from_bytes(data: &[u8]) -> (res: Result<Self, ResponseError>)
        ensures
            res is Err <==> data@.len() < 2,
            res matches Err(e) ==> e == ResponseError::Incomplete,
            res matches Ok(r) ==> delete_response_is(r, sw1_of(data@), sw2_of(data@)),
    {
        let ((sw1, sw2), _payload) = extract_response_parts(data)?;
        if sw1 == 0x90 && sw2 == 0x00 {
            Ok(DeleteResponse::Success)
        } else if sw1 == 0x6A && sw2 == 0x88 {
            Ok(DeleteResponse::ReferencedDataNotFound)
        } else if sw1 == 0x69 && sw2 == 0x82 {
            Ok(DeleteResponse::SecurityConditionNotSatisfied)
        } else {
            Ok(DeleteResponse::OtherError { sw1, sw2 })
        }
    }
}

/// Response to INSTALL
#[derive(Debug, Clone, PartialEq, Eq)]
pub enum InstallResponse {
    /// Success response (9000)
    Success,
    /// Referenced data not found (6A88)
    ReferencedDataNotFound,
    /// Security condition not satisfied (6982)
    SecurityConditionNotSatisfied,
    /// Other error
    OtherError { sw1: u8, sw2: u8 },
}

/// `r` is the INSTALL response for status (sw1, sw2).
pub open spec fn install_response_is(r: InstallResponse, sw1: u8, sw2: u8) -> bool {
    match r {
        InstallResponse::Success => sw1 == 0x90 && sw2 == 0x00,
        InstallResponse::ReferencedDataNotFound => sw1 == 0x6A && sw2 == 0x88,
        InstallResponse::SecurityConditionNotSatisfied => sw1 == 0x69 && sw2 == 0x82,
        InstallResponse::OtherError { sw1: a, sw2: b } => a == sw1 && b == sw2 && !(sw1 == 0x90
            && sw2 == 0x00) && !(sw1 == 0x6A && sw2 == 0x88) && !(sw1 == 0x69 && sw2 == 0x82),
    }
}

impl InstallResponse {
    /// Classify raw response bytes
    pub fn from_bytes(data: &[u8]) -> (res: Result<Self, ResponseError>)
        ensures
            res is Err <==> data@.len() < 2,
            res matches Err(e) ==> e == ResponseError::Incomplete,
            res matches Ok(r) ==> install_response_is(r, sw1_of(data@), sw2_of(data@)),
    {
        let ((sw1, sw2), _payload) = extract_response_parts(data)?;
        if sw1 == 0x90 && sw2 == 0x00 {
            Ok(InstallResponse::Success)
        } else if sw1 == 0x6A && sw2 == 0x88 {
            Ok(InstallResponse::ReferencedDataNotFound)
        } else if sw1 == 0x69 && sw2 == 0x82 {
            Ok(InstallResponse::SecurityConditionNotSatisfied)
        } else {
            Ok(InstallResponse::OtherError { sw1, sw2 })
        }
    }
}

/// Response to LOAD
#[derive(Debug, Clone, PartialEq, Eq)]
pub enum LoadResponse {
    /// Success response (9000)
    Success,
    /// Security status not satisfied (6982)
    SecurityStatusNotSatisfied,
    /// Wrong length (6700)
    WrongLength,
    /// Other error
    OtherError { sw1: u8, sw2: u8 },
}

/// `r` is the LOAD response for status (sw1, sw2).
pub open spec fn load_response_is(r: LoadResponse, sw1: u8, sw2: u8) -> bool {
    match r {
        LoadResponse::Success => sw1 == 0x90 && sw2 == 0x00,
        LoadResponse::SecurityStatusNotSatisfied => sw1 == 0x69 && sw2 == 0x82,
        LoadResponse::WrongLength => sw1 == 0x67 && sw2 == 0x00,
        LoadResponse::OtherError { sw1: a, sw2: b } => a == sw1 && b == sw2 && !(sw1 == 0x90
            && sw2 == 0x00) && !(sw1 == 0x69 && sw2 == 0x82) && !(sw1 == 0x67 && sw2 == 0x00),
    }
}

impl LoadResponse {
    /// Classify raw response bytes
    pub fn from_bytes(data: &[u8]) -> (res: Result<Self, ResponseError>)
        ensures
            res is Err <==> data@.len() < 2,
            res matches Err(e) ==> e == ResponseError::Incomplete,
            res matches Ok(r) ==> load_response_is(r, sw1_of(data@), sw2_of(data@)),
    {
        let ((sw1, sw2), _payload) = extract_response_parts(data)?;
        if sw1 == 0x90 && sw2 == 0x00 {
            Ok(LoadResponse::Success)
        } else if sw1 == 0x69 && sw2 == 0x82 {
            Ok(LoadResponse::SecurityStatusNotSatisfied)
        } else if sw1 == 0x67 && sw2 == 0x00 {
            Ok(LoadResponse::WrongLength)
        } else {
            Ok(LoadResponse::OtherError { sw1, sw2 })
        }
    }
}

/// Response to EXTERNAL AUTHENTICATE
#[derive(Debug, Clone, PartialEq, Eq)]
pub enum ExternalAuthenticateResponse {
    /// Success response (9000)
    Success,
    /// Security status not satisfied (6982)
    SecurityStatusNotSatisfied,
    /// Record not found (6A83)
    RecordNotFound,
    /// Other error
    OtherError { sw1: u8, sw2: u8 },
}

/// `r` is the EXTERNAL AUTHENTICATE response for status (sw1, sw2).
pub open spec fn external_authenticate_response_is(r: ExternalAuthenticateResponse, sw1: u8, sw2: u8) -> bool {
    match r {
        ExternalAuthenticateResponse::Success => sw1 == 0x90 && sw2 == 0x00,
        ExternalAuthenticateResponse::SecurityStatusNotSatisfied => sw1 == 0x69 && sw2 == 0x82,
        ExternalAuthenticateResponse::RecordNotFound => sw1 == 0x6A && sw2 == 0x83,
        ExternalAuthenticateResponse::OtherError { sw1: a, sw2: b } => a == sw1 && b == sw2 && !(
        sw1 == 0x90 && sw2 == 0x00) && !(sw1 == 0x69 && sw2 == 0x82) && !(sw1 == 0x6A && sw2
            == 0x83),
    }
}

impl ExternalAuthenticateResponse {
    /// Classify raw response bytes
    pub fn from_bytes(data: &[u8]) -> (res: Result<Self, ResponseError>)
        ensures
            res is Err <==> data@.len() < 2,
            res matches Err(e) ==> e == ResponseError::Incomplete,
            res matches Ok(r) ==> external_authenticate_response_is(r, sw1_of(data@), sw2_of(data@)),
    {
        let ((sw1, sw2), _payload) = extract_response_parts(data)?;
        if sw1 == 0x90 && sw2 == 0x00 {
            Ok(ExternalAuthenticateResponse::Success)
        } else if sw1 == 0x69 && sw2 == 0x82 {
            Ok(ExternalAuthenticateResponse::SecurityStatusNotSatisfied)
        } else if sw1 == 0x6A && sw2 == 0x83 {
            Ok(ExternalAuthenticateResponse::RecordNotFound)
        } else {
            Ok(ExternalAuthenticateResponse::OtherError { sw1, sw2 })
        }
    }
}

/// Successful outcomes of PUT KEY
#[derive(Debug, Clone, PartialEq, Eq)]
pub enum PutKeyOk {
    /// Success response (9000)
    Success,
}

/// Failed outcomes of PUT KEY
#[derive(Debug, Clone, PartialEq, Eq)]
pub enum PutKeyError {
    /// Referenced data not found (6A88)
    ReferencedDataNotFound,
    /// Security status not satisfied (6982)
    SecurityStatusNotSatisfied,
    /// Wrong data (6A80)
    WrongData,
    /// Any other status word
    UnknownStatus { sw1: u8, sw2: u8 },
}

/// Outcome of PUT KEY
#[derive(Debug, PartialEq, Eq)]
pub struct PutKeyResult(pub Result<PutKeyOk, PutKeyError>);

/// `r` is the PUT KEY outcome for status (sw1, sw2).
pub open spec fn put_key_result_is(r: Result<PutKeyOk, PutKeyError>, sw1: u8, sw2: u8) -> bool {
    match r {
        Ok(PutKeyOk::Success) => sw1 == 0x90 && sw2 == 0x00,
        Err(PutKeyError::ReferencedDataNotFound) => sw1 == 0x6A && sw2 == 0x88,
        Err(PutKeyError::SecurityStatusNotSatisfied) => sw1 == 0x69 && sw2 == 0x82,
        Err(PutKeyError::WrongData) => sw1 == 0x6A && sw2 == 0x80,
        Err(PutKeyError::UnknownStatus { sw1: a, sw2: b }) => a == sw1 && b == sw2 && !(sw1
            == 0x90 && sw2 == 0x00) && !(sw1 == 0x6A && sw2 == 0x88) && !(sw1 == 0x69 && sw2
            == 0x82) && !(sw1 == 0x6A && sw2 == 0x80),
    }
}

impl PutKeyResult {
    /// Classify raw response bytes
    pub fn from_bytes(data: &[u8]) -> (res: Result<Self, ResponseError>)
        ensures
            res is Err <==> data@.len() < 2,
            res matches Err(e) ==> e == ResponseError::Incomplete,
            res matches Ok(r) ==> put_key_result_is(r.0, sw1_of(data@), sw2_of(data@)),
    {
        let ((sw1, sw2), _payload) = extract_response_parts(data)?;
        if sw1 == 0x90 && sw2 == 0x00 {
            Ok(PutKeyResult(Ok(PutKeyOk::Success)))
        } else if sw1 == 0x6A && sw2 == 0x88 {
            Ok(PutKeyResult(Err(PutKeyError::ReferencedDataNotFound)))
        } else if sw1 == 0x69 && sw2 == 0x82 {
            Ok(PutKeyResult(Err(PutKeyError::SecurityStatusNotSatisfied)))
        } else if sw1 == 0x6A && sw2 == 0x80 {
            Ok(PutKeyResult(Err(PutKeyError::WrongData)))
        } else {
            Ok(PutKeyResult(Err(PutKeyError::UnknownStatus { sw1, sw2 })))
        }
    }

    /// The outcome
    pub fn into_inner(self) -> (res: Result<PutKeyOk, PutKeyError>)
        ensures
            res == self.0,
    {
        self.0
    }
}

/// Successful outcomes of STORE DATA
#[derive(Debug, Clone, PartialEq, Eq)]
pub enum StoreDataOk {
    /// Success response (9000)
    Success,
}

/// Failed outcomes of STORE DATA
#[derive(Debug, Clone, PartialEq, Eq)]
pub enum StoreDataError {
    /// Referenced data not found (6A88)
    ReferencedDataNotFound,
    /// Security status not satisfied (6982)
    SecurityStatusNotSatisfied,
    /// Wrong data (6A80)
    WrongData,
    /// Any other status word
    UnknownStatus { sw1: u8, sw2: u8 },
    /// The response could not be read
    Response(ResponseError),
}

/// `r` is the STORE DATA outcome for raw response bytes `data`.
pub open spec fn store_data_result_is(r: Result<StoreDataOk, StoreDataError>, data: Seq<u8>) -> bool {
    if data.len() < 2 {
        r == Err::<StoreDataOk, StoreDataError>(StoreDataError::Response(ResponseError::Incomplete))
    } else {
        let sw1 = sw1_of(data);
        let sw2 = sw2_of(data);
        match r {
            Ok(StoreDataOk::Success) => sw1 == 0x90 && sw2 == 0x00,
            Err(StoreDataError::ReferencedDataNotFound) => sw1 == 0x6A && sw2 == 0x88,
            Err(StoreDataError::SecurityStatusNotSatisfied) => sw1 == 0x69 && sw2 == 0x82,
            Err(StoreDataError::WrongData) => sw1 == 0x6A && sw2 == 0x80,
            Err(StoreDataError::UnknownStatus { sw1: a, sw2: b }) => a == sw1 && b == sw2 && !(
            sw1 == 0x90 && sw2 == 0x00) && !(sw1 == 0x6A && sw2 == 0x88) && !(sw1 == 0x69 && sw2
                == 0x82) && !(sw1 == 0x6A && sw2 == 0x80),
            Err(StoreDataError::Response(_)) => false,
        }
    }
}

/// Parse the response to STORE DATA
pub fn parse_store_data_response(data: &[u8]) -> (res: Result<StoreDataOk, StoreDataError>)
    ensures
        store_data_result_is(res, data@),
{
    match extract_response_parts(data) {
        Err(e) => Err(StoreDataError::Response(e)),
        Ok(((sw1, sw2), _payload)) => {
            if sw1 == 0x90 && sw2 == 0x00 {
                Ok(StoreDataOk::Success)
            } else if sw1 == 0x6A && sw2 == 0x88 {
                Err(StoreDataError::ReferencedDataNotFound)
            } else if sw1 == 0x69 && sw2 == 0x82 {
                Err(StoreDataError::SecurityStatusNotSatisfied)
            } else if sw1 == 0x6A && sw2 == 0x80 {
                Err(StoreDataError::WrongData)
            } else {
                Err(StoreDataError::UnknownStatus { sw1, sw2 })
            }
        },
    }
}

/// Successful outcomes of GET RESPONSE
#[derive(Debug, Clone, PartialEq, Eq)]
pub enum GetResponseOk {
    /// Success response (9000)
    Success { data: Vec<u8> },
    /// More data available (61xx); `sw2` is the number of remaining bytes
    MoreData { sw2: u8, data: Vec<u8> },
}

/// Failed outcomes of GET RESPONSE
#[derive(Debug, Clone, PartialEq, Eq)]
pub enum GetResponseError {
    /// Wrong length (6700)
    WrongLength,
    /// Any other status word
    UnknownStatus { sw1: u8, sw2: u8 },
}

/// Outcome of GET RESPONSE
#[derive(Debug, PartialEq, Eq)]
pub struct GetResponseResult(pub Result<GetResponseOk, GetResponseError>);

/// `r` is the GET RESPONSE outcome for status (sw1, sw2) and the payload.
pub open spec fn get_response_result_is(r: Result<GetResponseOk, GetResponseError>, sw1: u8, sw2: u8, payload: Seq<u8>) -> bool {
    match r {
        Ok(GetResponseOk::Success { data }) => sw1 == 0x90 && sw2 == 0x00 && data@ == payload,
        Ok(GetResponseOk::MoreData { sw2: rem, data }) => sw1 == 0x61 && rem == sw2 && data@ == payload,
        Err(GetResponseError::WrongLength) => sw1 == 0x67 && sw2 == 0x00,
        Err(GetResponseError::UnknownStatus { sw1: a, sw2: b }) => a == sw1 && b == sw2 && !(sw1
            == 0x90 && sw2 == 0x00) && sw1 != 0x61 && !(sw1 == 0x67 && sw2 == 0x00),
    }
}

impl GetResponseResult {
    /// Classify raw response bytes
    pub fn from_bytes(data: &[u8]) -> (res: Result<Self, ResponseError>)
        ensures
            res is Err <==> data@.len() < 2,
            res matches Err(e) ==> e == ResponseError::Incomplete,
            res matches Ok(r) ==> get_response_result_is(r.0, sw1_of(data@), sw2_of(data@), spec_payload_part(data@)),
    {
        let ((sw1, sw2), payload) = extract_response_parts(data)?;
        if sw1 == 0x90 && sw2 == 0x00 {
            Ok(GetResponseResult(Ok(GetResponseOk::Success { data: bytes_to_vec(payload) })))
        } else if sw1 == 0x61 {
            Ok(GetResponseResult(Ok(GetResponseOk::MoreData { sw2, data: bytes_to_vec(payload) })))
        } else if sw1 == 0x67 && sw2 == 0x00 {
            Ok(GetResponseResult(Err(GetResponseError::WrongLength)))
        } else {
            Ok(GetResponseResult(Err(GetResponseError::UnknownStatus { sw1, sw2 })))
        }
    }

    /// The outcome
    pub fn into_inner(self) -> (res: Result<GetResponseOk, GetResponseError>)
        ensures
            res == self.0,
    {
        self.0
    }
}

impl GetResponseOk {
    /// Get the response data
    pub fn data(&self) -> (res: &Vec<u8>)
        ensures
            res@ == (match self {
                GetResponseOk::Success { data } => data@,
                GetResponseOk::MoreData { data, .. } => data@,
            }),
    {
        match self {
            GetResponseOk::Success { data } => data,
            GetResponseOk::MoreData { data, .. } => data,
        }
    }

    /// Check if more data is available
    pub fn has_more_data(&self) -> (res: bool)
        ensures
            res == (self is MoreData),
    {
        match self {
            GetResponseOk::MoreData { .. } => true,
            _ => false,
        }
    }

    /// Get the number of remaining bytes if more data is available
    pub fn remaining_bytes(&self) -> (res: Option<u8>)
        ensures
            res == (match self {
                GetResponseOk::MoreData { sw2, .. } => Some(*sw2),
                _ => None::<u8>,
            }),
    {
        match self {
            GetResponseOk::MoreData { sw2, .. } => Some(*sw2),
            _ => None,
        }
    }
}

/// Response to INITIALIZE UPDATE
#[derive(Debug, Clone, PartialEq, Eq)]
pub enum InitializeUpdateResponse {
    /// Success response (9000) with its 28 bytes of data split into fields
    Success {
        key_diversification_data: [u8; 10],
        key_info: [u8; 2],
        sequence_counter: [u8; 2],
        card_challenge: [u8; 6],
        card_cryptogram: [u8; 8],
    },
    /// Security condition not satisfied (6982)
    SecurityConditionNotSatisfied,
    /// Authentication method blocked (6983)
    AuthenticationMethodBlocked,
    /// Other error
    OtherError { sw1: u8, sw2: u8 },
}

/// `r` is the INITIALIZE UPDATE response for status (sw1, sw2) and the payload.
pub open spec fn initialize_update_response_is(r: InitializeUpdateResponse, sw1: u8, sw2: u8, p: Seq<u8>) -> bool {
    match r {
        InitializeUpdateResponse::Success {
            key_diversification_data,
            key_info,
            sequence_counter,
            card_challenge,
            card_cryptogram,
        } => {
            &&& sw1 == 0x90 && sw2 == 0x00 && p.len() == 28
            &&& key_diversification_data@ == p.subrange(0, 10)
            &&& key_info@ == p.subrange(10, 12)
            &&& sequence_counter@ == p.subrange(12, 14)
            &&& card_challenge@ == p.subrange(14, 20)
            &&& card_cryptogram@ == p.subrange(20, 28)
        },
        InitializeUpdateResponse::SecurityConditionNotSatisfied => sw1 == 0x69 && sw2 == 0x82,
        InitializeUpdateResponse::AuthenticationMethodBlocked => sw1 == 0x69 && sw2 == 0x83,
        InitializeUpdateResponse::OtherError { sw1: a, sw2: b } => a == sw1 && b == sw2 && !(sw1
            == 0x90 && sw2 == 0x00) && !(sw1 == 0x69 && sw2 == 0x82) && !(sw1 == 0x69 && sw2
            == 0x83),
    }
}

/// Copy `N` bytes of `s` starting at `start` into an array
fn take_array<const N: usize>(s: &[u8], start: usize) -> (res: [u8; N])
    requires
        start + N <= s@.len(),
    ensures
        res@ == s@.subrange(start as int, start + N),
{
    let n = s.len();
    let mut a: [u8; N] = [0u8; N];
    let mut i: usize = 0;
    while i < N
        invariant
            i <= N,
            start + N <= s@.len(),
            n == s@.len(),
            forall|k: int| 0 <= k < i ==> a@[k] == s@[start + k],
        decreases N - i,
    {
        a[i] = s[start + i];
        i = i + 1;
    }
    assert(a@ =~= s@.subrange(start as int, start + N));
    a
}

impl InitializeUpdateResponse {
    /// Classify raw response bytes; a success response must carry exactly 28 bytes of data
    pub fn from_bytes(data: &[u8]) -> (res: Result<Self, ResponseError>)
        ensures
            res is Err <==> (data@.len() < 2 || (sw1_of(data@) == 0x90 && sw2_of(data@) == 0x00
                && spec_payload_part(data@).len() != 28)),
            res matches Err(e) ==> (if data@.len() < 2 {
                e == ResponseError::Incomplete
            } else {
                e == ResponseError::Parse("Response data incorrect length")
            }),
            res matches Ok(r) ==> initialize_update_response_is(r, sw1_of(data@), sw2_of(data@), spec_payload_part(data@)),
    {
        let ((sw1, sw2), payload) = extract_response_parts(data)?;
        if sw1 == 0x90 && sw2 == 0x00 {
            if payload.len() != 28 {
                return Err(ResponseError::Parse("Response data incorrect length"));
            }
            let key_diversification_data = take_array::<10>(payload, 0);
            let key_info = take_array::<2>(payload, 10);
            let sequence_counter = take_array::<2>(payload, 12);
            let card_challenge = take_array::<6>(payload, 14);
            let card_cryptogram = take_array::<8>(payload, 20);
            Ok(InitializeUpdateResponse::Success {
                key_diversification_data,
                key_info,
                sequence_counter,
                card_challenge,
                card_cryptogram,
            })
        } else if sw1 == 0x69 && sw2 == 0x82 {
            Ok(InitializeUpdateResponse::SecurityConditionNotSatisfied)
        } else if sw1 == 0x69 && sw2 == 0x83 {
            Ok(InitializeUpdateResponse::AuthenticationMethodBlocked)
        } else {
            Ok(InitializeUpdateResponse::OtherError { sw1, sw2 })
        }
    }

    /// Get the SCP version (second key information byte)
    pub fn scp_version(&self) -> (res: Option<u8>)
        ensures
            res == (match self {
                InitializeUpdateResponse::Success { key_info, .. } => Some(key_info@[1]),
                _ => None::<u8>,
            }),
    {
        match self {
            InitializeUpdateResponse::Success { key_info, .. } => Some(key_info[1]),
            _ => None,
        }
    }

    /// Get the key version number (first key information byte)
    pub fn key_version_number(&self) -> (res: Option<u8>)
        ensures
            res == (match self {
                InitializeUpdateResponse::Success { key_info, .. } => Some(key_info@[0]),
                _ => None::<u8>,
            }),
    {
        match self {
            InitializeUpdateResponse::Success { key_info, .. } => Some(key_info[0]),
            _ => None,
        }
    }

    /// Get the sequence counter
    pub fn sequence_counter(&self) -> (res: Option<&[u8]>)
        ensures
            res is Some <==> self is Success,
            res matches Some(s) ==> (self matches InitializeUpdateResponse::Success { sequence_counter, .. }
                && s@ == sequence_counter@),
    {
        match self {
            InitializeUpdateResponse::Success { sequence_counter, .. } => Some(sequence_counter.as_slice()),
            _ => None,
        }
    }

    /// Get the security level supported by the card (second key information byte)
    pub fn security_level(&self) -> (res: Option<u8>)
        ensures
            res == (match self {
                InitializeUpdateResponse::Success { key_info, .. } => Some(key_info@[1]),
                _ => None::<u8>,
            }),
    {
        match self {
            InitializeUpdateResponse::Success { key_info, .. } => Some(key_info[1]),
            _ => None,
        }
    }
}

} // verus!
