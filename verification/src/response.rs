//! APDU responses: splitting raw response bytes into payload and status word,
//! and the `Response` value with its byte encoding.
use vstd::prelude::*;

use crate::error::{ResponseError, StatusError};
use crate::status::StatusWord;

verus! {

/// The payload of raw response bytes: everything but the trailing two status bytes.
pub open spec fn spec_payload_part(data: Seq<u8>) -> Seq<u8> {
    data.subrange(0, data.len() - 2)
}

/// Extract status word (SW1, SW2) and payload from raw APDU response data
///
/// Fails with `ResponseError::Incomplete` exactly when the data is shorter than two bytes.
pub fn extract_response_parts(data: &[u8]) -> (res: Result<((u8, u8), &[u8]), ResponseError>)
    ensures
        data@.len() < 2 <==> res is Err,
        res matches Err(e) ==> e == ResponseError::Incomplete,
        res matches Ok(((sw1, sw2), payload)) ==> {
            &&& sw1 == data@[data@.len() - 2]
            &&& sw2 == data@[data@.len() - 1]
            &&& payload@ == spec_payload_part(data@)
        },
{
    if data.len() < 2 {
        return Err(ResponseError::Incomplete);
    }
    let len = data.len();
    let sw1 = data[len - 2];
    let sw2 = data[len - 1];
    let payload = &data[0..len - 2];
    Ok(((sw1, sw2), payload))
}

/// Extract status word as a StatusWord object and payload from raw APDU response data
pub fn extract_status_and_payload(data: &[u8]) -> (res: Result<(StatusWord, &[u8]), ResponseError>)
    ensures
        data@.len() < 2 <==> res is Err,
        res matches Err(e) ==> e == ResponseError::Incomplete,
        res matches Ok((sw, payload)) ==> {
            &&& sw.sw1 == data@[data@.len() - 2]
            &&& sw.sw2 == data@[data@.len() - 1]
            &&& payload@ == spec_payload_part(data@)
        },
{
    let ((sw1, sw2), payload) = extract_response_parts(data)?;
    Ok((StatusWord::new(sw1, sw2), payload))
}

/// Basic APDU response structure
#[derive(Debug, Clone, PartialEq, Eq)]
pub struct Response {
    /// Response payload data
    payload: Option<Vec<u8>>,
    /// Status word
    status: StatusWord,
}

/// Abstract value of a response: its payload (if any) and its status word.
pub struct ResponseView {
    /// Payload bytes, if the response carries a payload
    pub payload: Option<Seq<u8>>,
    /// Status word
    pub status: StatusWord,
}

/// View of an optional byte vector
pub open spec fn opt_view(o: Option<Vec<u8>>) -> Option<Seq<u8>> {
    match o {
        Some(v) => Some(v@),
        None => None,
    }
}

impl View for Response {
    type V = ResponseView;

    closed spec fn view(&self) -> ResponseView {
        ResponseView { payload: opt_view(self.payload), status: self.status }
    }
}

/// The response that raw response bytes decode to (if they hold a status word):
/// an empty payload decodes as no payload.
pub open spec fn spec_response_from_bytes(data: Seq<u8>) -> Option<ResponseView> {
    if data.len() < 2 {
        None
    } else {
        let p = spec_payload_part(data);
        Some(ResponseView {
            payload: if p.len() == 0 { None } else { Some(p) },
            status: StatusWord { sw1: data[data.len() - 2], sw2: data[data.len() - 1] },
        })
    }
}

/// Byte encoding of a response: payload followed by SW1 and SW2.
pub open spec fn spec_response_to_bytes(r: ResponseView) -> Seq<u8> {
    let p = match r.payload {
        Some(p) => p,
        None => Seq::empty(),
    };
    p.push(r.status.sw1).push(r.status.sw2)
}

/// Copy a byte slice into a new vector.
pub fn bytes_to_vec(s: &[u8]) -> (res: Vec<u8>)
    ensures
        res@ == s@,
{
    let mut v: Vec<u8> = Vec::with_capacity(s.len());
    let mut i: usize = 0;
    while i < s.len()
        invariant
            i <= s@.len(),
            v@ == s@.subrange(0, i as int),
        decreases s@.len() - i,
    {
        v.push(s[i]);
        i = i + 1;
    }
    v
}

/// Append the bytes of a slice to a vector.
pub fn append_bytes(v: &mut Vec<u8>, s: &[u8])
    ensures
        final(v)@ == old(v)@ + s@,
{
    let mut i: usize = 0;
    let ghost start = v@;
    while i < s.len()
        invariant
            i <= s@.len(),
            v@ == start + s@.subrange(0, i as int),
        decreases s@.len() - i,
    {
        v.push(s[i]);
        i = i + 1;
    }
}

impl Response {
    /// Create a new response with payload and status
    pub fn new(payload: Option<Vec<u8>>, status: StatusWord) -> (res: Self)
        ensures
            res@.payload == opt_view(payload),
            res@.status == status,
    {
        Self { payload, status }
    }

    /// Create a success response
    pub fn success(payload: Option<Vec<u8>>) -> (res: Self)
        ensures
            res@.payload == opt_view(payload),
            res@.status == (StatusWord { sw1: 0x90, sw2: 0x00 }),
    {
        Self { payload, status: StatusWord { sw1: 0x90, sw2: 0x00 } }
    }

    /// Create an error response from a status word
    pub fn error(status: StatusWord) -> (res: Self)
        ensures
            res@.payload.is_none(),
            res@.status == status,
    {
        Self { payload: None, status }
    }

    /// Parse response from raw bytes (including status word)
    pub fn from_bytes(data: &[u8]) -> (res: Result<Self, ResponseError>)
        ensures
            data@.len() < 2 <==> res is Err,
            res matches Err(e) ==> e == ResponseError::Incomplete,
            res matches Ok(r) ==> spec_response_from_bytes(data@) == Some(r@),
    {
        let (status, payload) = extract_status_and_payload(data)?;
        let payload = if payload.len() == 0 { None } else { Some(bytes_to_vec(payload)) };
        Ok(Self { payload, status })
    }

    /// Get the response payload data
    pub fn payload(&self) -> (res: &Option<Vec<u8>>)
        ensures
            opt_view(*res) == self@.payload,
    {
        &self.payload
    }

    /// Get the status word
    pub fn status(&self) -> (res: StatusWord)
        ensures
            res == self@.status,
    {
        self.status
    }

    /// Check if the response indicates success
    pub fn is_success(&self) -> (res: bool)
        ensures
            res == (self@.status.sw1 == 0x90 && self@.status.sw2 == 0x00),
    {
        self.status.is_success()
    }

    /// Get the status word as a tuple (SW1, SW2)
    pub fn status_tuple(&self) -> (res: (u8, u8))
        ensures
            res == (self@.status.sw1, self@.status.sw2),
    {
        (self.status.sw1, self.status.sw2)
    }

    /// Convert to a bytes result: the payload on success, the status as an error otherwise
    pub fn into_bytes_result(self) -> (res: Result<Option<Vec<u8>>, StatusError>)
        ensures
            (self@.status.sw1 == 0x90 && self@.status.sw2 == 0x00) <==> res is Ok,
            res matches Ok(p) ==> opt_view(p) == self@.payload,
            res matches Err(e) ==> e.status == self@.status && e.message.is_none(),
    {
        if self.is_success() {
            Ok(self.payload)
        } else {
            Err(StatusError::new(self.status.sw1, self.status.sw2))
        }
    }

    /// Convert to a bytes reference result
    pub fn as_bytes_result(&self) -> (res: Result<&Option<Vec<u8>>, ResponseError>)
        ensures
            (self@.status.sw1 == 0x90 && self@.status.sw2 == 0x00) <==> res is Ok,
            res matches Ok(p) ==> opt_view(*p) == self@.payload,
            res matches Err(e) ==> e matches ResponseError::Status(se) && se.status == self@.status
                && se.message.is_none(),
    {
        if self.is_success() {
            Ok(&self.payload)
        } else {
            Err(ResponseError::Status(StatusError::new(self.status.sw1, self.status.sw2)))
        }
    }

    /// Encode the response as raw bytes: payload followed by SW1 SW2
    pub fn to_bytes(&self) -> (res: Vec<u8>)
        ensures
            res@ == spec_response_to_bytes(self@),
    {
        let mut buf: Vec<u8> = Vec::new();
        match &self.payload {
            Some(p) => {
                append_bytes(&mut buf, p.as_slice());
            },
            None => {},
        }
        buf.push(self.status.sw1);
        buf.push(self.status.sw2);
        buf
    }
}

/// Decoding the encoding of a response gives the response back, unless the
/// response carries an empty payload (which decodes as no payload).
pub proof fn lemma_response_encode_decode(r: ResponseView)
    requires
        r.payload matches Some(p) ==> p.len() > 0,
    ensures
        spec_response_from_bytes(spec_response_to_bytes(r)) == Some(r),
{
    let b = spec_response_to_bytes(r);
    let p = match r.payload { Some(p) => p, None => Seq::<u8>::empty() };
    assert(spec_payload_part(b) =~= p);
}

/// Encoding the decoded form of raw response bytes gives the same bytes.
pub proof fn lemma_response_decode_encode(data: Seq<u8>)
    requires
        data.len() >= 2,
    ensures
        spec_response_from_bytes(data) matches Some(r) && spec_response_to_bytes(r) == data,
{
    let r = spec_response_from_bytes(data).unwrap();
    assert(spec_response_to_bytes(r) =~= data);
}

/// Trait for APDU responses
pub trait ApduResponse: Sized {
    /// The payload of a response, if any
    spec fn payload_view(&self) -> Option<Seq<u8>>;

    /// The status word of a response
    spec fn status_view(&self) -> StatusWord;

    /// What parsing raw response bytes gives, as each response type defines it
    spec fn parses(data: Seq<u8>, res: Result<Self, ResponseError>) -> bool;

    /// Get the response payload data
    fn payload(&self) -> (res: &Option<Vec<u8>>)
        ensures
            opt_view(*res) == self.payload_view(),
    ;

    /// Get the status word
    fn status(&self) -> (res: StatusWord)
        ensures
            res == self.status_view(),
    ;

    /// Check if the response indicates success (90 00)
    fn is_success(&self) -> (res: bool)
        ensures
            res == (self.status_view().sw1 == 0x90 && self.status_view().sw2 == 0x00),
    {
        self.status().is_success()
    }

    /// Create from raw APDU response data
    fn from_bytes(data: &[u8]) -> (res: Result<Self, ResponseError>)
        ensures
            Self::parses(data@, res),
    ;
}

/// Trait for types that can be created from APDU response data
pub trait FromApduResponse: Sized {
    /// What converting raw response data gives, as each type defines it
    spec fn converts(data: Seq<u8>, res: Result<Self, ResponseError>) -> bool;

    /// Convert raw APDU response data to this type
    fn from_response(data: &[u8]) -> (res: Result<Self, ResponseError>)
        ensures
            Self::converts(data@, res),
    ;
}

/// Parsing a response: an incomplete response below two bytes, otherwise the payload and
/// status word the bytes hold
pub open spec fn response_parses(data: Seq<u8>, res: Result<Response, ResponseError>) -> bool {
    match spec_response_from_bytes(data) {
        Some(v) => res matches Ok(r) && r@ == v,
        None => res == Err::<Response, ResponseError>(ResponseError::Incomplete),
    }
}

impl ApduResponse for Response {
    open spec fn payload_view(&self) -> Option<Seq<u8>> {
        self@.payload
    }

    open spec fn status_view(&self) -> StatusWord {
        self@.status
    }

    open spec fn parses(data: Seq<u8>, res: Result<Response, ResponseError>) -> bool {
        response_parses(data, res)
    }

    fn payload(&self) -> &Option<Vec<u8>> {
        Response::payload(self)
    }

    fn status(&self) -> StatusWord {
        Response::status(self)
    }

    fn from_bytes(data: &[u8]) -> Result<Response, ResponseError> {
        Response::from_bytes(data)
    }
}

impl FromApduResponse for Response {
    open spec fn converts(data: Seq<u8>, res: Result<Response, ResponseError>) -> bool {
        response_parses(data, res)
    }

    /// A response is read from its raw bytes as `from_bytes` reads it
    fn from_response(data: &[u8]) -> Result<Response, ResponseError> {
        Response::from_bytes(data)
    }
}

} // verus!
