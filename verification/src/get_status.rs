//! GET STATUS responses and the registry entries (applications and load files) they list.
use vstd::prelude::*;

use crate::error::ResponseError;
use crate::gp_responses::{sw1_of, sw2_of};
use crate::response::{bytes_to_vec, extract_response_parts, spec_payload_part};
use crate::tlv::{find_all_tlv_values, find_tlv_value, lemma_values_with_tag_filter, spec_find_all_tlv_values, spec_find_tlv_value, spec_simple_tlv_parse_all};

verus! {

/// Application information from GET STATUS
#[derive(Debug, Clone, PartialEq, Eq)]
pub struct ApplicationInfo {
    /// AID of the application
    pub aid: Vec<u8>,
    /// Lifecycle state
    pub lifecycle: u8,
    /// Privileges
    pub privileges: Vec<u8>,
}

/// Abstract value of an application entry
pub struct ApplicationInfoView {
    /// AID
    pub aid: Seq<u8>,
    /// Lifecycle state
    pub lifecycle: u8,
    /// Privileges
    pub privileges: Seq<u8>,
}

impl View for ApplicationInfo {
    type V = ApplicationInfoView;

    open spec fn view(&self) -> ApplicationInfoView {
        ApplicationInfoView { aid: self.aid@, lifecycle: self.lifecycle, privileges: self.privileges@ }
    }
}

/// Load file information from GET STATUS
#[derive(Debug, Clone, PartialEq, Eq)]
pub struct LoadFileInfo {
    /// AID of the load file
    pub aid: Vec<u8>,
    /// Lifecycle state
    pub lifecycle: u8,
    /// Associated modules (if requested)
    pub modules: Vec<Vec<u8>>,
}

/// Abstract value of a load file entry
pub struct LoadFileInfoView {
    /// AID
    pub aid: Seq<u8>,
    /// Lifecycle state
    pub lifecycle: u8,
    /// Module AIDs
    pub modules: Seq<Seq<u8>>,
}

impl View for LoadFileInfo {
    type V = LoadFileInfoView;

    open spec fn view(&self) -> LoadFileInfoView {
        LoadFileInfoView {
            aid: self.aid@,
            lifecycle: self.lifecycle,
            modules: Seq::new(self.modules@.len(), |i: int| self.modules@[i]@),
        }
    }
}

/// Lifecycle byte of an entry: first byte of the C5 value, 0 when absent or empty.
pub open spec fn spec_lifecycle(entry: Seq<u8>) -> u8 {
    match spec_find_tlv_value(entry, 0xC5) {
        Some(d) => if d.len() == 0 { 0 } else { d[0] },
        None => 0,
    }
}

/// An application entry: AID (tag 4F, mandatory), lifecycle (C5) and privileges (C6).
pub open spec fn spec_parse_application_entry(entry: Seq<u8>) -> Option<ApplicationInfoView> {
    match spec_find_tlv_value(entry, 0x4F) {
        Some(aid) => Some(ApplicationInfoView {
            aid,
            lifecycle: spec_lifecycle(entry),
            privileges: match spec_find_tlv_value(entry, 0xC6) {
                Some(p) => p,
                None => Seq::empty(),
            },
        }),
        None => None,
    }
}

/// A load file entry: AID (tag 4F, mandatory), lifecycle (C5) and module AIDs (all 84 objects).
pub open spec fn spec_parse_load_file_entry(entry: Seq<u8>) -> Option<LoadFileInfoView> {
    match spec_find_tlv_value(entry, 0x4F) {
        Some(aid) => Some(LoadFileInfoView {
            aid,
            lifecycle: spec_lifecycle(entry),
            modules: spec_find_all_tlv_values(entry, 0x84),
        }),
        None => None,
    }
}

/// Parse a single application entry
pub fn parse_application_entry(data: &[u8]) -> (res: Option<ApplicationInfo>)
    ensures
        res is Some <==> spec_parse_application_entry(data@) is Some,
        res matches Some(a) ==> spec_parse_application_entry(data@) == Some(a@),
{
    let aid = find_tlv_value(data, 0x4F)?;
    let lifecycle = match find_tlv_value(data, 0xC5) {
        Some(d) => if d.len() == 0 { 0 } else { d[0] },
        None => 0,
    };
    let privileges = match find_tlv_value(data, 0xC6) {
        Some(p) => p,
        None => Vec::new(),
    };
    let r = ApplicationInfo { aid, lifecycle, privileges };
    proof {
        assert(spec_parse_application_entry(data@).unwrap().privileges =~= r.privileges@);
    }
    Some(r)
}

/// Parse a single load file entry
pub fn parse_load_file_entry(data: &[u8]) -> (res: Option<LoadFileInfo>)
    ensures
        res is Some <==> spec_parse_load_file_entry(data@) is Some,
        res matches Some(a) ==> spec_parse_load_file_entry(data@) == Some(a@),
{
    let aid = find_tlv_value(data, 0x4F)?;
    let lifecycle = match find_tlv_value(data, 0xC5) {
        Some(d) => if d.len() == 0 { 0 } else { d[0] },
        None => 0,
    };
    let modules = find_all_tlv_values(data, 0x84);
    let r = LoadFileInfo { aid, lifecycle, modules };
    proof {
        assert(r@.modules =~= spec_find_all_tlv_values(data@, 0x84));
    }
    Some(r)
}

/// The scan over the entries of a GET STATUS payload never reads past the end:
/// an entry tag is never the last byte.
pub open spec fn entry_scan_safe(data: Seq<u8>, tag: u8, index: int) -> bool
    decreases data.len() - index,
{
    if index < 0 || index >= data.len() {
        true
    } else {
        &&& (data[index] == tag ==> index + 1 < data.len())
        &&& (index + 1 < data.len() && index + 2 + data[index + 1] as int <= data.len()
            ==> entry_scan_safe(data, tag, index + 2 + data[index + 1] as int))
    }
}

/// Check that scanning `data` for entries with the given tag never reads past the end
pub fn is_entry_scan_safe(data: &[u8], tag: u8) -> (res: bool)
    ensures
        res == entry_scan_safe(data@, tag, 0),
{
    let n = data.len();
    let mut index: usize = 0;
    while index < n
        invariant
            n == data@.len(),
            index <= n,
            entry_scan_safe(data@, tag, 0) == entry_scan_safe(data@, tag, index as int),
        decreases n - index,
    {
        if data[index] == tag && index + 1 >= n {
            return false;
        }
        if index + 1 < n && (data[index + 1] as usize) <= n - index - 2 {
            index = index + 2 + data[index + 1] as usize;
        } else {
            return true;
        }
    }
    true
}

/// The bytes of the entry whose tag stands at `index` (cut at the end of the data).
pub open spec fn entry_body(data: Seq<u8>, index: int) -> Seq<u8> {
    let end = if index + 2 + data[index + 1] as int <= data.len() {
        index + 2 + data[index + 1] as int
    } else {
        data.len() as int
    };
    data.subrange(index + 2, end)
}

/// The bodies of the entries with the given tag, scanning the TLV objects from `index`.
pub open spec fn entry_bodies(data: Seq<u8>, tag: u8, index: int) -> Seq<Seq<u8>>
    decreases data.len() - index,
{
    if index < 0 || index >= data.len() {
        Seq::empty()
    } else {
        let here = if data[index] == tag && index + 1 < data.len() {
            seq![entry_body(data, index)]
        } else {
            Seq::empty()
        };
        if index + 1 < data.len() && index + 2 + data[index + 1] as int <= data.len() {
            here + entry_bodies(data, tag, index + 2 + data[index + 1] as int)
        } else {
            here
        }
    }
}

/// The application entries (tag E3) that parse, in order.
pub open spec fn spec_application_entries(bodies: Seq<Seq<u8>>) -> Seq<ApplicationInfoView>
    decreases bodies.len(),
{
    if bodies.len() == 0 {
        Seq::empty()
    } else {
        let rest = spec_application_entries(bodies.drop_last());
        match spec_parse_application_entry(bodies.last()) {
            Some(a) => rest.push(a),
            None => rest,
        }
    }
}

/// The load file entries (tag E2) that parse, in order.
pub open spec fn spec_load_file_entries(bodies: Seq<Seq<u8>>) -> Seq<LoadFileInfoView>
    decreases bodies.len(),
{
    if bodies.len() == 0 {
        Seq::empty()
    } else {
        let rest = spec_load_file_entries(bodies.drop_last());
        match spec_parse_load_file_entry(bodies.last()) {
            Some(a) => rest.push(a),
            None => rest,
        }
    }
}

/// Find the entry bodies with the given tag
fn collect_entry_bodies(data: &[u8], tag: u8) -> (res: Vec<Vec<u8>>)
    requires
        entry_scan_safe(data@, tag, 0),
    ensures
        res@.len() == entry_bodies(data@, tag, 0).len(),
        forall|i: int| 0 <= i < res@.len() ==> #[trigger] res@[i]@ == entry_bodies(data@, tag, 0)[i],
{
    let n = data.len();
    let mut result: Vec<Vec<u8>> = Vec::new();
    let mut index: usize = 0;
    let ghost views: Seq<Seq<u8>> = Seq::empty();
    while index < n
        invariant
            n == data@.len(),
            entry_scan_safe(data@, tag, index as int),
            result@.len() == views.len(),
            forall|i: int| 0 <= i < views.len() ==> #[trigger] result@[i]@ == views[i],
            views + entry_bodies(data@, tag, index as int) == entry_bodies(data@, tag, 0),
        decreases n - index,
    {
        let ghost old_index = index as int;
        if data[index] == tag {
            let len = data[index + 1] as usize;
            let entry_end = if len <= n - (index + 2) { index + 2 + len } else { n };
            let body = bytes_to_vec(&data[index + 2..entry_end]);
            proof {
                assert(body@ == entry_body(data@, old_index));
                views = views.push(body@);
            }
            result.push(body);
        }
        if index + 1 < n {
            let step = 2 + data[index + 1] as usize;
            if step >= n - index {
                proof {
                    assert(entry_bodies(data@, tag, old_index + step) =~= Seq::<Seq<u8>>::empty());
                    assert(views + entry_bodies(data@, tag, old_index + step) =~= entry_bodies(data@, tag, 0));
                }
                index = n;
            } else {
                index = index + step;
                proof {
                    assert(views + entry_bodies(data@, tag, index as int) =~= entry_bodies(data@, tag, 0));
                }
            }
        } else {
            proof {
                assert(views + entry_bodies(data@, tag, n as int) =~= entry_bodies(data@, tag, 0));
            }
            index = n;
        }
    }
    proof {
        assert(views =~= entry_bodies(data@, tag, 0));
    }
    result
}

/// Parse application entries (tag E3) from GET STATUS response data
pub fn parse_application_entries(data: &[u8]) -> (res: Vec<ApplicationInfo>)
    requires
        entry_scan_safe(data@, 0xE3, 0),
    ensures
        res@.len() == spec_application_entries(entry_bodies(data@, 0xE3, 0)).len(),
        forall|i: int| 0 <= i < res@.len() ==> #[trigger] res@[i]@ == spec_application_entries(entry_bodies(data@, 0xE3, 0))[i],
{
    let bodies = collect_entry_bodies(data, 0xE3);
    let ghost all = entry_bodies(data@, 0xE3, 0);
    let mut result: Vec<ApplicationInfo> = Vec::new();
    let mut i: usize = 0;
    while i < bodies.len()
        invariant
            i <= bodies@.len(),
            bodies@.len() == all.len(),
            forall|k: int| 0 <= k < bodies@.len() ==> #[trigger] bodies@[k]@ == all[k],
            result@.len() == spec_application_entries(all.subrange(0, i as int)).len(),
            forall|k: int| 0 <= k < result@.len() ==> #[trigger] result@[k]@ == spec_application_entries(all.subrange(0, i as int))[k],
        decreases bodies@.len() - i,
    {
        proof {
            assert(all.subrange(0, i + 1).drop_last() =~= all.subrange(0, i as int));
        }
        match parse_application_entry(bodies[i].as_slice()) {
            Some(info) => result.push(info),
            None => {},
        }
        i = i + 1;
    }
    proof { assert(all.subrange(0, all.len() as int) =~= all); }
    result
}

/// Parse load file entries (tag E2) from GET STATUS response data
pub fn parse_load_file_entries(data: &[u8]) -> (res: Vec<LoadFileInfo>)
    requires
        entry_scan_safe(data@, 0xE2, 0),
    ensures
        res@.len() == spec_load_file_entries(entry_bodies(data@, 0xE2, 0)).len(),
        forall|i: int| 0 <= i < res@.len() ==> #[trigger] res@[i]@ == spec_load_file_entries(entry_bodies(data@, 0xE2, 0))[i],
{
    let bodies = collect_entry_bodies(data, 0xE2);
    let ghost all = entry_bodies(data@, 0xE2, 0);
    let mut result: Vec<LoadFileInfo> = Vec::new();
    let mut i: usize = 0;
    while i < bodies.len()
        invariant
            i <= bodies@.len(),
            bodies@.len() == all.len(),
            forall|k: int| 0 <= k < bodies@.len() ==> #[trigger] bodies@[k]@ == all[k],
            result@.len() == spec_load_file_entries(all.subrange(0, i as int)).len(),
            forall|k: int| 0 <= k < result@.len() ==> #[trigger] result@[k]@ == spec_load_file_entries(all.subrange(0, i as int))[k],
        decreases bodies@.len() - i,
    {
        proof {
            assert(all.subrange(0, i + 1).drop_last() =~= all.subrange(0, i as int));
        }
        match parse_load_file_entry(bodies[i].as_slice()) {
            Some(info) => result.push(info),
            None => {},
        }
        i = i + 1;
    }
    proof { assert(all.subrange(0, all.len() as int) =~= all); }
    result
}

/// Response to GET STATUS
#[derive(Debug, Clone, PartialEq, Eq)]
pub enum GetStatusResponse {
    /// Success (9000) with the registry data
    Success { tlv_data: Vec<u8> },
    /// More data available (61xx)
    MoreData { sw2: u8, tlv_data: Vec<u8> },
    /// Referenced data not found (6A88)
    ReferencedDataNotFound,
    /// Security condition not satisfied (6982)
    SecurityConditionNotSatisfied,
    /// Other error
    OtherError { sw1: u8, sw2: u8 },
}

/// `r` is the GET STATUS response for status (sw1, sw2) and the payload.
pub open spec fn get_status_response_is(r: GetStatusResponse, sw1: u8, sw2: u8, payload: Seq<u8>) -> bool {
    match r {
        GetStatusResponse::Success { tlv_data } => sw1 == 0x90 && sw2 == 0x00 && tlv_data@ == payload,
        GetStatusResponse::MoreData { sw2: rem, tlv_data } => sw1 == 0x61 && rem == sw2 && tlv_data@ == payload,
        GetStatusResponse::ReferencedDataNotFound => sw1 == 0x6A && sw2 == 0x88,
        GetStatusResponse::SecurityConditionNotSatisfied => sw1 == 0x69 && sw2 == 0x82,
        GetStatusResponse::OtherError { sw1: a, sw2: b } => a == sw1 && b == sw2 && !(sw1 == 0x90
            && sw2 == 0x00) && sw1 != 0x61 && !(sw1 == 0x6A && sw2 == 0x88) && !(sw1 == 0x69
            && sw2 == 0x82),
    }
}

impl GetStatusResponse {
    /// Classify raw response bytes
    pub fn from_bytes(data: &[u8]) -> (res: Result<Self, ResponseError>)
        ensures
            res is Err <==> data@.len() < 2,
            res matches Err(e) ==> e == ResponseError::Incomplete,
            res matches Ok(r) ==> get_status_response_is(r, sw1_of(data@), sw2_of(data@), spec_payload_part(data@)),
    {
        let ((sw1, sw2), payload) = extract_response_parts(data)?;
        if sw1 == 0x90 && sw2 == 0x00 {
            Ok(GetStatusResponse::Success { tlv_data: bytes_to_vec(payload) })
        } else if sw1 == 0x61 {
            Ok(GetStatusResponse::MoreData { sw2, tlv_data: bytes_to_vec(payload) })
        } else if sw1 == 0x6A && sw2 == 0x88 {
            Ok(GetStatusResponse::ReferencedDataNotFound)
        } else if sw1 == 0x69 && sw2 == 0x82 {
            Ok(GetStatusResponse::SecurityConditionNotSatisfied)
        } else {
            Ok(GetStatusResponse::OtherError { sw1, sw2 })
        }
    }

    /// The registry data carried by a successful or partial response
    pub open spec fn tlv_view(&self) -> Option<Seq<u8>> {
        match self {
            GetStatusResponse::Success { tlv_data } => Some(tlv_data@),
            GetStatusResponse::MoreData { tlv_data, .. } => Some(tlv_data@),
            _ => None,
        }
    }

    /// Get the TLV data
    pub fn tlv_data(&self) -> (res: Option<&[u8]>)
        ensures
            res is Some <==> self.tlv_view() is Some,
            res matches Some(d) ==> self.tlv_view() == Some(d@),
    {
        match self {
            GetStatusResponse::Success { tlv_data } => Some(tlv_data.as_slice()),
            GetStatusResponse::MoreData { tlv_data, .. } => Some(tlv_data.as_slice()),
            _ => None,
        }
    }

    /// Check if more data is available
    pub fn has_more_data(&self) -> (res: bool)
        ensures
            res == (self is MoreData),
    {
        match self {
            GetStatusResponse::MoreData { .. } => true,
            _ => false,
        }
    }

    /// Get the number of remaining bytes if more data is available
    pub fn remaining_bytes(&self) -> (res: Option<u8>)
        ensures
            res == (match self {
                GetStatusResponse::MoreData { sw2, .. } => Some(*sw2),
                _ => None::<u8>,
            }),
    {
        match self {
            GetStatusResponse::MoreData { sw2, .. } => Some(*sw2),
            _ => None,
        }
    }

    /// Parse application entries (empty when there is no registry data)
    pub fn parse_applications(&self) -> (res: Vec<ApplicationInfo>)
        requires
            self.tlv_view() matches Some(d) ==> entry_scan_safe(d, 0xE3, 0),
        ensures
            self.tlv_view() is None ==> res@.len() == 0,
            self.tlv_view() matches Some(d) ==> {
                &&& res@.len() == spec_application_entries(entry_bodies(d, 0xE3, 0)).len()
                &&& forall|i: int| 0 <= i < res@.len() ==> #[trigger] res@[i]@ == spec_application_entries(entry_bodies(d, 0xE3, 0))[i]
            },
    {
        match self.tlv_data() {
            Some(data) => parse_application_entries(data),
            None => Vec::new(),
        }
    }

    /// Parse load file entries (empty when there is no registry data)
    pub fn parse_load_files(&self) -> (res: Vec<LoadFileInfo>)
        requires
            self.tlv_view() matches Some(d) ==> entry_scan_safe(d, 0xE2, 0),
        ensures
            self.tlv_view() is None ==> res@.len() == 0,
            self.tlv_view() matches Some(d) ==> {
                &&& res@.len() == spec_load_file_entries(entry_bodies(d, 0xE2, 0)).len()
                &&& forall|i: int| 0 <= i < res@.len() ==> #[trigger] res@[i]@ == spec_load_file_entries(entry_bodies(d, 0xE2, 0))[i]
            },
    {
        match self.tlv_data() {
            Some(data) => parse_load_file_entries(data),
            None => Vec::new(),
        }
    }
}

/// The modules of a load file entry are the values of all its 84 objects, in order: taking
/// the objects of the entry one after the other, each object tagged 84 gives one module.
pub proof fn lemma_load_file_modules(entry: Seq<u8>)
    requires
        spec_parse_load_file_entry(entry) is Some,
    ensures
        spec_parse_load_file_entry(entry).unwrap().modules == spec_simple_tlv_parse_all(entry).filter(
            |o: (u8, Seq<u8>)| o.0 == 0x84u8).map_values(|o: (u8, Seq<u8>)| o.1),
{
    lemma_values_with_tag_filter(spec_simple_tlv_parse_all(entry), 0x84);
}

} // verus!
