//! File Control Information (FCI) returned by SELECT: the FCI template (6F) with the AID (84)
//! and the proprietary data (A5) of a security domain.
//!
//! The BER-TLV objects are parsed by the `iso7816_tlv` crate; the library finds the objects
//! of the FCI in what it returns.
use vstd::prelude::*;

use crate::response::bytes_to_vec;
use crate::session::bytes_eq;

verus! {

/// A BER-TLV data object: the bytes of its tag and its value
#[derive(Debug)]
pub struct BerTlv {
    /// Tag bytes (one to three)
    pub tag: Vec<u8>,
    /// Value
    pub value: BerValue,
}

/// Value of a BER-TLV data object
#[derive(Debug)]
pub enum BerValue {
    /// Constructed value: nested data objects
    Constructed(Vec<BerTlv>),
    /// Primitive value: bytes
    Primitive(Vec<u8>),
}

#[verifier::external_type_specification]
#[verifier::external_body]
pub struct ExBerObject(iso7816_tlv::ber::Tlv);

/// What `iso7816_tlv::ber::Tlv::parse_all` returns for the given bytes, each object given by
/// its tag bytes and value.
pub uninterp spec fn ber_parse_all_result(data: Seq<u8>) -> Seq<BerTlv>;

/// `iso7816_tlv::ber::Tlv::parse_all`: the BER-TLV objects read one after the other from the
/// start of `data`, stopping at the first that does not parse.
///
/// The result is given only by name: it depends on `data` alone.
#[verifier::external_body]
fn ber_parse_all(data: &[u8]) -> (res: Vec<BerTlv>)
    ensures
        res@ == ber_parse_all_result(data@),
{
    iso7816_tlv::ber::Tlv::parse_all(data).iter().map(ber_object).collect()
}

/// One object of `iso7816_tlv` as a `BerTlv`: tag bytes (`Tag::to_bytes`), and the value,
/// primitive bytes or nested objects, converted the same way.
#[verifier::external_body]
fn ber_object(t: &iso7816_tlv::ber::Tlv) -> (res: BerTlv) {
    let value = match t.value() {
        iso7816_tlv::ber::Value::Constructed(c) => BerValue::Constructed(c.iter().map(ber_object).collect()),
        iso7816_tlv::ber::Value::Primitive(p) => BerValue::Primitive(p.clone()),
    };
    BerTlv { tag: t.tag().to_bytes().to_vec(), value }
}

/// The first object of `s` with the given tag bytes
pub open spec fn spec_find_ber(s: Seq<BerTlv>, tag: Seq<u8>) -> Option<BerTlv>
    decreases s.len(),
{
    if s.len() == 0 {
        None
    } else if s[0].tag@ == tag {
        Some(s[0])
    } else {
        spec_find_ber(s.drop_first(), tag)
    }
}

/// Find the first object with the given tag bytes
pub fn find_ber<'a>(s: &'a Vec<BerTlv>, tag: &[u8]) -> (res: Option<&'a BerTlv>)
    ensures
        res is Some <==> spec_find_ber(s@, tag@) is Some,
        res matches Some(t) ==> spec_find_ber(s@, tag@) == Some(*t),
{
    let mut i: usize = 0;
    proof { assert(s@.subrange(0, s@.len() as int) =~= s@); }
    while i < s.len()
        invariant
            i <= s@.len(),
            spec_find_ber(s@, tag@) == spec_find_ber(s@.subrange(i as int, s@.len() as int), tag@),
        decreases s@.len() - i,
    {
        proof {
            let rest = s@.subrange(i as int, s@.len() as int);
            assert(rest.drop_first() =~= s@.subrange(i + 1, s@.len() as int));
            assert(rest[0] == s@[i as int]);
        }
        if bytes_eq(s[i].tag.as_slice(), tag) {
            return Some(&s[i]);
        }
        i = i + 1;
    }
    None
}

/// Tag of the FCI template
pub open spec fn tag_fci_template() -> Seq<u8> { seq![0x6Fu8] }
/// Tag of the application or file AID
pub open spec fn tag_aid() -> Seq<u8> { seq![0x84u8] }
/// Tag of the proprietary data
pub open spec fn tag_proprietary_data() -> Seq<u8> { seq![0xA5u8] }
/// Tag of the security domain management data
pub open spec fn tag_sd_management_data() -> Seq<u8> { seq![0x73u8] }
/// Tag of the application production life cycle data
pub open spec fn tag_app_production_lifecycle_data() -> Seq<u8> { seq![0x9Fu8, 0x6Eu8] }
/// Tag of the maximum length of data field in command message
pub open spec fn tag_max_command_data_length() -> Seq<u8> { seq![0x9Fu8, 0x65u8] }

/// Represents proprietary data within the FCI
#[derive(Debug, Clone, PartialEq, Eq)]
pub struct ProprietaryData {
    /// Security Domain Management Data (tag 73)
    pub security_domain_management_data: Option<Vec<u8>>,
    /// Application production life cycle data (tag 9F6E)
    pub app_production_lifecycle_data: Option<Vec<u8>>,
    /// Maximum length of data field in command message (tag 9F65)
    pub max_command_data_length: u16,
}

/// Abstract value of the proprietary data
pub struct ProprietaryDataView {
    /// Security Domain Management Data
    pub security_domain_management_data: Option<Seq<u8>>,
    /// Application production life cycle data
    pub app_production_lifecycle_data: Option<Seq<u8>>,
    /// Maximum length of data field in command message
    pub max_command_data_length: u16,
}

/// The bytes of an optional vector
pub open spec fn opt_bytes(o: Option<Vec<u8>>) -> Option<Seq<u8>> {
    match o {
        Some(v) => Some(v@),
        None => None,
    }
}

impl View for ProprietaryData {
    type V = ProprietaryDataView;

    open spec fn view(&self) -> ProprietaryDataView {
        ProprietaryDataView {
            security_domain_management_data: opt_bytes(self.security_domain_management_data),
            app_production_lifecycle_data: opt_bytes(self.app_production_lifecycle_data),
            max_command_data_length: self.max_command_data_length,
        }
    }
}

/// Represents the parsed FCI (File Control Information)
#[derive(Debug, Clone, PartialEq, Eq)]
pub struct FciTemplate {
    /// Application/file AID (tag 84)
    pub aid: Vec<u8>,
    /// Proprietary data (tag A5)
    pub proprietary_data: ProprietaryData,
}

/// Abstract value of the FCI
pub struct FciView {
    /// Application/file AID
    pub aid: Seq<u8>,
    /// Proprietary data
    pub proprietary_data: ProprietaryDataView,
}

impl View for FciTemplate {
    type V = FciView;

    open spec fn view(&self) -> FciView {
        FciView { aid: self.aid@, proprietary_data: self.proprietary_data@ }
    }
}

/// The bytes of the first primitive object with the given tag, if there is one and it is
/// primitive
pub open spec fn spec_primitive_with_tag(s: Seq<BerTlv>, tag: Seq<u8>) -> Option<Seq<u8>> {
    match spec_find_ber(s, tag) {
        Some(t) => match t.value {
            BerValue::Primitive(d) => Some(d@),
            BerValue::Constructed(_) => None,
        },
        None => None,
    }
}

/// The maximum command data length from the bytes of its value: big-endian from the first two
/// bytes, or the single byte
pub open spec fn spec_max_length(v: Seq<u8>) -> Result<u16, &'static str> {
    if v.len() >= 2 {
        Ok((v[0] as int * 256 + v[1] as int) as u16)
    } else if v.len() == 1 {
        Ok(v[0] as u16)
    } else {
        Err("Invalid max command data length format")
    }
}

/// The proprietary data of a proprietary data object (A5)
pub open spec fn spec_parse_proprietary_data(t: BerTlv) -> Result<ProprietaryDataView, &'static str> {
    match t.value {
        BerValue::Constructed(c) => match spec_find_ber(c@, tag_max_command_data_length()) {
            Some(m) => match m.value {
                BerValue::Primitive(v) => match spec_max_length(v@) {
                    Ok(max) => Ok(ProprietaryDataView {
                        security_domain_management_data: spec_primitive_with_tag(c@, tag_sd_management_data()),
                        app_production_lifecycle_data: spec_primitive_with_tag(c@, tag_app_production_lifecycle_data()),
                        max_command_data_length: max,
                    }),
                    Err(e) => Err(e),
                },
                BerValue::Constructed(_) => Err("Invalid max command data length format (not primitive)"),
            },
            None => Err("Max command data length (9F65) not found"),
        },
        BerValue::Primitive(_) => Err("Proprietary data (A5) is not constructed"),
    }
}

/// The FCI of the parsed objects of a SELECT answer
pub open spec fn spec_parse_fci(s: Seq<BerTlv>) -> Result<FciView, &'static str> {
    match spec_find_ber(s, tag_fci_template()) {
        Some(f) => match f.value {
            BerValue::Constructed(c) => match spec_find_ber(c@, tag_aid()) {
                Some(a) => match a.value {
                    BerValue::Primitive(aid) => match spec_find_ber(c@, tag_proprietary_data()) {
                        Some(p) => match spec_parse_proprietary_data(p) {
                            Ok(pd) => Ok(FciView { aid: aid@, proprietary_data: pd }),
                            Err(e) => Err(e),
                        },
                        None => Err("Proprietary data (A5) not found in FCI"),
                    },
                    BerValue::Constructed(_) => Err("Invalid AID value format (not primitive)"),
                },
                None => Err("AID (84) not found in FCI"),
            },
            BerValue::Primitive(_) => Err("FCI template (6F) is not constructed"),
        },
        None => Err("FCI template (6F) not found"),
    }
}

/// The bytes of the first primitive object with the given tag
fn primitive_with_tag(s: &Vec<BerTlv>, tag: &[u8]) -> (res: Option<Vec<u8>>)
    ensures
        opt_bytes(res) == spec_primitive_with_tag(s@, tag@),
{
    match find_ber(s, tag) {
        Some(t) => match &t.value {
            BerValue::Primitive(d) => Some(bytes_to_vec(d.as_slice())),
            BerValue::Constructed(_) => None,
        },
        None => None,
    }
}

/// Parse the proprietary data from the FCI
pub fn parse_proprietary_data(prop_tlv: &BerTlv) -> (res: Result<ProprietaryData, &'static str>)
    ensures
        res is Ok <==> spec_parse_proprietary_data(*prop_tlv) is Ok,
        res matches Ok(p) ==> spec_parse_proprietary_data(*prop_tlv) == Ok::<ProprietaryDataView, &'static str>(p@),
        res matches Err(e) ==> spec_parse_proprietary_data(*prop_tlv) == Err::<ProprietaryDataView, &'static str>(e),
{
    let content = match &prop_tlv.value {
        BerValue::Constructed(c) => c,
        BerValue::Primitive(_) => return Err("Proprietary data (A5) is not constructed"),
    };
    let sd_tag: [u8; 1] = [0x73];
    let lifecycle_tag: [u8; 2] = [0x9F, 0x6E];
    let max_tag: [u8; 2] = [0x9F, 0x65];
    proof {
        assert(sd_tag@ =~= tag_sd_management_data());
        assert(lifecycle_tag@ =~= tag_app_production_lifecycle_data());
        assert(max_tag@ =~= tag_max_command_data_length());
    }
    let security_domain_management_data = primitive_with_tag(content, sd_tag.as_slice());
    let app_production_lifecycle_data = primitive_with_tag(content, lifecycle_tag.as_slice());
    let max_tlv = match find_ber(content, max_tag.as_slice()) {
        Some(t) => t,
        None => return Err("Max command data length (9F65) not found"),
    };
    let max_length_value = match &max_tlv.value {
        BerValue::Primitive(v) => v,
        BerValue::Constructed(_) => return Err("Invalid max command data length format (not primitive)"),
    };
    let max_length: u16 = if max_length_value.len() >= 2 {
        let hi = max_length_value[0] as u16;
        let lo = max_length_value[1] as u16;
        hi * 256 + lo
    } else if max_length_value.len() == 1 {
        max_length_value[0] as u16
    } else {
        return Err("Invalid max command data length format");
    };
    Ok(ProprietaryData { security_domain_management_data, app_production_lifecycle_data, max_command_data_length: max_length })
}

/// Parse the FCI from the BER-TLV objects of a SELECT answer
pub fn parse_fci_objects(tlvs: &Vec<BerTlv>) -> (res: Result<FciTemplate, &'static str>)
    ensures
        res is Ok <==> spec_parse_fci(tlvs@) is Ok,
        res matches Ok(f) ==> spec_parse_fci(tlvs@) == Ok::<FciView, &'static str>(f@),
        res matches Err(e) ==> spec_parse_fci(tlvs@) == Err::<FciView, &'static str>(e),
{
    let fci_tag: [u8; 1] = [0x6F];
    let aid_tag: [u8; 1] = [0x84];
    let prop_tag: [u8; 1] = [0xA5];
    proof {
        assert(fci_tag@ =~= tag_fci_template());
        assert(aid_tag@ =~= tag_aid());
        assert(prop_tag@ =~= tag_proprietary_data());
    }
    let fci_tlv = match find_ber(tlvs, fci_tag.as_slice()) {
        Some(t) => t,
        None => return Err("FCI template (6F) not found"),
    };
    let content = match &fci_tlv.value {
        BerValue::Constructed(c) => c,
        BerValue::Primitive(_) => return Err("FCI template (6F) is not constructed"),
    };
    let aid_tlv = match find_ber(content, aid_tag.as_slice()) {
        Some(t) => t,
        None => return Err("AID (84) not found in FCI"),
    };
    let aid = match &aid_tlv.value {
        BerValue::Primitive(d) => bytes_to_vec(d.as_slice()),
        BerValue::Constructed(_) => return Err("Invalid AID value format (not primitive)"),
    };
    let prop_tlv = match find_ber(content, prop_tag.as_slice()) {
        Some(t) => t,
        None => return Err("Proprietary data (A5) not found in FCI"),
    };
    let proprietary_data = parse_proprietary_data(prop_tlv)?;
    Ok(FciTemplate { aid, proprietary_data })
}

/// Parse FCI bytes: the BER-TLV objects as `iso7816_tlv` parses them, then the FCI template
/// among them
pub fn parse_fci(fci: &[u8]) -> (res: Result<FciTemplate, &'static str>)
    ensures
        res is Ok <==> spec_parse_fci(ber_parse_all_result(fci@)) is Ok,
        res matches Ok(f) ==> spec_parse_fci(ber_parse_all_result(fci@)) == Ok::<FciView, &'static str>(f@),
        res matches Err(e) ==> spec_parse_fci(ber_parse_all_result(fci@)) == Err::<FciView, &'static str>(e),
{
    let tlvs = ber_parse_all(fci);
    parse_fci_objects(&tlvs)
}

/// The maximum command data length of proprietary data whose 9F65 object holds two or more
/// bytes is read big-endian from its first two bytes: the first byte is the high byte.
pub proof fn lemma_max_length_big_endian(t: BerTlv)
    requires
        t.value matches BerValue::Constructed(c) && spec_find_ber(c@, seq![0x9Fu8, 0x65u8]) matches Some(m)
            && m.value matches BerValue::Primitive(v) && v@.len() >= 2,
    ensures
        spec_parse_proprietary_data(t) matches Ok(pd) && ({
            let v = match t.value {
                BerValue::Constructed(c) => match spec_find_ber(c@, seq![0x9Fu8, 0x65u8]) {
                    Some(m) => match m.value {
                        BerValue::Primitive(v) => v@,
                        BerValue::Constructed(_) => Seq::<u8>::empty(),
                    },
                    None => Seq::<u8>::empty(),
                },
                BerValue::Primitive(_) => Seq::<u8>::empty(),
            };
            &&& pd.max_command_data_length / 256 == v[0]
            &&& pd.max_command_data_length % 256 == v[1]
        }),
{
    assert(tag_max_command_data_length() =~= seq![0x9Fu8, 0x65u8]);
}

} // verus!
