//! SIMPLE-TLV data objects (ISO/IEC 7816-4): lookups of values by tag.
//!
//! Parsing and encoding of single objects is done by the `iso7816_tlv` crate.
use vstd::prelude::*;

use iso7816_tlv::simple::{Tag, Tlv};

verus! {

/// The first SIMPLE-TLV object of `b`, as (tag, value, bytes consumed).
///
/// A tag is one byte other than 00 and FF; the length is one byte, or FF
/// followed by a two-byte big-endian length; the value follows.
pub open spec fn spec_simple_tlv_parse(b: Seq<u8>) -> Option<(u8, Seq<u8>, int)> {
    if b.len() < 2 || b[0] == 0x00 || b[0] == 0xFF {
        None
    } else if b[1] == 0xFF {
        if b.len() < 4 {
            None
        } else {
            let len = b[2] as int * 256 + b[3] as int;
            if 4 + len <= b.len() {
                Some((b[0], b.subrange(4, 4 + len), 4 + len))
            } else {
                None
            }
        }
    } else {
        let len = b[1] as int;
        if 2 + len <= b.len() {
            Some((b[0], b.subrange(2, 2 + len), 2 + len))
        } else {
            None
        }
    }
}

/// All SIMPLE-TLV objects at the start of `b`, parsed one after the other
/// until the input ends or an object fails to parse.
pub open spec fn spec_simple_tlv_parse_all(b: Seq<u8>) -> Seq<(u8, Seq<u8>)>
    decreases b.len(),
{
    if b.len() == 0 {
        Seq::empty()
    } else {
        match spec_simple_tlv_parse(b) {
            Some((t, v, n)) => if 0 < n <= b.len() {
                seq![(t, v)] + spec_simple_tlv_parse_all(b.subrange(n, b.len() as int))
            } else {
                Seq::empty()
            },
            None => Seq::empty(),
        }
    }
}

/// Encoding of one SIMPLE-TLV object: tag, length (one byte below 255, else FF and two
/// bytes), value.
pub open spec fn spec_simple_tlv_encode(tag: u8, value: Seq<u8>) -> Seq<u8> {
    let len = value.len();
    if len >= 255 {
        seq![tag, 0xFFu8, ((len / 256) % 256) as u8, (len % 256) as u8] + value
    } else {
        seq![tag, len as u8] + value
    }
}

/// Parses the first object of `input` with `iso7816_tlv::simple::Tlv::parse`.
///
/// Claims: the result is the tag and value that `spec_simple_tlv_parse` gives, and the
/// remaining input is what follows that object; on a parse error no object is returned
/// (what remains after an error is not stated).
#[verifier::external_body]
fn simple_tlv_parse<'a>(input: &'a [u8]) -> (res: TlvStep<'a>)
    ensures
        res.0 is None <==> spec_simple_tlv_parse(input@) is None,
        res.0 matches Some((rt, rv)) ==> spec_simple_tlv_parse(input@) matches Some((t, v, n))
            && rt == t && rv@ == v && res.1@ == input@.subrange(n, input@.len() as int),
{
    let (parsed, rest) = Tlv::parse(input);
    match parsed {
        Ok(tlv) => (Some((tlv.tag().into(), tlv.value().to_vec())), rest),
        Err(_) => (None, rest),
    }
}

/// Parses all objects of `input` with `iso7816_tlv::simple::Tlv::parse_all`.
///
/// Claims: the (tag, value) pairs are those of `spec_simple_tlv_parse_all`, in order.
#[verifier::external_body]
fn simple_tlv_parse_all(input: &[u8]) -> (res: Vec<(u8, Vec<u8>)>)
    ensures
        res@.len() == spec_simple_tlv_parse_all(input@).len(),
        forall|i: int|
            0 <= i < res@.len() ==> #[trigger] res@[i].0 == spec_simple_tlv_parse_all(input@)[i].0
                && res@[i].1@ == spec_simple_tlv_parse_all(input@)[i].1,
{
    Tlv::parse_all(input).into_iter().map(|t| (t.tag().into(), t.value().to_vec())).collect()
}

/// Encodes one object with `iso7816_tlv::simple::Tlv::new` and `Tlv::to_vec`.
///
/// Claims: the bytes are `spec_simple_tlv_encode(tag, value)`. `Tag::try_from` rejects the
/// tags 00 and FF and `Tlv::new` rejects values above 65536 bytes, so those are excluded.
#[verifier::external_body]
fn simple_tlv_encode(tag: u8, value: &[u8]) -> (res: Vec<u8>)
    requires
        tag != 0x00 && tag != 0xFF,
        value@.len() <= 65536,
    ensures
        res@ == spec_simple_tlv_encode(tag, value@),
{
    Tlv::new(Tag::try_from(tag).unwrap(), value.to_vec()).unwrap().to_vec()
}

/// One parse step: the object parsed (tag and value) if any, and the input that remains.
pub type TlvStep<'a> = (Option<(u8, Vec<u8>)>, &'a [u8]);

/// A parsed SIMPLE-TLV data object
#[derive(Debug, Clone, PartialEq, Eq)]
pub struct SimpleTlv {
    /// Tag byte
    pub tag: u8,
    /// Value bytes
    pub value: Vec<u8>,
}

impl SimpleTlv {
    /// The tag byte
    pub fn tag(&self) -> (res: u8)
        ensures
            res == self.tag,
    {
        self.tag
    }

    /// The value bytes
    pub fn value(&self) -> (res: &[u8])
        ensures
            res@ == self.value@,
    {
        self.value.as_slice()
    }
}

/// Encode one SIMPLE-TLV object (tag, length, value)
pub fn encode_tlv(tag: u8, value: &[u8]) -> (res: Vec<u8>)
    requires
        tag != 0x00 && tag != 0xFF,
        value@.len() <= 65536,
    ensures
        res@ == spec_simple_tlv_encode(tag, value@),
{
    simple_tlv_encode(tag, value)
}

/// Parse all TLVs from the input data
pub fn parse_tlvs(data: &[u8]) -> (res: Vec<SimpleTlv>)
    ensures
        res@.len() == spec_simple_tlv_parse_all(data@).len(),
        forall|i: int|
            0 <= i < res@.len() ==> #[trigger] res@[i].tag == spec_simple_tlv_parse_all(data@)[i].0
                && res@[i].value@ == spec_simple_tlv_parse_all(data@)[i].1,
{
    let parsed = simple_tlv_parse_all(data);
    let mut out: Vec<SimpleTlv> = Vec::new();
    let mut i: usize = 0;
    while i < parsed.len()
        invariant
            i <= parsed@.len(),
            out@.len() == i,
            parsed@.len() == spec_simple_tlv_parse_all(data@).len(),
            forall|k: int|
                0 <= k < parsed@.len() ==> #[trigger] parsed@[k].0 == spec_simple_tlv_parse_all(
                    data@,
                )[k].0 && parsed@[k].1@ == spec_simple_tlv_parse_all(data@)[k].1,
            forall|k: int|
                0 <= k < i ==> #[trigger] out@[k].tag == parsed@[k].0 && out@[k].value@
                    == parsed@[k].1@,
        decreases parsed@.len() - i,
    {
        let tag = parsed[i].0;
        let value = crate::response::bytes_to_vec(parsed[i].1.as_slice());
        out.push(SimpleTlv { tag, value });
        i = i + 1;
    }
    out
}

/// The value of the first object with the given tag, scanning objects in order and
/// stopping at the first one that fails to parse.
pub open spec fn spec_find_tlv_value(b: Seq<u8>, tag: u8) -> Option<Seq<u8>>
    decreases b.len(),
{
    if b.len() == 0 {
        None
    } else {
        match spec_simple_tlv_parse(b) {
            Some((t, v, n)) => if t == tag {
                Some(v)
            } else if 0 < n <= b.len() {
                spec_find_tlv_value(b.subrange(n, b.len() as int), tag)
            } else {
                None
            },
            None => None,
        }
    }
}

/// The parse of one object consumes at least its two header bytes and at most the input.
pub proof fn lemma_parse_consumes(b: Seq<u8>)
    ensures
        spec_simple_tlv_parse(b) matches Some((t, v, n)) ==> 2 <= n <= b.len() && v.len() == n
            - (if b[1] == 0xFF { 4int } else { 2int }),
{
}

/// Encoding an object and parsing it back gives the same tag and value, whatever follows the
/// object; so the encoding of an object is found again by its tag.
pub proof fn lemma_tlv_encode_parse(tag: u8, value: Seq<u8>, rest: Seq<u8>)
    requires
        tag != 0x00 && tag != 0xFF,
        value.len() <= 65535,
    ensures
        spec_simple_tlv_parse(spec_simple_tlv_encode(tag, value) + rest) == Some(
            (tag, value, spec_simple_tlv_encode(tag, value).len() as int),
        ),
        spec_find_tlv_value(spec_simple_tlv_encode(tag, value) + rest, tag) == Some(value),
{
    let e = spec_simple_tlv_encode(tag, value);
    let b = e + rest;
    let len = value.len();
    if len >= 255 {
        assert(((len / 256) % 256) as u8 as int * 256 + (len % 256) as u8 as int == len) by (nonlinear_arith)
            requires
                255 <= len <= 65535,
        ;
        assert(b.subrange(4, 4 + len as int) =~= value);
    } else {
        assert(b.subrange(2, 2 + len as int) =~= value);
    }
}

/// Find a TLV value by tag
pub fn find_tlv_value(data: &[u8], tag: u8) -> (res: Option<Vec<u8>>)
    ensures
        res is Some <==> spec_find_tlv_value(data@, tag) is Some,
        res matches Some(v) ==> spec_find_tlv_value(data@, tag) == Some(v@),
{
    let mut current: &[u8] = data;
    while current.len() > 0
        invariant
            spec_find_tlv_value(current@, tag) == spec_find_tlv_value(data@, tag),
        decreases current@.len(),
    {
        let (parsed, rest) = simple_tlv_parse(current);
        proof { lemma_parse_consumes(current@); }
        match parsed {
            Some((t, v)) => {
                if t == tag {
                    return Some(v);
                }
                current = rest;
            },
            None => {
                return None;
            },
        }
    }
    None
}

/// The values of the given objects that carry the given tag, in order.
pub open spec fn values_with_tag(s: Seq<(u8, Seq<u8>)>, tag: u8) -> Seq<Seq<u8>>
    decreases s.len(),
{
    if s.len() == 0 {
        Seq::empty()
    } else {
        let r = values_with_tag(s.drop_last(), tag);
        if s.last().0 == tag {
            r.push(s.last().1)
        } else {
            r
        }
    }
}

/// The values of all objects (as parsed by `spec_simple_tlv_parse_all`) with the given tag,
/// in order.
pub open spec fn spec_find_all_tlv_values(b: Seq<u8>, tag: u8) -> Seq<Seq<u8>> {
    values_with_tag(spec_simple_tlv_parse_all(b), tag)
}

/// Extract all TLV values with the given tag
pub fn find_all_tlv_values(data: &[u8], tag: u8) -> (res: Vec<Vec<u8>>)
    ensures
        res@.len() == spec_find_all_tlv_values(data@, tag).len(),
        forall|i: int| 0 <= i < res@.len() ==> #[trigger] res@[i]@ == spec_find_all_tlv_values(data@, tag)[i],
{
    let parsed = simple_tlv_parse_all(data);
    let ghost all = spec_simple_tlv_parse_all(data@);
    let mut out: Vec<Vec<u8>> = Vec::new();
    let mut i: usize = 0;
    while i < parsed.len()
        invariant
            i <= parsed@.len(),
            parsed@.len() == all.len(),
            all == spec_simple_tlv_parse_all(data@),
            forall|k: int|
                0 <= k < parsed@.len() ==> #[trigger] parsed@[k].0 == all[k].0 && parsed@[k].1@
                    == all[k].1,
            out@.len() == values_with_tag(all.subrange(0, i as int), tag).len(),
            forall|k: int|
                0 <= k < out@.len() ==> #[trigger] out@[k]@ == values_with_tag(all.subrange(0, i as int), tag)[k],
        decreases parsed@.len() - i,
    {
        proof {
            let s = all.subrange(0, i + 1);
            assert(s.drop_last() =~= all.subrange(0, i as int));
        }
        if parsed[i].0 == tag {
            let v = crate::response::bytes_to_vec(parsed[i].1.as_slice());
            out.push(v);
        }
        i = i + 1;
    }
    proof {
        assert(all.subrange(0, all.len() as int) =~= all);
    }
    out
}

/// The values with a tag are the values of the objects that carry it, in order.
pub proof fn lemma_values_with_tag_filter(s: Seq<(u8, Seq<u8>)>, tag: u8)
    ensures
        values_with_tag(s, tag) == s.filter(|o: (u8, Seq<u8>)| o.0 == tag).map_values(|o: (u8, Seq<u8>)| o.1),
    decreases s.len(),
{
    reveal(Seq::filter);
    let pred = |o: (u8, Seq<u8>)| o.0 == tag;
    let f = |o: (u8, Seq<u8>)| o.1;
    if s.len() == 0 {
        assert(s.filter(pred) =~= Seq::<(u8, Seq<u8>)>::empty());
        assert(s.filter(pred).map_values(f) =~= Seq::<Seq<u8>>::empty());
    } else {
        lemma_values_with_tag_filter(s.drop_last(), tag);
        let sub = s.drop_last().filter(pred);
        if pred(s.last()) {
            assert(s.filter(pred) == sub.push(s.last()));
            assert(sub.push(s.last()).map_values(f) =~= sub.map_values(f).push(s.last().1));
        } else {
            assert(s.filter(pred) == sub);
        }
    }
}

} // verus!
