//! CAP file loading: the load file data block, its split into LOAD blocks,
//! and the package and applet information of a CAP file.
use vstd::prelude::*;

use crate::constants::tags;
use crate::gp_error::Error;
use crate::response::{append_bytes, bytes_to_vec, opt_view};

verus! {

/// Maximum block size for LOAD commands (255 - 8 bytes for MAC)
pub const BLOCK_SIZE: usize = 247;

/// The CAP components, in the order in which they are loaded
pub const INTERNAL_FILES: [&'static str; 11] = [
    "Header",
    "Directory",
    "Import",
    "Applet",
    "Class",
    "Method",
    "StaticField",
    "Export",
    "ConstantPool",
    "RefLocation",
    "Descriptor",
];

/// BER-TLV length encoding (short form below 0x80, then 1, 2 or 3 length bytes).
pub open spec fn spec_encode_length(length: nat) -> Seq<u8> {
    if length < 0x80 {
        seq![length as u8]
    } else if length < 0x100 {
        seq![0x81u8, length as u8]
    } else if length < 0x10000 {
        seq![0x82u8, (length / 0x100) as u8, (length % 0x100) as u8]
    } else {
        seq![0x83u8, ((length / 0x10000) % 0x100) as u8, ((length / 0x100) % 0x100) as u8, (length % 0x100) as u8]
    }
}

/// BER-TLV length decoding of a complete length field.
pub open spec fn spec_decode_length(b: Seq<u8>) -> Option<nat> {
    if b.len() == 1 && b[0] < 0x80 {
        Some(b[0] as nat)
    } else if b.len() == 2 && b[0] == 0x81 {
        Some(b[1] as nat)
    } else if b.len() == 3 && b[0] == 0x82 {
        Some((b[1] as nat) * 0x100 + b[2] as nat)
    } else if b.len() == 4 && b[0] == 0x83 {
        Some((b[1] as nat) * 0x10000 + (b[2] as nat) * 0x100 + b[3] as nat)
    } else {
        None
    }
}

/// Encode a length value into BER-TLV format
pub fn encode_length(length: usize) -> (res: Vec<u8>)
    ensures
        res@ == spec_encode_length(length as nat),
{
    let mut v: Vec<u8> = Vec::new();
    if length < 0x80 {
        v.push(length as u8);
    } else if length < 0x100 {
        v.push(0x81);
        v.push(length as u8);
    } else if length < 0x10000 {
        v.push(0x82);
        v.push((length / 0x100) as u8);
        v.push((length % 0x100) as u8);
    } else {
        v.push(0x83);
        v.push(((length / 0x10000) % 0x100) as u8);
        v.push(((length / 0x100) % 0x100) as u8);
        v.push((length % 0x100) as u8);
    }
    proof { assert(v@ =~= spec_encode_length(length as nat)); }
    v
}

/// Decoding an encoded length gives the length back (for lengths below 2^24).
pub proof fn lemma_length_roundtrip(length: nat)
    requires
        length < 0x1000000,
    ensures
        spec_decode_length(spec_encode_length(length)) == Some(length),
{
    if length >= 0x10000 {
        let a = (length / 0x10000) % 0x100;
        let b = (length / 0x100) % 0x100;
        let c = length % 0x100;
        assert(a * 0x10000 + b * 0x100 + c == length) by (nonlinear_arith)
            requires
                length < 0x1000000,
                a == (length / 0x10000) % 0x100,
                b == (length / 0x100) % 0x100,
                c == length % 0x100,
        {
        }
    } else if length >= 0x100 {
        assert((length / 0x100) * 0x100 + length % 0x100 == length) by (nonlinear_arith);
    }
}

/// The total number of bytes of the given components
pub open spec fn total_len(parts: Seq<Seq<u8>>) -> nat
    decreases parts.len(),
{
    if parts.len() == 0 {
        0
    } else {
        total_len(parts.drop_last()) + parts.last().len()
    }
}

/// The concatenation of the given components
pub open spec fn concat_all(parts: Seq<Seq<u8>>) -> Seq<u8>
    decreases parts.len(),
{
    if parts.len() == 0 {
        Seq::empty()
    } else {
        concat_all(parts.drop_last()) + parts.last()
    }
}

/// The views of a vector of byte vectors
pub open spec fn views(parts: Seq<Vec<u8>>) -> Seq<Seq<u8>> {
    Seq::new(parts.len(), |i: int| parts[i]@)
}

/// Load file data block: tag C4, BER length, the components in order.
pub open spec fn spec_load_file_data(parts: Seq<Seq<u8>>) -> Seq<u8> {
    seq![0xC4u8] + spec_encode_length(concat_all(parts).len()) + concat_all(parts)
}

/// Number of blocks needed for `len` bytes (rounding up).
pub open spec fn spec_blocks_count(len: nat) -> nat {
    ((len + 246) / 247) as nat
}

/// Encode the CAP components (already in load order) into the load file data block format
pub fn encode_files_data(components: &Vec<Vec<u8>>) -> (res: Vec<u8>)
    ensures
        res@ == spec_load_file_data(views(components@)),
{
    let mut files_data: Vec<u8> = Vec::new();
    let mut i: usize = 0;
    while i < components.len()
        invariant
            i <= components@.len(),
            files_data@ == concat_all(views(components@).subrange(0, i as int)),
        decreases components@.len() - i,
    {
        proof {
            assert(views(components@).subrange(0, i + 1).drop_last() =~= views(components@).subrange(0, i as int));
        }
        append_bytes(&mut files_data, components[i].as_slice());
        i = i + 1;
    }
    proof { assert(views(components@).subrange(0, components@.len() as int) =~= views(components@)); }
    let length_bytes = encode_length(files_data.len());
    let mut data: Vec<u8> = Vec::new();
    data.push(tags::LOAD_FILE_DATA_BLOCK);
    append_bytes(&mut data, length_bytes.as_slice());
    append_bytes(&mut data, files_data.as_slice());
    proof { assert(data@ =~= spec_load_file_data(views(components@))); }
    data
}

/// The block with the given index of `data` split into blocks of BLOCK_SIZE bytes.
pub open spec fn block_at(data: Seq<u8>, index: nat) -> Seq<u8> {
    let start = index * 247;
    let end = if start + 247 <= data.len() { start + 247 } else { data.len() };
    data.subrange(start as int, end as int)
}

/// The concatenation of the first `n` blocks of `data`.
pub open spec fn blocks_prefix(data: Seq<u8>, n: nat) -> Seq<u8>
    decreases n,
{
    if n == 0 {
        Seq::empty()
    } else {
        blocks_prefix(data, (n - 1) as nat) + block_at(data, (n - 1) as nat)
    }
}

/// The abstract value of a block handed out: whether it is the last, its index, its bytes
pub open spec fn block_view<'a>(r: Option<(bool, u8, &'a [u8])>) -> Option<(bool, u8, Seq<u8>)> {
    match r {
        Some((is_last, index, block)) => Some((is_last, index, block@)),
        None => None,
    }
}

/// One call of `next_block`: at the end of the data nothing is handed out and nothing changes;
/// otherwise the block at the current index is handed out with its index (modulo 256) and
/// whether at most one block size remained, and the stream moves past it
pub open spec fn next_block_step(
    before: LoadStreamView,
    after: LoadStreamView,
    res: Option<(bool, u8, Seq<u8>)>,
) -> bool {
    if before.position >= before.data.len() {
        res is None && after == before
    } else {
        &&& res == Some((
            before.data.len() - before.position <= BLOCK_SIZE,
            (before.current_block % 256) as u8,
            block_at(before.data, before.current_block),
        ))
        &&& after.data == before.data
        &&& after.blocks_count == before.blocks_count
        &&& after.current_block == before.current_block + 1
        &&& after.position == before.position + block_at(before.data, before.current_block).len()
    }
}

/// The state of a stream over `data` after `k` calls of `next_block` from its start: the
/// current block is k, or the block count once all blocks were handed out
pub open spec fn stream_after(data: Seq<u8>, k: nat) -> LoadStreamView {
    let bc = spec_blocks_count(data.len());
    let c = if k <= bc { k } else { bc };
    LoadStreamView {
        data,
        position: if c * 247 <= data.len() { c * 247 } else { data.len() },
        blocks_count: bc,
        current_block: c,
    }
}

/// A well-formed stream is the stream over its data after as many calls as its current block.
pub proof fn lemma_wf_stream_after(s: LoadStreamView)
    requires
        load_stream_wf(s),
    ensures
        s == stream_after(s.data, s.current_block),
{
}

/// Reading a stream from its start: the `k`-th call of `next_block` (counting from 0) hands
/// out, while k is below the block count, the block at index k, of 1 to 247 bytes, with the
/// index k modulo 256, marked last exactly when it is the final block; after that it hands out
/// nothing. After k calls the current block is k, up to the block count.
pub proof fn lemma_next_block_iterates(
    data: Seq<u8>,
    k: nat,
    after: LoadStreamView,
    res: Option<(bool, u8, Seq<u8>)>,
)
    requires
        next_block_step(stream_after(data, k), after, res),
    ensures
        after == stream_after(data, k + 1),
        stream_after(data, k).current_block == (if k <= spec_blocks_count(data.len()) { k } else { spec_blocks_count(data.len()) }),
        k < spec_blocks_count(data.len()) ==> {
            &&& res == Some((k + 1 == spec_blocks_count(data.len()), (k % 256) as u8, block_at(data, k)))
            &&& 1 <= block_at(data, k).len() <= 247
        },
        k >= spec_blocks_count(data.len()) ==> res is None,
{
    let bc = spec_blocks_count(data.len());
    let n = data.len();
    assert(bc * 247 >= n) by (nonlinear_arith)
        requires bc == (n + 247 - 1) / 247;
    if bc >= 1 {
        assert((bc - 1) * 247 < n) by (nonlinear_arith)
            requires bc == (n + 247 - 1) / 247, bc >= 1;
    }
    if k < bc {
        assert(k * 247 <= (bc - 1) * 247) by (nonlinear_arith)
            requires k < bc;
        assert((k + 1) * 247 == k * 247 + 247) by (nonlinear_arith);
        if k + 1 < bc {
            assert((k + 1) * 247 <= (bc - 1) * 247) by (nonlinear_arith)
                requires k + 1 < bc;
        }
        assert(n - k * 247 <= 247 <==> k + 1 == bc);
    } else {
        assert(bc * 247 >= n);
        if k == bc {
            assert(stream_after(data, k).position == n);
        }
    }
}

/// A stream of LOAD blocks for a CAP file
#[derive(Debug)]
pub struct LoadCommandStream {
    /// Load file data
    data: Vec<u8>,
    /// Current position in data
    position: usize,
    /// Total blocks count
    blocks_count: usize,
    /// Current block index
    current_block: usize,
}

/// Abstract state of a load stream
pub struct LoadStreamView {
    /// Load file data
    pub data: Seq<u8>,
    /// Position of the next block
    pub position: nat,
    /// Total number of blocks
    pub blocks_count: nat,
    /// Index of the next block
    pub current_block: nat,
}

impl View for LoadCommandStream {
    type V = LoadStreamView;

    closed spec fn view(&self) -> LoadStreamView {
        LoadStreamView {
            data: self.data@,
            position: self.position as nat,
            blocks_count: self.blocks_count as nat,
            current_block: self.current_block as nat,
        }
    }
}

/// The invariant of a load stream: the position is where the current block starts
/// (or the end of the data), and the block count covers the data.
pub open spec fn load_stream_wf(s: LoadStreamView) -> bool {
    &&& s.blocks_count == spec_blocks_count(s.data.len())
    &&& s.current_block <= s.blocks_count
    &&& s.position == (if s.current_block * 247 <= s.data.len() {
        s.current_block * 247
    } else {
        s.data.len()
    })
    &&& (s.position < s.data.len() <==> s.current_block < s.blocks_count)
}

impl LoadCommandStream {
    /// Create a stream over a load file data block
    pub fn from_load_file_data(data: Vec<u8>) -> (res: Self)
        ensures
            res@.data == data@,
            res@.position == 0,
            res@.current_block == 0,
            res@.blocks_count == spec_blocks_count(data@.len()),
            res@ == stream_after(data@, 0),
            load_stream_wf(res@),
    {
        let n = data.len();
        let blocks_count = n / BLOCK_SIZE + if n % BLOCK_SIZE == 0 { 0 } else { 1 };
        proof {
            assert(blocks_count == spec_blocks_count(n as nat)) by (nonlinear_arith)
                requires
                    blocks_count == n / 247 + if n % 247 == 0 { 0int } else { 1int },
            {
            }
        }
        LoadCommandStream { data, position: 0, blocks_count, current_block: 0 }
    }

    /// Create a stream for the given CAP components (in load order)
    pub fn from_components(components: &Vec<Vec<u8>>) -> (res: Self)
        ensures
            res@.data == spec_load_file_data(views(components@)),
            res@.position == 0,
            res@.current_block == 0,
            res@.blocks_count == spec_blocks_count(res@.data.len()),
            res@ == stream_after(res@.data, 0),
            load_stream_wf(res@),
    {
        Self::from_load_file_data(encode_files_data(components))
    }

    /// Get the total number of blocks
    pub fn blocks_count(&self) -> (res: usize)
        ensures
            res == self@.blocks_count,
    {
        self.blocks_count
    }

    /// Get the current block index
    pub fn current_block(&self) -> (res: usize)
        ensures
            res == self@.current_block,
    {
        self.current_block
    }

    /// Check if there are more blocks
    pub fn has_next(&self) -> (res: bool)
        ensures
            res == (self@.position < self@.data.len()),
    {
        self.position < self.data.len()
    }

    /// Get the next block: whether it is the last one, its index (modulo 256) and its bytes
    pub fn next_block(&mut self) -> (res: Option<(bool, u8, &[u8])>)
        requires
            load_stream_wf(old(self)@),
        ensures
            load_stream_wf(final(self)@),
            next_block_step(old(self)@, final(self)@, block_view(res)),
    {
        if self.position >= self.data.len() {
            return None;
        }
        let remaining = self.data.len() - self.position;
        let block_size = if remaining < BLOCK_SIZE { remaining } else { BLOCK_SIZE };
        let is_last = remaining <= BLOCK_SIZE;
        let block_index = (self.current_block % 256) as u8;
        let start = self.position;
        proof {
            let s = self@;
            assert(s.current_block * 247 + 247 <= s.data.len() || s.current_block * 247 < s.data.len());
        }
        self.position = self.position + block_size;
        self.current_block = self.current_block + 1;
        proof {
            let s = self@;
            assert((s.current_block - 1) * 247 == start);
            assert(s.current_block * 247 == start + 247) by (nonlinear_arith)
                requires (s.current_block - 1) * 247 == start;
            assert(s.blocks_count * 247 >= s.data.len()) by (nonlinear_arith)
                requires s.blocks_count == (s.data.len() + 247 - 1) / 247;
            assert((s.blocks_count - 1) * 247 < s.data.len()) by (nonlinear_arith)
                requires s.blocks_count == (s.data.len() + 247 - 1) / 247, s.blocks_count >= 1;
            if s.current_block < s.blocks_count {
                assert(s.current_block * 247 <= (s.blocks_count - 1) * 247) by (nonlinear_arith)
                    requires s.current_block < s.blocks_count;
            }
            if s.current_block == s.blocks_count {
                assert(s.current_block * 247 >= s.data.len());
            }
        }
        let block = &self.data[start..start + block_size];
        Some((is_last, block_index, block))
    }
}

/// The blocks of a stream, read from the start, put together give back the data,
/// and the number of blocks is the block count.
pub proof fn lemma_blocks_reassemble(data: Seq<u8>, n: nat)
    requires
        n <= spec_blocks_count(data.len()),
    ensures
        blocks_prefix(data, n) == data.subrange(0, if n * 247 <= data.len() { (n * 247) as int } else { data.len() as int }),
        n == spec_blocks_count(data.len()) ==> blocks_prefix(data, n) == data,
    decreases n,
{
    if n > 0 {
        lemma_blocks_reassemble(data, (n - 1) as nat);
        assert((n - 1) * 247 < data.len()) by (nonlinear_arith)
            requires n <= (data.len() + 247 - 1) / 247, n >= 1;
        assert((n - 1) * 247 + 247 == n * 247) by (nonlinear_arith);
        let prev_end = (n - 1) * 247;
        assert(blocks_prefix(data, n) =~= data.subrange(0, if n * 247 <= data.len() { (n * 247) as int } else { data.len() as int }));
    }
    if n == spec_blocks_count(data.len()) {
        assert(n * 247 >= data.len()) by (nonlinear_arith)
            requires n == (data.len() + 247 - 1) / 247;
        assert(data.subrange(0, data.len() as int) =~= data);
    }
}

/// Information about a CAP file
#[derive(Debug, Clone, PartialEq, Eq)]
pub struct CapFileInfo {
    /// Package AID
    pub package_aid: Option<Vec<u8>>,
    /// Applet AIDs
    pub applet_aids: Vec<Vec<u8>>,
    /// Package version (major, minor)
    pub version: Option<(u8, u8)>,
    /// List of files in the CAP
    pub files: Vec<String>,
}

/// Package version from the Header component: bytes 4 and 5 when the component is longer than 15 bytes.
pub open spec fn spec_header_version(h: Seq<u8>) -> Option<(u8, u8)> {
    if h.len() > 15 { Some((h[4], h[5])) } else { None }
}

/// Package AID from the Header component: length at byte 13 (below 16), AID from byte 14.
pub open spec fn spec_header_package_aid(h: Seq<u8>) -> Option<Seq<u8>> {
    if h.len() > 15 && h[13] < 16 && 14 + h[13] as int <= h.len() {
        Some(h.subrange(14, 14 + h[13] as int))
    } else {
        None
    }
}

/// Applet AIDs from the Applet component, reading `count` entries from `offset`:
/// the scan stops when fewer than two bytes remain; an AID that runs past the end is skipped
/// without moving on.
pub open spec fn spec_applet_aids(a: Seq<u8>, offset: int, count: nat) -> Seq<Seq<u8>>
    decreases count,
{
    if count == 0 || offset + 1 >= a.len() {
        Seq::empty()
    } else {
        let len = a[offset] as int;
        let start = offset + 1;
        if start + len <= a.len() {
            seq![a.subrange(start, start + len)] + spec_applet_aids(a, start + len, (count - 1) as nat)
        } else {
            spec_applet_aids(a, start, (count - 1) as nat)
        }
    }
}

/// All applet AIDs of an Applet component (count at byte 1, entries from byte 2).
pub open spec fn spec_component_applet_aids(a: Seq<u8>) -> Seq<Seq<u8>> {
    if a.len() >= 2 { spec_applet_aids(a, 2, a[1] as nat) } else { Seq::empty() }
}

/// Read the applet AIDs of an Applet component
pub fn parse_applet_aids(a: &[u8]) -> (res: Vec<Vec<u8>>)
    ensures
        res@.len() == spec_component_applet_aids(a@).len(),
        forall|i: int| 0 <= i < res@.len() ==> #[trigger] res@[i]@ == spec_component_applet_aids(a@)[i],
{
    let mut out: Vec<Vec<u8>> = Vec::new();
    if a.len() < 2 {
        return out;
    }
    let n = a.len();
    let count = a[1] as usize;
    let mut offset: usize = 2;
    let mut k: usize = 0;
    let ghost got: Seq<Seq<u8>> = Seq::empty();
    while k < count
        invariant
            n == a@.len(),
            n >= 2,
            count == a@[1],
            k <= count,
            offset <= n,
            out@.len() == got.len(),
            forall|i: int| 0 <= i < got.len() ==> #[trigger] out@[i]@ == got[i],
            got + spec_applet_aids(a@, offset as int, (count - k) as nat) == spec_component_applet_aids(a@),
        ensures
            out@.len() == got.len(),
            forall|i: int| 0 <= i < got.len() ==> #[trigger] out@[i]@ == got[i],
            got =~= spec_component_applet_aids(a@),
        decreases count - k,
    {
        if offset >= n - 1 {
            proof {
                assert(got =~= spec_component_applet_aids(a@));
            }
            break;
        }
        let aid_length = a[offset] as usize;
        offset = offset + 1;
        if aid_length <= n - offset {
            let aid = bytes_to_vec(&a[offset..offset + aid_length]);
            proof {
                got = got.push(aid@);
            }
            out.push(aid);
            offset = offset + aid_length;
            proof {
                assert(got + spec_applet_aids(a@, offset as int, (count - k - 1) as nat) =~= spec_component_applet_aids(a@));
            }
        }
        k = k + 1;
        proof {
            if k == count {
                assert(got + spec_applet_aids(a@, offset as int, 0) =~= got);
            }
        }
    }
    out
}

impl CapFileInfo {
    /// Build the information from the Header and Applet components and the archive's file names
    pub fn from_components(header: Option<&[u8]>, applet: Option<&[u8]>, files: Vec<String>) -> (res: Self)
        ensures
            res.files@ == files@,
            res.version == (match header {
                Some(h) => spec_header_version(h@),
                None => None::<(u8, u8)>,
            }),
            (match header {
                Some(h) => spec_header_package_aid(h@),
                None => None::<Seq<u8>>,
            }) == (match res.package_aid {
                Some(p) => Some(p@),
                None => None::<Seq<u8>>,
            }),
            res.applet_aids@.len() == (match applet {
                Some(a) => spec_component_applet_aids(a@).len(),
                None => 0,
            }),
            forall|i: int| 0 <= i < res.applet_aids@.len() ==> (applet matches Some(a) && #[trigger] res.applet_aids@[i]@
                == spec_component_applet_aids(a@)[i]),
    {
        let mut version: Option<(u8, u8)> = None;
        let mut package_aid: Option<Vec<u8>> = None;
        match header {
            Some(h) => {
                if h.len() > 15 {
                    version = Some((h[4], h[5]));
                    if h[13] < 16 {
                        let aid_len = h[13] as usize;
                        if 14 + aid_len <= h.len() {
                            package_aid = Some(bytes_to_vec(&h[14..14 + aid_len]));
                        }
                    }
                }
            },
            None => {},
        }
        let applet_aids = match applet {
            Some(a) => parse_applet_aids(a),
            None => Vec::new(),
        };
        CapFileInfo { package_aid, applet_aids, version, files }
    }
}

/// The entries of a ZIP archive in their order: for each, none when it cannot be opened, or
/// its name and its uncompressed content (none when the content cannot be read); none at all
/// when the bytes are not a ZIP archive.
pub uninterp spec fn zip_entries_result(archive: Seq<u8>) -> Option<Seq<Option<(Seq<char>, Option<Seq<u8>>)>>>;

/// An archive entry as read: whether it opened, its name and its content if it could be read
pub type ArchiveEntry = Option<(String, Option<Vec<u8>>)>;

/// The abstract value of an archive entry as read
pub open spec fn entry_view(e: ArchiveEntry) -> Option<(Seq<char>, Option<Seq<u8>>)> {
    match e {
        Some((name, content)) => Some((name@, opt_view(content))),
        None => None,
    }
}

/// The abstract values of archive entries as read
pub open spec fn entries_view(v: Seq<ArchiveEntry>) -> Seq<Option<(Seq<char>, Option<Seq<u8>>)>> {
    Seq::new(v.len(), |i: int| entry_view(v[i]))
}

/// Reads the entries of a ZIP archive held in memory with `zip::ZipArchive` (`new` over a
/// `std::io::Cursor`, then for each index `by_index`, the entry's name and
/// `Read::read_to_end`).
///
/// Claims: the entries are `zip_entries_result` of the archive bytes, each one as it opened
/// and read; when that gives none the answer is the "Invalid ZIP file" error. Nothing more is
/// stated of the ZIP format.
#[verifier::external_body]
fn zip_entries(archive: &[u8]) -> (res: Result<Vec<ArchiveEntry>, Error>)
    ensures
        match zip_entries_result(archive@) {
            Some(es) => res matches Ok(v) && entries_view(v@) == es,
            None => res == Err::<Vec<ArchiveEntry>, Error>(Error::CapFile("Invalid ZIP file")),
        },
{
    let mut zip = zip::ZipArchive::new(std::io::Cursor::new(archive)).map_err(|_| Error::CapFile("Invalid ZIP file"))?;
    let mut entries = Vec::new();
    for i in 0..zip.len() {
        entries.push(match zip.by_index(i) {
            Ok(mut entry) => {
                let mut data = Vec::new();
                let read = std::io::Read::read_to_end(&mut entry, &mut data);
                Some((entry.name().to_string(), read.ok().map(|_| data)))
            },
            Err(_) => None,
        });
    }
    Ok(entries)
}

/// The entry named `name` among those that open (the first one): its content, or none when
/// its content cannot be read; none when there is no such entry
pub open spec fn entry_named(entries: Seq<Option<(Seq<char>, Option<Seq<u8>>)>>, name: Seq<char>) -> Option<Option<Seq<u8>>>
    decreases entries.len(),
{
    if entries.len() == 0 {
        None
    } else {
        match entries[0] {
            Some((n, content)) => if n == name {
                Some(content)
            } else {
                entry_named(entries.drop_first(), name)
            },
            None => entry_named(entries.drop_first(), name),
        }
    }
}

/// Find the entry named `name`
fn find_entry<'a>(entries: &'a Vec<ArchiveEntry>, name: &String) -> (res: Option<&'a Option<Vec<u8>>>)
    ensures
        match entry_named(entries_view(entries@), name@) {
            Some(d) => res matches Some(v) && opt_view(*v) == d,
            None => res is None,
        },
{
    let ghost es = entries_view(entries@);
    proof {
        assert(es.subrange(0, es.len() as int) =~= es);
    }
    let mut i: usize = 0;
    while i < entries.len()
        invariant
            i <= entries@.len(),
            es == entries_view(entries@),
            entry_named(es, name@) == entry_named(es.subrange(i as int, es.len() as int), name@),
        decreases entries@.len() - i,
    {
        let ghost rest = es.subrange(i as int, es.len() as int);
        proof {
            assert(rest.drop_first() =~= es.subrange(i + 1, es.len() as int));
            assert(rest[0] == es[i as int]);
        }
        match &entries[i] {
            Some((n, content)) => {
                if *n == *name {
                    return Some(content);
                }
            },
            None => {},
        }
        i = i + 1;
    }
    proof {
        assert(es.subrange(i as int, es.len() as int) =~= Seq::<Option<(Seq<char>, Option<Seq<u8>>)>>::empty());
    }
    None
}

/// A CAP component: the first of the entries named after it as is, with ".cap" or with
/// ".CAP" that the archive has (its content, or none when it cannot be read)
pub open spec fn component_named(entries: Seq<Option<(Seq<char>, Option<Seq<u8>>)>>, base: Seq<char>) -> Option<Option<Seq<u8>>> {
    match entry_named(entries, base) {
        Some(d) => Some(d),
        None => match entry_named(entries, base + ".cap"@) {
            Some(d) => Some(d),
            None => entry_named(entries, base + ".CAP"@),
        },
    }
}

/// The components the archive has, in the order of the given names; none when one of them
/// cannot be read
pub open spec fn cap_components(entries: Seq<Option<(Seq<char>, Option<Seq<u8>>)>>, names: Seq<Seq<char>>) -> Option<Seq<Seq<u8>>>
    decreases names.len(),
{
    if names.len() == 0 {
        Some(Seq::empty())
    } else {
        match cap_components(entries, names.drop_last()) {
            None => None,
            Some(prev) => match component_named(entries, names.last()) {
                Some(Some(d)) => Some(prev.push(d)),
                Some(None) => None,
                None => Some(prev),
            },
        }
    }
}

/// The names of the CAP components, in load order
pub open spec fn internal_file_names() -> Seq<Seq<char>> {
    Seq::new(11, |k: int| INTERNAL_FILES@[k]@)
}

/// Find the CAP component named `base`
fn find_component<'a>(entries: &'a Vec<ArchiveEntry>, base: &str) -> (res: Option<&'a Option<Vec<u8>>>)
    ensures
        match component_named(entries_view(entries@), base@) {
            Some(d) => res matches Some(v) && opt_view(*v) == d,
            None => res is None,
        },
{
    let plain = String::from_str(base);
    match find_entry(entries, &plain) {
        Some(d) => return Some(d),
        None => {},
    }
    let lower = String::from_str(base).concat(".cap");
    match find_entry(entries, &lower) {
        Some(d) => return Some(d),
        None => {},
    }
    let upper = String::from_str(base).concat(".CAP");
    find_entry(entries, &upper)
}

/// The names of the entries that open, in order
pub open spec fn opened_names(entries: Seq<Option<(Seq<char>, Option<Seq<u8>>)>>) -> Seq<Seq<char>>
    decreases entries.len(),
{
    if entries.len() == 0 {
        Seq::empty()
    } else {
        let prev = opened_names(entries.drop_last());
        match entries.last() {
            Some((n, _)) => prev.push(n),
            None => prev,
        }
    }
}

/// The content of a component that is there and could be read
pub open spec fn read_part(e: Option<Option<Seq<u8>>>) -> Option<Seq<u8>> {
    match e {
        Some(Some(d)) => Some(d),
        _ => None,
    }
}

/// The information a CAP file gives: the file names, and the version, package AID and applet
/// AIDs read from the Header and Applet components when they are there
pub open spec fn cap_info_is(info: CapFileInfo, header: Option<Seq<u8>>, applet: Option<Seq<u8>>, files: Seq<Seq<char>>) -> bool {
    &&& info.files@.len() == files.len()
    &&& forall|i: int| 0 <= i < files.len() ==> (#[trigger] info.files@[i])@ == files[i]
    &&& info.version == (match header {
        Some(h) => spec_header_version(h),
        None => None::<(u8, u8)>,
    })
    &&& opt_view(info.package_aid) == (match header {
        Some(h) => spec_header_package_aid(h),
        None => None::<Seq<u8>>,
    })
    &&& views(info.applet_aids@) == (match applet {
        Some(a) => spec_component_applet_aids(a),
        None => Seq::<Seq<u8>>::empty(),
    })
}

impl LoadCommandStream {
    /// Create a stream from the bytes of a CAP archive: its components in load order, each
    /// under its name, with ".cap" or with ".CAP"; bytes that are not an archive give the
    /// "Invalid ZIP file" error, and a component whose content cannot be read an I/O error
    pub fn from_archive(archive: &[u8]) -> (res: Result<Self, Error>)
        ensures
            zip_entries_result(archive@) is None ==> res == Err::<Self, Error>(Error::CapFile("Invalid ZIP file")),
            zip_entries_result(archive@) matches Some(es) ==> match cap_components(es, internal_file_names()) {
                Some(cs) => res matches Ok(s) && s@ == stream_after(spec_load_file_data(cs), 0),
                None => res == Err::<Self, Error>(Error::Io),
            },
    {
        let entries = match zip_entries(archive) {
            Ok(e) => e,
            Err(e) => return Err(e),
        };
        let ghost es = entries_view(entries@);
        let mut components: Vec<Vec<u8>> = Vec::new();
        let mut k: usize = 0;
        while k < 11
            invariant
                k <= 11,
                es == entries_view(entries@),
                zip_entries_result(archive@) == Some(es),
                cap_components(es, internal_file_names().subrange(0, k as int)) == Some(views(components@)),
            decreases 11 - k,
        {
            proof {
                assert(internal_file_names().subrange(0, k + 1).drop_last() =~= internal_file_names().subrange(0, k as int));
                assert(INTERNAL_FILES[k as int]@ == internal_file_names()[k as int]);
            }
            let found = find_component(&entries, INTERNAL_FILES[k]);
            match found {
                Some(Some(d)) => {
                    let ghost before = components@;
                    components.push(bytes_to_vec(d.as_slice()));
                    proof {
                        assert(views(components@) =~= views(before).push(d@));
                    }
                },
                Some(None) => {
                    proof {
                        lemma_components_fail(es, internal_file_names(), (k + 1) as nat);
                        assert(internal_file_names().subrange(0, 11) =~= internal_file_names());
                    }
                    return Err(Error::Io);
                },
                None => {},
            }
            k = k + 1;
        }
        proof {
            assert(internal_file_names().subrange(0, 11) =~= internal_file_names());
        }
        Ok(Self::from_components(&components))
    }

    /// Extract information about a CAP file from the bytes of its archive: the names of the
    /// entries that open, and what the "Header.cap" and "Applet.cap" entries give; bytes that
    /// are not an archive give the "Invalid ZIP file" error, and a Header or Applet component
    /// whose content cannot be read an I/O error
    pub fn extract_info(archive: &[u8]) -> (res: Result<CapFileInfo, Error>)
        ensures
            zip_entries_result(archive@) is None ==> res == Err::<CapFileInfo, Error>(Error::CapFile("Invalid ZIP file")),
            zip_entries_result(archive@) matches Some(es) ==> if entry_named(es, "Header.cap"@) == Some(None::<Seq<u8>>)
                || entry_named(es, "Applet.cap"@) == Some(None::<Seq<u8>>) {
                res == Err::<CapFileInfo, Error>(Error::Io)
            } else {
                res matches Ok(info) && cap_info_is(info, read_part(entry_named(es, "Header.cap"@)),
                    read_part(entry_named(es, "Applet.cap"@)), opened_names(es))
            },
    {
        let entries = match zip_entries(archive) {
            Ok(e) => e,
            Err(e) => return Err(e),
        };
        let ghost es = entries_view(entries@);
        let mut files: Vec<String> = Vec::new();
        let mut i: usize = 0;
        while i < entries.len()
            invariant
                i <= entries@.len(),
                es == entries_view(entries@),
                files@.len() == opened_names(es.subrange(0, i as int)).len(),
                forall|j: int| 0 <= j < files@.len() ==> (#[trigger] files@[j])@ == opened_names(es.subrange(0, i as int))[j],
            decreases entries@.len() - i,
        {
            proof {
                assert(es.subrange(0, i + 1).drop_last() =~= es.subrange(0, i as int));
            }
            match &entries[i] {
                Some((name, _)) => {
                    files.push(name.clone());
                },
                None => {},
            }
            i = i + 1;
        }
        proof {
            assert(es.subrange(0, es.len() as int) =~= es);
        }
        let header_name = String::from_str("Header.cap");
        let applet_name = String::from_str("Applet.cap");
        let header: Option<&[u8]> = match find_entry(&entries, &header_name) {
            Some(Some(h)) => Some(h.as_slice()),
            Some(None) => return Err(Error::Io),
            None => None,
        };
        let applet: Option<&[u8]> = match find_entry(&entries, &applet_name) {
            Some(Some(a)) => Some(a.as_slice()),
            Some(None) => return Err(Error::Io),
            None => None,
        };
        let info = CapFileInfo::from_components(header, applet, files);
        proof {
            assert(views(info.applet_aids@) =~= (match read_part(entry_named(es, "Applet.cap"@)) {
                Some(a) => spec_component_applet_aids(a),
                None => Seq::<Seq<u8>>::empty(),
            }));
        }
        Ok(info)
    }
}

/// Once a component cannot be read, the components of every longer list of names cannot be
/// read either.
proof fn lemma_components_fail(entries: Seq<Option<(Seq<char>, Option<Seq<u8>>)>>, names: Seq<Seq<char>>, k: nat)
    requires
        1 <= k <= names.len(),
        component_named(entries, names[k - 1]) == Some(None::<Seq<u8>>),
    ensures
        cap_components(entries, names) is None,
    decreases names.len(),
{
    if names.len() > k {
        lemma_components_fail(entries, names.drop_last(), k);
    } else {
        assert(names.last() == names[k - 1]);
    }
}

} // verus!
