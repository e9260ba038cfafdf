//! SCP02 cryptography: session key derivation, card and host cryptograms,
//! the retail (single DES / triple DES) MAC and ICV encryption.
//!
//! Block ciphers come from the `des`, `cbc` and `cbc-mac` crates; padding,
//! chaining and the assembly of the SCP02 data blocks are done here.
use vstd::prelude::*;

use cbc_mac::{CbcMac, Mac};
use cipher::generic_array::GenericArray;
use cipher::{BlockEncrypt, BlockEncryptMut, KeyInit, KeyIvInit};
use des::{Des, TdesEde3};

verus! {

/// The SCP02 cipher parameters: 16-byte (two-key triple DES) keys and an 8-byte ICV
pub struct Scp02;

impl Scp02 {
    /// Key size in bytes
    pub fn key_size() -> (res: usize)
        ensures
            res == 16,
    {
        16
    }

    /// ICV (initialization vector) size in bytes
    pub fn iv_size() -> (res: usize)
        ensures
            res == 8,
    {
        8
    }
}

/// Derivation purpose for the encryption key
pub const DERIVATION_ENC: [u8; 2] = [0x01, 0x82];
/// Derivation purpose for the MAC key
pub const DERIVATION_MAC: [u8; 2] = [0x01, 0x01];

/// Single-DES encryption of one block, as the `des` crate computes it.
pub uninterp spec fn des_block_result(key: Seq<u8>, block: Seq<u8>) -> Seq<u8>;

/// Triple-DES (EDE, three keys) encryption of one block, as the `des` crate computes it.
pub uninterp spec fn tdes_block_result(key: Seq<u8>, block: Seq<u8>) -> Seq<u8>;

/// Chaining value after triple-DES CBC over the first `n` blocks, starting from `iv`: each
/// block is XORed into the chaining value, which is then encrypted.
pub open spec fn tdes_chain(key: Seq<u8>, iv: Seq<u8>, data: Seq<u8>, n: nat) -> Seq<u8>
    decreases n,
{
    if n == 0 {
        iv
    } else {
        tdes_block_result(key, xor_block(block8(data, (n - 1) as nat), tdes_chain(key, iv, data, (n - 1) as nat)))
    }
}

/// The first `n` ciphertext blocks of triple-DES CBC starting from `iv`
pub open spec fn tdes_cbc_blocks(key: Seq<u8>, iv: Seq<u8>, data: Seq<u8>, n: nat) -> Seq<u8>
    decreases n,
{
    if n == 0 {
        Seq::empty()
    } else {
        tdes_cbc_blocks(key, iv, data, (n - 1) as nat) + tdes_chain(key, iv, data, n)
    }
}

/// Triple-DES CBC encryption of whole blocks: the ciphertext blocks one after the other.
pub open spec fn spec_tdes_cbc(key: Seq<u8>, iv: Seq<u8>, data: Seq<u8>) -> Seq<u8> {
    tdes_cbc_blocks(key, iv, data, data.len() / 8)
}

/// Zeros appended up to the next multiple of 8 bytes (none when already aligned)
pub open spec fn zero_fill(data: Seq<u8>) -> Seq<u8> {
    data + Seq::new(((8 - data.len() % 8) % 8) as nat, |i: int| 0u8)
}

/// CBC-MAC with single DES: from a zero state, each block of the data (the last one filled
/// with zeros) is XORed into the state, which is then encrypted; the MAC is the final state.
pub open spec fn spec_des_cbc_mac(key: Seq<u8>, data: Seq<u8>) -> Seq<u8> {
    des_chain(key, Seq::new(8, |i: int| 0u8), zero_fill(data), ((data.len() + 7) / 8) as nat)
}

/// Encrypts whole 8-byte blocks with `cbc::Encryptor<des::TdesEde3>` (`encrypt_blocks_mut`).
///
/// Claims: the output is CBC over the blocks with `tdes_block_result` as block encryption (each
/// block XORed into the previous ciphertext block, the IV for the first, then encrypted), and
/// has the length of the data. Nothing more is stated of the cipher.
#[verifier::external_body]
fn tdes_cbc_encrypt(key: &[u8; 24], iv: &[u8; 8], data: &[u8]) -> (res: Vec<u8>)
    requires
        data@.len() % 8 == 0,
    ensures
        res@ == spec_tdes_cbc(key@, iv@, data@),
        res@.len() == data@.len(),
{
    let mut blocks: Vec<cipher::Block<TdesEde3>> = data.chunks(8).map(GenericArray::clone_from_slice).collect();
    cbc::Encryptor::<TdesEde3>::new(GenericArray::from_slice(key), GenericArray::from_slice(iv))
        .encrypt_blocks_mut(&mut blocks);
    blocks.iter().flat_map(|b| b.to_vec()).collect()
}

/// Encrypts one block with `des::Des` (`KeyInit::new`, `BlockEncrypt::encrypt_block`).
///
/// Claims: the output is `des_block_result` of the key and block.
#[verifier::external_body]
fn des_encrypt_block(key: &[u8; 8], block: &[u8; 8]) -> (res: [u8; 8])
    ensures
        res@ == des_block_result(key@, block@),
{
    let mut b = GenericArray::clone_from_slice(block);
    Des::new(GenericArray::from_slice(key)).encrypt_block(&mut b);
    b.into()
}

/// Encrypts one block with `des::TdesEde3` (`KeyInit::new`, `BlockEncrypt::encrypt_block`).
///
/// Claims: the output is `tdes_block_result` of the key and block.
#[verifier::external_body]
fn tdes_encrypt_block(key: &[u8; 24], block: &[u8; 8]) -> (res: [u8; 8])
    ensures
        res@ == tdes_block_result(key@, block@),
{
    let mut b = GenericArray::clone_from_slice(block);
    TdesEde3::new(GenericArray::from_slice(key)).encrypt_block(&mut b);
    b.into()
}

/// Computes `cbc_mac::CbcMac<des::Des>` over the data (`Mac::new`, `update`, `finalize`).
///
/// Claims: the tag is CBC-MAC over the data with `des_block_result` as block encryption, from a
/// zero state, the last partial block filled with zeros (`finalize_fixed_core`).
#[verifier::external_body]
fn des_cbc_mac(key: &[u8; 8], data: &[u8]) -> (res: [u8; 8])
    ensures
        res@ == spec_des_cbc_mac(key@, data@),
{
    let mut mac = <CbcMac<Des> as Mac>::new(GenericArray::from_slice(key));
    mac.update(data);
    mac.finalize().into_bytes().into()
}

/// The 24-byte triple-DES key of a 16-byte SCP02 key: the key followed by its first 8 bytes.
pub open spec fn spec_resize_key(key: Seq<u8>) -> Seq<u8> {
    key + key.subrange(0, 8)
}

/// Resize the SCP02 16-byte key to 24 bytes for 3DES (the first 8 bytes are repeated at the end)
pub fn resize_key(key: &[u8; 16]) -> (res: [u8; 24])
    ensures
        res@ == spec_resize_key(key@),
{
    let mut result = [0u8; 24];
    let mut i: usize = 0;
    while i < 24
        invariant
            i <= 24,
            forall|k: int| 0 <= k < i ==> result@[k] == (if k < 16 { key@[k] } else { key@[k - 16] }),
        decreases 24 - i,
    {
        result[i] = if i < 16 { key[i] } else { key[i - 16] };
        i = i + 1;
    }
    assert(result@ =~= spec_resize_key(key@));
    result
}

/// Derivation data of SCP02 session keys: purpose, sequence counter, then zeros (16 bytes).
pub open spec fn derivation_data(seq: Seq<u8>, purpose: Seq<u8>) -> Seq<u8> {
    purpose + seq + Seq::new(12, |i: int| 0u8)
}

/// Session key of SCP02: triple-DES CBC (zero IV) of the derivation data under the card key.
pub open spec fn spec_derive_key(card_key: Seq<u8>, seq: Seq<u8>, purpose: Seq<u8>) -> Seq<u8> {
    spec_tdes_cbc(spec_resize_key(card_key), Seq::new(8, |i: int| 0u8), derivation_data(seq, purpose))
}

/// Copy a 16-byte vector into an array
fn to_array16(v: &Vec<u8>) -> (res: [u8; 16])
    requires
        v@.len() == 16,
    ensures
        res@ == v@,
{
    let mut a = [0u8; 16];
    let mut i: usize = 0;
    while i < 16
        invariant
            i <= 16,
            v@.len() == 16,
            forall|k: int| 0 <= k < i ==> a@[k] == v@[k],
        decreases 16 - i,
    {
        a[i] = v[i];
        i = i + 1;
    }
    assert(a@ =~= v@);
    a
}

/// Copy bytes `start .. start + 8` of a vector into an array
fn to_array8(v: &Vec<u8>, start: usize) -> (res: [u8; 8])
    requires
        start + 8 <= v@.len(),
    ensures
        res@ == v@.subrange(start as int, start + 8),
{
    let n = v.len();
    let mut a = [0u8; 8];
    let mut i: usize = 0;
    while i < 8
        invariant
            i <= 8,
            n == v@.len(),
            start + 8 <= v@.len(),
            forall|k: int| 0 <= k < i ==> a@[k] == v@[start + k],
        decreases 8 - i,
    {
        a[i] = v[start + i];
        i = i + 1;
    }
    assert(a@ =~= v@.subrange(start as int, start + 8));
    a
}

/// Derive a session key from the card key using the sequence counter and purpose
pub fn derive_key(card_key: &[u8; 16], seq: &[u8; 2], purpose: &[u8; 2]) -> (res: [u8; 16])
    ensures
        res@ == spec_derive_key(card_key@, seq@, purpose@),
{
    let mut blocks: Vec<u8> = Vec::new();
    blocks.push(purpose[0]);
    blocks.push(purpose[1]);
    blocks.push(seq[0]);
    blocks.push(seq[1]);
    let mut i: usize = 0;
    while i < 12
        invariant
            i <= 12,
            blocks@ == purpose@ + seq@ + Seq::new(i as nat, |k: int| 0u8),
        decreases 12 - i,
    {
        blocks.push(0);
        i = i + 1;
        proof {
            assert(blocks@ =~= purpose@ + seq@ + Seq::new(i as nat, |k: int| 0u8));
        }
    }
    let key = resize_key(card_key);
    let iv = [0u8; 8];
    proof {
        assert(iv@ =~= Seq::new(8, |k: int| 0u8));
        assert(blocks@.len() == 16);
    }
    let out = tdes_cbc_encrypt(&key, &iv, blocks.as_slice());
    to_array16(&out)
}

/// The 24 bytes of cryptogram input: host cryptogram order (sequence counter, card challenge,
/// host challenge) or card cryptogram order (host challenge, sequence counter, card challenge),
/// followed by the ISO 7816 padding block 80 00 .. 00.
pub open spec fn cryptogram_data(seq: Seq<u8>, card: Seq<u8>, host: Seq<u8>, for_host: bool) -> Seq<u8> {
    let pad = seq![0x80u8] + Seq::new(7, |i: int| 0u8);
    if for_host {
        seq + card + host + pad
    } else {
        host + seq + card + pad
    }
}

/// SCP02 cryptogram: last block of triple-DES CBC (zero IV) of the cryptogram input.
pub open spec fn spec_calculate_cryptogram(enc_key: Seq<u8>, seq: Seq<u8>, card: Seq<u8>, host: Seq<u8>, for_host: bool) -> Seq<u8> {
    spec_tdes_cbc(spec_resize_key(enc_key), Seq::new(8, |i: int| 0u8),
        cryptogram_data(seq, card, host, for_host)).subrange(16, 24)
}

/// Calculate a card or host cryptogram using 3DES in CBC mode
pub fn calculate_cryptogram(
    enc_key: &[u8; 16],
    sequence_counter: &[u8; 2],
    card_challenge: &[u8; 6],
    host_challenge: &[u8; 8],
    for_host: bool,
) -> (res: [u8; 8])
    ensures
        res@ == spec_calculate_cryptogram(enc_key@, sequence_counter@, card_challenge@, host_challenge@, for_host),
        spec_calculate_cryptogram(enc_key@, sequence_counter@, card_challenge@, host_challenge@, for_host).len() == 8,
{
    let mut data: Vec<u8> = Vec::new();
    if for_host {
        crate::response::append_bytes(&mut data, sequence_counter.as_slice());
        crate::response::append_bytes(&mut data, card_challenge.as_slice());
        crate::response::append_bytes(&mut data, host_challenge.as_slice());
    } else {
        crate::response::append_bytes(&mut data, host_challenge.as_slice());
        crate::response::append_bytes(&mut data, sequence_counter.as_slice());
        crate::response::append_bytes(&mut data, card_challenge.as_slice());
    }
    data.push(0x80);
    let ghost before = data@;
    let mut i: usize = 0;
    while i < 7
        invariant
            i <= 7,
            data@ == before + Seq::new(i as nat, |k: int| 0u8),
        decreases 7 - i,
    {
        data.push(0);
        i = i + 1;
        proof { assert(data@ =~= before + Seq::new(i as nat, |k: int| 0u8)); }
    }
    proof {
        assert(data@ =~= cryptogram_data(sequence_counter@, card_challenge@, host_challenge@, for_host));
    }
    let key = resize_key(enc_key);
    let iv = [0u8; 8];
    proof { assert(iv@ =~= Seq::new(8, |k: int| 0u8)); }
    let out = tdes_cbc_encrypt(&key, &iv, data.as_slice());
    to_array8(&out, 16)
}

/// ISO 7816-4 padding: 80 followed by zeros up to the next multiple of 8 (a whole block when
/// the data is already aligned).
pub open spec fn spec_iso_pad(data: Seq<u8>) -> Seq<u8> {
    data + seq![0x80u8] + Seq::new((7 - data.len() % 8) as nat, |i: int| 0u8)
}

/// Bytewise exclusive or of two 8-byte blocks
pub open spec fn xor_block(a: Seq<u8>, b: Seq<u8>) -> Seq<u8> {
    Seq::new(8, |i: int| a[i] ^ b[i])
}

/// The 8-byte block with the given index
pub open spec fn block8(data: Seq<u8>, i: nat) -> Seq<u8> {
    data.subrange((i * 8) as int, (i * 8 + 8) as int)
}

/// Chaining value after single-DES CBC over the first `n` blocks, starting from `iv`.
pub open spec fn des_chain(key8: Seq<u8>, iv: Seq<u8>, data: Seq<u8>, n: nat) -> Seq<u8>
    decreases n,
{
    if n == 0 {
        iv
    } else {
        des_block_result(key8, xor_block(block8(data, (n - 1) as nat), des_chain(key8, iv, data, (n - 1) as nat)))
    }
}

/// The SCP02 retail MAC: single DES CBC over all padded blocks but the last, triple DES on the last.
pub open spec fn spec_mac_full_3des(key: Seq<u8>, iv: Seq<u8>, data: Seq<u8>) -> Seq<u8> {
    let p = spec_iso_pad(data);
    let nb = p.len() / 8;
    tdes_block_result(spec_resize_key(key), xor_block(block8(p, (nb - 1) as nat),
        des_chain(key.subrange(0, 8), iv, p, (nb - 1) as nat)))
}

/// XOR two 8-byte blocks
fn xor8(a: &[u8; 8], b: &[u8; 8]) -> (res: [u8; 8])
    ensures
        res@ == xor_block(a@, b@),
{
    let mut r = [0u8; 8];
    let mut i: usize = 0;
    while i < 8
        invariant
            i <= 8,
            forall|k: int| 0 <= k < i ==> r@[k] == a@[k] ^ b@[k],
        decreases 8 - i,
    {
        r[i] = a[i] ^ b[i];
        i = i + 1;
    }
    assert(r@ =~= xor_block(a@, b@));
    r
}

/// Calculate a full 3DES MAC for SCP02 (single DES for all blocks except the last, which uses 3DES)
pub fn mac_full_3des(key: &[u8; 16], iv: &[u8; 8], data: &[u8]) -> (res: [u8; 8])
    requires
        data@.len() < 256,
    ensures
        res@ == spec_mac_full_3des(key@, iv@, data@),
{
    let mut padded: Vec<u8> = crate::response::bytes_to_vec(data);
    padded.push(0x80);
    let ghost before = padded@;
    let zeros = 7 - data.len() % 8;
    let mut z: usize = 0;
    while z < zeros
        invariant
            z <= zeros,
            padded@ == before + Seq::new(z as nat, |k: int| 0u8),
        decreases zeros - z,
    {
        padded.push(0);
        z = z + 1;
        proof { assert(padded@ =~= before + Seq::new(z as nat, |k: int| 0u8)); }
    }
    proof {
        assert(padded@ =~= spec_iso_pad(data@));
    }
    let padded_len = padded.len();
    let nb = padded_len / 8;
    let mut des_key = [0u8; 8];
    let mut k: usize = 0;
    while k < 8
        invariant
            k <= 8,
            forall|j: int| 0 <= j < k ==> des_key@[j] == key@[j],
        decreases 8 - k,
    {
        des_key[k] = key[k];
        k = k + 1;
    }
    proof { assert(des_key@ =~= key@.subrange(0, 8)); }
    let mut current = *iv;
    let mut i: usize = 0;
    while i + 1 < nb
        invariant
            padded@ == spec_iso_pad(data@),
            padded@.len() == padded_len,
            padded_len < 272,
            padded_len % 8 == 0,
            nb == padded_len / 8,
            nb >= 1,
            i + 1 <= nb,
            des_key@ == key@.subrange(0, 8),
            current@ == des_chain(key@.subrange(0, 8), iv@, padded@, i as nat),
        decreases nb - i,
    {
        let block = to_array8(&padded, i * 8);
        let x = xor8(&block, &current);
        current = des_encrypt_block(&des_key, &x);
        i = i + 1;
    }
    let last = to_array8(&padded, (nb - 1) * 8);
    let x = xor8(&last, &current);
    let key24 = resize_key(key);
    tdes_encrypt_block(&key24, &x)
}

/// Encrypt an ICV (Initial Chaining Vector) for SCP02: CBC-MAC with single DES under the
/// first 8 bytes of the MAC key
pub fn encrypt_icv(mac_key: &[u8; 16], icv: &[u8; 8]) -> (res: [u8; 8])
    ensures
        res@ == spec_des_cbc_mac(mac_key@.subrange(0, 8), icv@),
{
    let mut k8 = [0u8; 8];
    let mut k: usize = 0;
    while k < 8
        invariant
            k <= 8,
            forall|j: int| 0 <= j < k ==> k8@[j] == mac_key@[j],
        decreases 8 - k,
    {
        k8[k] = mac_key[k];
        k = k + 1;
    }
    proof { assert(k8@ =~= mac_key@.subrange(0, 8)); }
    des_cbc_mac(&k8, icv.as_slice())
}

/// The padding adds 1 to 8 bytes and gives whole blocks.
pub proof fn lemma_iso_pad_aligned(data: Seq<u8>)
    ensures
        spec_iso_pad(data).len() % 8 == 0,
        data.len() < spec_iso_pad(data).len() <= data.len() + 8,
        spec_iso_pad(data).subrange(0, data.len() as int) == data,
        spec_iso_pad(data)[data.len() as int] == 0x80,
{
    assert(spec_iso_pad(data).subrange(0, data.len() as int) =~= data);
}

/// The host cryptogram (sent in EXTERNAL AUTHENTICATE) is the last block of triple-DES CBC
/// with a zero IV, under the resized key, over the sequence counter (bytes 0..2), the card
/// challenge (bytes 2..8), the host challenge (bytes 8..16) and the padding 80 00 .. 00.
pub proof fn lemma_host_cryptogram_input(key: Seq<u8>, seq: Seq<u8>, card: Seq<u8>, host: Seq<u8>, d: Seq<u8>)
    requires
        seq.len() == 2,
        card.len() == 6,
        host.len() == 8,
        d.len() == 24,
        d.subrange(0, 2) == seq,
        d.subrange(2, 8) == card,
        d.subrange(8, 16) == host,
        d[16] == 0x80,
        forall|i: int| 17 <= i < 24 ==> d[i] == 0,
    ensures
        spec_calculate_cryptogram(key, seq, card, host, true)
            == spec_tdes_cbc(spec_resize_key(key), Seq::new(8, |i: int| 0u8), d).subrange(16, 24),
{
    assert(d =~= cryptogram_data(seq, card, host, true));
}

/// The card cryptogram (checked against INITIALIZE UPDATE) is the last block of triple-DES CBC
/// with a zero IV, under the resized key, over the host challenge (bytes 0..8), the sequence
/// counter (bytes 8..10), the card challenge (bytes 10..16) and the padding 80 00 .. 00.
pub proof fn lemma_card_cryptogram_input(key: Seq<u8>, seq: Seq<u8>, card: Seq<u8>, host: Seq<u8>, d: Seq<u8>)
    requires
        seq.len() == 2,
        card.len() == 6,
        host.len() == 8,
        d.len() == 24,
        d.subrange(0, 8) == host,
        d.subrange(8, 10) == seq,
        d.subrange(10, 16) == card,
        d[16] == 0x80,
        forall|i: int| 17 <= i < 24 ==> d[i] == 0,
    ensures
        spec_calculate_cryptogram(key, seq, card, host, false)
            == spec_tdes_cbc(spec_resize_key(key), Seq::new(8, |i: int| 0u8), d).subrange(16, 24),
{
    assert(d =~= cryptogram_data(seq, card, host, false));
}

/// CBC-MAC with single DES of one 8-byte block is the DES encryption of that block.
pub proof fn lemma_des_cbc_mac_one_block(key: Seq<u8>, block: Seq<u8>)
    requires
        block.len() == 8,
    ensures
        spec_des_cbc_mac(key, block) == des_block_result(key, block),
{
    let zero = Seq::new(8, |i: int| 0u8);
    assert(zero_fill(block) =~= block);
    assert(block8(block, 0) =~= block);
    assert forall|i: int| 0 <= i < 8 implies #[trigger] xor_block(block, zero)[i] == block[i] by {
        let b = block[i];
        assert(b ^ 0u8 == b) by (bit_vector);
    }
    assert(xor_block(block, zero) =~= block);
    assert(des_chain(key, zero, block, 0) == zero);
}

/// The 24-byte triple-DES key of a 16-byte key holds the key, then its first 8 bytes again.
pub proof fn lemma_resize_key_layout(key: Seq<u8>)
    requires
        key.len() == 16,
    ensures
        spec_resize_key(key).len() == 24,
        spec_resize_key(key).subrange(0, 16) == key,
        spec_resize_key(key).subrange(16, 24) == key.subrange(0, 8),
{
    assert(spec_resize_key(key).subrange(0, 16) =~= key);
    assert(spec_resize_key(key).subrange(16, 24) =~= key.subrange(0, 8));
}

/// A session key is triple-DES CBC with a zero IV, under the resized card key, over the
/// derivation purpose (bytes 0..2), the sequence counter (bytes 2..4) and twelve zeros.
pub proof fn lemma_derivation_input(key: Seq<u8>, seq: Seq<u8>, purpose: Seq<u8>, d: Seq<u8>)
    requires
        seq.len() == 2,
        purpose.len() == 2,
        d.len() == 16,
        d.subrange(0, 2) == purpose,
        d.subrange(2, 4) == seq,
        forall|i: int| 4 <= i < 16 ==> d[i] == 0,
    ensures
        spec_derive_key(key, seq, purpose) == spec_tdes_cbc(spec_resize_key(key), Seq::new(8, |i: int| 0u8), d),
{
    assert(d =~= derivation_data(seq, purpose));
}

} // verus!
