//! SCP02 session: key sets, session establishment from an INITIALIZE UPDATE
//! response, and the command wrapper that appends C-MACs.
use vstd::prelude::*;

use crate::command::{Command, CommandView};
use crate::constants::scp;
use crate::crypto::{
    calculate_cryptogram, derive_key, encrypt_icv, mac_full_3des, spec_des_cbc_mac, des_block_result, lemma_des_cbc_mac_one_block,
    spec_calculate_cryptogram, spec_derive_key, spec_mac_full_3des, DERIVATION_ENC, DERIVATION_MAC,
};
use crate::gp_error::Error;
use crate::gp_responses::{initialize_update_response_is, sw1_of, sw2_of, InitializeUpdateResponse};
use crate::response::{append_bytes, spec_payload_part};

verus! {

/// Secure Channel Protocol (SCP) keys
#[derive(Debug, Clone, Copy, PartialEq, Eq)]
pub struct Keys {
    /// Encryption key
    enc: [u8; 16],
    /// MAC key
    mac: [u8; 16],
}

/// The default GlobalPlatform test key 40 41 .. 4F
pub open spec fn default_test_key() -> Seq<u8> {
    Seq::new(16, |i: int| (0x40 + i) as u8)
}

impl Keys {
    /// The encryption key
    pub closed spec fn enc_view(self) -> Seq<u8> {
        self.enc@
    }

    /// The MAC key
    pub closed spec fn mac_view(self) -> Seq<u8> {
        self.mac@
    }

    /// Create a new key set with the specified encryption and MAC keys
    pub fn new(enc: [u8; 16], mac: [u8; 16]) -> (res: Self)
        ensures
            res.enc_view() == enc@,
            res.mac_view() == mac@,
    {
        Keys { enc, mac }
    }

    /// Create a new key set where all keys are the same
    pub fn from_single_key(key: [u8; 16]) -> (res: Self)
        ensures
            res.enc_view() == key@,
            res.mac_view() == key@,
    {
        Keys { enc: key, mac: key }
    }

    /// Get the encryption key
    pub fn enc(&self) -> (res: &[u8; 16])
        ensures
            res@ == self.enc_view(),
    {
        &self.enc
    }

    /// Get the MAC key
    pub fn mac(&self) -> (res: &[u8; 16])
        ensures
            res@ == self.mac_view(),
    {
        &self.mac
    }
}

impl Default for Keys {
    /// The default GlobalPlatform test key (40 41 .. 4F) for both keys
    fn default() -> (res: Self)
        ensures
            res.enc_view() == default_test_key(),
            res.mac_view() == default_test_key(),
    {
        let key: [u8; 16] = [
            0x40, 0x41, 0x42, 0x43, 0x44, 0x45, 0x46, 0x47, 0x48, 0x49, 0x4A, 0x4B, 0x4C, 0x4D,
            0x4E, 0x4F,
        ];
        assert(key@ =~= default_test_key());
        Self::from_single_key(key)
    }
}

/// Compare two byte slices
pub fn bytes_eq(a: &[u8], b: &[u8]) -> (res: bool)
    ensures
        res == (a@ == b@),
{
    if a.len() != b.len() {
        return false;
    }
    let mut i: usize = 0;
    while i < a.len()
        invariant
            i <= a@.len(),
            a@.len() == b@.len(),
            forall|k: int| 0 <= k < i ==> a@[k] == b@[k],
        decreases a@.len() - i,
    {
        if a[i] != b[i] {
            return false;
        }
        i = i + 1;
    }
    assert(a@ =~= b@);
    true
}

/// Session state for SCP02 secure channel
#[derive(Debug, Clone, Copy, PartialEq, Eq)]
pub struct Session {
    /// Session keys derived from card keys
    keys: Keys,
    /// Card challenge received during initialization
    card_challenge: [u8; 6],
    /// Host challenge sent during initialization
    host_challenge: [u8; 8],
    /// Sequence counter
    sequence_counter: [u8; 2],
}

/// Abstract value of a session
pub struct SessionView {
    /// Session encryption key
    pub enc: Seq<u8>,
    /// Session MAC key
    pub mac: Seq<u8>,
    /// Card challenge
    pub card_challenge: Seq<u8>,
    /// Host challenge
    pub host_challenge: Seq<u8>,
    /// Sequence counter
    pub sequence_counter: Seq<u8>,
}

impl View for Session {
    type V = SessionView;

    closed spec fn view(&self) -> SessionView {
        SessionView {
            enc: self.keys.enc@,
            mac: self.keys.mac@,
            card_challenge: self.card_challenge@,
            host_challenge: self.host_challenge@,
            sequence_counter: self.sequence_counter@,
        }
    }
}

/// The outcome of opening a session from an INITIALIZE UPDATE response: the SCP version must
/// be 02, and the card cryptogram must match the one computed with the derived session key.
pub open spec fn spec_session_from_response(
    enc: Seq<u8>,
    mac: Seq<u8>,
    r: InitializeUpdateResponse,
    host: Seq<u8>,
) -> Result<SessionView, Error> {
    match r {
        InitializeUpdateResponse::Success { key_info, sequence_counter, card_challenge, card_cryptogram, .. } => {
            if key_info@[1] != 0x02 {
                Err(Error::UnsupportedScpVersion(key_info@[1]))
            } else {
                let senc = spec_derive_key(enc, sequence_counter@, seq![0x01u8, 0x82u8]);
                let smac = spec_derive_key(mac, sequence_counter@, seq![0x01u8, 0x01u8]);
                if card_cryptogram@ != spec_calculate_cryptogram(senc, sequence_counter@, card_challenge@, host, false) {
                    Err(Error::AuthenticationFailed("Invalid card cryptogram"))
                } else {
                    Ok(SessionView {
                        enc: senc,
                        mac: smac,
                        card_challenge: card_challenge@,
                        host_challenge: host,
                        sequence_counter: sequence_counter@,
                    })
                }
            }
        },
        _ => Err(Error::InvalidResponse("Not a successful INITIALIZE UPDATE response")),
    }
}

/// The same outcome read from the raw bytes of a successful (9000, 28 data bytes) INITIALIZE
/// UPDATE reply: key information at 10..12, sequence counter at 12..14, card challenge at
/// 14..20 and card cryptogram at 20..28 of the data; any other reply opens no session.
pub open spec fn spec_session_from_reply(enc: Seq<u8>, mac: Seq<u8>, reply: Seq<u8>, host: Seq<u8>) -> Result<SessionView, Error> {
    let p = spec_payload_part(reply);
    if reply.len() >= 2 && sw1_of(reply) == 0x90 && sw2_of(reply) == 0x00 && p.len() == 28 {
        let counter = p.subrange(12, 14);
        let card_challenge = p.subrange(14, 20);
        if p[11] != 0x02 {
            Err(Error::UnsupportedScpVersion(p[11]))
        } else {
            let senc = spec_derive_key(enc, counter, seq![0x01u8, 0x82u8]);
            let smac = spec_derive_key(mac, counter, seq![0x01u8, 0x01u8]);
            if p.subrange(20, 28) != spec_calculate_cryptogram(senc, counter, card_challenge, host, false) {
                Err(Error::AuthenticationFailed("Invalid card cryptogram"))
            } else {
                Ok(SessionView { enc: senc, mac: smac, card_challenge, host_challenge: host, sequence_counter: counter })
            }
        }
    } else {
        Err(Error::InvalidResponse("Not a successful INITIALIZE UPDATE response"))
    }
}

/// The response that parsing a reply gives opens the session that the reply's bytes describe
pub proof fn lemma_session_from_reply(enc: Seq<u8>, mac: Seq<u8>, r: InitializeUpdateResponse, reply: Seq<u8>, host: Seq<u8>)
    requires
        reply.len() >= 2,
        initialize_update_response_is(r, sw1_of(reply), sw2_of(reply), spec_payload_part(reply)),
    ensures
        spec_session_from_response(enc, mac, r, host) == spec_session_from_reply(enc, mac, reply, host),
{
    match r {
        InitializeUpdateResponse::Success { key_info, sequence_counter, card_challenge, card_cryptogram, .. } => {
            let p = spec_payload_part(reply);
            assert(key_info@[1] == p[11]);
        },
        _ => {},
    }
}

impl Session {
    /// Create a new session from an initialization response: checks the SCP version,
    /// derives the session keys and validates the card's cryptogram
    pub fn from_response(
        keys: &Keys,
        init_response: &InitializeUpdateResponse,
        host_challenge: [u8; 8],
    ) -> (res: Result<Self, Error>)
        ensures
            (match res {
                Ok(s) => spec_session_from_response(keys.enc_view(), keys.mac_view(), *init_response, host_challenge@) == Ok::<SessionView, Error>(s@),
                Err(e) => spec_session_from_response(keys.enc_view(), keys.mac_view(), *init_response, host_challenge@) == Err::<SessionView, Error>(e),
            }),
    {
        match init_response {
            InitializeUpdateResponse::Success { key_info, sequence_counter, card_challenge, card_cryptogram, .. } => {
                let scp_version = key_info[1];
                if scp_version != scp::SCP02 {
                    return Err(Error::UnsupportedScpVersion(scp_version));
                }
                let session_enc = derive_key(keys.enc(), sequence_counter, &DERIVATION_ENC);
                let session_mac = derive_key(keys.mac(), sequence_counter, &DERIVATION_MAC);
                proof {
                    assert(DERIVATION_ENC@ =~= seq![0x01u8, 0x82u8]);
                    assert(DERIVATION_MAC@ =~= seq![0x01u8, 0x01u8]);
                }
                let expected = calculate_cryptogram(&session_enc, sequence_counter, card_challenge, &host_challenge, false);
                if !bytes_eq(card_cryptogram.as_slice(), expected.as_slice()) {
                    return Err(Error::AuthenticationFailed("Invalid card cryptogram"));
                }
                Ok(Session {
                    keys: Keys::new(session_enc, session_mac),
                    card_challenge: *card_challenge,
                    host_challenge,
                    sequence_counter: *sequence_counter,
                })
            },
            _ => Err(Error::InvalidResponse("Not a successful INITIALIZE UPDATE response")),
        }
    }

    /// Get the session keys
    pub fn keys(&self) -> (res: &Keys)
        ensures
            res.enc_view() == self@.enc,
            res.mac_view() == self@.mac,
    {
        &self.keys
    }

    /// Get the sequence counter
    pub fn sequence_counter(&self) -> (res: &[u8; 2])
        ensures
            res@ == self@.sequence_counter,
    {
        &self.sequence_counter
    }

    /// Get the card challenge
    pub fn card_challenge(&self) -> (res: &[u8; 6])
        ensures
            res@ == self@.card_challenge,
    {
        &self.card_challenge
    }

    /// Get the host challenge
    pub fn host_challenge(&self) -> (res: &[u8; 8])
        ensures
            res@ == self@.host_challenge,
    {
        &self.host_challenge
    }
}

/// Whether all eight bytes are zero
fn is_zero_block(b: &[u8; 8]) -> (res: bool)
    ensures
        res == (b@ == zero_block()),
{
    let mut i: usize = 0;
    while i < 8
        invariant
            i <= 8,
            forall|k: int| 0 <= k < i ==> b@[k] == 0,
        decreases 8 - i,
    {
        if b[i] != 0 {
            assert(b@[i as int] != zero_block()[i as int]);
            return false;
        }
        i = i + 1;
    }
    assert(b@ =~= zero_block());
    true
}

/// SCP02 command wrapper: appends a C-MAC to commands and chains the MAC as next ICV
#[derive(Clone)]
pub struct SCP02Wrapper {
    /// MAC key
    mac_key: [u8; 16],
    /// Initial chaining vector
    icv: [u8; 8],
}

/// Abstract value of the wrapper: MAC key and current ICV
pub struct WrapperView {
    /// MAC key
    pub mac_key: Seq<u8>,
    /// Current ICV
    pub icv: Seq<u8>,
}

impl View for SCP02Wrapper {
    type V = WrapperView;

    closed spec fn view(&self) -> WrapperView {
        WrapperView { mac_key: self.mac_key@, icv: self.icv@ }
    }
}

/// Eight zero bytes
pub open spec fn zero_block() -> Seq<u8> {
    Seq::new(8, |i: int| 0u8)
}

/// The data over which the C-MAC is computed: header with the secure messaging bit set in CLA,
/// Lc counting the MAC, and the command data.
pub open spec fn mac_input(c: CommandView) -> Seq<u8> {
    let d = match c.data { Some(d) => d, None => Seq::<u8>::empty() };
    seq![c.cla | 0x04u8, c.ins, c.p1, c.p2, (d.len() + 8) as u8] + d
}

/// The ICV the MAC is computed with: the zero ICV as is, any other ICV encrypted first.
pub open spec fn mac_icv(mac_key: Seq<u8>, icv: Seq<u8>) -> Seq<u8> {
    if icv == zero_block() { icv } else { spec_des_cbc_mac(mac_key.subrange(0, 8), icv) }
}

/// The C-MAC of a command under the wrapper state
pub open spec fn spec_command_mac(w: WrapperView, c: CommandView) -> Seq<u8> {
    spec_mac_full_3des(w.mac_key, mac_icv(w.mac_key, w.icv), mac_input(c))
}

/// The wrapped command: secure messaging bit set in CLA, MAC appended to the data, same Le.
pub open spec fn spec_wrapped_command(w: WrapperView, c: CommandView) -> CommandView {
    let d = match c.data { Some(d) => d, None => Seq::<u8>::empty() };
    CommandView {
        cla: c.cla | 0x04u8,
        ins: c.ins,
        p1: c.p1,
        p2: c.p2,
        data: Some(d + spec_command_mac(w, c)),
        le: c.le,
    }
}

impl SCP02Wrapper {
    /// Create a new SCP02 wrapper with the specified MAC key and a zero ICV
    pub fn new(key: [u8; 16]) -> (res: Self)
        ensures
            res@.mac_key == key@,
            res@.icv == zero_block(),
    {
        let w = SCP02Wrapper { mac_key: key, icv: [0u8; 8] };
        assert(w.icv@ =~= zero_block());
        w
    }

    /// Get the MAC key
    pub fn mac_key(&self) -> (res: &[u8; 16])
        ensures
            res@ == self@.mac_key,
    {
        &self.mac_key
    }

    /// Get the current ICV
    pub fn icv(&self) -> (res: &[u8; 8])
        ensures
            res@ == self@.icv,
    {
        &self.icv
    }

    /// Encrypt the ICV for the next operation
    pub fn encrypt_icv(&mut self) -> (res: Result<(), Error>)
        ensures
            res is Ok,
            final(self)@.mac_key == old(self)@.mac_key,
            final(self)@.icv == spec_des_cbc_mac(old(self)@.mac_key.subrange(0, 8), old(self)@.icv),
    {
        self.icv = encrypt_icv(&self.mac_key, &self.icv);
        Ok(())
    }

    /// Wrap an APDU command by adding a MAC; the MAC becomes the ICV of the next command
    pub fn wrap_command(&mut self, command: &Command) -> (res: Command)
        requires
            command@.data matches Some(d) ==> d.len() <= 247,
        ensures
            res@ == spec_wrapped_command(old(self)@, command@),
            final(self)@.mac_key == old(self)@.mac_key,
            final(self)@.icv == spec_command_mac(old(self)@, command@),
            spec_command_mac(old(self)@, command@).len() == 8,
    {
        let cla = command.class() | 0x04;
        let mut mac_data: Vec<u8> = Vec::new();
        mac_data.push(cla);
        mac_data.push(command.instruction());
        mac_data.push(command.p1());
        mac_data.push(command.p2());
        let data: &[u8] = match command.data() {
            Some(d) => d,
            None => &[],
        };
        let data_len = data.len();
        mac_data.push((data_len + 8) as u8);
        append_bytes(&mut mac_data, data);
        proof {
            assert(mac_data@ =~= mac_input(command@));
        }
        let icv_for_mac = if is_zero_block(&self.icv) {
            self.icv
        } else {
            encrypt_icv(&self.mac_key, &self.icv)
        };
        let mac = mac_full_3des(&self.mac_key, &icv_for_mac, mac_data.as_slice());
        self.icv = mac;
        let mut new_data: Vec<u8> = Vec::new();
        append_bytes(&mut new_data, data);
        append_bytes(&mut new_data, mac.as_slice());
        let mut new_cmd = Command::new(cla, command.instruction(), command.p1(), command.p2()).with_data(new_data);
        match command.expected_length() {
            Some(le) => {
                new_cmd = new_cmd.with_le(le);
            },
            None => {},
        }
        new_cmd
    }
}

/// The MAC of a wrapped command is its last eight data bytes, and it is the ICV of the next
/// command; the original data comes first, unchanged.
pub proof fn lemma_wrapped_carries_mac(w: WrapperView, c: CommandView)
    requires
        c.data matches Some(d) ==> d.len() <= 247,
        w.mac_key.len() == 16,
    ensures
        spec_wrapped_command(w, c).data matches Some(nd) && {
            let d = match c.data { Some(d) => d, None => Seq::<u8>::empty() };
            &&& nd.subrange(0, d.len() as int) == d
            &&& nd.subrange(d.len() as int, nd.len() as int) == spec_command_mac(w, c)
        },
{
    let d = match c.data { Some(d) => d, None => Seq::<u8>::empty() };
    let nd = d + spec_command_mac(w, c);
    assert(nd.subrange(0, d.len() as int) =~= d);
    assert(nd.subrange(d.len() as int, nd.len() as int) =~= spec_command_mac(w, c));
}

/// The C-MAC of a command: the retail MAC over the header with the secure messaging bit set
/// in CLA, Lc counting the 8 MAC bytes, and the data; chained from the previous MAC, which is
/// first encrypted with single DES under the first 8 bytes of the MAC key (a zero ICV is used
/// as it is).
pub proof fn lemma_command_mac_chaining(w: WrapperView, c: CommandView)
    requires
        w.icv.len() == 8,
    ensures
        ({
            let d = match c.data { Some(d) => d, None => Seq::<u8>::empty() };
            let input = seq![c.cla | 0x04u8, c.ins, c.p1, c.p2, (d.len() + 8) as u8] + d;
            &&& w.icv == Seq::new(8, |i: int| 0u8) ==> spec_command_mac(w, c) == spec_mac_full_3des(w.mac_key, w.icv, input)
            &&& w.icv != Seq::new(8, |i: int| 0u8) ==> spec_command_mac(w, c)
                == spec_mac_full_3des(w.mac_key, des_block_result(w.mac_key.subrange(0, 8), w.icv), input)
        }),
{
    lemma_des_cbc_mac_one_block(w.mac_key.subrange(0, 8), w.icv);
    assert(zero_block() =~= Seq::new(8, |i: int| 0u8));
}

} // verus!
