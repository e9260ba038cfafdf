//! GlobalPlatform SCP02 secure channel over a card transport: opening (INITIALIZE UPDATE and
//! EXTERNAL AUTHENTICATE), C-MAC protection of commands, closing and upgrade requests.
use vstd::prelude::*;

use rand::RngCore;

use crate::command::{Command, CommandView, spec_command_from_bytes, spec_command_to_bytes};
use crate::constants::{cla, external_auth_p1, ins};
use crate::crypto::spec_calculate_cryptogram;
use crate::error::{ResponseError, TransportError};
use crate::gp_commands::{cmd, ExternalAuthenticateCommand, InitializeUpdateCommand};
use crate::gp_error::Error;
use crate::gp_responses::{sw1_of, sw2_of, ExternalAuthenticateResponse, InitializeUpdateResponse};
use crate::response::{bytes_to_vec, spec_payload_part};
use crate::security::{level, spec_has_mac, LevelView, SecurityLevel};
use crate::session::{
    Keys, SCP02Wrapper, Session, SessionView, WrapperView, lemma_session_from_reply, spec_command_mac,
    spec_session_from_reply, spec_wrapped_command, zero_block,
};
use crate::transport::CardTransport;

verus! {

/// Fills an 8-byte host challenge from `rand::rng()` (`RngCore::fill_bytes`).
///
/// Nothing is stated of the bytes: they come from the thread-local random generator.
#[verifier::external_body]
pub(crate) fn random_host_challenge() -> (res: [u8; 8]) {
    let mut challenge = [0u8; 8];
    rand::rng().fill_bytes(&mut challenge);
    challenge
}

/// The length of a command's data field
pub open spec fn data_len(c: CommandView) -> int {
    match c.data {
        Some(d) => d.len() as int,
        None => 0,
    }
}

/// Protecting raw command bytes with the wrapper state `w`: when there is a wrapper, the bytes
/// decode as a command and its data leaves room for the MAC, the next wrapper state (the MAC
/// becomes the ICV) and the bytes of the wrapped command
pub open spec fn spec_protect(w: Option<WrapperView>, command: Seq<u8>) -> Option<(WrapperView, Seq<u8>)> {
    match w {
        Some(w) => match spec_command_from_bytes(command) {
            Some(c) => if data_len(c) <= 247 {
                Some((
                    WrapperView { mac_key: w.mac_key, icv: spec_command_mac(w, c) },
                    spec_command_to_bytes(spec_wrapped_command(w, c)),
                ))
            } else {
                None
            },
            None => None,
        },
        None => None,
    }
}

/// The bytes of INITIALIZE UPDATE with the host challenge (key version 0, Le = 00)
pub open spec fn initialize_update_bytes(host: Seq<u8>) -> Seq<u8> {
    spec_command_to_bytes(cmd(cla::GP, ins::INITIALIZE_UPDATE, 0x00, 0x00, host, Some(0u8)))
}

/// The session that INITIALIZE UPDATE answered by `reply` opens, or the error: the transport's
/// error, an incomplete reply, a success reply without its 28 data bytes, or what the reply's
/// bytes give (SCP version and card cryptogram checks)
pub open spec fn spec_open_session(keys: Keys, host: Seq<u8>, reply: Result<Vec<u8>, TransportError>) -> Result<SessionView, Error> {
    match reply {
        Err(e) => Err(Error::Transport(e)),
        Ok(b) => if b@.len() < 2 {
            Err(Error::Response(ResponseError::Incomplete))
        } else if sw1_of(b@) == 0x90 && sw2_of(b@) == 0x00 && spec_payload_part(b@).len() != 28 {
            Err(Error::Response(ResponseError::Parse("Response data incorrect length")))
        } else {
            spec_session_from_reply(keys.enc_view(), keys.mac_view(), b@, host)
        },
    }
}

/// EXTERNAL AUTHENTICATE for a session: C-MAC level, with the host cryptogram
pub open spec fn external_authenticate_view(s: SessionView) -> CommandView {
    cmd(cla::MAC, ins::EXTERNAL_AUTHENTICATE, external_auth_p1::CMAC, 0x00,
        spec_calculate_cryptogram(s.enc, s.sequence_counter, s.card_challenge, s.host_challenge, true), None)
}

/// The wrapper of a fresh session: its MAC key and a zero ICV
pub open spec fn fresh_wrapper(s: SessionView) -> WrapperView {
    WrapperView { mac_key: s.mac, icv: zero_block() }
}

/// The bytes of EXTERNAL AUTHENTICATE for a fresh session, C-MAC protected
pub open spec fn external_authenticate_bytes(s: SessionView) -> Seq<u8> {
    spec_command_to_bytes(spec_wrapped_command(fresh_wrapper(s), external_authenticate_view(s)))
}

/// The outcome of EXTERNAL AUTHENTICATE answered by `reply`: accepted on 9000
pub open spec fn spec_authenticate_outcome(reply: Result<Vec<u8>, TransportError>) -> Result<(), Error> {
    match reply {
        Err(e) => Err(Error::Transport(e)),
        Ok(b) => if b@.len() < 2 {
            Err(Error::Response(ResponseError::Incomplete))
        } else if sw1_of(b@) == 0x90 && sw2_of(b@) == 0x00 {
            Ok(())
        } else {
            Err(Error::AuthenticationFailed("EXTERNAL AUTHENTICATE failed"))
        },
    }
}

/// GPSecureChannel implements GlobalPlatform SCP02 secure channels over a transport
pub struct GPSecureChannel<T: CardTransport> {
    /// Session containing keys and state, set when the channel is opened
    session: Option<Session>,
    /// Command wrapper for SCP02, set when the channel is opened
    wrapper: Option<SCP02Wrapper>,
    /// Whether the channel is established
    established: bool,
    /// Current security level
    security_level: SecurityLevel,
    /// The underlying transport
    transport: T,
    /// Keys for establishing the session
    keys: Keys,
}

impl<T: CardTransport> GPSecureChannel<T> {
    /// Whether the channel is established
    pub closed spec fn established_view(&self) -> bool {
        self.established
    }

    /// The current security level
    pub closed spec fn level_view(&self) -> LevelView {
        self.security_level@
    }

    /// The current session, if any
    pub closed spec fn session_view(&self) -> Option<SessionView> {
        match self.session {
            Some(s) => Some(s@),
            None => None,
        }
    }

    /// The current command wrapper state, if any
    pub closed spec fn wrapper_view(&self) -> Option<WrapperView> {
        match self.wrapper {
            Some(w) => Some(w@),
            None => None,
        }
    }

    /// The card keys of this channel
    pub closed spec fn keys_view(&self) -> Keys {
        self.keys
    }

    /// The underlying transport
    pub closed spec fn transport_view(&self) -> T {
        self.transport
    }

    /// The channel invariant: an established channel has a session and a wrapper keyed with
    /// the session MAC key
    pub closed spec fn wf(&self) -> bool {
        self.established ==> (self.session matches Some(s) && self.wrapper matches Some(w)
            && w@.mac_key == s@.mac && w@.mac_key.len() == 16)
    }

    /// Opening the channel with the host challenge `host`: INITIALIZE UPDATE with `host` goes
    /// to the transport; a reply that opens no session gives its error and leaves the channel
    /// as it was; otherwise the channel takes the new session and a fresh wrapper, the
    /// C-MAC protected EXTERNAL AUTHENTICATE goes to the transport, and the channel is
    /// established (MAC protection) exactly when the card accepts it
    pub open spec fn opens(&self, after: &Self, host: Seq<u8>, res: Result<(), Error>) -> bool {
        &&& after.keys_view() == self.keys_view()
        &&& exists|t1: T, r0: Result<Vec<u8>, TransportError>|
            #[trigger] self.transport_view().transmits(&t1, initialize_update_bytes(host), r0)
            && match spec_open_session(self.keys_view(), host, r0) {
                Err(e) => {
                    &&& res == Err::<(), Error>(e)
                    &&& after.transport_view() == t1
                    &&& after.session_view() == self.session_view()
                    &&& after.wrapper_view() == self.wrapper_view()
                    &&& after.established_view() == self.established_view()
                    &&& after.level_view() == self.level_view()
                },
                Ok(s) => {
                    &&& after.session_view() == Some(s)
                    &&& after.wrapper_view() == Some(WrapperView {
                        mac_key: s.mac,
                        icv: spec_command_mac(fresh_wrapper(s), external_authenticate_view(s)),
                    })
                    &&& exists|r1: Result<Vec<u8>, TransportError>|
                        #[trigger] t1.transmits(&after.transport_view(), external_authenticate_bytes(s), r1)
                        && res == spec_authenticate_outcome(r1)
                    &&& res is Ok ==> after.established_view() && after.level_view() == level(false, true, false)
                    &&& res is Err ==> !after.established_view() && after.level_view() == self.level_view()
                },
            }
    }

    /// Create a new secure channel with the specified transport and keys (not established)
    pub fn new(transport: T, keys: Keys) -> (res: Self)
        ensures
            res.wf(),
            !res.established_view(),
            res.level_view() == level(false, false, false),
            res.session_view() is None,
            res.wrapper_view() is None,
            res.keys_view() == keys,
            res.transport_view() == transport,
    {
        GPSecureChannel {
            session: None,
            wrapper: None,
            established: false,
            security_level: SecurityLevel::none(),
            transport,
            keys,
        }
    }

    /// The channel with other card keys
    pub closed spec fn with_keys(&self, keys: Keys) -> Self {
        GPSecureChannel { keys, ..*self }
    }

    /// Replace the card keys used the next time the channel is opened
    pub fn set_keys(&mut self, keys: Keys)
        ensures
            *final(self) == old(self).with_keys(keys),
            final(self).wf() == old(self).wf(),
            final(self).transport_view() == old(self).transport_view(),
            final(self).keys_view() == keys,
            final(self).established_view() == old(self).established_view(),
            final(self).session_view() == old(self).session_view(),
            final(self).level_view() == old(self).level_view(),
    {
        self.keys = keys;
    }

    /// Get a reference to the session (None until the channel is opened)
    pub fn session(&self) -> (res: Option<&Session>)
        ensures
            res is Some <==> self.session_view() is Some,
            res matches Some(s) ==> self.session_view() == Some(s@),
    {
        match &self.session {
            Some(s) => Some(s),
            None => None,
        }
    }

    /// Get a reference to the underlying transport
    pub fn transport(&self) -> (res: &T)
        ensures
            *res == self.transport_view(),
    {
        &self.transport
    }

    /// Get a mutable reference to the underlying transport
    pub fn transport_mut(&mut self) -> (res: &mut T)
        ensures
            *res == old(self).transport_view(),
            final(self).transport_view() == *final(res),
            final(self).wf() == old(self).wf(),
            final(self).established_view() == old(self).established_view(),
            final(self).session_view() == old(self).session_view(),
            final(self).level_view() == old(self).level_view(),
            final(self).keys_view() == old(self).keys_view(),
    {
        &mut self.transport
    }

    /// Check if the secure channel is established
    pub fn is_established(&self) -> (res: bool)
        ensures
            res == self.established_view(),
    {
        self.established
    }

    /// Get the current security level
    pub fn security_level(&self) -> (res: SecurityLevel)
        ensures
            res@ == self.level_view(),
    {
        self.security_level
    }

    /// Authenticate the host with EXTERNAL AUTHENTICATE (C-MAC protected); on success the
    /// channel is established with MAC protection
    fn authenticate(&mut self) -> (res: Result<(), Error>)
        requires
            old(self).session is Some,
            old(self).wrapper matches Some(w) && w@.mac_key == old(self).session.unwrap()@.mac && w@.mac_key.len() == 16,
        ensures
            final(self).wf(),
            final(self).session == old(self).session,
            final(self).keys == old(self).keys,
            final(self).wrapper matches Some(w) && w@ == (WrapperView {
                mac_key: old(self).wrapper.unwrap()@.mac_key,
                icv: spec_command_mac(old(self).wrapper.unwrap()@, external_authenticate_view(old(self).session.unwrap()@)),
            }),
            exists|r1: Result<Vec<u8>, TransportError>|
                #[trigger] old(self).transport.transmits(&final(self).transport, spec_command_to_bytes(
                    spec_wrapped_command(old(self).wrapper.unwrap()@, external_authenticate_view(old(self).session.unwrap()@))), r1)
                && res == spec_authenticate_outcome(r1),
            res is Ok ==> final(self).established && final(self).security_level@ == level(false, true, false),
            res is Err ==> !final(self).established,
            res is Err ==> final(self).security_level == old(self).security_level,
    {
        let session = match &self.session {
            Some(s) => *s,
            None => return Err(Error::NoSecureChannel),
        };
        let auth_cmd = ExternalAuthenticateCommand::from_challenges(
            session.keys().enc(),
            session.sequence_counter(),
            session.card_challenge(),
            session.host_challenge(),
        );
        proof {
            assert(auth_cmd@ == external_authenticate_view(session@));
        }
        let wrapped = match &mut self.wrapper {
            Some(w) => w.wrap_command(&auth_cmd),
            None => return Err(Error::NoSecureChannel),
        };
        let wrapped_bytes = wrapped.to_bytes();
        assert(self.transport == old(self).transport);
        assert(wrapped_bytes@ == spec_command_to_bytes(
            spec_wrapped_command(old(self).wrapper.unwrap()@, external_authenticate_view(old(self).session.unwrap()@))));
        let reply = self.transport.transmit_raw(wrapped_bytes.as_slice());
        let ghost r1 = reply;
        let res = match reply {
            Err(e) => Err(Error::Transport(e)),
            Ok(response_bytes) => match ExternalAuthenticateResponse::from_bytes(response_bytes.as_slice()) {
                Err(e) => Err(Error::Response(e)),
                Ok(ExternalAuthenticateResponse::Success) => Ok(()),
                Ok(_) => Err(Error::AuthenticationFailed("EXTERNAL AUTHENTICATE failed")),
            },
        };
        proof {
            assert(res == spec_authenticate_outcome(r1));
            assert(session@ == old(self).session.unwrap()@);
            assert(old(self).transport.transmits(&self.transport, spec_command_to_bytes(
                spec_wrapped_command(old(self).wrapper.unwrap()@, external_authenticate_view(old(self).session.unwrap()@))), r1));
        }
        match res {
            Ok(()) => {
                self.security_level = SecurityLevel::mac_protected();
                self.established = true;
            },
            Err(_) => {
                self.established = false;
            },
        }
        assert(old(self).transport.transmits(&self.transport, spec_command_to_bytes(
            spec_wrapped_command(old(self).wrapper.unwrap()@, external_authenticate_view(old(self).session.unwrap()@))), r1));
        res
    }

    /// Open the secure channel with the given host challenge: INITIALIZE UPDATE, session
    /// establishment (SCP version and card cryptogram checks), then EXTERNAL AUTHENTICATE
    pub fn open_with_challenge(&mut self, host_challenge: [u8; 8]) -> (res: Result<(), Error>)
        ensures
            old(self).opens(final(self), host_challenge@, res),
            old(self).wf() ==> final(self).wf(),
            res is Ok ==> final(self).wf(),
    {
        let init_cmd = InitializeUpdateCommand::with_challenge(host_challenge.as_slice());
        let init_bytes = init_cmd.to_bytes();
        let reply = self.transport.transmit_raw(init_bytes.as_slice());
        let ghost r0 = reply;
        let ghost t1 = self.transport;
        let ghost keys = self.keys;
        proof {
            assert(old(self).transport_view().transmits(&t1, initialize_update_bytes(host_challenge@), r0));
        }
        let response_bytes = match reply {
            Ok(r) => r,
            Err(e) => {
                let res = Err(Error::Transport(e));
                proof {
                    assert(spec_open_session(keys, host_challenge@, r0) == Err::<SessionView, Error>(Error::Transport(e)));
                }
                return res;
            },
        };
        let init_response = match InitializeUpdateResponse::from_bytes(response_bytes.as_slice()) {
            Ok(r) => r,
            Err(e) => {
                let res = Err(Error::Response(e));
                proof {
                    assert(spec_open_session(keys, host_challenge@, r0) == Err::<SessionView, Error>(Error::Response(e)));
                }
                return res;
            },
        };
        proof {
            lemma_session_from_reply(keys.enc_view(), keys.mac_view(), init_response, response_bytes@, host_challenge@);
        }
        let new_session = match Session::from_response(&self.keys, &init_response, host_challenge) {
            Ok(s) => s,
            Err(e) => return Err(e),
        };
        let mac_key = *new_session.keys().mac();
        self.established = false;
        self.session = Some(new_session);
        self.wrapper = Some(SCP02Wrapper::new(mac_key));
        proof {
            assert(self.wrapper.unwrap()@ == fresh_wrapper(new_session@));
            assert(self.transport == t1);
            assert(spec_open_session(keys, host_challenge@, r0) == Ok::<SessionView, Error>(new_session@));
        }
        let res = self.authenticate();
        proof {
            let r1 = choose|r1: Result<Vec<u8>, TransportError>|
                #[trigger] t1.transmits(&self.transport, external_authenticate_bytes(new_session@), r1)
                && res == spec_authenticate_outcome(r1);
            assert(t1.transmits(&self.transport_view(), external_authenticate_bytes(new_session@), r1));
        }
        res
    }

    /// Open the secure channel with a fresh random host challenge
    pub fn open(&mut self) -> (res: Result<(), Error>)
        ensures
            exists|host: Seq<u8>| host.len() == 8 && #[trigger] old(self).opens(final(self), host, res),
            old(self).wf() ==> final(self).wf(),
            res is Ok ==> final(self).wf(),
    {
        let host_challenge = random_host_challenge();
        self.open_with_challenge(host_challenge)
    }

    /// Protect a raw command with the SCP02 C-MAC; the command must decode and its data field
    /// must leave room for the 8-byte MAC
    pub fn protect_command(&mut self, command: &[u8]) -> (res: Result<Vec<u8>, Error>)
        ensures
            old(self).wf() ==> final(self).wf(),
            final(self).established_view() == old(self).established_view(),
            final(self).session_view() == old(self).session_view(),
            final(self).level_view() == old(self).level_view(),
            final(self).keys_view() == old(self).keys_view(),
            final(self).transport_view() == old(self).transport_view(),
            !old(self).established_view() ==> res == Err::<Vec<u8>, Error>(Error::NoSecureChannel),
            old(self).established_view() ==> (res is Ok <==> spec_protect(old(self).wrapper_view(), command@) is Some),
            old(self).established_view() && spec_command_from_bytes(command@) is None ==> res is Err,
            res matches Ok(b) ==> {
                &&& old(self).established_view()
                &&& spec_command_from_bytes(command@) matches Some(c) && old(self).wrapper_view() matches Some(w)
                    && b@ == spec_command_to_bytes(spec_wrapped_command(w, c))
                &&& spec_protect(old(self).wrapper_view(), command@) matches Some((w2, bytes))
                    && final(self).wrapper_view() == Some(w2) && b@ == bytes
            },
            res is Err ==> final(self).wrapper_view() == old(self).wrapper_view(),
    {
        if !self.established {
            return Err(Error::NoSecureChannel);
        }
        let cmd = match Command::from_bytes(command) {
            Ok(c) => c,
            Err(e) => return Err(Error::Command(e)),
        };
        let data_len: usize = match cmd.data() {
            Some(d) => d.len(),
            None => 0,
        };
        if data_len > 247 {
            return Err(Error::InvalidLength { expected: 247, actual: data_len });
        }
        match &mut self.wrapper {
            Some(w) => {
                let wrapped = w.wrap_command(&cmd);
                Ok(wrapped.to_bytes())
            },
            None => Err(Error::NoSecureChannel),
        }
    }

    /// Process a response: SCP02 responses carry no protection, so they pass through
    pub fn process_response(&mut self, response: &[u8]) -> (res: Result<Vec<u8>, Error>)
        ensures
            res matches Ok(b) && b@ == response@,
            *final(self) == *old(self),
    {
        Ok(bytes_to_vec(response))
    }

    /// Close the secure channel: no session, no wrapper, no security
    pub fn close(&mut self) -> (res: Result<(), Error>)
        ensures
            res is Ok,
            final(self).wf(),
            !final(self).established_view(),
            final(self).level_view() == level(false, false, false),
            final(self).session_view() is None,
            final(self).wrapper_view() is None,
            final(self).keys_view() == old(self).keys_view(),
            final(self).transport_view() == old(self).transport_view(),
    {
        self.established = false;
        self.security_level = SecurityLevel::none();
        self.session = None;
        self.wrapper = None;
        Ok(())
    }

    /// Upgrade request: SCP02 cannot add encryption, MAC protection or authentication that
    /// was not established when the channel was opened
    pub fn upgrade(&self, requested: SecurityLevel) -> (res: Result<(), Error>)
        ensures
            !self.established_view() ==> res == Err::<(), Error>(Error::NoSecureChannel),
            self.established_view() ==> (res is Ok <==> (
                (requested@.encrypted ==> self.level_view().encrypted)
                && (spec_has_mac(requested@) ==> spec_has_mac(self.level_view()))
                && (requested@.authenticated ==> self.level_view().authenticated))),
    {
        if !self.established {
            return Err(Error::NoSecureChannel);
        }
        if requested.is_encrypted() && !self.security_level.is_encrypted() {
            return Err(Error::Other("SCP02 doesn't support upgrading to encryption after establishment"));
        }
        if requested.has_mac_protection() && !self.security_level.has_mac_protection() {
            return Err(Error::Other("SCP02 always has integrity protection, but channel not established"));
        }
        if requested.is_authenticated() && !self.security_level.is_authenticated() {
            return Err(Error::Other("SCP02 doesn't support upgrading to authentication after establishment"));
        }
        Ok(())
    }
}

impl<T: CardTransport> CardTransport for GPSecureChannel<T> {
    /// When established, protect the command with the C-MAC before sending it; otherwise send
    /// it as is
    closed spec fn connected_view(&self) -> bool {
        self.transport.connected_view()
    }

    /// The channel state stays; when not established the command goes to the transport as is;
    /// when established it is protected first (the wrapper advances) and the protected bytes
    /// go to the transport, or, when it cannot be protected, nothing is sent and the answer is
    /// an error
    closed spec fn transmits(&self, after: &Self, command: Seq<u8>, res: Result<Vec<u8>, TransportError>) -> bool {
        &&& after.established_view() == self.established_view()
        &&& after.session_view() == self.session_view()
        &&& after.level_view() == self.level_view()
        &&& after.keys_view() == self.keys_view()
        &&& if !self.established_view() {
            after.wrapper_view() == self.wrapper_view() && self.transport.transmits(&after.transport, command, res)
        } else {
            match spec_protect(self.wrapper_view(), command) {
                Some((w2, bytes)) => after.wrapper_view() == Some(w2) && self.transport.transmits(&after.transport, bytes, res),
                None => after.wrapper_view() == self.wrapper_view() && after.transport == self.transport
                    && (res matches Err(TransportError::Other(m)) && m@ == "Failed to protect command"@),
            }
        }
    }

    fn do_transmit_raw(&mut self, command: &[u8]) -> (res: Result<Vec<u8>, TransportError>)
        ensures
            final(self).established_view() == old(self).established_view(),
            final(self).session_view() == old(self).session_view(),
            final(self).level_view() == old(self).level_view(),
            final(self).keys_view() == old(self).keys_view(),
            old(self).wf() ==> final(self).wf(),
    {
        if self.established {
            let protected = match self.protect_command(command) {
                Ok(p) => p,
                Err(_) => return Err(TransportError::Other("Failed to protect command".to_owned())),
            };
            self.transport.transmit_raw(protected.as_slice())
        } else {
            self.transport.transmit_raw(command)
        }
    }

    fn is_connected(&self) -> (res: bool)
        ensures
            res == self.transport_view().connected_view(),
    {
        self.transport.is_connected()
    }

    /// Close the channel if it is open, then reset the underlying transport
    fn reset(&mut self) -> (res: Result<(), TransportError>)
        ensures
            final(self).wf(),
            !final(self).established_view(),
            final(self).level_view() == level(false, false, false),
            final(self).session_view() is None,
            final(self).keys_view() == old(self).keys_view(),
    {
        self.established = false;
        self.security_level = SecurityLevel::none();
        self.session = None;
        self.wrapper = None;
        self.transport.reset()
    }
}

} // verus!
