//! GlobalPlatform card management over a card executor whose transport is an SCP02 channel:
//! selection, secure channel opening, deletion, registry status, loading and installation.
use vstd::prelude::*;

use crate::command::{spec_command_to_bytes, Command};
use crate::constants::{cla, delete_p2, get_status_p1, get_status_p2, ins, install_p1, load_p1, select_p1, tags, SECURITY_DOMAIN_AID};
use crate::error::{ResponseError, SecureProtocolError};
use crate::executor::CardExecutor;
use crate::get_status::{get_status_response_is, GetStatusResponse};
use crate::gp_commands::{
    cmd, install_for_load_data, install_for_personalization_data, spec_install_data, DeleteCommand, GetStatusCommand, InstallCommand, LoadCommand, SelectCommand,
};
use crate::gp_error::{spec_from_executor_error, Error};
use crate::gp_responses::{sw1_of, sw2_of, DeleteResponse, InitializeUpdateResponse, InstallResponse, SelectResponse};
use crate::load::{block_at, lemma_wf_stream_after, load_stream_wf, views, spec_blocks_count, stream_after, CapFileInfo, LoadCommandStream, LoadStreamView, BLOCK_SIZE};
use crate::response::{bytes_to_vec, spec_payload_part};
use crate::secure_channel::GPSecureChannel;
use crate::security::{level, spec_satisfies, LevelView, SecurityLevel};
use crate::session::{default_test_key, Keys, Session, SessionView};
use crate::status::StatusWord;
use crate::tlv::spec_simple_tlv_encode;
use crate::transport::CardTransport;

verus! {

/// What a reply means to a command that expects 9000: success, an incomplete reply, or the
/// status word the card answered with.
pub open spec fn reply_outcome(b: Seq<u8>) -> Result<(), Error> {
    if b.len() < 2 {
        Err(Error::Response(ResponseError::Incomplete))
    } else if sw1_of(b) == 0x90 && sw2_of(b) == 0x00 {
        Ok(())
    } else {
        Err(Error::CardStatus(StatusWord { sw1: sw1_of(b), sw2: sw2_of(b) }))
    }
}

/// Check the reply to a command that expects 9000
pub fn check_reply(reply: &[u8]) -> (res: Result<(), Error>)
    ensures
        res == reply_outcome(reply@),
{
    let n = reply.len();
    if n < 2 {
        return Err(Error::Response(ResponseError::Incomplete));
    }
    let sw1 = reply[n - 2];
    let sw2 = reply[n - 1];
    if sw1 == 0x90 && sw2 == 0x00 {
        Ok(())
    } else {
        Err(Error::CardStatus(StatusWord { sw1, sw2 }))
    }
}

/// What a reply to GET DATA gives: the data before the status word on 9000, the status word
/// otherwise, and an invalid response when the reply is shorter than a status word.
pub open spec fn card_data_outcome(b: Seq<u8>) -> Result<Seq<u8>, Error> {
    if b.len() < 2 {
        Err(Error::Other("Invalid response"))
    } else if sw1_of(b) == 0x90 && sw2_of(b) == 0x00 {
        Ok(b.subrange(0, b.len() - 2))
    } else {
        Err(Error::CardStatus(StatusWord { sw1: sw1_of(b), sw2: sw2_of(b) }))
    }
}

/// Extract the card data from the reply to GET DATA
pub fn card_data_from_reply(reply: &[u8]) -> (res: Result<Vec<u8>, Error>)
    ensures
        res is Ok <==> card_data_outcome(reply@) is Ok,
        res matches Ok(d) ==> card_data_outcome(reply@) == Ok::<Seq<u8>, Error>(d@),
        res matches Err(e) ==> card_data_outcome(reply@) == Err::<Seq<u8>, Error>(e),
{
    let n = reply.len();
    if n < 2 {
        return Err(Error::Other("Invalid response"));
    }
    let sw = StatusWord::new(reply[n - 2], reply[n - 1]);
    if sw.is_success() {
        Ok(bytes_to_vec(&reply[0..n - 2]))
    } else {
        Err(Error::CardStatus(sw))
    }
}

/// The last reply is there and means success
pub open spec fn reply_ok(last: Option<Seq<u8>>) -> bool {
    last matches Some(b) && reply_outcome(b) is Ok
}

/// The last reply is there and gives the error `e`
pub open spec fn reply_failed_with(last: Option<Seq<u8>>, e: Error) -> bool {
    last matches Some(b) && reply_outcome(b) == Err::<(), Error>(e)
}

/// The last reply is there and carries a status word other than success
pub open spec fn reply_refused(last: Option<Seq<u8>>) -> bool {
    last matches Some(b) && b.len() >= 2 && reply_outcome(b) is Err
}

/// Errors that come from the exchange with the card rather than from its reply
pub open spec fn exchange_error(e: Error) -> bool {
    e is Transport || e is Processor || e is SecureProtocol
}

/// A level requirement is met: nothing is required, or the current level satisfies it
pub open spec fn level_ok(current: LevelView, required: LevelView) -> bool {
    required == level(false, false, false) || spec_satisfies(current, required)
}

/// The level that deletion and loading require: MAC protection
pub open spec fn mac_level() -> LevelView {
    level(false, true, false)
}

/// What a command that expects 9000 gives for the executor's answer `r`: the meaning of the
/// reply, or the error of the exchange
pub open spec fn checked_outcome(r: Result<Vec<u8>, Error>) -> Result<(), Error> {
    match r {
        Ok(b) => reply_outcome(b@),
        Err(e) => Err(e),
    }
}

/// What an INSTALL command gives for the executor's answer `r`
pub open spec fn install_result(r: Result<Vec<u8>, Error>, res: Result<InstallResponse, Error>) -> bool {
    match checked_outcome(r) {
        Ok(()) => res == Ok::<InstallResponse, Error>(InstallResponse::Success),
        Err(e) => res == Err::<InstallResponse, Error>(e),
    }
}

/// The bytes of GET DATA for the card data (tag 66)
pub open spec fn get_data_bytes() -> Seq<u8> {
    seq![0x80u8, 0xCAu8, 0x00u8, 0x66u8, 0x00u8]
}

/// What GET DATA gives for the executor's answer `r`: its error, or the meaning of the reply
pub open spec fn card_data_result(r: Result<Vec<u8>, crate::error::Error>, res: Result<Vec<u8>, Error>) -> bool {
    match r {
        Err(e) => res == Err::<Vec<u8>, Error>(spec_from_executor_error(e)),
        Ok(b) => match card_data_outcome(b@) {
            Ok(d) => res matches Ok(v) && v@ == d,
            Err(e) => res == Err::<Vec<u8>, Error>(e),
        },
    }
}

/// The given security domain AID, or the issuer security domain's when none is given
pub open spec fn or_issuer_domain<'a>(aid: Option<&'a [u8]>) -> Seq<u8> {
    match aid {
        Some(a) => a@,
        None => SECURITY_DOMAIN_AID@,
    }
}

/// The bytes of GET STATUS for all registry entries of the kind `p1`
pub open spec fn get_status_bytes(p1: u8) -> Seq<u8> {
    spec_command_to_bytes(cmd(cla::GP, ins::GET_STATUS, p1, get_status_p2::TLV_DATA, seq![0x4Fu8, 0x00u8], None))
}

/// The bytes of LOAD for the next block of a stream: last-block or more-blocks P1, the block
/// index as P2, the block as data
pub open spec fn load_block_bytes(s: LoadStreamView) -> Seq<u8> {
    spec_command_to_bytes(cmd(cla::GP, ins::LOAD,
        if s.data.len() - s.position <= BLOCK_SIZE { load_p1::LAST_BLOCK } else { load_p1::MORE_BLOCKS },
        (s.current_block % 256) as u8, block_at(s.data, s.current_block), Some(0u8)))
}

/// What a LOAD block gives for the executor's answer `r`: the block was taken on 9000; an
/// incomplete reply is that error; any other status is "Load failed"
pub open spec fn load_outcome(r: Result<Vec<u8>, Error>) -> Result<bool, Error> {
    match r {
        Err(e) => Err(e),
        Ok(b) => match reply_outcome(b@) {
            Ok(()) => Ok(true),
            Err(Error::Response(e)) => Err(Error::Response(e)),
            Err(_) => Err(Error::Other("Load failed")),
        },
    }
}

/// What INSTALL [for personalization] gives for the executor's answer `r`: success on 9000;
/// an incomplete reply is that error; any other status is "Personalization failed"
pub open spec fn personalize_outcome(r: Result<Vec<u8>, Error>) -> Result<(), Error> {
    match r {
        Err(e) => Err(e),
        Ok(b) => match reply_outcome(b@) {
            Ok(()) => Ok(()),
            Err(Error::Response(e)) => Err(Error::Response(e)),
            Err(_) => Err(Error::Other("Personalization failed")),
        },
    }
}

/// GlobalPlatform card management application
pub struct GlobalPlatform<T: CardTransport> {
    /// Card executor over the SCP02 channel
    executor: CardExecutor<GPSecureChannel<T>>,
    /// Current session
    session: Option<Session>,
    /// Last response of a selection
    last_response: Option<Vec<u8>>,
}

impl<T: CardTransport> GlobalPlatform<T> {
    /// The executor
    pub closed spec fn executor_view(&self) -> CardExecutor<GPSecureChannel<T>> {
        self.executor
    }

    /// The security level of the channel
    pub open spec fn channel_level(&self) -> LevelView {
        self.executor_view().transport_view().level_view()
    }

    /// The last reply the executor received
    pub open spec fn last_reply(&self) -> Option<Seq<u8>> {
        self.executor_view().last_response_view()
    }

    /// The session
    pub closed spec fn session_view(&self) -> Option<SessionView> {
        match self.session {
            Some(s) => Some(s@),
            None => None,
        }
    }

    /// The last response of a selection
    pub closed spec fn last_response_view(&self) -> Option<Seq<u8>> {
        match self.last_response {
            Some(r) => Some(r@),
            None => None,
        }
    }

    /// The command bytes `bytes` went to the card through the executor, and the answer `res` is
    /// what came back: the reply, or the executor's error
    pub open spec fn sends(&self, after: &Self, bytes: Seq<u8>, res: Result<Vec<u8>, Error>) -> bool {
        exists|r: Result<Vec<u8>, crate::error::Error>|
            #[trigger] self.executor_view().transmits_raw(&after.executor_view(), bytes, r)
            && match r {
                Ok(b) => res matches Ok(c) && c@ == b@,
                Err(e) => res == Err::<Vec<u8>, Error>(spec_from_executor_error(e)),
            }
    }

    /// INSTALL [for load] of `package` for the security domain `sd` went to the card, and the
    /// outcome is what the answer means
    pub open spec fn installs_for_load(&self, after: &Self, package: Seq<u8>, sd: Seq<u8>, res: Result<InstallResponse, Error>) -> bool {
        exists|r: Result<Vec<u8>, Error>| #[trigger] self.sends(after, spec_command_to_bytes(cmd(cla::GP,
            ins::INSTALL, install_p1::FOR_LOAD, 0x00, install_for_load_data(package, sd), None)), r)
            && install_result(r, res)
    }

    /// INSTALL [for install and make selectable] of the given AIDs, with no privileges and no
    /// token, went to the card, and the outcome is what the answer means
    pub open spec fn installs_selectable(
        &self,
        after: &Self,
        package: Seq<u8>,
        applet: Seq<u8>,
        instance: Seq<u8>,
        params: Seq<u8>,
        res: Result<InstallResponse, Error>,
    ) -> bool {
        exists|r: Result<Vec<u8>, Error>| #[trigger] self.sends(after, spec_command_to_bytes(cmd(cla::GP,
            ins::INSTALL, install_p1::FOR_INSTALL_AND_MAKE_SELECTABLE, 0x00, spec_install_data(package,
            applet, instance, seq![0x00u8], params, Seq::<u8>::empty()), None)), r)
            && install_result(r, res)
    }

    /// Sending the next LOAD block of the stream state `s`: refused without MAC protection (and
    /// nothing changes); otherwise the block went to the card and the outcome is what the
    /// answer means
    pub open spec fn load_step(&self, s: LoadStreamView, after: &Self, res: Result<bool, Error>) -> bool {
        if !level_ok(self.channel_level(), mac_level()) {
            res == Err::<bool, Error>(Error::SecureProtocol(SecureProtocolError::InsufficientSecurityLevel))
                && *after == *self
        } else {
            exists|r: Result<Vec<u8>, Error>| #[trigger] self.sends(after, load_block_bytes(s), r) && res == load_outcome(r)
        }
    }

    /// The blocks of a stream over `data` from block `c0` on were sent one after the other:
    /// step `i` goes from `gs[i]` to `gs[i + 1]` with outcome `rs[i]`, every step but the
    /// last took its block, and the whole ends with the first failure or once every block
    /// was taken
    pub open spec fn load_trace(gs: Seq<Self>, data: Seq<u8>, c0: nat, rs: Seq<Result<bool, Error>>, res: Result<(), Error>) -> bool {
        &&& gs.len() == rs.len() + 1
        &&& c0 + rs.len() <= spec_blocks_count(data.len())
        &&& forall|i: int| #![trigger rs[i]] 0 <= i < rs.len() ==> gs[i].load_step(stream_after(data, (c0 + i) as nat), &gs[i + 1], rs[i])
        &&& forall|i: int| #![trigger rs[i]] 0 <= i < rs.len() - 1 ==> rs[i] == Ok::<bool, Error>(true)
        &&& match res {
            Ok(()) => c0 + rs.len() == spec_blocks_count(data.len()) && (rs.len() == 0 || rs.last() == Ok::<bool, Error>(true)),
            Err(e) => rs.len() >= 1 && rs.last() == Err::<bool, Error>(e),
        }
    }

    /// Loading the remaining blocks of the stream state `s` goes to `after`, leaving the stream
    /// at `s_after` (past the last block sent)
    pub open spec fn loads(&self, s: LoadStreamView, after: &Self, s_after: LoadStreamView, res: Result<(), Error>) -> bool {
        exists|gs: Seq<Self>, rs: Seq<Result<bool, Error>>| #[trigger] Self::load_trace(gs, s.data, s.current_block, rs, res)
            && gs[0] == *self && gs.last() == *after && s_after == stream_after(s.data, s.current_block + rs.len())
    }

    /// INSTALL [for install and make selectable] of each applet AID of `aids` (as applet and
    /// instance AID), in order, stopping at the first failure
    pub open spec fn selectable_trace(
        gs: Seq<Self>,
        package: Seq<u8>,
        aids: Seq<Seq<u8>>,
        rs: Seq<Result<InstallResponse, Error>>,
        res: Result<(), Error>,
    ) -> bool {
        &&& gs.len() == rs.len() + 1
        &&& 1 <= rs.len() <= aids.len()
        &&& forall|i: int| #![trigger rs[i]] 0 <= i < rs.len() ==> gs[i].installs_selectable(&gs[i + 1], package,
            aids[i], aids[i], Seq::<u8>::empty(), rs[i])
        &&& forall|i: int| #![trigger rs[i]] 0 <= i < rs.len() - 1 ==> rs[i] is Ok
        &&& match res {
            Ok(()) => rs.len() == aids.len() && rs.last() is Ok,
            Err(e) => rs.last() == Err::<InstallResponse, Error>(e),
        }
    }

    /// Opening the channel with `keys` (in place of the channel's keys): what `opens` says of
    /// the channel, for some 8-byte host challenge; nothing else of the executor or of this
    /// instance changes
    pub open spec fn opens_channel(&self, after: &Self, keys: Keys, res: Result<(), Error>) -> bool {
        &&& exists|host: Seq<u8>| host.len() == 8 && #[trigger] self.executor_view().transport_view().with_keys(keys).opens(
            &after.executor_view().transport_view(), host, res)
        &&& after.executor_view().processors_view() == self.executor_view().processors_view()
        &&& after.executor_view().last_response_view() == self.executor_view().last_response_view()
        &&& after.session_view() == self.session_view()
        &&& after.last_response_view() == self.last_response_view()
    }

    /// GET DATA for the card data went to the card through the executor, and the outcome is
    /// what the answer means
    pub open spec fn fetches_card_data(&self, after: &Self, res: Result<Vec<u8>, Error>) -> bool {
        &&& exists|r: Result<Vec<u8>, crate::error::Error>|
            #[trigger] self.executor_view().transmits_raw(&after.executor_view(), get_data_bytes(), r) && card_data_result(r, res)
        &&& after.session_view() == self.session_view()
        &&& after.last_response_view() == self.last_response_view()
    }

    /// Create a new GlobalPlatform instance
    pub fn new(executor: CardExecutor<GPSecureChannel<T>>) -> (res: Self)
        ensures
            res.executor_view() == executor,
            res.session_view() is None,
            res.last_response_view() is None,
    {
        GlobalPlatform { executor, session: None, last_response: None }
    }

    /// Send a command after checking the required security level against the channel's:
    /// refused when a level is required and not met; otherwise the reply, or the error of the
    /// exchange.
    fn send(&mut self, command: &Command, required: SecurityLevel) -> (res: Result<Vec<u8>, Error>)
        ensures
            !level_ok(old(self).channel_level(), required@) ==> res == Err::<Vec<u8>, Error>(
                Error::SecureProtocol(SecureProtocolError::InsufficientSecurityLevel)) && *final(self) == *old(self),
            level_ok(old(self).channel_level(), required@) ==> old(self).sends(final(self), spec_command_to_bytes(command@), res),
            res matches Ok(b) ==> level_ok(old(self).channel_level(), required@) && final(self).last_reply() == Some(b@),
            res matches Err(e) ==> exchange_error(e),
            final(self).session_view() == old(self).session_view(),
            final(self).last_response_view() == old(self).last_response_view(),
    {
        let current = self.executor.transport().security_level();
        if !required.is_none() && !current.satisfies(&required) {
            return Err(Error::SecureProtocol(SecureProtocolError::InsufficientSecurityLevel));
        }
        let bytes = command.to_bytes();
        let sent = self.executor.transmit_raw(bytes.as_slice());
        let ghost r = sent;
        let res = match sent {
            Ok(reply) => Ok(reply),
            Err(e) => {
                let r = Error::from_executor_error(e);
                assert(exchange_error(r));
                Err(r)
            },
        };
        proof {
            assert(old(self).executor_view().transmits_raw(&self.executor_view(), spec_command_to_bytes(command@), r));
        }
        res
    }

    /// Select the card manager (issuer security domain)
    pub fn select_card_manager(&mut self) -> (res: Result<SelectResponse, Error>)
        ensures
            res matches Ok(r) ==> (final(self).last_reply() matches Some(b) && reply_outcome(b) is Ok
                && r is Success && r->fci@ == spec_payload_part(b)
                && final(self).last_response_view() == Some(b)),
            res matches Err(e) ==> !exchange_error(e) ==> (reply_failed_with(final(self).last_reply(), e)
                && final(self).last_response_view() == final(self).last_reply()),
            final(self).session_view() == old(self).session_view(),
    {
        self.select_application(SECURITY_DOMAIN_AID.as_slice())
    }

    /// Select an application by AID; the raw reply is kept as the last response
    pub fn select_application(&mut self, aid: &[u8]) -> (res: Result<SelectResponse, Error>)
        requires
            aid@.len() <= 255,
        ensures
            res matches Ok(r) ==> (final(self).last_reply() matches Some(b) && reply_outcome(b) is Ok
                && r is Success && r->fci@ == spec_payload_part(b)
                && final(self).last_response_view() == Some(b)),
            res matches Err(e) ==> !exchange_error(e) ==> (reply_failed_with(final(self).last_reply(), e)
                && final(self).last_response_view() == final(self).last_reply()),
            res matches Err(e) ==> exchange_error(e) ==> final(self).last_response_view() == old(self).last_response_view(),
            final(self).session_view() == old(self).session_view(),
            exists|r: Result<Vec<u8>, Error>| #[trigger] old(self).sends(final(self), spec_command_to_bytes(
                cmd(cla::ISO7816, ins::SELECT, select_p1::BY_NAME, 0x00, aid@, Some(0u8))), r)
                && (r matches Err(e) ==> res == Err::<SelectResponse, Error>(e))
                && (r matches Ok(b) ==> (res is Ok <==> reply_outcome(b@) is Ok)),
    {
        let cmd = SelectCommand::with_aid(aid);
        let sent = self.send(&cmd, SecurityLevel::none());
        let ghost r = sent;
        let ghost mid = *self;
        let reply = match sent {
            Ok(reply) => reply,
            Err(e) => return Err(e),
        };
        self.last_response = Some(bytes_to_vec(reply.as_slice()));
        let res = match check_reply(reply.as_slice()) {
            Err(e) => Err(e),
            Ok(()) => match SelectResponse::from_bytes(reply.as_slice()) {
                Ok(r) => Ok(r),
                Err(e) => Err(Error::Response(e)),
            },
        };
        proof {
            assert(mid.executor_view() == self.executor_view());
            assert(old(self).sends(&*self, spec_command_to_bytes(cmd@), r));
        }
        res
    }

    /// Open a secure channel with the default keys
    pub fn open_secure_channel(&mut self) -> (res: Result<(), Error>)
        ensures
            res matches Err(e) ==> !(e is CardStatus),
            res is Ok ==> final(self).executor_view().transport_view().established_view()
                && final(self).channel_level() == mac_level(),
            exists|keys: Keys| keys.enc_view() == default_test_key() && keys.mac_view() == default_test_key()
                && #[trigger] old(self).opens_channel(final(self), keys, res),
            final(self).session_view() == old(self).session_view(),
            final(self).last_response_view() == old(self).last_response_view(),
    {
        self.open_secure_channel_with_keys(&Keys::default())
    }

    /// Open a secure channel with the given keys
    pub fn open_secure_channel_with_keys(&mut self, keys: &Keys) -> (res: Result<(), Error>)
        ensures
            res matches Err(e) ==> !(e is CardStatus),
            res is Ok ==> final(self).executor_view().transport_view().established_view()
                && final(self).channel_level() == mac_level(),
            final(self).executor_view().transport_view().keys_view() == *keys,
            old(self).opens_channel(final(self), *keys, res),
            final(self).executor_view().processors_view() == old(self).executor_view().processors_view(),
            final(self).executor_view().last_response_view() == old(self).executor_view().last_response_view(),
            final(self).session_view() == old(self).session_view(),
            final(self).last_response_view() == old(self).last_response_view(),
    {
        let channel = self.executor.transport_mut();
        channel.set_keys(*keys);
        channel.open()
    }

    /// Delete an object (requires MAC protection)
    pub fn delete_object(&mut self, aid: &[u8]) -> (res: Result<DeleteResponse, Error>)
        requires
            aid@.len() <= 253,
        ensures
            !level_ok(old(self).channel_level(), mac_level()) ==> res == Err::<DeleteResponse, Error>(
                Error::SecureProtocol(SecureProtocolError::InsufficientSecurityLevel)),
            res matches Ok(r) ==> (r == DeleteResponse::Success && reply_ok(final(self).last_reply())),
            res matches Err(e) ==> !exchange_error(e) ==> reply_failed_with(final(self).last_reply(), e),
            final(self).session_view() == old(self).session_view(),
            final(self).last_response_view() == old(self).last_response_view(),
            level_ok(old(self).channel_level(), mac_level()) ==> exists|r: Result<Vec<u8>, Error>|
                #[trigger] old(self).sends(final(self), spec_command_to_bytes(cmd(cla::GP, ins::DELETE, 0x00,
                    delete_p2::OBJECT, spec_simple_tlv_encode(tags::DELETE_AID, aid@), Some(0u8))), r)
                && match checked_outcome(r) {
                    Ok(()) => res == Ok::<DeleteResponse, Error>(DeleteResponse::Success),
                    Err(e) => res == Err::<DeleteResponse, Error>(e),
                },
    {
        let cmd = DeleteCommand::delete_object(aid);
        let reply = self.send(&cmd, SecurityLevel::mac_protected())?;
        check_reply(reply.as_slice())?;
        Ok(DeleteResponse::Success)
    }

    /// Delete an object and the objects related to it (requires MAC protection)
    pub fn delete_object_and_related(&mut self, aid: &[u8]) -> (res: Result<DeleteResponse, Error>)
        requires
            aid@.len() <= 253,
        ensures
            !level_ok(old(self).channel_level(), mac_level()) ==> res == Err::<DeleteResponse, Error>(
                Error::SecureProtocol(SecureProtocolError::InsufficientSecurityLevel)),
            res matches Ok(r) ==> (r == DeleteResponse::Success && reply_ok(final(self).last_reply())),
            res matches Err(e) ==> !exchange_error(e) ==> reply_failed_with(final(self).last_reply(), e),
            final(self).session_view() == old(self).session_view(),
            final(self).last_response_view() == old(self).last_response_view(),
            level_ok(old(self).channel_level(), mac_level()) ==> exists|r: Result<Vec<u8>, Error>|
                #[trigger] old(self).sends(final(self), spec_command_to_bytes(cmd(cla::GP, ins::DELETE, 0x00,
                    delete_p2::OBJECT_AND_RELATED, spec_simple_tlv_encode(tags::DELETE_AID, aid@), Some(0u8))), r)
                && match checked_outcome(r) {
                    Ok(()) => res == Ok::<DeleteResponse, Error>(DeleteResponse::Success),
                    Err(e) => res == Err::<DeleteResponse, Error>(e),
                },
    {
        let cmd = DeleteCommand::delete_object_and_related(aid);
        let reply = self.send(&cmd, SecurityLevel::mac_protected())?;
        check_reply(reply.as_slice())?;
        Ok(DeleteResponse::Success)
    }

    /// GET STATUS of the given kind of registry entries
    fn get_status(&mut self, p1: u8) -> (res: Result<GetStatusResponse, Error>)
        ensures
            res matches Ok(r) ==> (final(self).last_reply() matches Some(b) && reply_outcome(b) is Ok
                && get_status_response_is(r, 0x90, 0x00, spec_payload_part(b))),
            res matches Err(e) ==> !exchange_error(e) ==> reply_failed_with(final(self).last_reply(), e),
            final(self).session_view() == old(self).session_view(),
            final(self).last_response_view() == old(self).last_response_view(),
            exists|r: Result<Vec<u8>, Error>| #[trigger] old(self).sends(final(self), get_status_bytes(p1), r)
                && (checked_outcome(r) matches Err(e) ==> res == Err::<GetStatusResponse, Error>(e)),
    {
        let cmd = GetStatusCommand::all_with_type(p1);
        proof {
            assert(spec_command_to_bytes(cmd@) == get_status_bytes(p1));
        }
        let reply = self.send(&cmd, SecurityLevel::none())?;
        check_reply(reply.as_slice())?;
        match GetStatusResponse::from_bytes(reply.as_slice()) {
            Ok(r) => Ok(r),
            Err(e) => Err(Error::Response(e)),
        }
    }

    /// Get the status of the applications
    pub fn get_applications_status(&mut self) -> (res: Result<GetStatusResponse, Error>)
        ensures
            res matches Ok(r) ==> (final(self).last_reply() matches Some(b) && reply_outcome(b) is Ok
                && get_status_response_is(r, 0x90, 0x00, spec_payload_part(b))),
            res matches Err(e) ==> !exchange_error(e) ==> reply_failed_with(final(self).last_reply(), e),
            final(self).session_view() == old(self).session_view(),
            final(self).last_response_view() == old(self).last_response_view(),
            exists|r: Result<Vec<u8>, Error>| #[trigger] old(self).sends(final(self), get_status_bytes(get_status_p1::APPLICATIONS), r)
                && (checked_outcome(r) matches Err(e) ==> res == Err::<GetStatusResponse, Error>(e)),
    {
        self.get_status(get_status_p1::APPLICATIONS)
    }

    /// Get the status of the executable load files
    pub fn get_load_files_status(&mut self) -> (res: Result<GetStatusResponse, Error>)
        ensures
            res matches Ok(r) ==> (final(self).last_reply() matches Some(b) && reply_outcome(b) is Ok
                && get_status_response_is(r, 0x90, 0x00, spec_payload_part(b))),
            res matches Err(e) ==> !exchange_error(e) ==> reply_failed_with(final(self).last_reply(), e),
            final(self).session_view() == old(self).session_view(),
            final(self).last_response_view() == old(self).last_response_view(),
            exists|r: Result<Vec<u8>, Error>| #[trigger] old(self).sends(final(self), get_status_bytes(get_status_p1::EXEC_LOAD_FILES), r)
                && (checked_outcome(r) matches Err(e) ==> res == Err::<GetStatusResponse, Error>(e)),
    {
        self.get_status(get_status_p1::EXEC_LOAD_FILES)
    }

    /// INSTALL [for load] of a package, for the given security domain (the issuer security
    /// domain when none is given)
    pub fn install_for_load(&mut self, package_aid: &[u8], security_domain_aid: Option<&[u8]>) -> (res: Result<InstallResponse, Error>)
        requires
            package_aid@.len() + (match security_domain_aid {
                Some(a) => a@.len(),
                None => 8,
            }) <= 250,
        ensures
            res matches Ok(r) ==> (r == InstallResponse::Success && reply_ok(final(self).last_reply())),
            res matches Err(e) ==> !exchange_error(e) ==> reply_failed_with(final(self).last_reply(), e),
            final(self).session_view() == old(self).session_view(),
            final(self).last_response_view() == old(self).last_response_view(),
            old(self).installs_for_load(final(self), package_aid@, or_issuer_domain(security_domain_aid), res),
            res matches Err(e) ==> !(e is CapFile),
    {
        let sd_aid: &[u8] = match security_domain_aid {
            Some(a) => a,
            None => SECURITY_DOMAIN_AID.as_slice(),
        };
        let cmd = InstallCommand::for_load(package_aid, sd_aid);
        let reply = self.send(&cmd, SecurityLevel::none())?;
        check_reply(reply.as_slice())?;
        Ok(InstallResponse::Success)
    }

    /// INSTALL [for install and make selectable] with no privileges and no token
    pub fn install_for_install_and_make_selectable(
        &mut self,
        package_aid: &[u8],
        applet_aid: &[u8],
        instance_aid: &[u8],
        params: &[u8],
    ) -> (res: Result<InstallResponse, Error>)
        requires
            spec_install_data(package_aid@, applet_aid@, instance_aid@, seq![0x00u8], params@,
                Seq::<u8>::empty()).len() <= 255,
        ensures
            res matches Ok(r) ==> (r == InstallResponse::Success && reply_ok(final(self).last_reply())),
            res matches Err(e) ==> !exchange_error(e) ==> reply_failed_with(final(self).last_reply(), e),
            final(self).session_view() == old(self).session_view(),
            final(self).last_response_view() == old(self).last_response_view(),
            old(self).installs_selectable(final(self), package_aid@, applet_aid@, instance_aid@, params@, res),
            res matches Err(e) ==> !(e is CapFile),
    {
        let privileges: [u8; 1] = [0x00];
        let token: [u8; 0] = [];
        proof {
            assert(privileges@ =~= seq![0x00u8]);
            assert(token@ =~= Seq::<u8>::empty());
        }
        let cmd = InstallCommand::for_install_and_make_selectable(package_aid, applet_aid,
            instance_aid, privileges.as_slice(), params, token.as_slice());
        let reply = self.send(&cmd, SecurityLevel::none())?;
        check_reply(reply.as_slice())?;
        Ok(InstallResponse::Success)
    }

    /// Send the next LOAD block of the stream (requires MAC protection); `Ok(false)` when the
    /// stream has no block left
    pub fn load_next_block(&mut self, stream: &mut LoadCommandStream) -> (res: Result<bool, Error>)
        requires
            load_stream_wf(old(stream)@),
        ensures
            load_stream_wf(final(stream)@),
            final(stream)@.data == old(stream)@.data,
            res == Ok::<bool, Error>(false) <==> old(stream)@.position >= old(stream)@.data.len(),
            res == Ok::<bool, Error>(false) ==> final(stream)@ == old(stream)@,
            old(stream)@.position < old(stream)@.data.len() ==> final(stream)@.current_block == old(stream)@.current_block + 1,
            res == Ok::<bool, Error>(true) ==> reply_ok(final(self).last_reply()),
            res matches Err(e) ==> !exchange_error(e) && e != Error::Other("Load failed") ==>
                reply_failed_with(final(self).last_reply(), e),
            res == Err::<bool, Error>(Error::Other("Load failed")) ==> reply_refused(final(self).last_reply()),
            old(stream)@.position < old(stream)@.data.len() && !level_ok(old(self).channel_level(), mac_level()) ==> (
                res == Err::<bool, Error>(Error::SecureProtocol(SecureProtocolError::InsufficientSecurityLevel))
                && *final(self) == *old(self)),
            final(self).session_view() == old(self).session_view(),
            final(self).last_response_view() == old(self).last_response_view(),
            old(stream)@.position < old(stream)@.data.len() ==> old(self).load_step(old(stream)@, final(self), res),
    {
        let (is_last, block_number, block) = match stream.next_block() {
            Some(b) => b,
            None => return Ok(false),
        };
        proof {
            assert(block@.len() <= BLOCK_SIZE);
        }
        let p1 = if is_last { load_p1::LAST_BLOCK } else { load_p1::MORE_BLOCKS };
        let cmd = LoadCommand::with_block_data(p1, block_number, block);
        proof {
            assert(spec_command_to_bytes(cmd@) == load_block_bytes(old(stream)@));
        }
        let sent = self.send(&cmd, SecurityLevel::mac_protected());
        let ghost r = sent;
        let reply = match sent {
            Ok(reply) => reply,
            Err(e) => return Err(e),
        };
        match check_reply(reply.as_slice()) {
            Ok(()) => Ok(true),
            Err(Error::Response(e)) => Err(Error::Response(e)),
            Err(_) => Err(Error::Other("Load failed")),
        }
    }

    /// Send every remaining LOAD block of the stream, stopping at the first failure
    pub fn load_stream(&mut self, stream: &mut LoadCommandStream) -> (res: Result<(), Error>)
        requires
            load_stream_wf(old(stream)@),
        ensures
            load_stream_wf(final(stream)@),
            final(stream)@.data == old(stream)@.data,
            res is Ok ==> final(stream)@.position >= final(stream)@.data.len(),
            old(stream)@.position >= old(stream)@.data.len() ==> (res is Ok && final(stream)@ == old(stream)@),
            old(stream)@.position < old(stream)@.data.len() && res is Ok ==> reply_ok(final(self).last_reply()),
            old(stream)@.position < old(stream)@.data.len() && !level_ok(old(self).channel_level(), mac_level()) ==>
                res == Err::<(), Error>(Error::SecureProtocol(SecureProtocolError::InsufficientSecurityLevel)),
            res matches Err(e) ==> (exchange_error(e) || reply_failed_with(final(self).last_reply(), e)
                || (e == Error::Other("Load failed") && reply_refused(final(self).last_reply()))),
            final(self).session_view() == old(self).session_view(),
            final(self).last_response_view() == old(self).last_response_view(),
            old(self).loads(old(stream)@, final(self), final(stream)@, res),
            res matches Err(e) ==> !(e is CapFile),
    {
        let ghost data = old(stream)@.data;
        let ghost c0 = old(stream)@.current_block;
        let ghost mut gs: Seq<Self> = seq![*old(self)];
        let ghost mut rs: Seq<Result<bool, Error>> = Seq::empty();
        proof {
            lemma_wf_stream_after(old(stream)@);
        }
        let ghost mut moved = false;
        while stream.has_next()
            invariant
                load_stream_wf(stream@),
                stream@.data == old(stream)@.data,
                data == old(stream)@.data,
                c0 == old(stream)@.current_block,
                stream@ == stream_after(data, c0 + rs.len()),
                gs.len() == rs.len() + 1,
                gs[0] == *old(self),
                gs.last() == *self,
                c0 + rs.len() <= spec_blocks_count(data.len()),
                forall|i: int| #![trigger rs[i]] 0 <= i < rs.len() ==> gs[i].load_step(stream_after(data, (c0 + i) as nat), &gs[i + 1], rs[i]),
                forall|i: int| #![trigger rs[i]] 0 <= i < rs.len() ==> rs[i] == Ok::<bool, Error>(true),
                self.session_view() == old(self).session_view(),
                self.last_response_view() == old(self).last_response_view(),
                !moved ==> (stream@ == old(stream)@ && *self == *old(self) && rs.len() == 0),
                moved ==> (reply_ok(self.last_reply()) && old(stream)@.position < old(stream)@.data.len()
                    && level_ok(old(self).channel_level(), mac_level())),
            decreases stream@.blocks_count - stream@.current_block,
        {
            let ghost pre = stream@;
            let ghost pre_self = *self;
            let step = self.load_next_block(stream);
            proof {
                assert(pre.position < pre.data.len());
                lemma_wf_stream_after(stream@);
                assert(stream@.current_block == c0 + rs.len() + 1);
                gs = gs.push(*self);
                rs = rs.push(step);
                assert(gs[rs.len() - 1] == pre_self);
                assert forall|i: int| #![trigger rs[i]] 0 <= i < rs.len() implies gs[i].load_step(stream_after(data, (c0 + i) as nat), &gs[i + 1], rs[i]) by {
                    if i == rs.len() - 1 {
                        assert(pre == stream_after(data, (c0 + i) as nat));
                    }
                }
            }
            match step {
                Ok(more) => {
                    proof {
                        assert(more);
                        assert(level_ok(pre_self.channel_level(), mac_level()));
                        if !moved {
                            assert(pre_self == *old(self));
                            assert(pre == old(stream)@);
                        }
                        moved = true;
                    }
                },
                Err(e) => {
                    proof {
                        assert(Self::load_trace(gs, data, c0, rs, Err(e)));
                    }
                    return Err(e);
                },
            }
        }
        proof {
            assert(Self::load_trace(gs, data, c0, rs, Ok(())));
        }
        Ok(())
    }

    /// Install one applet of a CAP file: INSTALL [for load] of the package, the LOAD blocks,
    /// then INSTALL [for install and make selectable] with the applet AID as instance AID
    pub fn install_applet(&mut self, info: &CapFileInfo, stream: &mut LoadCommandStream, applet_index: usize) -> (res: Result<(), Error>)
        requires
            load_stream_wf(old(stream)@),
            info.package_aid matches Some(p) ==> p@.len() <= 242 && forall|i: int|
                0 <= i < info.applet_aids@.len() ==> spec_install_data(p@, #[trigger] info.applet_aids@[i]@,
                info.applet_aids@[i]@, seq![0x00u8], Seq::<u8>::empty(), Seq::<u8>::empty()).len() <= 255,
        ensures
            info.package_aid is None ==> res == Err::<(), Error>(Error::CapFile("Package AID not found")),
            info.package_aid is Some && applet_index >= info.applet_aids@.len() ==> res == Err::<(), Error>(
                Error::CapFile("Invalid applet index")),
            res is Ok ==> (final(stream)@.position >= final(stream)@.data.len() && reply_ok(final(self).last_reply())),
            final(self).session_view() == old(self).session_view(),
            res == Err::<(), Error>(Error::CapFile("Package AID not found")) ==> info.package_aid is None,
            res == Err::<(), Error>(Error::CapFile("Invalid applet index")) ==> (info.package_aid is Some
                && applet_index >= info.applet_aids@.len()),
            info.package_aid matches Some(p) ==> applet_index < info.applet_aids@.len() ==> exists|g1: Self, r1: Result<InstallResponse, Error>|
                #[trigger] old(self).installs_for_load(&g1, p@, SECURITY_DOMAIN_AID@, r1) && match r1 {
                    Err(e) => res == Err::<(), Error>(e) && *final(self) == g1 && final(stream)@ == old(stream)@,
                    Ok(_) => exists|g2: Self, r2: Result<(), Error>| #[trigger] g1.loads(old(stream)@, &g2, final(stream)@, r2) && match r2 {
                        Err(e) => res == Err::<(), Error>(e) && *final(self) == g2,
                        Ok(()) => exists|r3: Result<InstallResponse, Error>| #[trigger] g2.installs_selectable(final(self), p@,
                            info.applet_aids@[applet_index as int]@, info.applet_aids@[applet_index as int]@, Seq::<u8>::empty(), r3)
                            && (match r3 {
                                Ok(_) => res == Ok::<(), Error>(()),
                                Err(e) => res == Err::<(), Error>(e),
                            }),
                    },
                },
    {
        let package_aid = match &info.package_aid {
            Some(p) => p,
            None => return Err(Error::CapFile("Package AID not found")),
        };
        if applet_index >= info.applet_aids.len() {
            return Err(Error::CapFile("Invalid applet index"));
        }
        let applet_aid = &info.applet_aids[applet_index];
        let r1 = self.install_for_load(package_aid.as_slice(), None);
        let ghost g1 = *self;
        proof {
            assert(or_issuer_domain(None) == SECURITY_DOMAIN_AID@);
        }
        match r1 {
            Err(e) => return Err(e),
            Ok(_) => {},
        }
        let r2 = self.load_stream(stream);
        let ghost g2 = *self;
        match r2 {
            Err(e) => return Err(e),
            Ok(()) => {},
        }
        let empty: [u8; 0] = [];
        proof { assert(empty@ =~= Seq::<u8>::empty()); }
        let r3 = self.install_for_install_and_make_selectable(package_aid.as_slice(), applet_aid.as_slice(),
            applet_aid.as_slice(), empty.as_slice());
        proof {
            assert(g2.installs_selectable(&*self, package_aid@, applet_aid@, applet_aid@, Seq::<u8>::empty(), r3));
            assert(g1.loads(old(stream)@, &g2, stream@, r2));
        }
        match r3 {
            Err(e) => Err(e),
            Ok(_) => Ok(()),
        }
    }

    /// Install every applet of a CAP file: INSTALL [for load] of the package, the LOAD blocks,
    /// then INSTALL [for install and make selectable] of each applet, in order
    pub fn install_all_applets(&mut self, info: &CapFileInfo, stream: &mut LoadCommandStream) -> (res: Result<(), Error>)
        requires
            load_stream_wf(old(stream)@),
            info.package_aid matches Some(p) ==> p@.len() <= 242 && forall|i: int|
                0 <= i < info.applet_aids@.len() ==> spec_install_data(p@, #[trigger] info.applet_aids@[i]@,
                info.applet_aids@[i]@, seq![0x00u8], Seq::<u8>::empty(), Seq::<u8>::empty()).len() <= 255,
        ensures
            info.package_aid is None ==> res == Err::<(), Error>(Error::CapFile("Package AID not found")),
            info.package_aid is Some && info.applet_aids@.len() == 0 ==> res == Err::<(), Error>(
                Error::CapFile("No applets found in CAP file")),
            res == Err::<(), Error>(Error::CapFile("Package AID not found")) ==> info.package_aid is None,
            res == Err::<(), Error>(Error::CapFile("No applets found in CAP file")) ==> (info.package_aid is Some
                && info.applet_aids@.len() == 0),
            res is Ok ==> (final(stream)@.position >= final(stream)@.data.len() && reply_ok(final(self).last_reply())),
            final(self).session_view() == old(self).session_view(),
            info.package_aid matches Some(p) ==> info.applet_aids@.len() > 0 ==> exists|g1: Self, r1: Result<InstallResponse, Error>|
                #[trigger] old(self).installs_for_load(&g1, p@, SECURITY_DOMAIN_AID@, r1) && match r1 {
                    Err(e) => res == Err::<(), Error>(e) && *final(self) == g1 && final(stream)@ == old(stream)@,
                    Ok(_) => exists|g2: Self, r2: Result<(), Error>| #[trigger] g1.loads(old(stream)@, &g2, final(stream)@, r2) && match r2 {
                        Err(e) => res == Err::<(), Error>(e) && *final(self) == g2,
                        Ok(()) => exists|gs: Seq<Self>, rs: Seq<Result<InstallResponse, Error>>|
                            #[trigger] Self::selectable_trace(gs, p@, views(info.applet_aids@), rs, res)
                            && gs[0] == g2 && gs.last() == *final(self),
                    },
                },
    {
        let package_aid = match &info.package_aid {
            Some(p) => p,
            None => return Err(Error::CapFile("Package AID not found")),
        };
        if info.applet_aids.len() == 0 {
            return Err(Error::CapFile("No applets found in CAP file"));
        }
        let r1 = self.install_for_load(package_aid.as_slice(), None);
        let ghost g1 = *self;
        proof {
            assert(or_issuer_domain(None) == SECURITY_DOMAIN_AID@);
        }
        match r1 {
            Err(e) => return Err(e),
            Ok(_) => {},
        }
        let r2 = self.load_stream(stream);
        let ghost g2 = *self;
        match r2 {
            Err(e) => return Err(e),
            Ok(()) => {},
        }
        let r3 = self.install_each_selectable(package_aid, &info.applet_aids);
        proof {
            assert(g1.loads(old(stream)@, &g2, stream@, r2));
            assert(old(self).installs_for_load(&g1, package_aid@, SECURITY_DOMAIN_AID@, r1));
        }
        r3
    }

    /// INSTALL [for install and make selectable] of each applet AID (as applet and instance
    /// AID), in order, stopping at the first failure
    fn install_each_selectable(&mut self, package_aid: &Vec<u8>, applet_aids: &Vec<Vec<u8>>) -> (res: Result<(), Error>)
        requires
            applet_aids@.len() > 0,
            package_aid@.len() <= 242,
            forall|j: int| 0 <= j < applet_aids@.len() ==> spec_install_data(package_aid@,
                #[trigger] applet_aids@[j]@, applet_aids@[j]@, seq![0x00u8], Seq::<u8>::empty(),
                Seq::<u8>::empty()).len() <= 255,
        ensures
            res is Ok ==> reply_ok(final(self).last_reply()),
            final(self).session_view() == old(self).session_view(),
            exists|gs: Seq<Self>, rs: Seq<Result<InstallResponse, Error>>|
                #[trigger] Self::selectable_trace(gs, package_aid@, views(applet_aids@), rs, res)
                && gs[0] == *old(self) && gs.last() == *final(self),
    {
        let empty: [u8; 0] = [];
        proof { assert(empty@ =~= Seq::<u8>::empty()); }
        let ghost aids = views(applet_aids@);
        let ghost mut gs: Seq<Self> = seq![*old(self)];
        let ghost mut rs: Seq<Result<InstallResponse, Error>> = Seq::empty();
        let mut i: usize = 0;
        while i < applet_aids.len()
            invariant
                0 < applet_aids@.len(),
                i <= applet_aids@.len(),
                package_aid@.len() <= 242,
                forall|j: int| 0 <= j < applet_aids@.len() ==> spec_install_data(package_aid@,
                    #[trigger] applet_aids@[j]@, applet_aids@[j]@, seq![0x00u8], Seq::<u8>::empty(),
                    Seq::<u8>::empty()).len() <= 255,
                empty@ == Seq::<u8>::empty(),
                i > 0 ==> reply_ok(self.last_reply()),
                self.session_view() == old(self).session_view(),
                aids == views(applet_aids@),
                rs.len() == i,
                gs.len() == i + 1,
                gs[0] == *old(self),
                gs.last() == *self,
                forall|j: int| #![trigger rs[j]] 0 <= j < rs.len() ==> gs[j].installs_selectable(&gs[j + 1], package_aid@,
                    aids[j], aids[j], Seq::<u8>::empty(), rs[j]),
                forall|j: int| #![trigger rs[j]] 0 <= j < rs.len() ==> rs[j] is Ok,
            decreases applet_aids@.len() - i,
        {
            let applet_aid = &applet_aids[i];
            let ghost before = *self;
            let r = self.install_for_install_and_make_selectable(package_aid.as_slice(), applet_aid.as_slice(),
                applet_aid.as_slice(), empty.as_slice());
            proof {
                assert(aids[i as int] == applet_aid@);
                gs = gs.push(*self);
                rs = rs.push(r);
                assert forall|j: int| #![trigger rs[j]] 0 <= j < rs.len() implies gs[j].installs_selectable(&gs[j + 1], package_aid@,
                    aids[j], aids[j], Seq::<u8>::empty(), rs[j]) by {
                    if j == rs.len() - 1 {
                        assert(gs[j] == before);
                    }
                }
            }
            match r {
                Err(e) => {
                    let res: Result<(), Error> = Err(e);
                    proof {
                        assert(Self::selectable_trace(gs, package_aid@, aids, rs, res));
                    }
                    return res;
                },
                Ok(_) => {},
            }
            i = i + 1;
        }
        proof {
            assert(Self::selectable_trace(gs, package_aid@, aids, rs, Ok(())));
        }
        Ok(())
    }

    /// Get the executor
    pub fn executor(&self) -> (res: &CardExecutor<GPSecureChannel<T>>)
        ensures
            *res == self.executor_view(),
    {
        &self.executor
    }

    /// Get a mutable reference to the executor
    pub fn executor_mut(&mut self) -> (res: &mut CardExecutor<GPSecureChannel<T>>)
        ensures
            *res == old(self).executor_view(),
            final(self).executor_view() == *final(res),
            final(self).session_view() == old(self).session_view(),
            final(self).last_response_view() == old(self).last_response_view(),
    {
        &mut self.executor
    }

    /// Get the session
    pub fn session(&self) -> (res: Option<&Session>)
        ensures
            res is Some <==> self.session_view() is Some,
            res matches Some(s) ==> self.session_view() == Some(s@),
    {
        match &self.session {
            Some(s) => Some(s),
            None => None,
        }
    }

    /// Close the secure channel: reset the executor (and with it the channel), forget the
    /// session
    pub fn close_secure_channel(&mut self) -> (res: Result<(), Error>)
        ensures
            res is Ok ==> final(self).session_view() is None && final(self).last_reply() is None
                && final(self).executor_view().processors_view().len() == 0,
            res matches Err(e) ==> e is Transport,
            final(self).last_response_view() == old(self).last_response_view(),
    {
        match self.executor.reset() {
            Ok(()) => {},
            Err(e) => {
                let r = Error::from_executor_error(e);
                return Err(r);
            },
        }
        self.session = None;
        Ok(())
    }

    /// Get the last response of a selection
    pub fn last_response(&self) -> (res: Option<&[u8]>)
        ensures
            res is Some <==> self.last_response_view() is Some,
            res matches Some(r) ==> self.last_response_view() == Some(r@),
    {
        match &self.last_response {
            Some(r) => Some(r.as_slice()),
            None => None,
        }
    }

    /// Get the card data (GET DATA, tag 66): opens a secure channel first when there is no
    /// session
    pub fn get_card_data(&mut self) -> (res: Result<Vec<u8>, Error>)
        ensures
            res matches Ok(d) ==> (final(self).last_reply() matches Some(b)
                && card_data_outcome(b) == Ok::<Seq<u8>, Error>(d@)),
            res matches Err(e) ==> e is CardStatus ==> (final(self).last_reply() matches Some(b)
                && card_data_outcome(b) == Err::<Seq<u8>, Error>(e)),
            final(self).session_view() == old(self).session_view(),
            final(self).last_response_view() == old(self).last_response_view(),
            old(self).session_view() is None ==> exists|g1: Self, keys: Keys, r0: Result<(), Error>|
                keys.enc_view() == default_test_key() && keys.mac_view() == default_test_key()
                && #[trigger] old(self).opens_channel(&g1, keys, r0) && match r0 {
                    Err(e) => res == Err::<Vec<u8>, Error>(e) && *final(self) == g1,
                    Ok(()) => g1.fetches_card_data(final(self), res),
                },
            old(self).session_view() is Some ==> old(self).fetches_card_data(final(self), res),
    {
        if self.session.is_none() {
            match self.open_secure_channel() {
                Ok(()) => {},
                Err(e) => return Err(e),
            }
        }
        let ghost g1 = *self;
        let get_data_cmd = Command::new(0x80, 0xCA, 0x00, 0x66).with_le(0x00);
        let bytes = get_data_cmd.to_bytes();
        proof {
            assert(bytes@ =~= get_data_bytes());
        }
        let sent = self.executor.transmit_raw(bytes.as_slice());
        let ghost r = sent;
        let res = match sent {
            Ok(reply) => card_data_from_reply(reply.as_slice()),
            Err(e) => Err(Error::from_executor_error(e)),
        };
        proof {
            assert(card_data_result(r, res));
            assert(g1.executor_view().transmits_raw(&self.executor_view(), get_data_bytes(), r));
            assert(g1.fetches_card_data(&*self, res));
        }
        res
    }

    /// Personalize an application: INSTALL [for personalization] with the data
    pub fn personalize_application(&mut self, app_aid: &[u8], data: &[u8]) -> (res: Result<(), Error>)
        requires
            app_aid@.len() + data@.len() <= 249,
        ensures
            res is Ok ==> reply_ok(final(self).last_reply()),
            res == Err::<(), Error>(Error::Other("Personalization failed")) ==> reply_refused(final(self).last_reply()),
            res == Err::<(), Error>(Error::Response(ResponseError::Incomplete)) ==> reply_failed_with(
                final(self).last_reply(), Error::Response(ResponseError::Incomplete)),
            final(self).session_view() == old(self).session_view(),
            final(self).last_response_view() == old(self).last_response_view(),
            exists|r: Result<Vec<u8>, Error>| #[trigger] old(self).sends(final(self), spec_command_to_bytes(cmd(cla::GP,
                ins::INSTALL, install_p1::FOR_PERSONALIZATION, 0x00, install_for_personalization_data(app_aid@, data@), None)), r)
                && res == personalize_outcome(r),
    {
        let cmd = InstallCommand::for_personalization(app_aid, data);
        let reply = self.send(&cmd, SecurityLevel::none())?;
        match check_reply(reply.as_slice()) {
            Ok(()) => Ok(()),
            Err(Error::Response(e)) => Err(Error::Response(e)),
            Err(_) => Err(Error::Other("Personalization failed")),
        }
    }
}

} // verus!
