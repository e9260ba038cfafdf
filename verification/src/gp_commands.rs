//! Builders of the GlobalPlatform card management commands.
use vstd::prelude::*;

use crate::command::{Command, CommandView};
use crate::crypto::{calculate_cryptogram, spec_calculate_cryptogram};
use crate::constants::{cla, delete_p2, external_auth_p1, get_status_p1, get_status_p2, ins, install_p1, load_p1, select_p1, tags};
use crate::response::{append_bytes, bytes_to_vec};
use crate::tlv::{encode_tlv, spec_simple_tlv_encode};

verus! {

/// The command value with the given header, data field (empty meaning none) and Le.
pub open spec fn cmd(cla: u8, ins: u8, p1: u8, p2: u8, data: Seq<u8>, le: Option<u8>) -> CommandView {
    CommandView { cla, ins, p1, p2, data: if data.len() == 0 { None } else { Some(data) }, le }
}

/// A field preceded by its one-byte length (lengths above 255 are taken modulo 256).
pub open spec fn len_prefixed(s: Seq<u8>) -> Seq<u8> {
    seq![(s.len() % 256) as u8] + s
}

/// Append a one-byte length followed by the field.
pub fn push_len_prefixed(v: &mut Vec<u8>, s: &[u8])
    ensures
        final(v)@ == old(v)@ + len_prefixed(s@),
{
    let ghost start = v@;
    v.push((s.len() % 256) as u8);
    append_bytes(v, s);
    proof {
        assert(v@ =~= start + len_prefixed(s@));
    }
}

/// The install parameters field: tag C9, length and the application specific parameters.
pub open spec fn install_params_tlv(params: Seq<u8>) -> Seq<u8> {
    seq![0xC9u8, (params.len() % 256) as u8] + params
}

/// Data field of INSTALL [for install] and [for install and make selectable].
pub open spec fn spec_install_data(
    load_file_aid: Seq<u8>,
    module_aid: Seq<u8>,
    application_aid: Seq<u8>,
    privilege: Seq<u8>,
    install_parameters: Seq<u8>,
    install_token: Seq<u8>,
) -> Seq<u8> {
    len_prefixed(load_file_aid) + len_prefixed(module_aid) + len_prefixed(application_aid)
        + len_prefixed(privilege) + len_prefixed(install_params_tlv(install_parameters))
        + len_prefixed(install_token)
}

/// Build the data field for INSTALL [for install] and [for install and make selectable] commands
pub fn build_install_data(
    executable_load_file_aid: &[u8],
    executable_module_aid: &[u8],
    application_aid: &[u8],
    privilege: &[u8],
    install_parameters: &[u8],
    install_token: &[u8],
) -> (res: Vec<u8>)
    ensures
        res@ == spec_install_data(
            executable_load_file_aid@,
            executable_module_aid@,
            application_aid@,
            privilege@,
            install_parameters@,
            install_token@,
        ),
{
    let mut data: Vec<u8> = Vec::new();
    push_len_prefixed(&mut data, executable_load_file_aid);
    push_len_prefixed(&mut data, executable_module_aid);
    push_len_prefixed(&mut data, application_aid);
    push_len_prefixed(&mut data, privilege);
    let mut params_tlv: Vec<u8> = Vec::new();
    params_tlv.push(0xC9);
    params_tlv.push((install_parameters.len() % 256) as u8);
    append_bytes(&mut params_tlv, install_parameters);
    proof {
        assert(params_tlv@ =~= install_params_tlv(install_parameters@));
    }
    push_len_prefixed(&mut data, params_tlv.as_slice());
    push_len_prefixed(&mut data, install_token);
    proof {
        assert(data@ =~= spec_install_data(
            executable_load_file_aid@,
            executable_module_aid@,
            application_aid@,
            privilege@,
            install_parameters@,
            install_token@,
        ));
    }
    data
}

/// SELECT command builders
pub struct SelectCommand;

impl SelectCommand {
    /// Create a new SELECT command with specific P1, P2, and AID (Le = 00)
    pub fn new_with_params(p1: u8, p2: u8, aid: &[u8]) -> (res: Command)
        requires
            aid@.len() <= 255,
        ensures
            res@ == cmd(cla::ISO7816, ins::SELECT, p1, p2, aid@, Some(0u8)),
    {
        Command::new(cla::ISO7816, ins::SELECT, p1, p2).with_data(bytes_to_vec(aid)).with_le(0x00)
    }

    /// Create a new SELECT command by AID
    pub fn with_aid(aid: &[u8]) -> (res: Command)
        requires
            aid@.len() <= 255,
        ensures
            res@ == cmd(cla::ISO7816, ins::SELECT, select_p1::BY_NAME, 0x00, aid@, Some(0u8)),
    {
        Self::new_with_params(select_p1::BY_NAME, 0x00, aid)
    }
}

/// DELETE command builders
pub struct DeleteCommand;

impl DeleteCommand {
    /// Create a DELETE command for an object (AID in a tag 4F object) with the given P2
    pub fn with_aid(aid: &[u8], p2: u8) -> (res: Command)
        requires
            aid@.len() <= 253,
        ensures
            res@ == cmd(cla::GP, ins::DELETE, 0x00, p2, spec_simple_tlv_encode(tags::DELETE_AID, aid@), Some(0u8)),
    {
        let data = encode_tlv(tags::DELETE_AID, aid);
        Command::new(cla::GP, ins::DELETE, 0x00, p2).with_data(data).with_le(0)
    }

    /// Create a DELETE command for an object
    pub fn delete_object(aid: &[u8]) -> (res: Command)
        requires
            aid@.len() <= 253,
        ensures
            res@ == cmd(cla::GP, ins::DELETE, 0x00, delete_p2::OBJECT, spec_simple_tlv_encode(tags::DELETE_AID, aid@), Some(0u8)),
    {
        Self::with_aid(aid, delete_p2::OBJECT)
    }

    /// Create a DELETE command for an object and related objects
    pub fn delete_object_and_related(aid: &[u8]) -> (res: Command)
        requires
            aid@.len() <= 253,
        ensures
            res@ == cmd(cla::GP, ins::DELETE, 0x00, delete_p2::OBJECT_AND_RELATED, spec_simple_tlv_encode(tags::DELETE_AID, aid@), Some(0u8)),
    {
        Self::with_aid(aid, delete_p2::OBJECT_AND_RELATED)
    }
}

/// GET STATUS command builders
pub struct GetStatusCommand;

/// Data field of GET STATUS: tag 4F, AID length, AID
pub open spec fn get_status_data(aid: Seq<u8>) -> Seq<u8> {
    seq![0x4Fu8, aid.len() as u8] + aid
}

impl GetStatusCommand {
    /// Create a new GET STATUS command with specific P1 and AID filter
    pub fn with_aid_filter(p1: u8, aid: &[u8]) -> (res: Command)
        requires
            aid@.len() <= 253,
        ensures
            res@ == cmd(cla::GP, ins::GET_STATUS, p1, get_status_p2::TLV_DATA, get_status_data(aid@), None),
    {
        let mut data: Vec<u8> = Vec::new();
        data.push(tags::GET_STATUS_AID);
        data.push(aid.len() as u8);
        append_bytes(&mut data, aid);
        proof { assert(data@ =~= get_status_data(aid@)); }
        Command::new(cla::GP, ins::GET_STATUS, p1, get_status_p2::TLV_DATA).with_data(data)
    }

    /// Get status of issuer security domain
    pub fn issuer_security_domain(aid: &[u8]) -> (res: Command)
        requires
            aid@.len() <= 253,
        ensures
            res@ == cmd(cla::GP, ins::GET_STATUS, get_status_p1::ISSUER_SECURITY_DOMAIN, get_status_p2::TLV_DATA, get_status_data(aid@), None),
    {
        Self::with_aid_filter(get_status_p1::ISSUER_SECURITY_DOMAIN, aid)
    }

    /// Get status of applications
    pub fn applications(aid: &[u8]) -> (res: Command)
        requires
            aid@.len() <= 253,
        ensures
            res@ == cmd(cla::GP, ins::GET_STATUS, get_status_p1::APPLICATIONS, get_status_p2::TLV_DATA, get_status_data(aid@), None),
    {
        Self::with_aid_filter(get_status_p1::APPLICATIONS, aid)
    }

    /// Get status of executable load files
    pub fn executable_load_files(aid: &[u8]) -> (res: Command)
        requires
            aid@.len() <= 253,
        ensures
            res@ == cmd(cla::GP, ins::GET_STATUS, get_status_p1::EXEC_LOAD_FILES, get_status_p2::TLV_DATA, get_status_data(aid@), None),
    {
        Self::with_aid_filter(get_status_p1::EXEC_LOAD_FILES, aid)
    }

    /// Get status of executable load files and modules
    pub fn executable_load_files_and_modules(aid: &[u8]) -> (res: Command)
        requires
            aid@.len() <= 253,
        ensures
            res@ == cmd(cla::GP, ins::GET_STATUS, get_status_p1::EXEC_LOAD_FILES_AND_MODULES, get_status_p2::TLV_DATA, get_status_data(aid@), None),
    {
        Self::with_aid_filter(get_status_p1::EXEC_LOAD_FILES_AND_MODULES, aid)
    }

    /// Get status with empty AID (wildcard)
    pub fn all_with_type(p1: u8) -> (res: Command)
        ensures
            res@ == cmd(cla::GP, ins::GET_STATUS, p1, get_status_p2::TLV_DATA, seq![0x4Fu8, 0x00u8], None),
    {
        let empty: Vec<u8> = Vec::new();
        let res = Self::with_aid_filter(p1, empty.as_slice());
        proof { assert(get_status_data(empty@) =~= seq![0x4Fu8, 0x00u8]); }
        res
    }
}

/// INSTALL command builders
pub struct InstallCommand;

/// Data field of INSTALL [for load]
pub open spec fn install_for_load_data(load_file_aid: Seq<u8>, sd_aid: Seq<u8>) -> Seq<u8> {
    len_prefixed(load_file_aid) + len_prefixed(sd_aid) + seq![0x00u8, 0x00u8, 0x00u8]
}

/// Data field of INSTALL [for personalization]
pub open spec fn install_for_personalization_data(app_aid: Seq<u8>, data: Seq<u8>) -> Seq<u8> {
    seq![0x00u8, 0x00u8] + len_prefixed(app_aid) + seq![0x00u8] + len_prefixed(data) + seq![0x00u8]
}

impl InstallCommand {
    /// Create an INSTALL command with parameters
    pub fn with_p1_data(p1: u8, data: Vec<u8>) -> (res: Command)
        requires
            data@.len() <= 255,
        ensures
            res@ == cmd(cla::GP, ins::INSTALL, p1, 0x00, data@, None),
    {
        Command::new(cla::GP, ins::INSTALL, p1, 0x00).with_data(data)
    }

    /// Create an INSTALL [for load] command
    pub fn for_load(load_file_aid: &[u8], security_domain_aid: &[u8]) -> (res: Command)
        requires
            load_file_aid@.len() + security_domain_aid@.len() <= 250,
        ensures
            res@ == cmd(cla::GP, ins::INSTALL, install_p1::FOR_LOAD, 0x00, install_for_load_data(load_file_aid@, security_domain_aid@), None),
    {
        let mut data: Vec<u8> = Vec::new();
        push_len_prefixed(&mut data, load_file_aid);
        push_len_prefixed(&mut data, security_domain_aid);
        data.push(0x00);
        data.push(0x00);
        data.push(0x00);
        proof { assert(data@ =~= install_for_load_data(load_file_aid@, security_domain_aid@)); }
        Self::with_p1_data(install_p1::FOR_LOAD, data)
    }

    /// Create an INSTALL [for install] command
    pub fn for_install(
        executable_load_file_aid: &[u8],
        executable_module_aid: &[u8],
        application_aid: &[u8],
        privilege: &[u8],
        install_parameters: &[u8],
        install_token: &[u8],
    ) -> (res: Command)
        requires
            spec_install_data(executable_load_file_aid@, executable_module_aid@, application_aid@,
                privilege@, install_parameters@, install_token@).len() <= 255,
        ensures
            res@ == cmd(cla::GP, ins::INSTALL, install_p1::FOR_INSTALL, 0x00,
                spec_install_data(executable_load_file_aid@, executable_module_aid@, application_aid@,
                privilege@, install_parameters@, install_token@), None),
    {
        let data = build_install_data(executable_load_file_aid, executable_module_aid,
            application_aid, privilege, install_parameters, install_token);
        Self::with_p1_data(install_p1::FOR_INSTALL, data)
    }

    /// Create an INSTALL [for install and make selectable] command
    pub fn for_install_and_make_selectable(
        executable_load_file_aid: &[u8],
        executable_module_aid: &[u8],
        application_aid: &[u8],
        privilege: &[u8],
        install_parameters: &[u8],
        install_token: &[u8],
    ) -> (res: Command)
        requires
            spec_install_data(executable_load_file_aid@, executable_module_aid@, application_aid@,
                privilege@, install_parameters@, install_token@).len() <= 255,
        ensures
            res@ == cmd(cla::GP, ins::INSTALL, install_p1::FOR_INSTALL_AND_MAKE_SELECTABLE, 0x00,
                spec_install_data(executable_load_file_aid@, executable_module_aid@, application_aid@,
                privilege@, install_parameters@, install_token@), None),
    {
        let data = build_install_data(executable_load_file_aid, executable_module_aid,
            application_aid, privilege, install_parameters, install_token);
        Self::with_p1_data(install_p1::FOR_INSTALL_AND_MAKE_SELECTABLE, data)
    }

    /// Create an INSTALL [for personalization] command
    pub fn for_personalization(application_aid: &[u8], data: &[u8]) -> (res: Command)
        requires
            application_aid@.len() + data@.len() <= 249,
        ensures
            res@ == cmd(cla::GP, ins::INSTALL, install_p1::FOR_PERSONALIZATION, 0x00,
                install_for_personalization_data(application_aid@, data@), None),
    {
        let mut cmd_data: Vec<u8> = Vec::new();
        cmd_data.push(0x00);
        cmd_data.push(0x00);
        push_len_prefixed(&mut cmd_data, application_aid);
        cmd_data.push(0x00);
        push_len_prefixed(&mut cmd_data, data);
        cmd_data.push(0x00);
        proof { assert(cmd_data@ =~= install_for_personalization_data(application_aid@, data@)); }
        Self::with_p1_data(install_p1::FOR_PERSONALIZATION, cmd_data)
    }
}

/// LOAD command builders
pub struct LoadCommand;

impl LoadCommand {
    /// Create a LOAD command with block data (Le = 00)
    pub fn with_block_data(p1: u8, block_number: u8, data: &[u8]) -> (res: Command)
        requires
            data@.len() <= 255,
        ensures
            res@ == cmd(cla::GP, ins::LOAD, p1, block_number, data@, Some(0u8)),
    {
        Command::new(cla::GP, ins::LOAD, p1, block_number).with_data(bytes_to_vec(data)).with_le(0)
    }

    /// Create a LOAD command for more blocks
    pub fn more_blocks(block_number: u8, data: &[u8]) -> (res: Command)
        requires
            data@.len() <= 255,
        ensures
            res@ == cmd(cla::GP, ins::LOAD, load_p1::MORE_BLOCKS, block_number, data@, Some(0u8)),
    {
        Self::with_block_data(load_p1::MORE_BLOCKS, block_number, data)
    }

    /// Create a LOAD command for the last block
    pub fn last_block(block_number: u8, data: &[u8]) -> (res: Command)
        requires
            data@.len() <= 255,
        ensures
            res@ == cmd(cla::GP, ins::LOAD, load_p1::LAST_BLOCK, block_number, data@, Some(0u8)),
    {
        Self::with_block_data(load_p1::LAST_BLOCK, block_number, data)
    }
}

/// PUT KEY command builders
pub struct PutKeyCommand;

impl PutKeyCommand {
    /// Create a PUT KEY command for loading a new key version
    pub fn new_key_version(key_version: u8, key_data: &[u8]) -> (res: Command)
        requires
            key_data@.len() <= 255,
        ensures
            res@ == cmd(cla::GP, ins::PUT_KEY, 0x00, key_version, key_data@, None),
    {
        Command::new(cla::GP, ins::PUT_KEY, 0x00, key_version).with_data(bytes_to_vec(key_data))
    }

    /// Create a PUT KEY command for replacing an existing key
    pub fn replace_key(key_version: u8, key_data: &[u8]) -> (res: Command)
        requires
            key_data@.len() <= 255,
        ensures
            res@ == cmd(cla::GP, ins::PUT_KEY, 0x00, key_version, key_data@, None),
    {
        Command::new(cla::GP, ins::PUT_KEY, 0x00, key_version).with_data(bytes_to_vec(key_data))
    }

    /// Create a PUT KEY command with key derivation data
    pub fn with_derivation_data(key_version: u8, key_data: &[u8]) -> (res: Command)
        requires
            key_data@.len() <= 255,
        ensures
            res@ == cmd(cla::GP, ins::PUT_KEY, 0x01, key_version, key_data@, None),
    {
        Command::new(cla::GP, ins::PUT_KEY, 0x01, key_version).with_data(bytes_to_vec(key_data))
    }

    /// Create a PUT KEY command for loading multiple keys
    pub fn multiple_keys(key_version: u8, key_data: &[u8]) -> (res: Command)
        requires
            key_data@.len() <= 255,
        ensures
            res@ == cmd(cla::GP, ins::PUT_KEY, 0x02, key_version, key_data@, None),
    {
        Command::new(cla::GP, ins::PUT_KEY, 0x02, key_version).with_data(bytes_to_vec(key_data))
    }
}

/// STORE DATA command builders
pub struct StoreDataCommand;

impl StoreDataCommand {
    /// Create a STORE DATA command
    pub fn new_with_data(p1: u8, block_number: u8, data: &[u8]) -> (res: Command)
        requires
            data@.len() <= 255,
        ensures
            res@ == cmd(cla::GP, ins::STORE_DATA, p1, block_number, data@, None),
    {
        Command::new(cla::GP, ins::STORE_DATA, p1, block_number).with_data(bytes_to_vec(data))
    }

    /// Create a STORE DATA command for more blocks (not the last one)
    pub fn more_blocks(block_number: u8, data: &[u8]) -> (res: Command)
        requires
            data@.len() <= 255,
        ensures
            res@ == cmd(cla::GP, ins::STORE_DATA, 0x00, block_number, data@, None),
    {
        Self::new_with_data(0x00, block_number, data)
    }

    /// Create a STORE DATA command for the last block
    pub fn last_block(block_number: u8, data: &[u8]) -> (res: Command)
        requires
            data@.len() <= 255,
        ensures
            res@ == cmd(cla::GP, ins::STORE_DATA, 0x80, block_number, data@, None),
    {
        Self::new_with_data(0x80, block_number, data)
    }

    /// Create a STORE DATA command with DGI format (P1 bit 0x40; 0x80 marks the last block)
    pub fn with_dgi_format(is_last: bool, block_number: u8, data: &[u8]) -> (res: Command)
        requires
            data@.len() <= 255,
        ensures
            res@ == cmd(cla::GP, ins::STORE_DATA, if is_last { 0xC0u8 } else { 0x40u8 }, block_number, data@, None),
    {
        let p1: u8 = if is_last { 0x80 | 0x40 } else { 0x40 };
        assert((0x80u8 | 0x40u8) == 0xC0u8) by (bit_vector);
        Self::new_with_data(p1, block_number, data)
    }
}

/// INITIALIZE UPDATE command builders
pub struct InitializeUpdateCommand;

impl InitializeUpdateCommand {
    /// Create a new INITIALIZE UPDATE command with a host challenge (Le = 00)
    pub fn with_challenge(host_challenge: &[u8]) -> (res: Command)
        requires
            host_challenge@.len() <= 255,
        ensures
            res@ == cmd(cla::GP, ins::INITIALIZE_UPDATE, 0x00, 0x00, host_challenge@, Some(0u8)),
    {
        Command::new(cla::GP, ins::INITIALIZE_UPDATE, 0x00, 0x00).with_data(bytes_to_vec(host_challenge)).with_le(0x00)
    }

    /// Create a new INITIALIZE UPDATE command with a random 8-byte host challenge
    pub fn with_random_challenge() -> (res: Command)
        ensures
            res@.cla == cla::GP && res@.ins == ins::INITIALIZE_UPDATE && res@.p1 == 0 && res@.p2 == 0,
            res@.data matches Some(d) && d.len() == 8,
            res@.le == Some(0u8),
    {
        let challenge = crate::secure_channel::random_host_challenge();
        Self::with_challenge(challenge.as_slice())
    }
}

/// EXTERNAL AUTHENTICATE command builders
pub struct ExternalAuthenticateCommand;

impl ExternalAuthenticateCommand {
    /// Create a new EXTERNAL AUTHENTICATE command with host cryptogram
    pub fn with_host_cryptogram(host_cryptogram: &[u8]) -> (res: Command)
        requires
            host_cryptogram@.len() <= 255,
        ensures
            res@ == cmd(cla::MAC, ins::EXTERNAL_AUTHENTICATE, external_auth_p1::CMAC, 0x00, host_cryptogram@, None),
    {
        Command::new(cla::MAC, ins::EXTERNAL_AUTHENTICATE, external_auth_p1::CMAC, 0x00).with_data(bytes_to_vec(host_cryptogram))
    }

    /// Create the host cryptogram (SCP02) and the command carrying it
    pub fn from_challenges(
        enc_key: &[u8; 16],
        sequence_counter: &[u8; 2],
        card_challenge: &[u8; 6],
        host_challenge: &[u8; 8],
    ) -> (res: Command)
        ensures
            res@ == cmd(cla::MAC, ins::EXTERNAL_AUTHENTICATE, external_auth_p1::CMAC, 0x00,
                spec_calculate_cryptogram(enc_key@, sequence_counter@, card_challenge@, host_challenge@, true), None),
        res@.data matches Some(d) && d.len() == 8,
    {
        let host_cryptogram = calculate_cryptogram(enc_key, sequence_counter, card_challenge, host_challenge, true);
        Self::with_host_cryptogram(host_cryptogram.as_slice())
    }
}

/// GET RESPONSE command builders
pub struct GetResponseCommand;

impl GetResponseCommand {
    /// Create a GET RESPONSE command with expected length
    pub fn with_length(length: u8) -> (res: Command)
        ensures
            res@ == cmd(cla::ISO7816, ins::GET_RESPONSE, 0x00, 0x00, Seq::empty(), Some(length)),
    {
        Command::new(cla::ISO7816, ins::GET_RESPONSE, 0x00, 0x00).with_le(length)
    }
}

} // verus!
