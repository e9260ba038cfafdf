use nexum_apdu::command::Command;
use nexum_apdu::constants::{cla, delete_p2, external_auth_p1, get_status_p1, get_status_p2, ins, install_p1, load_p1, select_p1};
use nexum_apdu::crypto::{calculate_cryptogram, derive_key, encrypt_icv, mac_full_3des, resize_key, Scp02, DERIVATION_ENC, DERIVATION_MAC};
use nexum_apdu::get_status::{is_entry_scan_safe, GetStatusResponse};
use nexum_apdu::gp_commands::{
    DeleteCommand, ExternalAuthenticateCommand, GetResponseCommand, GetStatusCommand, InitializeUpdateCommand,
    InstallCommand, LoadCommand, PutKeyCommand, SelectCommand, StoreDataCommand,
};
use nexum_apdu::gp_error::Error;
use nexum_apdu::gp_responses::{
    parse_store_data_response, DeleteResponse, ExternalAuthenticateResponse, GetResponseOk, GetResponseResult,
    InitializeUpdateResponse, InstallResponse, LoadResponse, PutKeyError, PutKeyOk, PutKeyResult, SelectResponse,
    StoreDataError, StoreDataOk,
};
use nexum_apdu::load::{encode_length, CapFileInfo, LoadCommandStream};
use nexum_apdu::secure_channel::GPSecureChannel;
use nexum_apdu::session::{Keys, SCP02Wrapper, Session};
use nexum_apdu::tlv::{encode_tlv, find_all_tlv_values, find_tlv_value, parse_tlvs};
use nexum_apdu::transport::MockTransport;
use std::io::Write;

fn h(s: &str) -> Vec<u8> {
    hex::decode(s.replace(' ', "")).unwrap()
}

fn key16(s: &str) -> [u8; 16] {
    h(s).try_into().unwrap()
}

#[test]
fn test_delete_command() {
    let aid = h("0102030405");
    let cmd = DeleteCommand::delete_object(&aid);

    assert_eq!(cmd.class(), cla::GP);
    assert_eq!(cmd.instruction(), ins::DELETE);
    assert_eq!(cmd.p1(), 0x00);
    assert_eq!(cmd.p2(), delete_p2::OBJECT);

    let expected_data = h("4F050102030405");
    assert_eq!(cmd.data(), Some(expected_data.as_ref()));

    let raw = cmd.to_bytes();
    assert_eq!(raw, h("80E40000074F05010203040500"));
}

#[test]
fn test_delete_object_and_related() {
    let aid = h("A0000000030000");
    let cmd = DeleteCommand::delete_object_and_related(&aid);

    assert_eq!(cmd.p2(), delete_p2::OBJECT_AND_RELATED);

    let expected_data = h("4F07A0000000030000");
    assert_eq!(cmd.data(), Some(expected_data.as_ref()));
}

#[test]
fn test_delete_response() {
    let response = DeleteResponse::from_bytes(&h("9000")).unwrap();
    assert!(matches!(response, DeleteResponse::Success));

    let response = DeleteResponse::from_bytes(&h("6A88")).unwrap();
    assert!(matches!(response, DeleteResponse::ReferencedDataNotFound));
}

#[test]
fn test_external_authenticate_command() {
    let cryptogram = h("7702AC6CE46A47F0");
    let cmd = ExternalAuthenticateCommand::with_host_cryptogram(&cryptogram);

    assert_eq!(cmd.class(), cla::MAC);
    assert_eq!(cmd.instruction(), ins::EXTERNAL_AUTHENTICATE);
    assert_eq!(cmd.p1(), external_auth_p1::CMAC);
    assert_eq!(cmd.p2(), 0x00);
    assert_eq!(cmd.data(), Some(cryptogram.as_ref()));

    let raw = cmd.to_bytes();
    assert_eq!(raw, h("8482010008 7702AC6CE46A47F0"));
}

#[test]
fn test_from_challenges() {
    let enc_key = key16("8D289AFE0AB9C45B1C76DEEA182966F4");
    let sequence_counter: [u8; 2] = h("000f").try_into().unwrap();
    let card_challenge: [u8; 6] = h("3fd65d4d6e45").try_into().unwrap();
    let host_challenge: [u8; 8] = h("cf307b6719bf224d").try_into().unwrap();

    let cmd = ExternalAuthenticateCommand::from_challenges(&enc_key, &sequence_counter, &card_challenge, &host_challenge);

    assert_eq!(cmd.class(), cla::MAC);
    assert_eq!(cmd.instruction(), ins::EXTERNAL_AUTHENTICATE);
    assert_eq!(cmd.p1(), external_auth_p1::CMAC);
    assert_eq!(cmd.p2(), 0x00);
    assert_eq!(cmd.data().unwrap().len(), 8);
}

#[test]
fn test_external_authenticate_response() {
    let response = ExternalAuthenticateResponse::from_bytes(&h("9000")).unwrap();
    assert!(matches!(response, ExternalAuthenticateResponse::Success));

    let response = ExternalAuthenticateResponse::from_bytes(&h("6982")).unwrap();
    assert!(matches!(response, ExternalAuthenticateResponse::SecurityStatusNotSatisfied));
}

#[test]
fn test_get_response_command() {
    let cmd = GetResponseCommand::with_length(0xFF);

    assert_eq!(cmd.class(), cla::ISO7816);
    assert_eq!(cmd.instruction(), ins::GET_RESPONSE);
    assert_eq!(cmd.p1(), 0x00);
    assert_eq!(cmd.p2(), 0x00);
    assert_eq!(cmd.data(), None);
    assert_eq!(cmd.expected_length(), Some(0xFF));

    let raw = cmd.to_bytes();
    assert_eq!(raw, h("00C00000FF"));
}

#[test]
fn test_get_response_response() {
    let result = GetResponseResult::from_bytes(&h("010203049000")).unwrap().into_inner().unwrap();
    assert!(matches!(result, GetResponseOk::Success { .. }));
    assert_eq!(result.data(), &h("01020304"));
    assert!(!result.has_more_data());
    assert_eq!(result.remaining_bytes(), None);

    let result = GetResponseResult::from_bytes(&h("0102030461FF")).unwrap().into_inner().unwrap();
    assert!(matches!(result, GetResponseOk::MoreData { .. }));
    assert_eq!(result.data(), &h("01020304"));
    assert!(result.has_more_data());
    assert_eq!(result.remaining_bytes(), Some(0xFF));
}

#[test]
fn get_status_command_encoding() {
    let aid = h("AABBCC");
    let cmd = GetStatusCommand::applications(&aid);

    assert_eq!(cmd.class(), cla::GP);
    assert_eq!(cmd.instruction(), ins::GET_STATUS);
    assert_eq!(cmd.p1(), get_status_p1::APPLICATIONS);
    assert_eq!(cmd.p2(), get_status_p2::TLV_DATA);

    let expected_data = h("4F03AABBCC");
    assert_eq!(cmd.data(), Some(expected_data.as_ref()));

    // Lc is the length of the data field (5 bytes)
    let raw = cmd.to_bytes();
    assert_eq!(raw, h("80F24002054F03AABBCC"));
}

#[test]
fn test_get_status_all() {
    let cmd = GetStatusCommand::all_with_type(get_status_p1::APPLICATIONS);
    let expected_data = h("4F00");
    assert_eq!(cmd.data(), Some(expected_data.as_ref()));
}

#[test]
fn test_get_status_response() {
    let tlv_data = h("E3144F07A0000000030000C5010AC4019AC10100860102");
    let response_data = [tlv_data.as_slice(), &h("9000")].concat();

    let response = GetStatusResponse::from_bytes(&response_data).unwrap();
    assert!(matches!(response, GetStatusResponse::Success { .. }));
    assert_eq!(response.tlv_data(), Some(tlv_data.as_ref()));
    assert!(!response.has_more_data());

    let response_data = [tlv_data.as_slice(), &h("6120")].concat();
    let response = GetStatusResponse::from_bytes(&response_data).unwrap();
    assert!(matches!(response, GetStatusResponse::MoreData { .. }));
    assert_eq!(response.tlv_data(), Some(tlv_data.as_ref()));
    assert!(response.has_more_data());
    assert_eq!(response.remaining_bytes(), Some(0x20));
}

#[test]
fn parse_application_entries_with_exact_lengths() {
    let tlv_data = h("E30F4F07A0000000030000C5010AC60106 E3124F08A000000003000001C50104C60301FF02");
    assert!(is_entry_scan_safe(&tlv_data, 0xE3));
    let response_data = [tlv_data.as_slice(), &h("9000")].concat();
    let response = GetStatusResponse::from_bytes(&response_data).unwrap();
    let apps = response.parse_applications();
    assert_eq!(apps.len(), 2);
    assert_eq!(apps[0].aid, h("A0000000030000"));
    assert_eq!(apps[0].lifecycle, 0x0A);
    assert_eq!(apps[0].privileges, h("06"));
    assert_eq!(apps[1].aid, h("A000000003000001"));
    assert_eq!(apps[1].lifecycle, 0x04);
    assert_eq!(apps[1].privileges, h("01FF02"));
}

#[test]
fn parse_application_entries_overlong_first_entry() {
    // The first entry announces 0x13 bytes where it has 0x0F: the scan continues inside the
    // second entry and finds no further application.
    let tlv_data = h("E3134F07A0000000030000C5010AC60106E3164F09A000000003000001C50104C60301FF02");
    assert!(is_entry_scan_safe(&tlv_data, 0xE3));
    let response_data = [tlv_data.as_slice(), &h("9000")].concat();
    let response = GetStatusResponse::from_bytes(&response_data).unwrap();
    let apps = response.parse_applications();
    assert_eq!(apps.len(), 1);
    assert_eq!(apps[0].aid, h("A0000000030000"));
    assert_eq!(apps[0].lifecycle, 0x0A);
}

#[test]
fn parse_load_file_entries_with_exact_lengths() {
    let tlv_data = h("E20C4F07A0000000030000C50107 E2184F08A000000003000102C501088409A000000003000102A1");
    assert!(is_entry_scan_safe(&tlv_data, 0xE2));
    let response_data = [tlv_data.as_slice(), &h("9000")].concat();
    let response = GetStatusResponse::from_bytes(&response_data).unwrap();
    let files = response.parse_load_files();
    assert_eq!(files.len(), 2);
    assert_eq!(files[0].aid, h("A0000000030000"));
    assert_eq!(files[0].lifecycle, 0x07);
    assert_eq!(files[0].modules.len(), 0);
    assert_eq!(files[1].aid, h("A000000003000102"));
    assert_eq!(files[1].lifecycle, 0x08);
    assert_eq!(files[1].modules.len(), 1);
    assert_eq!(files[1].modules[0], h("A000000003000102A1"));
}

#[test]
fn parse_load_file_entries_overlong_first_entry() {
    // The first entry announces 0x11 bytes where it has 0x0C: the scan continues inside the
    // second entry and finds no further load file.
    let tlv_data = h("E2114F07A0000000030000C50107E21C4F09A000000003000102C50108840AA000000003000102A1");
    assert!(is_entry_scan_safe(&tlv_data, 0xE2));
    let response_data = [tlv_data.as_slice(), &h("9000")].concat();
    let response = GetStatusResponse::from_bytes(&response_data).unwrap();
    let files = response.parse_load_files();
    assert_eq!(files.len(), 1);
    assert_eq!(files[0].aid, h("A0000000030000"));
    assert_eq!(files[0].lifecycle, 0x07);
    assert_eq!(files[0].modules.len(), 0);
}

#[test]
fn entry_scan_safety_check() {
    assert!(is_entry_scan_safe(&[], 0xE3));
    assert!(!is_entry_scan_safe(&[0xE3], 0xE3));
    assert!(is_entry_scan_safe(&[0xE2], 0xE3));
    assert!(!is_entry_scan_safe(&[0x01, 0x00, 0xE3], 0xE3));
}

#[test]
fn test_initialize_update_command() {
    let challenge = h("010203");
    let cmd = InitializeUpdateCommand::with_challenge(&challenge);

    assert_eq!(cmd.class(), cla::GP);
    assert_eq!(cmd.instruction(), ins::INITIALIZE_UPDATE);
    assert_eq!(cmd.p1(), 0x00);
    assert_eq!(cmd.p2(), 0x00);
    assert_eq!(cmd.data(), Some(challenge.as_ref()));
    assert_eq!(cmd.expected_length(), Some(0x00));

    let raw = cmd.to_bytes();
    assert_eq!(raw, h("805000000301020300"));
}

#[test]
fn test_initialize_update_response() {
    let response_data = h("000002650183039536622002000de9c62ba1c4c8e55fcb91b6654ce49000");
    let response = InitializeUpdateResponse::from_bytes(&response_data).unwrap();

    assert!(matches!(response, InitializeUpdateResponse::Success { .. }));
    assert_eq!(response.scp_version(), Some(0x02));
    assert_eq!(response.key_version_number(), Some(0x20));

    if let Some(counter) = response.sequence_counter() {
        assert_eq!(counter, &[0x00, 0x0D]);
    } else {
        panic!("Sequence counter should be present");
    }

    if let InitializeUpdateResponse::Success {
        key_diversification_data,
        key_info,
        sequence_counter,
        card_challenge,
        card_cryptogram,
    } = response
    {
        assert_eq!(key_diversification_data.to_vec(), h("00000265018303953662"));
        assert_eq!(key_info.to_vec(), h("2002"));
        assert_eq!(sequence_counter.to_vec(), h("000D"));
        assert_eq!(card_challenge.to_vec(), h("E9C62BA1C4C8"));
        assert_eq!(card_cryptogram.to_vec(), h("E55FCB91B6654CE4"));
    }

    let response = InitializeUpdateResponse::from_bytes(&h("6982")).unwrap();
    assert!(matches!(response, InitializeUpdateResponse::SecurityConditionNotSatisfied));
}

#[test]
fn test_install_for_load() {
    let package_aid = h("53746174757357616C6C6574");
    let sd_aid = h("A000000151000000");
    let cmd = InstallCommand::for_load(&package_aid, &sd_aid);

    assert_eq!(cmd.class(), cla::GP);
    assert_eq!(cmd.instruction(), ins::INSTALL);
    assert_eq!(cmd.p1(), install_p1::FOR_LOAD);
    assert_eq!(cmd.p2(), 0x00);

    let expected_data = h("0C53746174757357616C6C657408A000000151000000000000");
    assert_eq!(cmd.data(), Some(expected_data.as_ref()));

    let raw = cmd.to_bytes();
    assert_eq!(raw, h("80E60200190C53746174757357616C6C657408A000000151000000000000"));
}

#[test]
fn test_install_for_install_and_make_selectable() {
    let package_aid = h("53746174757357616C6C6574");
    let module_aid = h("53746174757357616C6C6574417070");
    let applet_aid = h("53746174757357616C6C6574417070");
    let privileges = h("01");
    let install_params = h("03AABBCC");
    let install_token = h("");

    let cmd = InstallCommand::for_install_and_make_selectable(
        &package_aid,
        &module_aid,
        &applet_aid,
        &privileges,
        &install_params,
        &install_token,
    );

    assert_eq!(cmd.p1(), install_p1::FOR_INSTALL_AND_MAKE_SELECTABLE);

    let expected_data = h(
        "0C53746174757357616C6C65740F53746174757357616C6C65744170700F53746174757357616C6C6574417070010106C90403AABBCC00",
    );
    assert_eq!(cmd.data(), Some(expected_data.as_ref()));
}

#[test]
fn test_for_personalization() {
    let app_aid = h("A0000001510000");
    let app_data = h("84010102");

    let cmd = InstallCommand::for_personalization(&app_aid, &app_data);

    assert_eq!(cmd.p1(), install_p1::FOR_PERSONALIZATION);
    assert!(cmd.data().is_some());
    assert!(!cmd.data().unwrap().is_empty());
}

#[test]
fn test_install_response() {
    let response = InstallResponse::from_bytes(&h("9000")).unwrap();
    assert!(matches!(response, InstallResponse::Success));

    let response = InstallResponse::from_bytes(&h("6982")).unwrap();
    assert!(matches!(response, InstallResponse::SecurityConditionNotSatisfied));
}

#[test]
fn test_load_command() {
    let block_data = h("C4020304");
    let cmd = LoadCommand::more_blocks(0x01, &block_data);

    assert_eq!(cmd.class(), cla::GP);
    assert_eq!(cmd.instruction(), ins::LOAD);
    assert_eq!(cmd.p1(), load_p1::MORE_BLOCKS);
    assert_eq!(cmd.p2(), 0x01);
    assert_eq!(cmd.data(), Some(block_data.as_ref()));

    let raw = cmd.to_bytes();
    assert_eq!(raw, h("80E8000104C402030400"));
}

#[test]
fn test_load_last_block() {
    let block_data = h("C4020304");
    let cmd = LoadCommand::last_block(0x02, &block_data);

    assert_eq!(cmd.p1(), load_p1::LAST_BLOCK);
    assert_eq!(cmd.p2(), 0x02);
}

#[test]
fn test_load_response() {
    let response = LoadResponse::from_bytes(&h("9000")).unwrap();
    assert!(matches!(response, LoadResponse::Success));

    let response = LoadResponse::from_bytes(&h("6982")).unwrap();
    assert!(matches!(response, LoadResponse::SecurityStatusNotSatisfied));
}

#[test]
fn test_put_key_command() {
    let key_data = h("4F07A0000001510000");
    let cmd = PutKeyCommand::new_key_version(0x01, &key_data);

    assert_eq!(cmd.class(), cla::GP);
    assert_eq!(cmd.instruction(), ins::PUT_KEY);
    assert_eq!(cmd.p1(), 0x00);
    assert_eq!(cmd.p2(), 0x01);
    assert_eq!(cmd.data(), Some(key_data.as_ref()));

    let raw = cmd.to_bytes();
    assert_eq!(raw, h("80D80001094F07A0000001510000"));
}

#[test]
fn test_put_key_response() {
    let result = PutKeyResult::from_bytes(&h("9000")).unwrap().into_inner().unwrap();
    assert!(matches!(result, PutKeyOk::Success));

    let response = PutKeyResult::from_bytes(&h("6982")).unwrap().into_inner().unwrap_err();
    assert!(matches!(response, PutKeyError::SecurityStatusNotSatisfied));
}

#[test]
fn test_select_command() {
    let aid = h("A0000000030000");
    let cmd = SelectCommand::with_aid(&aid);

    assert_eq!(cmd.class(), cla::ISO7816);
    assert_eq!(cmd.instruction(), ins::SELECT);
    assert_eq!(cmd.p1(), select_p1::BY_NAME);
    assert_eq!(cmd.p2(), 0x00);
    assert_eq!(cmd.data(), Some(aid.as_ref()));
    assert_eq!(cmd.expected_length(), Some(0x00));

    let raw = cmd.to_bytes();
    assert_eq!(raw, h("00A4040007A000000003000000"));
}

#[test]
fn test_select_response() {
    let fci_data = h("6F10840E315041592E5359532E4444463031A5020500");
    let mut response_data = Vec::new();
    response_data.extend_from_slice(&fci_data);
    response_data.extend_from_slice(&h("9000"));

    let response = SelectResponse::from_bytes(&response_data).unwrap();
    assert!(response.is_success());
    assert_eq!(response.fci(), fci_data.as_slice());

    let response = SelectResponse::from_bytes(&h("6A82")).unwrap();
    assert!(response.is_not_found());
}

#[test]
fn select_response_parsed_fci() {
    let fci = h("6F19 8408A000000151000000 A50D 9F6E06479100783400 9F6501FF");
    let response = SelectResponse::from_bytes(&[fci.as_slice(), &h("9000")].concat()).unwrap();
    let parsed = response.parsed_fci().unwrap();
    assert_eq!(parsed.aid, h("A000000151000000"));
    assert_eq!(parsed.proprietary_data.max_command_data_length, 0xFF);
    assert_eq!(parsed.proprietary_data.app_production_lifecycle_data, Some(h("479100783400")));
    assert_eq!(parsed.proprietary_data.security_domain_management_data, None);

    // In the FCI of the SELECT test the A5 object stands outside the 6F template
    let response = SelectResponse::from_bytes(&h("6F10840E315041592E5359532E4444463031A50205009000")).unwrap();
    assert!(response.parsed_fci().is_none());
    assert!(SelectResponse::from_bytes(&h("6A82")).unwrap().parsed_fci().is_none());
}

#[test]
fn select_response_application_label() {
    let fci = h("500341424384020102");
    let response = SelectResponse::from_bytes(&[fci.as_slice(), &h("9000")].concat()).unwrap();
    assert_eq!(response.application_label(), Some(h("414243")));
}

#[test]
fn test_store_data_command() {
    let data = h("8401FE0102");
    let cmd = StoreDataCommand::more_blocks(0x00, &data);

    assert_eq!(cmd.class(), cla::GP);
    assert_eq!(cmd.instruction(), ins::STORE_DATA);
    assert_eq!(cmd.p1(), 0x00);
    assert_eq!(cmd.p2(), 0x00);
    assert_eq!(cmd.data(), Some(data.as_ref()));

    let raw = cmd.to_bytes();
    assert_eq!(raw, h("80E20000058401FE0102"));
}

#[test]
fn test_store_data_last_block() {
    let data = h("8402FE0304");
    let cmd = StoreDataCommand::last_block(0x01, &data);

    assert_eq!(cmd.p1(), 0x80);
    assert_eq!(cmd.p2(), 0x01);

    let raw = cmd.to_bytes();
    assert_eq!(raw, h("80E28001058402FE0304"));
}

#[test]
fn test_store_data_dgi_format() {
    let data = h("0101020304");
    let cmd = StoreDataCommand::with_dgi_format(true, 0x02, &data);

    assert_eq!(cmd.p1(), 0x80 | 0x40);
    assert_eq!(cmd.p2(), 0x02);
}

#[test]
fn test_store_data_response() {
    let result = parse_store_data_response(&h("9000")).unwrap();
    assert!(matches!(result, StoreDataOk::Success));

    let result = parse_store_data_response(&h("6A80")).unwrap_err();
    assert!(matches!(result, StoreDataError::WrongData));
}

#[test]
fn test_derive_key() {
    let card_key = key16("404142434445464748494a4b4c4d4e4f");
    let seq: [u8; 2] = h("0065").try_into().unwrap();

    let enc_key = derive_key(&card_key, &seq, &DERIVATION_ENC);

    assert_eq!(enc_key.to_vec(), h("85e72aaf47874218a202bf5ef891dd21"));
}

#[test]
fn test_resize_key_24() {
    let key = key16("404142434445464748494a4b4c4d4e4f");
    let resized = resize_key(&key);

    assert_eq!(resized.to_vec(), h("404142434445464748494a4b4c4d4e4f4041424344454647"));
}

#[test]
fn test_verify_cryptogram() {
    let enc_key = key16("16b5867ff50be7239c2bf1245b83a362");
    let host_challenge: [u8; 8] = h("32da078d7aac1cff").try_into().unwrap();
    let sequence_counter: [u8; 2] = h("0072").try_into().unwrap();
    let card_challenge: [u8; 6] = h("84f64a7d6465").try_into().unwrap();
    let card_cryptogram = h("05c4bb8a86014e22");

    let result = calculate_cryptogram(&enc_key, &sequence_counter, &card_challenge, &host_challenge, false);
    assert_eq!(result.to_vec(), card_cryptogram);
}

#[test]
fn test_mac_full_3des() {
    let key = key16("5b02e75ad63190aece0622936f11abab");
    let data = h("8482010010810b098a8fbb88da");
    let result = mac_full_3des(&key, &[0u8; 8], &data);

    assert_eq!(result.to_vec(), h("5271d7174a5a166a"));
}

#[test]
fn crypto_derivation_purposes_and_sizes() {
    assert_eq!(DERIVATION_ENC, [0x01, 0x82]);
    assert_eq!(DERIVATION_MAC, [0x01, 0x01]);
    assert_eq!(Scp02::key_size(), 16);
    assert_eq!(Scp02::iv_size(), 8);
    let key = key16("404142434445464748494a4b4c4d4e4f");
    let seq: [u8; 2] = [0x00, 0x65];
    assert_ne!(derive_key(&key, &seq, &DERIVATION_ENC), derive_key(&key, &seq, &DERIVATION_MAC));
}

#[test]
fn encrypt_icv_changes_icv() {
    let key = key16("404142434445464748494a4b4c4d4e4f");
    let icv = [0x11u8; 8];
    let encrypted = encrypt_icv(&key, &icv);
    assert_ne!(encrypted, icv);
    assert_eq!(encrypt_icv(&key, &icv), encrypted);
}

#[test]
fn test_encode_length() {
    assert_eq!(encode_length(0x7F), vec![0x7F]);
    assert_eq!(encode_length(0x80), vec![0x81, 0x80]);
    assert_eq!(encode_length(0xFF), vec![0x81, 0xFF]);
    assert_eq!(encode_length(0x100), vec![0x82, 0x01, 0x00]);
    assert_eq!(encode_length(0xFFFF), vec![0x82, 0xFF, 0xFF]);
    assert_eq!(encode_length(0x10000), vec![0x83, 0x01, 0x00, 0x00]);
}

#[test]
fn load_stream_blocks_reassemble() {
    let data: Vec<u8> = (0..600u32).map(|i| (i % 251) as u8).collect();
    let mut stream = LoadCommandStream::from_load_file_data(data.clone());
    assert_eq!(stream.blocks_count(), 3);
    let mut gathered = Vec::new();
    let mut seen = Vec::new();
    while stream.has_next() {
        let (is_last, index, block) = stream.next_block().unwrap();
        seen.push((is_last, index, block.len()));
        gathered.extend_from_slice(block);
    }
    assert_eq!(gathered, data);
    assert_eq!(seen, vec![(false, 0, 247), (false, 1, 247), (true, 2, 106)]);
    assert_eq!(stream.current_block(), 3);
    assert!(stream.next_block().is_none());
}

#[test]
fn load_stream_from_components() {
    let components = vec![h("010203"), h("0405")];
    let mut stream = LoadCommandStream::from_components(&components);
    let (is_last, index, block) = stream.next_block().unwrap();
    assert!(is_last);
    assert_eq!(index, 0);
    assert_eq!(block, h("C405 0102030405").as_slice());
    assert!(!stream.has_next());
}

#[test]
fn cap_file_info_from_components() {
    let header = h("DECAFFED 0102 0304 0506 0708 00 07 A0000000620101 00");
    let applet = h("01 02 05 A000000001 03 B00001");
    let info = CapFileInfo::from_components(Some(&header), Some(&applet), vec!["Header.cap".to_string()]);
    assert_eq!(info.version, Some((0x01, 0x02)));
    assert_eq!(info.package_aid, Some(h("A0000000620101")));
    assert_eq!(info.applet_aids, vec![h("A000000001"), h("B00001")]);
    assert_eq!(info.files, vec!["Header.cap".to_string()]);

    let none = CapFileInfo::from_components(None, None, Vec::new());
    assert_eq!(none.package_aid, None);
    assert!(none.applet_aids.is_empty());
    assert_eq!(none.version, None);
}

#[test]
fn test_wrap_command() {
    let key = key16("404142434445464748494A4B4C4D4E4F");
    let mut wrapper = SCP02Wrapper::new(key);

    let command = Command::new(0x00, 0xA4, 0x04, 0x00).with_data(vec![0xA0, 0x00, 0x00, 0x01, 0x51, 0x00]).with_le(0);

    let wrapped = wrapper.wrap_command(&command);

    assert_eq!(wrapped.class(), 0x04);

    let wrapped_data = wrapped.data().expect("No data in wrapped command");
    assert_eq!(wrapped_data.len(), 14);
    assert_eq!(&wrapped_data[0..6], &[0xA0, 0x00, 0x00, 0x01, 0x51, 0x00]);
    assert_eq!(wrapped.expected_length(), Some(0));
}

#[test]
fn wrap_command_chains_mac_as_icv() {
    let key = key16("404142434445464748494A4B4C4D4E4F");
    let mut wrapper = SCP02Wrapper::new(key);
    assert_eq!(wrapper.icv(), &[0u8; 8]);
    let command = Command::new(0x80, 0xF2, 0x40, 0x02).with_data(vec![0x4F, 0x00]);
    let wrapped = wrapper.wrap_command(&command);
    let mac: Vec<u8> = wrapped.data().unwrap()[2..].to_vec();
    assert_eq!(wrapper.icv().to_vec(), mac);
    let expected = mac_full_3des(&key, &[0u8; 8], &h("84F240020A 4F00"));
    assert_eq!(mac, expected.to_vec());
    let second = wrapper.wrap_command(&command);
    assert_ne!(second.data().unwrap()[2..].to_vec(), mac);
}

#[test]
fn test_secure_channel_establish() {
    let transport = MockTransport::new(vec![
        vec![
            0x01, 0x02, 0x03, 0x04, 0x05, 0x06, 0x07, 0x08, 0x09, 0x0A, 0x01, 0x02, 0x00, 0x00, 0x00, 0x11, 0x22, 0x33,
            0x44, 0x55, 0x66, 0x77, 0x88, 0xAA, 0xBB, 0xCC, 0xDD, 0xEE, 0xFF, 0x00, 0x11, 0x90, 0x00,
        ],
        vec![0x90, 0x00],
    ]);

    let key = key16("404142434445464748494A4B4C4D4E4F");
    let keys = Keys::from_single_key(key);

    let mut sc_transport = GPSecureChannel::new(transport, keys);

    let result = sc_transport.open();

    assert!(result.is_err(), "Should fail with test mock cryptograms");
    assert!(!sc_transport.is_established());
}

#[test]
fn secure_channel_opens_with_card_cryptogram() {
    let keys = Keys::from_single_key(key16("404142434445464748494a4b4c4d4e4f"));
    let host_challenge: [u8; 8] = h("f0467f908e5ca23f").try_into().unwrap();
    let init = h("000002650183039536622002000de9c62ba1c4c8e55fcb91b6654ce49000");
    let transport = MockTransport::new(vec![init, vec![0x90, 0x00]]);
    let mut channel = GPSecureChannel::new(transport, keys);
    channel.open_with_challenge(host_challenge).unwrap();
    assert!(channel.is_established());
    assert!(channel.security_level().has_mac_protection());
    assert_eq!(channel.session().unwrap().host_challenge(), &host_challenge);
    let sent = &channel.transport().commands;
    assert_eq!(sent[0], [h("8050000008"), host_challenge.to_vec(), vec![0x00]].concat());
    assert_eq!(sent[1][0..5].to_vec(), h("8482010010"));
    channel.close().unwrap();
    assert!(!channel.is_established());
    assert!(channel.session().is_none());
    assert!(channel.upgrade(nexum_apdu::security::SecurityLevel::mac_protected()).is_err());
}

#[test]
fn test_session_new() {
    let keys = Keys::from_single_key(key16("404142434445464748494a4b4c4d4e4f"));
    let init_response = h("000002650183039536622002000de9c62ba1c4c8e55fcb91b6654ce49000");
    let host_challenge: [u8; 8] = h("f0467f908e5ca23f").try_into().unwrap();

    let response = InitializeUpdateResponse::from_bytes(&init_response).unwrap();
    let session = Session::from_response(&keys, &response, host_challenge);
    assert!(session.is_ok());

    let session = session.unwrap();
    assert_eq!(session.sequence_counter(), &[0x00, 0x0d]);
}

#[test]
fn test_session_bad_response() {
    let keys = Keys::from_single_key([0u8; 16]);
    let host_challenge: [u8; 8] = h("f0467f908e5ca23f").try_into().unwrap();

    let init_response = h("000002650183039536622001000de9c62ba1c4c8e55fcb91b6654ce49000");
    let response = InitializeUpdateResponse::from_bytes(&init_response).unwrap();
    let session = Session::from_response(&keys, &response, host_challenge);
    assert!(session.is_err());
    assert_eq!(session.unwrap_err(), Error::UnsupportedScpVersion(0x01));

    let init_response = h("000002650183039536622002000de9c62ba1c4c8e55fcb91b6654ce40000");
    let response = InitializeUpdateResponse::from_bytes(&init_response).unwrap();
    let session = Session::from_response(&keys, &response, host_challenge);
    assert!(session.is_err());
}

#[test]
fn test_keys_from_single_key() {
    let key = key16("404142434445464748494a4b4c4d4e4f");
    let keys = Keys::from_single_key(key);

    assert_eq!(keys.enc(), &key);
    assert_eq!(keys.mac(), &key);
    assert_eq!(Keys::default(), keys);
}

#[test]
fn test_find_tlv_value() {
    let data = h("4F07A000000003000084074143434F554E54");

    let aid = find_tlv_value(&data, 0x4F);
    assert_eq!(aid, Some(h("A0000000030000")));

    let label = find_tlv_value(&data, 0x84);
    assert_eq!(label, Some(h("4143434F554E54")));

    let missing = find_tlv_value(&data, 0x50);
    assert_eq!(missing, None);
}

#[test]
fn test_parse_tlvs() {
    let data = h("4F07A000000003000084074143434F554E54");

    let tlvs = parse_tlvs(&data);
    assert_eq!(tlvs.len(), 2);

    assert_eq!(tlvs[0].tag(), 0x4F);
    assert_eq!(tlvs[0].value(), &h("A0000000030000")[..]);

    assert_eq!(tlvs[1].tag(), 0x84);
    assert_eq!(tlvs[1].value(), &h("4143434F554E54")[..]);
}

#[test]
fn find_all_tlv_values_in_order() {
    let data = h("840101 4F00 840202 03");
    assert_eq!(find_all_tlv_values(&data, 0x84), vec![h("01"), h("0203")]);
    assert_eq!(find_all_tlv_values(&data, 0x4F), vec![Vec::<u8>::new()]);
    assert!(find_all_tlv_values(&data, 0x50).is_empty());
    // parsing stops at the first object that does not parse
    assert_eq!(parse_tlvs(&h("4F0101 0005")).len(), 1);
}

#[test]
fn store_data_and_put_key_error_variants() {
    assert_eq!(parse_store_data_response(&h("6A88")), Err(StoreDataError::ReferencedDataNotFound));
    assert_eq!(parse_store_data_response(&h("6982")), Err(StoreDataError::SecurityStatusNotSatisfied));
    assert_eq!(parse_store_data_response(&h("6F00")), Err(StoreDataError::UnknownStatus { sw1: 0x6F, sw2: 0x00 }));
    assert!(matches!(parse_store_data_response(&h("90")), Err(StoreDataError::Response(_))));
    assert_eq!(
        PutKeyResult::from_bytes(&h("6A80")).unwrap().into_inner(),
        Err(PutKeyError::WrongData)
    );
    assert!(PutKeyResult::from_bytes(&h("90")).is_err());
}

#[test]
fn protect_command_errors() {
    let keys = Keys::from_single_key(key16("404142434445464748494a4b4c4d4e4f"));
    let mut closed = GPSecureChannel::new(MockTransport::with_success(), keys);
    assert_eq!(closed.protect_command(&h("80CA006600")), Err(Error::NoSecureChannel));
    assert_eq!(closed.upgrade(nexum_apdu::security::SecurityLevel::none()), Err(Error::NoSecureChannel));

    let host_challenge: [u8; 8] = h("f0467f908e5ca23f").try_into().unwrap();
    let init = h("000002650183039536622002000de9c62ba1c4c8e55fcb91b6654ce49000");
    let mut channel = GPSecureChannel::new(MockTransport::new(vec![init, h("9000")]), keys);
    channel.open_with_challenge(host_challenge).unwrap();
    assert!(matches!(channel.protect_command(&h("80CA00")), Err(Error::Command(_))));
    let long = [h("80E20000F8"), vec![0u8; 248]].concat();
    assert_eq!(channel.protect_command(&long), Err(Error::InvalidLength { expected: 247, actual: 248 }));
    let protected = channel.protect_command(&h("80CA006600")).unwrap();
    assert_eq!(protected[0..5].to_vec(), h("84CA006608"));
    assert_eq!(protected.len(), 14);
    assert_eq!(channel.process_response(&h("019000")), Ok(h("019000")));
    assert_eq!(channel.upgrade(nexum_apdu::security::SecurityLevel::mac_protected()), Ok(()));
    assert!(matches!(channel.upgrade(nexum_apdu::security::SecurityLevel::encrypted()), Err(Error::Other(_))));
    assert!(matches!(channel.upgrade(nexum_apdu::security::SecurityLevel::authenticated()), Err(Error::Other(_))));
}

#[test]
fn session_requires_successful_initialize_update() {
    let keys = Keys::default();
    let response = InitializeUpdateResponse::from_bytes(&h("6982")).unwrap();
    assert_eq!(
        Session::from_response(&keys, &response, [0u8; 8]),
        Err(Error::InvalidResponse("Not a successful INITIALIZE UPDATE response"))
    );
    assert!(InitializeUpdateResponse::from_bytes(&h("0102 9000")).is_err());
}

#[test]
fn tlv_encoding_is_found_again() {
    let short = encode_tlv(0x84, &h("0102"));
    assert_eq!(short, h("84020102"));
    assert_eq!(find_tlv_value(&[short.as_slice(), &h("4F00")].concat(), 0x84), Some(h("0102")));
    let value = vec![0xAB; 300];
    let long = encode_tlv(0x50, &value);
    assert_eq!(long[0..4].to_vec(), h("50FF012C"));
    assert_eq!(find_tlv_value(&long, 0x50), Some(value));
}

#[test]
fn initialize_update_with_random_challenge() {
    let cmd = InitializeUpdateCommand::with_random_challenge();
    assert_eq!(cmd.class(), cla::GP);
    assert_eq!(cmd.instruction(), ins::INITIALIZE_UPDATE);
    assert_eq!(cmd.data().unwrap().len(), 8);
    assert_eq!(cmd.expected_length(), Some(0));
    assert_eq!(cmd.to_bytes()[0..5].to_vec(), h("8050000008"));
}

fn zip_archive(entries: &[(&str, Vec<u8>)]) -> Vec<u8> {
    let mut writer = zip::ZipWriter::new(std::io::Cursor::new(Vec::new()));
    let options = zip::write::SimpleFileOptions::default().compression_method(zip::CompressionMethod::Stored);
    for (name, data) in entries {
        writer.start_file(*name, options).unwrap();
        writer.write_all(data).unwrap();
    }
    writer.finish().unwrap().into_inner()
}

fn header_component() -> Vec<u8> {
    // tag, size, magic (4), minor 1, major 2 ... AID length at 13, AID from 14
    let mut header = vec![0x01, 0x00, 0x13, 0xDE, 0x01, 0x02, 0x00, 0x00, 0x00, 0x00, 0x00, 0x00, 0x00, 0x05];
    header.extend_from_slice(&h("A000000001"));
    header.push(0x00);
    header
}

#[test]
fn extract_info_reads_header_and_applet_entries() {
    let applet = h("0301 05A000000001 06A00000000101");
    let archive = zip_archive(&[
        ("Header.cap", header_component()),
        ("Applet.cap", applet),
        ("Class.cap", vec![0x06, 0x00]),
    ]);
    let info = LoadCommandStream::extract_info(&archive).unwrap();
    assert_eq!(info.files, vec!["Header.cap".to_string(), "Applet.cap".to_string(), "Class.cap".to_string()]);
    assert_eq!(info.version, Some((0x01, 0x02)));
    assert_eq!(info.package_aid, Some(h("A000000001")));
    assert_eq!(info.applet_aids, vec![h("A000000001")]);
}

#[test]
fn extract_info_without_components() {
    let archive = zip_archive(&[("README", b"text".to_vec())]);
    let info = LoadCommandStream::extract_info(&archive).unwrap();
    assert_eq!(info.files, vec!["README".to_string()]);
    assert_eq!(info.version, None);
    assert_eq!(info.package_aid, None);
    assert!(info.applet_aids.is_empty());
}

#[test]
fn archive_that_is_not_zip_is_refused() {
    let bytes = h("0102030405");
    assert_eq!(LoadCommandStream::extract_info(&bytes).unwrap_err(), Error::CapFile("Invalid ZIP file"));
    assert_eq!(LoadCommandStream::from_archive(&bytes).unwrap_err(), Error::CapFile("Invalid ZIP file"));
}

#[test]
fn load_stream_from_archive_takes_components_in_load_order() {
    let archive = zip_archive(&[
        ("Method.CAP", h("0708")),
        ("Header", h("0102")),
        ("Class.cap", h("0506")),
        ("Other.cap", h("FFFF")),
        ("Directory.cap", h("0304")),
    ]);
    let mut stream = LoadCommandStream::from_archive(&archive).unwrap();
    assert_eq!(stream.blocks_count(), 1);
    let (is_last, index, block) = stream.next_block().unwrap();
    assert!(is_last);
    assert_eq!(index, 0);
    assert_eq!(block, h("C408 0102 0304 0506 0708").as_slice());
    assert!(stream.next_block().is_none());
}

#[test]
fn load_stream_blocks_in_order() {
    let components = vec![vec![0xABu8; 600]];
    let mut stream = LoadCommandStream::from_components(&components);
    let data_len = 1 + 3 + 600;
    assert_eq!(stream.blocks_count(), (data_len + 246) / 247);
    let mut total = 0;
    let mut k = 0;
    while let Some((is_last, index, block)) = stream.next_block() {
        assert_eq!(index as usize, k);
        assert!(!block.is_empty() && block.len() <= 247);
        total += block.len();
        k += 1;
        assert_eq!(is_last, k == 3);
        assert_eq!(stream.current_block(), k);
    }
    assert_eq!(k, 3);
    assert_eq!(total, data_len);
    assert_eq!(stream.current_block(), 3);
}

fn corrupt(archive: &mut Vec<u8>, content: &[u8]) {
    let at = archive.windows(content.len()).position(|w| w == content).unwrap();
    archive[at + content.len() - 1] ^= 0xFF;
}

#[test]
fn unreadable_entry_outside_the_components_is_listed() {
    let junk = b"JUNKDATA-JUNKDATA".to_vec();
    let mut archive = zip_archive(&[("Header.cap", header_component()), ("Junk.bin", junk.clone())]);
    corrupt(&mut archive, &junk);
    let info = LoadCommandStream::extract_info(&archive).unwrap();
    assert_eq!(info.files, vec!["Header.cap".to_string(), "Junk.bin".to_string()]);
    assert_eq!(info.package_aid, Some(h("A000000001")));
    let mut stream = LoadCommandStream::from_archive(&archive).unwrap();
    let (_, _, block) = stream.next_block().unwrap();
    let mut expected = vec![0xC4, header_component().len() as u8];
    expected.extend_from_slice(&header_component());
    assert_eq!(block, expected.as_slice());
}

#[test]
fn unreadable_component_is_an_io_error() {
    let header = header_component();
    let mut archive = zip_archive(&[("Header.cap", header.clone()), ("Class.cap", h("0506"))]);
    corrupt(&mut archive, &header);
    assert_eq!(LoadCommandStream::extract_info(&archive).unwrap_err(), Error::Io);
    assert_eq!(LoadCommandStream::from_archive(&archive).unwrap_err(), Error::Io);
}

#[test]
fn entry_aid_takes_its_announced_length() {
    // Inside an entry, an AID announced as 9 bytes takes 9 bytes, the next byte included.
    let entry = h("4F09A000000003000001C50104C60301FF02");
    assert_eq!(find_tlv_value(&entry, 0x4F), Some(h("A000000003000001C5")));
}
