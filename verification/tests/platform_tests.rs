use nexum_apdu::application::{check_reply, card_data_from_reply, GlobalPlatform};
use nexum_apdu::error::{ResponseError, SecureProtocolError};
use nexum_apdu::executor::CardExecutor;
use nexum_apdu::gp_error::Error;
use nexum_apdu::gp_responses::{DeleteResponse, InstallResponse, SelectResponse};
use nexum_apdu::load::{CapFileInfo, LoadCommandStream};
use nexum_apdu::secure_channel::GPSecureChannel;
use nexum_apdu::session::Keys;
use nexum_apdu::status::StatusWord;
use nexum_apdu::transport::MockTransport;

fn h(s: &str) -> Vec<u8> {
    hex::decode(s.replace(' ', "")).unwrap()
}

fn platform(responses: Vec<Vec<u8>>) -> GlobalPlatform<MockTransport> {
    let transport = MockTransport::new(responses);
    let executor = CardExecutor::new(GPSecureChannel::new(transport, Keys::default()));
    GlobalPlatform::new(executor)
}

fn sent(gp: &GlobalPlatform<MockTransport>) -> Vec<Vec<u8>> {
    gp.executor().transport().transport().commands.clone()
}

/// Opens the channel with the host challenge for which the INITIALIZE UPDATE answer below
/// carries a valid card cryptogram.
fn open_known_channel(gp: &mut GlobalPlatform<MockTransport>) {
    let host_challenge: [u8; 8] = h("f0467f908e5ca23f").try_into().unwrap();
    gp.executor_mut().transport_mut().open_with_challenge(host_challenge).unwrap();
}

fn init_update_and_auth() -> Vec<Vec<u8>> {
    vec![h("000002650183039536622002000de9c62ba1c4c8e55fcb91b6654ce49000"), h("9000")]
}

#[test]
fn test_select_card_manager() {
    let mut gp = platform(vec![h("6F 10 84 08 A0 00 00 01 51 00 00 00 A5 04 9F 65 01 FF 90 00")]);
    let result = gp.select_card_manager();
    assert!(result.is_ok());
    assert_eq!(sent(&gp)[0], h("00A4040008A00000015100000000"));
    assert_eq!(gp.last_response(), Some(h("6F108408A000000151000000A5049F6501FF9000").as_slice()));
}

#[test]
fn select_application_not_found() {
    let mut gp = platform(vec![h("6A82")]);
    let result = gp.select_application(&h("A0000000030000"));
    assert_eq!(result, Err(Error::CardStatus(StatusWord::new(0x6A, 0x82))));
    assert_eq!(gp.last_response(), Some(h("6A82").as_slice()));
}

#[test]
fn select_application_short_reply() {
    let mut gp = platform(vec![h("90")]);
    let result = gp.select_application(&h("A0000000030000"));
    assert_eq!(result, Err(Error::Response(ResponseError::Incomplete)));
}

#[test]
fn select_application_transport_error_keeps_last_response() {
    let mut gp = platform(Vec::new());
    let result = gp.select_application(&h("A0000000030000"));
    assert!(matches!(result, Err(Error::Transport(_))));
    assert_eq!(gp.last_response(), None);
}

#[test]
fn delete_requires_mac_protection() {
    let mut gp = platform(vec![h("9000")]);
    let result = gp.delete_object(&h("A0000000030000"));
    assert_eq!(result, Err(Error::SecureProtocol(SecureProtocolError::InsufficientSecurityLevel)));
    assert!(sent(&gp).is_empty());
}

#[test]
fn delete_over_secure_channel() {
    let mut responses = init_update_and_auth();
    responses.push(h("9000"));
    responses.push(h("6A88"));
    let mut gp = platform(responses);
    open_known_channel(&mut gp);
    assert_eq!(gp.delete_object(&h("A0000000030000")), Ok(DeleteResponse::Success));
    let commands = sent(&gp);
    // C-MAC protected DELETE: CLA 84, data 4F07<aid> followed by the 8-byte MAC
    assert_eq!(commands[2][0..5].to_vec(), h("84E4000011"));
    assert_eq!(commands[2][5..14].to_vec(), h("4F07A0000000030000"));
    assert_eq!(
        gp.delete_object_and_related(&h("A0000000030000")),
        Err(Error::CardStatus(StatusWord::new(0x6A, 0x88)))
    );
}

#[test]
fn get_status_of_applications_and_load_files() {
    let mut gp = platform(vec![h("E3094F07A0000000030000 9000"), h("6A88")]);
    let apps = gp.get_applications_status().unwrap();
    assert_eq!(apps.tlv_data(), Some(h("E3094F07A0000000030000").as_slice()));
    assert_eq!(apps.parse_applications()[0].aid, h("A0000000030000"));
    assert_eq!(sent(&gp)[0], h("80F24002024F00"));
    assert_eq!(gp.get_load_files_status().unwrap_err(), Error::CardStatus(StatusWord::new(0x6A, 0x88)));
    assert_eq!(sent(&gp)[1], h("80F22002024F00"));
}

#[test]
fn install_for_load_uses_issuer_security_domain() {
    let mut gp = platform(vec![h("9000")]);
    assert_eq!(gp.install_for_load(&h("A0000000620101"), None), Ok(InstallResponse::Success));
    assert_eq!(sent(&gp)[0], h("80E602001407A000000062010108A000000151000000000000"));
}

#[test]
fn install_for_install_and_make_selectable_sends_no_privileges() {
    let mut gp = platform(vec![h("6985")]);
    let result = gp.install_for_install_and_make_selectable(&h("A0"), &h("B0"), &h("C0"), &[]);
    assert_eq!(result, Err(Error::CardStatus(StatusWord::new(0x69, 0x85))));
    assert_eq!(sent(&gp)[0], h("80E60C000C 01A0 01B0 01C0 0100 02C900 00"));
}

#[test]
fn install_applet_checks_cap_information() {
    let mut gp = platform(vec![h("9000")]);
    let mut stream = LoadCommandStream::from_load_file_data(h("C40101"));
    let no_package = CapFileInfo { package_aid: None, applet_aids: vec![h("A0")], version: None, files: Vec::new() };
    assert_eq!(gp.install_applet(&no_package, &mut stream, 0), Err(Error::CapFile("Package AID not found")));
    let info = CapFileInfo { package_aid: Some(h("A0")), applet_aids: vec![h("A001")], version: None, files: Vec::new() };
    assert_eq!(gp.install_applet(&info, &mut stream, 1), Err(Error::CapFile("Invalid applet index")));
    let empty = CapFileInfo { package_aid: Some(h("A0")), applet_aids: Vec::new(), version: None, files: Vec::new() };
    assert_eq!(gp.install_all_applets(&empty, &mut stream), Err(Error::CapFile("No applets found in CAP file")));
    assert!(sent(&gp).is_empty());
}

#[test]
fn install_applet_loads_and_installs() {
    let mut responses = init_update_and_auth();
    responses.push(h("9000"));
    let mut gp = platform(responses);
    open_known_channel(&mut gp);
    let data: Vec<u8> = vec![0x5A; 300];
    let mut stream = LoadCommandStream::from_load_file_data(data);
    let info = CapFileInfo { package_aid: Some(h("A0000000620101")), applet_aids: vec![h("A000000062010101")], version: None, files: Vec::new() };
    gp.install_applet(&info, &mut stream, 0).unwrap();
    assert!(!stream.has_next());
    let commands = sent(&gp);
    // INITIALIZE UPDATE, EXTERNAL AUTHENTICATE, INSTALL [for load], two LOAD blocks, INSTALL
    assert_eq!(commands.len(), 6);
    assert_eq!(commands[2][0..4].to_vec(), h("84E60200"));
    assert_eq!(commands[3][0..4].to_vec(), h("84E80000"));
    assert_eq!(commands[4][0..4].to_vec(), h("84E88001"));
    assert_eq!(commands[5][0..4].to_vec(), h("84E60C00"));
}

#[test]
fn load_fails_on_refused_block() {
    let mut responses = init_update_and_auth();
    responses.push(h("6A80"));
    let mut gp = platform(responses);
    open_known_channel(&mut gp);
    let mut stream = LoadCommandStream::from_load_file_data(vec![0x01; 10]);
    assert_eq!(gp.load_next_block(&mut stream), Err(Error::Other("Load failed")));
    assert_eq!(gp.load_next_block(&mut stream), Ok(false));
}

#[test]
fn load_without_secure_channel_is_refused() {
    let mut gp = platform(vec![h("9000")]);
    let mut stream = LoadCommandStream::from_load_file_data(vec![0x01; 10]);
    assert_eq!(
        gp.load_stream(&mut stream),
        Err(Error::SecureProtocol(SecureProtocolError::InsufficientSecurityLevel))
    );
}

#[test]
fn personalize_application_outcomes() {
    let mut gp = platform(vec![h("9000"), h("6A80")]);
    assert_eq!(gp.personalize_application(&h("A000000151"), &h("0102")), Ok(()));
    assert_eq!(sent(&gp)[0], h("80E620000D 0000 05A000000151 00 020102 00"));
    assert_eq!(gp.personalize_application(&h("A000000151"), &h("0102")), Err(Error::Other("Personalization failed")));
}

#[test]
fn card_data_reply_outcomes() {
    assert_eq!(card_data_from_reply(&h("6601029000")), Ok(h("660102")));
    assert_eq!(card_data_from_reply(&h("6A88")), Err(Error::CardStatus(StatusWord::new(0x6A, 0x88))));
    assert_eq!(card_data_from_reply(&h("90")), Err(Error::Other("Invalid response")));
    assert_eq!(check_reply(&h("019000")), Ok(()));
    assert_eq!(check_reply(&h("6982")), Err(Error::CardStatus(StatusWord::new(0x69, 0x82))));
    assert_eq!(check_reply(&[]), Err(Error::Response(ResponseError::Incomplete)));
}

#[test]
fn get_card_data_needs_a_secure_channel() {
    // The card cryptogram cannot match a random host challenge, so opening fails
    let mut gp = platform(init_update_and_auth());
    assert!(matches!(gp.get_card_data(), Err(Error::AuthenticationFailed(_))));
}

#[test]
fn close_secure_channel_resets_executor() {
    let mut responses = init_update_and_auth();
    responses.push(h("9000"));
    let mut gp = platform(responses);
    open_known_channel(&mut gp);
    assert!(gp.executor().transport().is_established());
    gp.close_secure_channel().unwrap();
    assert!(!gp.executor().transport().is_established());
    assert!(gp.session().is_none());
    assert!(gp.executor().processors().is_empty());
}

#[test]
fn select_response_kinds() {
    let mut gp = platform(vec![h("6F00 9000")]);
    let r = gp.select_application(&h("A0")).unwrap();
    assert!(matches!(r, SelectResponse::Success { .. }));
    assert_eq!(r.fci(), h("6F00").as_slice());
}
