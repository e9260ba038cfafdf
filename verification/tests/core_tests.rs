use nexum_apdu::command::Command;
use nexum_apdu::error::{ExecutionError, ProcessorError, ResponseError, SecureProtocolError, StatusError, TransportError};
use nexum_apdu::executor::{CardExecutor, Processor, ResponseAwareExecutor};
use nexum_apdu::processor::{BaseSecureChannel, CommandProcessor, GetResponseProcessor, IdentityProcessor, SecureChannel};
use nexum_apdu::response::{extract_response_parts, extract_status_and_payload, Response};
use nexum_apdu::security::SecurityLevel;
use nexum_apdu::status::{StatusWord, TraceLevel};
use nexum_apdu::transport::{CardTransport, MockTransport};

#[test]
fn test_status_word_from_to_u16() {
    let sw = StatusWord::from_u16(0x9000);
    assert_eq!(sw.sw1, 0x90);
    assert_eq!(sw.sw2, 0x00);
    assert_eq!(sw.to_u16(), 0x9000);
}

#[test]
fn test_status_word_is_methods() {
    assert!(StatusWord::new(0x90, 0x00).is_success());
    assert!(StatusWord::new(0x61, 0x10).is_more_data_available());
    assert!(StatusWord::new(0x62, 0x83).is_warning());
    assert!(StatusWord::new(0x67, 0x00).is_wrong_length());
    assert!(StatusWord::new(0x69, 0x82).is_security_condition_not_satisfied());
    assert!(StatusWord::new(0x6A, 0x82).is_file_not_found());
    assert!(StatusWord::new(0x6A, 0x86).is_incorrect_p1p2());
    assert!(StatusWord::new(0x6A, 0x88).is_incorrect_parameters());
}

#[test]
fn test_status_word_remaining_bytes() {
    assert_eq!(StatusWord::new(0x61, 0x15).remaining_bytes(), Some(0x15));
    assert_eq!(StatusWord::new(0x90, 0x00).remaining_bytes(), None);
}

#[test]
fn test_status_word_description() {
    assert_eq!(StatusWord::new(0x90, 0x00).description(), "Success");
    assert_eq!(StatusWord::new(0x61, 0x15).description(), "More data available");
    assert_eq!(StatusWord::new(0x6A, 0x82).description(), "File not found");
    assert_eq!(StatusWord::new(0x69, 0x82).description(), "Security status not satisfied");
}

#[test]
fn status_word_conversions_roundtrip() {
    for value in [0x0000u16, 0x9000, 0x6A82, 0x61FF, 0xFFFF] {
        let sw = StatusWord::from(value);
        assert_eq!(u16::from(sw), value);
        assert_eq!(StatusWord::from((sw.sw1, sw.sw2)), sw);
    }
    assert_eq!(StatusWord::from((0x6Au8, 0x82u8)).to_u16(), 0x6A82);
}

#[test]
fn status_word_classes_and_levels() {
    assert!(StatusWord::new(0x61, 0x00).is_normal_processing());
    assert!(!StatusWord::new(0x62, 0x00).is_normal_processing());
    assert!(StatusWord::new(0x69, 0x86).is_command_not_allowed());
    assert!(!StatusWord::new(0x90, 0x00).is_warning());
    assert_eq!(StatusWord::new(0x90, 0x00).tracing_level(), TraceLevel::Debug);
    assert_eq!(StatusWord::new(0x63, 0xC1).tracing_level(), TraceLevel::Info);
    assert_eq!(StatusWord::new(0x6D, 0x00).tracing_level(), TraceLevel::Warn);
    assert_eq!(StatusWord::new(0x63, 0xC2).description(), "Counter value");
    assert_eq!(StatusWord::new(0x12, 0x34).description(), "Unknown status word");
}

#[test]
fn test_extract_response_parts() {
    let data = [0x01, 0x02, 0x03, 0x90, 0x00];
    let result = extract_response_parts(&data).unwrap();
    assert_eq!(result.0, (0x90, 0x00));
    assert_eq!(result.1, &[0x01, 0x02, 0x03]);

    let data = [0x90, 0x00];
    let result = extract_response_parts(&data).unwrap();
    assert_eq!(result.0, (0x90, 0x00));
    assert_eq!(result.1, &[] as &[u8]);

    let data = [0x90];
    assert!(extract_response_parts(&data).is_err());
}

#[test]
fn test_extract_status_and_payload() {
    let data = [0x01, 0x02, 0x03, 0x90, 0x00];
    let result = extract_status_and_payload(&data).unwrap();
    assert_eq!(result.0, StatusWord::new(0x90, 0x00));
    assert_eq!(result.1, &[0x01, 0x02, 0x03]);

    let data = [0x90, 0x00];
    let result = extract_status_and_payload(&data).unwrap();
    assert_eq!(result.0, StatusWord::new(0x90, 0x00));
    assert_eq!(result.1, &[] as &[u8]);
}

#[test]
fn extract_status_and_payload_incomplete() {
    assert_eq!(extract_status_and_payload(&[]), Err(ResponseError::Incomplete));
    assert_eq!(extract_status_and_payload(&[0x6A]), Err(ResponseError::Incomplete));
}

#[test]
fn test_response_creation() {
    let resp = Response::new(Some(vec![0x01, 0x02, 0x03]), StatusWord::from((0x90, 0x00)));
    assert_eq!(resp.payload(), &Some(vec![0x01, 0x02, 0x03]));
    assert_eq!(resp.status(), StatusWord::new(0x90, 0x00));
    assert!(resp.is_success());
}

#[test]
fn test_response_from_bytes() {
    let resp = Response::from_bytes(&[0x01, 0x02, 0x03, 0x90, 0x00]).unwrap();
    assert_eq!(resp.payload().as_ref().unwrap().as_slice(), &[0x01, 0x02, 0x03]);
    assert_eq!(resp.status(), StatusWord::new(0x90, 0x00));
    assert!(resp.is_success());

    let resp = Response::from_bytes(&[0x90, 0x00]).unwrap();
    assert!(resp.payload().is_none());
    assert_eq!(resp.status(), StatusWord::new(0x90, 0x00));
    assert!(resp.is_success());

    assert!(Response::from_bytes(&[0x01]).is_err());
}

#[test]
fn test_response_into_result() {
    let success = Response::success(Some(vec![0x01, 0x02, 0x03]));
    let result = success.into_bytes_result();
    assert!(result.is_ok());
    assert_eq!(result.unwrap().as_ref(), Some(&vec![0x01, 0x02, 0x03]));

    let error = Response::error(StatusWord::from((0x6A, 0x82)));
    let result = error.into_bytes_result();
    assert!(result.is_err());
    assert_eq!(result.unwrap_err().status.to_u16(), 0x6A82);
}

#[test]
fn response_bytes_roundtrip() {
    let raw = [0xDE, 0xAD, 0x61, 0x10];
    let resp = Response::from_bytes(&raw).unwrap();
    assert_eq!(resp.status_tuple(), (0x61, 0x10));
    assert_eq!(resp.to_bytes(), raw.to_vec());
    assert_eq!(Response::from_bytes(&resp.to_bytes()).unwrap(), resp);
    let err = resp.as_bytes_result().unwrap_err();
    assert_eq!(err, ResponseError::Status(StatusError::new(0x61, 0x10)));
    assert_eq!(Response::success(None).to_bytes(), vec![0x90, 0x00]);
}

#[test]
fn command_bytes_roundtrip() {
    let cmd = Command::new(0x00, 0xA4, 0x04, 0x00).with_data(vec![0xA0, 0x00, 0x00, 0x01]).with_le(0x00);
    let bytes = cmd.to_bytes();
    assert_eq!(bytes, vec![0x00, 0xA4, 0x04, 0x00, 0x04, 0xA0, 0x00, 0x00, 0x01, 0x00]);
    let back = Command::from_bytes(&bytes).unwrap();
    assert_eq!(back.to_bytes(), bytes);
    assert_eq!(back.data(), Some(&[0xA0u8, 0x00, 0x00, 0x01][..]));
    assert_eq!(back.expected_length(), Some(0));

    let header_only = Command::from_bytes(&[0x80, 0xCA, 0x00, 0x66]).unwrap();
    assert_eq!(header_only.data(), None);
    assert_eq!(header_only.expected_length(), None);
    assert!(Command::from_bytes(&[0x80, 0xCA, 0x00]).is_err());
    assert!(Command::from_bytes(&[0x80, 0xCA, 0x00, 0x00, 0x05, 0x01]).is_err());
}

#[test]
fn test_reexports() {
    let cmd = Command::new(0x00, 0xA4, 0x04, 0x00);
    assert_eq!(cmd.class(), 0x00);
    assert_eq!(cmd.instruction(), 0xA4);
    assert_eq!(cmd.p1(), 0x04);
    assert_eq!(cmd.p2(), 0x00);

    let resp = Response::success(Some(vec![0x01, 0x02, 0x03]));
    assert!(resp.is_success());
    assert_eq!(resp.payload().as_deref(), Some(&[0x01u8, 0x02, 0x03][..]));
    assert_eq!(resp.status(), StatusWord::new(0x90, 0x00));
}

#[test]
fn test_identity_processor() {
    let mut transport = MockTransport::with_response(vec![0x90, 0x00]);
    let mut processor = IdentityProcessor;

    let command = Command::new(0x00, 0xA4, 0x04, 0x00);
    let response = processor.process_command(&command, &mut transport).unwrap();

    assert_eq!(response.status().to_u16(), 0x9000);
    assert_eq!(transport.commands[0], command.to_bytes());
}

#[test]
fn test_get_response_processor() {
    let mut transport = MockTransport::new(Vec::new());
    transport.responses.push(vec![0x61, 0x05]);
    transport.responses.push(vec![0x01, 0x02, 0x03, 0x04, 0x05, 0x90, 0x00]);

    let mut processor = GetResponseProcessor::default();

    let command = Command::new(0x00, 0xB0, 0x00, 0x00);
    let response = processor.process_command(&command, &mut transport).unwrap();

    assert_eq!(response.payload().as_deref(), Some(&[0x01u8, 0x02, 0x03, 0x04, 0x05][..]));
    assert_eq!(response.status().to_u16(), 0x9000);

    assert_eq!(transport.commands[0], command.to_bytes());
    let get_resp_cmd = Command::new(0x00, 0xC0, 0x00, 0x00).with_le(5);
    assert_eq!(transport.commands[1], get_resp_cmd.to_bytes());
}

#[test]
fn get_response_processor_concatenates_chain() {
    let mut transport = MockTransport::new(vec![
        vec![0xAA, 0x61, 0x02],
        vec![0xBB, 0xCC, 0x61, 0x01],
        vec![0xDD, 0x90, 0x00],
    ]);
    let mut processor = GetResponseProcessor::new(10);
    let command = Command::new(0x00, 0xB0, 0x00, 0x00);
    let response = processor.process_command(&command, &mut transport).unwrap();
    assert_eq!(response.payload().as_deref(), Some(&[0xAAu8, 0xBB, 0xCC, 0xDD][..]));
    assert!(response.is_success());
    assert_eq!(transport.commands.len(), 3);
}

#[test]
fn get_response_processor_chain_limit() {
    let mut transport = MockTransport::new(vec![vec![0x61, 0x01], vec![0x01, 0x61, 0x01], vec![0x02, 0x90, 0x00]]);
    let mut processor = GetResponseProcessor::new(1);
    let command = Command::new(0x00, 0xB0, 0x00, 0x00);
    let result = processor.process_command(&command, &mut transport);
    assert_eq!(result.unwrap_err(), ProcessorError::ChainLimitExceeded);
}

#[test]
fn identity_processor_reports_transport_error() {
    let mut transport = MockTransport::new(Vec::new());
    let mut processor = IdentityProcessor;
    let command = Command::new(0x00, 0xA4, 0x04, 0x00);
    let result = processor.process_command(&command, &mut transport);
    assert_eq!(result.unwrap_err(), ProcessorError::Transport(TransportError::Transmission));
}

#[test]
fn mod_test_executor_basic_transmit() {
    let transport = MockTransport::with_response(vec![0x90, 0x00]);
    let mut executor: CardExecutor<MockTransport> = CardExecutor::new(transport);
    let response = executor.transmit_raw(&[0x00, 0xA4, 0x04, 0x00]).unwrap();
    assert_eq!(response.as_slice(), &[0x90, 0x00]);
}

#[test]
fn mod_test_executor_with_processor() {
    let transport = MockTransport::with_response(vec![0x90, 0x00]);
    let mut executor: CardExecutor<MockTransport> = CardExecutor::new(transport);
    executor.add_processor(Processor::Identity(IdentityProcessor));
    let response = executor.transmit_raw(&[0x00, 0xA4, 0x04, 0x00]).unwrap();
    assert_eq!(response.as_slice(), &[0x90, 0x00]);
}

#[test]
fn card_test_executor_basic_transmit() {
    let transport = MockTransport::with_response(vec![0x90, 0x00]);
    let mut executor = CardExecutor::new(transport);
    let response = executor.transmit_raw(&[0x00, 0xA4, 0x04, 0x00]).unwrap();
    assert_eq!(response.as_slice(), &[0x90, 0x00]);
}

#[test]
fn card_test_executor_with_processor() {
    let transport = MockTransport::with_response(vec![0x90, 0x00]);
    let mut executor = CardExecutor::new(transport);
    executor.add_processor(Processor::Identity(IdentityProcessor));
    let response = executor.transmit_raw(&[0x00, 0xA4, 0x04, 0x00]).unwrap();
    assert_eq!(response.as_slice(), &[0x90, 0x00]);
}

#[test]
fn executor_remembers_last_response_and_resets() {
    let transport = MockTransport::new(vec![vec![0x61, 0x02], vec![0x01, 0x02, 0x90, 0x00]]);
    let mut executor = CardExecutor::new_with_defaults(transport);
    assert_eq!(executor.processors().len(), 1);
    assert!(CardExecutor::last_response(&executor).is_none());
    let response = executor.transmit(&Command::new(0x00, 0xB0, 0x00, 0x00)).unwrap();
    assert_eq!(response.payload().as_deref(), Some(&[0x01u8, 0x02][..]));
    assert_eq!(CardExecutor::last_response(&executor), Some(&vec![0x01, 0x02, 0x90, 0x00]));
    assert_eq!(ResponseAwareExecutor::last_response(&executor).unwrap(), &vec![0x01, 0x02, 0x90, 0x00]);
    executor.reset().unwrap();
    assert!(executor.processors().is_empty());
    assert!(CardExecutor::last_response(&executor).is_none());
    assert!(ResponseAwareExecutor::last_response(&executor).is_err());
}

#[test]
fn executor_refuses_insufficient_security() {
    let transport = MockTransport::with_success();
    let mut executor = CardExecutor::new(transport);
    let command = Command::new(0x80, 0xE4, 0x00, 0x00);
    let result = executor.execute(&command, SecurityLevel::mac_protected());
    assert!(matches!(
        result,
        Err(nexum_apdu::error::Error::SecureProtocol(SecureProtocolError::InsufficientSecurityLevel))
    ));
    assert!(executor.transport().commands.is_empty());
    let ok = executor.execute(&command, SecurityLevel::none()).unwrap();
    assert!(ok.is_success());
    assert_eq!(executor.security_level(), SecurityLevel::none());
}

#[test]
fn base_secure_channel_lifecycle() {
    let mut channel = BaseSecureChannel::new();
    assert!(!SecureChannel::is_established(&channel));
    channel.set_session_data(vec![0x01, 0x02]);
    channel.set_established(true);
    assert!(SecureChannel::is_established(&channel));
    assert_eq!(channel.session_data(), Some(&vec![0x01, 0x02]));
    SecureChannel::close(&mut channel).unwrap();
    assert!(!channel.is_established());
    assert_eq!(channel.session_data(), None);
    assert!(matches!(
        SecureChannel::reestablish(&mut channel),
        Err(ProcessorError::SecureChannel(SecureProtocolError::Session(_)))
    ));
}

#[test]
fn execution_error_helpers() {
    let e = ExecutionError::Status(StatusError::new(0x6A, 0x82));
    assert!(e.has_status());
    assert_eq!(e.status_word(), Some(StatusWord::new(0x6A, 0x82)));
    assert!(e.has_status_code(0x6A82));
    assert!(!e.has_status_code(0x9000));
    let c = ExecutionError::command_error("bad");
    assert!(!c.has_status());
    assert_eq!(c.status_word(), None);
    assert_eq!(ExecutionError::chain_error("x"), ExecutionError::Chain("x"));
    assert_eq!(ExecutionError::other("oops".to_string()), ExecutionError::Other("oops".to_string()));
    assert_eq!(ResponseError::status(0x69, 0x82), ResponseError::Status(StatusError::new(0x69, 0x82)));
}

#[test]
fn mock_transport_behaviour() {
    let mut transport = MockTransport::new(vec![vec![0x01], vec![0x02]]);
    assert!(transport.is_connected());
    assert_eq!(transport.transmit_raw(&[0xAA]).unwrap(), vec![0x01]);
    assert_eq!(transport.transmit_raw(&[0xBB]).unwrap(), vec![0x02]);
    assert_eq!(transport.transmit_raw(&[0xCC]).unwrap(), vec![0x02]);
    assert_eq!(transport.commands.len(), 3);
    transport.reset().unwrap();
    assert!(transport.commands.is_empty());
    transport.connected = false;
    assert_eq!(transport.transmit_raw(&[0xDD]), Err(TransportError::Connection));
}

#[test]
fn get_response_processor_short_replies() {
    let mut processor = GetResponseProcessor::default();
    let command = Command::new(0x00, 0xB0, 0x00, 0x00);
    let mut transport = MockTransport::with_response(vec![0x90]);
    assert_eq!(
        processor.process_command(&command, &mut transport).unwrap_err(),
        ProcessorError::InvalidResponse("Response too short")
    );
    let mut transport = MockTransport::new(vec![vec![0x61, 0x04], vec![0x01]]);
    assert_eq!(
        processor.process_command(&command, &mut transport).unwrap_err(),
        ProcessorError::InvalidResponse("GET RESPONSE returned incomplete data")
    );
}

#[test]
fn security_levels_order() {
    let levels = [
        SecurityLevel::none(),
        SecurityLevel::authenticated(),
        SecurityLevel::mac_protected(),
        SecurityLevel::authenticated_mac(),
        SecurityLevel::encrypted(),
        SecurityLevel::authenticated_encrypted(),
        SecurityLevel::full_security(),
    ];
    for a in &levels {
        assert!(a.satisfies(a));
        assert!(a.satisfies(&SecurityLevel::none()));
        assert!(SecurityLevel::full_security().satisfies(a));
        assert_eq!(a.cmp(a), std::cmp::Ordering::Equal);
        assert!(a.with_mac_protection().satisfies(a));
        for b in &levels {
            if a.satisfies(b) {
                assert!(a.strength() >= b.strength());
            }
            assert_eq!(a.cmp(b), b.cmp(a).reverse());
            assert_eq!(a.partial_cmp(b), Some(a.cmp(b)));
        }
    }
    assert!(!SecurityLevel::mac_protected().satisfies(&SecurityLevel::encrypted()));
    assert!(SecurityLevel::encrypted().has_mac_protection());
    assert!(SecurityLevel::none().is_none());
    assert_eq!(SecurityLevel::none().with_encryption(), SecurityLevel::encrypted());
    assert_eq!(SecurityLevel::none().with_authentication(), SecurityLevel::authenticated());
    assert_eq!(SecurityLevel::default(), SecurityLevel::none());
}

#[test]
fn get_response_processor_without_chains_sends_one_command() {
    let mut transport = MockTransport::new(vec![vec![0x61, 0x05], vec![0x01, 0x90, 0x00]]);
    let mut processor = GetResponseProcessor::new(0);
    let command = Command::new(0x00, 0xB0, 0x00, 0x00);
    let result = processor.process_command(&command, &mut transport);
    assert_eq!(result.unwrap_err(), ProcessorError::ChainLimitExceeded);
    assert_eq!(transport.commands.len(), 1);
}

#[test]
fn get_response_processor_limit_counts_replies() {
    let mut transport = MockTransport::new(vec![vec![0x61, 0x01], vec![0x0A, 0x61, 0x01], vec![0x0B, 0x61, 0x07]]);
    let mut processor = GetResponseProcessor::new(2);
    let command = Command::new(0x00, 0xB0, 0x00, 0x00);
    let result = processor.process_command(&command, &mut transport);
    assert_eq!(result.unwrap_err(), ProcessorError::ChainLimitExceeded);
    assert_eq!(transport.commands.len(), 3);
    assert_eq!(transport.commands[1], vec![0x00, 0xC0, 0x00, 0x00, 0x01]);
    assert_eq!(transport.commands[2], vec![0x00, 0xC0, 0x00, 0x00, 0x01]);
}

#[test]
fn security_level_default_is_none() {
    let n = SecurityLevel::none();
    assert_eq!(n, SecurityLevel::default());
    assert!(!n.is_authenticated());
    assert!(!n.has_mac_protection());
    assert!(!n.is_encrypted());
}

#[test]
fn executor_passes_through_active_processor() {
    let mut executor = CardExecutor::new(MockTransport::new(vec![vec![0x61, 0x02], vec![0x12, 0x34, 0x90, 0x00]]));
    executor.add_processor(Processor::GetResponse(GetResponseProcessor::new(3)));
    let reply = executor.transmit_raw(&[0x00, 0xB0, 0x00, 0x00]).unwrap();
    assert_eq!(reply, vec![0x12, 0x34, 0x90, 0x00]);
    assert_eq!(executor.last_response(), Some(&vec![0x12, 0x34, 0x90, 0x00]));
    assert_eq!(executor.transport().commands.len(), 2);
}
