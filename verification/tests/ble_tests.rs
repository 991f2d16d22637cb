use deskpi::ble::{
    connect_command, disconnect_command, list_devices_command, parse_device_list,
    parse_status_response, status_command, MacAddress, ParseError,
};
use deskpi::switch::{SwitchAction, SwitchEvent, SwitchPhase, SwitchSession};

fn mac(octets: [u8; 6]) -> MacAddress {
    MacAddress { octets }
}

#[test]
fn device_list_with_two_addresses_parses_exactly() {
    // data_length = 13: one status byte plus two 6-byte addresses.
    let resp: Vec<u8> = vec![
        0x09, 0x01, 13, 0x00, 1, 2, 3, 4, 5, 6, 7, 8, 9, 10, 11, 12,
    ];
    let addrs = parse_device_list(&resp).unwrap();
    assert_eq!(addrs.len(), 2);
    assert_eq!(addrs[0].octets, [1, 2, 3, 4, 5, 6]);
    assert_eq!(addrs[1].octets, [7, 8, 9, 10, 11, 12]);
}

#[test]
fn device_list_with_no_addresses_parses_empty() {
    let resp: Vec<u8> = vec![0x09, 0x01, 1, 0x00];
    assert_eq!(parse_device_list(&resp).unwrap().len(), 0);
}

#[test]
fn device_list_errors_name_what_was_wrong() {
    assert_eq!(parse_device_list(&vec![0x09, 0x01, 13]), Err(ParseError::TooShort));
    assert_eq!(
        parse_device_list(&vec![0x08, 0x01, 1, 0x00]),
        Err(ParseError::UnexpectedTag)
    );
    assert_eq!(
        parse_device_list(&vec![0x09, 0x02, 1, 0x00]),
        Err(ParseError::UnexpectedTag)
    );
    // data_length that does not cover whole addresses.
    assert_eq!(
        parse_device_list(&vec![0x09, 0x01, 12, 0, 1, 2, 3, 4, 5, 6, 7, 8, 9, 10, 11]),
        Err(ParseError::BadLength)
    );
    // data_length contradicting the envelope size.
    assert_eq!(
        parse_device_list(&vec![0x09, 0x01, 7, 0x00, 1, 2, 3]),
        Err(ParseError::BadLength)
    );
}

#[test]
fn status_response_reports_connectedness() {
    assert_eq!(parse_status_response(&vec![0x09, 0x02, 1, 1]), Ok(true));
    assert_eq!(parse_status_response(&vec![0x09, 0x02, 1, 0]), Ok(false));
    assert_eq!(
        parse_status_response(&vec![0x09, 0x01, 1, 0]),
        Err(ParseError::UnexpectedTag)
    );
    assert_eq!(
        parse_status_response(&vec![0x09, 0x02, 2, 0]),
        Err(ParseError::BadLength)
    );
}

#[test]
fn commands_carry_tag_and_address() {
    let a = mac([0xAA, 0xBB, 0xCC, 0xDD, 0xEE, 0xFF]);
    assert_eq!(list_devices_command(), vec![0x01]);
    assert_eq!(status_command(&a), vec![0x02, 0xAA, 0xBB, 0xCC, 0xDD, 0xEE, 0xFF]);
    assert_eq!(
        disconnect_command(&a),
        vec![0x03, 0xAA, 0xBB, 0xCC, 0xDD, 0xEE, 0xFF]
    );
    assert_eq!(connect_command(&a), vec![0x04, 0xAA, 0xBB, 0xCC, 0xDD, 0xEE, 0xFF]);
}

#[test]
fn device_switch_walks_the_whole_exchange() {
    let target = mac([9, 9, 9, 9, 9, 9]);
    let (mut session, first) = SwitchSession::new(vec![target], 1000);
    assert_eq!(first, vec![0x01]);
    assert!(session.phase() == SwitchPhase::AwaitList);

    // The peripheral reports two paired devices.
    let list: Vec<u8> = vec![0x09, 0x01, 13, 0x00, 1, 2, 3, 4, 5, 6, 7, 8, 9, 10, 11, 12];
    match session.step(SwitchEvent::Response(list)) {
        SwitchAction::WriteAwaitResponse(cmd) => {
            assert_eq!(cmd, vec![0x02, 1, 2, 3, 4, 5, 6]);
        }
        _ => panic!("expected a status round trip for the first paired device"),
    }

    // The first is connected, the second is not.
    match session.step(SwitchEvent::Response(vec![0x09, 0x02, 1, 1])) {
        SwitchAction::WriteAwaitResponse(cmd) => {
            assert_eq!(cmd, vec![0x02, 7, 8, 9, 10, 11, 12]);
        }
        _ => panic!("expected a status round trip for the second paired device"),
    }
    match session.step(SwitchEvent::Response(vec![0x09, 0x02, 1, 0])) {
        SwitchAction::WriteThenDelay(cmd, delay) => {
            assert_eq!(cmd, vec![0x03, 1, 2, 3, 4, 5, 6]);
            assert_eq!(delay, 1000);
        }
        _ => panic!("expected the connected device to be disconnected"),
    }

    // After the delay, the target is connected, then the exchange ends.
    match session.step(SwitchEvent::Delayed) {
        SwitchAction::WriteThenDelay(cmd, delay) => {
            assert_eq!(cmd, vec![0x04, 9, 9, 9, 9, 9, 9]);
            assert_eq!(delay, 1000);
        }
        _ => panic!("expected the target to be connected"),
    }
    assert!(matches!(session.step(SwitchEvent::Delayed), SwitchAction::Succeed));
    assert!(session.phase() == SwitchPhase::Done);
}

#[test]
fn device_switch_aborts_whole_operation_on_failure() {
    let (mut session, _) = SwitchSession::new(vec![mac([1, 1, 1, 1, 1, 1])], 1000);
    assert!(matches!(session.step(SwitchEvent::Failure), SwitchAction::Fail));
    assert!(session.phase() == SwitchPhase::Failed);
}

#[test]
fn device_switch_aborts_on_malformed_response() {
    let (mut session, _) = SwitchSession::new(vec![], 500);
    assert!(matches!(
        session.step(SwitchEvent::Response(vec![0x00, 0x00])),
        SwitchAction::Fail
    ));
    assert!(session.phase() == SwitchPhase::Failed);
}

#[test]
fn device_switch_with_no_paired_devices_connects_targets_directly() {
    let target = mac([5, 4, 3, 2, 1, 0]);
    let (mut session, _) = SwitchSession::new(vec![target], 250);
    match session.step(SwitchEvent::Response(vec![0x09, 0x01, 1, 0x00])) {
        SwitchAction::WriteThenDelay(cmd, delay) => {
            assert_eq!(cmd, vec![0x04, 5, 4, 3, 2, 1, 0]);
            assert_eq!(delay, 250);
        }
        _ => panic!("expected the target to be connected straight away"),
    }
    assert!(matches!(session.step(SwitchEvent::Delayed), SwitchAction::Succeed));
}

#[test]
fn device_list_at_largest_size_parses() {
    // The length byte tops out at 253 = 1 + 42 addresses.
    let mut resp: Vec<u8> = vec![0x09, 0x01, 253, 0x00];
    for i in 0..42u8 {
        resp.extend_from_slice(&[i, i, i, i, i, i]);
    }
    let addrs = parse_device_list(&resp).unwrap();
    assert_eq!(addrs.len(), 42);
    assert_eq!(addrs[41].octets, [41; 6]);
}
