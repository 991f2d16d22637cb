use base64::Engine;
use deskpi::line::{LineConnection, ReadOutcome};
use deskpi::session::{DeviceSession, SessionEvent};
use deskpi::mac::parse_mac;
use deskpi::message::{
    classify_line, decimal_i64, decimal_u64, decode_command, dispatch_command,
    display_data_events, encode_event, parse_i32, parse_u32, send_event, CommandArguments,
    DecodeError, DeviceCommand, HostEvent, LineClass,
};

#[test]
fn simple_events_encode_to_fixed_lines() {
    assert_eq!(encode_event(&HostEvent::Success), b"{\"kind\":\"success\"}".to_vec());
    assert_eq!(encode_event(&HostEvent::Error), b"{\"kind\":\"error\"}".to_vec());
    assert_eq!(encode_event(&HostEvent::Heartbeat), b"{\"kind\":\"heartbeat\"}".to_vec());
    assert_eq!(
        encode_event(&HostEvent::RefreshDisplay),
        b"{\"kind\":\"refreshDisplay\"}".to_vec()
    );
    assert_eq!(
        encode_event(&HostEvent::StartAnimation),
        b"{\"kind\":\"startAnimation\"}".to_vec()
    );
    assert_eq!(
        encode_event(&HostEvent::StopAnimation),
        b"{\"kind\":\"stopAnimation\"}".to_vec()
    );
}

#[test]
fn numeric_events_encode_their_fields() {
    assert_eq!(
        encode_event(&HostEvent::Light { target_value: 4096, speed: 300 }),
        b"{\"kind\":\"light\",\"targetValue\":4096,\"speed\":300}".to_vec()
    );
    assert_eq!(
        encode_event(&HostEvent::ServoY { target_value: 200, speed: 1 }),
        b"{\"kind\":\"servoY\",\"targetValue\":200,\"speed\":1}".to_vec()
    );
    assert_eq!(
        encode_event(&HostEvent::AdjustAnimationTime { minutes: -5 }),
        b"{\"kind\":\"adjustAnimationTime\",\"minutes\":-5}".to_vec()
    );
}

#[test]
fn time_entry_description_is_escaped() {
    let event = HostEvent::TimeEntry { description: b"say \"hi\"\\now".to_vec() };
    assert_eq!(
        encode_event(&event),
        b"{\"kind\":\"timeEntry\",\"timeEntry\":{\"description\":\"say \\\"hi\\\"\\\\now\"}}"
            .to_vec()
    );
    let newline = HostEvent::TimeEntry { description: b"a\nb".to_vec() };
    assert_eq!(
        encode_event(&newline),
        b"{\"kind\":\"timeEntry\",\"timeEntry\":{\"description\":\"a\\nb\"}}".to_vec()
    );
}

#[test]
fn display_data_rides_base64_encoded() {
    let event = HostEvent::DisplayData { offset: 256, data: vec![0, 0, 0] };
    // Three zero bytes become "AAAA", not the raw bytes: the payload is
    // truly transformed on its way to the wire.
    assert_eq!(
        encode_event(&event),
        b"{\"kind\":\"displayData\",\"offset\":256,\"data\":\"AAAA\"}".to_vec()
    );
    let expected = base64::engine::general_purpose::STANDARD.encode([7u8, 200, 31]);
    let line = encode_event(&HostEvent::DisplayData { offset: 0, data: vec![7, 200, 31] });
    let text = String::from_utf8(line).unwrap();
    assert!(text.contains(&expected));
}

#[test]
fn display_data_events_chunk_and_refresh() {
    let data: Vec<u8> = vec![1; 300];
    let events = display_data_events(&data);
    assert_eq!(events.len(), 3);
    match &events[0] {
        HostEvent::DisplayData { offset, data: d } => {
            assert_eq!(*offset, 0);
            assert_eq!(d.len(), 256);
        }
        _ => panic!("expected the first chunk"),
    }
    match &events[1] {
        HostEvent::DisplayData { offset, data: d } => {
            assert_eq!(*offset, 256);
            assert_eq!(d.len(), 44);
        }
        _ => panic!("expected the second chunk"),
    }
    assert!(matches!(events[2], HostEvent::RefreshDisplay));
}

#[test]
fn send_event_queues_one_terminated_line() {
    let mut conn = LineConnection::new();
    send_event(&mut conn, &HostEvent::Success);
    assert_eq!(conn.next_write_slice(), b"{\"kind\":\"success\"}\n".to_vec());
}

#[test]
fn classify_recognizes_heartbeat_and_shorthand() {
    assert!(classify_line(&b"h".to_vec(), b'h') == LineClass::Heartbeat);
    assert!(classify_line(&b"h".to_vec(), b't') != LineClass::Heartbeat);
    assert!(classify_line(&b"p123".to_vec(), b'h') == LineClass::ZAxis(123));
    assert!(classify_line(&b"x-42".to_vec(), b'h') == LineClass::XAxis(-42));
    assert!(classify_line(&b"y17".to_vec(), b'h') == LineClass::YAxis(17));
    assert!(classify_line(&b"ra1555".to_vec(), b'c') == LineClass::SensorReading(555));
}

#[test]
fn classify_discards_malformed_shorthand() {
    assert!(classify_line(&b"p".to_vec(), b'h') == LineClass::Malformed);
    assert!(classify_line(&b"pxx".to_vec(), b'h') == LineClass::Malformed);
    assert!(classify_line(&b"x--1".to_vec(), b'h') == LineClass::Malformed);
    assert!(classify_line(&b"ra1".to_vec(), b'h') == LineClass::Malformed);
    assert!(classify_line(&b"".to_vec(), b'h') == LineClass::Malformed);
    assert!(classify_line(&b"p4294967296".to_vec(), b'h') == LineClass::Malformed);
}

#[test]
fn classify_hands_everything_else_to_the_decoder() {
    assert!(classify_line(&b"{\"kind\":\"success\"}".to_vec(), b'h') == LineClass::Structured);
    assert!(classify_line(&b"rb2".to_vec(), b'h') == LineClass::Structured);
}

#[test]
fn decode_dispatches_on_kind() {
    assert!(matches!(
        decode_command(&b"{\"kind\":\"getTimeEntries\"}".to_vec()),
        Ok(DeviceCommand::GetTimeEntries)
    ));
    assert!(matches!(
        decode_command(&b"{\"kind\":\"stopTimeEntry\"}".to_vec()),
        Ok(DeviceCommand::StopTimeEntry)
    ));
    assert!(matches!(
        decode_command(&b"{\"kind\":\"continueTimeEntry\"}".to_vec()),
        Ok(DeviceCommand::ContinueTimeEntry)
    ));
    assert!(matches!(
        decode_command(&b"{\"kind\":\"sendWakeOnLan\"}".to_vec()),
        Ok(DeviceCommand::SendWakeOnLan)
    ));
    assert!(matches!(
        decode_command(&b"{\"kind\":\"readInbox\"}".to_vec()),
        Ok(DeviceCommand::ReadInbox)
    ));
    assert!(matches!(
        decode_command(&b"{\"kind\":\"clearInbox\"}".to_vec()),
        Ok(DeviceCommand::ClearInbox)
    ));
    assert!(matches!(
        decode_command(&b"{\"kind\":\"startClock\"}".to_vec()),
        Ok(DeviceCommand::StartClock)
    ));
}

#[test]
fn decode_extracts_member_values() {
    match decode_command(&b"{\"kind\":\"startTimeEntry\",\"timeEntry\":{\"description\":\"deep work\"}}".to_vec()) {
        Ok(DeviceCommand::StartTimeEntry { description }) => {
            assert_eq!(description, b"deep work".to_vec());
        }
        _ => panic!("expected a start command with its description"),
    }
    match decode_command(&b"{\"kind\":\"adjustTime\",\"minutes\":15}".to_vec()) {
        Ok(DeviceCommand::AdjustTime { minutes }) => assert_eq!(minutes, 15),
        _ => panic!("expected an adjust command with its minutes"),
    }
    match decode_command(&b"{\"kind\":\"startCountdown\",\"minutes\":25}".to_vec()) {
        Ok(DeviceCommand::StartCountdown { minutes }) => assert_eq!(minutes, 25),
        _ => panic!("expected a countdown command with its minutes"),
    }
}

#[test]
fn decode_is_a_real_parse_not_a_string_match() {
    // Same document, members in another order and with extra whitespace.
    match decode_command(
        &b"{ \"minutes\" : 15 , \"kind\" : \"adjustTime\" }".to_vec(),
    ) {
        Ok(DeviceCommand::AdjustTime { minutes }) => assert_eq!(minutes, 15),
        _ => panic!("expected the reordered document to decode the same"),
    }
}

#[test]
fn decode_parses_device_addresses() {
    match decode_command(
        &b"{\"kind\":\"switchBoseDevices\",\"devices\":[\"2c:41:a1:00:00:01\",\"2C:41:A1:00:00:02\"]}"
            .to_vec(),
    ) {
        Ok(DeviceCommand::SwitchBoseDevices { devices }) => {
            assert_eq!(devices.len(), 2);
            assert_eq!(devices[0].octets, [0x2C, 0x41, 0xA1, 0x00, 0x00, 0x01]);
            assert_eq!(devices[1].octets, [0x2C, 0x41, 0xA1, 0x00, 0x00, 0x02]);
        }
        _ => panic!("expected both addresses to parse"),
    }
}

#[test]
fn decode_errors_name_what_was_wrong() {
    assert_eq!(
        decode_command(&b"not json at all".to_vec()).unwrap_err(),
        DecodeError::NotJson
    );
    assert_eq!(
        decode_command(&b"{\"minutes\":5}".to_vec()).unwrap_err(),
        DecodeError::MissingKind
    );
    assert_eq!(
        decode_command(&b"{\"kind\":\"selfDestruct\"}".to_vec()).unwrap_err(),
        DecodeError::UnknownKind
    );
    assert_eq!(
        decode_command(&b"{\"kind\":\"adjustTime\"}".to_vec()).unwrap_err(),
        DecodeError::BadArguments
    );
    assert_eq!(
        decode_command(&b"{\"kind\":\"switchBoseDevices\",\"devices\":[\"zz:zz\"]}".to_vec())
            .unwrap_err(),
        DecodeError::BadArguments
    );
}

#[test]
fn decimal_formatting_round_trips() {
    assert_eq!(decimal_u64(0), b"0".to_vec());
    assert_eq!(decimal_u64(300), b"300".to_vec());
    assert_eq!(decimal_u64(18446744073709551615), b"18446744073709551615".to_vec());
    assert_eq!(decimal_i64(-1), b"-1".to_vec());
    assert_eq!(decimal_i64(i64::MIN), b"-9223372036854775808".to_vec());
    assert_eq!(parse_u32(&b"0".to_vec()), Some(0));
    assert_eq!(parse_u32(&b"4294967295".to_vec()), Some(u32::MAX));
    assert_eq!(parse_u32(&b"4294967296".to_vec()), None);
    assert_eq!(parse_u32(&b"".to_vec()), None);
    assert_eq!(parse_u32(&b"12a".to_vec()), None);
    assert_eq!(parse_u32(&b"007".to_vec()), Some(7));
}

#[test]
fn signed_parsing_covers_the_full_range() {
    assert_eq!(parse_i32(&b"2147483647".to_vec()), Some(i32::MAX));
    assert_eq!(parse_i32(&b"-2147483648".to_vec()), Some(i32::MIN));
    assert_eq!(parse_i32(&b"2147483648".to_vec()), None);
    assert_eq!(parse_i32(&b"-2147483649".to_vec()), None);
    assert_eq!(parse_i32(&b"-".to_vec()), None);
    assert_eq!(parse_i32(&b"-0".to_vec()), Some(0));
}

#[test]
fn mac_parsing_accepts_both_cases_and_rejects_junk() {
    let a = parse_mac(&b"AA:bb:0C:1d:2E:3f".to_vec()).unwrap();
    assert_eq!(a.octets, [0xAA, 0xBB, 0x0C, 0x1D, 0x2E, 0x3F]);
    assert!(parse_mac(&b"AA:BB".to_vec()).is_none());
    assert!(parse_mac(&b"AA:BB:CC:DD:EE:GG".to_vec()).is_none());
    assert!(parse_mac(&b"AA-BB-CC-DD-EE-FF".to_vec()).is_none());
}

#[test]
fn session_translates_lines_to_events_in_order() {
    let mut session = DeviceSession::new(LineConnection::new(), b'h');
    let events = session.poll_events(ReadOutcome::Data(
        b"h\np512\n{\"kind\":\"stopTimeEntry\"}\nnoise\n".to_vec(),
    ));
    assert_eq!(events.len(), 4);
    assert!(matches!(events[0], SessionEvent::Heartbeat));
    assert!(matches!(events[1], SessionEvent::ZAxis(512)));
    assert!(matches!(
        events[2],
        SessionEvent::Command(DeviceCommand::StopTimeEntry)
    ));
    assert!(matches!(events[3], SessionEvent::Discarded(_)));
    session.send(&HostEvent::Success);
    assert_eq!(
        session.connection.next_write_slice(),
        b"{\"kind\":\"success\"}\n".to_vec()
    );
}

#[test]
fn session_read_failure_discards_everything() {
    let mut session = DeviceSession::new(LineConnection::new(), b't');
    session.send(&HostEvent::RefreshDisplay);
    let events = session.poll_events(ReadOutcome::Failed);
    assert!(events.is_empty());
    assert!(!session.connection.is_alive());
    assert!(session.connection.next_write_slice().is_empty());
}

#[test]
fn dispatch_builds_commands_from_plain_members() {
    let none_args = || CommandArguments { description: None, minutes: None, devices: None };
    assert!(matches!(
        dispatch_command(&b"getTimeEntries".to_vec(), none_args()),
        Ok(DeviceCommand::GetTimeEntries)
    ));
    match dispatch_command(
        &b"startTimeEntry".to_vec(),
        CommandArguments { description: Some(b"deep work".to_vec()), minutes: None, devices: None },
    ) {
        Ok(DeviceCommand::StartTimeEntry { description }) => {
            assert_eq!(description, b"deep work".to_vec());
        }
        _ => panic!("expected the description to be carried through"),
    }
    assert_eq!(
        dispatch_command(&b"startTimeEntry".to_vec(), none_args()).unwrap_err(),
        DecodeError::BadArguments
    );
    assert_eq!(
        dispatch_command(&b"selfDestruct".to_vec(), none_args()).unwrap_err(),
        DecodeError::UnknownKind
    );
}

#[test]
fn dispatch_keeps_device_array_order() {
    let texts = vec![b"00:00:00:00:00:02".to_vec(), b"00:00:00:00:00:01".to_vec()];
    match dispatch_command(
        &b"switchBoseDevices".to_vec(),
        CommandArguments { description: None, minutes: None, devices: Some(texts) },
    ) {
        Ok(DeviceCommand::SwitchBoseDevices { devices }) => {
            assert_eq!(devices[0].octets, [0, 0, 0, 0, 0, 2]);
            assert_eq!(devices[1].octets, [0, 0, 0, 0, 0, 1]);
        }
        _ => panic!("expected both addresses, in array order"),
    }
    let bad = vec![b"00:00:00:00:00:02".to_vec(), b"junk".to_vec()];
    assert_eq!(
        dispatch_command(
            &b"switchBoseDevices".to_vec(),
            CommandArguments { description: None, minutes: None, devices: Some(bad) },
        )
        .unwrap_err(),
        DecodeError::BadArguments
    );
}
