use ethercrab::{Command, CommandKind, ParseError, Pdu};

fn sample() -> Pdu {
    let mut p = Pdu::new(Command::new(CommandKind::Fpwr, 0x1234, 0x0120), 3, &[0x01, 0x02]);
    p.working_counter = 0x0201;
    p
}

#[test]
fn pdu_encodes_to_exact_bytes() {
    let bytes = sample().to_ethernet_payload();
    assert_eq!(
        bytes,
        vec![
            0x0e, 0x10, 0x05, 0x03, 0x34, 0x12, 0x20, 0x01, 0x02, 0x00, 0x00, 0x00, 0x01, 0x02,
            0x01, 0x02
        ]
    );
}

#[test]
fn pdu_round_trip() {
    let p = sample();
    let q = Pdu::from_ethernet_payload(&p.to_ethernet_payload(), 16).unwrap();
    assert_eq!(q.command, p.command);
    assert_eq!(q.index, p.index);
    assert_eq!(q.data, p.data);
    assert_eq!(q.working_counter, p.working_counter);
}

#[test]
fn pdu_round_trip_empty_and_logical() {
    let p = Pdu::new(Command::logical(CommandKind::Lrw, 0x0001_0000), 0, &[]);
    assert_eq!(p.command.address, 0);
    assert_eq!(p.command.register, 1);
    let q = Pdu::from_ethernet_payload(&p.to_ethernet_payload(), 0).unwrap();
    assert_eq!(q.command, p.command);
    assert!(q.data.is_empty());
    assert_eq!(q.working_counter, 0);
}

#[test]
fn pdu_parse_truncated() {
    let bytes = sample().to_ethernet_payload();
    assert_eq!(Pdu::from_ethernet_payload(&bytes[..11], 16).unwrap_err(), ParseError::Truncated);
    assert_eq!(Pdu::from_ethernet_payload(&bytes[..15], 16).unwrap_err(), ParseError::Truncated);
}

#[test]
fn pdu_parse_wrong_frame_type() {
    let mut bytes = sample().to_ethernet_payload();
    bytes[1] = 0x20;
    assert_eq!(Pdu::from_ethernet_payload(&bytes, 16).unwrap_err(), ParseError::NotPdu);
}

#[test]
fn pdu_parse_unknown_command() {
    let mut bytes = sample().to_ethernet_payload();
    bytes[2] = 0x0f;
    assert_eq!(Pdu::from_ethernet_payload(&bytes, 16).unwrap_err(), ParseError::UnknownCommand);
}

#[test]
fn pdu_parse_too_long() {
    let bytes = sample().to_ethernet_payload();
    assert_eq!(Pdu::from_ethernet_payload(&bytes, 1).unwrap_err(), ParseError::TooLong);
    assert!(Pdu::from_ethernet_payload(&bytes, 2).is_ok());
}

#[test]
fn pdu_response_matching() {
    let request = sample();
    let mut response = sample();
    response.working_counter = 1;
    assert!(response.is_response_to(&request));
    response.command = Command::new(CommandKind::Fprd, 0x1234, 0x0120);
    assert!(!response.is_response_to(&request));
}

#[test]
fn command_codes() {
    assert_eq!(CommandKind::Nop.code(), 0);
    assert_eq!(CommandKind::Frmw.code(), 14);
    assert_eq!(CommandKind::from_code(5), Some(CommandKind::Fpwr));
    assert_eq!(CommandKind::from_code(15), None);
}
