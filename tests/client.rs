use ethercrab::{
    ClientInternals, Command, CommandKind, Dispatch, ParseError, PduError, RequestState,
    ETHERCAT_ETHERTYPE, MASTER_ADDR_BYTE,
};

fn command() -> Command {
    Command::new(CommandKind::Fprd, 0x1001, 0x0130)
}

/// Turns a frame the master sent into the device's answer to it.
fn answer(mut frame: Vec<u8>, working_counter: u16, data: &[u8]) -> Vec<u8> {
    for b in frame[6..12].iter_mut() {
        *b = 0x02;
    }
    let n = frame.len();
    let start = n - 2 - data.len();
    frame[start..n - 2].copy_from_slice(data);
    frame[n - 2] = (working_counter & 0xff) as u8;
    frame[n - 1] = (working_counter >> 8) as u8;
    frame
}

#[test]
fn capacity_one_second_send_in_use() {
    let mut t = ClientInternals::<1, 16>::new();
    assert_eq!(t.start_pdu(command(), &[0, 0]), Ok(0));
    assert_eq!(t.start_pdu(command(), &[0, 0]), Err(PduError::IndexInUse));
}

#[test]
fn n_plus_one_sends_meet_backpressure() {
    let mut t = ClientInternals::<4, 16>::new();
    let results: Vec<_> = (0..5).map(|_| t.start_pdu(command(), &[1])).collect();
    assert_eq!(results[..4], [Ok(0), Ok(1), Ok(2), Ok(3)]);
    assert_eq!(results[4], Err(PduError::IndexInUse));
}

#[test]
fn too_long_payload_rejected() {
    let mut t = ClientInternals::<2, 4>::new();
    assert_eq!(t.start_pdu(command(), &[0; 5]), Err(PduError::TooLong));
    assert_eq!(t.slot_state(0), None);
    assert_eq!(t.start_pdu(command(), &[0; 4]), Ok(1));
}

#[test]
fn send_resolves_with_payload_and_working_counter() {
    let mut t = ClientInternals::<4, 16>::new();
    let idx = t.start_pdu(command(), &[0, 0]).unwrap();
    assert!(t.poll_pdu(idx, 0, 30_000).is_none());
    let frame = t.next_sendable_frame().unwrap();
    assert_eq!(t.slot_state(usize::from(idx)), Some(RequestState::Waiting));
    let outcome = t.parse_response_ethernet_packet(&answer(frame, 1, &[0xab, 0xcd]));
    assert_eq!(outcome, Dispatch::Completed { index: idx, wake: true });
    assert_eq!(t.slot_state(usize::from(idx)), Some(RequestState::Done));
    let pdu = t.poll_pdu(idx, 10, 30_000).unwrap().unwrap();
    assert_eq!(pdu.data, vec![0xab, 0xcd]);
    assert_eq!(pdu.working_counter, 1);
    assert_eq!(pdu.command, command());
    assert_eq!(t.slot_state(usize::from(idx)), None);
}

#[test]
fn response_stored_without_registered_continuation() {
    let mut t = ClientInternals::<2, 16>::new();
    let idx = t.start_pdu(command(), &[0]).unwrap();
    let frame = t.next_sendable_frame().unwrap();
    let outcome = t.parse_response_ethernet_packet(&answer(frame, 3, &[7]));
    assert_eq!(outcome, Dispatch::Completed { index: idx, wake: false });
    assert_eq!(t.slot_state(usize::from(idx)), Some(RequestState::Done));
}

#[test]
fn sent_frame_layout() {
    let mut t = ClientInternals::<2, 16>::new();
    assert_eq!(t.next_sendable_frame(), None);
    t.start_pdu(command(), &[0x55]).unwrap();
    let frame = t.next_sendable_frame().unwrap();
    assert_eq!(&frame[0..6], &[0xff; 6]);
    assert_eq!(&frame[6..12], &[MASTER_ADDR_BYTE; 6]);
    assert_eq!(u16::from_be_bytes([frame[12], frame[13]]), ETHERCAT_ETHERTYPE);
    assert_eq!(
        &frame[14..],
        &[0x0d, 0x10, 0x04, 0x00, 0x01, 0x10, 0x30, 0x01, 0x01, 0x00, 0x00, 0x00, 0x55, 0x00, 0x00]
    );
    assert_eq!(t.next_sendable_frame(), None);
}

#[test]
fn dispatch_without_occupied_slot_is_noop() {
    let mut t = ClientInternals::<2, 16>::new();
    t.start_pdu(command(), &[0]).unwrap();
    let frame = t.next_sendable_frame().unwrap();
    t.release(0);
    assert_eq!(t.parse_response_ethernet_packet(&answer(frame, 1, &[1])), Dispatch::NoWaitingFrame);
    assert_eq!(t.slot_state(0), None);
    assert_eq!(t.slot_state(1), None);
}

#[test]
fn dispatch_index_beyond_table() {
    let mut t = ClientInternals::<2, 16>::new();
    t.start_pdu(command(), &[0]).unwrap();
    let mut frame = answer(t.next_sendable_frame().unwrap(), 1, &[1]);
    frame[14 + 3] = 9;
    assert_eq!(t.parse_response_ethernet_packet(&frame), Dispatch::NoWaitingFrame);
    assert_eq!(t.slot_state(0), Some(RequestState::Waiting));
}

#[test]
fn self_frame_is_ignored() {
    let mut t = ClientInternals::<2, 16>::new();
    t.start_pdu(command(), &[0]).unwrap();
    let frame = t.next_sendable_frame().unwrap();
    assert_eq!(t.parse_response_ethernet_packet(&frame), Dispatch::Ignored);
    assert_eq!(t.slot_state(0), Some(RequestState::Waiting));
}

#[test]
fn other_ethertype_is_ignored() {
    let mut t = ClientInternals::<2, 16>::new();
    t.start_pdu(command(), &[0]).unwrap();
    let mut frame = answer(t.next_sendable_frame().unwrap(), 1, &[1]);
    frame[12] = 0x08;
    frame[13] = 0x00;
    assert_eq!(t.parse_response_ethernet_packet(&frame), Dispatch::Ignored);
    assert_eq!(t.slot_state(0), Some(RequestState::Waiting));
}

#[test]
fn malformed_frames_are_reported() {
    let mut t = ClientInternals::<2, 16>::new();
    assert_eq!(t.parse_response_ethernet_packet(&[0; 10]), Dispatch::Malformed(ParseError::Truncated));
    t.start_pdu(command(), &[0]).unwrap();
    let frame = answer(t.next_sendable_frame().unwrap(), 1, &[1]);
    assert_eq!(
        t.parse_response_ethernet_packet(&frame[..20]),
        Dispatch::Malformed(ParseError::Truncated)
    );
    assert_eq!(t.slot_state(0), Some(RequestState::Waiting));
}

#[test]
fn mismatched_response_is_reported() {
    let mut t = ClientInternals::<2, 16>::new();
    t.start_pdu(command(), &[0]).unwrap();
    let mut frame = answer(t.next_sendable_frame().unwrap(), 1, &[1]);
    frame[14 + 2] = 5;
    assert_eq!(t.parse_response_ethernet_packet(&frame), Dispatch::Mismatch);
    assert_eq!(t.slot_state(0), Some(RequestState::Waiting));
}

#[test]
fn timeout_fires_at_configured_time() {
    let mut t = ClientInternals::<2, 16>::new();
    let idx = t.start_pdu(command(), &[0]).unwrap();
    assert!(t.poll_pdu(idx, 0, 30_000).is_none());
    assert!(t.poll_pdu(idx, 29_999, 30_000).is_none());
    assert_eq!(t.slot_state(0), Some(RequestState::Created));
    assert!(matches!(t.poll_pdu(idx, 30_000, 30_000), Some(Err(PduError::Timeout))));
    assert_eq!(t.slot_state(0), None);
}

#[test]
fn late_response_after_timeout_is_noop() {
    let mut t = ClientInternals::<2, 16>::new();
    let idx = t.start_pdu(command(), &[0]).unwrap();
    let frame = t.next_sendable_frame().unwrap();
    assert!(matches!(t.poll_pdu(idx, 5, 1), Some(Err(PduError::Timeout))));
    assert_eq!(t.parse_response_ethernet_packet(&answer(frame, 1, &[1])), Dispatch::NoWaitingFrame);
    assert_eq!(t.slot_state(0), None);
}

#[test]
fn index_reused_after_completion() {
    let mut t = ClientInternals::<1, 16>::new();
    assert_eq!(t.start_pdu(command(), &[0]), Ok(0));
    assert!(matches!(t.poll_pdu(0, 1, 1), Some(Err(PduError::Timeout))));
    assert_eq!(t.start_pdu(command(), &[0]), Ok(0));
    assert_eq!(t.slot_state(0), Some(RequestState::Created));
}

#[test]
fn counter_wraps_at_capacity() {
    let mut t = ClientInternals::<3, 16>::new();
    let mut seen = Vec::new();
    for _ in 0..258 {
        let idx = t.start_pdu(command(), &[]).unwrap();
        seen.push(idx);
        t.release(idx);
    }
    for (k, idx) in seen.iter().enumerate() {
        assert_eq!(usize::from(*idx), k % 3);
    }
    assert_eq!(seen[255], 0);
    assert_eq!(seen[256], 1);
    assert_eq!(seen[257], 2);
}

#[test]
fn busy_slot_does_not_shift_later_indices() {
    let mut t = ClientInternals::<3, 16>::new();
    assert_eq!(t.start_pdu(command(), &[]), Ok(0));
    assert_eq!(t.start_pdu(command(), &[]), Ok(1));
    t.release(1);
    assert_eq!(t.start_pdu(command(), &[]), Ok(2));
    assert_eq!(t.start_pdu(command(), &[]), Err(PduError::IndexInUse));
    assert_eq!(t.start_pdu(command(), &[]), Ok(1));
}

#[test]
fn largest_table_uses_every_index() {
    let mut t = ClientInternals::<255, 4>::new();
    for k in 0..255u16 {
        assert_eq!(t.start_pdu(command(), &[]), Ok(k as u8));
    }
    assert_eq!(t.start_pdu(command(), &[]), Err(PduError::IndexInUse));
    t.release(0);
    assert_eq!(t.start_pdu(command(), &[]), Err(PduError::IndexInUse));
    assert_eq!(t.slot_state(254), Some(RequestState::Created));
}

#[test]
fn send_waker_registered_once() {
    let mut t = ClientInternals::<1, 16>::new();
    assert!(t.set_send_waker());
    assert!(!t.set_send_waker());
}
