use node_stats::codec::{elapsed_millis, millis_to_nanos, DecodeError, PendingTxMessage};

#[test]
fn message_round_trips_through_wire_form() {
    let m = PendingTxMessage { sent_time_millis: 1_700_000_000_123, data: vec![1, 2, 3, 250] };
    let bytes = m.encode();
    assert_eq!(bytes.len(), 24 + 4);
    let back = PendingTxMessage::decode(&bytes).expect("own encoding must decode");
    assert_eq!(back.sent_time_millis, 1_700_000_000_123);
    assert_eq!(back.data, vec![1, 2, 3, 250]);
}

#[test]
fn empty_payload_round_trips() {
    let m = PendingTxMessage { sent_time_millis: 0, data: vec![] };
    let bytes = m.encode();
    assert_eq!(bytes.len(), 24);
    let back = PendingTxMessage::decode(&bytes).unwrap();
    assert_eq!(back.sent_time_millis, 0);
    assert!(back.data.is_empty());
}

#[test]
fn wire_form_matches_bincode_fixint_layout() {
    // the message encodes as bincode (fixint, little endian) encodes the
    // pair of its fields
    let m = PendingTxMessage { sent_time_millis: 5, data: vec![9, 8, 7] };
    let reference = bincode::serialize(&(5u128, vec![9u8, 8, 7])).unwrap();
    assert_eq!(m.encode(), reference);
}

#[test]
fn decode_rejects_short_input() {
    assert_eq!(PendingTxMessage::decode(&[0u8; 10]), Err(DecodeError::TooShort));
    assert_eq!(PendingTxMessage::decode(&[]), Err(DecodeError::TooShort));
    assert_eq!(PendingTxMessage::decode(&[0u8; 23]), Err(DecodeError::TooShort));
}

#[test]
fn decode_rejects_wrong_announced_length() {
    let m = PendingTxMessage { sent_time_millis: 7, data: vec![1, 2, 3] };
    let mut bytes = m.encode();
    bytes.push(42); // one byte too many for the announced length
    assert_eq!(PendingTxMessage::decode(&bytes), Err(DecodeError::LengthMismatch));
    let mut shorter = m.encode();
    shorter.pop(); // one byte too few
    assert_eq!(PendingTxMessage::decode(&shorter), Err(DecodeError::LengthMismatch));
}

#[test]
fn elapsed_tolerates_clock_skew() {
    assert_eq!(elapsed_millis(1000, 800), Some(200));
    assert_eq!(elapsed_millis(800, 1000), None); // receiver clock behind sender
    assert_eq!(elapsed_millis(800, 800), None); // zero elapsed degrades to no data
    assert_eq!(elapsed_millis(u128::MAX, 0), None); // beyond u64
}

#[test]
fn millis_to_nanos_checks_overflow() {
    assert_eq!(millis_to_nanos(200), Some(200_000_000));
    assert_eq!(millis_to_nanos(0), Some(0));
    assert_eq!(millis_to_nanos(u64::MAX), None);
    assert_eq!(millis_to_nanos(18_446_744_073_709), Some(18_446_744_073_709_000_000));
    assert_eq!(millis_to_nanos(18_446_744_073_710), None);
}
