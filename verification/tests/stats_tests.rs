use node_stats::codec::{DecodeError, PendingTxMessage};
use node_stats::stats::{Stats, WireIngestOutcome};
use node_stats::store::IngestError;

#[test]
fn render_twice_is_byte_identical() {
    let mut s = Stats::new(3, "me".to_string());
    s.add_ping("north".to_string(), 30);
    let _ = s.add_transmission("north".to_string(), 2000, 1000);
    s.add_ping("south".to_string(), 10);
    let first = s.render();
    let second = s.render();
    assert_eq!(first, second);
    assert_eq!(first.as_bytes(), second.as_bytes());
}

#[test]
fn render_exact_text() {
    let mut s = Stats::new(3, "me".to_string());
    s.add_ping("north".to_string(), 30);
    let _ = s.add_transmission("north".to_string(), 2000, 1000);
    s.add_ping("south".to_string(), 10);
    let text = s.render();
    assert_eq!(
        text,
        "Stats for node me\n\
         Ping round trip (ns):\n\
         north: 30\n\
         south: 10\n\
         Transmission rate (ns/byte):\n\
         north: 2\n"
    );
}

#[test]
fn render_on_empty_store_is_header_only() {
    let s = Stats::new(100, "lonely".to_string());
    assert_eq!(
        s.render(),
        "Stats for node lonely\nPing round trip (ns):\nTransmission rate (ns/byte):\n"
    );
}

#[test]
fn peer_appears_only_in_sections_with_samples() {
    let mut s = Stats::new(4, "n".to_string());
    s.add_ping("only-ping".to_string(), 7);
    let _ = s.add_transmission("only-tx".to_string(), 9000, 1000);
    let text = s.render();
    assert_eq!(
        text,
        "Stats for node n\n\
         Ping round trip (ns):\n\
         only-ping: 7\n\
         Transmission rate (ns/byte):\n\
         only-tx: 9\n"
    );
}

#[test]
fn render_reports_truncated_means() {
    let mut s = Stats::new(10, "n".to_string());
    s.add_ping("P".to_string(), 1);
    s.add_ping("P".to_string(), 2);
    let text = s.render();
    assert!(text.contains("P: 1\n"));
}

#[test]
fn facade_delegates_to_store() {
    let mut s = Stats::new(2, "n".to_string());
    s.add_ping("P".to_string(), 1);
    s.add_ping("P".to_string(), 2);
    s.add_ping("P".to_string(), 4);
    assert_eq!(s.peer_count(), 1);
    let summary = s.snapshot();
    assert_eq!(summary.peers.len(), 1);
    assert_eq!(summary.peers[0].ping_average, Some(3)); // (2 + 4) / 2
    let err = s.add_transmission("P".to_string(), 10, 0);
    assert_eq!(err, Err(IngestError::ZeroByteCount));
}

#[test]
fn wire_message_ingestion_records_rate() {
    let mut s = Stats::new(10, "n".to_string());
    let m = PendingTxMessage { sent_time_millis: 1000, data: vec![0u8; 1000] };
    let wire = m.encode();
    // received 200 ms after it was sent: 200 ms over 1000 bytes is
    // 200_000 ns per byte
    let out = s.ingest_wire_transmission("south".to_string(), &wire, 1200);
    assert_eq!(out, WireIngestOutcome::Recorded);
    assert!(s.render().contains("south: 200000\n"));
}

#[test]
fn wire_message_with_clock_skew_is_dropped() {
    let mut s = Stats::new(10, "n".to_string());
    let m = PendingTxMessage { sent_time_millis: 1200, data: vec![0u8; 10] };
    let wire = m.encode();
    // the receiver's clock is behind the sender's
    let skew = s.ingest_wire_transmission("p".to_string(), &wire, 1000);
    assert_eq!(skew, WireIngestOutcome::NoUsableElapsed);
    // zero elapsed time degrades to "no data" as well
    let zero = s.ingest_wire_transmission("p".to_string(), &wire, 1200);
    assert_eq!(zero, WireIngestOutcome::NoUsableElapsed);
    assert_eq!(s.peer_count(), 0);
}

#[test]
fn wire_garbage_is_dropped_not_fatal() {
    let mut s = Stats::new(10, "n".to_string());
    let short = s.ingest_wire_transmission("p".to_string(), &[1, 2, 3], 99);
    assert_eq!(short, WireIngestOutcome::Undecodable(DecodeError::TooShort));
    let m = PendingTxMessage { sent_time_millis: 1, data: vec![7; 4] };
    let mut tampered = m.encode();
    tampered.truncate(tampered.len() - 1);
    let mismatch = s.ingest_wire_transmission("p".to_string(), &tampered, 99);
    assert_eq!(mismatch, WireIngestOutcome::Undecodable(DecodeError::LengthMismatch));
    assert_eq!(s.peer_count(), 0);
}

#[test]
fn wire_empty_payload_is_rejected() {
    let mut s = Stats::new(10, "n".to_string());
    let m = PendingTxMessage { sent_time_millis: 1000, data: vec![] };
    let wire = m.encode();
    let out = s.ingest_wire_transmission("p".to_string(), &wire, 1500);
    assert_eq!(out, WireIngestOutcome::Rejected(IngestError::ZeroByteCount));
    assert_eq!(s.peer_count(), 0);
}
