use node_stats::store::{IngestError, MetricsStore};

const MS: u64 = 1_000_000;

#[test]
fn first_observation_creates_entry() {
    let mut s = MetricsStore::new(100);
    s.record_ping("north".to_string(), 5 * MS);
    assert_eq!(s.len(), 1);
    assert_eq!(s.ping_samples_at(0), vec![5 * MS]);
    assert_eq!(s.transmission_samples_at(0), Vec::<u64>::new());
}

#[test]
fn distinct_peers_get_distinct_entries() {
    let mut s = MetricsStore::new(100);
    s.record_ping("A".to_string(), 1);
    s.record_ping("B".to_string(), 2);
    s.record_ping("C".to_string(), 3);
    assert_eq!(s.len(), 3);
    assert_eq!(s.peer_name_at(0).as_str(), "A");
    assert_eq!(s.peer_name_at(1).as_str(), "B");
    assert_eq!(s.peer_name_at(2).as_str(), "C");
    assert_eq!(s.ping_samples_at(0), vec![1]);
    assert_eq!(s.ping_samples_at(1), vec![2]);
    assert_eq!(s.ping_samples_at(2), vec![3]);
}

#[test]
fn repeated_pings_for_one_peer_lose_nothing() {
    let mut s = MetricsStore::new(5);
    s.record_ping("P".to_string(), 10);
    s.record_ping("P".to_string(), 20);
    s.record_ping("P".to_string(), 30);
    assert_eq!(s.len(), 1);
    assert_eq!(s.ping_samples_at(0).len(), 3);
    assert_eq!(s.ping_samples_at(0), vec![10, 20, 30]);
}

#[test]
fn store_evicts_oldest_at_capacity() {
    let mut s = MetricsStore::new(2);
    s.record_ping("P".to_string(), 1);
    s.record_ping("P".to_string(), 2);
    s.record_ping("P".to_string(), 3);
    assert_eq!(s.ping_samples_at(0), vec![2, 3]);
}

#[test]
fn transmission_rate_scenario() {
    let mut s = MetricsStore::new(100);
    // 200 ms over 1000 bytes is 0.2 ms per byte, i.e. 200_000 ns per byte.
    let r = s.record_transmission("south".to_string(), 200 * MS, 1000);
    assert_eq!(r, Ok(()));
    assert_eq!(s.transmission_samples_at(0), vec![200_000]);
    // A zero-length payload is rejected and the window left unchanged.
    let r2 = s.record_transmission("south".to_string(), 50 * MS, 0);
    assert_eq!(r2, Err(IngestError::ZeroByteCount));
    assert_eq!(s.transmission_samples_at(0), vec![200_000]);
    assert_eq!(s.transmission_samples_at(0).len(), 1);
}

#[test]
fn zero_byte_count_for_new_peer_creates_no_entry() {
    let mut s = MetricsStore::new(100);
    let r = s.record_transmission("Q".to_string(), 5, 0);
    assert_eq!(r, Err(IngestError::ZeroByteCount));
    assert_eq!(s.len(), 0);
}

#[test]
fn ping_and_transmission_windows_are_independent() {
    let mut s = MetricsStore::new(100);
    s.record_ping("P".to_string(), 9);
    let _ = s.record_transmission("P".to_string(), 4000, 1000);
    assert_eq!(s.len(), 1);
    assert_eq!(s.ping_samples_at(0), vec![9]);
    assert_eq!(s.transmission_samples_at(0), vec![4]);
}

#[test]
fn snapshot_reports_per_peer_averages() {
    let mut s = MetricsStore::new(100);
    s.record_ping("A".to_string(), 10);
    s.record_ping("A".to_string(), 20);
    let _ = s.record_transmission("B".to_string(), 3000, 1000);
    let summary = s.snapshot();
    assert_eq!(summary.peers.len(), 2);
    assert_eq!(summary.peers[0].peer, "A");
    assert_eq!(summary.peers[0].ping_average, Some(15));
    assert_eq!(summary.peers[0].transmission_average, None);
    assert_eq!(summary.peers[1].peer, "B");
    assert_eq!(summary.peers[1].ping_average, None);
    assert_eq!(summary.peers[1].transmission_average, Some(3));
}
