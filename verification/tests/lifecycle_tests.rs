use node_stats::lifecycle::{LifecycleState, Node};
use node_stats::store::IngestError;

#[test]
fn terminal_snapshot_is_taken_exactly_once() {
    let mut n = Node::new(100, "me".to_string());
    assert!(n.ingest_ping("east".to_string(), 44));
    let first = n.fire_ttl();
    assert!(first.is_some());
    let second = n.fire_ttl();
    assert!(second.is_none());
    let third = n.fire_ttl();
    assert!(third.is_none());
}

#[test]
fn terminal_snapshot_reflects_state_at_ttl_instant() {
    let mut n = Node::new(100, "me".to_string());
    assert!(n.ingest_ping("east".to_string(), 44));
    let before = n.handle_stats_request();
    let snapshot = n.fire_ttl().expect("first ttl must yield the snapshot");
    // the snapshot is exactly the summary of what was ingested before it
    assert_eq!(snapshot, before);
    // an ingestion racing with the ttl lands entirely after the snapshot:
    // it is dropped, so the state the snapshot showed is still the state
    assert!(!n.ingest_ping("east".to_string(), 999));
    assert_eq!(n.handle_stats_request(), snapshot);
}

#[test]
fn no_mutation_after_leaving_running() {
    let mut n = Node::new(100, "me".to_string());
    assert!(n.ingest_ping("P".to_string(), 1));
    let _ = n.fire_ttl();
    assert_eq!(n.state(), LifecycleState::Draining);
    assert!(!n.ingest_ping("P".to_string(), 2));
    assert_eq!(n.ingest_transmission("P".to_string(), 1000, 10), Ok(false));
    n.persist_handled();
    assert_eq!(n.state(), LifecycleState::Terminated);
    assert!(!n.ingest_ping("P".to_string(), 3));
    n.persist_handled();
    assert_eq!(n.state(), LifecycleState::Terminated);
}

#[test]
fn stats_request_does_not_alter_lifecycle() {
    let mut n = Node::new(100, "me".to_string());
    assert!(n.ingest_ping("P".to_string(), 5));
    let _ = n.handle_stats_request();
    let _ = n.handle_stats_request();
    assert_eq!(n.state(), LifecycleState::Running);
    assert!(n.ingest_ping("P".to_string(), 6));
}

#[test]
fn running_node_ingests_transmissions() {
    let mut n = Node::new(100, "me".to_string());
    assert_eq!(n.ingest_transmission("P".to_string(), 8000, 1000), Ok(true));
    assert_eq!(
        n.ingest_transmission("P".to_string(), 8000, 0),
        Err(IngestError::ZeroByteCount)
    );
    let text = n.handle_stats_request();
    assert!(text.contains("P: 8\n"));
}
