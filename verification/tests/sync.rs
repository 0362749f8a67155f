use ambient_fs::sync::{duplicate_query, has_duplicate, SyncManager};
use std::time::Duration;
use ambient_fs::sync::{PeerConfig, SyncError};

#[test]
fn new_creates_config_with_addr_and_project() {
    let config = PeerConfig::new("192.168.1.50:50051", "my-project");
    assert_eq!(config.addr, "192.168.1.50:50051");
    assert_eq!(config.project_id, "my-project");
}

#[test]
fn new_with_string_types() {
    let addr = "localhost:8080".to_string();
    let project = "test-proj".to_string();
    let config = PeerConfig::new(&addr, &project);
    assert_eq!(config.addr, addr);
    assert_eq!(config.project_id, project);
}

#[test]
fn peer_config_partial_eq() {
    let config1 = PeerConfig::new("peer1:50051", "proj");
    let config2 = PeerConfig::new("peer1:50051", "proj");
    let config3 = PeerConfig::new("peer2:50051", "proj");
    assert_eq!(config1, config2);
    assert_ne!(config1, config3);
}

#[test]
fn sync_error_connection_display() {
    let err = SyncError::Connection("connect failed".to_string());
    assert_eq!(err.message(), "connection error: connect failed");
}

#[test]
fn sync_error_rpc_display() {
    let err = SyncError::Rpc("status Unknown".to_string());
    assert_eq!(err.message(), "rpc error: status Unknown");
}

#[test]
fn sync_error_stream_display() {
    let err = SyncError::Stream("eof".to_string());
    assert_eq!(err.message(), "stream error: eof");
}

#[test]
fn sync_error_conversion_display() {
    let err = SyncError::Conversion("invalid timestamp".to_string());
    assert_eq!(err.message(), "conversion error: invalid timestamp");
}

#[test]
fn sync_error_store_display() {
    let err = SyncError::Store("database locked".to_string());
    assert_eq!(err.message(), "store error: database locked");
}

fn test_state() -> ambient_fs::state::ServerState {
    ambient_fs::state::ServerState::with_machine_id("/tmp/store.db", "local")
}

fn msg(machine: &str, event_type: &str) -> ambient_fs::grpc::FileEventMessage {
    ambient_fs::grpc::FileEventMessage {
        timestamp: 1_700_000_000,
        event_type: event_type.to_string(),
        file_path: "src/a.rs".to_string(),
        project_id: "proj".to_string(),
        source: "user".to_string(),
        source_id: None,
        machine_id: machine.to_string(),
        content_hash: None,
        old_path: None,
    }
}

#[test]
fn new_creates_manager_with_state_and_peers() {
    let state = test_state();
    let peers = vec![PeerConfig::new("peer1:50051", "proj1"), PeerConfig::new("peer2:50051", "proj2")];
    let mgr = SyncManager::new(&state, peers.clone());
    assert_eq!(mgr.peers.len(), 2);
    assert_eq!(mgr.peers[0].addr, "peer1:50051");
    assert_eq!(mgr.peers[1].addr, "peer2:50051");
}

#[test]
fn new_with_empty_peers() {
    let state = test_state();
    let mgr = SyncManager::new(&state, vec![]);
    assert!(mgr.peers.is_empty());
}

#[test]
fn new_has_default_interval_30_seconds() {
    let state = test_state();
    let mgr = SyncManager::new(&state, vec![PeerConfig::new("peer1:50051", "proj1")]);
    assert_eq!(mgr.sync_interval, Duration::from_secs(30));
}

#[test]
fn new_has_empty_last_sync() {
    let state = test_state();
    let mgr = SyncManager::new(&state, vec![PeerConfig::new("peer1:50051", "proj1")]);
    assert_eq!(mgr.last_sync.len(), 0);
}

#[test]
fn with_interval_sets_custom_interval() {
    let state = test_state();
    let mgr = SyncManager::new(&state, vec![PeerConfig::new("peer1:50051", "proj1")]).with_interval(Duration::from_secs(60));
    assert_eq!(mgr.sync_interval, Duration::from_secs(60));
}

#[test]
fn with_interval_zero_duration() {
    let state = test_state();
    let mgr = SyncManager::new(&state, vec![PeerConfig::new("peer1:50051", "proj1")]).with_interval(Duration::ZERO);
    assert_eq!(mgr.sync_interval, Duration::ZERO);
}

#[test]
fn sync_peer_skips_events_from_local_machine_id() {
    let state = test_state();
    let mgr = SyncManager::new(&state, vec![]);
    assert!(matches!(mgr.accept_message(&msg("local", "modified"), &[]), Ok(None)));
}

#[test]
fn event_exists_returns_true_for_duplicate_event() {
    let state = test_state();
    let mgr = SyncManager::new(&state, vec![]);
    let incoming = mgr.accept_message(&msg("remote", "modified"), &[]).unwrap().unwrap();
    assert!(has_duplicate(&incoming, &[incoming.clone()]));
    assert!(matches!(mgr.accept_message(&msg("remote", "modified"), &[incoming]), Ok(None)));
}

#[test]
fn event_exists_returns_false_for_new_event() {
    let state = test_state();
    let mgr = SyncManager::new(&state, vec![]);
    let incoming = mgr.accept_message(&msg("remote", "modified"), &[]).unwrap().unwrap();
    let other = incoming.clone().with_timestamp(incoming.timestamp + 1);
    assert!(!has_duplicate(&incoming, &[other]));
    assert_eq!(incoming.machine_id, "local");
    assert_eq!(incoming.timestamp, 1_700_000_000_000);
}

#[test]
fn unconvertible_messages_are_conversion_errors() {
    let state = test_state();
    let mgr = SyncManager::new(&state, vec![]);
    match mgr.accept_message(&msg("remote", "exploded"), &[]) {
        Err(SyncError::Conversion(m)) => assert_eq!(m, "failed to convert event for src/a.rs"),
        other => panic!("expected a conversion error, got {:?}", other),
    }
}

#[test]
fn last_sync_tracks_timestamps_per_peer() {
    let state = test_state();
    let mut mgr = SyncManager::new(&state, vec![PeerConfig::new("peer1:50051", "proj1")]);
    assert_eq!(mgr.since_for("peer1:50051"), 0);
    mgr.record_sync("peer1:50051".to_string(), 100);
    mgr.record_sync("peer2:50051".to_string(), 200);
    assert_eq!(mgr.since_for("peer1:50051"), 100);
    assert_eq!(mgr.since_for("peer2:50051"), 200);
    let req = mgr.request_for(&PeerConfig::new("peer1:50051", "proj1"));
    assert_eq!(req.project_id, "proj1");
    assert_eq!(req.machine_id, "local");
    assert_eq!(req.since_timestamp, 100);
}

#[test]
fn duplicate_query_looks_one_second_back() {
    let event = ambient_fs::event::FileEvent::new(ambient_fs::event::EventType::Created, "a.rs", "p", "m").with_timestamp(5_000);
    let f = duplicate_query(&event).unwrap();
    assert_eq!(f.since, Some(4_000));
    assert_eq!(f.project_id, Some("p".to_string()));
    assert_eq!(f.file_path, Some("a.rs".to_string()));
    assert!(duplicate_query(&event.with_timestamp(i64::MIN)).is_none());
}
