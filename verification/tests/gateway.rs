use ambient_fs::gateway::{check_register, DaemonConnection, GatewayServer, MAX_BUFFER_SIZE};
use ambient_fs::grpc::FileEventMessage;

fn event(path: &str) -> FileEventMessage {
    FileEventMessage {
        timestamp: 1_700_000_000,
        event_type: "modified".to_string(),
        file_path: path.to_string(),
        project_id: "proj-1".to_string(),
        source: "user".to_string(),
        source_id: None,
        machine_id: "machine-1".to_string(),
        content_hash: None,
        old_path: None,
    }
}

fn server() -> GatewayServer {
    GatewayServer::new("127.0.0.1:50052")
}

#[test]
fn new_creates_connection_with_timestamps() {
    let conn = DaemonConnection::new("machine-1", 5_000);
    assert_eq!(conn.machine_id, "machine-1");
    assert_eq!(conn.connected_at, 5_000);
    assert_eq!(conn.last_seen, 5_000);
}

#[test]
fn update_last_seen_refreshes_timestamp() {
    let mut conn = DaemonConnection::new("machine-1", 5_000);
    let first_seen = conn.last_seen;
    assert!(!conn.is_stale(10, 5_000));
    conn.update_last_seen(5_010);
    assert!(conn.last_seen > first_seen);
}

#[test]
fn is_stale_returns_true_when_timeout_exceeded() {
    let conn = DaemonConnection::new("machine-1", 0);
    assert!(!conn.is_stale(10, 0));
    assert!(!conn.is_stale(0, 0));
    assert!(!conn.is_stale(10, 10_999));
    assert!(conn.is_stale(10, 11_000));
}

#[test]
fn new_creates_server_with_addr() {
    let server = server();
    assert_eq!(server.addr(), "127.0.0.1:50052");
    assert_eq!(server.project_count(), 0);
    assert_eq!(server.buffered_project_count(), 0);
}

#[test]
fn register_daemon_adds_to_routing_table() {
    let mut server = server();
    server.register_daemon("proj-1".to_string(), "machine-1".to_string(), 0);
    assert_eq!(server.project_count(), 1);
    let conns = server.connections("proj-1").unwrap();
    assert_eq!(conns.len(), 1);
    assert_eq!(conns[0].machine_id, "machine-1");
}

#[test]
fn register_multiple_daemons_same_project() {
    let mut server = server();
    server.register_daemon("proj-1".to_string(), "machine-1".to_string(), 0);
    server.register_daemon("proj-1".to_string(), "machine-2".to_string(), 0);
    assert_eq!(server.project_count(), 1);
    assert_eq!(server.connections("proj-1").unwrap().len(), 2);
}

#[test]
fn register_daemons_different_projects() {
    let mut server = server();
    server.register_daemon("proj-1".to_string(), "machine-1".to_string(), 0);
    server.register_daemon("proj-2".to_string(), "machine-2".to_string(), 0);
    assert_eq!(server.project_count(), 2);
    assert_eq!(server.connections("proj-1").unwrap().len(), 1);
    assert_eq!(server.connections("proj-2").unwrap().len(), 1);
}

#[test]
fn unregister_daemon_removes_from_routing_table() {
    let mut server = server();
    server.register_daemon("proj-1".to_string(), "machine-1".to_string(), 0);
    assert_eq!(server.connections("proj-1").unwrap().len(), 1);
    server.unregister_daemon("proj-1", "machine-1");
    assert_eq!(server.connections("proj-1").unwrap().len(), 0);
}

#[test]
fn unregister_nonexistent_daemon_is_noop() {
    let mut server = server();
    server.unregister_daemon("proj-1", "machine-1");
    assert_eq!(server.project_count(), 0);
}

#[test]
fn unregister_one_daemon_leaves_others() {
    let mut server = server();
    server.register_daemon("proj-1".to_string(), "machine-1".to_string(), 0);
    server.register_daemon("proj-1".to_string(), "machine-2".to_string(), 0);
    server.unregister_daemon("proj-1", "machine-1");
    let conns = server.connections("proj-1").unwrap();
    assert_eq!(conns.len(), 1);
    assert_eq!(conns[0].machine_id, "machine-2");
}

#[test]
fn forward_event_to_other_daemons() {
    let mut server = server();
    server.register_daemon("proj-1".to_string(), "machine-1".to_string(), 0);
    server.register_daemon("proj-1".to_string(), "machine-2".to_string(), 0);
    let targets = server.forward_event("proj-1", "machine-1", 10);
    assert_eq!(targets, vec!["machine-2".to_string()]);
}

#[test]
fn forward_event_does_not_go_back_to_sender() {
    let mut server = server();
    server.register_daemon("proj-1".to_string(), "machine-1".to_string(), 0);
    let targets = server.forward_event("proj-1", "machine-1", 10);
    assert_eq!(targets.len(), 0);
}

#[test]
fn forward_event_to_multiple_daemons() {
    let mut server = server();
    server.register_daemon("proj-1".to_string(), "machine-1".to_string(), 0);
    server.register_daemon("proj-1".to_string(), "machine-2".to_string(), 0);
    server.register_daemon("proj-1".to_string(), "machine-3".to_string(), 0);
    let targets = server.forward_event("proj-1", "machine-1", 10);
    assert_eq!(targets.len(), 2);
}

#[test]
fn forward_marks_sender_seen() {
    let mut server = server();
    server.register_daemon("proj-1".to_string(), "machine-1".to_string(), 0);
    server.register_daemon("proj-1".to_string(), "machine-2".to_string(), 0);
    server.forward_event("proj-1", "machine-1", 7_000);
    let conns = server.connections("proj-1").unwrap();
    assert_eq!(conns[0].last_seen, 7_000);
    assert_eq!(conns[1].last_seen, 0);
    assert!(server.forward_event("unknown", "machine-1", 7_000).is_empty());
}

#[test]
fn buffer_event_adds_to_buffer() {
    let mut server = server();
    server.buffer_event("proj-1".to_string(), event("test.rs"));
    assert_eq!(server.buffered_project_count(), 1);
    let buffered = server.get_buffered_events("proj-1");
    assert_eq!(buffered.len(), 1);
    assert_eq!(buffered[0].file_path, "test.rs");
}

#[test]
fn buffer_evicts_oldest_when_full() {
    let mut server = server();
    for i in 0..(MAX_BUFFER_SIZE + 10) {
        server.buffer_event("proj-1".to_string(), event(&format!("file{}.rs", i)));
    }
    let buffered = server.get_buffered_events("proj-1");
    assert_eq!(buffered.len(), MAX_BUFFER_SIZE);
    assert_ne!(buffered[0].file_path, "file0.rs");
    assert_eq!(buffered[0].file_path, "file10.rs");
    assert_eq!(buffered[MAX_BUFFER_SIZE - 1].file_path, format!("file{}.rs", MAX_BUFFER_SIZE + 9));
}

#[test]
fn get_buffered_events_returns_all_for_project() {
    let mut server = server();
    server.buffer_event("proj-1".to_string(), event("file1.rs"));
    server.buffer_event("proj-1".to_string(), event("file2.rs"));
    assert_eq!(server.get_buffered_events("proj-1").len(), 2);
}

#[test]
fn get_buffered_events_returns_empty_for_unknown_project() {
    let server = server();
    assert!(server.get_buffered_events("unknown-proj").is_empty());
}

#[test]
fn cleanup_drops_only_stale_connections() {
    let mut server = server();
    server.register_daemon("proj-1".to_string(), "old".to_string(), 0);
    server.register_daemon("proj-1".to_string(), "new".to_string(), 290_000);
    server.register_daemon("proj-2".to_string(), "gone".to_string(), 0);
    server.cleanup_stale_connections(300, 301_000);
    let conns = server.connections("proj-1").unwrap();
    assert_eq!(conns.len(), 1);
    assert_eq!(conns[0].machine_id, "new");
    assert_eq!(server.connections("proj-2").unwrap().len(), 0);
    assert_eq!(server.project_count(), 2);
}

#[test]
fn register_with_empty_project_id_returns_error() {
    let err = check_register("", "machine-1").unwrap_err();
    assert!(err.contains("project_id"));
}

#[test]
fn register_with_empty_machine_id_returns_error() {
    let err = check_register("proj-1", "").unwrap_err();
    assert!(err.contains("machine_id"));
}

#[test]
fn register_with_valid_params_succeeds() {
    assert!(check_register("proj-1", "machine-1").is_ok());
    let mut server = server();
    server.register_daemon("proj-1".to_string(), "machine-1".to_string(), 0);
    let conns = server.connections("proj-1").unwrap();
    assert_eq!(conns.len(), 1);
    assert_eq!(conns[0].machine_id, "machine-1");
}
