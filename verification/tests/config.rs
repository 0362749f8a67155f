use ambient_fs::config::{
    app_file_under, config_path, default_db_path, default_machine_id, join_path, to_server_config, DaemonConfig,
    ServerConfig,
};

#[test]
fn default_db_path_returns_ambient_fs_subdir() {
    let path = default_db_path();
    assert!(path.contains("ambient-fs"));
    assert!(path.ends_with("events.db"));
}

#[test]
fn config_path_default_ends_with_config_toml() {
    let path = config_path(None);
    assert!(path.contains("ambient-fs"), "path should contain ambient-fs: {}", path);
    assert!(path.ends_with("config.toml"), "path should end with config.toml: {}", path);
}

#[test]
fn config_path_env_override() {
    let path = config_path(Some("/custom/path/config.toml".to_string()));
    assert_eq!(path, "/custom/path/config.toml");
}

#[test]
fn default_generates_uuid_machine_id() {
    let config = DaemonConfig::default();
    let uuid = uuid::Uuid::parse_str(&config.machine_id);
    assert!(uuid.is_ok());
}

#[test]
fn default_machine_id_is_unique() {
    let c1 = DaemonConfig::default();
    let c2 = DaemonConfig::default();
    assert_ne!(c1.machine_id, c2.machine_id);
}

#[test]
fn default_has_expected_db_path() {
    let config = DaemonConfig::default();
    assert!(config.db_path.contains("ambient-fs"));
    assert!(config.db_path.ends_with("events.db"));
}

#[test]
fn default_has_expected_socket_path() {
    let config = DaemonConfig::default();
    assert_eq!(config.socket_path, "/tmp/ambient-fs.sock");
}

#[test]
fn default_debounce_is_100ms() {
    let config = DaemonConfig::default();
    assert_eq!(config.debounce_ms, 100);
}

#[test]
fn default_max_file_size_is_10mb() {
    let config = DaemonConfig::default();
    assert_eq!(config.max_file_size_bytes, 10 * 1024 * 1024);
}

#[test]
fn default_log_level_is_info() {
    let config = DaemonConfig::default();
    assert_eq!(config.log_level, "info");
}

#[test]
fn to_server_config_maps_fields() {
    let daemon_config = DaemonConfig {
        machine_id: "test-machine".to_string(),
        db_path: "/tmp/test.db".to_string(),
        socket_path: "/tmp/test.sock".to_string(),
        debounce_ms: 250,
        max_file_size_bytes: 5000,
        log_level: "trace".to_string(),
    };
    let server_config = to_server_config(&daemon_config);
    assert_eq!(server_config.machine_id, "test-machine");
    assert_eq!(server_config.db_path, "/tmp/test.db");
    assert_eq!(server_config.socket_path, "/tmp/test.sock");
    assert_eq!(server_config.debounce_ms, 250);
    assert_eq!(server_config.max_file_size_bytes, 5000);
}

#[test]
fn join_path_inserts_one_separator() {
    assert_eq!(join_path("/home/a", "b"), "/home/a/b");
    assert_eq!(join_path("/home/a/", "b"), "/home/a/b");
    assert_eq!(join_path("", "b"), "b");
}

#[test]
fn app_file_under_falls_back_to_tmp() {
    assert_eq!(app_file_under(None, "events.db"), "/tmp/ambient-fs/events.db");
    assert_eq!(app_file_under(Some("/data".to_string()), "config.toml"), "/data/ambient-fs/config.toml");
}

#[test]
fn server_defaults() {
    let config = ServerConfig::defaults_for("host-1".to_string());
    assert_eq!(config.db_path, "/tmp/ambient-fs/events.db");
    assert_eq!(config.socket_path, "/tmp/ambient-fs.sock");
    assert_eq!(config.debounce_ms, 100);
    assert_eq!(config.max_file_size_bytes, 10 * 1024 * 1024);
    assert_eq!(config.machine_id, "host-1");
}

#[test]
fn machine_id_prefers_hostname() {
    assert_eq!(default_machine_id(Some("h".to_string()), Some("c".to_string())), "h");
    assert_eq!(default_machine_id(None, Some("c".to_string())), "c");
    assert_eq!(default_machine_id(None, None), "localhost");
}
