use ambient_fs::agents::AgentActivity;
use ambient_fs::state::ServerState;
use ambient_fs::watcher::FsWatcher;

fn state() -> ServerState {
    ServerState::new("/tmp/test.db", None)
}

#[test]
fn new_creates_state_with_store_path() {
    let state = ServerState::new("/tmp/test.db", None);
    assert_eq!(state.store_path(), "/tmp/test.db");
}

#[test]
fn new_has_empty_projects() {
    let state = ServerState::new("/tmp/test.db", None);
    assert!(state.list_projects().is_empty());
    assert!(!state.has_project("anything"));
}

#[test]
fn add_project_inserts_mapping() {
    let mut state = state();
    state.add_project("proj-1".to_string(), "/home/user/proj1".to_string());
    assert!(state.has_project("proj-1"));
    assert_eq!(state.get_project("proj-1"), Some("/home/user/proj1".to_string()));
}

#[test]
fn add_multiple_projects() {
    let mut state = state();
    state.add_project("proj-1".to_string(), "/a/b".to_string());
    state.add_project("proj-2".to_string(), "/c/d".to_string());
    state.add_project("proj-3".to_string(), "/e/f".to_string());
    let mut projects = state.list_projects();
    projects.sort();
    assert_eq!(projects, vec!["proj-1", "proj-2", "proj-3"]);
}

#[test]
fn add_project_overwrites_existing() {
    let mut state = state();
    state.add_project("proj-1".to_string(), "/old/path".to_string());
    state.add_project("proj-1".to_string(), "/new/path".to_string());
    assert_eq!(state.get_project("proj-1"), Some("/new/path".to_string()));
}

#[test]
fn remove_project_deletes_mapping() {
    let mut state = state();
    state.add_project("proj-1".to_string(), "/a/b".to_string());
    let removed = state.remove_project("proj-1");
    assert_eq!(removed, Some("/a/b".to_string()));
    assert!(!state.has_project("proj-1"));
}

#[test]
fn remove_nonexistent_project_returns_none() {
    let mut state = state();
    assert_eq!(state.remove_project("nonexistent"), None);
}

#[test]
fn get_project_returns_none_for_unknown() {
    let state = state();
    assert_eq!(state.get_project("unknown"), None);
}

#[test]
fn get_project_returns_path_for_known() {
    let mut state = state();
    state.add_project("my-project".to_string(), "/home/user/myproject".to_string());
    assert_eq!(state.get_project("my-project"), Some("/home/user/myproject".to_string()));
}

#[test]
fn has_project_returns_false_for_empty() {
    let state = state();
    assert!(!state.has_project("anything"));
}

#[test]
fn has_project_returns_true_after_add() {
    let mut state = state();
    state.add_project("proj-1".to_string(), "/a".to_string());
    assert!(state.has_project("proj-1"));
}

#[test]
fn list_projects_returns_empty_initially() {
    let state = state();
    assert!(state.list_projects().is_empty());
}

#[test]
fn list_projects_returns_all_ids() {
    let mut state = state();
    state.add_project("aaa".to_string(), "/a".to_string());
    state.add_project("zzz".to_string(), "/z".to_string());
    state.add_project("mmm".to_string(), "/m".to_string());
    let mut projects = state.list_projects();
    projects.sort();
    assert_eq!(projects, vec!["aaa", "mmm", "zzz"]);
}

#[test]
fn subscriptions_field_accessible() {
    let mut state = state();
    state.subscriptions.subscribe("test-project");
    assert_eq!(state.subscriptions.subscriber_count("test-project"), 1);
}

#[test]
fn new_has_empty_watchers() {
    let state = state();
    assert!(state.get_watcher("proj-1").is_none());
}

#[test]
fn add_watcher_stores_watcher() {
    let mut state = state();
    let watcher = FsWatcher::new(100, "proj-1", "machine-1");
    state.add_watcher("proj-1".to_string(), watcher);
    assert!(state.get_watcher("proj-1").is_some());
}

#[test]
fn remove_watcher_removes_from_state() {
    let mut state = state();
    let watcher = FsWatcher::new(100, "proj-1", "machine-1");
    state.add_watcher("proj-1".to_string(), watcher);
    let removed = state.remove_watcher("proj-1");
    assert!(removed.is_some());
    assert!(state.get_watcher("proj-1").is_none());
}

#[test]
fn remove_nonexistent_watcher_returns_none() {
    let mut state = state();
    assert!(state.remove_watcher("nonexistent").is_none());
}

#[test]
fn new_has_machine_id() {
    let state = ServerState::new("/tmp/test.db", None);
    assert!(!state.machine_id.is_empty());
}

#[test]
fn new_takes_host_name_as_machine_id() {
    assert_eq!(ServerState::new("/tmp/test.db", None).machine_id, "unknown");
    assert_eq!(ServerState::new("/tmp/test.db", Some("box".to_string())).machine_id, "box");
}

#[test]
fn with_machine_id_uses_custom_id() {
    let state = ServerState::with_machine_id("/tmp/test.db", "custom-machine");
    assert_eq!(state.machine_id, "custom-machine");
}

#[test]
fn agent_activity_reaches_tracker() {
    let mut state = state();
    let now = std::time::SystemTime::now().duration_since(std::time::UNIX_EPOCH).unwrap().as_secs() as i64;
    let activity = AgentActivity::new(now, "agent-b", "edit", "src/a.rs");
    state.update_agent_activity(&activity);
    assert_eq!(state.agent_tracker.get_reference_count("src/a.rs"), 1);
    assert_eq!(state.get_active_agent("src/a.rs"), Some("agent-b".to_string()));
    assert_eq!(state.get_all_agents().len(), 1);
    assert_eq!(state.prune_stale_agents(), 0);
}
