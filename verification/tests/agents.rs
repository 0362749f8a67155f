use ambient_fs::agents::{AgentActivity, AgentState, AgentTracker};

fn now() -> i64 {
    chrono::Utc::now().timestamp()
}

fn decode(line: &str) -> Result<AgentActivity, serde_json::Error> {
    let v: serde_json::Value = serde_json::from_str(line.trim())?;
    let text = |k: &str| -> Result<String, serde_json::Error> {
        match v.get(k).and_then(|x| x.as_str()) {
            Some(s) => Ok(s.to_string()),
            None => Err(serde_json::from_str::<serde_json::Value>("missing").unwrap_err()),
        }
    };
    let opt = |k: &str| v.get(k).and_then(|x| x.as_str()).map(|s| s.to_string());
    Ok(AgentActivity {
        ts: v.get("ts").and_then(|x| x.as_i64()).unwrap_or(0),
        agent: text("agent")?,
        action: text("action")?,
        file: text("file")?,
        project: opt("project"),
        tool: opt("tool"),
        session: opt("session"),
        intent: opt("intent"),
        lines: None,
        done: v.get("done").and_then(|x| x.as_bool()),
    })
}

fn process(tracker: &AgentTracker, line: &str) -> Option<AgentActivity> {
    tracker.process_line(line, decode(line))
}

#[test]
fn activity_new_creates_minimal() {
    let activity = AgentActivity::new(1708099200, "agent-1", "edit", "src/main.rs");
    assert_eq!(activity.ts, 1708099200);
    assert_eq!(activity.agent, "agent-1");
    assert_eq!(activity.action, "edit");
    assert_eq!(activity.file, "src/main.rs");
    assert!(activity.project.is_none());
    assert!(activity.intent.is_none());
}

#[test]
fn activity_is_done_checks_flag() {
    let mut activity = AgentActivity::new(1708099200, "agent-1", "edit", "src/foo.rs");
    assert!(!activity.is_done());
    activity.done = Some(true);
    assert!(activity.is_done());
    activity.done = Some(false);
    assert!(!activity.is_done());
}

#[test]
fn activity_timestamp_parses_unix_ts() {
    let activity = AgentActivity::new(1708099200, "agent-1", "edit", "src/foo.rs");
    assert_eq!(activity.timestamp(), 1708099200);
    let far = AgentActivity::new(i64::MAX, "a", "edit", "f");
    assert_eq!(far.timestamp_at(42), 42);
}

#[test]
fn state_new_creates_empty() {
    let state = AgentState::new("agent-1");
    assert_eq!(state.agent_id, "agent-1");
    assert!(state.files.is_empty());
    assert!(state.intent.is_none());
    assert!(state.tool.is_none());
}

#[test]
fn state_is_stale_timeout() {
    let mut state = AgentState::new("agent-1");
    assert!(!state.is_stale(300));
    state.last_seen = now() - 301;
    assert!(state.is_stale(300));
    assert!(!state.is_stale_at(300, state.last_seen + 300));
    assert!(state.is_stale_at(300, state.last_seen + 301));
}

#[test]
fn new_creates_tracker() {
    let tracker = AgentTracker::new(60);
    assert_eq!(tracker.stale_timeout(), 60);
}

#[test]
fn with_default_timeout_uses_5_minutes() {
    let tracker = AgentTracker::with_default_timeout();
    assert_eq!(tracker.stale_timeout(), 300);
}

#[test]
fn process_line_valid_json_returns_activity() {
    let tracker = AgentTracker::with_default_timeout();
    let line = r#"{"ts":1708099200,"agent":"agent-1","action":"edit","file":"src/main.rs"}"#;
    let act = process(&tracker, line).unwrap();
    assert_eq!(act.agent, "agent-1");
    assert_eq!(act.action, "edit");
    assert_eq!(act.file, "src/main.rs");
}

#[test]
fn process_line_with_optional_fields() {
    let tracker = AgentTracker::with_default_timeout();
    let line = r#"{"ts":1708099200,"agent":"agent-1","action":"edit","file":"src/main.rs","intent":"fix bug","tool":"cli-assistant"}"#;
    let act = process(&tracker, line).unwrap();
    assert_eq!(act.intent, Some("fix bug".to_string()));
    assert_eq!(act.tool, Some("cli-assistant".to_string()));
}

#[test]
fn process_line_invalid_json_returns_none() {
    let tracker = AgentTracker::with_default_timeout();
    assert!(process(&tracker, "not json").is_none());
}

#[test]
fn process_line_empty_returns_none() {
    let tracker = AgentTracker::with_default_timeout();
    assert!(process(&tracker, "").is_none());
    assert!(process(&tracker, "   ").is_none());
    assert!(process(&tracker, "\n").is_none());
}

#[test]
fn process_line_missing_required_field_returns_none() {
    let tracker = AgentTracker::with_default_timeout();
    assert!(process(&tracker, r#"{"ts":1708099200,"action":"edit","file":"src/main.rs"}"#).is_none());
    assert!(process(&tracker, r#"{"ts":1708099200,"agent":"agent-1","file":"src/main.rs"}"#).is_none());
    assert!(process(&tracker, r#"{"ts":1708099200,"agent":"agent-1","action":"edit"}"#).is_none());
}

#[test]
fn process_line_empty_string_fields_returns_none() {
    let tracker = AgentTracker::with_default_timeout();
    assert!(process(&tracker, r#"{"ts":1708099200,"agent":"","action":"edit","file":"src/main.rs"}"#).is_none());
    assert!(process(&tracker, r#"{"ts":1708099200,"agent":"agent-1","action":"edit","file":""}"#).is_none());
}

#[test]
fn process_line_with_whitespace() {
    let tracker = AgentTracker::with_default_timeout();
    let line = r#"  {"ts":1708099200,"agent":"agent-1","action":"edit","file":"src/main.rs"}  "#;
    assert!(process(&tracker, line).is_some());
}

#[test]
fn update_creates_new_agent() {
    let mut tracker = AgentTracker::with_default_timeout();
    let activity = AgentActivity::new(1708099200, "new-agent", "edit", "src/foo.rs");
    tracker.update_from_activity(&activity, now());
    assert_eq!(tracker.agent_count(), 1);
}

#[test]
fn update_adds_file_to_agent() {
    let mut tracker = AgentTracker::with_default_timeout();
    let activity = AgentActivity::new(1708099200, "agent-1", "edit", "src/foo.rs");
    tracker.update_from_activity(&activity, now());
    let state = tracker.get_agent("agent-1").unwrap();
    assert!(state.files.contains(&"src/foo.rs".to_string()));
}

#[test]
fn update_updates_last_seen() {
    let mut tracker = AgentTracker::with_default_timeout();
    let ts = 1708099200;
    tracker.update_from_activity(&AgentActivity::new(ts, "agent-1", "edit", "src/foo.rs"), now());
    assert_eq!(tracker.get_agent("agent-1").unwrap().last_seen, ts);
}

#[test]
fn update_copies_intent_and_tool() {
    let mut tracker = AgentTracker::with_default_timeout();
    let mut activity = AgentActivity::new(1708099200, "agent-1", "edit", "src/foo.rs");
    activity.intent = Some("fix the bug".to_string());
    activity.tool = Some("cursor".to_string());
    activity.session = Some("sess-1".to_string());
    tracker.update_from_activity(&activity, now());
    let state = tracker.get_agent("agent-1").unwrap();
    assert_eq!(state.intent, Some("fix the bug".to_string()));
    assert_eq!(state.tool, Some("cursor".to_string()));
    assert_eq!(state.session, Some("sess-1".to_string()));
}

#[test]
fn update_done_removes_file_from_active() {
    let mut tracker = AgentTracker::with_default_timeout();
    tracker.update_from_activity(&AgentActivity::new(1708099200, "agent-1", "edit", "src/foo.rs"), now());
    assert!(tracker.get_agent("agent-1").unwrap().files.contains(&"src/foo.rs".to_string()));
    let mut activity2 = AgentActivity::new(1708099300, "agent-1", "edit", "src/foo.rs");
    activity2.done = Some(true);
    tracker.update_from_activity(&activity2, now());
    assert!(!tracker.get_agent("agent-1").unwrap().files.contains(&"src/foo.rs".to_string()));
}

#[test]
fn update_does_not_duplicate_files() {
    let mut tracker = AgentTracker::with_default_timeout();
    let activity = AgentActivity::new(1708099200, "agent-1", "edit", "src/foo.rs");
    tracker.update_from_activity(&activity, now());
    tracker.update_from_activity(&activity, now());
    tracker.update_from_activity(&activity, now());
    assert_eq!(tracker.get_agent("agent-1").unwrap().files.len(), 1);
}

#[test]
fn get_active_agent_returns_none_for_unknown_file() {
    let tracker = AgentTracker::with_default_timeout();
    assert!(tracker.get_active_agent("unknown.rs").is_none());
}

#[test]
fn get_active_agent_returns_agent_with_file() {
    let mut tracker = AgentTracker::with_default_timeout();
    let now = now();
    tracker.update_from_activity(&AgentActivity::new(now, "agent-1", "edit", "src/foo.rs"), now);
    assert_eq!(tracker.get_active_agent("src/foo.rs"), Some("agent-1".to_string()));
}

#[test]
fn get_active_agent_skips_stale_agents() {
    let mut tracker = AgentTracker::new(60);
    let now = now();
    tracker.update_from_activity(&AgentActivity::new(now - 61, "old-agent", "edit", "src/foo.rs"), now);
    assert!(tracker.get_active_agent_at("src/foo.rs", now).is_none());
}

#[test]
fn get_active_agent_returns_most_recent() {
    let mut tracker = AgentTracker::with_default_timeout();
    let now = now();
    tracker.update_from_activity(&AgentActivity::new(now, "agent-1", "edit", "src/foo.rs"), now);
    tracker.update_from_activity(&AgentActivity::new(now + 100, "agent-2", "edit", "src/foo.rs"), now);
    assert_eq!(tracker.get_active_agent("src/foo.rs"), Some("agent-2".to_string()));
}

#[test]
fn get_active_agent_multiple_files_per_agent() {
    let mut tracker = AgentTracker::with_default_timeout();
    let now = now();
    tracker.update_from_activity(&AgentActivity::new(now, "agent-1", "edit", "src/foo.rs"), now);
    tracker.update_from_activity(&AgentActivity::new(now, "agent-1", "edit", "src/bar.rs"), now);
    assert_eq!(tracker.get_active_agent("src/foo.rs"), Some("agent-1".to_string()));
    assert_eq!(tracker.get_active_agent("src/bar.rs"), Some("agent-1".to_string()));
}

#[test]
fn get_all_agents_returns_empty_initially() {
    let tracker = AgentTracker::with_default_timeout();
    assert!(tracker.get_all_agents().is_empty());
}

#[test]
fn get_all_agents_excludes_stale() {
    let mut tracker = AgentTracker::new(60);
    let now = now();
    tracker.update_from_activity(&AgentActivity::new(now - 61, "stale-agent", "edit", "src/old.rs"), now);
    tracker.update_from_activity(&AgentActivity::new(now, "fresh-agent", "edit", "src/new.rs"), now);
    let agents = tracker.get_all_agents_at(now);
    assert_eq!(agents.len(), 1);
    assert_eq!(agents[0].agent_id, "fresh-agent");
}

#[test]
fn prune_stale_removes_old_agents() {
    let mut tracker = AgentTracker::new(60);
    let now = now();
    tracker.update_from_activity(&AgentActivity::new(now, "fresh", "edit", "src/a.rs"), now);
    tracker.update_from_activity(&AgentActivity::new(now - 61, "stale", "edit", "src/b.rs"), now);
    assert_eq!(tracker.agent_count(), 2);
    assert_eq!(tracker.prune_stale_at(now), 1);
    assert_eq!(tracker.agent_count(), 1);
    assert_eq!(tracker.prune_stale_at(now), 0);
}

#[test]
fn prune_stale_returns_zero_when_no_stale() {
    let mut tracker = AgentTracker::with_default_timeout();
    let now = now();
    tracker.update_from_activity(&AgentActivity::new(now, "agent-1", "edit", "src/a.rs"), now);
    assert_eq!(tracker.prune_stale(), 0);
}

#[test]
fn agent_count_returns_zero_initially() {
    let tracker = AgentTracker::with_default_timeout();
    assert_eq!(tracker.agent_count(), 0);
}

#[test]
fn agent_count_includes_stale() {
    let mut tracker = AgentTracker::new(60);
    let now = now();
    tracker.update_from_activity(&AgentActivity::new(1708099200, "agent-1", "edit", "src/a.rs"), now);
    assert_eq!(tracker.agent_count(), 1);
    tracker.update_from_activity(&AgentActivity::new(now - 61, "agent-2", "edit", "src/b.rs"), now);
    assert_eq!(tracker.agent_count(), 2);
}

#[test]
fn active_agent_count_excludes_stale() {
    let mut tracker = AgentTracker::new(60);
    let now = now();
    tracker.update_from_activity(&AgentActivity::new(now, "fresh", "edit", "src/a.rs"), now);
    tracker.update_from_activity(&AgentActivity::new(now - 61, "stale", "edit", "src/b.rs"), now);
    assert_eq!(tracker.active_agent_count_at(now), 1);
}

#[test]
fn multiple_agents_different_files() {
    let mut tracker = AgentTracker::with_default_timeout();
    let now = now();
    tracker.update_from_activity(&AgentActivity::new(now, "agent-1", "edit", "src/auth.rs"), now);
    tracker.update_from_activity(&AgentActivity::new(now + 50, "agent-2", "edit", "src/main.rs"), now);
    tracker.update_from_activity(&AgentActivity::new(now + 100, "agent-3", "edit", "src/models.rs"), now);
    assert_eq!(tracker.active_agent_count(), 3);
    assert_eq!(tracker.get_active_agent("src/auth.rs"), Some("agent-1".to_string()));
    assert_eq!(tracker.get_active_agent("src/main.rs"), Some("agent-2".to_string()));
    assert_eq!(tracker.get_active_agent("src/models.rs"), Some("agent-3".to_string()));
}

#[test]
fn agent_completes_file_work() {
    let mut tracker = AgentTracker::with_default_timeout();
    let now = now();
    tracker.update_from_activity(&AgentActivity::new(now, "agent-1", "edit", "src/auth.rs"), now);
    assert_eq!(tracker.get_active_agent("src/auth.rs"), Some("agent-1".to_string()));
    let mut done = AgentActivity::new(now + 100, "agent-1", "edit", "src/auth.rs");
    done.done = Some(true);
    tracker.update_from_activity(&done, now);
    assert!(tracker.get_active_agent("src/auth.rs").is_none());
}

#[test]
fn agent_transitions_between_files() {
    let mut tracker = AgentTracker::with_default_timeout();
    let now = now();
    tracker.update_from_activity(&AgentActivity::new(now, "agent-1", "edit", "src/a.rs"), now);
    tracker.update_from_activity(&AgentActivity::new(now + 50, "agent-1", "edit", "src/b.rs"), now);
    assert_eq!(tracker.get_active_agent("src/a.rs"), Some("agent-1".to_string()));
    assert_eq!(tracker.get_active_agent("src/b.rs"), Some("agent-1".to_string()));
    let mut done = AgentActivity::new(now + 100, "agent-1", "edit", "src/a.rs");
    done.done = Some(true);
    tracker.update_from_activity(&done, now);
    assert!(tracker.get_active_agent("src/a.rs").is_none());
    assert_eq!(tracker.get_active_agent("src/b.rs"), Some("agent-1".to_string()));
}

#[test]
fn get_reference_count_returns_zero_for_unknown_file() {
    let tracker = AgentTracker::with_default_timeout();
    assert_eq!(tracker.get_reference_count("unknown.rs"), 0);
}

#[test]
fn get_reference_count_increments_on_activity() {
    let mut tracker = AgentTracker::with_default_timeout();
    let now = now();
    tracker.update_from_activity(&AgentActivity::new(now, "agent-1", "edit", "src/main.rs"), now);
    assert_eq!(tracker.get_reference_count("src/main.rs"), 1);
}

#[test]
fn get_reference_count_accumulates_multiple_activities() {
    let mut tracker = AgentTracker::with_default_timeout();
    let now = now();
    for i in 0..5 {
        tracker.update_from_activity(&AgentActivity::new(now + i, "agent-1", "edit", "src/lib.rs"), now);
    }
    assert_eq!(tracker.get_reference_count("src/lib.rs"), 5);
}

#[test]
fn get_reference_count_tracks_multiple_files_independently() {
    let mut tracker = AgentTracker::with_default_timeout();
    let now = now();
    tracker.update_from_activity(&AgentActivity::new(now, "agent-1", "edit", "src/a.rs"), now);
    tracker.update_from_activity(&AgentActivity::new(now + 1, "agent-2", "edit", "src/b.rs"), now);
    tracker.update_from_activity(&AgentActivity::new(now + 2, "agent-1", "read", "src/a.rs"), now);
    assert_eq!(tracker.get_reference_count("src/a.rs"), 2);
    assert_eq!(tracker.get_reference_count("src/b.rs"), 1);
}

#[test]
fn get_reference_count_survives_done_activity() {
    let mut tracker = AgentTracker::with_default_timeout();
    let now = now();
    let mut activity = AgentActivity::new(now, "agent-1", "edit", "src/foo.rs");
    activity.done = Some(true);
    tracker.update_from_activity(&activity, now);
    assert_eq!(tracker.get_reference_count("src/foo.rs"), 1);
}

#[test]
fn prune_stale_resets_counts_for_stale_agent_files() {
    let mut tracker = AgentTracker::new(60);
    let now = now();
    tracker.update_from_activity(&AgentActivity::new(now, "fresh-agent", "edit", "src/a.rs"), now);
    tracker.update_from_activity(&AgentActivity::new(now - 61, "stale-agent", "edit", "src/b.rs"), now);
    assert_eq!(tracker.get_reference_count("src/a.rs"), 1);
    assert_eq!(tracker.get_reference_count("src/b.rs"), 1);
    tracker.prune_stale_at(now);
    assert_eq!(tracker.get_reference_count("src/a.rs"), 1);
    assert_eq!(tracker.get_reference_count("src/b.rs"), 0);
}

#[test]
fn prune_stale_preserves_counts_for_shared_files() {
    let mut tracker = AgentTracker::new(60);
    let now = now();
    tracker.update_from_activity(&AgentActivity::new(now, "fresh-agent", "edit", "src/shared.rs"), now);
    tracker.update_from_activity(&AgentActivity::new(now - 61, "stale-agent", "read", "src/shared.rs"), now);
    assert_eq!(tracker.get_reference_count("src/shared.rs"), 2);
    tracker.prune_stale_at(now);
    assert_eq!(tracker.get_reference_count("src/shared.rs"), 2);
}
