use ambient_fs::event::{EventType, Source};
use ambient_fs::protocol::{Id, Method, Params, Request};
use ambient_fs::requests::{
    agents_watch_key, attribution_event, awareness_params, check_not_watching, check_watch_dir, path_param,
    project_name, query_agents_file, query_events_params, request_line, request_method, subscription_project,
    unwatch_project_param,
};
use serde_json::Value;

fn object(pairs: Vec<(&str, Value)>) -> Option<Params> {
    let mut map = serde_json::Map::new();
    for (k, v) in pairs {
        map.insert(k.to_string(), v);
    }
    Some(Params::Object(map))
}

fn text(s: &str) -> Value {
    Value::String(s.to_string())
}

fn request(method: &str, params: Option<Params>) -> Request {
    Request::new(method, params, Id::Number(1))
}

#[test]
fn unknown_method_is_not_found() {
    let err = request_method(&request("unknown_method", None)).unwrap_err();
    assert_eq!(err.code, -32601);
    assert_eq!(err.message, "Method not found: unknown_method");
    assert_eq!(request_method(&request("subscribe", None)).unwrap(), Method::Subscribe);
}

#[test]
fn subscribe_needs_project_id() {
    let err = subscription_project(&request("subscribe", None)).unwrap_err();
    assert_eq!(err.code, -32602);
    assert_eq!(err.message, "params object with project_id is required");
    let err = subscription_project(&request("subscribe", object(vec![]))).unwrap_err();
    assert_eq!(err.code, -32602);
    assert_eq!(err.message, "project_id is required and must be a string");
    let err = subscription_project(&request("subscribe", object(vec![("project_id", Value::from(7))]))).unwrap_err();
    assert_eq!(err.message, "project_id is required and must be a string");
    let ok = subscription_project(&request("subscribe", object(vec![("project_id", text("my-project"))])));
    assert_eq!(ok.unwrap(), "my-project");
}

#[test]
fn path_and_unwatch_params() {
    let err = path_param(&request("watch_project", None)).unwrap_err();
    assert_eq!(err.message, "path is required and must be a string");
    let err = path_param(&request("watch_project", object(vec![]))).unwrap_err();
    assert_eq!(err.message, "path is required and must be a string");
    assert_eq!(path_param(&request("watch_project", object(vec![("path", text("/tmp/x"))]))).unwrap(), "/tmp/x");
    let err = unwatch_project_param(&request("unwatch_project", Some(Params::Array(vec![])))).unwrap_err();
    assert_eq!(err.message, "project_id is required and must be a string");
    assert_eq!(unwatch_project_param(&request("unwatch_project", object(vec![("project_id", text("p"))]))).unwrap(), "p");
}

#[test]
fn query_agents_file_is_optional() {
    assert_eq!(query_agents_file(&request("query_agents", None)), None);
    assert_eq!(query_agents_file(&request("query_agents", object(vec![("file", Value::Bool(true))]))), None);
    assert_eq!(query_agents_file(&request("query_agents", object(vec![("file", text("a.rs"))]))), Some("a.rs".to_string()));
}

#[test]
fn awareness_params_in_order() {
    assert_eq!(awareness_params(&request("query_awareness", None)).unwrap_err().message, "params must be an object");
    assert_eq!(
        awareness_params(&request("query_awareness", object(vec![("path", text("a"))]))).unwrap_err().message,
        "project_id is required"
    );
    assert_eq!(
        awareness_params(&request("query_awareness", object(vec![("project_id", text("p"))]))).unwrap_err().message,
        "path is required"
    );
    let ok = awareness_params(&request("query_awareness", object(vec![("project_id", text("p")), ("path", text("a"))])));
    assert_eq!(ok.unwrap(), ("p".to_string(), "a".to_string()));
}

#[test]
fn query_events_with_invalid_params_type_returns_error() {
    let err = query_events_params(&request("query_events", Some(Params::Array(vec![])))).unwrap_err();
    assert_eq!(err.code, -32602);
    assert_eq!(err.message, "params must be an object");
}

#[test]
fn query_events_params_read_each_member() {
    let none = query_events_params(&request("query_events", None)).unwrap();
    assert_eq!(none.project_id, None);
    assert_eq!(none.since_secs, None);
    assert_eq!(none.source, None);
    assert_eq!(none.limit, None);
    let q = query_events_params(&request(
        "query_events",
        object(vec![
            ("project_id", text("proj-1")),
            ("since", Value::from(3600)),
            ("source", text("ai_agent")),
            ("limit", Value::from(3)),
        ]),
    ))
    .unwrap();
    assert_eq!(q.project_id, Some("proj-1".to_string()));
    assert_eq!(q.since_secs, Some(3600));
    assert_eq!(q.source, Some(Source::AiAgent));
    assert_eq!(q.limit, Some(3));
    let filter = q.to_filter(10_000_000).unwrap();
    assert_eq!(filter.since, Some(10_000_000 - 3_600_000));
    assert_eq!(filter.limit, Some(3));
    assert_eq!(filter.source, Some(Source::AiAgent));
    assert_eq!(filter.project_id, Some("proj-1".to_string()));
}

#[test]
fn query_events_negative_limit_is_ignored_and_bad_source_refused() {
    let q = query_events_params(&request("query_events", object(vec![("limit", Value::from(-1))]))).unwrap();
    assert_eq!(q.limit, None);
    let err = query_events_params(&request("query_events", object(vec![("source", text("robot"))]))).unwrap_err();
    assert_eq!(err.message, "invalid source: robot");
}

#[test]
fn query_events_window_overflow_gives_no_filter() {
    let q = query_events_params(&request("query_events", object(vec![("since", Value::from(i64::MAX))]))).unwrap();
    assert!(q.to_filter(0).is_none());
    let q = query_events_params(&request("query_events", object(vec![("since", Value::from(5))]))).unwrap();
    assert!(q.to_filter(i64::MIN).is_none());
}

#[test]
fn attribution_builds_event() {
    let req = request(
        "attribute",
        object(vec![
            ("file_path", text("src/auth.rs")),
            ("project_id", text("my-project")),
            ("source", text("ai_agent")),
            ("source_id", text("chat-1")),
        ]),
    );
    let ev = attribution_event(&req, "machine-1").unwrap();
    assert_eq!(ev.event_type, EventType::Modified);
    assert_eq!(ev.file_path, "src/auth.rs");
    assert_eq!(ev.project_id, "my-project");
    assert_eq!(ev.machine_id, "machine-1");
    assert_eq!(ev.source, Source::AiAgent);
    assert_eq!(ev.source_id, Some("chat-1".to_string()));
}

#[test]
fn attribution_errors_in_order() {
    let m = |pairs: Vec<(&str, Value)>| attribution_event(&request("attribute", object(pairs)), "m").unwrap_err().message;
    assert_eq!(attribution_event(&request("attribute", None), "m").unwrap_err().message, "params must be an object");
    assert_eq!(m(vec![]), "file_path is required");
    assert_eq!(m(vec![("file_path", text("a"))]), "project_id is required");
    assert_eq!(m(vec![("file_path", text("a")), ("project_id", text("p"))]), "source is required");
    assert_eq!(
        m(vec![("file_path", text("a")), ("project_id", text("p")), ("source", text("nobody"))]),
        "invalid source: nobody"
    );
}

#[test]
fn project_names_and_keys() {
    assert_eq!(project_name("/home/user/myproject"), "myproject");
    assert_eq!(project_name("/"), "unknown");
    assert_eq!(agents_watch_key("/tmp/.agents"), "agents:/tmp/.agents");
}

#[test]
fn watch_dir_checks() {
    let err = check_watch_dir("/x", false, false).unwrap_err();
    assert_eq!(err.code, -1004);
    assert_eq!(err.message, "Invalid path: path does not exist: /x");
    let err = check_watch_dir("/x", true, false).unwrap_err();
    assert_eq!(err.message, "Invalid path: path is not a directory: /x");
    assert!(check_watch_dir("/x", true, true).is_ok());
    let err = check_not_watching(Some("/a/p"), "/a/p", "p").unwrap_err();
    assert_eq!(err.code, -1002);
    assert_eq!(err.message, "Already watching: already watching: p");
    assert!(check_not_watching(Some("/b/p"), "/a/p", "p").is_ok());
    assert!(check_not_watching(None, "/a/p", "p").is_ok());
}

#[test]
fn blank_lines_are_skipped() {
    assert_eq!(request_line("\n\n  \n"), None);
    assert_eq!(request_line("  ping\n"), Some("ping".to_string()));
}

#[test]
fn project_name_is_the_file_name_of_the_path() {
    assert_eq!(project_name("/home/user/myproject/."), "myproject");
    assert_eq!(project_name("/home/user/myproject/"), "myproject");
    assert_eq!(project_name("/home/user/myproject/.."), "unknown");
    assert_eq!(project_name("."), "unknown");
    assert_eq!(project_name("./proj"), "proj");
    assert_eq!(project_name("proj"), "proj");
}
