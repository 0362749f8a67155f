use ambient_fs::protocol::{Id, Method, MethodParseError, Params, Request, Response, RpcError};

#[test]
fn id_default_is_null() {
    assert_eq!(Id::default(), Id::Null);
}

#[test]
fn notification_has_no_id() {
    let req = Request::notification("ping", Some(Params::Array(vec![serde_json::Value::from("hello")])));
    assert!(req.is_notification());
    assert_eq!(req.id, Id::Null);
    assert_eq!(req.jsonrpc, "2.0");
}

#[test]
fn request_with_id_is_not_notification() {
    let req = Request::new("ping", None, Id::Number(1));
    assert!(!req.is_notification());
    assert_eq!(req.method, "ping");
}

#[test]
fn success_response() {
    let resp = Response::result(Id::Number(1), serde_json::Value::from("ok"));
    assert!(resp.is_success());
    assert!(resp.error.is_none());
    assert_eq!(resp.result, Some(serde_json::Value::from("ok")));
    assert_eq!(resp.jsonrpc, "2.0");
}

#[test]
fn error_response() {
    let err = RpcError::method_not_found("bogus_method".to_string());
    let resp = Response::error(Id::Number(1), err);
    assert!(!resp.is_success());
    assert!(resp.result.is_none());
    let e = resp.error.unwrap();
    assert_eq!(e.code, -32601);
    assert_eq!(e.message, "Method not found: bogus_method");
}

#[test]
fn error_standard_codes() {
    assert_eq!(RpcError::parse_error().code, -32700);
    assert_eq!(RpcError::parse_error().message, "Parse error");
    assert_eq!(RpcError::invalid_request().code, -32600);
    assert_eq!(RpcError::invalid_request().message, "Invalid Request");
    assert_eq!(RpcError::method_not_found("x".to_string()).code, -32601);
    assert_eq!(RpcError::invalid_params("x").code, -32602);
    assert_eq!(RpcError::internal_error().code, -32603);
    assert_eq!(RpcError::internal_error().message, "Internal error");
}

#[test]
fn error_with_data() {
    let err = RpcError::invalid_params("missing project_id").with_data(serde_json::Value::from(true));
    assert_eq!(err.code, -32602);
    assert_eq!(err.message, "missing project_id");
    assert!(err.data.is_some());
}

#[test]
fn error_server_specific_codes() {
    assert_eq!(RpcError::project_not_found("x".to_string()).code, -1001);
    assert_eq!(RpcError::project_not_found("x".to_string()).message, "Project not found: x");
    assert_eq!(RpcError::already_watching("x".to_string()).code, -1002);
    assert_eq!(RpcError::already_watching("x".to_string()).message, "Already watching: x");
    assert_eq!(RpcError::watch_failed("x".to_string()).code, -1003);
    assert_eq!(RpcError::watch_failed("x".to_string()).message, "Failed to watch: x");
    assert_eq!(RpcError::invalid_path("x".to_string()).code, -1004);
    assert_eq!(RpcError::invalid_path("x".to_string()).message, "Invalid path: x");
}

#[test]
fn method_to_string() {
    assert_eq!(Method::Subscribe.as_str(), "subscribe");
    assert_eq!(Method::Unsubscribe.as_str(), "unsubscribe");
    assert_eq!(Method::QueryEvents.as_str(), "query_events");
    assert_eq!(Method::QueryAwareness.as_str(), "query_awareness");
    assert_eq!(Method::WatchProject.as_str(), "watch_project");
    assert_eq!(Method::UnwatchProject.as_str(), "unwatch_project");
    assert_eq!(Method::WatchAgents.as_str(), "watch_agents");
    assert_eq!(Method::UnwatchAgents.as_str(), "unwatch_agents");
    assert_eq!(Method::QueryAgents.as_str(), "query_agents");
    assert_eq!(Method::QueryTree.as_str(), "query_tree");
    assert_eq!(Method::Attribute.as_str(), "attribute");
}

#[test]
fn method_from_str_valid() {
    assert_eq!("subscribe".parse::<Method>().unwrap(), Method::Subscribe);
    assert_eq!("unsubscribe".parse::<Method>().unwrap(), Method::Unsubscribe);
    assert_eq!("query_events".parse::<Method>().unwrap(), Method::QueryEvents);
    assert_eq!("query_awareness".parse::<Method>().unwrap(), Method::QueryAwareness);
    assert_eq!("watch_project".parse::<Method>().unwrap(), Method::WatchProject);
    assert_eq!("unwatch_project".parse::<Method>().unwrap(), Method::UnwatchProject);
    assert_eq!("watch_agents".parse::<Method>().unwrap(), Method::WatchAgents);
    assert_eq!("unwatch_agents".parse::<Method>().unwrap(), Method::UnwatchAgents);
    assert_eq!("query_agents".parse::<Method>().unwrap(), Method::QueryAgents);
    assert_eq!("query_tree".parse::<Method>().unwrap(), Method::QueryTree);
    assert_eq!("attribute".parse::<Method>().unwrap(), Method::Attribute);
}

#[test]
fn method_from_str_invalid() {
    let result: Result<Method, _> = "bogus".parse();
    assert!(result.is_err());
}

#[test]
fn method_parse_error_carries_the_name() {
    let err = "Subscribe".parse::<Method>().unwrap_err();
    assert_eq!(err, MethodParseError("Subscribe".to_string()));
    assert_eq!(err.message(), "unknown method: Subscribe");
}
