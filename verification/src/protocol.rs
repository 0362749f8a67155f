//! JSON-RPC 2.0 messages of the server: requests, responses, error objects
//! and the method names it answers.
use vstd::prelude::*;
use crate::text::{concat, str_eq};

verus! {

#[verifier::external_type_specification]
#[verifier::external_body]
pub struct ExJsonValue(serde_json::Value);

#[verifier::external_type_specification]
#[verifier::external_body]
#[verifier::reject_recursive_types(K)]
#[verifier::reject_recursive_types(V)]
pub struct ExJsonMap<K, V>(serde_json::Map<K, V>);

/// `Clone` of a JSON value (derived in serde_json): the copy is the same
/// value.
pub assume_specification [<serde_json::Value as std::clone::Clone>::clone](v: &serde_json::Value) -> (r: serde_json::Value)
    ensures
        r == *v,
;

/// `Clone` of a JSON object (serde_json's `Map<String, Value>`, which
/// clones its inner map): the copy is the same object.
pub assume_specification [<serde_json::Map<std::string::String, serde_json::Value> as std::clone::Clone>::clone](
    m: &serde_json::Map<std::string::String, serde_json::Value>,
) -> (r: serde_json::Map<std::string::String, serde_json::Value>)
    ensures
        r == *m,
;

/// The protocol version every message carries.
pub open spec fn jsonrpc_version() -> Seq<char> {
    "2.0"@
}

/// Request identifier.
#[derive(Debug, Clone, PartialEq, Eq, Hash)]
pub enum Id {
    Null,
    Number(i64),
    String(String),
}

impl Default for Id {
    /// A request without identifier.
    fn default() -> (r: Self)
        ensures
            r is Null,
    {
        Id::Null
    }
}

/// Parameters: an object (named) or an array (positional).
#[derive(Debug, Clone, PartialEq, Eq)]
pub enum Params {
    Array(Vec<serde_json::Value>),
    Object(serde_json::Map<String, serde_json::Value>),
}

/// JSON-RPC 2.0 request.
#[derive(Debug, Clone, PartialEq, Eq)]
pub struct Request {
    /// JSON-RPC version, `"2.0"`.
    pub jsonrpc: String,
    /// Method name to invoke.
    pub method: String,
    /// Parameters, if any.
    pub params: Option<Params>,
    /// Request identifier; `Null` for a notification.
    pub id: Id,
}

impl Request {
    /// A request for `method` with the given parameters and identifier.
    pub fn new(method: &str, params: Option<Params>, id: Id) -> (r: Self)
        ensures
            r.jsonrpc@ == jsonrpc_version(),
            r.method@ == method@,
            r.params == params,
            r.id == id,
    {
        proof {
            reveal_strlit("2.0");
        }
        Request { jsonrpc: "2.0".to_string(), method: method.to_string(), params, id }
    }

    /// A notification: a request without identifier.
    pub fn notification(method: &str, params: Option<Params>) -> (r: Self)
        ensures
            r.jsonrpc@ == jsonrpc_version(),
            r.method@ == method@,
            r.params == params,
            r.id is Null,
    {
        Self::new(method, params, Id::Null)
    }

    /// A request without identifier is a notification.
    pub fn is_notification(&self) -> (r: bool)
        ensures
            r == (self.id is Null),
    {
        matches!(&self.id, Id::Null)
    }
}

/// JSON-RPC 2.0 error object.
#[derive(Debug, Clone, PartialEq, Eq)]
pub struct RpcError {
    /// Error code.
    pub code: i32,
    /// Short description.
    pub message: String,
    /// Additional data, if any.
    pub data: Option<serde_json::Value>,
}

/// JSON-RPC 2.0 response.
#[derive(Debug, Clone, PartialEq, Eq)]
pub struct Response {
    /// JSON-RPC version, `"2.0"`.
    pub jsonrpc: String,
    /// Result if successful (absent on error).
    pub result: Option<serde_json::Value>,
    /// Error if failed (absent on success).
    pub error: Option<RpcError>,
    /// Identifier of the request answered.
    pub id: Id,
}

impl Response {
    /// A successful response.
    pub fn result(id: Id, result: serde_json::Value) -> (r: Self)
        ensures
            r.jsonrpc@ == jsonrpc_version(),
            r.result == Some(result),
            r.error is None,
            r.id == id,
    {
        proof {
            reveal_strlit("2.0");
        }
        Response { jsonrpc: "2.0".to_string(), result: Some(result), error: None, id }
    }

    /// An error response.
    pub fn error(id: Id, error: RpcError) -> (r: Self)
        ensures
            r.jsonrpc@ == jsonrpc_version(),
            r.result is None,
            r.error == Some(error),
            r.id == id,
    {
        proof {
            reveal_strlit("2.0");
        }
        Response { jsonrpc: "2.0".to_string(), result: None, error: Some(error), id }
    }

    /// A response is successful when it has a result and no error.
    pub fn is_success(&self) -> (r: bool)
        ensures
            r == (self.error is None && self.result is Some),
    {
        self.error.is_none() && self.result.is_some()
    }
}

impl RpcError {
    /// An error with the given code and message and no data.
    pub fn new(code: i32, message: &str) -> (r: Self)
        ensures
            r.code == code,
            r.message@ == message@,
            r.data is None,
    {
        RpcError { code, message: message.to_string(), data: None }
    }

    /// The same error with `data` attached.
    pub fn with_data(self, data: serde_json::Value) -> (r: Self)
        ensures
            r.code == self.code,
            r.message == self.message,
            r.data == Some(data),
    {
        RpcError { data: Some(data), ..self }
    }

    /// -32700 `Parse error`.
    pub fn parse_error() -> (r: Self)
        ensures
            r.code == -32700,
            r.message@ == "Parse error"@,
            r.data is None,
    {
        Self::new(-32700, "Parse error")
    }

    /// -32600 `Invalid Request`.
    pub fn invalid_request() -> (r: Self)
        ensures
            r.code == -32600,
            r.message@ == "Invalid Request"@,
            r.data is None,
    {
        Self::new(-32600, "Invalid Request")
    }

    /// -32601 `Method not found: <method>`.
    pub fn method_not_found(method: String) -> (r: Self)
        ensures
            r.code == -32601,
            r.message@ == "Method not found: "@ + method@,
            r.data is None,
    {
        Self::new(-32601, concat("Method not found: ", method.as_str()).as_str())
    }

    /// -32602 with the given message.
    pub fn invalid_params(msg: &str) -> (r: Self)
        ensures
            r.code == -32602,
            r.message@ == msg@,
            r.data is None,
    {
        Self::new(-32602, msg)
    }

    /// -32603 `Internal error`.
    pub fn internal_error() -> (r: Self)
        ensures
            r.code == -32603,
            r.message@ == "Internal error"@,
            r.data is None,
    {
        Self::new(-32603, "Internal error")
    }

    /// -1001 `Project not found: <id>`.
    pub fn project_not_found(id: String) -> (r: Self)
        ensures
            r.code == -1001,
            r.message@ == "Project not found: "@ + id@,
            r.data is None,
    {
        Self::new(-1001, concat("Project not found: ", id.as_str()).as_str())
    }

    /// -1002 `Already watching: <path>`.
    pub fn already_watching(path: String) -> (r: Self)
        ensures
            r.code == -1002,
            r.message@ == "Already watching: "@ + path@,
            r.data is None,
    {
        Self::new(-1002, concat("Already watching: ", path.as_str()).as_str())
    }

    /// -1003 `Failed to watch: <path>`.
    pub fn watch_failed(path: String) -> (r: Self)
        ensures
            r.code == -1003,
            r.message@ == "Failed to watch: "@ + path@,
            r.data is None,
    {
        Self::new(-1003, concat("Failed to watch: ", path.as_str()).as_str())
    }

    /// -1004 `Invalid path: <path>`.
    pub fn invalid_path(path: String) -> (r: Self)
        ensures
            r.code == -1004,
            r.message@ == "Invalid path: "@ + path@,
            r.data is None,
    {
        Self::new(-1004, concat("Invalid path: ", path.as_str()).as_str())
    }
}

/// Method names.
#[derive(Debug, Clone, Copy, PartialEq, Eq, Hash, Structural)]
pub enum Method {
    Subscribe,
    Unsubscribe,
    QueryEvents,
    QueryAwareness,
    WatchProject,
    UnwatchProject,
    WatchAgents,
    UnwatchAgents,
    QueryAgents,
    QueryTree,
    Attribute,
}

/// The wire name of a method.
pub open spec fn method_text(m: Method) -> Seq<char> {
    match m {
        Method::Subscribe => "subscribe"@,
        Method::Unsubscribe => "unsubscribe"@,
        Method::QueryEvents => "query_events"@,
        Method::QueryAwareness => "query_awareness"@,
        Method::WatchProject => "watch_project"@,
        Method::UnwatchProject => "unwatch_project"@,
        Method::WatchAgents => "watch_agents"@,
        Method::UnwatchAgents => "unwatch_agents"@,
        Method::QueryAgents => "query_agents"@,
        Method::QueryTree => "query_tree"@,
        Method::Attribute => "attribute"@,
    }
}

/// The method whose wire name is `s`, if any.
pub open spec fn method_from_text(s: Seq<char>) -> Option<Method> {
    if s == "subscribe"@ {
        Some(Method::Subscribe)
    } else if s == "unsubscribe"@ {
        Some(Method::Unsubscribe)
    } else if s == "query_events"@ {
        Some(Method::QueryEvents)
    } else if s == "query_awareness"@ {
        Some(Method::QueryAwareness)
    } else if s == "watch_project"@ {
        Some(Method::WatchProject)
    } else if s == "unwatch_project"@ {
        Some(Method::UnwatchProject)
    } else if s == "watch_agents"@ {
        Some(Method::WatchAgents)
    } else if s == "unwatch_agents"@ {
        Some(Method::UnwatchAgents)
    } else if s == "query_agents"@ {
        Some(Method::QueryAgents)
    } else if s == "query_tree"@ {
        Some(Method::QueryTree)
    } else if s == "attribute"@ {
        Some(Method::Attribute)
    } else {
        None
    }
}

impl Method {
    /// The wire name (`"subscribe"`, `"query_events"`, ...).
    pub fn as_str(&self) -> (r: &'static str)
        ensures
            r@ == method_text(*self),
    {
        match self {
            Method::Subscribe => "subscribe",
            Method::Unsubscribe => "unsubscribe",
            Method::QueryEvents => "query_events",
            Method::QueryAwareness => "query_awareness",
            Method::WatchProject => "watch_project",
            Method::UnwatchProject => "unwatch_project",
            Method::WatchAgents => "watch_agents",
            Method::UnwatchAgents => "unwatch_agents",
            Method::QueryAgents => "query_agents",
            Method::QueryTree => "query_tree",
            Method::Attribute => "attribute",
        }
    }

    /// Parses a wire name; any other text is a `MethodParseError` carrying
    /// the text.
    pub fn parse(s: &str) -> (r: Result<Method, MethodParseError>)
        ensures
            match method_from_text(s@) {
                Some(m) => r == Ok::<Method, MethodParseError>(m),
                None => r matches Err(MethodParseError(t)) && t@ == s@,
            },
    {
        if str_eq(s, "subscribe") {
            Ok(Method::Subscribe)
        } else if str_eq(s, "unsubscribe") {
            Ok(Method::Unsubscribe)
        } else if str_eq(s, "query_events") {
            Ok(Method::QueryEvents)
        } else if str_eq(s, "query_awareness") {
            Ok(Method::QueryAwareness)
        } else if str_eq(s, "watch_project") {
            Ok(Method::WatchProject)
        } else if str_eq(s, "unwatch_project") {
            Ok(Method::UnwatchProject)
        } else if str_eq(s, "watch_agents") {
            Ok(Method::WatchAgents)
        } else if str_eq(s, "unwatch_agents") {
            Ok(Method::UnwatchAgents)
        } else if str_eq(s, "query_agents") {
            Ok(Method::QueryAgents)
        } else if str_eq(s, "query_tree") {
            Ok(Method::QueryTree)
        } else if str_eq(s, "attribute") {
            Ok(Method::Attribute)
        } else {
            Err(MethodParseError(s.to_string()))
        }
    }
}

impl std::str::FromStr for Method {
    type Err = MethodParseError;

    fn from_str(s: &str) -> (r: Result<Self, Self::Err>)
        ensures
            match method_from_text(s@) {
                Some(m) => r == Ok::<Method, MethodParseError>(m),
                None => r matches Err(MethodParseError(t)) && t@ == s@,
            },
    {
        Method::parse(s)
    }
}

/// An unknown method name.
#[derive(Debug, Clone, PartialEq, Eq)]
pub struct MethodParseError(pub String);

impl MethodParseError {
    /// `unknown method: <name>`.
    pub fn message(&self) -> (r: String)
        ensures
            r@ == "unknown method: "@ + self.0@,
    {
        concat("unknown method: ", self.0.as_str())
    }
}

/// Parsing a method's wire name gives the method back.
pub proof fn law_method_name_roundtrip(m: Method)
    ensures
        method_from_text(method_text(m)) == Some(m),
{
    reveal_strlit("subscribe");
    reveal_strlit("unsubscribe");
    reveal_strlit("query_events");
    reveal_strlit("query_awareness");
    reveal_strlit("watch_project");
    reveal_strlit("unwatch_project");
    reveal_strlit("watch_agents");
    reveal_strlit("unwatch_agents");
    reveal_strlit("query_agents");
    reveal_strlit("query_tree");
    reveal_strlit("attribute");
    match m {
        Method::Subscribe => {
        },
        Method::Unsubscribe => {
            assert("unsubscribe"@.len() != "subscribe"@.len());
        },
        Method::QueryEvents => {
            assert("query_events"@.len() != "subscribe"@.len());
            assert("query_events"@.len() != "unsubscribe"@.len());
        },
        Method::QueryAwareness => {
            assert("query_awareness"@.len() != "subscribe"@.len());
            assert("query_awareness"@.len() != "unsubscribe"@.len());
            assert("query_awareness"@.len() != "query_events"@.len());
        },
        Method::WatchProject => {
            assert("watch_project"@.len() != "subscribe"@.len());
            assert("watch_project"@.len() != "unsubscribe"@.len());
            assert("watch_project"@.len() != "query_events"@.len());
            assert("watch_project"@.len() != "query_awareness"@.len());
        },
        Method::UnwatchProject => {
            assert("unwatch_project"@.len() != "subscribe"@.len());
            assert("unwatch_project"@.len() != "unsubscribe"@.len());
            assert("unwatch_project"@.len() != "query_events"@.len());
            assert("unwatch_project"@[0] != "query_awareness"@[0]);
            assert("unwatch_project"@.len() != "watch_project"@.len());
        },
        Method::WatchAgents => {
            assert("watch_agents"@.len() != "subscribe"@.len());
            assert("watch_agents"@.len() != "unsubscribe"@.len());
            assert("watch_agents"@[0] != "query_events"@[0]);
            assert("watch_agents"@.len() != "query_awareness"@.len());
            assert("watch_agents"@.len() != "watch_project"@.len());
            assert("watch_agents"@.len() != "unwatch_project"@.len());
        },
        Method::UnwatchAgents => {
            assert("unwatch_agents"@.len() != "subscribe"@.len());
            assert("unwatch_agents"@.len() != "unsubscribe"@.len());
            assert("unwatch_agents"@.len() != "query_events"@.len());
            assert("unwatch_agents"@.len() != "query_awareness"@.len());
            assert("unwatch_agents"@.len() != "watch_project"@.len());
            assert("unwatch_agents"@.len() != "unwatch_project"@.len());
            assert("unwatch_agents"@.len() != "watch_agents"@.len());
        },
        Method::QueryAgents => {
            assert("query_agents"@.len() != "subscribe"@.len());
            assert("query_agents"@.len() != "unsubscribe"@.len());
            assert("query_agents"@[6] != "query_events"@[6]);
            assert("query_agents"@.len() != "query_awareness"@.len());
            assert("query_agents"@.len() != "watch_project"@.len());
            assert("query_agents"@.len() != "unwatch_project"@.len());
            assert("query_agents"@[0] != "watch_agents"@[0]);
            assert("query_agents"@.len() != "unwatch_agents"@.len());
        },
        Method::QueryTree => {
            assert("query_tree"@.len() != "subscribe"@.len());
            assert("query_tree"@.len() != "unsubscribe"@.len());
            assert("query_tree"@.len() != "query_events"@.len());
            assert("query_tree"@.len() != "query_awareness"@.len());
            assert("query_tree"@.len() != "watch_project"@.len());
            assert("query_tree"@.len() != "unwatch_project"@.len());
            assert("query_tree"@.len() != "watch_agents"@.len());
            assert("query_tree"@.len() != "unwatch_agents"@.len());
            assert("query_tree"@.len() != "query_agents"@.len());
        },
        Method::Attribute => {
            assert("attribute"@[0] != "subscribe"@[0]);
            assert("attribute"@.len() != "unsubscribe"@.len());
            assert("attribute"@.len() != "query_events"@.len());
            assert("attribute"@.len() != "query_awareness"@.len());
            assert("attribute"@.len() != "watch_project"@.len());
            assert("attribute"@.len() != "unwatch_project"@.len());
            assert("attribute"@.len() != "watch_agents"@.len());
            assert("attribute"@.len() != "unwatch_agents"@.len());
            assert("attribute"@.len() != "query_agents"@.len());
            assert("attribute"@.len() != "query_tree"@.len());
        },
    }
}

} // verus!
