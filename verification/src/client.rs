//! Client side: where to reach the daemon, how to buffer what it pushes,
//! what can go wrong, and how each message read from the daemon is routed.
use vstd::prelude::*;
use crate::daemon::io_error_text;
use crate::requests::{json_object_fields, member_text, member_u64, text_of, unsigned_of};
use crate::text::{chars_of, concat, trim_white_space, trim_ws};

verus! {

/// Default Unix socket path of the daemon.
pub const DEFAULT_SOCKET_PATH: &'static str = "/tmp/ambient-fs.sock";

/// Default notification channel buffer size.
pub const DEFAULT_NOTIFICATION_BUFFER: usize = 256;

/// Params of an `analysis_complete` notification.
#[derive(Debug, Clone, PartialEq, Eq)]
pub struct AnalysisCompleteParams {
    pub project_id: String,
    pub file_path: String,
    pub line_count: u32,
    pub todo_count: u32,
}

/// Fluent builder for a client connection.
#[derive(Debug, Clone, PartialEq, Eq)]
pub struct AmbientFsClientBuilder {
    /// Where the daemon listens.
    pub socket_path: String,
    /// How long to wait for the connection, if bounded.
    pub connect_timeout: Option<core::time::Duration>,
    /// How many pushed notifications are buffered before new ones drop.
    pub notification_buffer_size: usize,
}

impl AmbientFsClientBuilder {
    /// The default socket, no timeout, a buffer of 256 notifications.
    pub fn new() -> (r: Self)
        ensures
            r.socket_path@ == "/tmp/ambient-fs.sock"@,
            r.connect_timeout is None,
            r.notification_buffer_size == 256,
    {
        AmbientFsClientBuilder {
            socket_path: "/tmp/ambient-fs.sock".to_string(),
            connect_timeout: None,
            notification_buffer_size: DEFAULT_NOTIFICATION_BUFFER,
        }
    }

    /// Connect to the socket at `path` instead.
    pub fn socket_path(self, path: &str) -> (r: Self)
        ensures
            r.socket_path@ == path@,
            r.connect_timeout == self.connect_timeout,
            r.notification_buffer_size == self.notification_buffer_size,
    {
        AmbientFsClientBuilder { socket_path: path.to_string(), ..self }
    }

    /// Give up connecting after `timeout`.
    pub fn connect_timeout(self, timeout: core::time::Duration) -> (r: Self)
        ensures
            r.socket_path == self.socket_path,
            r.connect_timeout == Some(timeout),
            r.notification_buffer_size == self.notification_buffer_size,
    {
        AmbientFsClientBuilder { connect_timeout: Some(timeout), ..self }
    }

    /// Buffer up to `size` pushed notifications.
    pub fn notification_buffer_size(self, size: usize) -> (r: Self)
        ensures
            r.socket_path == self.socket_path,
            r.connect_timeout == self.connect_timeout,
            r.notification_buffer_size == size,
    {
        AmbientFsClientBuilder { notification_buffer_size: size, ..self }
    }
}

impl Default for AmbientFsClientBuilder {
    fn default() -> (r: Self)
        ensures
            r.socket_path@ == "/tmp/ambient-fs.sock"@,
            r.connect_timeout is None,
            r.notification_buffer_size == 256,
    {
        Self::new()
    }
}

/// Event filter for client queries.
#[derive(Debug, Clone, PartialEq, Eq)]
pub struct EventFilter {
    pub project_id: Option<String>,
    /// Unix timestamp in seconds.
    pub since: Option<i64>,
    pub source: Option<String>,
    pub limit: Option<usize>,
}

impl Default for EventFilter {
    /// A filter that restricts nothing.
    fn default() -> (r: Self)
        ensures
            r.project_id is None,
            r.since is None,
            r.source is None,
            r.limit is None,
    {
        EventFilter { project_id: None, since: None, source: None, limit: None }
    }
}

/// A JSON value as an object: its members when it is an object
/// (`Value::as_object`), none otherwise.
pub uninterp spec fn json_as_object(v: serde_json::Value) -> Option<serde_json::Map<String, serde_json::Value>>;

/// The value of member `key` of a JSON object (`Map::get`).
pub uninterp spec fn json_member(m: serde_json::Map<String, serde_json::Value>, key: Seq<char>) -> Option<serde_json::Value>;

/// `Value::as_object`.
#[verifier::external_body]
pub(crate) fn value_object(v: &serde_json::Value) -> (r: Option<&serde_json::Map<String, serde_json::Value>>)
    ensures
        match json_as_object(*v) {
            Some(m) => r == Some(&m),
            None => r is None,
        },
{
    v.as_object()
}

/// `Map::get` on a JSON object.
#[verifier::external_body]
pub(crate) fn member<'a>(m: &'a serde_json::Map<String, serde_json::Value>, key: &str) -> (r: Option<&'a serde_json::Value>)
    ensures
        match json_member(*m, key@) {
            Some(x) => r == Some(&x),
            None => r is None,
        },
{
    m.get(key)
}

/// Whether a JSON value is null (`Value::is_null`).
pub uninterp spec fn json_is_null(v: serde_json::Value) -> bool;

/// `Value::Null`, which `Value::is_null` reports as null.
#[verifier::external_body]
fn null_value() -> (r: serde_json::Value)
    ensures
        json_is_null(r),
{
    serde_json::Value::Null
}

/// Formats a JSON error with its `Display`; nothing is stated of the text.
#[verifier::external_body]
pub(crate) fn json_error_text(e: &serde_json::Error) -> String {
    format!("{}", e)
}

/// Errors from the client.
#[derive(Debug)]
pub enum ClientError {
    Io(std::io::Error),
    JsonSerialize(serde_json::Error),
    DaemonError(String),
    InvalidResponse,
    NotConnected,
    ConnectionClosed,
}

impl ClientError {
    /// `"daemon returned error: .."`, `"invalid response from daemon"` and
    /// so on; an I/O or JSON error is followed by its own text.
    pub fn message(&self) -> (r: String)
        ensures
            self matches ClientError::DaemonError(m) ==> r@ == "daemon returned error: "@ + m@,
            self is InvalidResponse ==> r@ == "invalid response from daemon"@,
            self is NotConnected ==> r@ == "daemon not connected"@,
            self is ConnectionClosed ==> r@ == "request failed: connection closed"@,
    {
        match self {
            ClientError::Io(e) => concat("IO error: ", io_error_text(e).as_str()),
            ClientError::JsonSerialize(e) => concat("JSON serialization error: ", json_error_text(e).as_str()),
            ClientError::DaemonError(m) => concat("daemon returned error: ", m.as_str()),
            ClientError::InvalidResponse => {
                proof {
                    reveal_strlit("invalid response from daemon");
                }
                "invalid response from daemon".to_string()
            },
            ClientError::NotConnected => {
                proof {
                    reveal_strlit("daemon not connected");
                }
                "daemon not connected".to_string()
            },
            ClientError::ConnectionClosed => {
                proof {
                    reveal_strlit("request failed: connection closed");
                }
                "request failed: connection closed".to_string()
            },
        }
    }
}

/// A notification pushed by the daemon: a method and its parameters.
#[derive(Debug, Clone, PartialEq)]
pub struct ClientNotification {
    pub method: String,
    pub params: serde_json::Value,
}

/// Where a message read from the daemon goes.
#[derive(Debug)]
pub enum Incoming {
    /// The answer to the pending request `id`.
    Reply { id: u64, outcome: Result<serde_json::Value, ClientError> },
    /// A pushed notification.
    Notification(ClientNotification),
    /// Neither: the message is dropped.
    Unrecognized,
}

/// The text of a daemon error object's `message`, or `unknown error`.
pub open spec fn daemon_error_text(err: serde_json::Value) -> Seq<char> {
    match json_as_object(err) {
        Some(em) => match text_of(json_object_fields(em), "message"@) {
            Some(t) => t,
            None => "unknown error"@,
        },
        None => "unknown error"@,
    }
}

/// How a message read from the daemon is routed, `msg` going to `r`; see
/// `route_message`.
pub open spec fn routes_to(msg: serde_json::Value, r: Incoming) -> bool {
    match json_as_object(msg) {
        None => r is Unrecognized,
        Some(m) => {
            let f = json_object_fields(m);
            match unsigned_of(f, "id"@) {
                Some(id) => (r matches Incoming::Reply { id: i, outcome } && i == id && match json_member(
                    m,
                    "error"@,
                ) {
                    Some(err) => (outcome matches Err(ClientError::DaemonError(t)) && t@ == daemon_error_text(err)),
                    None => match json_member(m, "result"@) {
                        Some(v) => outcome matches Ok(x) && x == v,
                        None => outcome matches Err(ClientError::InvalidResponse),
                    },
                }),
                None => match json_member(m, "method"@) {
                    Some(_) => (r matches Incoming::Notification(n) && n.method@ == match text_of(f, "method"@) {
                        Some(t) => t,
                        None => Seq::empty(),
                    } && (json_member(m, "params"@) matches Some(p) ==> n.params == p) && (json_member(
                        m,
                        "params"@,
                    ) is None ==> json_is_null(n.params))),
                    None => r is Unrecognized,
                },
            }
        },
    }
}

/// Routes a message read from the daemon.  A message with an integer `id`
/// answers that request: with the daemon's error message when it has an
/// `error`, else with its `result`, else as an invalid response.  A message
/// without an `id` but with a `method` is a notification (its method text,
/// empty when not a string, and its `params`, null when absent).  Anything else is
/// unrecognized.
pub fn route_message(msg: &serde_json::Value) -> (r: Incoming)
    ensures
        routes_to(*msg, r),
{
    proof {
        reveal_strlit("id");
        reveal_strlit("error");
        reveal_strlit("result");
        reveal_strlit("message");
        reveal_strlit("method");
        reveal_strlit("params");
        reveal_strlit("unknown error");
    }
    let m = match value_object(msg) {
        Some(m) => m,
        None => {
            return Incoming::Unrecognized;
        },
    };
    if let Some(id) = member_u64(m, "id") {
        let outcome = match member(m, "error") {
            Some(err) => {
                let text = match value_object(err) {
                    Some(em) => match member_text(em, "message") {
                        Some(t) => t,
                        None => "unknown error".to_string(),
                    },
                    None => "unknown error".to_string(),
                };
                Err(ClientError::DaemonError(text))
            },
            None => match member(m, "result") {
                Some(v) => Ok(v.clone()),
                None => Err(ClientError::InvalidResponse),
            },
        };
        return Incoming::Reply { id, outcome };
    }
    match member(m, "method") {
        Some(_) => {
            let method = match member_text(m, "method") {
                Some(t) => t,
                None => String::new(),
            };
            let params = match member(m, "params") {
                Some(p) => p.clone(),
                None => null_value(),
            };
            Incoming::Notification(ClientNotification { method, params })
        },
        None => Incoming::Unrecognized,
    }
}

/// What `serde_json::from_str::<Value>` gives for this text: the value,
/// or `None` when the text is not one JSON value.
pub uninterp spec fn json_parse(text: Seq<char>) -> Option<serde_json::Value>;

/// `serde_json::from_str::<Value>`: the value that the name above gives,
/// or the parse error when it gives none.
#[verifier::external_body]
pub(crate) fn parse_json(text: &str) -> (r: Result<serde_json::Value, serde_json::Error>)
    ensures
        match json_parse(text@) {
            Some(v) => r == Ok::<serde_json::Value, serde_json::Error>(v),
            None => r is Err,
        },
{
    serde_json::from_str::<serde_json::Value>(text)
}

/// The message a line read from the daemon carries: `None` for a blank
/// line or one that is not JSON; otherwise the JSON value of the trimmed
/// line.
pub open spec fn line_message(line: Seq<char>) -> Option<serde_json::Value> {
    if trim_ws(line).len() == 0 {
        None
    } else {
        json_parse(trim_ws(line))
    }
}

/// Routes one line read from the daemon: `None` for a blank line or one
/// that does not parse as JSON; otherwise where `route_message` sends the
/// parsed message.
pub fn route_line(line: &str) -> (r: Option<Incoming>)
    ensures
        trim_ws(line@).len() == 0 ==> r is None,
        line_message(line@) is None ==> r is None,
        line_message(line@) matches Some(v) ==> (r matches Some(i) && routes_to(v, i)),
{
    let t = trim_white_space(line);
    if chars_of(t.as_str()).len() == 0 {
        return None;
    }
    match parse_json(t.as_str()) {
        Ok(v) => Some(route_message(&v)),
        Err(_) => None,
    }
}

} // verus!
