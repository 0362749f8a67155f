//! What the daemon reads out of each JSON-RPC request before it acts: the
//! method, the required and optional parameters, and the error answered when
//! one is missing or malformed.
use vstd::prelude::*;
use crate::event::{source_from_text, EventType, FileEvent, Source};
use crate::protocol::{method_from_text, Method, Params, Request, RpcError};
use crate::store::EventFilter;
use crate::text::{concat, str_eq, trim_white_space, trim_ws};
use crate::filter::{components_of, file_name_of, path_components};
use crate::tree::path_parts;

verus! {

/// What the daemon reads of one member of a JSON object: the text when the
/// value is a string, and the integer as `i64` and as `u64` where the value
/// is an integer that fits.
pub type FieldRead = (Option<Seq<char>>, Option<i64>, Option<u64>);

/// The members of a JSON object (serde_json's `Map<String, Value>`), each
/// key mapped to what `Value::as_str`, `Value::as_i64` and `Value::as_u64`
/// give for its value.
pub uninterp spec fn json_object_fields(m: serde_json::Map<String, serde_json::Value>) -> Map<Seq<char>, FieldRead>;

/// The text of member `key`, when it is present and a string.
pub open spec fn text_of(fields: Map<Seq<char>, FieldRead>, key: Seq<char>) -> Option<Seq<char>> {
    if fields.contains_key(key) {
        fields[key].0
    } else {
        None
    }
}

/// The value of member `key` as an `i64`, when it is an integer that fits.
pub open spec fn signed_of(fields: Map<Seq<char>, FieldRead>, key: Seq<char>) -> Option<i64> {
    if fields.contains_key(key) {
        fields[key].1
    } else {
        None
    }
}

/// The value of member `key` as a `u64`, when it is an integer that fits.
pub open spec fn unsigned_of(fields: Map<Seq<char>, FieldRead>, key: Seq<char>) -> Option<u64> {
    if fields.contains_key(key) {
        fields[key].2
    } else {
        None
    }
}

/// The members of the request's parameters, when they are an object.
pub open spec fn params_object(req: Request) -> Option<Map<Seq<char>, FieldRead>> {
    match req.params {
        Some(Params::Object(m)) => Some(json_object_fields(m)),
        _ => None,
    }
}

/// `-32602` with the given message and no data.
pub open spec fn is_invalid_params(e: RpcError, msg: Seq<char>) -> bool {
    e.code == -32602 && e.message@ == msg && e.data is None
}

/// `map.get(key).and_then(Value::as_str)`: the member's text when it is a
/// string.
#[verifier::external_body]
pub(crate) fn member_text(map: &serde_json::Map<String, serde_json::Value>, key: &str) -> (r: Option<String>)
    ensures
        match text_of(json_object_fields(*map), key@) {
            Some(t) => r matches Some(s) && s@ == t,
            None => r is None,
        },
{
    map.get(key).and_then(serde_json::Value::as_str).map(String::from)
}

/// `map.get(key).and_then(Value::as_i64)`: the member as an `i64` when it is
/// an integer that fits.
#[verifier::external_body]
fn member_i64(map: &serde_json::Map<String, serde_json::Value>, key: &str) -> (r: Option<i64>)
    ensures
        r == signed_of(json_object_fields(*map), key@),
{
    map.get(key).and_then(serde_json::Value::as_i64)
}

/// `map.get(key).and_then(Value::as_u64)`: the member as a `u64` when it is
/// a non-negative integer that fits.
#[verifier::external_body]
pub(crate) fn member_u64(map: &serde_json::Map<String, serde_json::Value>, key: &str) -> (r: Option<u64>)
    ensures
        r == unsigned_of(json_object_fields(*map), key@),
{
    map.get(key).and_then(serde_json::Value::as_u64)
}

/// The request's parameters, when they are an object.
fn object_params(req: &Request) -> (r: Option<&serde_json::Map<String, serde_json::Value>>)
    ensures
        match req.params {
            Some(Params::Object(m)) => r == Some(&m),
            _ => r is None,
        },
{
    match &req.params {
        Some(Params::Object(m)) => Some(m),
        _ => None,
    }
}

/// A required text parameter: refused with `no_object` when the parameters
/// are not an object, and with `no_member` when `key` is absent or not a
/// string.
fn required_text(req: &Request, key: &str, no_object: &str, no_member: &str) -> (r: Result<String, RpcError>)
    ensures
        match params_object(*req) {
            None => (r matches Err(e) && is_invalid_params(e, no_object@)),
            Some(f) => match text_of(f, key@) {
                Some(t) => (r matches Ok(s) && s@ == t),
                None => (r matches Err(e) && is_invalid_params(e, no_member@)),
            },
        },
{
    match object_params(req) {
        None => Err(RpcError::invalid_params(no_object)),
        Some(map) => match member_text(map, key) {
            Some(s) => Ok(s),
            None => Err(RpcError::invalid_params(no_member)),
        },
    }
}

/// The method a request names; an unknown name is answered with
/// `Method not found`.
pub fn request_method(req: &Request) -> (r: Result<Method, RpcError>)
    ensures
        match method_from_text(req.method@) {
            Some(m) => r == Ok::<Method, RpcError>(m),
            None => (r matches Err(e) && e.code == -32601 && e.message@ == "Method not found: "@ + req.method@
                && e.data is None),
        },
{
    match Method::parse(req.method.as_str()) {
        Ok(m) => Ok(m),
        Err(_) => Err(RpcError::method_not_found(req.method.clone())),
    }
}

/// The `project_id` of a `subscribe`, `unsubscribe` or `query_tree` request.
pub fn subscription_project(req: &Request) -> (r: Result<String, RpcError>)
    ensures
        match params_object(*req) {
            None => (r matches Err(e) && is_invalid_params(e, "params object with project_id is required"@)),
            Some(f) => match text_of(f, "project_id"@) {
                Some(t) => (r matches Ok(s) && s@ == t),
                None => (r matches Err(e) && is_invalid_params(e, "project_id is required and must be a string"@)),
            },
        },
{
    proof {
        reveal_strlit("project_id");
        reveal_strlit("params object with project_id is required");
        reveal_strlit("project_id is required and must be a string");
    }
    required_text(
        req,
        "project_id",
        "params object with project_id is required",
        "project_id is required and must be a string",
    )
}

/// The `path` of a `watch_project`, `watch_agents` or `unwatch_agents`
/// request.
pub fn path_param(req: &Request) -> (r: Result<String, RpcError>)
    ensures
        match params_object(*req) {
            Some(f) if text_of(f, "path"@) is Some => (r matches Ok(s) && Some(s@) == text_of(f, "path"@)),
            _ => (r matches Err(e) && is_invalid_params(e, "path is required and must be a string"@)),
        },
{
    proof {
        reveal_strlit("path");
        reveal_strlit("path is required and must be a string");
    }
    required_text(req, "path", "path is required and must be a string", "path is required and must be a string")
}

/// The `project_id` of an `unwatch_project` request.
pub fn unwatch_project_param(req: &Request) -> (r: Result<String, RpcError>)
    ensures
        match params_object(*req) {
            Some(f) if text_of(f, "project_id"@) is Some => (r matches Ok(s) && Some(s@) == text_of(
                f,
                "project_id"@,
            )),
            _ => (r matches Err(e) && is_invalid_params(e, "project_id is required and must be a string"@)),
        },
{
    proof {
        reveal_strlit("project_id");
        reveal_strlit("project_id is required and must be a string");
    }
    required_text(
        req,
        "project_id",
        "project_id is required and must be a string",
        "project_id is required and must be a string",
    )
}

/// The optional `file` of a `query_agents` request.
pub fn query_agents_file(req: &Request) -> (r: Option<String>)
    ensures
        match params_object(*req) {
            Some(f) => match text_of(f, "file"@) {
                Some(t) => (r matches Some(s) && s@ == t),
                None => r is None,
            },
            None => r is None,
        },
{
    proof {
        reveal_strlit("file");
    }
    match object_params(req) {
        Some(map) => member_text(map, "file"),
        None => None,
    }
}

/// The `project_id` and `path` of a `query_awareness` request.
pub fn awareness_params(req: &Request) -> (r: Result<(String, String), RpcError>)
    ensures
        match params_object(*req) {
            None => (r matches Err(e) && is_invalid_params(e, "params must be an object"@)),
            Some(f) => match (text_of(f, "project_id"@), text_of(f, "path"@)) {
                (None, _) => (r matches Err(e) && is_invalid_params(e, "project_id is required"@)),
                (Some(_), None) => (r matches Err(e) && is_invalid_params(e, "path is required"@)),
                (Some(p), Some(q)) => (r matches Ok((a, b)) && a@ == p && b@ == q),
            },
        },
{
    proof {
        reveal_strlit("params must be an object");
        reveal_strlit("project_id");
        reveal_strlit("path");
        reveal_strlit("project_id is required");
        reveal_strlit("path is required");
    }
    let map = match object_params(req) {
        Some(m) => m,
        None => {
            return Err(RpcError::invalid_params("params must be an object"));
        },
    };
    let project_id = match member_text(map, "project_id") {
        Some(p) => p,
        None => {
            return Err(RpcError::invalid_params("project_id is required"));
        },
    };
    let path = match member_text(map, "path") {
        Some(p) => p,
        None => {
            return Err(RpcError::invalid_params("path is required"));
        },
    };
    Ok((project_id, path))
}

/// The optional parameters of a `query_events` request.
#[derive(Debug, Clone, PartialEq, Eq)]
pub struct EventQueryParams {
    pub project_id: Option<String>,
    /// How far back to look, in seconds.
    pub since_secs: Option<i64>,
    pub source: Option<Source>,
    pub limit: Option<u64>,
}

/// The text view of an optional string.
pub open spec fn opt_view(o: Option<String>) -> Option<Seq<char>> {
    match o {
        Some(s) => Some(s@),
        None => None,
    }
}

/// The message for a source name that is not one of the sources.
pub open spec fn invalid_source_text(name: Seq<char>) -> Seq<char> {
    "invalid source: "@ + name
}

/// The parameters of a `query_events` request.  They are optional: absent
/// parameters read as an empty object, but positional parameters are
/// refused, and so is a `source` that names no source.
pub fn query_events_params(req: &Request) -> (r: Result<EventQueryParams, RpcError>)
    ensures
        req.params matches Some(Params::Array(_)) ==> (r matches Err(e) && is_invalid_params(
            e,
            "params must be an object"@,
        )),
        !(req.params matches Some(Params::Array(_))) ==> {
            let f = match params_object(*req) {
                Some(f) => f,
                None => Map::empty(),
            };
            match text_of(f, "source"@) {
                Some(name) if source_from_text(name) is None => (r matches Err(e) && is_invalid_params(
                    e,
                    invalid_source_text(name),
                )),
                _ => (r matches Ok(q) && opt_view(q.project_id) == text_of(f, "project_id"@) && q.since_secs
                    == signed_of(f, "since"@) && q.limit == unsigned_of(f, "limit"@) && q.source == match text_of(
                    f,
                    "source"@,
                ) {
                    Some(name) => source_from_text(name),
                    None => None,
                }),
            }
        },
{
    proof {
        reveal_strlit("params must be an object");
        reveal_strlit("project_id");
        reveal_strlit("since");
        reveal_strlit("source");
        reveal_strlit("limit");
        reveal_strlit("invalid source: ");
    }
    if matches!(&req.params, Some(Params::Array(_))) {
        return Err(RpcError::invalid_params("params must be an object"));
    }
    let map = match object_params(req) {
        Some(m) => m,
        None => {
            return Ok(EventQueryParams { project_id: None, since_secs: None, source: None, limit: None });
        },
    };
    let project_id = member_text(map, "project_id");
    let since_secs = member_i64(map, "since");
    let source = match member_text(map, "source") {
        Some(name) => match Source::parse(name.as_str()) {
            Ok(s) => Some(s),
            Err(_) => {
                return Err(RpcError::invalid_params(concat("invalid source: ", name.as_str()).as_str()));
            },
        },
        None => None,
    };
    let limit = member_u64(map, "limit");
    Ok(EventQueryParams { project_id, since_secs, source, limit })
}

impl EventQueryParams {
    /// The event filter these parameters ask for at time `now_ms`: events
    /// of the project, from the source, no older than `since_secs` seconds,
    /// at most `limit` of them.  None when the start of that window is not
    /// a representable number of milliseconds.
    pub fn to_filter(&self, now_ms: i64) -> (r: Option<EventFilter>)
        ensures
            match self.since_secs {
                Some(s) => {
                    let start = now_ms - s * 1000;
                    if i64::MIN <= s * 1000 <= i64::MAX && i64::MIN <= start <= i64::MAX {
                        r matches Some(f) && f.since == Some(start as i64)
                    } else {
                        r is None
                    }
                },
                None => (r matches Some(f) && f.since is None),
            },
            r matches Some(f) ==> opt_view(f.project_id) == opt_view(self.project_id) && f.source
                == self.source && f.file_path is None && f.limit == match self.limit {
                Some(l) => Some(l as usize),
                None => None,
            },
    {
        let mut filter = EventFilter::new();
        if let Some(pid) = &self.project_id {
            filter = filter.project_id(pid.as_str());
        }
        if let Some(secs) = self.since_secs {
            let span = match secs.checked_mul(1000) {
                Some(v) => v,
                None => {
                    return None;
                },
            };
            let start = match now_ms.checked_sub(span) {
                Some(v) => v,
                None => {
                    return None;
                },
            };
            filter = filter.since(start);
        }
        if let Some(src) = self.source {
            filter = filter.source(src);
        }
        if let Some(l) = self.limit {
            filter = filter.limit(l as usize);
        }
        Some(filter)
    }
}

/// The event an `attribute` request records: a modification of
/// `file_path` in `project_id` on this machine, attributed to `source` and,
/// when given, to `source_id`.  The three are required, checked in that
/// order, and `source` must name a source.
pub fn attribution_event(req: &Request, machine_id: &str) -> (r: Result<FileEvent, RpcError>)
    ensures
        match params_object(*req) {
            None => (r matches Err(e) && is_invalid_params(e, "params must be an object"@)),
            Some(f) => match (text_of(f, "file_path"@), text_of(f, "project_id"@), text_of(f, "source"@)) {
                (None, _, _) => (r matches Err(e) && is_invalid_params(e, "file_path is required"@)),
                (Some(_), None, _) => (r matches Err(e) && is_invalid_params(e, "project_id is required"@)),
                (Some(_), Some(_), None) => (r matches Err(e) && is_invalid_params(e, "source is required"@)),
                (Some(path), Some(pid), Some(name)) => match source_from_text(name) {
                    None => (r matches Err(e) && is_invalid_params(e, invalid_source_text(name))),
                    Some(src) => (r matches Ok(ev) && ev.event_type == EventType::Modified && ev.file_path@
                        == path && ev.project_id@ == pid && ev.machine_id@ == machine_id@ && ev.source == src
                        && opt_view(ev.source_id) == text_of(f, "source_id"@) && ev.content_hash is None
                        && ev.old_path is None),
                },
            },
        },
{
    proof {
        reveal_strlit("params must be an object");
        reveal_strlit("file_path");
        reveal_strlit("project_id");
        reveal_strlit("source");
        reveal_strlit("source_id");
        reveal_strlit("file_path is required");
        reveal_strlit("project_id is required");
        reveal_strlit("source is required");
        reveal_strlit("invalid source: ");
    }
    let map = match object_params(req) {
        Some(m) => m,
        None => {
            return Err(RpcError::invalid_params("params must be an object"));
        },
    };
    let file_path = match member_text(map, "file_path") {
        Some(p) => p,
        None => {
            return Err(RpcError::invalid_params("file_path is required"));
        },
    };
    let project_id = match member_text(map, "project_id") {
        Some(p) => p,
        None => {
            return Err(RpcError::invalid_params("project_id is required"));
        },
    };
    let name = match member_text(map, "source") {
        Some(s) => s,
        None => {
            return Err(RpcError::invalid_params("source is required"));
        },
    };
    let source = match Source::parse(name.as_str()) {
        Ok(s) => s,
        Err(_) => {
            return Err(RpcError::invalid_params(concat("invalid source: ", name.as_str()).as_str()));
        },
    };
    let source_id = member_text(map, "source_id");
    let mut event = FileEvent::new(EventType::Modified, file_path.as_str(), project_id.as_str(), machine_id);
    event = event.with_source(source);
    if let Some(sid) = source_id {
        event = event.with_source_id(sid.as_str());
    }
    Ok(event)
}

/// The name a project is known by, as `Path::file_name` gives it: the last
/// component of its path when that is a name (not the root, `.` or `..`),
/// `unknown` otherwise.
pub open spec fn project_name_of(path: Seq<char>) -> Seq<char> {
    match file_name_of(path) {
        Some(n) => n,
        None => "unknown"@,
    }
}

/// The project identifier of a watched directory: the file name of its
/// path.
pub fn project_name(path: &str) -> (r: String)
    ensures
        r@ == project_name_of(path@),
{
    proof {
        reveal_strlit("unknown");
        reveal_strlit("/");
        reveal_strlit(".");
        reveal_strlit("..");
    }
    let cs = components_of(path);
    let n = cs.len();
    if n > 0 {
        let last = &cs[n - 1];
        assert(path_components(path@).last() == cs@[n - 1]@);
        if !str_eq(last.as_str(), "/") && !str_eq(last.as_str(), ".") && !str_eq(last.as_str(), "..") {
            return last.clone();
        }
    }
    "unknown".to_string()
}

/// The key under which a watched agents directory is recorded among the
/// projects: `agents:` followed by its path.
pub fn agents_watch_key(path: &str) -> (r: String)
    ensures
        r@ == "agents:"@ + path@,
{
    proof {
        reveal_strlit("agents:");
    }
    concat("agents:", path)
}

/// The checks on a directory to watch, given what the filesystem says of
/// it: it must exist and be a directory.
pub fn check_watch_dir(path: &str, exists: bool, is_dir: bool) -> (r: Result<(), RpcError>)
    ensures
        !exists ==> (r matches Err(e) && e.code == -1004 && e.message@ == "Invalid path: "@
            + "path does not exist: "@ + path@),
        exists && !is_dir ==> (r matches Err(e) && e.code == -1004 && e.message@ == "Invalid path: "@
            + "path is not a directory: "@ + path@),
        exists && is_dir ==> r is Ok,
{
    if !exists {
        return Err(RpcError::invalid_path(concat("path does not exist: ", path)));
    }
    if !is_dir {
        return Err(RpcError::invalid_path(concat("path is not a directory: ", path)));
    }
    Ok(())
}

/// The check that a project is not already watched at the same place:
/// refused when the project's recorded path is the canonical path asked for.
pub fn check_not_watching(recorded: Option<&str>, canonical: &str, asked: &str) -> (r: Result<(), RpcError>)
    ensures
        match recorded {
            Some(p) if p@ == canonical@ => (r matches Err(e) && e.code == -1002 && e.message@
                == "Already watching: "@ + "already watching: "@ + asked@),
            _ => r is Ok,
        },
{
    match recorded {
        Some(p) => {
            if crate::text::str_eq(p, canonical) {
                Err(RpcError::already_watching(concat("already watching: ", asked)))
            } else {
                Ok(())
            }
        },
        None => Ok(()),
    }
}

/// A line read from a client, trimmed; None when nothing is left, in which
/// case the line is skipped.
pub fn request_line(line: &str) -> (r: Option<String>)
    ensures
        trim_ws(line@).len() == 0 ==> r is None,
        trim_ws(line@).len() > 0 ==> (r matches Some(s) && s@ == trim_ws(line@)),
{
    let t = trim_white_space(line);
    if crate::text::chars_of(t.as_str()).len() == 0 {
        None
    } else {
        Some(t)
    }
}

} // verus!
