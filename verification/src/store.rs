//! The event log's queries: a filter over events and the SQL statement
//! with its bound values that selects them, newest first.  Times are
//! milliseconds since the Unix epoch; the log stores them as RFC 3339
//! text.
use vstd::prelude::*;
use crate::event::{
    event_type_from_text, event_type_text, law_text_roundtrip, source_from_text, source_text, EventType,
    FileEvent, ParseError, Source,
};
use crate::text::{concat, decimal_text, push_decimal};

verus! {

/// The RFC 3339 text of the instant `ms` milliseconds after the epoch, as
/// chrono writes it, or `None` when chrono cannot represent the instant.
pub uninterp spec fn rfc3339_of_millis(ms: i64) -> Option<Seq<char>>;

/// The instant, in milliseconds since the epoch, that an RFC 3339 text
/// denotes as chrono reads it, or `None` when chrono refuses the text.
pub uninterp spec fn millis_of_rfc3339(text: Seq<char>) -> Option<i64>;

/// The first millisecond of the year 0: chrono writes the years 0 to 9999
/// with four digits, which its RFC 3339 reader takes back.
pub const FIRST_FOUR_DIGIT_MS: i64 = -62167219200000;

/// The last millisecond of the year 9999.
pub const LAST_FOUR_DIGIT_MS: i64 = 253402300799999;

/// Calls `chrono::DateTime::from_timestamp_millis(ms)` and formats the
/// instant with `to_rfc3339`; the name above stands for exactly that.  For
/// an instant in the years 0 to 9999 the text is written (four-digit year,
/// `+00:00` offset, all non-zero fraction digits) and chrono's
/// `parse_from_rfc3339` reads it back as the same millisecond.
#[verifier::external_body]
fn rfc3339_millis(ms: i64) -> (r: Option<String>)
    ensures
        match rfc3339_of_millis(ms) {
            Some(t) => r matches Some(s) && s@ == t,
            None => r is None,
        },
        r is None ==> !(FIRST_FOUR_DIGIT_MS <= ms <= LAST_FOUR_DIGIT_MS),
        r matches Some(s) ==> (FIRST_FOUR_DIGIT_MS <= ms <= LAST_FOUR_DIGIT_MS ==> millis_of_rfc3339(s@) == Some(ms)),
{
    chrono::DateTime::from_timestamp_millis(ms).map(|d| d.to_rfc3339())
}

/// Calls `chrono::DateTime::parse_from_rfc3339(text)` and takes the
/// instant's `timestamp_millis`; a refusal gives chrono's error text, of
/// which nothing is stated.
#[verifier::external_body]
fn parse_rfc3339_millis(text: &str) -> (r: Result<i64, String>)
    ensures
        match millis_of_rfc3339(text@) {
            Some(ms) => r == Ok::<i64, String>(ms),
            None => r is Err,
        },
{
    match chrono::DateTime::parse_from_rfc3339(text) {
        Ok(d) => Ok(d.timestamp_millis()),
        Err(e) => Err(e.to_string()),
    }
}

#[verifier::external_type_specification]
#[verifier::external_body]
pub struct ExSqliteError(rusqlite::Error);

/// Formats a SQLite error with its `Display`; nothing is stated of the
/// text.
#[verifier::external_body]
fn sqlite_error_text(e: &rusqlite::Error) -> String {
    format!("{}", e)
}

/// Errors of the event log.
#[derive(Debug)]
pub enum StoreError {
    Sqlite(rusqlite::Error),
    DatabaseLocked(String),
    Parse(ParseError),
    TimestampParse(String),
}

impl StoreError {
    /// `"sqlite error: .."`, `"database at path .. is locked"`,
    /// `"parse error: .."`, `"timestamp parse error: .."`.
    pub fn message(&self) -> (r: String)
        ensures
            self matches StoreError::DatabaseLocked(p) ==> r@ == "database at path "@ + p@ + " is locked"@,
            self matches StoreError::TimestampParse(m) ==> r@ == "timestamp parse error: "@ + m@,
    {
        match self {
            StoreError::Sqlite(e) => concat("sqlite error: ", sqlite_error_text(e).as_str()),
            StoreError::DatabaseLocked(p) => {
                let a = concat("database at path ", p.as_str());
                concat(a.as_str(), " is locked")
            },
            StoreError::Parse(e) => concat("parse error: ", e.message().as_str()),
            StoreError::TimestampParse(m) => concat("timestamp parse error: ", m.as_str()),
        }
    }
}

/// A stored event: the values of its columns, in the order the queries
/// select them.
#[derive(Debug, Clone, PartialEq, Eq)]
pub struct EventRow {
    pub timestamp: String,
    pub event_type: String,
    pub file_path: String,
    pub project_id: String,
    pub source: String,
    pub source_id: Option<String>,
    pub machine_id: String,
    pub content_hash: Option<String>,
    pub old_path: Option<String>,
}

/// `row` holds `e`: its time as RFC 3339 text, its type and source by name,
/// every other column as it is.
pub open spec fn stored_as(row: EventRow, e: FileEvent) -> bool {
    &&& rfc3339_of_millis(e.timestamp) == Some(row.timestamp@)
    &&& row.event_type@ == event_type_text(e.event_type)
    &&& row.source@ == source_text(e.source)
    &&& row.file_path == e.file_path
    &&& row.project_id == e.project_id
    &&& row.source_id == e.source_id
    &&& row.machine_id == e.machine_id
    &&& row.content_hash == e.content_hash
    &&& row.old_path == e.old_path
}

/// The event a row holds, when its time, type and source all read.
pub open spec fn event_of_row(row: EventRow) -> Option<FileEvent> {
    match (millis_of_rfc3339(row.timestamp@), event_type_from_text(row.event_type@), source_from_text(row.source@)) {
        (Some(ms), Some(t), Some(s)) => Some(
            FileEvent {
                timestamp: ms,
                event_type: t,
                file_path: row.file_path,
                project_id: row.project_id,
                source: s,
                source_id: row.source_id,
                machine_id: row.machine_id,
                content_hash: row.content_hash,
                old_path: row.old_path,
            },
        ),
        _ => None,
    }
}

/// A copy of an optional text.
pub(crate) fn copy_text(o: &Option<String>) -> (r: Option<String>)
    ensures
        r == *o,
{
    match o {
        Some(s) => Some(s.clone()),
        None => None,
    }
}

/// The row that stores `event`; `None` when its time is not an instant
/// chrono can represent.  An event from the years 0 to 9999 reads back
/// from its row as itself.
pub fn event_row(event: &FileEvent) -> (r: Option<EventRow>)
    ensures
        r is None <==> rfc3339_of_millis(event.timestamp) is None,
        r matches Some(row) ==> stored_as(row, *event),
        FIRST_FOUR_DIGIT_MS <= event.timestamp <= LAST_FOUR_DIGIT_MS ==> (r matches Some(row) && event_of_row(row)
            == Some(*event)),
{
    let timestamp = match rfc3339_millis(event.timestamp) {
        Some(t) => t,
        None => {
            return None;
        },
    };
    let row = EventRow {
        timestamp,
        event_type: event.event_type.as_str().to_string(),
        file_path: event.file_path.clone(),
        project_id: event.project_id.clone(),
        source: event.source.as_str().to_string(),
        source_id: copy_text(&event.source_id),
        machine_id: event.machine_id.clone(),
        content_hash: copy_text(&event.content_hash),
        old_path: copy_text(&event.old_path),
    };
    proof {
        law_text_roundtrip(event.event_type, event.source);
    }
    Some(row)
}

/// The event a row holds.  A time that chrono does not read is a
/// `TimestampParse` error; then an unknown type or source is a `Parse`
/// error carrying the text.
pub fn event_from_row(row: EventRow) -> (r: Result<FileEvent, StoreError>)
    ensures
        event_of_row(row) matches Some(e) ==> (r matches Ok(x) && x == e),
        millis_of_rfc3339(row.timestamp@) is None ==> r matches Err(StoreError::TimestampParse(_)),
        millis_of_rfc3339(row.timestamp@) is Some && event_type_from_text(row.event_type@) is None ==> (r matches Err(
            StoreError::Parse(ParseError::InvalidEventType(t)),
        ) && t@ == row.event_type@),
        millis_of_rfc3339(row.timestamp@) is Some && event_type_from_text(row.event_type@) is Some
            && source_from_text(row.source@) is None ==> (r matches Err(StoreError::Parse(ParseError::InvalidSource(t)))
            && t@ == row.source@),
{
    let timestamp = match parse_rfc3339_millis(row.timestamp.as_str()) {
        Ok(ms) => ms,
        Err(m) => {
            return Err(StoreError::TimestampParse(m));
        },
    };
    let event_type = match EventType::parse(row.event_type.as_str()) {
        Ok(t) => t,
        Err(e) => {
            return Err(StoreError::Parse(e));
        },
    };
    let source = match Source::parse(row.source.as_str()) {
        Ok(s) => s,
        Err(e) => {
            return Err(StoreError::Parse(e));
        },
    };
    Ok(
        FileEvent {
            timestamp,
            event_type,
            file_path: row.file_path,
            project_id: row.project_id,
            source,
            source_id: row.source_id,
            machine_id: row.machine_id,
            content_hash: row.content_hash,
            old_path: row.old_path,
        },
    )
}

/// Which events a query selects.
#[derive(Debug, Clone, PartialEq, Eq)]
pub struct EventFilter {
    pub project_id: Option<String>,
    pub file_path: Option<String>,
    pub source: Option<Source>,
    /// Only events at or after this time (milliseconds since the epoch).
    pub since: Option<i64>,
    pub limit: Option<usize>,
}

impl EventFilter {
    /// A filter that selects every event.
    pub fn new() -> (r: Self)
        ensures
            r.project_id is None,
            r.file_path is None,
            r.source is None,
            r.since is None,
            r.limit is None,
    {
        EventFilter { project_id: None, file_path: None, source: None, since: None, limit: None }
    }

    /// Only events of project `id`.
    pub fn project_id(self, id: &str) -> (r: Self)
        ensures
            r.project_id matches Some(p) && p@ == id@,
            r.file_path == self.file_path && r.source == self.source && r.since == self.since && r.limit
                == self.limit,
    {
        EventFilter { project_id: Some(id.to_string()), ..self }
    }

    /// Only events of file `path`.
    pub fn file_path(self, path: &str) -> (r: Self)
        ensures
            r.file_path matches Some(p) && p@ == path@,
            r.project_id == self.project_id && r.source == self.source && r.since == self.since && r.limit
                == self.limit,
    {
        EventFilter { file_path: Some(path.to_string()), ..self }
    }

    /// Only events from `source`.
    pub fn source(self, source: Source) -> (r: Self)
        ensures
            r.source == Some(source),
            r.project_id == self.project_id && r.file_path == self.file_path && r.since == self.since
                && r.limit == self.limit,
    {
        EventFilter { source: Some(source), ..self }
    }

    /// Only events at or after `timestamp` (milliseconds since the epoch).
    pub fn since(self, timestamp: i64) -> (r: Self)
        ensures
            r.since == Some(timestamp),
            r.project_id == self.project_id && r.file_path == self.file_path && r.source == self.source
                && r.limit == self.limit,
    {
        EventFilter { since: Some(timestamp), ..self }
    }

    /// At most `limit` events.
    pub fn limit(self, limit: usize) -> (r: Self)
        ensures
            r.limit == Some(limit),
            r.project_id == self.project_id && r.file_path == self.file_path && r.source == self.source
                && r.since == self.since,
    {
        EventFilter { limit: Some(limit), ..self }
    }
}

/// The columns every event query reads.
pub open spec fn select_prefix() -> Seq<char> {
    "SELECT timestamp, event_type, file_path, project_id, source, source_id, machine_id, content_hash, old_path FROM file_events WHERE 1=1"@
}

/// The conditions of a filter without their parameter numbers, in order:
/// project, file, source, time.
pub open spec fn condition_heads(f: EventFilter) -> Seq<Seq<char>> {
    let c1 = if f.project_id is Some { seq!["project_id = ?"@] } else { seq![] };
    let c2 = if f.file_path is Some { c1.push("file_path = ?"@) } else { c1 };
    let c3 = if f.source is Some { c2.push("source = ?"@) } else { c2 };
    if f.since is Some { c3.push("timestamp >= ?"@) } else { c3 }
}

/// The conditions joined by ` AND `, each numbered from `?1` on.
pub open spec fn joined_conditions(heads: Seq<Seq<char>>) -> Seq<char>
    decreases heads.len(),
{
    if heads.len() == 0 {
        seq![]
    } else if heads.len() == 1 {
        heads[0] + decimal_text(1)
    } else {
        joined_conditions(heads.drop_last()) + " AND "@ + heads.last() + decimal_text(heads.len())
    }
}

/// The SQL text of a filter's query: the conditions after `1=1`, newest
/// events first, and the limit if any.
pub open spec fn query_text(f: EventFilter) -> Seq<char> {
    let heads = condition_heads(f);
    let where_part = if heads.len() == 0 { seq![] } else { " AND "@ + joined_conditions(heads) };
    let limit_part = match f.limit {
        Some(n) => " LIMIT "@ + decimal_text(n as nat),
        None => seq![],
    };
    select_prefix() + where_part + " ORDER BY timestamp DESC"@ + limit_part
}

/// The values bound to the query's parameters, in order.
pub open spec fn query_params(f: EventFilter, since_text: Seq<char>) -> Seq<Seq<char>> {
    let p1 = match f.project_id {
        Some(p) => seq![p@],
        None => seq![],
    };
    let p2 = match f.file_path {
        Some(p) => p1.push(p@),
        None => p1,
    };
    let p3 = match f.source {
        Some(s) => p2.push(source_text(s)),
        None => p2,
    };
    if f.since is Some { p3.push(since_text) } else { p3 }
}

/// A query over the event log: its SQL text and the values of its
/// parameters.
#[derive(Debug, Clone, PartialEq, Eq)]
pub struct EventQuery {
    pub sql: String,
    pub params: Vec<String>,
}

/// Appends the next numbered condition.
fn push_condition(conds: &mut String, count: &mut usize, head: &str)
    requires
        *old(count) < 4,
    ensures
        *final(count) == *old(count) + 1,
        final(conds)@ == if *old(count) == 0 {
            head@ + decimal_text(1)
        } else {
            old(conds)@ + " AND "@ + head@ + decimal_text(*old(count) as nat + 1)
        },
{
    let numbered = {
        let mut s = head.to_string();
        push_decimal(&mut s, (*count + 1) as u64);
        s
    };
    if *count == 0 {
        *conds = numbered;
    } else {
        let with_and = concat(conds.as_str(), " AND ");
        *conds = concat(with_and.as_str(), numbered.as_str());
    }
    *count = *count + 1;
}

/// Numbering one more condition.
proof fn lemma_joined_push(h: Seq<Seq<char>>, x: Seq<char>)
    ensures
        joined_conditions(h.push(x)) == if h.len() == 0 {
            x + decimal_text(1)
        } else {
            joined_conditions(h) + " AND "@ + x + decimal_text(h.len() + 1)
        },
{
    assert(h.push(x).drop_last() =~= h);
    assert(h.push(x).last() == x);
    if h.len() == 0 {
        assert(h.push(x)[0] == x);
    }
}

impl EventFilter {
    /// The numbered conditions of the filter, how many there are, and the
    /// values bound to them; `since_text` is the text of the `since` time.
    fn conditions(&self, since_text: Option<String>) -> (r: (String, usize, Vec<String>))
        requires
            self.since is Some <==> since_text is Some,
        ensures
            r.0@ == joined_conditions(condition_heads(*self)),
            r.1 == condition_heads(*self).len(),
            r.2@.map_values(|p: String| p@) == query_params(
                *self,
                match since_text {
                    Some(t) => t@,
                    None => seq![],
                },
            ),
    {
        let ghost st = match &since_text {
            Some(t) => t@,
            None => seq![],
        };
        let mut conds = String::new();
        let mut count: usize = 0;
        let mut params: Vec<String> = Vec::new();
        let ghost h0: Seq<Seq<char>> = seq![];
        let ghost p0: Seq<Seq<char>> = seq![];
        let ghost h1 = if self.project_id is Some { h0.push("project_id = ?"@) } else { h0 };
        if let Some(p) = &self.project_id {
            proof {
                lemma_joined_push(h0, "project_id = ?"@);
            }
            push_condition(&mut conds, &mut count, "project_id = ?");
            params.push(p.clone());
        }
        assert(conds@ == joined_conditions(h1));
        assert(params@.map_values(|p: String| p@) =~= match self.project_id {
            Some(p) => seq![p@],
            None => p0,
        });
        let ghost h2 = if self.file_path is Some { h1.push("file_path = ?"@) } else { h1 };
        let ghost q1 = params@.map_values(|p: String| p@);
        if let Some(p) = &self.file_path {
            proof {
                lemma_joined_push(h1, "file_path = ?"@);
            }
            push_condition(&mut conds, &mut count, "file_path = ?");
            params.push(p.clone());
        }
        assert(conds@ == joined_conditions(h2));
        assert(params@.map_values(|p: String| p@) =~= match self.file_path {
            Some(p) => q1.push(p@),
            None => q1,
        });
        let ghost h3 = if self.source is Some { h2.push("source = ?"@) } else { h2 };
        let ghost q2 = params@.map_values(|p: String| p@);
        if let Some(src) = self.source {
            proof {
                lemma_joined_push(h2, "source = ?"@);
            }
            push_condition(&mut conds, &mut count, "source = ?");
            params.push(src.as_str().to_string());
        }
        assert(conds@ == joined_conditions(h3));
        assert(params@.map_values(|p: String| p@) =~= match self.source {
            Some(x) => q2.push(source_text(x)),
            None => q2,
        });
        let ghost q3 = params@.map_values(|p: String| p@);
        if let Some(t) = since_text {
            proof {
                lemma_joined_push(h3, "timestamp >= ?"@);
            }
            push_condition(&mut conds, &mut count, "timestamp >= ?");
            params.push(t);
        }
        assert(params@.map_values(|p: String| p@) =~= if self.since is Some { q3.push(st) } else { q3 });
        (conds, count, params)
    }

    /// The query selecting the filter's events, newest first; `None` when
    /// the `since` time is not an instant chrono can represent.
    pub fn to_query(&self) -> (r: Option<EventQuery>)
        ensures
            match self.since {
                Some(ms) => match rfc3339_of_millis(ms) {
                    Some(t) => r matches Some(q) && q.sql@ == query_text(*self) && q.params@.map_values(
                        |p: String| p@,
                    ) == query_params(*self, t),
                    None => r is None,
                },
                None => r matches Some(q) && q.sql@ == query_text(*self) && q.params@.map_values(|p: String| p@)
                    == query_params(*self, seq![]),
            },
    {
        let since_text: Option<String> = match self.since {
            Some(ms) => match rfc3339_millis(ms) {
                Some(t) => Some(t),
                None => return None,
            },
            None => None,
        };
        let (conds, count, params) = self.conditions(since_text);
        let mut sql = "SELECT timestamp, event_type, file_path, project_id, source, source_id, machine_id, content_hash, old_path FROM file_events WHERE 1=1".to_string();
        let ghost base = sql@;
        if count > 0 {
            sql = concat(sql.as_str(), " AND ");
            sql = concat(sql.as_str(), conds.as_str());
        }
        sql = concat(sql.as_str(), " ORDER BY timestamp DESC");
        if let Some(n) = self.limit {
            sql = concat(sql.as_str(), " LIMIT ");
            push_decimal(&mut sql, n as u64);
        }
        proof {
            let heads = condition_heads(*self);
            let where_part = if heads.len() == 0 { seq![] } else { " AND "@ + joined_conditions(heads) };
            if count > 0 {
                assert(base + " AND "@ + conds@ =~= base + where_part);
            } else {
                assert(base =~= base + where_part);
            }
        }
        Some(EventQuery { sql, params })
    }
}

/// The schema version this build expects.
pub const CURRENT_VERSION: i64 = 1;

/// The migrations a database at schema version `current` still needs, in
/// the order they run: every version after `current` up to the current
/// one.
pub fn pending_migrations(current: i64) -> (r: Vec<i64>)
    ensures
        r@.len() == if current < CURRENT_VERSION { (CURRENT_VERSION - current) as nat } else { 0 },
        forall|i: int| 0 <= i < r@.len() ==> r@[i] == current + 1 + i,
{
    let mut r: Vec<i64> = Vec::new();
    let mut version = current;
    while version < CURRENT_VERSION
        invariant
            current <= version || version == current,
            version <= CURRENT_VERSION || version == current,
            r@.len() == version - current,
            forall|i: int| 0 <= i < r@.len() ==> r@[i] == current + 1 + i,
        decreases CURRENT_VERSION - version,
    {
        version = version + 1;
        r.push(version);
    }
    r
}

} // verus!
