//! Agent activity tracking: which AI agents are working on which files,
//! fed by activity lines that agents append to JSONL files.  Times are
//! seconds since the Unix epoch.
use vstd::prelude::*;
use crate::assoc::Assoc;
use crate::text::{char_is_white_space, chars_of, is_blank, is_white_space, str_eq};

verus! {

/// Whether `secs` names an instant that `chrono::DateTime<Utc>` can hold.
pub uninterp spec fn representable_secs(secs: i64) -> bool;

/// Calls `chrono::DateTime::from_timestamp(secs, 0)` and reports whether it
/// gave a date: the name above stands for exactly that.
#[verifier::external_body]
pub(crate) fn secs_representable(secs: i64) -> (r: bool)
    ensures
        r == representable_secs(secs),
{
    chrono::DateTime::from_timestamp(secs, 0).is_some()
}

/// The current time in seconds since the Unix epoch
/// (`chrono::Utc::now().timestamp()`); nothing is stated of it.
#[verifier::external_body]
pub(crate) fn now_secs() -> i64 {
    chrono::Utc::now().timestamp()
}

/// One line of agent activity.
#[derive(Debug, Clone, PartialEq, Eq)]
pub struct AgentActivity {
    /// Unix timestamp (seconds).
    pub ts: i64,
    /// Agent identifier.
    pub agent: String,
    /// What the agent is doing.
    pub action: String,
    /// Relative file path being acted on.
    pub file: String,
    /// Optional project identifier.
    pub project: Option<String>,
    /// Which AI tool (an editor plugin, a command-line assistant, etc).
    pub tool: Option<String>,
    /// Session/conversation id.
    pub session: Option<String>,
    /// Human-readable description of what the agent is doing.
    pub intent: Option<String>,
    /// Line numbers being edited.
    pub lines: Option<Vec<u32>>,
    /// True when the agent is finished with this file.
    pub done: Option<bool>,
}

/// The time an activity counts as seen at: its own timestamp when that is
/// a representable instant, `now` otherwise.
pub open spec fn activity_time(ts: i64, now: i64) -> i64 {
    if representable_secs(ts) {
        ts
    } else {
        now
    }
}

impl AgentActivity {
    /// An activity with only the required fields.
    pub fn new(ts: i64, agent: &str, action: &str, file: &str) -> (r: Self)
        ensures
            r.ts == ts,
            r.agent@ == agent@,
            r.action@ == action@,
            r.file@ == file@,
            r.project is None,
            r.tool is None,
            r.session is None,
            r.intent is None,
            r.lines is None,
            r.done is None,
    {
        AgentActivity {
            ts,
            agent: agent.to_string(),
            action: action.to_string(),
            file: file.to_string(),
            project: None,
            tool: None,
            session: None,
            intent: None,
            lines: None,
            done: None,
        }
    }

    /// The activity marks the file as done.
    pub fn is_done(&self) -> (r: bool)
        ensures
            r == (self.done == Some(true)),
    {
        match self.done {
            Some(d) => d,
            None => false,
        }
    }

    /// The time the activity counts as seen at, the current time being
    /// `now`.
    pub fn timestamp_at(&self, now: i64) -> (r: i64)
        ensures
            r == activity_time(self.ts, now),
    {
        if secs_representable(self.ts) {
            self.ts
        } else {
            now
        }
    }

    /// The time the activity counts as seen at: its timestamp, or the
    /// current time when that is out of range.
    pub fn timestamp(&self) -> (r: i64)
        ensures
            representable_secs(self.ts) ==> r == self.ts,
    {
        self.timestamp_at(now_secs())
    }
}

/// The texts of a list of strings.
pub open spec fn texts(files: Seq<String>) -> Seq<Seq<char>> {
    files.map_values(|f: String| f@)
}

/// `s` without any occurrence of `x`.
pub open spec fn remove_all(s: Seq<Seq<char>>, x: Seq<char>) -> Seq<Seq<char>>
    decreases s.len(),
{
    if s.len() == 0 {
        s
    } else if s.last() == x {
        remove_all(s.drop_last(), x)
    } else {
        remove_all(s.drop_last(), x).push(s.last())
    }
}

/// The active files after an activity on `file`: a finished file leaves
/// the list; another one joins it unless it is already there.
pub open spec fn next_files(files: Seq<Seq<char>>, file: Seq<char>, done: bool) -> Seq<Seq<char>> {
    if done {
        remove_all(files, file)
    } else if files.contains(file) {
        files
    } else {
        files.push(file)
    }
}

/// A sequence holds `y` exactly when its prefix without the last element
/// holds it or it is the last element.
proof fn lemma_contains_last(s: Seq<Seq<char>>, y: Seq<char>)
    requires
        s.len() > 0,
    ensures
        s.contains(y) <==> (s.drop_last().contains(y) || s.last() == y),
{
    let d = s.drop_last();
    if s.contains(y) {
        let i = choose|i: int| 0 <= i < s.len() && s[i] == y;
        if i < d.len() {
            assert(d[i] == y);
        }
    }
    if d.contains(y) {
        let i = choose|i: int| 0 <= i < d.len() && d[i] == y;
        assert(s[i] == y);
    }
    if s.last() == y {
        assert(s[s.len() - 1] == y);
    }
}

/// Removing an element keeps the others, and a list without duplicates
/// stays so.
proof fn lemma_remove_all(s: Seq<Seq<char>>, x: Seq<char>)
    ensures
        forall|y: Seq<char>| #[trigger] remove_all(s, x).contains(y) <==> (s.contains(y) && y != x),
        s.no_duplicates() ==> remove_all(s, x).no_duplicates(),
    decreases s.len(),
{
    if s.len() > 0 {
        let d = s.drop_last();
        let l = s.last();
        lemma_remove_all(d, x);
        assert forall|y: Seq<char>| #[trigger] remove_all(s, x).contains(y) <==> (s.contains(y) && y != x) by {
            lemma_contains_last(s, y);
            if l != x {
                lemma_contains_last(remove_all(d, x).push(l), y);
                assert(remove_all(d, x).push(l).drop_last() =~= remove_all(d, x));
            }
        }
        if s.no_duplicates() {
            assert(d.no_duplicates()) by {
                assert forall|i: int, j: int| 0 <= i < d.len() && 0 <= j < d.len() && i != j implies d[i] != d[j] by {
                    assert(d[i] == s[i] && d[j] == s[j]);
                }
            }
            if l != x {
                assert(!d.contains(l)) by {
                    if d.contains(l) {
                        let i = choose|i: int| 0 <= i < d.len() && d[i] == l;
                        assert(s[i] == s[s.len() - 1]);
                    }
                }
                let r = remove_all(d, x);
                assert(!r.contains(l));
                let rp = r.push(l);
                assert forall|i: int, j: int| 0 <= i < rp.len() && 0 <= j < rp.len() && i != j implies rp[i] != rp[j] by {
                    if i == r.len() {
                        assert(rp[j] == r[j]);
                    } else if j == r.len() {
                        assert(rp[i] == r[i]);
                    } else {
                        assert(rp[i] == r[i] && rp[j] == r[j]);
                    }
                }
            }
        }
    }
}

/// Per-agent tracking state.
#[derive(Debug, Clone, PartialEq, Eq)]
pub struct AgentState {
    /// Agent identifier.
    pub agent_id: String,
    /// Currently active files.
    pub files: Vec<String>,
    /// Last activity time (seconds since the epoch).
    pub last_seen: i64,
    /// Current intent/description.
    pub intent: Option<String>,
    /// Tool being used.
    pub tool: Option<String>,
    /// Session identifier.
    pub session: Option<String>,
}

/// An agent last seen at `last_seen` is stale at `now` when more than
/// `timeout` seconds have passed.
pub open spec fn is_stale(last_seen: i64, timeout: i64, now: i64) -> bool {
    now - last_seen > timeout
}

impl AgentState {
    /// A new agent, seen at `now`, with no files.
    pub fn new_at(agent_id: &str, now: i64) -> (r: Self)
        ensures
            r.agent_id@ == agent_id@,
            r.files@.len() == 0,
            r.last_seen == now,
            r.intent is None,
            r.tool is None,
            r.session is None,
    {
        AgentState {
            agent_id: agent_id.to_string(),
            files: Vec::new(),
            last_seen: now,
            intent: None,
            tool: None,
            session: None,
        }
    }

    /// A new agent, seen now, with no files.
    pub fn new(agent_id: &str) -> (r: Self)
        ensures
            r.agent_id@ == agent_id@,
            r.files@.len() == 0,
            r.intent is None,
            r.tool is None,
            r.session is None,
    {
        Self::new_at(agent_id, now_secs())
    }

    /// Whether the agent is stale at `now`.
    pub fn is_stale_at(&self, timeout: i64, now: i64) -> (r: bool)
        ensures
            r == is_stale(self.last_seen, timeout, now),
    {
        (now as i128) - (self.last_seen as i128) > timeout as i128
    }

    /// Whether the agent is stale now: stale at the instant the clock was
    /// read.
    pub fn is_stale(&self, timeout: i64) -> (r: bool)
        ensures
            exists|now: i64| r == #[trigger] is_stale(self.last_seen, timeout, now),
    {
        let now = now_secs();
        let r = self.is_stale_at(timeout, now);
        assert(r == is_stale(self.last_seen, timeout, now));
        r
    }

    /// A copy of the state.
    pub fn duplicate(&self) -> (r: Self)
        ensures
            r.agent_id == self.agent_id,
            texts(r.files@) == texts(self.files@),
            r.last_seen == self.last_seen,
            r.intent == self.intent,
            r.tool == self.tool,
            r.session == self.session,
    {
        let mut files: Vec<String> = Vec::new();
        let n = self.files.len();
        for i in 0..n
            invariant
                n == self.files@.len(),
                texts(files@) == texts(self.files@).take(i as int),
        {
            let ghost before = files@;
            files.push(self.files[i].clone());
            assert(files@ == before.push(self.files@[i as int]));
            assert(texts(files@) =~= texts(before).push(self.files@[i as int]@));
            assert(texts(self.files@).take(i + 1) =~= texts(self.files@).take(i as int).push(
                self.files@[i as int]@,
            ));
        }
        assert(texts(self.files@).take(n as int) =~= texts(self.files@));
        AgentState {
            agent_id: self.agent_id.clone(),
            files,
            last_seen: self.last_seen,
            intent: self.intent.clone(),
            tool: self.tool.clone(),
            session: self.session.clone(),
        }
    }
}

/// Whether `files` holds `file`.
fn holds_file(files: &Vec<String>, file: &str) -> (r: bool)
    ensures
        r == texts(files@).contains(file@),
{
    let n = files.len();
    for i in 0..n
        invariant
            n == files@.len(),
            forall|j: int| 0 <= j < i ==> texts(files@)[j] != file@,
    {
        if str_eq(files[i].as_str(), file) {
            assert(texts(files@)[i as int] == file@);
            return true;
        }
        assert(texts(files@)[i as int] != file@);
    }
    false
}

/// `files` without `file`.
fn without_file(files: Vec<String>, file: &str) -> (r: Vec<String>)
    ensures
        texts(r@) == remove_all(texts(files@), file@),
{
    let ghost all = texts(files@);
    let mut out: Vec<String> = Vec::new();
    let n = files.len();
    for i in 0..n
        invariant
            n == files@.len(),
            all == texts(files@),
            texts(out@) == remove_all(all.take(i as int), file@),
    {
        let f = files[i].clone();
        assert(all.take(i + 1).drop_last() =~= all.take(i as int));
        assert(all.take(i + 1).last() == f@);
        if !str_eq(f.as_str(), file) {
            let ghost before = out@;
            out.push(f);
            assert(out@ == before.push(f));
            assert(texts(out@) =~= remove_all(all.take(i as int), file@).push(all[i as int]));
        }
    }
    assert(all.take(n as int) =~= all);
    out
}

/// The active files an agent had before an activity (none for a new
/// agent).
pub open spec fn prior_files(m: Map<Seq<char>, AgentState>, id: Seq<char>) -> Seq<Seq<char>> {
    if m.contains_key(id) {
        texts(m[id].files@)
    } else {
        seq![]
    }
}

/// How many activities named a file (zero if none did).
pub open spec fn ref_count(refs: Map<Seq<char>, u32>, file: Seq<char>) -> nat {
    if refs.contains_key(file) {
        refs[file] as nat
    } else {
        0
    }
}

/// Agent `k` is not stale at `now` and works on `file`.
pub open spec fn active_on(m: Map<Seq<char>, AgentState>, k: Seq<char>, file: Seq<char>, timeout: i64, now: i64) -> bool {
    !is_stale(m[k].last_seen, timeout, now) && texts(m[k].files@).contains(file)
}

/// Two states say the same: id, files, time, intent, tool and session.
pub open spec fn same_state(a: AgentState, b: AgentState) -> bool {
    &&& a.agent_id == b.agent_id
    &&& texts(a.files@) == texts(b.files@)
    &&& a.last_seen == b.last_seen
    &&& a.intent == b.intent
    &&& a.tool == b.tool
    &&& a.session == b.session
}

/// Some agent, stale at `now` or not as `stale` says, has `f` active.
pub open spec fn held_by(m: Map<Seq<char>, AgentState>, f: Seq<char>, stale: bool, timeout: i64, now: i64) -> bool {
    exists|k: Seq<char>| #[trigger] m.contains_key(k) && is_stale(m[k].last_seen, timeout, now) == stale
        && texts(m[k].files@).contains(f)
}

/// Some agent among the first `i` keys, stale or not as `stale` says, has
/// `f` active.
pub open spec fn held_upto(
    m: Map<Seq<char>, AgentState>,
    ks: Seq<Seq<char>>,
    i: int,
    f: Seq<char>,
    stale: bool,
    timeout: i64,
    now: i64,
) -> bool {
    exists|j: int| 0 <= j < i && is_stale(m[#[trigger] ks[j]].last_seen, timeout, now) == stale
        && texts(m[ks[j]].files@).contains(f)
}

proof fn lemma_held_step(
    m: Map<Seq<char>, AgentState>,
    ks: Seq<Seq<char>>,
    i: int,
    f: Seq<char>,
    stale: bool,
    timeout: i64,
    now: i64,
)
    requires
        0 <= i < ks.len(),
    ensures
        held_upto(m, ks, i + 1, f, stale, timeout, now) == (held_upto(m, ks, i, f, stale, timeout, now) || (
        is_stale(m[ks[i]].last_seen, timeout, now) == stale && texts(m[ks[i]].files@).contains(f))),
{
    if held_upto(m, ks, i + 1, f, stale, timeout, now) {
        let j = choose|j: int| 0 <= j < i + 1 && is_stale(m[#[trigger] ks[j]].last_seen, timeout, now) == stale
            && texts(m[ks[j]].files@).contains(f);
        if j < i {
            assert(held_upto(m, ks, i, f, stale, timeout, now));
        }
    }
    if held_upto(m, ks, i, f, stale, timeout, now) {
        let j = choose|j: int| 0 <= j < i && is_stale(m[#[trigger] ks[j]].last_seen, timeout, now) == stale
            && texts(m[ks[j]].files@).contains(f);
        assert(0 <= j < i + 1);
    }
    if is_stale(m[ks[i]].last_seen, timeout, now) == stale && texts(m[ks[i]].files@).contains(f) {
        assert(0 <= i < i + 1 && is_stale(m[ks[i]].last_seen, timeout, now) == stale);
    }
}

proof fn lemma_held_all(
    m: Map<Seq<char>, AgentState>,
    ks: Seq<Seq<char>>,
    f: Seq<char>,
    stale: bool,
    timeout: i64,
    now: i64,
)
    requires
        forall|j: int| 0 <= j < ks.len() ==> #[trigger] m.contains_key(ks[j]),
        forall|k: Seq<char>| #[trigger] m.contains_key(k) ==> ks.contains(k),
    ensures
        held_upto(m, ks, ks.len() as int, f, stale, timeout, now) == held_by(m, f, stale, timeout, now),
{
    if held_by(m, f, stale, timeout, now) {
        let k = choose|k: Seq<char>| #[trigger] m.contains_key(k) && is_stale(m[k].last_seen, timeout, now) == stale
            && texts(m[k].files@).contains(f);
        assert(ks.contains(k));
        let j = choose|j: int| 0 <= j < ks.len() && ks[j] == k;
        assert(is_stale(m[ks[j]].last_seen, timeout, now) == stale);
    }
    if held_upto(m, ks, ks.len() as int, f, stale, timeout, now) {
        let j = choose|j: int| 0 <= j < ks.len() && is_stale(m[#[trigger] ks[j]].last_seen, timeout, now) == stale
            && texts(m[ks[j]].files@).contains(f);
        assert(m.contains_key(ks[j]));
    }
}

/// A concatenation holds what either part holds.
proof fn lemma_contains_concat(a: Seq<Seq<char>>, b: Seq<Seq<char>>, x: Seq<char>)
    ensures
        (a + b).contains(x) <==> (a.contains(x) || b.contains(x)),
{
    if (a + b).contains(x) {
        let i = choose|i: int| 0 <= i < (a + b).len() && (a + b)[i] == x;
        if i < a.len() {
            assert(a[i] == x);
        } else {
            assert(b[i - a.len()] == x);
        }
    }
    if a.contains(x) {
        let i = choose|i: int| 0 <= i < a.len() && a[i] == x;
        assert((a + b)[i] == x);
    }
    if b.contains(x) {
        let i = choose|i: int| 0 <= i < b.len() && b[i] == x;
        assert((a + b)[a.len() + i] == x);
    }
}

/// Appends copies of `src` to `dst`.
fn append_texts(dst: &mut Vec<String>, src: &Vec<String>)
    ensures
        texts(final(dst)@) == texts(old(dst)@) + texts(src@),
{
    let n = src.len();
    for i in 0..n
        invariant
            n == src@.len(),
            texts(dst@) == texts(old(dst)@) + texts(src@).take(i as int),
    {
        let ghost before = dst@;
        dst.push(src[i].clone());
        assert(dst@ == before.push(src@[i as int]));
        assert(texts(dst@) =~= texts(before).push(src@[i as int]@));
        assert(texts(src@).take(i + 1) =~= texts(src@).take(i as int).push(src@[i as int]@));
        assert(texts(old(dst)@) + texts(src@).take(i + 1) =~= (texts(old(dst)@) + texts(src@).take(i as int)).push(
            src@[i as int]@,
        ));
    }
    assert(texts(src@).take(n as int) =~= texts(src@));
}

/// Pushing an element not yet present keeps a list free of duplicates.
proof fn lemma_push_new(s: Seq<Seq<char>>, x: Seq<char>)
    requires
        s.no_duplicates(),
        !s.contains(x),
    ensures
        s.push(x).no_duplicates(),
{
    let p = s.push(x);
    assert forall|i: int, j: int| 0 <= i < p.len() && 0 <= j < p.len() && i != j implies p[i] != p[j] by {
        if i == s.len() {
            assert(p[j] == s[j]);
        } else if j == s.len() {
            assert(p[i] == s[i]);
        } else {
            assert(p[i] == s[i] && p[j] == s[j]);
        }
    }
}

/// Tracks agent activity: per-agent state and how often each file was
/// acted on.
#[derive(Debug, Clone)]
pub struct AgentTracker {
    /// Per-agent state, by agent id.
    agents: Assoc<AgentState>,
    /// Seconds after which an agent is stale.
    stale_timeout: i64,
    /// File path to the number of activities that named it.
    file_references: Assoc<u32>,
}

impl AgentTracker {
    /// The agents by id.
    pub closed spec fn agent_map(&self) -> Map<Seq<char>, AgentState> {
        self.agents@
    }

    /// The reference count of each referenced file.
    pub closed spec fn reference_map(&self) -> Map<Seq<char>, u32> {
        self.file_references@
    }

    /// Seconds after which an agent is stale.
    pub closed spec fn timeout(&self) -> i64 {
        self.stale_timeout
    }

    /// Each agent is filed under its own id and lists each file once.
    pub closed spec fn wf(&self) -> bool {
        &&& self.agents.wf()
        &&& self.file_references.wf()
        &&& forall|k: Seq<char>| #[trigger] self.agents@.contains_key(k) ==> self.agents@[k].agent_id@ == k
            && texts(self.agents@[k].files@).no_duplicates()
    }

    /// What `get_active_agent_at(file, now)` answers: the most recently seen
    /// agent not stale at `now` that has `file` active, `None` when there is
    /// none.
    pub open spec fn active_answer(&self, file: Seq<char>, now: i64, r: Option<String>) -> bool {
        &&& r is None <==> !(exists|k: Seq<char>| #[trigger] self.agent_map().contains_key(k) && active_on(
            self.agent_map(),
            k,
            file,
            self.timeout(),
            now,
        ))
        &&& r matches Some(id) ==> self.agent_map().contains_key(id@) && active_on(
            self.agent_map(),
            id@,
            file,
            self.timeout(),
            now,
        )
        &&& r matches Some(id) ==> forall|k: Seq<char>| #[trigger] self.agent_map().contains_key(k) && active_on(
            self.agent_map(),
            k,
            file,
            self.timeout(),
            now,
        ) ==> self.agent_map()[k].last_seen <= self.agent_map()[id@].last_seen
    }

    /// What `get_all_agents_at(now)` answers: a copy of each agent not stale
    /// at `now`, each once.
    pub open spec fn all_agents_answer(&self, now: i64, r: Seq<AgentState>) -> bool {
        &&& forall|k: Seq<char>| (#[trigger] self.agent_map().contains_key(k) && !is_stale(
            self.agent_map()[k].last_seen,
            self.timeout(),
            now,
        )) <==> exists|i: int| 0 <= i < r.len() && (#[trigger] r[i]).agent_id@ == k
        &&& forall|i: int| 0 <= i < r.len() ==> self.agent_map().contains_key((#[trigger] r[i]).agent_id@)
            && same_state(r[i], self.agent_map()[r[i].agent_id@])
        &&& forall|i: int, j: int| 0 <= i < r.len() && 0 <= j < r.len() && i != j ==> (#[trigger] r[i]).agent_id@
            != (#[trigger] r[j]).agent_id@
    }

    /// How many agents are not stale at `now`.
    pub open spec fn active_count_at(&self, now: i64) -> nat {
        self.agent_map().dom().filter(|k: Seq<char>| !is_stale(self.agent_map()[k].last_seen, self.timeout(), now)).len()
    }

    /// What `prune_stale_at(now)` does, taking `before` to `after` and
    /// answering `r`: the agents stale at `now` leave, the others stay as
    /// they were, and reference counts are dropped for the files that only
    /// a removed agent had active.
    pub open spec fn pruned_at(before: Self, after: Self, now: i64, r: usize) -> bool {
        &&& after.timeout() == before.timeout()
        &&& forall|k: Seq<char>| #[trigger] after.agent_map().contains_key(k) <==> (before.agent_map().contains_key(k)
            && !is_stale(before.agent_map()[k].last_seen, before.timeout(), now))
        &&& forall|k: Seq<char>| #[trigger] after.agent_map().contains_key(k) ==> after.agent_map()[k] == before.agent_map()[k]
        &&& r == before.agent_map().dom().len() - after.agent_map().dom().len()
        &&& forall|f: Seq<char>| #[trigger] after.reference_map().contains_key(f) <==> (before.reference_map().contains_key(f)
            && !(held_by(before.agent_map(), f, true, before.timeout(), now) && !held_by(
            before.agent_map(),
            f,
            false,
            before.timeout(),
            now,
        )))
        &&& forall|f: Seq<char>| #[trigger] after.reference_map().contains_key(f) ==> after.reference_map()[f]
            == before.reference_map()[f]
    }

    /// No agents, no references, agents stale after `stale_timeout`
    /// seconds.
    pub fn new(stale_timeout: i64) -> (r: Self)
        ensures
            r.wf(),
            r.agent_map() == Map::<Seq<char>, AgentState>::empty(),
            r.reference_map() == Map::<Seq<char>, u32>::empty(),
            r.timeout() == stale_timeout,
    {
        AgentTracker { agents: Assoc::new(), stale_timeout, file_references: Assoc::new() }
    }

    /// A tracker whose agents go stale after five minutes.
    pub fn with_default_timeout() -> (r: Self)
        ensures
            r.wf(),
            r.agent_map() == Map::<Seq<char>, AgentState>::empty(),
            r.reference_map() == Map::<Seq<char>, u32>::empty(),
            r.timeout() == 300,
    {
        Self::new(300)
    }

    /// The activity of a JSONL line, or `None`: a blank line, a line that
    /// is not an activity (`parsed` is what decoding its JSON gave) and an
    /// activity with an empty agent, action or file all give `None`.
    pub fn process_line(&self, line: &str, parsed: Result<AgentActivity, serde_json::Error>) -> (r: Option<
        AgentActivity,
    >)
        ensures
            is_blank(line@) ==> r is None,
            !is_blank(line@) ==> match parsed {
                Err(_) => r is None,
                Ok(a) => if a.agent@.len() == 0 || a.action@.len() == 0 || a.file@.len() == 0 {
                    r is None
                } else {
                    r == Some(a)
                },
            },
    {
        let cs = chars_of(line);
        let n = cs.len();
        let mut blank = true;
        for i in 0..n
            invariant
                n == cs@.len(),
                cs@ == line@,
                blank == forall|j: int| 0 <= j < i ==> is_white_space(#[trigger] cs@[j]),
        {
            if !char_is_white_space(cs[i]) {
                blank = false;
            }
        }
        if blank {
            return None;
        }
        match parsed {
            Err(_) => None,
            Ok(a) => {
                if chars_of(a.agent.as_str()).len() == 0 || chars_of(a.action.as_str()).len() == 0 || chars_of(a.file.as_str()).len() == 0 {
                    None
                } else {
                    Some(a)
                }
            },
        }
    }

    /// Records an activity seen at `now`: the agent is created if new, its
    /// time, intent, tool and session are taken from the activity, the file
    /// joins its active files (or leaves them when the activity is done),
    /// and the file's reference count goes up by one.
    pub fn update_from_activity(&mut self, activity: &AgentActivity, now: i64)
        requires
            old(self).wf(),
            ref_count(old(self).reference_map(), activity.file@) < u32::MAX,
        ensures
            final(self).wf(),
            final(self).timeout() == old(self).timeout(),
            final(self).agent_map() == old(self).agent_map().insert(
                activity.agent@,
                final(self).agent_map()[activity.agent@],
            ),
            final(self).agent_map()[activity.agent@].agent_id@ == activity.agent@,
            texts(final(self).agent_map()[activity.agent@].files@) == next_files(
                prior_files(old(self).agent_map(), activity.agent@),
                activity.file@,
                activity.done == Some(true),
            ),
            final(self).agent_map()[activity.agent@].last_seen == activity_time(activity.ts, now),
            final(self).agent_map()[activity.agent@].intent == activity.intent,
            final(self).agent_map()[activity.agent@].tool == activity.tool,
            final(self).agent_map()[activity.agent@].session == activity.session,
            final(self).reference_map() == old(self).reference_map().insert(
                activity.file@,
                (ref_count(old(self).reference_map(), activity.file@) + 1) as u32,
            ),
    {
        let ghost m0 = self.agents@;
        let existing = self.agents.remove(activity.agent.as_str());
        let (agent_id, files) = match existing {
            Some(st) => (st.agent_id, st.files),
            None => (activity.agent.clone(), Vec::new()),
        };
        proof {
            if m0.contains_key(activity.agent@) {
                assert(texts(m0[activity.agent@].files@).no_duplicates());
            }
            assert(texts(files@) == prior_files(m0, activity.agent@));
        }
        let files = if activity.is_done() {
            proof {
                lemma_remove_all(texts(files@), activity.file@);
            }
            without_file(files, activity.file.as_str())
        } else if holds_file(&files, activity.file.as_str()) {
            files
        } else {
            let ghost before = files@;
            let mut more = files;
            more.push(activity.file.clone());
            proof {
                assert(texts(more@) =~= texts(before).push(activity.file@));
                lemma_push_new(texts(before), activity.file@);
            }
            more
        };
        let state = AgentState {
            agent_id,
            files,
            last_seen: activity.timestamp_at(now),
            intent: activity.intent.clone(),
            tool: activity.tool.clone(),
            session: activity.session.clone(),
        };
        let ghost m1 = self.agents@;
        self.agents.insert(activity.agent.clone(), state);
        proof {
            assert(self.agents@ =~= m0.insert(activity.agent@, state));
        }
        let count: u32 = match self.file_references.get(activity.file.as_str()) {
            Some(c) => *c,
            None => 0,
        };
        self.file_references.insert(activity.file.clone(), count + 1);
    }

    /// The most recently seen agent, not stale at `now`, that has `file`
    /// among its active files; `None` when no such agent exists.
    pub fn get_active_agent_at(&self, file: &str, now: i64) -> (r: Option<String>)
        requires
            self.wf(),
        ensures
            r is None <==> !(exists|k: Seq<char>| #[trigger] self.agent_map().contains_key(k) && active_on(
                self.agent_map(),
                k,
                file@,
                self.timeout(),
                now,
            )),
            r matches Some(id) ==> self.agent_map().contains_key(id@) && active_on(
                self.agent_map(),
                id@,
                file@,
                self.timeout(),
                now,
            ),
            r matches Some(id) ==> forall|k: Seq<char>| #[trigger] self.agent_map().contains_key(k) && active_on(
                self.agent_map(),
                k,
                file@,
                self.timeout(),
                now,
            ) ==> self.agent_map()[k].last_seen <= self.agent_map()[id@].last_seen,
    {
        let ghost m = self.agents@;
        let ghost ks = self.agents.key_seq();
        proof {
            self.agents.lemma_keys();
        }
        let n = self.agents.len();
        let mut best: Option<usize> = None;
        let mut best_seen: i64 = 0;
        for i in 0..n
            invariant
                n == ks.len(),
                m == self.agents@,
                ks == self.agents.key_seq(),
                self.wf(),
                best matches Some(j) ==> j < i && active_on(m, ks[j as int], file@, self.timeout(), now)
                    && best_seen == m[ks[j as int]].last_seen,
                best matches Some(j) ==> forall|j2: int| 0 <= j2 < i && #[trigger] active_on(m, ks[j2], file@, self.timeout(), now)
                    ==> m[ks[j2]].last_seen <= best_seen,
                best is None ==> forall|j2: int| 0 <= j2 < i ==> !#[trigger] active_on(m, ks[j2], file@, self.timeout(), now),
        {
            let state = self.agents.value_at(i);
            if !state.is_stale_at(self.stale_timeout, now) && holds_file(&state.files, file) {
                match best {
                    None => {
                        best = Some(i);
                        best_seen = state.last_seen;
                    },
                    Some(_) => {
                        if state.last_seen > best_seen {
                            best = Some(i);
                            best_seen = state.last_seen;
                        }
                    },
                }
            }
        }
        proof {
            self.agents.lemma_keys();
        }
        match best {
            None => {
                proof {
                    assert forall|k: Seq<char>| #[trigger] m.contains_key(k) implies !active_on(m, k, file@, self.timeout(), now) by {
                        assert(ks.contains(k));
                        let j = choose|j: int| 0 <= j < ks.len() && ks[j] == k;
                        assert(!active_on(m, ks[j], file@, self.timeout(), now));
                    }
                }
                None
            },
            Some(j) => {
                let id = self.agents.key_at(j).clone();
                proof {
                    assert forall|k: Seq<char>| #[trigger] m.contains_key(k) && active_on(m, k, file@, self.timeout(), now)
                        implies m[k].last_seen <= m[id@].last_seen by {
                        assert(ks.contains(k));
                        let j2 = choose|j2: int| 0 <= j2 < ks.len() && ks[j2] == k;
                        assert(active_on(m, ks[j2], file@, self.timeout(), now));
                    }
                }
                Some(id)
            },
        }
    }

    /// The most recently seen agent currently working on `file`, if any.
    pub fn get_active_agent(&self, file: &str) -> (r: Option<String>)
        requires
            self.wf(),
        ensures
            r matches Some(id) ==> self.agent_map().contains_key(id@)
                && texts(self.agent_map()[id@].files@).contains(file@),
            exists|now: i64| #[trigger] self.active_answer(file@, now, r),
    {
        let now = now_secs();
        let r = self.get_active_agent_at(file, now);
        assert(self.active_answer(file@, now, r));
        r
    }

    /// Seconds after which an agent is stale.
    pub fn stale_timeout(&self) -> (r: i64)
        ensures
            r == self.timeout(),
    {
        self.stale_timeout
    }

    /// The state of agent `id`, if tracked.
    pub fn get_agent(&self, id: &str) -> (r: Option<&AgentState>)
        requires
            self.wf(),
        ensures
            self.agent_map().contains_key(id@) ==> r == Some(&self.agent_map()[id@]),
            !self.agent_map().contains_key(id@) ==> r is None,
    {
        self.agents.get(id)
    }

    /// How many agents are tracked, stale ones included.
    pub fn agent_count(&self) -> (r: usize)
        requires
            self.wf(),
        ensures
            r == self.agent_map().dom().len(),
    {
        self.agents.len()
    }

    /// How many times activities named `file`.
    pub fn get_reference_count(&self, file: &str) -> (r: u32)
        requires
            self.wf(),
        ensures
            r == ref_count(self.reference_map(), file@),
    {
        match self.file_references.get(file) {
            Some(c) => *c,
            None => 0,
        }
    }

    /// Copies of the agents not stale at `now`, each once.
    pub fn get_all_agents_at(&self, now: i64) -> (r: Vec<AgentState>)
        requires
            self.wf(),
        ensures
            forall|k: Seq<char>| (#[trigger] self.agent_map().contains_key(k) && !is_stale(
                self.agent_map()[k].last_seen,
                self.timeout(),
                now,
            )) <==> exists|i: int| 0 <= i < r@.len() && (#[trigger] r@[i]).agent_id@ == k,
            forall|i: int| 0 <= i < r@.len() ==> self.agent_map().contains_key((#[trigger] r@[i]).agent_id@)
                && same_state(r@[i], self.agent_map()[r@[i].agent_id@]),
            forall|i: int, j: int| 0 <= i < r@.len() && 0 <= j < r@.len() && i != j ==> (#[trigger] r@[i]).agent_id@
                != (#[trigger] r@[j]).agent_id@,
    {
        let ghost m = self.agents@;
        let ghost ks = self.agents.key_seq();
        let ghost timeout = self.stale_timeout;
        proof {
            self.agents.lemma_keys();
        }
        let n = self.agents.len();
        let mut out: Vec<AgentState> = Vec::new();
        let mut i: usize = 0;
        while i < n
            invariant
                n == ks.len(),
                i <= n,
                m == self.agents@,
                ks == self.agents.key_seq(),
                timeout == self.stale_timeout,
                ks.no_duplicates(),
                forall|j: int| 0 <= j < ks.len() ==> #[trigger] m.contains_key(ks[j]),
                self.wf(),
                forall|j: int| 0 <= j < i && !is_stale(m[#[trigger] ks[j]].last_seen, timeout, now) ==> exists|t: int|
                    0 <= t < out@.len() && (#[trigger] out@[t]).agent_id@ == ks[j],
                forall|t: int| 0 <= t < out@.len() ==> exists|j: int| 0 <= j < i && #[trigger] ks[j] == (#[trigger] out@[t]).agent_id@
                    && !is_stale(m[ks[j]].last_seen, timeout, now),
                forall|t: int| 0 <= t < out@.len() ==> m.contains_key((#[trigger] out@[t]).agent_id@)
                    && same_state(out@[t], m[out@[t].agent_id@]),
                forall|a: int, b: int| 0 <= a < out@.len() && 0 <= b < out@.len() && a != b ==> (#[trigger] out@[a]).agent_id@
                    != (#[trigger] out@[b]).agent_id@,
            decreases n - i,
        {
            let state = self.agents.value_at(i);
            if !state.is_stale_at(self.stale_timeout, now) {
                let copy = state.duplicate();
                let ghost before = out@;
                proof {
                    assert(m.contains_key(ks[i as int]));
                    assert(m[ks[i as int]].agent_id@ == ks[i as int]);
                    assert forall|t: int| 0 <= t < before.len() implies before[t].agent_id@ != ks[i as int] by {
                        let j = choose|j: int| 0 <= j < i && #[trigger] ks[j] == before[t].agent_id@
                            && !is_stale(m[ks[j]].last_seen, timeout, now);
                        assert(ks[j] != ks[i as int]);
                    }
                }
                out.push(copy);
                proof {
                    assert(out@ == before.push(copy));
                    assert(out@[before.len() as int].agent_id@ == ks[i as int]);
                    assert forall|j: int| 0 <= j < i + 1 && !is_stale(m[#[trigger] ks[j]].last_seen, timeout, now) implies exists|t: int|
                        0 <= t < out@.len() && (#[trigger] out@[t]).agent_id@ == ks[j] by {
                        if j < i {
                            let t = choose|t: int| 0 <= t < before.len() && (#[trigger] before[t]).agent_id@ == ks[j];
                            assert(out@[t] == before[t]);
                        } else {
                            assert(out@[before.len() as int].agent_id@ == ks[j]);
                        }
                    }
                    assert forall|t: int| 0 <= t < out@.len() implies exists|j: int| 0 <= j < i + 1 && #[trigger] ks[j]
                        == (#[trigger] out@[t]).agent_id@ && !is_stale(m[ks[j]].last_seen, timeout, now) by {
                        if t < before.len() {
                            assert(out@[t] == before[t]);
                            let j = choose|j: int| 0 <= j < i && #[trigger] ks[j] == before[t].agent_id@
                                && !is_stale(m[ks[j]].last_seen, timeout, now);
                            assert(ks[j] == out@[t].agent_id@);
                        } else {
                            assert(ks[i as int] == out@[t].agent_id@);
                        }
                    }
                    assert forall|t: int| 0 <= t < out@.len() implies m.contains_key((#[trigger] out@[t]).agent_id@)
                        && same_state(out@[t], m[out@[t].agent_id@]) by {
                        if t < before.len() {
                            assert(out@[t] == before[t]);
                        }
                    }
                    assert forall|a: int, b: int| 0 <= a < out@.len() && 0 <= b < out@.len() && a != b implies (#[trigger] out@[a]).agent_id@
                        != (#[trigger] out@[b]).agent_id@ by {
                        if a < before.len() && b < before.len() {
                            assert(out@[a] == before[a] && out@[b] == before[b]);
                        } else if a < before.len() {
                            assert(out@[a] == before[a]);
                        } else {
                            assert(out@[b] == before[b]);
                        }
                    }
                }
            } else {
                proof {
                    assert forall|t: int| 0 <= t < out@.len() implies exists|j: int| 0 <= j < i + 1 && #[trigger] ks[j]
                        == (#[trigger] out@[t]).agent_id@ && !is_stale(m[ks[j]].last_seen, timeout, now) by {
                        let j = choose|j: int| 0 <= j < i && #[trigger] ks[j] == out@[t].agent_id@
                            && !is_stale(m[ks[j]].last_seen, timeout, now);
                    }
                }
            }
            i = i + 1;
        }
        proof {
            self.agents.lemma_keys();
            assert forall|k: Seq<char>| (#[trigger] m.contains_key(k) && !is_stale(m[k].last_seen, timeout, now))
                <==> exists|t: int| 0 <= t < out@.len() && (#[trigger] out@[t]).agent_id@ == k by {
                if m.contains_key(k) && !is_stale(m[k].last_seen, timeout, now) {
                    assert(ks.contains(k));
                    let j = choose|j: int| 0 <= j < ks.len() && ks[j] == k;
                    assert(!is_stale(m[ks[j]].last_seen, timeout, now));
                }
                if exists|t: int| 0 <= t < out@.len() && (#[trigger] out@[t]).agent_id@ == k {
                    let t = choose|t: int| 0 <= t < out@.len() && (#[trigger] out@[t]).agent_id@ == k;
                    let j = choose|j: int| 0 <= j < n && #[trigger] ks[j] == out@[t].agent_id@
                        && !is_stale(m[ks[j]].last_seen, timeout, now);
                }
            }
        }
        out
    }

    /// How many agents are not stale at `now`.
    pub fn active_agent_count_at(&self, now: i64) -> (r: usize)
        requires
            self.wf(),
        ensures
            r == self.agent_map().dom().filter(|k: Seq<char>| !is_stale(self.agent_map()[k].last_seen, self.timeout(), now)).len(),
    {
        let all = self.get_all_agents_at(now);
        proof {
            let m = self.agents@;
            let fresh = m.dom().filter(|k: Seq<char>| !is_stale(m[k].last_seen, self.timeout(), now));
            let ids = all@.map_values(|a: AgentState| a.agent_id@);
            assert(ids.no_duplicates()) by {
                assert forall|a: int, b: int| 0 <= a < ids.len() && 0 <= b < ids.len() && a != b implies ids[a] != ids[b] by {
                    assert(ids[a] == all@[a].agent_id@ && ids[b] == all@[b].agent_id@);
                }
            }
            assert(ids.to_set() =~= fresh) by {
                assert forall|k: Seq<char>| #[trigger] ids.to_set().contains(k) <==> fresh.contains(k) by {
                    if ids.contains(k) {
                        let t = choose|t: int| 0 <= t < ids.len() && ids[t] == k;
                        assert(all@[t].agent_id@ == k);
                    }
                    if fresh.contains(k) {
                        assert(m.contains_key(k) && !is_stale(m[k].last_seen, self.timeout(), now));
                        let t = choose|t: int| 0 <= t < all@.len() && (#[trigger] all@[t]).agent_id@ == k;
                        assert(ids[t] == k);
                    }
                }
            }
            ids.unique_seq_to_set();
        }
        all.len()
    }

    /// Removes the agents stale at `now` and returns how many there were.
    /// Reference counts are dropped for files that a removed agent had
    /// active and no remaining agent has.
    pub fn prune_stale_at(&mut self, now: i64) -> (r: usize)
        requires
            old(self).wf(),
        ensures
            final(self).wf(),
            final(self).timeout() == old(self).timeout(),
            forall|k: Seq<char>| #[trigger] final(self).agent_map().contains_key(k) <==> (old(self).agent_map().contains_key(k)
                && !is_stale(old(self).agent_map()[k].last_seen, old(self).timeout(), now)),
            forall|k: Seq<char>| #[trigger] final(self).agent_map().contains_key(k) ==> final(self).agent_map()[k] == old(self).agent_map()[k],
            r == old(self).agent_map().dom().len() - final(self).agent_map().dom().len(),
            forall|f: Seq<char>| #[trigger] final(self).reference_map().contains_key(f) <==> (old(self).reference_map().contains_key(f)
                && !(held_by(old(self).agent_map(), f, true, old(self).timeout(), now) && !held_by(
                old(self).agent_map(),
                f,
                false,
                old(self).timeout(),
                now,
            ))),
            forall|f: Seq<char>| #[trigger] final(self).reference_map().contains_key(f) ==> final(self).reference_map()[f]
                == old(self).reference_map()[f],
    {
        let ghost m = self.agents@;
        let ghost r0 = self.file_references@;
        let ghost ks = self.agents.key_seq();
        let ghost timeout = self.stale_timeout;
        proof {
            self.agents.lemma_keys();
        }
        let n = self.agents.len();
        let mut stale_keys: Vec<String> = Vec::new();
        let mut stale_files: Vec<String> = Vec::new();
        let mut fresh_files: Vec<String> = Vec::new();
        let mut i: usize = 0;
        while i < n
            invariant
                n == ks.len(),
                i <= n,
                m == self.agents@,
                r0 == self.file_references@,
                ks == self.agents.key_seq(),
                timeout == self.stale_timeout,
                self.wf(),
                forall|j: int| 0 <= j < ks.len() ==> #[trigger] m.contains_key(ks[j]),
                forall|k: Seq<char>| #[trigger] texts(stale_keys@).contains(k) <==> exists|j: int| 0 <= j < i && #[trigger] ks[j] == k
                    && is_stale(m[ks[j]].last_seen, timeout, now),
                forall|f: Seq<char>| #[trigger] texts(stale_files@).contains(f) <==> held_upto(m, ks, i as int, f, true, timeout, now),
                forall|f: Seq<char>| #[trigger] texts(fresh_files@).contains(f) <==> held_upto(m, ks, i as int, f, false, timeout, now),
            decreases n - i,
        {
            let state = self.agents.value_at(i);
            let ghost sk = texts(stale_keys@);
            let ghost sf = texts(stale_files@);
            let ghost ff = texts(fresh_files@);
            let stale = state.is_stale_at(self.stale_timeout, now);
            if stale {
                stale_keys.push(self.agents.key_at(i).clone());
                append_texts(&mut stale_files, &state.files);
            } else {
                append_texts(&mut fresh_files, &state.files);
            }
            proof {
                assert forall|k: Seq<char>| #[trigger] texts(stale_keys@).contains(k) <==> exists|j: int| 0 <= j < i + 1 && #[trigger] ks[j] == k
                    && is_stale(m[ks[j]].last_seen, timeout, now) by {
                    if stale {
                        assert(texts(stale_keys@) =~= sk.push(ks[i as int]));
                        lemma_contains_last(texts(stale_keys@), k);
                        assert(texts(stale_keys@).drop_last() =~= sk);
                    }
                    if exists|j: int| 0 <= j < i + 1 && #[trigger] ks[j] == k && is_stale(m[ks[j]].last_seen, timeout, now) {
                        let j = choose|j: int| 0 <= j < i + 1 && #[trigger] ks[j] == k && is_stale(m[ks[j]].last_seen, timeout, now);
                        if j == i {
                            assert(stale);
                        }
                    }
                }
                assert forall|f: Seq<char>| #[trigger] texts(stale_files@).contains(f) <==> held_upto(m, ks, i + 1, f, true, timeout, now) by {
                    lemma_held_step(m, ks, i as int, f, true, timeout, now);
                    if stale {
                        lemma_contains_concat(sf, texts(state.files@), f);
                    }
                }
                assert forall|f: Seq<char>| #[trigger] texts(fresh_files@).contains(f) <==> held_upto(m, ks, i + 1, f, false, timeout, now) by {
                    lemma_held_step(m, ks, i as int, f, false, timeout, now);
                    if !stale {
                        lemma_contains_concat(ff, texts(state.files@), f);
                    }
                }
            }
            i = i + 1;
        }
        let before = self.agents.len();
        let sn = stale_keys.len();
        let mut t: usize = 0;
        while t < sn
            invariant
                sn == stale_keys@.len(),
                t <= sn,
                self.agents.wf(),
                self.agents.key_seq().len() <= before,
                before == m.dom().len(),
                self.file_references@ == r0,
                self.file_references.wf(),
                self.stale_timeout == timeout,
                forall|k: Seq<char>| #[trigger] self.agents@.contains_key(k) <==> (m.contains_key(k) && !texts(stale_keys@).take(t as int).contains(k)),
                forall|k: Seq<char>| #[trigger] self.agents@.contains_key(k) ==> self.agents@[k] == m[k],
                forall|k: Seq<char>| #[trigger] m.contains_key(k) ==> m[k].agent_id@ == k && texts(m[k].files@).no_duplicates(),
            decreases sn - t,
        {
            let ghost prev = self.agents@;
            self.agents.remove(stale_keys[t].as_str());
            proof {
                assert forall|k: Seq<char>| #[trigger] self.agents@.contains_key(k) <==> (m.contains_key(k) && !texts(stale_keys@).take(t + 1).contains(k)) by {
                    assert(texts(stale_keys@).take(t + 1) =~= texts(stale_keys@).take(t as int).push(stale_keys@[t as int]@));
                    lemma_contains_last(texts(stale_keys@).take(t + 1), k);
                    assert(texts(stale_keys@).take(t + 1).drop_last() =~= texts(stale_keys@).take(t as int));
                }
            }
            t = t + 1;
        }
        proof {
            assert(texts(stale_keys@).take(sn as int) =~= texts(stale_keys@));
        }
        let ghost r_mid = self.file_references@;
        let fnum = stale_files.len();
        let mut u: usize = 0;
        while u < fnum
            invariant
                fnum == stale_files@.len(),
                u <= fnum,
                self.file_references.wf(),
                self.agents.wf(),
                self.agents.key_seq().len() <= before,
                before == m.dom().len(),
                self.stale_timeout == timeout,
                forall|k: Seq<char>| #[trigger] self.agents@.contains_key(k) <==> (m.contains_key(k) && !texts(stale_keys@).contains(k)),
                forall|k: Seq<char>| #[trigger] self.agents@.contains_key(k) ==> self.agents@[k] == m[k],
                forall|k: Seq<char>| #[trigger] m.contains_key(k) ==> m[k].agent_id@ == k && texts(m[k].files@).no_duplicates(),
                forall|g: Seq<char>| #[trigger] self.file_references@.contains_key(g) <==> (r0.contains_key(g)
                    && !(texts(stale_files@).take(u as int).contains(g) && !texts(fresh_files@).contains(g))),
                forall|g: Seq<char>| #[trigger] self.file_references@.contains_key(g) ==> self.file_references@[g] == r0[g],
            decreases fnum - u,
        {
            let f = &stale_files[u];
            let keep = holds_file(&fresh_files, f.as_str());
            if !keep {
                self.file_references.remove(f.as_str());
            }
            proof {
                assert forall|g: Seq<char>| #[trigger] self.file_references@.contains_key(g) <==> (r0.contains_key(g)
                    && !(texts(stale_files@).take(u + 1).contains(g) && !texts(fresh_files@).contains(g))) by {
                    assert(texts(stale_files@).take(u + 1) =~= texts(stale_files@).take(u as int).push(stale_files@[u as int]@));
                    lemma_contains_last(texts(stale_files@).take(u + 1), g);
                    assert(texts(stale_files@).take(u + 1).drop_last() =~= texts(stale_files@).take(u as int));
                }
            }
            u = u + 1;
        }
        proof {
            assert(texts(stale_files@).take(fnum as int) =~= texts(stale_files@));
            assert forall|k: Seq<char>| #[trigger] texts(stale_keys@).contains(k) <==> (m.contains_key(k) && is_stale(m[k].last_seen, timeout, now)) by {
                if m.contains_key(k) && is_stale(m[k].last_seen, timeout, now) {
                    assert(ks.contains(k));
                    let j = choose|j: int| 0 <= j < ks.len() && ks[j] == k;
                    assert(0 <= j < n && ks[j] == k && is_stale(m[ks[j]].last_seen, timeout, now));
                }
            }
            assert forall|f: Seq<char>| #[trigger] held_upto(m, ks, n as int, f, true, timeout, now) == held_by(m, f, true, timeout, now) by {
                lemma_held_all(m, ks, f, true, timeout, now);
            }
            assert forall|f: Seq<char>| #[trigger] held_upto(m, ks, n as int, f, false, timeout, now) == held_by(m, f, false, timeout, now) by {
                lemma_held_all(m, ks, f, false, timeout, now);
            }
            assert forall|f: Seq<char>| #[trigger] self.file_references@.contains_key(f) <==> (r0.contains_key(f)
                && !(held_by(m, f, true, timeout, now) && !held_by(m, f, false, timeout, now))) by {
                assert(texts(stale_files@).contains(f) == held_upto(m, ks, n as int, f, true, timeout, now));
                assert(texts(fresh_files@).contains(f) == held_upto(m, ks, n as int, f, false, timeout, now));
            }
        }
        let after = self.agents.len();
        before - after
    }

    /// Copies of the agents not stale now.
    pub fn get_all_agents(&self) -> (r: Vec<AgentState>)
        requires
            self.wf(),
        ensures
            forall|i: int| 0 <= i < r@.len() ==> self.agent_map().contains_key((#[trigger] r@[i]).agent_id@)
                && same_state(r@[i], self.agent_map()[r@[i].agent_id@]),
            exists|now: i64| #[trigger] self.all_agents_answer(now, r@),
    {
        let now = now_secs();
        let r = self.get_all_agents_at(now);
        assert(self.all_agents_answer(now, r@));
        r
    }

    /// How many agents are not stale now.
    pub fn active_agent_count(&self) -> (r: usize)
        requires
            self.wf(),
        ensures
            r <= self.agent_map().dom().len(),
            exists|now: i64| r == #[trigger] self.active_count_at(now),
    {
        let now = now_secs();
        let r = self.active_agent_count_at(now);
        proof {
            let m = self.agents@;
            self.agents.lemma_keys();
            vstd::seq_lib::seq_to_set_is_finite(self.agents.key_seq());
            let fresh = m.dom().filter(|k: Seq<char>| !is_stale(m[k].last_seen, self.timeout(), now));
            vstd::set_lib::lemma_len_subset(fresh, m.dom());
            assert(r == self.active_count_at(now));
        }
        r
    }

    /// Removes the agents that are stale now; returns how many.
    pub fn prune_stale(&mut self) -> (r: usize)
        requires
            old(self).wf(),
        ensures
            final(self).wf(),
            final(self).timeout() == old(self).timeout(),
            r == old(self).agent_map().dom().len() - final(self).agent_map().dom().len(),
            forall|k: Seq<char>| #[trigger] final(self).agent_map().contains_key(k) ==> final(self).agent_map()[k] == old(self).agent_map()[k],
            exists|now: i64| #[trigger] Self::pruned_at(*old(self), *final(self), now, r),
    {
        let now = now_secs();
        let r = self.prune_stale_at(now);
        assert(Self::pruned_at(*old(self), *self, now, r));
        r
    }
}

/// An activity adds one to the reference count of its file and leaves
/// every other file's count as it was.
pub proof fn law_reference_counts_activities(before: Map<Seq<char>, u32>, file: Seq<char>, other: Seq<char>)
    requires
        ref_count(before, file) < u32::MAX,
        other != file,
    ensures
        ref_count(before.insert(file, (ref_count(before, file) + 1) as u32), file) == ref_count(before, file) + 1,
        ref_count(before.insert(file, (ref_count(before, file) + 1) as u32), other) == ref_count(before, other),
{
}

/// After a finished activity the file is no longer active; after any other
/// activity it is active, once; the agent's other files stay as they were.
pub proof fn law_activity_files(files: Seq<Seq<char>>, file: Seq<char>, other: Seq<char>)
    requires
        files.no_duplicates(),
        other != file,
    ensures
        !next_files(files, file, true).contains(file),
        next_files(files, file, false).contains(file),
        next_files(files, file, true).no_duplicates(),
        next_files(files, file, false).no_duplicates(),
        next_files(files, file, true).contains(other) == files.contains(other),
        next_files(files, file, false).contains(other) == files.contains(other),
{
    lemma_remove_all(files, file);
    if !files.contains(file) {
        lemma_push_new(files, file);
        assert(files.push(file)[files.len() as int] == file);
        lemma_contains_last(files.push(file), other);
        assert(files.push(file).drop_last() =~= files);
    }
}

/// Pruning at `now` leaves no agent that is stale at `now`, so pruning
/// again at the same time removes nothing.
pub proof fn law_prune_leaves_no_stale_agent(
    before: Map<Seq<char>, AgentState>,
    after: Map<Seq<char>, AgentState>,
    timeout: i64,
    now: i64,
)
    requires
        forall|k: Seq<char>| #[trigger] after.contains_key(k) <==> (before.contains_key(k) && !is_stale(
            before[k].last_seen,
            timeout,
            now,
        )),
        forall|k: Seq<char>| #[trigger] after.contains_key(k) ==> after[k] == before[k],
    ensures
        forall|k: Seq<char>| #[trigger] after.contains_key(k) ==> !is_stale(after[k].last_seen, timeout, now),
{
}

} // verus!
