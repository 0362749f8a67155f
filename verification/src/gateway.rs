//! The relay gateway's bookkeeping: which daemons are connected for each
//! project, which of them an event is forwarded to, and the bounded buffer
//! of recent events kept for daemons that reconnect.  Times are
//! milliseconds on a monotonic clock.
use vstd::prelude::*;
use crate::assoc::Assoc;
use crate::grpc::FileEventMessage;
use crate::text::chars_of;

verus! {

/// Most events buffered per project (five minutes at about ten a second).
pub const MAX_BUFFER_SIZE: usize = 3000;

/// A daemon connected to the gateway.
#[derive(Debug, Clone, PartialEq, Eq)]
pub struct DaemonConnection {
    pub machine_id: String,
    pub connected_at: i64,
    pub last_seen: i64,
}

/// Whole seconds from `since` to `now`; none when `now` is not later.
pub open spec fn elapsed_secs(since: i64, now: i64) -> int {
    if now <= since {
        0
    } else {
        (now - since) / 1000
    }
}

/// A connection is stale once more than `timeout_secs` whole seconds have
/// passed since it was last seen.
pub open spec fn conn_stale(c: DaemonConnection, timeout_secs: u64, now: i64) -> bool {
    elapsed_secs(c.last_seen, now) > timeout_secs
}

impl DaemonConnection {
    /// A connection of `machine_id` made at `now`.
    pub fn new(machine_id: &str, now: i64) -> (r: Self)
        ensures
            r.machine_id@ == machine_id@,
            r.connected_at == now,
            r.last_seen == now,
    {
        DaemonConnection { machine_id: machine_id.to_string(), connected_at: now, last_seen: now }
    }

    /// Marks the connection as seen at `now`.
    pub fn update_last_seen(&mut self, now: i64)
        ensures
            *final(self) == (DaemonConnection { last_seen: now, ..*old(self) }),
    {
        self.last_seen = now;
    }

    /// Whether the connection is stale at `now`.
    pub fn is_stale(&self, timeout_secs: u64, now: i64) -> (r: bool)
        ensures
            r == conn_stale(*self, timeout_secs, now),
    {
        if now <= self.last_seen {
            return false;
        }
        let d: i128 = now as i128 - self.last_seen as i128;
        d / 1000 > timeout_secs as i128
    }

    fn duplicate(&self) -> (r: Self)
        ensures
            r == *self,
    {
        DaemonConnection { machine_id: self.machine_id.clone(), connected_at: self.connected_at, last_seen: self.last_seen }
    }
}

/// Holds of the connections that are not `machine`'s.
pub open spec fn not_of(machine: Seq<char>) -> spec_fn(DaemonConnection) -> bool {
    |c: DaemonConnection| c.machine_id@ != machine
}

/// Holds of the connections that are not stale at `now`.
pub open spec fn live_at(timeout_secs: u64, now: i64) -> spec_fn(DaemonConnection) -> bool {
    |c: DaemonConnection| !conn_stale(c, timeout_secs, now)
}

/// The connections of `conns` that are not `machine`'s.
pub open spec fn others(conns: Seq<DaemonConnection>, machine: Seq<char>) -> Seq<DaemonConnection> {
    conns.filter(not_of(machine))
}

/// The connections of `conns` that are not stale at `now`.
pub open spec fn fresh(conns: Seq<DaemonConnection>, timeout_secs: u64, now: i64) -> Seq<DaemonConnection> {
    conns.filter(live_at(timeout_secs, now))
}

/// The machine ids of `conns`, in order.
pub open spec fn machine_ids(conns: Seq<DaemonConnection>) -> Seq<Seq<char>> {
    conns.map_values(|c: DaemonConnection| c.machine_id@)
}

/// `conns` after `machine` was seen at `now`: its connections' `last_seen`
/// becomes `now`, every other field and connection stays.
pub open spec fn touched(conns: Seq<DaemonConnection>, machine: Seq<char>, now: i64) -> Seq<DaemonConnection> {
    conns.map_values(
        |c: DaemonConnection|
            if c.machine_id@ == machine {
                DaemonConnection { last_seen: now, ..c }
            } else {
                c
            },
    )
}

/// A project's buffer after one more event: the oldest event leaves when
/// the buffer is full.
pub open spec fn after_buffer(b: Seq<FileEventMessage>, e: FileEventMessage) -> Seq<FileEventMessage> {
    if b.len() >= MAX_BUFFER_SIZE {
        b.drop_first().push(e)
    } else {
        b.push(e)
    }
}

/// The value of `key` in `m`, or the empty sequence.
pub open spec fn or_empty<T>(m: Map<Seq<char>, Seq<T>>, key: Seq<char>) -> Seq<T> {
    if m.contains_key(key) {
        m[key]
    } else {
        Seq::empty()
    }
}

/// Gateway state: connected daemons and buffered events by project.
#[derive(Debug, Clone)]
pub struct GatewayServer {
    addr: String,
    connections: Assoc<Vec<DaemonConnection>>,
    buffer: Assoc<Vec<FileEventMessage>>,
}

/// The sequence views of a map's vectors.
pub open spec fn seq_values<T>(m: Map<Seq<char>, Vec<T>>) -> Map<Seq<char>, Seq<T>> {
    m.map_values(|v: Vec<T>| v@)
}

impl GatewayServer {
    /// Connected daemons by project.
    pub closed spec fn connection_map(&self) -> Map<Seq<char>, Seq<DaemonConnection>> {
        seq_values(self.connections@)
    }

    /// Buffered events by project, oldest first.
    pub closed spec fn buffer_map(&self) -> Map<Seq<char>, Seq<FileEventMessage>> {
        seq_values(self.buffer@)
    }

    pub closed spec fn addr_view(&self) -> Seq<char> {
        self.addr@
    }

    /// Each project is held once, and no buffer is over its bound.
    pub closed spec fn wf(&self) -> bool {
        &&& self.connections.wf()
        &&& self.buffer.wf()
        &&& forall|p: Seq<char>| #[trigger] self.buffer@.contains_key(p) ==> self.buffer@[p]@.len() <= MAX_BUFFER_SIZE
    }

    /// A gateway at `addr` with no daemons and no buffered events.
    pub fn new(addr: &str) -> (r: Self)
        ensures
            r.wf(),
            r.addr_view() == addr@,
            r.connection_map() == Map::<Seq<char>, Seq<DaemonConnection>>::empty(),
            r.buffer_map() == Map::<Seq<char>, Seq<FileEventMessage>>::empty(),
    {
        let r = GatewayServer { addr: addr.to_string(), connections: Assoc::new(), buffer: Assoc::new() };
        proof {
            assert(r.connection_map() =~= Map::<Seq<char>, Seq<DaemonConnection>>::empty());
            assert(r.buffer_map() =~= Map::<Seq<char>, Seq<FileEventMessage>>::empty());
        }
        r
    }

    /// The address the gateway serves.
    pub fn addr(&self) -> (r: &str)
        ensures
            r@ == self.addr_view(),
    {
        self.addr.as_str()
    }

    /// How many projects have a routing entry.
    pub fn project_count(&self) -> (r: usize)
        requires
            self.wf(),
        ensures
            r == self.connection_map().dom().len(),
    {
        proof {
            assert(self.connection_map().dom() =~= self.connections@.dom());
        }
        self.connections.len()
    }

    /// How many projects have buffered events.
    pub fn buffered_project_count(&self) -> (r: usize)
        requires
            self.wf(),
        ensures
            r == self.buffer_map().dom().len(),
    {
        proof {
            assert(self.buffer_map().dom() =~= self.buffer@.dom());
        }
        self.buffer.len()
    }

    /// Copies of the connections of `project_id`, if it has a routing
    /// entry.
    pub fn connections(&self, project_id: &str) -> (r: Option<Vec<DaemonConnection>>)
        requires
            self.wf(),
        ensures
            match r {
                Some(v) => self.connection_map().contains_key(project_id@) && v@ == self.connection_map()[project_id@],
                None => !self.connection_map().contains_key(project_id@),
            },
    {
        match self.connections.get(project_id) {
            Some(list) => {
                let mut out: Vec<DaemonConnection> = Vec::new();
                for i in 0..list.len()
                    invariant
                        out@ == list@.take(i as int),
                {
                    out.push(list[i].duplicate());
                    proof {
                        assert(out@ =~= list@.take(i + 1));
                    }
                }
                proof {
                    assert(list@.take(list@.len() as int) =~= list@);
                }
                Some(out)
            },
            None => None,
        }
    }

    /// Adds a connection of `machine_id` for `project_id`, made at `now`.
    pub fn register_daemon(&mut self, project_id: String, machine_id: String, now: i64)
        requires
            old(self).wf(),
        ensures
            final(self).wf(),
            final(self).connection_map() == old(self).connection_map().insert(
                project_id@,
                or_empty(old(self).connection_map(), project_id@).push(
                    DaemonConnection { machine_id, connected_at: now, last_seen: now },
                ),
            ),
            final(self).buffer_map() == old(self).buffer_map(),
            final(self).addr_view() == old(self).addr_view(),
    {
        let ghost before = self.connections@;
        let mut list = match self.connections.remove(project_id.as_str()) {
            Some(v) => v,
            None => Vec::new(),
        };
        let conn = DaemonConnection { machine_id, connected_at: now, last_seen: now };
        list.push(conn);
        self.connections.insert(project_id, list);
        proof {
            assert(seq_values(self.connections@) =~= seq_values(before).insert(
                project_id@,
                or_empty(seq_values(before), project_id@).push(conn),
            ));
        }
    }

    /// Drops the connections of `machine_id` for `project_id`; the project
    /// keeps its routing entry.
    pub fn unregister_daemon(&mut self, project_id: &str, machine_id: &str)
        requires
            old(self).wf(),
        ensures
            final(self).wf(),
            old(self).connection_map().contains_key(project_id@) ==> final(self).connection_map()
                == old(self).connection_map().insert(
                project_id@,
                others(old(self).connection_map()[project_id@], machine_id@),
            ),
            !old(self).connection_map().contains_key(project_id@) ==> final(self).connection_map()
                == old(self).connection_map(),
            final(self).buffer_map() == old(self).buffer_map(),
            final(self).addr_view() == old(self).addr_view(),
    {
        let ghost before = self.connections@;
        let list = match self.connections.remove(project_id) {
            Some(v) => v,
            None => {
                return;
            },
        };
        let ghost pred = not_of(machine_id@);
        let mut kept: Vec<DaemonConnection> = Vec::new();
        let n = list.len();
        for i in 0..n
            invariant
                n == list@.len(),
                kept@ == list@.take(i as int).filter(pred),
                pred == not_of(machine_id@),
        {
            proof {
                reveal(Seq::filter);
                let s = list@.take(i + 1);
                assert(s.drop_last() =~= list@.take(i as int));
                assert(s.last() == list@[i as int]);
                assert(s.filter(pred) == if pred(list@[i as int]) {
                    list@.take(i as int).filter(pred).push(list@[i as int])
                } else {
                    list@.take(i as int).filter(pred)
                });
            }
            if !crate::text::str_eq(list[i].machine_id.as_str(), machine_id) {
                kept.push(list[i].duplicate());
            }
        }
        proof {
            assert(list@.take(n as int) =~= list@);
        }
        self.connections.insert(project_id.to_string(), kept);
        proof {
            assert(seq_values(self.connections@) =~= seq_values(before).insert(
                project_id@,
                others(seq_values(before)[project_id@], machine_id@),
            ));
        }
    }

    /// Forwards an event from `sender` within `project_id`: the sender is
    /// marked as seen at `now`, and the machine ids of the other connected
    /// daemons, in order, are returned.
    pub fn forward_event(&mut self, project_id: &str, sender: &str, now: i64) -> (r: Vec<String>)
        requires
            old(self).wf(),
        ensures
            final(self).wf(),
            old(self).connection_map().contains_key(project_id@) ==> final(self).connection_map()
                == old(self).connection_map().insert(
                project_id@,
                touched(old(self).connection_map()[project_id@], sender@, now),
            ),
            !old(self).connection_map().contains_key(project_id@) ==> final(self).connection_map()
                == old(self).connection_map(),
            r@.map_values(|s: String| s@) == machine_ids(others(or_empty(old(self).connection_map(), project_id@), sender@)),
            final(self).buffer_map() == old(self).buffer_map(),
            final(self).addr_view() == old(self).addr_view(),
    {
        let ghost before = self.connections@;
        let list = match self.connections.remove(project_id) {
            Some(v) => v,
            None => {
                proof {
                    reveal(Seq::filter);
                    let empty = Seq::<DaemonConnection>::empty();
                    assert(others(empty, sender@) =~= empty);
                }
                let none: Vec<String> = Vec::new();
                proof {
                    assert(none@.map_values(|s: String| s@) =~= machine_ids(Seq::<DaemonConnection>::empty()));
                }
                return none;
            },
        };
        let ghost pred = not_of(sender@);
        let mut updated: Vec<DaemonConnection> = Vec::new();
        let mut targets: Vec<String> = Vec::new();
        let n = list.len();
        for i in 0..n
            invariant
                n == list@.len(),
                updated@ == touched(list@.take(i as int), sender@, now),
                targets@.map_values(|s: String| s@) == machine_ids(list@.take(i as int).filter(pred)),
                pred == not_of(sender@),
        {
            proof {
                reveal(Seq::filter);
                let s = list@.take(i + 1);
                assert(s.drop_last() =~= list@.take(i as int));
                assert(s.last() == list@[i as int]);
                assert(s.filter(pred) == if pred(list@[i as int]) {
                    list@.take(i as int).filter(pred).push(list@[i as int])
                } else {
                    list@.take(i as int).filter(pred)
                });
            }
            let ghost before_targets = targets@;
            let mut c = list[i].duplicate();
            if crate::text::str_eq(c.machine_id.as_str(), sender) {
                c.update_last_seen(now);
            } else {
                targets.push(c.machine_id.clone());
            }
            updated.push(c);
            proof {
                assert(updated@ =~= touched(list@.take(i + 1), sender@, now));
                if pred(list@[i as int]) {
                    assert(targets@ == before_targets.push(list@[i as int].machine_id));
                    assert(targets@.map_values(|s: String| s@) =~= before_targets.map_values(|s: String| s@).push(
                        list@[i as int].machine_id@,
                    ));
                    assert(machine_ids(list@.take(i as int).filter(pred).push(list@[i as int])) =~= machine_ids(
                        list@.take(i as int).filter(pred),
                    ).push(list@[i as int].machine_id@));
                } else {
                    assert(targets@ == before_targets);
                }
                assert(targets@.map_values(|s: String| s@) =~= machine_ids(list@.take(i + 1).filter(pred)));
            }
        }
        proof {
            assert(list@.take(n as int) =~= list@);
        }
        self.connections.insert(project_id.to_string(), updated);
        proof {
            assert(seq_values(self.connections@) =~= seq_values(before).insert(
                project_id@,
                touched(seq_values(before)[project_id@], sender@, now),
            ));
        }
        targets
    }

    /// Appends an event to the buffer of `project_id`, dropping the oldest
    /// one when the buffer is full.
    pub fn buffer_event(&mut self, project_id: String, event: FileEventMessage)
        requires
            old(self).wf(),
        ensures
            final(self).wf(),
            final(self).buffer_map() == old(self).buffer_map().insert(
                project_id@,
                after_buffer(or_empty(old(self).buffer_map(), project_id@), event),
            ),
            final(self).connection_map() == old(self).connection_map(),
            final(self).addr_view() == old(self).addr_view(),
    {
        let ghost before = self.buffer@;
        let mut list = match self.buffer.remove(project_id.as_str()) {
            Some(v) => v,
            None => Vec::new(),
        };
        let ghost prior = list@;
        if list.len() >= MAX_BUFFER_SIZE {
            let _ = list.remove(0);
            proof {
                assert(list@ =~= prior.drop_first());
            }
        }
        list.push(event);
        proof {
            assert(list@ =~= after_buffer(prior, event));
        }
        self.buffer.insert(project_id, list);
        proof {
            assert(seq_values(self.buffer@) =~= seq_values(before).insert(
                project_id@,
                after_buffer(or_empty(seq_values(before), project_id@), event),
            ));
        }
    }

    /// Copies of the buffered events of `project_id`, oldest first; none
    /// for a project without buffer.
    pub fn get_buffered_events(&self, project_id: &str) -> (r: Vec<FileEventMessage>)
        requires
            self.wf(),
        ensures
            r@ == or_empty(self.buffer_map(), project_id@),
    {
        match self.buffer.get(project_id) {
            Some(list) => {
                let mut out: Vec<FileEventMessage> = Vec::new();
                for i in 0..list.len()
                    invariant
                        out@ == list@.take(i as int),
                {
                    out.push(list[i].duplicate());
                    proof {
                        assert(out@ =~= list@.take(i + 1));
                    }
                }
                proof {
                    assert(list@.take(list@.len() as int) =~= list@);
                }
                out
            },
            None => Vec::new(),
        }
    }

    /// Drops every connection that is stale at `now`; every project keeps
    /// its routing entry.
    pub fn cleanup_stale_connections(&mut self, timeout_secs: u64, now: i64)
        requires
            old(self).wf(),
        ensures
            final(self).wf(),
            final(self).connection_map().dom() == old(self).connection_map().dom(),
            forall|p: Seq<char>| #[trigger] final(self).connection_map().contains_key(p) ==> final(self).connection_map()[p]
                == fresh(old(self).connection_map()[p], timeout_secs, now),
            final(self).buffer_map() == old(self).buffer_map(),
            final(self).addr_view() == old(self).addr_view(),
    {
        let ghost before = self.connections@;
        proof {
            self.connections.lemma_keys();
        }
        let count = self.connections.len();
        let keys = self.connections.keys();
        let ghost ks = self.connections.key_seq();
        let ghost pred = live_at(timeout_secs, now);
        for i in 0..count
            invariant
                count == keys@.len(),
                ks.len() == count,
                ks.no_duplicates(),
                forall|j: int| 0 <= j < count ==> #[trigger] keys@[j]@ == ks[j],
                ks.to_set() == before.dom(),
                self.connections.wf(),
                self.buffer.wf(),
                self.buffer@ == old(self).buffer@,
                self.addr == old(self).addr,
                before == old(self).connections@,
                forall|p: Seq<char>| #[trigger] self.buffer@.contains_key(p) ==> self.buffer@[p]@.len() <= MAX_BUFFER_SIZE,
                self.connections@.dom() == before.dom(),
                forall|j: int| 0 <= j < i ==> #[trigger] self.connections@[ks[j]]@ == fresh(before[ks[j]]@, timeout_secs, now),
                forall|j: int| i <= j < count ==> #[trigger] self.connections@[ks[j]] == before[ks[j]],
                pred == live_at(timeout_secs, now),
        {
            let key = keys[i].clone();
            proof {
                assert(ks.contains(ks[i as int]));
                assert(before.dom().contains(key@));
            }
            let list = match self.connections.get(key.as_str()) {
                Some(l) => l,
                None => {
                    proof {
                        assert(false);
                    }
                    return;
                },
            };
            let n = list.len();
            let mut kept: Vec<DaemonConnection> = Vec::new();
            for k in 0..n
                invariant
                    n == list@.len(),
                    kept@ == list@.take(k as int).filter(pred),
                    pred == live_at(timeout_secs, now),
            {
                proof {
                    reveal(Seq::filter);
                    let s = list@.take(k + 1);
                    assert(s.drop_last() =~= list@.take(k as int));
                    assert(s.last() == list@[k as int]);
                    assert(s.filter(pred) == if pred(list@[k as int]) {
                        list@.take(k as int).filter(pred).push(list@[k as int])
                    } else {
                        list@.take(k as int).filter(pred)
                    });
                }
                if !list[k].is_stale(timeout_secs, now) {
                    kept.push(list[k].duplicate());
                }
            }
            proof {
                assert(list@.take(n as int) =~= list@);
            }
            let ghost mid = self.connections@;
            self.connections.insert(key, kept);
            proof {
                assert forall|j: int| i < j < count implies #[trigger] self.connections@[ks[j]] == before[ks[j]] by {
                    assert(ks[j] != ks[i as int]);
                }
                assert forall|j: int| 0 <= j < i implies #[trigger] self.connections@[ks[j]]@ == fresh(
                    before[ks[j]]@,
                    timeout_secs,
                    now,
                ) by {
                    assert(ks[j] != ks[i as int]);
                }
                assert(self.connections@.dom() =~= before.dom());
            }
        }
        proof {
            assert forall|p: Seq<char>| #[trigger] seq_values(self.connections@).contains_key(p) implies seq_values(
                self.connections@,
            )[p] == fresh(seq_values(before)[p], timeout_secs, now) by {
                assert(ks.to_set().contains(p));
                let j = choose|j: int| 0 <= j < ks.len() && ks[j] == p;
                assert(self.connections@[ks[j]]@ == fresh(before[ks[j]]@, timeout_secs, now));
            }
            assert(seq_values(self.connections@).dom() =~= seq_values(before).dom());
        }
    }
}

/// The outcome of a registration request: both identifiers are required.
pub fn check_register(project_id: &str, machine_id: &str) -> (r: Result<(), String>)
    ensures
        project_id@.len() == 0 ==> (r matches Err(m) && m@ == "project_id is required"@),
        project_id@.len() > 0 && machine_id@.len() == 0 ==> (r matches Err(m) && m@ == "machine_id is required"@),
        project_id@.len() > 0 && machine_id@.len() > 0 ==> r is Ok,
{
    if chars_of(project_id).len() == 0 {
        proof {
            reveal_strlit("project_id is required");
        }
        return Err("project_id is required".to_string());
    }
    if chars_of(machine_id).len() == 0 {
        proof {
            reveal_strlit("machine_id is required");
        }
        return Err("machine_id is required".to_string());
    }
    Ok(())
}

/// A buffer never grows past its bound, always ends with the newest event,
/// and keeps the events before it in order, dropping only the oldest.
pub proof fn law_buffer_bounded(b: Seq<FileEventMessage>, e: FileEventMessage)
    requires
        b.len() <= MAX_BUFFER_SIZE,
    ensures
        after_buffer(b, e).len() <= MAX_BUFFER_SIZE,
        after_buffer(b, e).last() == e,
        b.len() < MAX_BUFFER_SIZE ==> after_buffer(b, e).drop_last() == b,
        b.len() == MAX_BUFFER_SIZE ==> after_buffer(b, e).drop_last() == b.drop_first(),
{
    assert(b.push(e).drop_last() =~= b);
    if b.len() > 0 {
        assert(b.drop_first().push(e).drop_last() =~= b.drop_first());
    }
}

/// No daemon is forwarded its own event.
pub proof fn law_forward_skips_sender(conns: Seq<DaemonConnection>, sender: Seq<char>)
    ensures
        forall|i: int| 0 <= i < machine_ids(others(conns, sender)).len() ==> #[trigger] machine_ids(others(conns, sender))[i]
            != sender,
{
    let pred = not_of(sender);
    assert forall|i: int| 0 <= i < machine_ids(others(conns, sender)).len() implies #[trigger] machine_ids(
        others(conns, sender),
    )[i] != sender by {
        assert(machine_ids(others(conns, sender)).len() == others(conns, sender).len());
        conns.lemma_filter_pred(pred, i);
        assert(machine_ids(others(conns, sender))[i] == others(conns, sender)[i].machine_id@);
    }
}

} // verus!
