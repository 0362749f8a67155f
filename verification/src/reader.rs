//! The client's reader: what it does with each line the daemon sends and
//! when the connection closes.  The connection's reader thread feeds each
//! event to `ReaderState::step` and carries out the action it answers.
use vstd::prelude::*;
use crate::client::{line_message, route_line, routes_to, ClientError, ClientNotification, Incoming};

verus! {

/// What the reader is asked to handle.
pub enum ReaderEvent {
    /// A line read from the daemon.
    Line(String),
    /// The connection closed: end of stream, or a read error.
    Closed,
}

/// What the connection does after a step.
#[derive(Debug)]
pub enum ReaderAction {
    /// Hand `outcome` to the waiter of request `id`, which no longer waits.
    Answer { id: u64, outcome: Result<serde_json::Value, ClientError> },
    /// A notification was queued; a receiver may be woken.
    Queued,
    /// A notification was dropped: the buffer was full.
    DroppedFull,
    /// Nothing to do: a blank or unparsable line, an answer that nobody
    /// waits for, or a message that is neither answer nor notification.
    Ignored,
    /// The connection closed: fail each of these waiters with
    /// `ConnectionClosed`.
    FailAll(Vec<u64>),
}

/// The requests waiting for an answer, and the notifications queued for
/// the receiver in a buffer of fixed capacity.
pub struct ReaderState {
    pending: Vec<u64>,
    queue: Vec<ClientNotification>,
    capacity: usize,
}

impl ReaderState {
    /// The ids of the requests waiting for an answer.
    pub closed spec fn waiting(&self) -> Set<u64> {
        self.pending@.to_set()
    }

    /// The queued notifications, oldest first.
    pub closed spec fn queued(&self) -> Seq<ClientNotification> {
        self.queue@
    }

    /// How many notifications the buffer holds.
    pub closed spec fn capacity(&self) -> nat {
        self.capacity as nat
    }

    /// Each waiting id is listed once, and the queue fits its buffer.
    pub closed spec fn wf(&self) -> bool {
        &&& self.pending@.no_duplicates()
        &&& self.queue@.len() <= self.capacity
        &&& self.capacity > 0
    }

    /// Receiving the routed message `i` takes `before` to `after` with the
    /// action `r`: an answer to a waiting request goes to its waiter, which
    /// stops waiting; an answer that nobody waits for is ignored; a
    /// notification is queued when the buffer has room and dropped when it
    /// is full; anything else is ignored.
    pub open spec fn receives(before: Self, i: Incoming, after: Self, r: ReaderAction) -> bool {
        &&& after.capacity() == before.capacity()
        &&& match i {
            Incoming::Reply { id, outcome } => if before.waiting().contains(id) {
                &&& after.waiting() == before.waiting().remove(id)
                &&& after.queued() == before.queued()
                &&& r == (ReaderAction::Answer { id, outcome })
            } else {
                &&& after.waiting() == before.waiting()
                &&& after.queued() == before.queued()
                &&& r is Ignored
            },
            Incoming::Notification(n) => {
                &&& after.waiting() == before.waiting()
                &&& if before.queued().len() < before.capacity() {
                    after.queued() == before.queued().push(n) && r is Queued
                } else {
                    after.queued() == before.queued() && r is DroppedFull
                }
            },
            Incoming::Unrecognized => {
                &&& after.waiting() == before.waiting()
                &&& after.queued() == before.queued()
                &&& r is Ignored
            },
        }
    }

    /// Nothing waits and nothing is queued, in a buffer of `capacity`
    /// notifications.
    pub fn new(capacity: usize) -> (r: Self)
        requires
            capacity > 0,
        ensures
            r.wf(),
            r.waiting().is_empty(),
            r.queued().len() == 0,
            r.capacity() == capacity,
    {
        let r = ReaderState { pending: Vec::new(), queue: Vec::new(), capacity };
        assert(r.pending@.to_set() =~= Set::empty());
        r
    }

    /// Whether request `id` waits for an answer.
    pub fn is_waiting(&self, id: u64) -> (r: bool)
        ensures
            r == self.waiting().contains(id),
    {
        let n = self.pending.len();
        for k in 0..n
            invariant
                n == self.pending@.len(),
                forall|j: int| 0 <= j < k ==> self.pending@[j] != id,
        {
            if self.pending[k] == id {
                assert(self.pending@.contains(id));
                return true;
            }
        }
        assert(!self.pending@.contains(id));
        false
    }

    /// Request `id` now waits for an answer.
    pub fn register(&mut self, id: u64)
        requires
            old(self).wf(),
        ensures
            final(self).wf(),
            final(self).waiting() == old(self).waiting().insert(id),
            final(self).queued() == old(self).queued(),
            final(self).capacity() == old(self).capacity(),
    {
        if !self.is_waiting(id) {
            let ghost before = self.pending@;
            self.pending.push(id);
            proof {
                assert forall|x: u64| #[trigger] self.pending@.contains(x) <==> before.contains(x) || x == id by {
                    if self.pending@.contains(x) {
                        let j = choose|j: int| 0 <= j < self.pending@.len() && self.pending@[j] == x;
                        if j < before.len() {
                            assert(before[j] == x);
                        }
                    }
                    if before.contains(x) {
                        let j = choose|j: int| 0 <= j < before.len() && before[j] == x;
                        assert(self.pending@[j] == x);
                    }
                    if x == id {
                        assert(self.pending@[before.len() as int] == id);
                    }
                }
                assert(self.pending@.to_set() =~= before.to_set().insert(id));
            }
        } else {
            assert(old(self).waiting().insert(id) =~= old(self).waiting());
        }
    }

    /// Removes `id` from the waiting requests; whether it was there.
    fn take_waiting(&mut self, id: u64) -> (r: bool)
        requires
            old(self).wf(),
        ensures
            final(self).wf(),
            r == old(self).waiting().contains(id),
            final(self).waiting() == old(self).waiting().remove(id),
            final(self).queued() == old(self).queued(),
            final(self).capacity() == old(self).capacity(),
    {
        let n = self.pending.len();
        let mut k: usize = 0;
        while k < n
            invariant
                n == self.pending@.len(),
                self.pending@ == old(self).pending@,
                self.queue@ == old(self).queue@,
                self.capacity == old(self).capacity,
                old(self).wf(),
                k <= n,
                forall|j: int| 0 <= j < k ==> self.pending@[j] != id,
            decreases n - k,
        {
            if self.pending[k] == id {
                let ghost before = self.pending@;
                self.pending.remove(k);
                proof {
                    let after = self.pending@;
                    assert(after == before.remove(k as int));
                    assert forall|x: u64| #[trigger] after.contains(x) <==> before.contains(x) && x != id by {
                        if after.contains(x) {
                            let j = choose|j: int| 0 <= j < after.len() && after[j] == x;
                            if j < k {
                                assert(before[j] == x);
                                assert(j != k);
                            } else {
                                assert(before[j + 1] == x);
                            }
                        }
                        if before.contains(x) && x != id {
                            let j = choose|j: int| 0 <= j < before.len() && before[j] == x;
                            if j < k {
                                assert(after[j] == x);
                            } else {
                                assert(j != k);
                                assert(after[j - 1] == x);
                            }
                        }
                    }
                    assert(after.to_set() =~= before.to_set().remove(id));
                    assert forall|a: int, b: int| 0 <= a < after.len() && 0 <= b < after.len() && a != b implies after[a]
                        != after[b] by {
                        let a1 = if a < k { a } else { a + 1 };
                        let b1 = if b < k { b } else { b + 1 };
                        assert(after[a] == before[a1] && after[b] == before[b1]);
                    }
                    assert(before.contains(id) && before[k as int] == id);
                }
                return true;
            }
            k = k + 1;
        }
        proof {
            assert(!old(self).pending@.contains(id));
            assert(old(self).waiting().remove(id) =~= old(self).waiting());
        }
        false
    }

    /// Request `id` no longer waits (its request could not be sent).
    pub fn cancel(&mut self, id: u64)
        requires
            old(self).wf(),
        ensures
            final(self).wf(),
            final(self).waiting() == old(self).waiting().remove(id),
            final(self).queued() == old(self).queued(),
            final(self).capacity() == old(self).capacity(),
    {
        self.take_waiting(id);
    }

    /// Handles a routed message; see `receives`.
    pub fn receive(&mut self, incoming: Incoming) -> (r: ReaderAction)
        requires
            old(self).wf(),
        ensures
            final(self).wf(),
            Self::receives(*old(self), incoming, *final(self), r),
    {
        match incoming {
            Incoming::Reply { id, outcome } => {
                if self.take_waiting(id) {
                    ReaderAction::Answer { id, outcome }
                } else {
                    assert(self.waiting() =~= old(self).waiting());
                    ReaderAction::Ignored
                }
            },
            Incoming::Notification(n) => {
                if self.queue.len() < self.capacity {
                    self.queue.push(n);
                    ReaderAction::Queued
                } else {
                    ReaderAction::DroppedFull
                }
            },
            Incoming::Unrecognized => ReaderAction::Ignored,
        }
    }

    /// One step of the reader.  A line is routed (`route_line`) and the
    /// message handled as `receives` says; a blank or unparsable line is
    /// ignored.  When the connection closes, every waiting request is
    /// failed and nothing waits any more.
    pub fn step(&mut self, event: ReaderEvent) -> (r: ReaderAction)
        requires
            old(self).wf(),
        ensures
            final(self).wf(),
            match event {
                ReaderEvent::Line(text) => match line_message(text@) {
                    None => r is Ignored && *final(self) == *old(self),
                    Some(v) => exists|i: Incoming| routes_to(v, i) && #[trigger] Self::receives(
                        *old(self),
                        i,
                        *final(self),
                        r,
                    ),
                },
                ReaderEvent::Closed => {
                    &&& r matches ReaderAction::FailAll(ids) && ids@.to_set() == old(self).waiting()
                        && ids@.no_duplicates()
                    &&& final(self).waiting().is_empty()
                    &&& final(self).queued() == old(self).queued()
                    &&& final(self).capacity() == old(self).capacity()
                },
            },
    {
        match event {
            ReaderEvent::Line(text) => match route_line(text.as_str()) {
                Some(incoming) => {
                    let ghost i = incoming;
                    let r = self.receive(incoming);
                    assert(Self::receives(*old(self), i, *self, r));
                    r
                },
                None => ReaderAction::Ignored,
            },
            ReaderEvent::Closed => {
                let mut ids: Vec<u64> = Vec::new();
                std::mem::swap(&mut ids, &mut self.pending);
                assert(self.pending@.to_set() =~= Set::empty());
                ReaderAction::FailAll(ids)
            },
        }
    }

    /// Takes the oldest queued notification, if any.
    pub fn next_notification(&mut self) -> (r: Option<ClientNotification>)
        requires
            old(self).wf(),
        ensures
            final(self).wf(),
            final(self).waiting() == old(self).waiting(),
            final(self).capacity() == old(self).capacity(),
            old(self).queued().len() == 0 ==> r is None && final(self).queued() == old(self).queued(),
            old(self).queued().len() > 0 ==> r == Some(old(self).queued()[0]) && final(self).queued()
                == old(self).queued().drop_first(),
    {
        if self.queue.len() == 0 {
            None
        } else {
            let n = self.queue.remove(0);
            assert(self.queue@ =~= old(self).queue@.drop_first());
            Some(n)
        }
    }
}

} // verus!
