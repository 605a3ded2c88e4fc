//! Fan-out publication of state-change events, and processing metrics.
//!
//! Every event goes into one ordered log; a subscriber holds a cursor into it,
//! set to the end of the log when it subscribes, so it sees exactly the events
//! published from then on, in order, and none from before.
use vstd::prelude::*;

verus! {

#[derive(Clone, Copy, Debug, PartialEq, Eq, Structural)]
pub enum Priority {
    High,
    Normal,
    Low,
}

/// A notification about a resolved transition, a gate or the backend.
#[derive(Clone, Copy, Debug, PartialEq, Eq, Structural)]
pub enum StateEvent {
    Committed { transition: u64 },
    RolledBack { transition: u64 },
    GateApplied { target: usize },
    BackendError { transition: u64 },
}

/// Keeps only events of one priority, when it names one.
#[derive(Clone, Copy, Debug, PartialEq, Eq, Structural)]
pub struct EventFilter {
    pub priority: Option<Priority>,
}

/// Counts and latency totals, updated together in one step.
#[derive(Clone, Copy, Debug, PartialEq, Eq, Structural)]
pub struct EventMetrics {
    pub processed_count: u64,
    pub error_count: u64,
    pub total_latency_us: u64,
}

/// `a + b`, capped at `u64::MAX`.
pub open spec fn sat_add(a: u64, b: u64) -> u64 {
    if a + b > u64::MAX {
        u64::MAX
    } else {
        (a + b) as u64
    }
}

fn saturating_add(a: u64, b: u64) -> (r: u64)
    ensures
        r == sat_add(a, b),
{
    if a > u64::MAX - b {
        u64::MAX
    } else {
        a + b
    }
}

impl EventMetrics {
    pub fn new() -> (r: EventMetrics)
        ensures
            r.processed_count == 0 && r.error_count == 0 && r.total_latency_us == 0,
    {
        EventMetrics { processed_count: 0, error_count: 0, total_latency_us: 0 }
    }

    /// Mean latency over the processed events, rounded down; zero before any.
    pub fn average_latency_us(&self) -> (r: u64)
        ensures
            self.processed_count == 0 ==> r == 0,
            self.processed_count > 0 ==> r == self.total_latency_us / self.processed_count,
    {
        if self.processed_count == 0 {
            0
        } else {
            self.total_latency_us / self.processed_count
        }
    }
}

/// The event passes every filter.
pub open spec fn passes(filters: Seq<EventFilter>, p: Priority) -> bool {
    forall|i: int|
        0 <= i < filters.len() ==> match (#[trigger] filters[i]).priority {
            Some(q) => q == p,
            None => true,
        }
}

pub struct EventBus {
    log: Vec<StateEvent>,
    cursors: Vec<usize>,
    metrics: EventMetrics,
    filters: Vec<EventFilter>,
}

impl EventBus {
    /// Every event published so far, in order.
    pub closed spec fn log(&self) -> Seq<StateEvent> {
        self.log@
    }

    /// Each subscriber's position in the log.
    pub closed spec fn cursors(&self) -> Seq<usize> {
        self.cursors@
    }

    pub closed spec fn filters(&self) -> Seq<EventFilter> {
        self.filters@
    }

    pub closed spec fn metrics_spec(&self) -> EventMetrics {
        self.metrics
    }

    /// Cursors never pass the end of the log.
    pub closed spec fn wf(&self) -> bool {
        forall|i: int| 0 <= i < self.cursors@.len() ==> #[trigger] self.cursors@[i] <= self.log@.len()
    }

    /// The events a subscriber has not yet received.
    pub open spec fn pending(&self, id: int) -> Seq<StateEvent> {
        self.log().subrange(self.cursors()[id] as int, self.log().len() as int)
    }

    pub fn new() -> (r: EventBus)
        ensures
            r.wf(),
            r.log() == Seq::<StateEvent>::empty(),
            r.cursors() == Seq::<usize>::empty(),
            r.filters() == Seq::<EventFilter>::empty(),
            r.metrics_spec() == (EventMetrics { processed_count: 0, error_count: 0, total_latency_us: 0 }),
    {
        EventBus { log: Vec::new(), cursors: Vec::new(), metrics: EventMetrics::new(), filters: Vec::new() }
    }

    pub fn add_filter(&mut self, filter: EventFilter)
        ensures
            final(self).filters() == old(self).filters().push(filter),
            final(self).log() == old(self).log(),
            final(self).cursors() == old(self).cursors(),
            final(self).metrics_spec() == old(self).metrics_spec(),
            old(self).wf() ==> final(self).wf(),
    {
        self.filters.push(filter);
    }

    /// A new subscriber, which will receive the events published after this call.
    pub fn subscribe(&mut self) -> (id: usize)
        requires
            old(self).wf(),
            old(self).cursors().len() < usize::MAX,
        ensures
            final(self).wf(),
            id == old(self).cursors().len(),
            final(self).cursors() == old(self).cursors().push(old(self).log().len() as usize),
            final(self).log() == old(self).log(),
            final(self).filters() == old(self).filters(),
            final(self).metrics_spec() == old(self).metrics_spec(),
            final(self).pending(id as int) == Seq::<StateEvent>::empty(),
    {
        let id = self.cursors.len();
        self.cursors.push(self.log.len());
        proof {
            assert(final(self).pending(id as int) =~= Seq::<StateEvent>::empty());
        }
        id
    }

    /// Appends `event` for every subscriber, unless a filter drops it;
    /// returns whether it was published.
    pub fn broadcast(&mut self, event: StateEvent, priority: Priority) -> (r: bool)
        requires
            old(self).wf(),
        ensures
            final(self).wf(),
            r == passes(old(self).filters(), priority),
            r ==> final(self).log() == old(self).log().push(event),
            !r ==> final(self).log() == old(self).log(),
            final(self).cursors() == old(self).cursors(),
            final(self).filters() == old(self).filters(),
            final(self).metrics_spec() == old(self).metrics_spec(),
    {
        let mut i: usize = 0;
        while i < self.filters.len()
            invariant
                i <= self.filters@.len(),
                *self == *old(self),
                self.wf(),
                forall|j: int|
                    0 <= j < i ==> match (#[trigger] self.filters@[j]).priority {
                        Some(q) => q == priority,
                        None => true,
                    },
            decreases self.filters@.len() - i,
        {
            match self.filters[i].priority {
                Some(q) => {
                    if q != priority {
                        assert(!passes(self.filters@, priority));
                        return false;
                    }
                },
                None => {},
            }
            i = i + 1;
        }
        self.log.push(event);
        true
    }

    /// Hands subscriber `id` the events published since it last polled (or
    /// subscribed), in order, and moves its cursor to the end of the log.
    pub fn poll(&mut self, id: usize) -> (r: Option<Vec<StateEvent>>)
        requires
            old(self).wf(),
        ensures
            final(self).wf(),
            final(self).log() == old(self).log(),
            final(self).filters() == old(self).filters(),
            final(self).metrics_spec() == old(self).metrics_spec(),
            id >= old(self).cursors().len() ==> r is None && final(self).cursors() == old(
                self,
            ).cursors(),
            id < old(self).cursors().len() ==> {
                &&& r matches Some(v) && v@ == old(self).pending(id as int)
                &&& final(self).cursors() == old(self).cursors().update(
                    id as int,
                    old(self).log().len() as usize,
                )
                &&& final(self).pending(id as int) == Seq::<StateEvent>::empty()
            },
    {
        if id >= self.cursors.len() {
            return None;
        }
        let start = self.cursors[id];
        let mut out: Vec<StateEvent> = Vec::new();
        let mut i: usize = start;
        while i < self.log.len()
            invariant
                start <= i <= self.log@.len(),
                out@ == self.log@.subrange(start as int, i as int),
            decreases self.log@.len() - i,
        {
            out.push(self.log[i]);
            i = i + 1;
            proof {
                assert(out@ =~= self.log@.subrange(start as int, i as int));
            }
        }
        let end = self.log.len();
        self.cursors.set(id, end);
        proof {
            assert(final(self).pending(id as int) =~= Seq::<StateEvent>::empty());
        }
        Some(out)
    }

    /// Records one processed event: the count, the error count and the
    /// latency total move together, each capped at `u64::MAX`.
    pub fn record_processed(&mut self, latency_us: u64, failed: bool)
        ensures
            final(self).metrics_spec().processed_count == sat_add(
                old(self).metrics_spec().processed_count,
                1,
            ),
            final(self).metrics_spec().error_count == if failed {
                sat_add(old(self).metrics_spec().error_count, 1)
            } else {
                old(self).metrics_spec().error_count
            },
            final(self).metrics_spec().total_latency_us == sat_add(
                old(self).metrics_spec().total_latency_us,
                latency_us,
            ),
            final(self).log() == old(self).log(),
            final(self).cursors() == old(self).cursors(),
            final(self).filters() == old(self).filters(),
            old(self).wf() ==> final(self).wf(),
    {
        let m = self.metrics;
        let errors = if failed {
            saturating_add(m.error_count, 1)
        } else {
            m.error_count
        };
        self.metrics = EventMetrics {
            processed_count: saturating_add(m.processed_count, 1),
            error_count: errors,
            total_latency_us: saturating_add(m.total_latency_us, latency_us),
        };
    }

    /// A point-in-time copy of the metrics.
    pub fn get_metrics(&self) -> (r: EventMetrics)
        ensures
            r == self.metrics_spec(),
    {
        self.metrics
    }

    pub fn subscriber_count(&self) -> (r: usize)
        ensures
            r == self.cursors().len(),
    {
        self.cursors.len()
    }
}

/// A subscriber that joined when the log held `k` events, and has not polled
/// since, is owed exactly the events published after those `k`.
pub proof fn lemma_late_subscriber(b: EventBus, id: int, k: nat)
    requires
        b.wf(),
        0 <= id < b.cursors().len(),
        b.cursors()[id] == k,
    ensures
        b.pending(id).len() == b.log().len() - k,
        forall|i: int| 0 <= i < b.pending(id).len() ==> b.pending(id)[i] == b.log()[k + i],
{
}

} // verus!
