//! The transition processor together with the event publisher: each
//! transition is announced once it has resolved, never while it is applying.
use vstd::prelude::*;
use crate::circuit::Circuit;
use crate::event_bus::{EventBus, EventMetrics, Priority, StateEvent, sat_add};
use crate::transition::{BinaryState, StateError, StateUpdate, transition_post};

verus! {

/// The event announcing how transition number `n` resolved.
pub open spec fn resolution_event(n: u64, committed: bool) -> StateEvent {
    if committed {
        StateEvent::Committed { transition: n }
    } else {
        StateEvent::RolledBack { transition: n }
    }
}

pub struct StateBridge {
    state: BinaryState,
    bus: EventBus,
    transitions: u64,
}

impl StateBridge {
    pub closed spec fn inner(&self) -> BinaryState {
        self.state
    }

    pub closed spec fn events(&self) -> EventBus {
        self.bus
    }

    /// How many transitions have resolved.
    pub closed spec fn count(&self) -> u64 {
        self.transitions
    }

    pub closed spec fn wf(&self) -> bool {
        &&& self.state.wf()
        &&& self.bus.wf()
        &&& self.bus.filters().len() == 0
    }

    pub fn new(state: BinaryState) -> (r: StateBridge)
        requires
            state.wf(),
        ensures
            r.wf(),
            r.inner() == state,
            r.events().log() == Seq::<StateEvent>::empty(),
            r.events().cursors() == Seq::<usize>::empty(),
            r.count() == 0,
    {
        StateBridge { state, bus: EventBus::new(), transitions: 0 }
    }

    /// The transition processor, for reading.
    pub fn state(&self) -> (r: &BinaryState)
        ensures
            *r == self.inner(),
    {
        &self.state
    }

    /// A subscriber that will receive the events of later transitions only.
    pub fn subscribe(&mut self) -> (id: usize)
        requires
            old(self).wf(),
            old(self).events().cursors().len() < usize::MAX,
        ensures
            final(self).wf(),
            final(self).inner() == old(self).inner(),
            final(self).count() == old(self).count(),
            id == old(self).events().cursors().len(),
            final(self).events().log() == old(self).events().log(),
            final(self).events().pending(id as int) == Seq::<StateEvent>::empty(),
    {
        self.bus.subscribe()
    }

    /// The events published for subscriber `id` since it last polled.
    pub fn poll(&mut self, id: usize) -> (r: Option<Vec<StateEvent>>)
        requires
            old(self).wf(),
        ensures
            final(self).wf(),
            final(self).inner() == old(self).inner(),
            final(self).count() == old(self).count(),
            final(self).events().log() == old(self).events().log(),
            id >= old(self).events().cursors().len() ==> r is None,
            id < old(self).events().cursors().len() ==> (r matches Some(v) && v@ == old(
                self,
            ).events().pending(id as int)),
    {
        self.bus.poll(id)
    }

    /// Runs one transition, then announces it: `Committed` on success,
    /// `RolledBack` otherwise, numbered from one.
    pub fn transition_state(&mut self, update: StateUpdate, circuit: &Circuit, now_ms: u64) -> (r:
        Result<(), StateError>)
        requires
            old(self).wf(),
        ensures
            final(self).wf(),
            transition_post(old(self).inner(), final(self).inner(), update, circuit.ops(), r),
            final(self).count() == sat_add(old(self).count(), 1),
            final(self).events().log() == old(self).events().log().push(
                resolution_event(final(self).count(), r is Ok),
            ),
            final(self).events().cursors() == old(self).events().cursors(),
    {
        let r = self.state.transition_state(update, circuit, now_ms);
        self.transitions = if self.transitions < u64::MAX {
            self.transitions + 1
        } else {
            u64::MAX
        };
        let event = match r {
            Ok(()) => StateEvent::Committed { transition: self.transitions },
            Err(_) => StateEvent::RolledBack { transition: self.transitions },
        };
        let priority = match r {
            Ok(()) => Priority::Normal,
            Err(_) => Priority::High,
        };
        self.bus.broadcast(event, priority);
        r
    }

    /// Restores the newest snapshot; see `BinaryState::rollback_to_last`.
    pub fn rollback_to_last(&mut self) -> (r: Result<(), StateError>)
        requires
            old(self).wf(),
        ensures
            final(self).wf(),
            final(self).events() == old(self).events(),
            final(self).count() == old(self).count(),
            final(self).inner().qubits() == old(self).inner().qubits(),
            final(self).inner().capacity() == old(self).inner().capacity(),
            old(self).inner().history().len() == 0 ==> {
                &&& r matches Err(StateError::ValidationError(m)) && m@ == "no history"@
                &&& final(self).inner().buffer() == old(self).inner().buffer()
                &&& final(self).inner().quantum() == old(self).inner().quantum()
                &&& final(self).inner().history() == old(self).inner().history()
            },
            old(self).inner().history().len() > 0 ==> {
                let top = old(self).inner().history().last();
                &&& r is Ok
                &&& final(self).inner().buffer() == top.0
                &&& final(self).inner().quantum() == (top.1, top.2)
                &&& final(self).inner().history() == old(self).inner().history().drop_last()
            },
    {
        self.state.rollback_to_last()
    }

    /// Records the processing time of one transition and whether it failed.
    pub fn record_metrics(&mut self, latency_us: u64, failed: bool)
        requires
            old(self).wf(),
        ensures
            final(self).wf(),
            final(self).inner() == old(self).inner(),
            final(self).count() == old(self).count(),
            final(self).events().log() == old(self).events().log(),
            final(self).events().metrics_spec().processed_count == sat_add(
                old(self).events().metrics_spec().processed_count,
                1,
            ),
            final(self).events().metrics_spec().error_count == if failed {
                sat_add(old(self).events().metrics_spec().error_count, 1)
            } else {
                old(self).events().metrics_spec().error_count
            },
            final(self).events().metrics_spec().total_latency_us == sat_add(
                old(self).events().metrics_spec().total_latency_us,
                latency_us,
            ),
    {
        self.bus.record_processed(latency_us, failed);
    }

    /// A point-in-time copy of the metrics.
    pub fn get_metrics(&self) -> (r: EventMetrics)
        ensures
            r == self.events().metrics_spec(),
    {
        self.bus.get_metrics()
    }
}

} // verus!
