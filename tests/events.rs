use qterm::{
    BinaryState, CircuitBuilder, EventBus, EventFilter, EventMetrics, Gate, Priority, QuantumState,
    StateBridge, StateEvent, StateUpdate,
};

#[test]
fn late_subscriber_sees_only_later_events() {
    let mut bus = EventBus::new();
    let early = bus.subscribe();
    for t in 1..=5u64 {
        assert!(bus.broadcast(StateEvent::Committed { transition: t }, Priority::Normal));
    }
    let late = bus.subscribe();
    bus.broadcast(StateEvent::Committed { transition: 6 }, Priority::Normal);
    bus.broadcast(StateEvent::RolledBack { transition: 7 }, Priority::High);
    assert_eq!(
        bus.poll(late).unwrap(),
        vec![StateEvent::Committed { transition: 6 }, StateEvent::RolledBack { transition: 7 }]
    );
    let all = bus.poll(early).unwrap();
    assert_eq!(all.len(), 7);
    assert_eq!(all[0], StateEvent::Committed { transition: 1 });
    assert_eq!(bus.poll(late).unwrap(), vec![]);
    assert_eq!(bus.poll(9), None);
    assert_eq!(bus.subscriber_count(), 2);
}

#[test]
fn filters_drop_other_priorities() {
    let mut bus = EventBus::new();
    let s = bus.subscribe();
    bus.add_filter(EventFilter { priority: Some(Priority::High) });
    assert!(!bus.broadcast(StateEvent::GateApplied { target: 0 }, Priority::Low));
    assert!(bus.broadcast(StateEvent::BackendError { transition: 2 }, Priority::High));
    assert_eq!(bus.poll(s).unwrap(), vec![StateEvent::BackendError { transition: 2 }]);
}

#[test]
fn metrics_move_together() {
    let mut bus = EventBus::new();
    assert_eq!(bus.get_metrics().average_latency_us(), 0);
    bus.record_processed(100, false);
    bus.record_processed(301, true);
    let m = bus.get_metrics();
    assert_eq!(m, EventMetrics { processed_count: 2, error_count: 1, total_latency_us: 401 });
    assert_eq!(m.average_latency_us(), 200);
    bus.record_processed(u64::MAX, false);
    assert_eq!(bus.get_metrics().total_latency_us, u64::MAX);
    assert_eq!(EventMetrics::new().processed_count, 0);
}

#[test]
fn subscriber_after_five_commits_sees_transition_six_on() {
    let mut bridge = StateBridge::new(BinaryState::new(QuantumState::new(1).unwrap(), 100));
    let early = bridge.subscribe();
    let mut b = CircuitBuilder::new();
    b.add_gate(Gate::Hadamard, 0);
    let c = b.build();
    for i in 0..5 {
        bridge.transition_state(StateUpdate::Input(format!("{}", i)), &c, i).unwrap();
    }
    let late = bridge.subscribe();
    bridge.transition_state(StateUpdate::Input("six".to_string()), &c, 6).unwrap();
    let mut bad = CircuitBuilder::new();
    bad.add_gate(Gate::Hadamard, 3);
    assert!(bridge.transition_state(StateUpdate::Input("seven".to_string()), &bad.build(), 7).is_err());
    assert_eq!(
        bridge.poll(late).unwrap(),
        vec![StateEvent::Committed { transition: 6 }, StateEvent::RolledBack { transition: 7 }]
    );
    assert_eq!(bridge.poll(early).unwrap().len(), 7);
    assert_eq!(bridge.state().history_len(), 6);
    bridge.record_metrics(40, false);
    bridge.record_metrics(20, true);
    assert_eq!(bridge.get_metrics().average_latency_us(), 30);
    assert_eq!(bridge.get_metrics().error_count, 1);
}
