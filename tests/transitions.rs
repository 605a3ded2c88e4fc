use qterm::{
    Amplitude, BinaryState, Circuit, CircuitBuilder, Gate, QuantumError, QuantumState,
    QuantumStateData, StateError, StateUpdate, TransitionPhase, TransitionRule, TransitionType,
    TransitionValidator, DEFAULT_HISTORY_CAPACITY,
};

fn circuit(ops: &[(Gate, usize)]) -> Circuit {
    let mut b = CircuitBuilder::new();
    for (g, t) in ops {
        b.add_gate(*g, *t);
    }
    b.build()
}

fn engine(capacity: usize) -> BinaryState {
    BinaryState::new(QuantumState::new(2).unwrap(), capacity)
}

#[test]
fn failing_rule_changes_nothing() {
    let mut b = engine(DEFAULT_HISTORY_CAPACITY);
    b.transition_state(StateUpdate::Input("abc".to_string()), &circuit(&[(Gate::Hadamard, 0)]), 1)
        .unwrap();
    assert_eq!(b.history_len(), 1);
    let amps = b.quantum_state().amplitudes();
    b.add_rule(TransitionRule::RejectAll("blocked".to_string()));
    let r = b.transition_state(
        StateUpdate::Command("h 1".to_string()),
        &circuit(&[(Gate::Hadamard, 1)]),
        2,
    );
    assert!(matches!(r, Err(StateError::ValidationError(ref m)) if m == "blocked"));
    assert_eq!(b.history_len(), 1);
    assert_eq!(b.quantum_state().amplitudes(), amps);
    assert_eq!(b.input_buffer(), "abc");
    assert_eq!(b.phase(), TransitionPhase::RolledBack);
}

#[test]
fn commit_applies_update_and_circuit() {
    let mut b = engine(DEFAULT_HISTORY_CAPACITY);
    let bell = circuit(&[(Gate::Hadamard, 0), (Gate::ControlledNot { control: 0 }, 1)]);
    b.transition_state(StateUpdate::Input("bell".to_string()), &bell, 10).unwrap();
    assert_eq!(b.phase(), TransitionPhase::Committed);
    assert_eq!(b.input_buffer(), "bell");
    let q = b.quantum_state();
    assert_eq!(q.amplitudes()[0], Amplitude { re: 1, im: 0 });
    assert_eq!(q.amplitudes()[3], Amplitude { re: 1, im: 0 });
    assert_eq!(q.scale(), 1);
    b.transition_state(StateUpdate::Command("run".to_string()), &circuit(&[]), 11).unwrap();
    assert_eq!(b.input_buffer(), "");
    assert_eq!(b.history_len(), 2);
    b.acknowledge();
    assert_eq!(b.phase(), TransitionPhase::Idle);
    b.rollback_to_last().unwrap();
    assert_eq!(b.input_buffer(), "bell");
    b.rollback_to_last().unwrap();
    assert_eq!(b.input_buffer(), "");
    assert_eq!(b.quantum_state().amplitudes()[3], Amplitude { re: 0, im: 0 });
}

#[test]
fn failed_application_restores_the_snapshot() {
    let mut b = engine(DEFAULT_HISTORY_CAPACITY);
    b.transition_state(StateUpdate::Input("x".to_string()), &circuit(&[(Gate::Hadamard, 0)]), 1)
        .unwrap();
    let amps = b.quantum_state().amplitudes();
    let r = b.transition_state(
        StateUpdate::Input("y".to_string()),
        &circuit(&[(Gate::Hadamard, 1), (Gate::Hadamard, 7)]),
        2,
    );
    assert!(matches!(r, Err(StateError::Quantum(QuantumError::InvalidQubit(7)))));
    assert_eq!(b.input_buffer(), "x");
    assert_eq!(b.quantum_state().amplitudes(), amps);
    assert_eq!(b.history_len(), 1);
    assert_eq!(b.phase(), TransitionPhase::RolledBack);
}

#[test]
fn history_never_exceeds_capacity() {
    let mut b = engine(3);
    for i in 0..12u64 {
        let ok = circuit(&[(Gate::Hadamard, (i % 2) as usize)]);
        let bad = circuit(&[(Gate::Hadamard, 9)]);
        let c = if i % 3 == 2 { &bad } else { &ok };
        let _ = b.transition_state(StateUpdate::Input(format!("{}", i)), c, i);
        assert!(b.history_len() <= 3);
        if i % 4 == 3 {
            b.rollback_to_last().unwrap();
        }
        assert!(b.history_len() <= 3);
    }
}

#[test]
fn rollback_on_empty_history_is_an_error() {
    let mut b = engine(2);
    b.transition_state(StateUpdate::Input("a".to_string()), &circuit(&[(Gate::Hadamard, 0)]), 1)
        .unwrap();
    b.rollback_to_last().unwrap();
    let amps = b.quantum_state().amplitudes();
    let r = b.rollback_to_last();
    assert!(matches!(r, Err(StateError::ValidationError(ref m)) if m == "no history"));
    assert_eq!(b.history_len(), 0);
    assert_eq!(b.quantum_state().amplitudes(), amps);
    assert_eq!(b.input_buffer(), "");
}

#[test]
fn oldest_snapshot_is_evicted() {
    let mut b = engine(2);
    for t in ["a", "b", "c"] {
        b.transition_state(StateUpdate::Input(t.to_string()), &circuit(&[]), 0).unwrap();
    }
    assert_eq!(b.history_len(), 2);
    b.rollback_to_last().unwrap();
    assert_eq!(b.input_buffer(), "b");
    b.rollback_to_last().unwrap();
    assert_eq!(b.input_buffer(), "a");
    assert!(b.rollback_to_last().is_err());
}

#[test]
fn rules_name_their_refusal() {
    let data = |amplitude_ppm, entanglement_index| {
        StateUpdate::QuantumState(QuantumStateData {
            amplitude_ppm,
            phase_quarter_turns: 0,
            entanglement_index,
        })
    };
    let msg = |r: Result<(), StateError>| match r {
        Err(StateError::ValidationError(m)) => m,
        Ok(()) => "ok".to_string(),
        Err(e) => format!("{:?}", e),
    };
    let empty = TransitionRule::RejectEmptyCommand;
    assert_eq!(msg(empty.check(&StateUpdate::Command(String::new()))), "empty command");
    assert_eq!(msg(empty.check(&StateUpdate::Command("ls".to_string()))), "ok");
    assert_eq!(msg(empty.check(&StateUpdate::Input(String::new()))), "ok");
    let long = TransitionRule::MaxInputLength(3);
    assert_eq!(msg(long.check(&StateUpdate::Input("abcd".to_string()))), "input too long");
    assert_eq!(msg(long.check(&StateUpdate::Command("abc".to_string()))), "ok");
    let amp = TransitionRule::AmplitudeAtMost(500_000);
    assert_eq!(msg(amp.check(&data(500_001, None))), "amplitude out of range");
    assert_eq!(msg(amp.check(&data(500_000, None))), "ok");
    let ent = TransitionRule::EntanglementBelow(4);
    assert_eq!(msg(ent.check(&data(0, Some(4)))), "entanglement index out of range");
    assert_eq!(msg(ent.check(&data(0, Some(3)))), "ok");
    assert_eq!(msg(ent.check(&data(0, None))), "ok");
    assert_eq!(
        msg(ent.check(&StateUpdate::StateTransition(TransitionType::Hybrid(50)))),
        "ok"
    );
}

#[test]
fn validator_reports_the_first_failing_rule() {
    let mut v = TransitionValidator::new();
    v.add_rule(TransitionRule::MaxInputLength(10));
    v.add_rule(TransitionRule::RejectAll("first".to_string()));
    v.add_rule(TransitionRule::RejectAll("second".to_string()));
    let r = v.validate(&StateUpdate::Response("done".to_string()));
    assert!(matches!(r, Err(StateError::ValidationError(ref m)) if m == "first"));
    let r = v.validate(&StateUpdate::Input("this is far too long".to_string()));
    assert!(matches!(r, Err(StateError::ValidationError(ref m)) if m == "input too long"));
    assert!(TransitionValidator::new().validate(&StateUpdate::Input(String::new())).is_ok());
}
