use qterm::{
    dispatch_pairs, parse_command, Amplitude, Backend, CircuitBuilder, Engine, Gate, GpuBackend, Hadamard,
    QuantumError, QuantumState, CNOT,
};

fn amp(re: i64, im: i64) -> Amplitude {
    Amplitude { re, im }
}

/// Squared norm of the numerators.
fn norm2(v: &[Amplitude]) -> i128 {
    v.iter()
        .map(|a| (a.re as i128) * (a.re as i128) + (a.im as i128) * (a.im as i128))
        .sum()
}

/// The amplitude values as floats.
fn values(s: &QuantumState) -> Vec<(f64, f64)> {
    let d = 2f64.sqrt().powi(s.scale() as i32);
    s.amplitudes()
        .iter()
        .map(|a| (a.re as f64 / d, a.im as f64 / d))
        .collect()
}

#[test]
fn test_new_quantum_state() {
    let state = QuantumState::new(2);
    assert!(state.is_ok());
}

#[test]
fn test_invalid_qubit() {
    let mut state = QuantumState::new(2).unwrap();
    assert!(state.apply_h(3).is_err());
}

#[test]
fn fresh_state_is_ground_state_for_one_to_twenty_qubits() {
    for n in 1..=20usize {
        let s = QuantumState::new(n).unwrap();
        let v = s.amplitudes();
        assert_eq!(v.len(), 1usize << n);
        assert_eq!(v[0], amp(1, 0));
        assert!(v[1..].iter().all(|a| *a == amp(0, 0)));
        assert_eq!(s.scale(), 0);
        assert_eq!(norm2(&v), 1);
        assert_eq!(s.num_qubits(), n);
    }
}

#[test]
fn too_many_qubits_is_invalid_size() {
    assert_eq!(QuantumState::new(31).unwrap_err(), QuantumError::InvalidSize(31));
}

#[test]
fn hadamard_twice_restores_the_vector() {
    let mut s = QuantumState::new(3).unwrap();
    s.apply_gate(Gate::Hadamard, 0).unwrap();
    s.apply_gate(Gate::Phase { quarter_turns: 1 }, 0).unwrap();
    s.apply_gate(Gate::ControlledNot { control: 0 }, 2).unwrap();
    let before = s.amplitudes();
    let scale = s.scale();
    for k in 0..3 {
        s.apply_h(k).unwrap();
        s.apply_h(k).unwrap();
        assert_eq!(s.amplitudes(), before);
        assert_eq!(s.scale(), scale);
    }
    let f = values(&s);
    s.apply_h(1).unwrap();
    s.apply_h(1).unwrap();
    for (a, b) in values(&s).iter().zip(f.iter()) {
        assert!((a.0 - b.0).abs() < 1e-9 && (a.1 - b.1).abs() < 1e-9);
    }
}

#[test]
fn single_qubit_gates_preserve_the_norm() {
    let gates = [
        Gate::Hadamard,
        Gate::Phase { quarter_turns: 1 },
        Gate::Phase { quarter_turns: 3 },
        Gate::Custom { swap: true, phase0: 0, phase1: 0 },
        Gate::Custom { swap: true, phase0: 3, phase1: 1 },
        Gate::Custom { swap: false, phase0: 2, phase1: 1 },
    ];
    let mut s = QuantumState::new(3).unwrap();
    for (i, g) in gates.iter().enumerate() {
        s.apply_gate(*g, i % 3).unwrap();
        s.apply_h((i + 1) % 3).unwrap();
        let v = s.amplitudes();
        assert_eq!(norm2(&v), 1i128 << s.scale());
        let total: f64 = values(&s).iter().map(|(re, im)| re * re + im * im).sum();
        assert!((total - 1.0).abs() < 1e-9);
    }
}

#[test]
fn hadamard_on_ground_state_gives_equal_superposition() {
    let mut s = QuantumState::new(1).unwrap();
    s.apply_h(0).unwrap();
    assert_eq!(s.amplitudes(), vec![amp(1, 0), amp(1, 0)]);
    assert_eq!(s.scale(), 1);
}

#[test]
fn controlled_not_with_clear_control_leaves_state() {
    let mut s = QuantumState::new(2).unwrap();
    s.apply_gate(Gate::ControlledNot { control: 0 }, 1).unwrap();
    assert_eq!(s.amplitudes(), vec![amp(1, 0), amp(0, 0), amp(0, 0), amp(0, 0)]);
    assert_eq!(s.scale(), 0);
}

#[test]
fn hadamard_then_cnot_gives_bell_state() {
    let mut s = QuantumState::new(2).unwrap();
    s.apply_gate(Hadamard.gate(), 0).unwrap();
    s.apply_gate(CNOT { control: 0 }.gate(), 1).unwrap();
    assert_eq!(s.amplitudes(), vec![amp(1, 0), amp(0, 0), amp(0, 0), amp(1, 0)]);
    assert_eq!(s.scale(), 1);
    let h = std::f64::consts::FRAC_1_SQRT_2;
    let expect = [h, 0.0, 0.0, h];
    for (v, e) in values(&s).iter().zip(expect.iter()) {
        assert!((v.0 - e).abs() < 1e-9 && v.1.abs() < 1e-9);
    }
}

#[test]
fn phase_gate_multiplies_by_i() {
    let mut s = QuantumState::new(1).unwrap();
    s.apply_h(0).unwrap();
    s.apply_gate(Gate::Phase { quarter_turns: 1 }, 0).unwrap();
    assert_eq!(s.amplitudes(), vec![amp(1, 0), amp(0, 1)]);
    s.apply_gate(Gate::Phase { quarter_turns: 2 }, 0).unwrap();
    assert_eq!(s.amplitudes(), vec![amp(1, 0), amp(0, -1)]);
}

#[test]
fn custom_swap_gate_is_pauli_x() {
    let mut s = QuantumState::new(2).unwrap();
    s.apply_gate(Gate::Custom { swap: true, phase0: 0, phase1: 0 }, 1).unwrap();
    assert_eq!(s.amplitudes(), vec![amp(0, 0), amp(0, 0), amp(1, 0), amp(0, 0)]);
    s.apply_gate(Gate::Custom { swap: false, phase0: 0, phase1: 2 }, 1).unwrap();
    assert_eq!(s.amplitudes(), vec![amp(0, 0), amp(0, 0), amp(-1, 0), amp(0, 0)]);
}

#[test]
fn invalid_control_is_refused_before_work() {
    let mut s = QuantumState::new(2).unwrap();
    s.apply_h(0).unwrap();
    let before = s.amplitudes();
    assert_eq!(
        s.apply_gate(Gate::ControlledNot { control: 1 }, 1),
        Err(QuantumError::InvalidQubit(1))
    );
    assert_eq!(
        s.apply_gate(Gate::ControlledNot { control: 4 }, 0),
        Err(QuantumError::InvalidQubit(4))
    );
    assert_eq!(s.apply_gate(Gate::Hadamard, 2), Err(QuantumError::InvalidQubit(2)));
    assert_eq!(s.amplitudes(), before);
}

#[test]
fn matrices_of_the_gates() {
    assert_eq!(Hadamard.matrix(), [[(1, 0), (1, 0)], [(1, 0), (-1, 0)]]);
    assert_eq!(CNOT { control: 0 }.matrix(), [[(0, 0), (1, 0)], [(1, 0), (0, 0)]]);
    assert_eq!(Gate::Phase { quarter_turns: 1 }.matrix(), [[(1, 0), (0, 0)], [(0, 0), (0, 1)]]);
}

#[test]
fn replace_refuses_vectors_not_of_unit_norm() {
    let mut s = QuantumState::new(1).unwrap();
    assert_eq!(s.replace(vec![amp(1, 0)], 0), Err(QuantumError::InvalidState));
    assert_eq!(s.replace(vec![amp(1, 0), amp(1, 0)], 0), Err(QuantumError::InvalidState));
    assert_eq!(s.replace(vec![amp(1, 0), amp(0, 0)], 61), Err(QuantumError::InvalidState));
    assert_eq!(s.replace(vec![amp(i64::MIN, 0), amp(i64::MIN, 0)], 60), Err(QuantumError::InvalidState));
    assert_eq!(s.amplitudes(), vec![amp(1, 0), amp(0, 0)]);
    // (2, 0) over √2² is (1, 0): the common factor is cancelled.
    assert_eq!(s.replace(vec![amp(0, 0), amp(0, 2)], 2), Ok(()));
    assert_eq!(s.amplitudes(), vec![amp(0, 0), amp(0, 1)]);
    assert_eq!(s.scale(), 0);
}

#[test]
fn circuit_runs_all_operations_in_order() {
    let mut b = CircuitBuilder::new();
    b.add_gate(Gate::Hadamard, 0);
    b.add_gate(Gate::ControlledNot { control: 0 }, 1);
    let c = b.build();
    assert_eq!(c.len(), 2);
    let mut s = QuantumState::new(2).unwrap();
    c.execute(&mut s).unwrap();
    assert_eq!(s.amplitudes(), vec![amp(1, 0), amp(0, 0), amp(0, 0), amp(1, 0)]);
    let mut t = QuantumState::new(3).unwrap();
    c.execute(&mut t).unwrap();
    assert_eq!(t.amplitudes()[3], amp(1, 0));
}

#[test]
fn circuit_with_invalid_qubit_changes_nothing() {
    let mut b = CircuitBuilder::new();
    b.add_gate(Gate::Hadamard, 0);
    b.add_gate(Gate::Hadamard, 5);
    let c = b.build();
    let mut s = QuantumState::new(2).unwrap();
    assert_eq!(c.execute(&mut s), Err(QuantumError::InvalidQubit(5)));
    assert_eq!(s.amplitudes(), vec![amp(1, 0), amp(0, 0), amp(0, 0), amp(0, 0)]);
}

#[test]
fn dispatch_pairs_are_disjoint_and_cover_the_vector() {
    let v = dispatch_pairs(3, 1).unwrap();
    assert_eq!(v, vec![(0, 2), (1, 3), (4, 6), (5, 7)]);
    let v0 = dispatch_pairs(2, 0).unwrap();
    assert_eq!(v0, vec![(0, 1), (2, 3)]);
    assert_eq!(dispatch_pairs(2, 2), Err(QuantumError::InvalidQubit(2)));
    assert_eq!(dispatch_pairs(31, 0), Err(QuantumError::InvalidSize(31)));
}

#[test]
fn backend_is_chosen_once_at_construction() {
    let e = Engine::new(GpuBackend::CPU, Err("unused".to_string()), false).unwrap();
    assert_eq!(e.backend(), Backend::Cpu);
    let e = Engine::new(GpuBackend::Metal, Ok(()), false).unwrap();
    assert_eq!(e.backend(), Backend::Gpu);
    let e = Engine::new(GpuBackend::Cuda, Err("no device".to_string()), true).unwrap();
    assert_eq!(e.backend(), Backend::Cpu);
    assert_eq!(
        Engine::new(GpuBackend::OpenCL, Err("no device".to_string()), false).err(),
        Some(QuantumError::DeviceError("no device".to_string()))
    );
}

#[test]
fn device_results_are_checked_before_use() {
    let e = Engine::new(GpuBackend::Metal, Ok(()), false).unwrap();
    let mut s = QuantumState::new(1).unwrap();
    assert_eq!(
        e.accept_device_result(&mut s, Err("kernel failed".to_string())),
        Err(QuantumError::DeviceError("kernel failed".to_string()))
    );
    let bad = e.accept_device_result(&mut s, Ok((vec![amp(1, 0), amp(1, 0)], 0)));
    assert!(matches!(bad, Err(QuantumError::DeviceError(_))));
    assert_eq!(s.amplitudes(), vec![amp(1, 0), amp(0, 0)]);
    assert_eq!(e.accept_device_result(&mut s, Ok((vec![amp(1, 0), amp(-1, 0)], 1))), Ok(()));
    assert_eq!(s.amplitudes(), vec![amp(1, 0), amp(-1, 0)]);
    assert_eq!(s.scale(), 1);
}

#[test]
fn replace_cancels_factors_at_the_largest_scale() {
    let mut s = QuantumState::new(1).unwrap();
    let big = 1i64 << 30;
    assert_eq!(s.replace(vec![amp(big - 1, 0), amp(0, 0)], 60), Err(QuantumError::InvalidState));
    assert_eq!(s.replace(vec![amp(big, 0), amp(0, 0)], 60), Ok(()));
    assert_eq!(s.scale(), 0);
}

#[test]
fn commands_name_one_gate() {
    assert_eq!(parse_command("h0"), Some((Gate::Hadamard, 0)));
    assert_eq!(parse_command("x2"), Some((Gate::Custom { swap: true, phase0: 0, phase1: 0 }, 2)));
    assert_eq!(parse_command("y1"), Some((Gate::Custom { swap: true, phase0: 3, phase1: 1 }, 1)));
    assert_eq!(parse_command("z0"), Some((Gate::Custom { swap: false, phase0: 0, phase1: 2 }, 0)));
    assert_eq!(parse_command("s3"), Some((Gate::Phase { quarter_turns: 1 }, 3)));
    assert_eq!(parse_command("c01"), Some((Gate::ControlledNot { control: 0 }, 1)));
    assert_eq!(parse_command("c0"), None);
    assert_eq!(parse_command("q1"), None);
    assert_eq!(parse_command("h10"), None);
    assert_eq!(parse_command(""), None);
    assert_eq!(parse_command("hx"), None);
}

#[test]
fn pauli_y_maps_zero_to_i_one() {
    let mut s = QuantumState::new(1).unwrap();
    s.apply_gate(Gate::Custom { swap: true, phase0: 3, phase1: 1 }, 0).unwrap();
    assert_eq!(s.amplitudes(), vec![amp(0, 0), amp(0, 1)]);
}
