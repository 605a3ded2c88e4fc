//! Circuits: ordered `(gate, target)` lists, frozen once built and run as one
//! all-or-nothing step against a state.
use vstd::prelude::*;
use crate::amplitude::Cx;
use crate::gates::Gate;
use crate::state::{QuantumState, QuantumError, MAX_SCALE, gate_valid, step_on, bad_qubit};

verus! {

/// Every operation names valid qubits for `n` qubits.
pub open spec fn ops_valid(ops: Seq<(Gate, usize)>, n: nat) -> bool {
    forall|i: int| 0 <= i < ops.len() ==> gate_valid(#[trigger] ops[i].0, ops[i].1, n)
}

/// The index of the first operation that names an invalid qubit.
pub open spec fn first_invalid(ops: Seq<(Gate, usize)>, n: nat, i: int) -> bool {
    &&& 0 <= i < ops.len()
    &&& !gate_valid(ops[i].0, ops[i].1, n)
    &&& ops_valid(ops.take(i), n)
}

/// The numerators and exponent after running `ops` from `(z, s)` in order;
/// `None` where a step would pass `√2^MAX_SCALE`.
pub open spec fn run_spec(ops: Seq<(Gate, usize)>, z: Seq<Cx>, s: nat) -> Option<(Seq<Cx>, nat)>
    decreases ops.len(),
{
    if ops.len() == 0 {
        Some((z, s))
    } else {
        match run_spec(ops.drop_last(), z, s) {
            None => None,
            Some((z1, s1)) => {
                let (z2, s2) = step_on(z1, s1, ops.last().0, ops.last().1);
                if s2 > MAX_SCALE {
                    None
                } else {
                    Some((z2, s2))
                }
            },
        }
    }
}

/// Collects operations for a circuit.
pub struct CircuitBuilder {
    operations: Vec<(Gate, usize)>,
}

impl CircuitBuilder {
    pub closed spec fn ops(&self) -> Seq<(Gate, usize)> {
        self.operations@
    }

    pub fn new() -> (r: CircuitBuilder)
        ensures
            r.ops() == Seq::<(Gate, usize)>::empty(),
    {
        CircuitBuilder { operations: Vec::new() }
    }

    /// Appends `gate` on `target`.
    pub fn add_gate(&mut self, gate: Gate, target: usize)
        ensures
            final(self).ops() == old(self).ops().push((gate, target)),
    {
        self.operations.push((gate, target));
    }

    /// Freezes the operations into a circuit.
    pub fn build(self) -> (r: Circuit)
        ensures
            r.ops() == self.ops(),
    {
        Circuit { operations: self.operations }
    }
}

/// A frozen sequence of operations.
pub struct Circuit {
    operations: Vec<(Gate, usize)>,
}

impl Circuit {
    pub closed spec fn ops(&self) -> Seq<(Gate, usize)> {
        self.operations@
    }

    pub fn len(&self) -> (r: usize)
        ensures
            r == self.ops().len(),
    {
        self.operations.len()
    }

    /// Runs every operation in order on `state`. An invalid qubit anywhere in
    /// the circuit is refused before any gate runs; a step that would exhaust
    /// the precision refuses the whole run. On error the state is unchanged.
    pub fn execute(&self, state: &mut QuantumState) -> (r: Result<(), QuantumError>)
        requires
            old(state).wf(),
        ensures
            final(state).wf(),
            final(state).qubits() == old(state).qubits(),
            !ops_valid(self.ops(), old(state).qubits()) ==> exists|i: int|
                first_invalid(self.ops(), old(state).qubits(), i) && r == Err::<(), QuantumError>(
                    QuantumError::InvalidQubit(
                        bad_qubit(self.ops()[i].0, self.ops()[i].1, old(state).qubits()),
                    ),
                ),
            ops_valid(self.ops(), old(state).qubits()) ==> match run_spec(
                self.ops(),
                old(state).entries(),
                old(state).scale_spec(),
            ) {
                None => r == Err::<(), QuantumError>(QuantumError::PrecisionExhausted),
                Some((z, s)) => {
                    &&& r is Ok
                    &&& final(state).entries() == z
                    &&& final(state).scale_spec() == s
                },
            },
            r is Err ==> *final(state) == *old(state),
    {
        let n = state.num_qubits();
        let mut i: usize = 0;
        while i < self.operations.len()
            invariant
                i <= self.ops().len(),
                n == state.qubits(),
                state.wf(),
                *state == *old(state),
                ops_valid(self.ops().take(i as int), n as nat),
            decreases self.ops().len() - i,
        {
            let (g, t) = self.operations[i];
            let bad = if t >= n {
                Some(t)
            } else {
                match g.control() {
                    Some(c) => if c >= n || c == t {
                        Some(c)
                    } else {
                        None
                    },
                    None => None,
                }
            };
            match bad {
                Some(q) => {
                    assert(first_invalid(self.ops(), n as nat, i as int));
                    return Err(QuantumError::InvalidQubit(q));
                },
                None => {},
            }
            proof {
                assert(self.ops().take(i + 1) =~= self.ops().take(i as int).push((g, t)));
            }
            i = i + 1;
        }
        proof {
            assert(self.ops().take(i as int) =~= self.ops());
        }
        let mut work = state.duplicate();
        let mut j: usize = 0;
        while j < self.operations.len()
            invariant
                j <= self.ops().len(),
                work.wf(),
                work.qubits() == n,
                n == old(state).qubits(),
                *state == *old(state),
                state.wf(),
                ops_valid(self.ops(), n as nat),
                run_spec(self.ops().take(j as int), state.entries(), state.scale_spec()) == Some(
                    (work.entries(), work.scale_spec()),
                ),
            decreases self.ops().len() - j,
        {
            let (g, t) = self.operations[j];
            proof {
                assert(self.ops().take(j + 1).drop_last() =~= self.ops().take(j as int));
                assert(self.ops().take(j + 1).last() == (g, t));
                assert(gate_valid(self.ops()[j as int].0, self.ops()[j as int].1, n as nat));
            }
            let res = work.apply_gate(g, t);
            match res {
                Err(e) => {
                    proof {
                        lemma_run_none_extends(self.ops(), state.entries(), state.scale_spec(), j + 1);
                    }
                    return Err(e);
                },
                Ok(()) => {},
            }
            j = j + 1;
        }
        proof {
            assert(self.ops().take(j as int) =~= self.ops());
        }
        *state = work;
        Ok(())
    }
}

/// Once a prefix of a run fails, the whole run fails.
proof fn lemma_run_none_extends(ops: Seq<(Gate, usize)>, z: Seq<Cx>, s: nat, j: int)
    requires
        0 <= j <= ops.len(),
        run_spec(ops.take(j), z, s) is None,
    ensures
        run_spec(ops, z, s) is None,
    decreases ops.len() - j,
{
    if j < ops.len() {
        assert(ops.take(j + 1).drop_last() =~= ops.take(j));
        lemma_run_none_extends(ops, z, s, j + 1);
    } else {
        assert(ops.take(j) =~= ops);
    }
}

} // verus!
