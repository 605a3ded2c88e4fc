//! Gate descriptors: a closed set of unitary operations, each acting on the
//! pairs of amplitudes that differ in the target qubit only.
use vstd::prelude::*;

verus! {

/// A unitary operation on one target qubit, possibly gated by a control qubit.
///
/// Read over the amplitude pair `(a, b)` of a target qubit (`a` where the
/// target bit is clear, `b` where it is set):
/// - `Hadamard`: `((a + b)/√2, (a - b)/√2)`;
/// - `ControlledNot`: `(b, a)` where the control bit is set, `(a, b)` elsewhere;
/// - `Phase`: `(a, iᵠ·b)` with `q = quarter_turns`;
/// - `Custom`: `(i^phase0 · a, i^phase1 · b)`, after exchanging `a` and `b`
///   when `swap` holds (this covers X, Y, Z, S and their products).
#[derive(Clone, Copy, Debug, PartialEq, Eq, Structural)]
pub enum Gate {
    Hadamard,
    ControlledNot { control: usize },
    Phase { quarter_turns: u8 },
    Custom { swap: bool, phase0: u8, phase1: u8 },
}

impl Gate {
    /// How many factors of `1/√2` the operation adds to the shared denominator.
    pub open spec fn scale_step(self) -> nat {
        match self {
            Gate::Hadamard => 1,
            _ => 0,
        }
    }

    /// The control qubit, where the operation has one.
    pub open spec fn control_spec(self) -> Option<usize> {
        match self {
            Gate::ControlledNot { control } => Some(control),
            _ => None,
        }
    }

    /// The control qubit, where the operation has one.
    pub fn control(&self) -> (r: Option<usize>)
        ensures
            r == self.control_spec(),
    {
        match self {
            Gate::ControlledNot { control } => Some(*control),
            _ => None,
        }
    }

    /// The 2×2 matrix of the operation on one amplitude pair, as Gaussian
    /// integers over `√2` raised to `scale_step`; a controlled gate gives the
    /// matrix applied where its control bit is set.
    pub fn matrix(&self) -> (r: [[(i64, i64); 2]; 2])
        ensures
            r == self.matrix_spec(),
    {
        match self {
            Gate::Hadamard => [[(1, 0), (1, 0)], [(1, 0), (-1, 0)]],
            Gate::ControlledNot { .. } => [[(0, 0), (1, 0)], [(1, 0), (0, 0)]],
            Gate::Phase { quarter_turns } => [[(1, 0), (0, 0)], [(0, 0), unit_power(*quarter_turns)]],
            Gate::Custom { swap, phase0, phase1 } => {
                if *swap {
                    [[(0, 0), unit_power(*phase0)], [unit_power(*phase1), (0, 0)]]
                } else {
                    [[unit_power(*phase0), (0, 0)], [(0, 0), unit_power(*phase1)]]
                }
            },
        }
    }

    pub open spec fn matrix_spec(self) -> [[(i64, i64); 2]; 2] {
        match self {
            Gate::Hadamard => [[(1, 0), (1, 0)], [(1, 0), (-1i64, 0i64)]],
            Gate::ControlledNot { .. } => [[(0, 0), (1, 0)], [(1, 0), (0, 0)]],
            Gate::Phase { quarter_turns } => [
                [(1, 0), (0, 0)],
                [(0, 0), unit_power_spec(quarter_turns)],
            ],
            Gate::Custom { swap, phase0, phase1 } => {
                if swap {
                    [[(0, 0), unit_power_spec(phase0)], [unit_power_spec(phase1), (0, 0)]]
                } else {
                    [[unit_power_spec(phase0), (0, 0)], [(0, 0), unit_power_spec(phase1)]]
                }
            },
        }
    }
}

/// `iᵠ` as a pair `(re, im)`.
pub open spec fn unit_power_spec(q: u8) -> (i64, i64) {
    if q % 4 == 0 {
        (1, 0)
    } else if q % 4 == 1 {
        (0, 1)
    } else if q % 4 == 2 {
        (-1i64, 0i64)
    } else {
        (0i64, -1i64)
    }
}

/// `iᵠ` as a pair `(re, im)`.
pub fn unit_power(q: u8) -> (r: (i64, i64))
    ensures
        r == unit_power_spec(q),
{
    if q % 4 == 0 {
        (1, 0)
    } else if q % 4 == 1 {
        (0, 1)
    } else if q % 4 == 2 {
        (-1, 0)
    } else {
        (0, -1)
    }
}

/// The Hadamard gate.
pub struct Hadamard;

impl Hadamard {
    pub fn gate(&self) -> (r: Gate)
        ensures
            r == Gate::Hadamard,
    {
        Gate::Hadamard
    }

    pub fn matrix(&self) -> (r: [[(i64, i64); 2]; 2])
        ensures
            r == Gate::Hadamard.matrix_spec(),
    {
        Gate::Hadamard.matrix()
    }
}

/// The controlled-NOT gate, with its control qubit.
pub struct CNOT {
    pub control: usize,
}

impl CNOT {
    pub fn gate(&self) -> (r: Gate)
        ensures
            r == (Gate::ControlledNot { control: self.control }),
    {
        Gate::ControlledNot { control: self.control }
    }

    pub fn matrix(&self) -> (r: [[(i64, i64); 2]; 2])
        ensures
            r == (Gate::ControlledNot { control: self.control }).matrix_spec(),
    {
        Gate::ControlledNot { control: self.control }.matrix()
    }
}

} // verus!
