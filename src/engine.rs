//! Execution backends. The backend is chosen once, when an engine is built:
//! the CPU path computes in process; the GPU path hands a device one job per
//! amplitude pair and takes back a vector that must pass the store's checks.
use vstd::prelude::*;
use vstd::arithmetic::power2::{pow2, lemma2_to64, lemma_pow2_strictly_increases};
use vstd::bits::lemma_usize_shl_is_mul;
use crate::amplitude::{Amplitude, view_amps, norm2};
use crate::state::{QuantumState, QuantumError, MAX_QUBITS, MAX_SCALE, is_low, hi_of, mask, reduce};

verus! {

/// The compute API a configuration asks for.
#[derive(Clone, Copy, Debug, PartialEq, Eq, Structural)]
pub enum GpuBackend {
    Metal,
    Cuda,
    OpenCL,
    CPU,
}

/// Where gate applications run.
#[derive(Clone, Copy, Debug, PartialEq, Eq, Structural)]
pub enum Backend {
    Cpu,
    Gpu,
}

/// The backend an engine gets for a preference, the outcome of initialising
/// the device (`Err` with its message when it failed), and whether a failed
/// device may fall back to the CPU.
pub open spec fn selection(
    preferred: GpuBackend,
    device: Result<(), String>,
    fallback: bool,
) -> Result<Backend, QuantumError> {
    if preferred == GpuBackend::CPU {
        Ok(Backend::Cpu)
    } else {
        match device {
            Ok(()) => Ok(Backend::Gpu),
            Err(msg) => if fallback {
                Ok(Backend::Cpu)
            } else {
                Err(QuantumError::DeviceError(msg))
            },
        }
    }
}

/// A gate-application engine, fixed to one backend for its lifetime.
pub struct Engine {
    backend: Backend,
}

impl Engine {
    pub closed spec fn backend_spec(&self) -> Backend {
        self.backend
    }

    /// Builds an engine. A CPU preference never consults the device; a GPU
    /// preference takes the GPU when the device came up, else falls back to
    /// the CPU where allowed, else fails with `DeviceError`.
    pub fn new(preferred: GpuBackend, device: Result<(), String>, fallback: bool) -> (r: Result<
        Engine,
        QuantumError,
    >)
        ensures
            match selection(preferred, device, fallback) {
                Ok(b) => r matches Ok(e) && e.backend_spec() == b,
                Err(err) => r == Err::<Engine, QuantumError>(err),
            },
    {
        if preferred == GpuBackend::CPU {
            return Ok(Engine { backend: Backend::Cpu });
        }
        match device {
            Ok(()) => Ok(Engine { backend: Backend::Gpu }),
            Err(msg) => {
                if fallback {
                    Ok(Engine { backend: Backend::Cpu })
                } else {
                    Err(QuantumError::DeviceError(msg))
                }
            },
        }
    }

    pub fn backend(&self) -> (r: Backend)
        ensures
            r == self.backend_spec(),
    {
        self.backend
    }

    /// Takes what the device returned for one gate application: a device
    /// failure becomes `DeviceError`, and a vector that the store refuses
    /// becomes `DeviceError` too. On error the state is unchanged.
    pub fn accept_device_result(
        &self,
        state: &mut QuantumState,
        result: Result<(Vec<Amplitude>, u32), String>,
    ) -> (r: Result<(), QuantumError>)
        requires
            old(state).wf(),
        ensures
            final(state).wf(),
            final(state).qubits() == old(state).qubits(),
            match result {
                Err(msg) => r == Err::<(), QuantumError>(QuantumError::DeviceError(msg)),
                Ok((amps, scale)) => {
                    let valid = amps@.len() == old(state).entries().len() && scale <= MAX_SCALE
                        && norm2(view_amps(amps@)) == pow2(scale as nat);
                    &&& (r is Ok <==> valid)
                    &&& valid ==> (final(state).entries(), final(state).scale_spec()) == reduce(
                        view_amps(amps@),
                        scale as nat,
                    )
                    &&& !valid ==> r is Err && r->Err_0 is DeviceError
                },
            },
            r is Err ==> *final(state) == *old(state),
    {
        match result {
            Err(msg) => Err(QuantumError::DeviceError(msg)),
            Ok((amps, scale)) => {
                match state.replace(amps, scale) {
                    Ok(()) => Ok(()),
                    Err(_) => Err(QuantumError::DeviceError(String::from_str("device returned an invalid state vector"))),
                }
            },
        }
    }
}

/// The device's work list for qubit `target` of an `n`-qubit state: one
/// `(low, high)` pair per job, `low` with the target bit clear and `high` its
/// partner, lows strictly increasing and covering every low index. The pairs
/// are disjoint, so jobs never write the same amplitude.
pub fn dispatch_pairs(n: usize, target: usize) -> (r: Result<Vec<(usize, usize)>, QuantumError>)
    ensures
        n > MAX_QUBITS ==> r == Err::<Vec<(usize, usize)>, QuantumError>(QuantumError::InvalidSize(n)),
        n <= MAX_QUBITS && target >= n ==> r == Err::<Vec<(usize, usize)>, QuantumError>(
            QuantumError::InvalidQubit(target),
        ),
        n <= MAX_QUBITS && target < n ==> r is Ok,
        r matches Ok(v) ==> {
            &&& forall|i: int|
                0 <= i < v@.len() ==> {
                    &&& (#[trigger] v@[i]).0 < pow2(n as nat)
                    &&& is_low(v@[i].0 as int, target)
                    &&& v@[i].1 == hi_of(v@[i].0 as int, target)
                    &&& v@[i].1 < pow2(n as nat)
                }
            &&& forall|i: int, j: int| 0 <= i < j < v@.len() ==> v@[i].0 < v@[j].0
            &&& forall|p: int|
                0 <= p < pow2(n as nat) && is_low(p, target) ==> exists|i: int|
                    0 <= i < v@.len() && (#[trigger] v@[i]).0 == p
        },
{
    if n > MAX_QUBITS {
        return Err(QuantumError::InvalidSize(n));
    }
    if target >= n {
        return Err(QuantumError::InvalidQubit(target));
    }
    proof {
        lemma2_to64();
        if n < 30 {
            lemma_pow2_strictly_increases(n as nat, 30);
        }
        lemma_usize_shl_is_mul(1, n);
    }
    let size: usize = 1usize << n;
    let m: usize = 1usize << target;
    let mut v: Vec<(usize, usize)> = Vec::new();
    let mut p: usize = 0;
    while p < size
        invariant
            size == pow2(n as nat),
            size == (1usize << n),
            n <= MAX_QUBITS,
            target < n,
            m == mask(target),
            p <= size,
            forall|i: int|
                0 <= i < v@.len() ==> {
                    &&& (#[trigger] v@[i]).0 < p
                    &&& is_low(v@[i].0 as int, target)
                    &&& v@[i].1 == hi_of(v@[i].0 as int, target)
                    &&& v@[i].1 < size
                },
            forall|i: int, j: int| 0 <= i < j < v@.len() ==> v@[i].0 < v@[j].0,
            forall|q: int|
                0 <= q < p && is_low(q, target) ==> exists|i: int|
                    0 <= i < v@.len() && (#[trigger] v@[i]).0 == q,
        decreases size - p,
    {
        if p & m == 0 {
            proof {
                lemma_pair_in_range(p, target, n);
            }
            let ghost before = v@;
            v.push((p, p | m));
            proof {
                assert forall|q: int| 0 <= q < p + 1 && is_low(q, target) implies exists|i: int|
                    0 <= i < v@.len() && (#[trigger] v@[i]).0 == q by {
                    if q < p {
                        let i = choose|i: int| 0 <= i < before.len() && (#[trigger] before[i]).0 == q;
                        assert(v@[i] == before[i]);
                    } else {
                        assert(v@[before.len() as int].0 == q);
                    }
                }
            }
        }
        p = p + 1;
    }
    Ok(v)
}

proof fn lemma_pair_in_range(p: usize, k: usize, n: usize)
    by (bit_vector)
    requires
        k < n,
        n <= 30,
        p < (1usize << n),
        p & (1usize << k) == 0usize,
    ensures
        (p | (1usize << k)) < (1usize << n),
{
}

/// Distinct low members have distinct partners: the jobs write disjoint pairs.
pub proof fn lemma_pairs_disjoint(a: int, b: int, k: usize)
    requires
        0 <= a < 0x4000_0000,
        0 <= b < 0x4000_0000,
        k < MAX_QUBITS,
        is_low(a, k),
        is_low(b, k),
        a != b,
    ensures
        hi_of(a, k) != hi_of(b, k),
        hi_of(a, k) != b,
        hi_of(b, k) != a,
{
    lemma_partner_bits(a as usize, k);
    lemma_partner_bits(b as usize, k);
}

proof fn lemma_partner_bits(p: usize, k: usize)
    by (bit_vector)
    requires
        k < 30,
        p & (1usize << k) == 0usize,
    ensures
        (p | (1usize << k)) & !(1usize << k) == p,
        (p | (1usize << k)) & (1usize << k) != 0usize,
{
}

} // verus!
