//! The amplitude store: a unit-normalised vector of `2ⁿ` amplitudes, and the
//! application of a gate to it.
//!
//! Entry `j` of the vector is `amps[j] / √2^scale`: the Gaussian-integer
//! numerators share one denominator. Normalisation is then an exact integer
//! identity, `Σ |amps[j]|² == 2^scale`, and every gate keeps it exactly.
use vstd::prelude::*;
use vstd::arithmetic::power2::{pow2, lemma_pow2_pos, lemma2_to64, lemma2_to64_rest, lemma_pow2_strictly_increases, lemma_pow2_adds};
use vstd::bits::{lemma_usize_shl_is_mul, lemma_u64_shl_is_mul};
use crate::amplitude::{Amplitude, Cx, cx, at, view_amps, lemma_sum_update, mag2, mag2_at, cx_even, chalf, rot, norm2, sum, lemma_sum_single, lemma_sum_split, lemma_sum_ext, lemma_sum_nonneg, lemma_sum_term_le, lemma_sum_scale, lemma_mag2_nonneg, lemma_mag2_basis, lemma_rot_mag2, lemma_parallelogram, lemma_mag2_half};
use crate::gates::Gate;

verus! {

/// The largest number of qubits a state may have: beyond it the vector of
/// `2ⁿ` amplitudes would not fit in memory.
pub const MAX_QUBITS: usize = 30;

/// The largest exponent of the shared `√2` denominator.
pub const MAX_SCALE: u32 = 60;

/// Errors of the amplitude store and of gate application.
#[derive(Clone, Debug, PartialEq, Eq)]
pub enum QuantumError {
    /// A qubit index outside `[0, n)`, or a control equal to the target.
    InvalidQubit(usize),
    /// A qubit count whose vector would not fit.
    InvalidSize(usize),
    /// A supplied vector of the wrong length or not of norm one.
    InvalidState,
    /// The compute device failed or returned a vector that is not valid.
    DeviceError(String),
    /// The shared denominator would exceed `√2^MAX_SCALE`.
    PrecisionExhausted,
}

/// `1 << k`, the bit of qubit `k` in a basis index.
pub open spec fn mask(k: usize) -> usize {
    1usize << k
}

/// Bit `k` of `p` is clear: `p` is the first member of its pair.
pub open spec fn is_low(p: int, k: usize) -> bool {
    (p as usize) & mask(k) == 0usize
}

/// The member of `p`'s pair with bit `k` clear.
pub open spec fn lo_of(p: int, k: usize) -> int {
    ((p as usize) & !mask(k)) as int
}

/// The member of `p`'s pair with bit `k` set.
pub open spec fn hi_of(p: int, k: usize) -> int {
    ((p as usize) | mask(k)) as int
}

/// The operation acts at basis index `p`: it has no control, or the control bit is set.
pub open spec fn control_on(g: Gate, p: int) -> bool {
    match g.control_spec() {
        Some(c) => (p as usize) & mask(c) != 0usize,
        None => true,
    }
}

/// The image of the pair `(a, b)` under the operation, before the denominator changes.
pub open spec fn pair_image(g: Gate, a: Cx, b: Cx) -> (Cx, Cx) {
    match g {
        Gate::Hadamard => ((a.0 + b.0, a.1 + b.1), (a.0 - b.0, a.1 - b.1)),
        Gate::ControlledNot { .. } => (b, a),
        Gate::Phase { quarter_turns } => (a, rot(b, (quarter_turns % 4) as nat)),
        Gate::Custom { swap, phase0, phase1 } => {
            if swap {
                (rot(b, (phase0 % 4) as nat), rot(a, (phase1 % 4) as nat))
            } else {
                (rot(a, (phase0 % 4) as nat), rot(b, (phase1 % 4) as nat))
            }
        },
    }
}

/// The factor by which a gate multiplies `Σ |amps|²`: `2^scale_step`.
pub open spec fn gain(g: Gate) -> int {
    if g is Hadamard {
        2
    } else {
        1
    }
}

/// Entry `p` after applying `g` to target `k`.
pub open spec fn gate_entry(g: Gate, z: Seq<Cx>, k: usize, p: int) -> Cx {
    if !control_on(g, p) {
        z[p]
    } else {
        let (x, y) = pair_image(g, z[lo_of(p, k)], z[hi_of(p, k)]);
        if is_low(p, k) {
            x
        } else {
            y
        }
    }
}

/// The numerators after applying `g` to target `k`, before reduction.
pub open spec fn apply_spec(g: Gate, z: Seq<Cx>, k: usize) -> Seq<Cx> {
    Seq::new(z.len(), |p: int| gate_entry(g, z, k, p))
}

pub open spec fn all_even(z: Seq<Cx>) -> bool {
    forall|i: int| 0 <= i < z.len() ==> #[trigger] cx_even(z[i])
}

pub open spec fn halve(z: Seq<Cx>) -> Seq<Cx> {
    Seq::new(z.len(), |i: int| chalf(z[i]))
}

/// Cancels common factors of 2 against the denominator: `2/√2^2 = 1`.
pub open spec fn reduce(z: Seq<Cx>, s: nat) -> (Seq<Cx>, nat)
    decreases s,
{
    if s >= 2 && all_even(z) {
        reduce(halve(z), (s - 2) as nat)
    } else {
        (z, s)
    }
}

/// No factor of 2 is left to cancel.
pub open spec fn canonical(z: Seq<Cx>, s: nat) -> bool {
    s < 2 || !all_even(z)
}

/// Unit norm: `Σ |z[j] / √2^s|² = 1`, that is `Σ |z[j]|² = 2^s`.
pub open spec fn unit_norm(z: Seq<Cx>, s: nat) -> bool {
    norm2(z) == pow2(s)
}

/// The ground state `|0…0⟩` of length `len`.
pub open spec fn ground(len: nat) -> Seq<Cx> {
    Seq::new(len, |i: int| if i == 0 { (1int, 0int) } else { (0int, 0int) })
}

/// A vector of `2ⁿ` amplitudes of unit norm, held exactly.
#[derive(Clone, Debug)]
pub struct QuantumState {
    amps: Vec<Amplitude>,
    scale: u32,
    num_qubits: usize,
}

impl QuantumState {
    /// The numerators, as complex integers.
    pub closed spec fn entries(&self) -> Seq<Cx> {
        view_amps(self.amps@)
    }

    /// The exponent of the shared `√2` denominator.
    pub closed spec fn scale_spec(&self) -> nat {
        self.scale as nat
    }

    pub closed spec fn qubits(&self) -> nat {
        self.num_qubits as nat
    }

    /// The store's invariant: `2ⁿ` entries, unit norm, nothing left to cancel.
    pub closed spec fn wf(&self) -> bool {
        &&& self.num_qubits <= MAX_QUBITS
        &&& self.amps@.len() == pow2(self.num_qubits as nat)
        &&& self.scale <= MAX_SCALE
        &&& norm2(self.entries()) == pow2(self.scale as nat)
        &&& canonical(self.entries(), self.scale as nat)
    }

    /// The ground state of `num_qubits` qubits; `InvalidSize` above `MAX_QUBITS`.
    pub fn new(num_qubits: usize) -> (r: Result<QuantumState, QuantumError>)
        ensures
            num_qubits > MAX_QUBITS <==> r is Err,
            r is Err ==> r == Err::<QuantumState, QuantumError>(
                QuantumError::InvalidSize(num_qubits),
            ),
            r matches Ok(s) ==> {
                &&& s.wf()
                &&& unit_norm(s.entries(), s.scale_spec())
                &&& s.qubits() == num_qubits
                &&& s.scale_spec() == 0
                &&& s.entries() == ground(pow2(num_qubits as nat))
            },
    {
        if num_qubits > MAX_QUBITS {
            return Err(QuantumError::InvalidSize(num_qubits));
        }
        proof {
            lemma2_to64();
            if num_qubits < 30 {
                lemma_pow2_strictly_increases(num_qubits as nat, 30);
            }
            lemma_usize_shl_is_mul(1, num_qubits);
        }
        let size: usize = 1usize << num_qubits;
        let mut amps: Vec<Amplitude> = Vec::with_capacity(size);
        let mut i: usize = 0;
        while i < size
            invariant
                i <= size,
                amps@.len() == i,
                forall|j: int|
                    0 <= j < i ==> #[trigger] cx(amps@[j]) == ground(size as nat)[j],
            decreases size - i,
        {
            if i == 0 {
                amps.push(Amplitude { re: 1, im: 0 });
            } else {
                amps.push(Amplitude { re: 0, im: 0 });
            }
            i = i + 1;
        }
        let r = QuantumState { amps, scale: 0, num_qubits };
        proof {
            lemma_pow2_pos(num_qubits as nat);
            assert(r.entries() =~= ground(size as nat));
            lemma_mag2_basis();
            assert(size == pow2(num_qubits as nat));
            let f = mag2_at(r.entries());
            assert forall|j: int| 0 <= j < size && j != 0 implies #[trigger] f(j) == 0 by {
                assert(r.entries()[j] == ground(size as nat)[j]);
                assert(r.entries()[j] == (0int, 0int));
                assert(f(j) == mag2(r.entries()[j]));
                assert(mag2((0int, 0int)) == 0);
            }
            assert(r.entries()[0] == (1int, 0int));
            assert(mag2((1int, 0int)) == 1);
            assert(f(0) == mag2(r.entries()[0]));
            lemma_sum_single(f, 0, size as int, 0);
            lemma2_to64();
            assert(!cx_even(r.entries()[0]));
        }
        Ok(r)
    }

    pub fn num_qubits(&self) -> (r: usize)
        ensures
            r == self.qubits(),
    {
        self.num_qubits
    }

    pub fn scale(&self) -> (r: u32)
        ensures
            r == self.scale_spec(),
    {
        self.scale
    }

    /// A copy of the numerators, for readers that must not hold the store.
    pub fn amplitudes(&self) -> (r: Vec<Amplitude>)
        ensures
            r@.map_values(|a: Amplitude| cx(a)) == self.entries(),
    {
        let r = copy_amps(&self.amps);
        proof {
            assert(r@.map_values(|a: Amplitude| cx(a)) =~= self.entries());
        }
        r
    }

    /// The numerator of basis state `idx`.
    pub fn get_amplitude(&self, idx: usize) -> (r: Amplitude)
        requires
            idx < self.entries().len(),
        ensures
            cx(r) == self.entries()[idx as int],
    {
        self.amps[idx]
    }
}

/// An element-by-element copy.
fn copy_amps(v: &Vec<Amplitude>) -> (r: Vec<Amplitude>)
    ensures
        r@ == v@,
{
    let mut r: Vec<Amplitude> = Vec::with_capacity(v.len());
    let mut i: usize = 0;
    while i < v.len()
        invariant
            i <= v@.len(),
            r@ == v@.subrange(0, i as int),
        decreases v@.len() - i,
    {
        r.push(v[i]);
        i = i + 1;
        proof {
            assert(r@ =~= v@.subrange(0, i as int));
        }
    }
    proof {
        assert(r@ =~= v@);
    }
    r
}


/// The operation's target and control qubits are valid for `n` qubits.
pub open spec fn gate_valid(g: Gate, target: usize, n: nat) -> bool {
    &&& target < n
    &&& match g.control_spec() {
        Some(c) => c < n && c != target,
        None => true,
    }
}

/// The numerators and denominator exponent after applying `g` to `target`.
pub open spec fn step_result(st: QuantumState, g: Gate, target: usize) -> (Seq<Cx>, nat) {
    step_on(st.entries(), st.scale_spec(), g, target)
}

/// What the numerators and exponent `(z, s)` become when `g` is applied to `target`.
pub open spec fn step_on(z: Seq<Cx>, s: nat, g: Gate, target: usize) -> (Seq<Cx>, nat) {
    reduce(apply_spec(g, z, target), s + g.scale_step())
}

/// The qubit that makes a gate invalid: the target when out of range, else the control.
pub open spec fn bad_qubit(g: Gate, target: usize, n: nat) -> usize {
    if target >= n {
        target
    } else {
        g.control_spec().unwrap()
    }
}

impl QuantumState {
    /// Applies `gate` to qubit `target`. Invalid qubits are refused before any
    /// work; a result whose denominator would pass `√2^MAX_SCALE` is refused
    /// and the state is left as it was.
    pub fn apply_gate(&mut self, gate: Gate, target: usize) -> (r: Result<(), QuantumError>)
        requires
            old(self).wf(),
        ensures
            final(self).wf(),
            unit_norm(old(self).entries(), old(self).scale_spec()),
            unit_norm(final(self).entries(), final(self).scale_spec()),
            final(self).qubits() == old(self).qubits(),
            target >= old(self).qubits() ==> r == Err::<(), QuantumError>(
                QuantumError::InvalidQubit(target),
            ),
            target < old(self).qubits() && !gate_valid(gate, target, old(self).qubits()) ==> r
                == Err::<(), QuantumError>(
                QuantumError::InvalidQubit(gate.control_spec().unwrap()),
            ),
            gate_valid(gate, target, old(self).qubits()) && step_result(*old(self), gate, target).1
                > MAX_SCALE ==> r == Err::<(), QuantumError>(QuantumError::PrecisionExhausted),
            gate_valid(gate, target, old(self).qubits()) && step_result(*old(self), gate, target).1
                <= MAX_SCALE ==> r is Ok,
            r is Ok ==> final(self).entries() == step_result(*old(self), gate, target).0
                && final(self).scale_spec() == step_result(*old(self), gate, target).1,
            r is Err ==> *final(self) == *old(self),
    {
        let n = self.num_qubits;
        if target >= n {
            return Err(QuantumError::InvalidQubit(target));
        }
        let ctrl = gate.control();
        match ctrl {
            Some(c) => {
                if c >= n || c == target {
                    return Err(QuantumError::InvalidQubit(c));
                }
            },
            None => {},
        }
        let (out, step) = self.gate_numerators(gate, target);
        let (amps, scale) = reduce_exec(out, self.scale + step);
        if scale > MAX_SCALE {
            return Err(QuantumError::PrecisionExhausted);
        }
        self.amps = amps;
        self.scale = scale;
        Ok(())
    }

    /// The numerators after the operation, over `√2^(scale + step)`.
    fn gate_numerators(&self, gate: Gate, target: usize) -> (r: (Vec<Amplitude>, u32))
        requires
            self.wf(),
            gate_valid(gate, target, self.qubits()),
        ensures
            r.1 == gate.scale_step(),
            view_amps(r.0@) == apply_spec(gate, self.entries(), target),
            norm2(view_amps(r.0@)) == pow2(self.scale_spec() + gate.scale_step()),
    {
        let ghost z = self.entries();
        let ghost n = self.num_qubits;
        proof {
            lemma_entry_bounds(z, self.scale as nat);
            lemma2_to64();
            lemma2_to64_rest();
            if self.num_qubits < 30 {
                lemma_pow2_strictly_increases(self.num_qubits as nat, 30);
            }
            lemma_usize_shl_is_mul(1, self.num_qubits);
        }
        let size: usize = self.amps.len();
        assert(size == (1usize << n));
        let mut out = copy_amps(&self.amps);
        let m: usize = 1usize << target;
        let ctrl = gate.control();
        let mut p: usize = 0;
        while p < size
            invariant
                self.wf(),
                z == self.entries(),
                n == self.qubits(),
                size == self.amps@.len(),
                size == (1usize << n),
                n <= MAX_QUBITS,
                gate_valid(gate, target, n as nat),
                ctrl == gate.control_spec(),
                m == mask(target),
                p <= size,
                out@.len() == size,
                forall|q: int|
                    0 <= q < size ==> #[trigger] cx(out@[q]) == (if done(q, p as int, target) {
                        gate_entry(gate, z, target, q)
                    } else {
                        z[q]
                    }),
                forall|i: int|
                    0 <= i < z.len() ==> -0x4000_0000 <= #[trigger] z[i].0 <= 0x4000_0000 && -0x4000_0000
                        <= z[i].1 <= 0x4000_0000,
            decreases size - p,
        {
            if p & m == 0 {
                let j: usize = p | m;
                proof {
                    lemma_pair_bits(p, target, n);
                }
                let a = self.amps[p];
                let b = self.amps[j];
                let on = match ctrl {
                    Some(cq) => p & (1usize << cq) != 0,
                    None => true,
                };
                proof {
                    match ctrl {
                        Some(cq) => lemma_control_bits(p, target, cq),
                        None => {},
                    }
                    assert(z[p as int] == cx(a));
                    assert(z[j as int] == cx(b));
                    assert(-0x4000_0000 <= z[p as int].0 <= 0x4000_0000);
                    assert(-0x4000_0000 <= z[j as int].0 <= 0x4000_0000);
                    assert(lo_of(j as int, target) == p);
                    assert(hi_of(p as int, target) == j);
                    assert(lo_of(p as int, target) == p);
                    assert(hi_of(j as int, target) == j);
                    assert(control_on(gate, p as int) == on);
                    assert(control_on(gate, j as int) == on);
                }
                let (x, y) = if on {
                    pair_apply(gate, a, b)
                } else {
                    (a, b)
                };
                out.set(p, x);
                out.set(j, y);
                proof {
                    assert forall|q: int| 0 <= q < size && q != p && q != j implies done(q, p + 1, target)
                        == done(q, p as int, target) by {
                        lemma_done_step(q as usize, p, target);
                    }
                    assert(done(p as int, p + 1, target));
                    assert(done(j as int, p + 1, target));
                }
            } else {
                proof {
                    assert forall|q: int| 0 <= q < size implies done(q, p + 1, target) == done(
                        q,
                        p as int,
                        target,
                    ) by {
                        lemma_done_step(q as usize, p, target);
                    }
                }
            }
            p = p + 1;
        }
        proof {
            assert forall|q: int| 0 <= q < size implies done(q, size as int, target) by {
                lemma_done_all(q, size, target, n);
            }
            assert(view_amps(out@) =~= apply_spec(gate, z, target));
            lemma_gate_preserves_norm(gate, z, target, n);
            lemma_pow2_adds(self.scale as nat, gate.scale_step());
            assert(norm2(z) == pow2(self.scale as nat));
            assert(norm2(view_amps(out@)) == pow2(gate.scale_step()) * pow2(self.scale as nat));
            assert(pow2(gate.scale_step()) * pow2(self.scale as nat) == pow2(self.scale as nat) * pow2(
                gate.scale_step(),
            )) by (nonlinear_arith);
            lemma2_to64();
        }
        let step: u32 = match gate {
            Gate::Hadamard => 1,
            _ => 0,
        };
        (out, step)
    }
}

/// Entry `q` has been written once the scan has passed the first member of its pair.
pub open spec fn done(q: int, p: int, k: usize) -> bool {
    if is_low(q, k) {
        q < p
    } else {
        lo_of(q, k) < p
    }
}

proof fn lemma_done_step(qu: usize, p: usize, k: usize)
    requires
        k < MAX_QUBITS,
        (p & mask(k) == 0usize) ==> qu != p && qu != (p | mask(k)),
    ensures
        done(qu as int, p + 1, k) == done(qu as int, p as int, k),
{
    let q = qu as int;
    if !is_low(q, k) {
        lemma_high_bits(qu, k);
        if p & mask(k) == 0usize {
            assert(lo_of(q, k) != p);
        } else {
            assert(lo_of(q, k) != p);
        }
    }
}

proof fn lemma_done_all(q: int, size: usize, k: usize, n: usize)
    requires
        0 <= q < size,
        k < n,
        n <= 30,
    ensures
        done(q, size as int, k),
{
    if !is_low(q, k) {
        lemma_high_bits(q as usize, k);
    }
}

proof fn lemma_pair_bits(p: usize, k: usize, n: usize)
    by (bit_vector)
    requires
        k < n,
        n <= 30,
        p < (1usize << n),
        p & (1usize << k) == 0usize,
    ensures
        (p | (1usize << k)) < (1usize << n),
        (p | (1usize << k)) & (1usize << k) != 0usize,
        (p | (1usize << k)) & !(1usize << k) == p,
        p & !(1usize << k) == p,
        (p | (1usize << k)) | (1usize << k) == (p | (1usize << k)),
        p < (p | (1usize << k)),
{
}

proof fn lemma_high_bits(q: usize, k: usize)
    by (bit_vector)
    requires
        k < 30,
        q & (1usize << k) != 0usize,
    ensures
        q & !(1usize << k) < q,
        (q & !(1usize << k)) & (1usize << k) == 0usize,
        (q & !(1usize << k)) | (1usize << k) == q,
        q | (1usize << k) == q,
{
}

proof fn lemma_control_bits(p: usize, k: usize, c: usize)
    by (bit_vector)
    requires
        k < 30,
        c < 30,
        k != c,
    ensures
        (p | (1usize << k)) & (1usize << c) == p & (1usize << c),
        (p & !(1usize << k)) & (1usize << c) == p & (1usize << c),
{
}

proof fn lemma_sq_bound(x: int)
    requires
        x * x <= 0x1000_0000_0000_0000,
    ensures
        -0x4000_0000 <= x <= 0x4000_0000,
{
    if x > 0x4000_0000 {
        assert(x * x > 0x4000_0000 * x) by (nonlinear_arith)
            requires
                x > 0x4000_0000,
        ;
        assert(0x4000_0000 * x > 0x1000_0000_0000_0000) by (nonlinear_arith)
            requires
                x > 0x4000_0000,
        ;
    }
    if x < -0x4000_0000 {
        assert(x * x > -0x4000_0000 * x) by (nonlinear_arith)
            requires
                x < -0x4000_0000,
        ;
        assert(-0x4000_0000 * x > 0x1000_0000_0000_0000) by (nonlinear_arith)
            requires
                x < -0x4000_0000,
        ;
    }
}

/// Every part of a numerator of a unit vector is at most `√2^scale`.
proof fn lemma_entry_bounds(z: Seq<Cx>, s: nat)
    requires
        norm2(z) == pow2(s),
        s <= 60,
    ensures
        forall|i: int|
            0 <= i < z.len() ==> -0x4000_0000 <= #[trigger] z[i].0 <= 0x4000_0000 && -0x4000_0000
                <= z[i].1 <= 0x4000_0000,
{
    lemma2_to64();
    lemma2_to64_rest();
    if s < 60 {
        lemma_pow2_strictly_increases(s, 60);
    }
    assert forall|i: int| 0 <= i < z.len() implies #[trigger] mag2_at(z)(i) >= 0 by {
        lemma_mag2_nonneg(z[i]);
    }
    assert forall|i: int| 0 <= i < z.len() implies -0x4000_0000 <= #[trigger] z[i].0 <= 0x4000_0000
        && -0x4000_0000 <= z[i].1 <= 0x4000_0000 by {
        lemma_sum_term_le(mag2_at(z), 0, z.len() as int, i);
        let x = z[i];
        assert(x.0 * x.0 >= 0) by (nonlinear_arith);
        assert(x.1 * x.1 >= 0) by (nonlinear_arith);
        lemma_sq_bound(x.0);
        lemma_sq_bound(x.1);
    }
}

/// `|x|² + |y|²` of the pair image is the operation's gain times `|a|² + |b|²`.
proof fn lemma_pair_gain(g: Gate, a: Cx, b: Cx)
    ensures
        mag2(pair_image(g, a, b).0) + mag2(pair_image(g, a, b).1) == gain(g) * (mag2(a) + mag2(b)),
{
    match g {
        Gate::Hadamard => lemma_parallelogram(a, b),
        Gate::ControlledNot { .. } => {},
        Gate::Phase { quarter_turns } => lemma_rot_mag2(b, (quarter_turns % 4) as nat),
        Gate::Custom { swap, phase0, phase1 } => {
            lemma_rot_mag2(a, (phase0 % 4) as nat);
            lemma_rot_mag2(b, (phase0 % 4) as nat);
            lemma_rot_mag2(a, (phase1 % 4) as nat);
            lemma_rot_mag2(b, (phase1 % 4) as nat);
        },
    }
}

/// Multiplies by `i`, `q mod 4` times.
fn rot_exec(a: Amplitude, q: u8) -> (r: Amplitude)
    requires
        -0x4000_0000 <= a.re <= 0x4000_0000,
        -0x4000_0000 <= a.im <= 0x4000_0000,
    ensures
        cx(r) == rot(cx(a), (q % 4) as nat),
        -0x4000_0000 <= r.re <= 0x4000_0000,
        -0x4000_0000 <= r.im <= 0x4000_0000,
{
    let ghost x = cx(a);
    let t = q % 4;
    proof {
        assert(rot(x, 0) == x);
        assert(rot(x, 1) == rot((-x.1, x.0), 0));
        assert(rot(x, 2) == rot((-x.1, x.0), 1));
        assert(rot((-x.1, x.0), 1) == rot((-x.0, -x.1), 0));
        assert(rot(x, 3) == rot((-x.1, x.0), 2));
        assert(rot((-x.1, x.0), 2) == rot((-x.0, -x.1), 1));
        assert(rot((-x.0, -x.1), 1) == rot((x.1, -x.0), 0));
    }
    if t == 0 {
        a
    } else if t == 1 {
        Amplitude { re: -a.im, im: a.re }
    } else if t == 2 {
        Amplitude { re: -a.re, im: -a.im }
    } else {
        Amplitude { re: a.im, im: -a.re }
    }
}

/// The pair image of `(a, b)` under `g`, with both values read before either is written.
fn pair_apply(g: Gate, a: Amplitude, b: Amplitude) -> (r: (Amplitude, Amplitude))
    requires
        -0x4000_0000 <= a.re <= 0x4000_0000,
        -0x4000_0000 <= a.im <= 0x4000_0000,
        -0x4000_0000 <= b.re <= 0x4000_0000,
        -0x4000_0000 <= b.im <= 0x4000_0000,
    ensures
        (cx(r.0), cx(r.1)) == pair_image(g, cx(a), cx(b)),
{
    match g {
        Gate::Hadamard => (
            Amplitude { re: a.re + b.re, im: a.im + b.im },
            Amplitude { re: a.re - b.re, im: a.im - b.im },
        ),
        Gate::ControlledNot { .. } => (b, a),
        Gate::Phase { quarter_turns } => (a, rot_exec(b, quarter_turns)),
        Gate::Custom { swap, phase0, phase1 } => {
            if swap {
                (rot_exec(b, phase0), rot_exec(a, phase1))
            } else {
                (rot_exec(a, phase0), rot_exec(b, phase1))
            }
        },
    }
}

/// Cancels factors of two against the denominator until none is left.
fn reduce_exec(amps: Vec<Amplitude>, scale: u32) -> (r: (Vec<Amplitude>, u32))
    requires
        norm2(view_amps(amps@)) == pow2(scale as nat),
    ensures
        (view_amps(r.0@), r.1 as nat) == reduce(view_amps(amps@), scale as nat),
        norm2(view_amps(r.0@)) == pow2(r.1 as nat),
        canonical(view_amps(r.0@), r.1 as nat),
        r.0@.len() == amps@.len(),
        r.1 <= scale,
{
    let mut v = amps;
    let mut s = scale;
    while s >= 2 && all_even_exec(&v)
        invariant
            reduce(view_amps(v@), s as nat) == reduce(view_amps(amps@), scale as nat),
            norm2(view_amps(v@)) == pow2(s as nat),
            v@.len() == amps@.len(),
            s <= scale,
        decreases s,
    {
        let ghost z = view_amps(v@);
        v = halve_exec(&v);
        s = s - 2;
        proof {
            assert(view_amps(v@) =~= halve(z));
            assert forall|i: int| 0 <= i < z.len() implies #[trigger] mag2_at(z)(i) == 4 * mag2_at(
                halve(z),
            )(i) by {
                lemma_mag2_half(z[i]);
            }
            lemma_sum_scale(mag2_at(halve(z)), mag2_at(z), 4, 0, z.len() as int);
            lemma_pow2_adds(2, s as nat);
            lemma2_to64();
        }
    }
    (v, s)
}

fn all_even_exec(v: &Vec<Amplitude>) -> (r: bool)
    ensures
        r == all_even(view_amps(v@)),
{
    let mut i: usize = 0;
    while i < v.len()
        invariant
            i <= v@.len(),
            forall|j: int| 0 <= j < i ==> #[trigger] cx_even(view_amps(v@)[j]),
        decreases v@.len() - i,
    {
        if v[i].re % 2 != 0 || v[i].im % 2 != 0 {
            assert(!cx_even(view_amps(v@)[i as int]));
            return false;
        }
        i = i + 1;
    }
    true
}

fn halve_exec(v: &Vec<Amplitude>) -> (r: Vec<Amplitude>)
    requires
        all_even(view_amps(v@)),
    ensures
        view_amps(r@) == halve(view_amps(v@)),
{
    let mut r: Vec<Amplitude> = Vec::with_capacity(v.len());
    let mut i: usize = 0;
    while i < v.len()
        invariant
            i <= v@.len(),
            all_even(view_amps(v@)),
            r@.len() == i,
            forall|j: int| 0 <= j < i ==> #[trigger] cx(r@[j]) == chalf(view_amps(v@)[j]),
        decreases v@.len() - i,
    {
        let a = v[i];
        assert(cx_even(view_amps(v@)[i as int]));
        r.push(Amplitude { re: a.re / 2, im: a.im / 2 });
        i = i + 1;
    }
    assert(view_amps(r@) =~= halve(view_amps(v@)));
    r
}


proof fn lemma_pair_structure(q: usize, k: usize, n: usize)
    by (bit_vector)
    requires
        k < n,
        n <= 30,
        q < (1usize << n),
    ensures
        (q & !(1usize << k)) < (1usize << n),
        (q | (1usize << k)) < (1usize << n),
        (q & !(1usize << k)) & (1usize << k) == 0usize,
        (q | (1usize << k)) & (1usize << k) != 0usize,
        (q & !(1usize << k)) & !(1usize << k) == (q & !(1usize << k)),
        (q & !(1usize << k)) | (1usize << k) == (q | (1usize << k)),
        (q | (1usize << k)) & !(1usize << k) == (q & !(1usize << k)),
        (q | (1usize << k)) | (1usize << k) == (q | (1usize << k)),
        (q & (1usize << k) == 0usize) ==> (q & !(1usize << k)) == q,
        (q & (1usize << k) != 0usize) ==> (q | (1usize << k)) == q,
{
}

/// The pair of basis index `q` for qubit `k`: both members lie in range, and
/// each names the same pair.
proof fn lemma_pair_of(q: int, k: usize, n: usize)
    requires
        k < n,
        n <= 30,
        0 <= q < (1usize << n),
    ensures
        0 <= lo_of(q, k) < (1usize << n),
        0 <= hi_of(q, k) < (1usize << n),
        is_low(lo_of(q, k), k),
        !is_low(hi_of(q, k), k),
        lo_of(lo_of(q, k), k) == lo_of(q, k),
        hi_of(lo_of(q, k), k) == hi_of(q, k),
        lo_of(hi_of(q, k), k) == lo_of(q, k),
        hi_of(hi_of(q, k), k) == hi_of(q, k),
        is_low(q, k) ==> lo_of(q, k) == q,
        !is_low(q, k) ==> hi_of(q, k) == q,
{
    lemma_pair_structure(q as usize, k, n);
}

/// Applying Hadamard twice to the same qubit restores the vector exactly:
/// the numerators and the denominator both come back.
pub proof fn lemma_hadamard_involution(st: QuantumState, k: usize)
    requires
        st.wf(),
        k < st.qubits(),
    ensures
        ({
            let (z1, s1) = step_result(st, Gate::Hadamard, k);
            reduce(apply_spec(Gate::Hadamard, z1, k), s1 + 1) == (st.entries(), st.scale_spec())
        }),
{
    let z = st.entries();
    let s = st.scale_spec();
    let n = st.num_qubits;
    let h = Gate::Hadamard;
    let w = apply_spec(h, z, k);
    let size = z.len();
    lemma2_to64();
    if n < 30 {
        lemma_pow2_strictly_increases(n as nat, 30);
    }
    lemma_usize_shl_is_mul(1, n);
    assert(size == (1usize << n));
    // Entry values of `w` on a pair.
    assert forall|q: int| 0 <= q < size implies {
        &&& w[#[trigger] lo_of(q, k)] == (z[lo_of(q, k)].0 + z[hi_of(q, k)].0, z[lo_of(q, k)].1
            + z[hi_of(q, k)].1)
        &&& w[hi_of(q, k)] == (z[lo_of(q, k)].0 - z[hi_of(q, k)].0, z[lo_of(q, k)].1 - z[hi_of(
            q,
            k,
        )].1)
    } by {
        lemma_pair_of(q, k, n);
    }
    if s + 1 >= 2 && all_even(w) {
        let hw = halve(w);
        // Nothing more cancels: otherwise every numerator of `z` would be even.
        if s - 1 >= 2 && all_even(hw) {
            assert forall|q: int| 0 <= q < size implies #[trigger] cx_even(z[q]) by {
                lemma_pair_of(q, k, n);
                let l = lo_of(q, k);
                let u = hi_of(q, k);
                assert(cx_even(hw[l]) && cx_even(hw[u]));
                assert(cx_even(w[l]) && cx_even(w[u]));
            }
            assert(false);
        }
        assert(reduce(w, s + 1) == reduce(hw, (s - 1) as nat));
        assert(reduce(hw, (s - 1) as nat) == (hw, (s - 1) as nat));
        let back = apply_spec(h, hw, k);
        assert forall|q: int| 0 <= q < size implies #[trigger] back[q] == z[q] by {
            lemma_pair_of(q, k, n);
            let l = lo_of(q, k);
            let u = hi_of(q, k);
            assert(cx_even(w[l]) && cx_even(w[u]));
        }
        assert(back =~= z);
    } else {
        assert(reduce(w, s + 1) == (w, s + 1));
        let back = apply_spec(h, w, k);
        assert forall|q: int| 0 <= q < size implies #[trigger] back[q] == (
            2 * z[q].0,
            2 * z[q].1,
        ) by {
            lemma_pair_of(q, k, n);
        }
        assert forall|q: int| 0 <= q < size implies #[trigger] cx_even(back[q]) by {}
        assert(halve(back) =~= z);
        assert(reduce(back, s + 2) == reduce(z, s));
    }
}


impl QuantumState {
    /// Takes a vector from outside the store: its length must be `2ⁿ`, its
    /// denominator exponent at most `MAX_SCALE`, and its norm exactly one
    /// (`Σ |amps|² == 2^scale`); otherwise `InvalidState`, and nothing changes.
    /// Nothing is renormalised; common factors of two are cancelled.
    pub fn replace(&mut self, amps: Vec<Amplitude>, scale: u32) -> (r: Result<(), QuantumError>)
        requires
            old(self).wf(),
        ensures
            final(self).wf(),
            final(self).qubits() == old(self).qubits(),
            r is Ok <==> (amps@.len() == old(self).entries().len() && scale <= MAX_SCALE && norm2(
                view_amps(amps@),
            ) == pow2(scale as nat)),
            r is Err ==> r == Err::<(), QuantumError>(QuantumError::InvalidState) && *final(self)
                == *old(self),
            r is Ok ==> (final(self).entries(), final(self).scale_spec()) == reduce(
                view_amps(amps@),
                scale as nat,
            ),
    {
        if amps.len() != self.amps.len() || scale > MAX_SCALE {
            return Err(QuantumError::InvalidState);
        }
        if !norm_matches(&amps, scale) {
            return Err(QuantumError::InvalidState);
        }
        let (v, s) = reduce_exec(amps, scale);
        self.amps = v;
        self.scale = s;
        Ok(())
    }

    /// Applies Hadamard to `qubit`.
    pub fn apply_h(&mut self, qubit: usize) -> (r: Result<(), QuantumError>)
        requires
            old(self).wf(),
        ensures
            final(self).wf(),
            final(self).qubits() == old(self).qubits(),
            qubit >= old(self).qubits() ==> r == Err::<(), QuantumError>(
                QuantumError::InvalidQubit(qubit),
            ),
            qubit < old(self).qubits() && step_result(*old(self), Gate::Hadamard, qubit).1
                <= MAX_SCALE ==> r is Ok,
            r is Ok ==> final(self).entries() == step_result(*old(self), Gate::Hadamard, qubit).0
                && final(self).scale_spec() == step_result(*old(self), Gate::Hadamard, qubit).1,
            r is Err ==> *final(self) == *old(self),
    {
        self.apply_gate(Gate::Hadamard, qubit)
    }

    /// An independent copy of the state.
    pub fn duplicate(&self) -> (r: QuantumState)
        ensures
            r.entries() == self.entries(),
            r.scale_spec() == self.scale_spec(),
            r.qubits() == self.qubits(),
            self.wf() ==> r.wf(),
    {
        QuantumState { amps: copy_amps(&self.amps), scale: self.scale, num_qubits: self.num_qubits }
    }
}

proof fn lemma_square_fits(x: i64)
    ensures
        0 <= (x as int) * (x as int) <= 0x4000_0000_0000_0000_0000_0000_0000_0000,
{
    assert(0 <= (x as int) * (x as int) <= 0x4000_0000_0000_0000_0000_0000_0000_0000)
        by (nonlinear_arith)
        requires
            -0x8000_0000_0000_0000 <= x <= 0x7fff_ffff_ffff_ffff,
    ;
}

/// `Σ |v[i]|² == 2^scale`, computed without overflow.
fn norm_matches(v: &Vec<Amplitude>, scale: u32) -> (r: bool)
    requires
        scale <= MAX_SCALE,
    ensures
        r == (norm2(view_amps(v@)) == pow2(scale as nat)),
{
    let ghost z = view_amps(v@);
    proof {
        lemma2_to64();
        lemma2_to64_rest();
        if scale < 60 {
            lemma_pow2_strictly_increases(scale as nat, 60);
        }
        lemma_u64_shl_is_mul(1, scale as u64);
        assert forall|i: int| 0 <= i < z.len() implies #[trigger] mag2_at(z)(i) >= 0 by {
            lemma_mag2_nonneg(z[i]);
        }
    }
    let target: u128 = (1u64 << (scale as u64)) as u128;
    let mut acc: u128 = 0;
    let mut i: usize = 0;
    while i < v.len()
        invariant
            i <= v@.len(),
            z == view_amps(v@),
            target == pow2(scale as nat),
            target <= 0x1000_0000_0000_0000,
            acc == sum(mag2_at(z), 0, i as int),
            acc <= target,
            forall|j: int| 0 <= j < z.len() ==> #[trigger] mag2_at(z)(j) >= 0,
        decreases v@.len() - i,
    {
        let a = v[i];
        proof {
            lemma_square_fits(a.re);
            lemma_square_fits(a.im);
            lemma_sum_split(mag2_at(z), 0, i as int, i + 1);
            assert(sum(mag2_at(z), i + 1, i + 1) == 0);
            assert(sum(mag2_at(z), i as int, i + 1) == mag2_at(z)(i as int));
            assert(z[i as int] == cx(a));
            assert(mag2_at(z)(i as int) == mag2(cx(a)));
        }
        let t: u128 = ((a.re as i128) * (a.re as i128)) as u128 + ((a.im as i128) * (a.im as i128)) as u128;
        assert(t == mag2(cx(a)));
        if t > target - acc {
            proof {
                lemma_sum_split(mag2_at(z), 0, i + 1, z.len() as int);
                lemma_sum_nonneg(mag2_at(z), i + 1, z.len() as int);
            }
            return false;
        }
        acc = acc + t;
        i = i + 1;
    }
    acc == target
}


/// Per-entry weights while a gate is applied up to index `p`: entries already
/// written count their new squared magnitude, the others the gain times the old.
pub open spec fn weights(g: Gate, z: Seq<Cx>, k: usize, p: int) -> Seq<int> {
    Seq::new(
        z.len(),
        |q: int|
            if done(q, p, k) {
                mag2(gate_entry(g, z, k, q))
            } else {
                gain(g) * mag2(z[q])
            },
    )
}

proof fn lemma_weights_sum(g: Gate, z: Seq<Cx>, k: usize, n: usize, p: int)
    requires
        n <= MAX_QUBITS,
        z.len() == (1usize << n),
        gate_valid(g, k, n as nat),
        0 <= p <= z.len(),
    ensures
        sum(at(weights(g, z, k, p)), 0, z.len() as int) == gain(g) * norm2(z),
    decreases p,
{
    let size = z.len() as int;
    if p == 0 {
        assert forall|q: int| 0 <= q < size implies #[trigger] at(weights(g, z, k, 0))(q) == gain(g)
            * mag2_at(z)(q) by {
            assert(!done(q, 0, k));
        }
        lemma_sum_scale(mag2_at(z), at(weights(g, z, k, 0)), gain(g), 0, size);
    } else {
        let pp = (p - 1) as usize;
        lemma_weights_sum(g, z, k, n, p - 1);
        let w0 = weights(g, z, k, p - 1);
        let w1 = weights(g, z, k, p);
        if pp & mask(k) == 0usize {
            lemma_pair_bits(pp, k, n);
            let j = (pp | mask(k)) as int;
            let x = gate_entry(g, z, k, pp as int);
            let y = gate_entry(g, z, k, j);
            match g.control_spec() {
                Some(c) => lemma_control_bits(pp, k, c),
                None => {},
            }
            assert forall|q: int| 0 <= q < size && q != pp && q != j implies done(q, p, k) == done(
                q,
                p - 1,
                k,
            ) by {
                lemma_done_step(q as usize, pp, k);
            }
            lemma_sum_update(w0, pp as int, mag2(x));
            lemma_sum_update(w0.update(pp as int, mag2(x)), j, mag2(y));
            assert(w1 =~= w0.update(pp as int, mag2(x)).update(j, mag2(y)));
            if control_on(g, pp as int) {
                lemma_pair_gain(g, z[pp as int], z[j]);
            }
        } else {
            assert forall|q: int| 0 <= q < size implies done(q, p, k) == done(q, p - 1, k) by {
                lemma_done_step(q as usize, pp, k);
            }
            assert(w1 =~= w0);
        }
    }
}

/// Every gate preserves the norm: before the common factor `√2^scale_step`
/// is taken into the denominator, `Σ |out|² = 2^scale_step · Σ |in|²`, so
/// the norm of the amplitudes is unchanged, for any vector of `2ⁿ` entries.
pub proof fn lemma_gate_preserves_norm(g: Gate, z: Seq<Cx>, k: usize, n: usize)
    requires
        n <= MAX_QUBITS,
        z.len() == pow2(n as nat),
        gate_valid(g, k, n as nat),
    ensures
        norm2(apply_spec(g, z, k)) == pow2(g.scale_step()) * norm2(z),
{
    lemma2_to64();
    if n < 30 {
        lemma_pow2_strictly_increases(n as nat, 30);
    }
    lemma_usize_shl_is_mul(1, n);
    let size = z.len() as int;
    lemma_weights_sum(g, z, k, n, size);
    assert forall|q: int| 0 <= q < size implies #[trigger] at(weights(g, z, k, size))(q) == mag2_at(
        apply_spec(g, z, k),
    )(q) by {
        lemma_done_all(q, size as usize, k, n);
    }
    lemma_sum_ext(at(weights(g, z, k, size)), mag2_at(apply_spec(g, z, k)), 0, size);
}

} // verus!
