//! Exact complex amplitudes: Gaussian integers (`re + im·i`), read over a
//! denominator that the owning vector shares between all its entries.
use vstd::prelude::*;

verus! {

/// A Gaussian integer, used as the numerator of one amplitude.
#[derive(Clone, Copy, Debug, PartialEq, Eq, Structural)]
pub struct Amplitude {
    pub re: i64,
    pub im: i64,
}

/// A complex number with integer parts, in specifications.
pub type Cx = (int, int);

pub open spec fn cx(a: Amplitude) -> Cx {
    (a.re as int, a.im as int)
}

pub open spec fn cadd(x: Cx, y: Cx) -> Cx {
    (x.0 + y.0, x.1 + y.1)
}

/// Squared magnitude `|x|²`.
pub open spec fn mag2(x: Cx) -> int {
    x.0 * x.0 + x.1 * x.1
}

/// Both parts even.
pub open spec fn cx_even(x: Cx) -> bool {
    x.0 % 2 == 0 && x.1 % 2 == 0
}

pub open spec fn chalf(x: Cx) -> Cx {
    (x.0 / 2, x.1 / 2)
}

/// Sum of `f(i)` for `lo <= i < hi`.
pub open spec fn sum(f: spec_fn(int) -> int, lo: int, hi: int) -> int
    decreases hi - lo,
{
    if lo >= hi {
        0
    } else {
        f(lo) + sum(f, lo + 1, hi)
    }
}

/// Sum of the squared magnitudes of a sequence of amplitudes.
pub open spec fn norm2(z: Seq<Cx>) -> int {
    sum(mag2_at(z), 0, z.len() as int)
}

/// `i ↦ s[i]`.
pub open spec fn at(s: Seq<int>) -> spec_fn(int) -> int {
    |i: int| s[i]
}

/// The complex values of a sequence of amplitudes.
pub open spec fn view_amps(v: Seq<Amplitude>) -> Seq<Cx> {
    v.map_values(|a: Amplitude| cx(a))
}

/// `i ↦ |z[i]|²`.
pub open spec fn mag2_at(z: Seq<Cx>) -> spec_fn(int) -> int {
    |i: int| mag2(z[i])
}

/// Squared magnitudes of `0` and `1`.
pub proof fn lemma_mag2_basis()
    ensures
        mag2((0int, 0int)) == 0,
        mag2((1int, 0int)) == 1,
{
    assert(0int * 0int == 0) by (nonlinear_arith);
    assert(1int * 1int == 1) by (nonlinear_arith);
}

pub proof fn lemma_mag2_nonneg(x: Cx)
    ensures
        mag2(x) >= 0,
{
    assert(x.0 * x.0 >= 0) by (nonlinear_arith);
    assert(x.1 * x.1 >= 0) by (nonlinear_arith);
}

/// Multiplication by `i`, `q` times.
pub open spec fn rot(x: Cx, q: nat) -> Cx
    decreases q,
{
    if q == 0 {
        x
    } else {
        rot((-x.1, x.0), (q - 1) as nat)
    }
}

pub proof fn lemma_rot_mag2(x: Cx, q: nat)
    ensures
        mag2(rot(x, q)) == mag2(x),
    decreases q,
{
    if q > 0 {
        assert((-x.1) * (-x.1) == x.1 * x.1) by (nonlinear_arith);
        lemma_rot_mag2((-x.1, x.0), (q - 1) as nat);
    }
}

/// `|a + b|² + |a - b|² = 2·(|a|² + |b|²)`.
pub proof fn lemma_parallelogram(a: Cx, b: Cx)
    ensures
        mag2((a.0 + b.0, a.1 + b.1)) + mag2((a.0 - b.0, a.1 - b.1)) == 2 * (mag2(a) + mag2(b)),
{
    lemma_parallelogram_int(a.0, b.0);
    lemma_parallelogram_int(a.1, b.1);
}

proof fn lemma_parallelogram_int(x: int, y: int)
    ensures
        (x + y) * (x + y) + (x - y) * (x - y) == 2 * (x * x) + 2 * (y * y),
{
    assert((x + y) * (x + y) == x * x + 2 * (x * y) + y * y) by (nonlinear_arith);
    assert((x - y) * (x - y) == x * x - 2 * (x * y) + y * y) by (nonlinear_arith);
}

/// Halving both parts of an even amplitude divides its squared magnitude by four.
pub proof fn lemma_mag2_half(x: Cx)
    requires
        cx_even(x),
    ensures
        mag2(x) == 4 * mag2(chalf(x)),
{
    let a = x.0 / 2;
    let b = x.1 / 2;
    assert(x.0 == 2 * a && x.1 == 2 * b);
    assert((2 * a) * (2 * a) == 4 * (a * a)) by (nonlinear_arith);
    assert((2 * b) * (2 * b) == 4 * (b * b)) by (nonlinear_arith);
}

pub proof fn lemma_sum_split(f: spec_fn(int) -> int, lo: int, mid: int, hi: int)
    requires
        lo <= mid <= hi,
    ensures
        sum(f, lo, hi) == sum(f, lo, mid) + sum(f, mid, hi),
    decreases mid - lo,
{
    if lo < mid {
        lemma_sum_split(f, lo + 1, mid, hi);
    }
}

pub proof fn lemma_sum_ext(f: spec_fn(int) -> int, g: spec_fn(int) -> int, lo: int, hi: int)
    requires
        forall|i: int| lo <= i < hi ==> #[trigger] f(i) == g(i),
    ensures
        sum(f, lo, hi) == sum(g, lo, hi),
    decreases hi - lo,
{
    if lo < hi {
        lemma_sum_ext(f, g, lo + 1, hi);
    }
}

pub proof fn lemma_sum_nonneg(f: spec_fn(int) -> int, lo: int, hi: int)
    requires
        forall|i: int| lo <= i < hi ==> #[trigger] f(i) >= 0,
    ensures
        sum(f, lo, hi) >= 0,
    decreases hi - lo,
{
    if lo < hi {
        lemma_sum_nonneg(f, lo + 1, hi);
    }
}

/// One term of a sum of non-negative terms is at most the sum.
pub proof fn lemma_sum_term_le(f: spec_fn(int) -> int, lo: int, hi: int, k: int)
    requires
        lo <= k < hi,
        forall|i: int| lo <= i < hi ==> #[trigger] f(i) >= 0,
    ensures
        f(k) <= sum(f, lo, hi),
    decreases hi - lo,
{
    if lo < k {
        lemma_sum_term_le(f, lo + 1, hi, k);
    } else {
        lemma_sum_nonneg(f, lo + 1, hi);
    }
}

pub proof fn lemma_sum_scale(f: spec_fn(int) -> int, g: spec_fn(int) -> int, c: int, lo: int, hi: int)
    requires
        forall|i: int| lo <= i < hi ==> #[trigger] g(i) == c * f(i),
    ensures
        sum(g, lo, hi) == c * sum(f, lo, hi),
    decreases hi - lo,
{
    if lo < hi {
        lemma_sum_scale(f, g, c, lo + 1, hi);
        assert(c * f(lo) + c * sum(f, lo + 1, hi) == c * (f(lo) + sum(f, lo + 1, hi)))
            by (nonlinear_arith);
    }
}

/// A sum whose terms are all zero is zero.
pub proof fn lemma_sum_zero(f: spec_fn(int) -> int, lo: int, hi: int)
    requires
        forall|i: int| lo <= i < hi ==> #[trigger] f(i) == 0,
    ensures
        sum(f, lo, hi) == 0,
    decreases hi - lo,
{
    if lo < hi {
        lemma_sum_zero(f, lo + 1, hi);
    }
}

/// Changing one term changes the sum by the difference.
pub proof fn lemma_sum_update(s: Seq<int>, j: int, v: int)
    requires
        0 <= j < s.len(),
    ensures
        sum(at(s.update(j, v)), 0, s.len() as int) == sum(at(s), 0, s.len() as int) - s[j] + v,
{
    let t = s.update(j, v);
    let n = s.len() as int;
    lemma_sum_split(at(s), 0, j, n);
    lemma_sum_split(at(s), j, j + 1, n);
    lemma_sum_split(at(t), 0, j, n);
    lemma_sum_split(at(t), j, j + 1, n);
    lemma_sum_ext(at(s), at(t), 0, j);
    lemma_sum_ext(at(s), at(t), j + 1, n);
}

/// A sum with one non-zero term at `k`.
pub proof fn lemma_sum_single(f: spec_fn(int) -> int, lo: int, hi: int, k: int)
    requires
        lo <= k < hi,
        forall|i: int| lo <= i < hi && i != k ==> #[trigger] f(i) == 0,
    ensures
        sum(f, lo, hi) == f(k),
{
    lemma_sum_split(f, lo, k, hi);
    lemma_sum_zero(f, lo, k);
    lemma_sum_zero(f, k + 1, hi);
}

} // verus!
