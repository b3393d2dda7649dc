use vstd::prelude::*;

verus! {

/// Fixed-point one: factors and coordinates count thousandths.
pub const SCALE: i64 = 1000;

/// Half a unit of length.
pub const HALF_UNIT: i64 = 500;

/// Largest magnitude of a shape parameter (height, width, offset).
pub const PARAM_LIMIT: i64 = 1_000_000_000;

/// Largest magnitude of a curve's defining coordinates, radius and angles.
pub const CURVE_LIMIT: i64 = 1_000_000_000_000;

/// Largest magnitude of a polygon coordinate.
pub const COORD_LIMIT: i64 = 1_000_000_000_000_000;

/// Largest factor (curvature, width factor, mound factor): a thousand.
pub const FACTOR_LIMIT: i64 = 1_000_000;

/// Largest tessellation resolution.
pub const MAX_RESOLUTION: usize = 100_000_000;

/// Fixed-point one for sines and cosines.
pub const SINE_ONE: i64 = 1_000_000;

/// Angles count thousandths of a degree: a full turn.
pub const FULL_TURN: i64 = 360_000;

/// Half a turn in thousandths of a degree.
pub const HALF_TURN: i64 = 180_000;

/// A quarter turn in thousandths of a degree.
pub const QUARTER_TURN: i64 = 90_000;

/// Integer division rounding toward zero, as Rust's `/` does.
pub open spec fn tdiv(n: int, d: int) -> int {
    if n >= 0 {
        n / d
    } else {
        -((-n) / d)
    }
}

/// Bhaskara I's rational approximation of `SINE_ONE * sin(pi * p / q)`,
/// for `0 <= p <= q`: `16 u / (5 q^2 - 4 u)` with `u = p (q - p)`.
/// Exact at `p == 0`, `p == q / 2` and `p == q`.
pub open spec fn sine_frac(p: int, q: int) -> int {
    (SINE_ONE * 16 * (p * (q - p))) / (5 * (q * q) - 4 * (p * (q - p)))
}

/// `SINE_ONE * sin(a)` for an angle `a` in thousandths of a degree.
pub open spec fn sine(a: int) -> int {
    let r = a % (FULL_TURN as int);
    if r <= HALF_TURN {
        sine_frac(r, HALF_TURN as int)
    } else {
        -sine_frac(r - HALF_TURN, HALF_TURN as int)
    }
}

/// `SINE_ONE * cos(a)` for an angle `a` in thousandths of a degree.
pub open spec fn cosine(a: int) -> int {
    sine(a + QUARTER_TURN)
}

pub proof fn lemma_sine_frac_bounds(p: int, q: int)
    requires
        0 <= p <= q,
        0 < q,
    ensures
        0 <= p * (q - p) <= q * q,
        4 * (p * (q - p)) <= q * q,
        5 * (q * q) - 4 * (p * (q - p)) > 0,
        0 <= sine_frac(p, q) <= SINE_ONE,
{
    assert(0 <= p * (q - p)) by (nonlinear_arith)
        requires 0 <= p <= q;
    assert(4 * (p * (q - p)) <= q * q) by (nonlinear_arith)
        requires 0 <= p <= q;
    assert(q * q > 0) by (nonlinear_arith)
        requires 0 < q;
    let u = p * (q - p);
    let den = 5 * (q * q) - 4 * u;
    assert(SINE_ONE * 16 * u <= SINE_ONE * den) by (nonlinear_arith)
        requires 4 * u <= q * q, den == 5 * (q * q) - 4 * u, u >= 0;
    assert((SINE_ONE * 16 * u) / den <= (SINE_ONE * den) / den) by (nonlinear_arith)
        requires SINE_ONE * 16 * u <= SINE_ONE * den, den > 0;
    assert((SINE_ONE * den) / den == SINE_ONE) by (nonlinear_arith)
        requires den > 0;
    assert(0 <= (SINE_ONE * 16 * u) / den) by (nonlinear_arith)
        requires u >= 0, den > 0;
}

/// Computes `sine_frac(p, q)`.
pub fn sine_fraction(p: u64, q: u64) -> (r: i64)
    requires
        p <= q,
        0 < q <= 1_000_000_000,
    ensures
        r == sine_frac(p as int, q as int),
        0 <= r <= SINE_ONE,
{
    proof {
        lemma_sine_frac_bounds(p as int, q as int);
        assert(q * q <= 1_000_000_000_000_000_000) by (nonlinear_arith)
            requires 0 < q <= 1_000_000_000;
    }
    let pi = p as i128;
    let qi = q as i128;
    let u: i128 = pi * (qi - pi);
    let den: i128 = 5 * (qi * qi) - 4 * u;
    let num: i128 = (SINE_ONE as i128) * 16 * u;
    let r: i128 = num / den;
    r as i64
}

/// Computes `sine(a)`.
pub fn sin_angle(a: i64) -> (r: i64)
    ensures
        r == sine(a as int),
        -SINE_ONE <= r <= SINE_ONE,
{
    let m = a % FULL_TURN;
    let r: i64 = if m < 0 { m + FULL_TURN } else { m };
    assert(r == a as int % (FULL_TURN as int));
    if r <= HALF_TURN {
        sine_fraction(r as u64, HALF_TURN as u64)
    } else {
        -sine_fraction((r - HALF_TURN) as u64, HALF_TURN as u64)
    }
}

/// Computes `cosine(a)`.
pub fn cos_angle(a: i64) -> (r: i64)
    requires
        a <= COORD_LIMIT,
    ensures
        r == cosine(a as int),
        -SINE_ONE <= r <= SINE_ONE,
{
    sin_angle(a + QUARTER_TURN)
}


/// `|v| <= limit`.
pub open spec fn within(v: int, limit: int) -> bool {
    -limit <= v <= limit
}

/// The value `i / n` of the way from `a` to `b`, rounded toward `a`.
pub open spec fn lerp(a: int, b: int, i: int, n: int) -> int {
    a + tdiv((b - a) * i, n)
}

/// Interpolation lies between its ends and hits them exactly.
pub proof fn lemma_lerp(a: int, b: int, i: int, n: int)
    requires
        0 <= i <= n,
        0 < n,
    ensures
        a <= b ==> a <= lerp(a, b, i, n) <= b,
        b <= a ==> b <= lerp(a, b, i, n) <= a,
        lerp(a, b, 0, n) == a,
        lerp(a, b, n, n) == b,
{
    let d = b - a;
    if d >= 0 {
        assert(0 <= d * i <= d * n) by (nonlinear_arith)
            requires d >= 0, 0 <= i <= n;
        assert((d * i) / n <= (d * n) / n) by (nonlinear_arith)
            requires d * i <= d * n, 0 < n;
        assert((d * n) / n == d) by (nonlinear_arith)
            requires 0 < n;
        assert(0 <= (d * i) / n) by (nonlinear_arith)
            requires 0 <= d * i, 0 < n;
    } else {
        let e = -d;
        assert(0 <= e * i <= e * n) by (nonlinear_arith)
            requires e >= 0, 0 <= i <= n;
        assert((e * i) / n <= (e * n) / n) by (nonlinear_arith)
            requires e * i <= e * n, 0 < n;
        assert((e * n) / n == e) by (nonlinear_arith)
            requires 0 < n;
        assert(0 <= (e * i) / n) by (nonlinear_arith)
            requires 0 <= e * i, 0 < n;
        assert(d * i == -(e * i)) by (nonlinear_arith)
            requires e == -d;
        assert(d * n == -(e * n)) by (nonlinear_arith)
            requires e == -d;
        if i > 0 {
            assert(e * i > 0) by (nonlinear_arith)
                requires e > 0, i > 0;
        }
        assert(e * n > 0) by (nonlinear_arith)
            requires e > 0, n > 0;
    }
    assert(d * 0 == 0);
}

/// Computes `lerp(a, b, i, n)`.
pub fn lerp_coord(a: i64, b: i64, i: usize, n: usize) -> (r: i64)
    requires
        within(a as int, COORD_LIMIT as int),
        within(b as int, COORD_LIMIT as int),
        i <= n,
        0 < n <= MAX_RESOLUTION,
    ensures
        r == lerp(a as int, b as int, i as int, n as int),
        within(r as int, COORD_LIMIT as int),
{
    proof {
        lemma_lerp(a as int, b as int, i as int, n as int);
        let d = b - a;
        assert(-2 * COORD_LIMIT * MAX_RESOLUTION <= d * i <= 2 * COORD_LIMIT * MAX_RESOLUTION)
            by (nonlinear_arith)
            requires
                -2 * COORD_LIMIT <= d <= 2 * COORD_LIMIT,
                0 <= i <= MAX_RESOLUTION,
        ;
    }
    let d: i128 = (b as i128 - a as i128) * (i as i128);
    let q: i128 = d / (n as i128);
    (a as i128 + q) as i64
}

} // verus!
