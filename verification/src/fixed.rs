//! Fixed-point arithmetic kernel.
//!
//! Angles are carried as integers scaled by `FP_SCALE` (one unit is one
//! nanoradian), so every trigonometric quantity lives in plain integer
//! arithmetic.  Each executable function is pinned to a specification
//! function performing the same integer computation, which lets the geodesy
//! layer prove algebraic facts (a zero central angle between equal points,
//! symmetry of the haversine form) once and for all.

use vstd::prelude::*;

verus! {

use vstd::arithmetic::mul::lemma_mul_upper_bound;
use vstd::arithmetic::div_mod::lemma_div_is_ordered;
use vstd::arithmetic::div_mod::lemma_div_is_ordered_by_denominator;

/// One radian expressed in fixed-point units (nanoradians).
pub const FP_SCALE: u64 = 1_000_000_000;

/// The angle pi in nanoradians (rounded to the nearest unit).
pub const PI_NRAD: u64 = 3_141_592_654;

/// The angle pi/2 in nanoradians (rounded to the nearest unit).
pub const HALF_PI_NRAD: u64 = 1_570_796_327;

/// `r` is the integer square root of `n`.
pub open spec fn is_isqrt(n: int, r: int) -> bool {
    0 <= r && r * r <= n && n < (r + 1) * (r + 1)
}

/// The integer square root as a mathematical function.
pub open spec fn spec_isqrt(n: int) -> int {
    choose|r: int| is_isqrt(n, r)
}

/// The integer square root is unique.
pub proof fn lemma_isqrt_unique(n: int, a: int, b: int)
    requires
        is_isqrt(n, a),
        is_isqrt(n, b),
    ensures
        a == b,
{
    if a < b {
        assert((a + 1) * (a + 1) <= b * b) by (nonlinear_arith)
            requires
                0 <= a,
                a + 1 <= b,
        ;
    }
    if b < a {
        assert((b + 1) * (b + 1) <= a * a) by (nonlinear_arith)
            requires
                0 <= b,
                b + 1 <= a,
        ;
    }
}

/// Every nonnegative integer has an integer square root.
pub proof fn lemma_isqrt_exists(n: int)
    requires
        0 <= n,
    ensures
        is_isqrt(n, spec_isqrt(n)),
    decreases n,
{
    if n == 0 {
        assert(is_isqrt(0, 0));
    } else {
        lemma_isqrt_exists(n - 1);
        let r = spec_isqrt(n - 1);
        if (r + 1) * (r + 1) <= n {
            assert(n < (r + 2) * (r + 2)) by (nonlinear_arith)
                requires
                    0 <= r,
                    n - 1 < (r + 1) * (r + 1),
            ;
            assert(is_isqrt(n, r + 1));
        } else {
            assert(is_isqrt(n, r));
        }
    }
    let w = choose|w: int| is_isqrt(n, w);
    lemma_isqrt_unique(n, w, spec_isqrt(n));
}

/// A value shown to be an integer square root equals `spec_isqrt`.
pub proof fn lemma_isqrt_is(n: int, r: int)
    requires
        is_isqrt(n, r),
    ensures
        spec_isqrt(n) == r,
{
    lemma_isqrt_exists(n);
    lemma_isqrt_unique(n, spec_isqrt(n), r);
}

/// Integer square root, by binary search over the root.
pub fn isqrt_u128(n: u128) -> (r: u128)
    ensures
        is_isqrt(n as int, r as int),
        r as int == spec_isqrt(n as int),
        r < 0x1_0000_0000_0000_0000u128,
{
    let mut lo: u128 = 0;
    let mut hi: u128 = if n >= 0x1_0000_0000_0000_0000u128 {
        0x1_0000_0000_0000_0000u128
    } else {
        n + 1
    };
    proof {
        assert((n as int) < (hi as int) * (hi as int)) by (nonlinear_arith)
            requires
                (n as int) < 0x1_0000_0000_0000_0000_0000_0000_0000_0000int || hi == n + 1,
                hi == 0x1_0000_0000_0000_0000u128 || hi == n + 1,
                0 < hi,
        ;
    }
    while lo + 1 < hi
        invariant
            lo < hi,
            hi <= 0x1_0000_0000_0000_0000u128,
            (lo as int) * (lo as int) <= n as int,
            (n as int) < (hi as int) * (hi as int),
        decreases hi - lo,
    {
        let mid = lo + (hi - lo) / 2;
        proof {
            assert((mid as int) * (mid as int) < 0x1_0000_0000_0000_0000_0000_0000_0000_0000int)
                by (nonlinear_arith)
                requires
                    (mid as int) < 0x1_0000_0000_0000_0000int,
                    0 <= mid as int,
            ;
        }
        if mid * mid <= n {
            lo = mid;
        } else {
            hi = mid;
        }
    }
    proof {
        lemma_isqrt_is(n as int, lo as int);
    }
    lo
}

/// The calibration width at the top of the sine's range: a series value
/// within this many units of `FP_SCALE` stands for a sine of one.
///
/// The truncated series at pi/2 falls short of the scale by its omitted
/// tail (a few tens of units); snapping that band to the scale makes the
/// sine of a right angle exactly one, so the cosine of a zero angle is
/// exactly one and a zero-angle slant range equals the altitude with no
/// residue.  The snap moves no value by more than two parts in ten million.
pub const SIN_ONE_BAND: u64 = 200;

/// Sine on the first quadrant, as nested truncated-series integer arithmetic.
///
/// `x` is in nanoradians with `0 <= x <= HALF_PI_NRAD`; the result is the
/// sine scaled by `FP_SCALE`, with the top `SIN_ONE_BAND` units calibrated
/// to the scale itself.
pub open spec fn sin_q(x: int) -> int {
    let s = FP_SCALE as int;
    let t = x * x / s;
    let f4 = s - t / 110;
    let f3 = s - t * f4 / (72 * s);
    let f2 = s - t * f3 / (42 * s);
    let f1 = s - t * f2 / (20 * s);
    let f0 = s - t * f1 / (6 * s);
    let v = x * f0 / s;
    if v > s - SIN_ONE_BAND {
        s
    } else {
        v
    }
}

/// Executable counterpart of `sin_q`.
pub fn sin_quarter(x: u64) -> (r: u64)
    requires
        x <= HALF_PI_NRAD,
    ensures
        r as int == sin_q(x as int),
        r <= FP_SCALE,
{
    let s: u128 = FP_SCALE as u128;
    let xw: u128 = x as u128;
    proof {
        lemma_mul_upper_bound(xw as int, HALF_PI_NRAD as int, xw as int, HALF_PI_NRAD as int);
        lemma_div_is_ordered(
            (xw as int) * (xw as int),
            (HALF_PI_NRAD as int) * (HALF_PI_NRAD as int),
            s as int,
        );
    }
    let t: u128 = xw * xw / s;
    assert(t <= 2_467_401_100u128);
    let f4: u128 = s - t / 110;
    proof {
        lemma_mul_upper_bound(t as int, 2_467_401_100int, f4 as int, s as int);
        lemma_div_is_ordered(
            (t as int) * (f4 as int),
            2_467_401_100int * (s as int),
            72 * (s as int),
        );
    }
    let f3: u128 = s - t * f4 / (72 * s);
    proof {
        lemma_mul_upper_bound(t as int, 2_467_401_100int, f3 as int, s as int);
        lemma_div_is_ordered(
            (t as int) * (f3 as int),
            2_467_401_100int * (s as int),
            42 * (s as int),
        );
    }
    let f2: u128 = s - t * f3 / (42 * s);
    proof {
        lemma_mul_upper_bound(t as int, 2_467_401_100int, f2 as int, s as int);
        lemma_div_is_ordered(
            (t as int) * (f2 as int),
            2_467_401_100int * (s as int),
            20 * (s as int),
        );
    }
    let f1: u128 = s - t * f2 / (20 * s);
    proof {
        lemma_mul_upper_bound(t as int, 2_467_401_100int, f1 as int, s as int);
        lemma_div_is_ordered(
            (t as int) * (f1 as int),
            2_467_401_100int * (s as int),
            6 * (s as int),
        );
    }
    let f0: u128 = s - t * f1 / (6 * s);
    proof {
        lemma_mul_upper_bound(xw as int, HALF_PI_NRAD as int, f0 as int, s as int);
    }
    let v: u128 = xw * f0 / s;
    if v > s - SIN_ONE_BAND as u128 {
        FP_SCALE
    } else {
        v as u64
    }
}

/// Sine on `[0, pi]` in nanoradians, by reflection about pi/2.
pub open spec fn sin_h(x: int) -> int {
    if x <= HALF_PI_NRAD as int {
        sin_q(x)
    } else {
        sin_q(PI_NRAD as int - x)
    }
}

/// Executable counterpart of `sin_h`.
pub fn sin_half(x: u64) -> (r: u64)
    requires
        x <= PI_NRAD,
    ensures
        r as int == sin_h(x as int),
        r <= FP_SCALE,
{
    if x <= HALF_PI_NRAD {
        sin_quarter(x)
    } else {
        sin_quarter(PI_NRAD - x)
    }
}

/// One arctangent argument-halving step: tan(a/2) from tan(a), both scaled.
pub open spec fn atan_halve(z: int) -> int {
    let s = FP_SCALE as int;
    z * s / (s + spec_isqrt(s * s + z * z))
}

/// Truncated arctangent series for a small scaled argument.
pub open spec fn atan_series(w: int) -> int {
    let s = FP_SCALE as int;
    let u = w * w / s;
    let t3 = u * w / s / 3;
    let t5 = (u * u / s) * w / s / 5;
    w - (t3 - t5)
}

/// Arctangent of `z / FP_SCALE` in nanoradians, for nonnegative `z`,
/// clamped to the principal bound pi/2.
pub open spec fn atan_pos_spec(z: int) -> int {
    let w = atan_halve(atan_halve(atan_halve(atan_halve(atan_halve(atan_halve(z))))));
    let r = 64 * atan_series(w);
    if r > HALF_PI_NRAD as int {
        HALF_PI_NRAD as int
    } else {
        r
    }
}

/// Executable halving step; keeps the argument below `FP_SCALE` once there.
fn atan_halve_exec(z: u128) -> (r: u128)
    requires
        z < 0x8000_0000_0000_0000u128,
    ensures
        r as int == atan_halve(z as int),
        r <= z,
        r <= FP_SCALE as u128,
{
    let s: u128 = FP_SCALE as u128;
    proof {
        lemma_mul_upper_bound(z as int, 0x8000_0000_0000_0000int, z as int, 0x8000_0000_0000_0000int);
    }
    let q = isqrt_u128(s * s + z * z);
    proof {
        // the root is at least z and at least the scale, so the divisor
        // exceeds both `s + z` and `2 s`
        assert((z as int) * (z as int) <= (s as int) * (s as int) + (z as int) * (z as int));
        if (q as int) < z as int {
            assert((q as int + 1) * (q as int + 1) <= (z as int) * (z as int)) by (nonlinear_arith)
                requires
                    0 <= q as int,
                    q as int + 1 <= z as int,
            ;
        }
        assert(q as int >= z as int);
        lemma_mul_upper_bound(z as int, z as int, s as int, s as int);
        lemma_div_is_ordered_by_denominator(
            (z as int) * (s as int),
            (s as int) + (z as int),
            (s as int) + (q as int),
        );
        assert((z as int) * (s as int) <= ((s as int) + (z as int)) * (s as int))
            by (nonlinear_arith)
            requires
                0 <= z as int,
                0 < s as int,
        ;
        lemma_div_is_ordered(
            (z as int) * (s as int),
            ((s as int) + (z as int)) * (s as int),
            (s as int) + (z as int),
        );
        assert((((s as int) + (z as int)) * (s as int)) / ((s as int) + (z as int)) == s as int)
            by (nonlinear_arith)
            requires
                0 < (s as int) + (z as int),
        ;
        // the result never grows: the divisor is at least the scale
        assert((z as int) * (s as int) / ((s as int) + (q as int)) <= z as int)
            by (nonlinear_arith)
            requires
                0 <= z as int,
                0 < s as int,
                0 <= q as int,
        ;
    }
    z * s / (s + q)
}

/// Executable truncated arctangent series.
fn atan_series_exec(w: u128) -> (r: u128)
    requires
        w <= FP_SCALE as u128,
    ensures
        r as int == atan_series(w as int),
        r <= w,
{
    let s: u128 = FP_SCALE as u128;
    proof {
        lemma_mul_upper_bound(w as int, s as int, w as int, s as int);
        assert((w as int) * (w as int) <= (w as int) * (s as int)) by (nonlinear_arith)
            requires
                0 <= w as int,
                w as int <= s as int,
        ;
        lemma_div_is_ordered((w as int) * (w as int), (w as int) * (s as int), s as int);
        assert((w as int) * (s as int) / (s as int) == w as int) by (nonlinear_arith)
            requires
                0 < s as int,
        ;
    }
    let u = w * w / s;
    assert(u <= w);
    proof {
        lemma_mul_upper_bound(u as int, s as int, w as int, s as int);
        lemma_mul_upper_bound(u as int, s as int, u as int, s as int);
    }
    let t3 = u * w / s / 3;
    let u2 = u * u / s;
    proof {
        // u2 <= u, so the fifth-order numerator is below the third-order one
        assert((u as int) * (u as int) <= (u as int) * (s as int)) by (nonlinear_arith)
            requires
                0 <= u as int,
                u as int <= s as int,
        ;
        lemma_div_is_ordered((u as int) * (u as int), (u as int) * (s as int), s as int);
        assert((u as int) * (s as int) / (s as int) == u as int) by (nonlinear_arith)
            requires
                0 < s as int,
        ;
        assert(u2 <= u);
        lemma_mul_upper_bound(u2 as int, u as int, w as int, w as int);
        assert((u2 as int) * (w as int) <= (u as int) * (w as int)) by (nonlinear_arith)
            requires
                0 <= u2 as int,
                u2 as int <= u as int,
                0 <= w as int,
        ;
        lemma_div_is_ordered((u2 as int) * (w as int), (u as int) * (w as int), s as int);
        lemma_div_is_ordered_by_denominator((u as int) * (w as int) / (s as int), 3, 5);
        // t3 itself stays below w
        assert((u as int) * (w as int) <= (w as int) * (s as int)) by (nonlinear_arith)
            requires
                0 <= u as int,
                u as int <= s as int,
                0 <= w as int,
        ;
        lemma_div_is_ordered((u as int) * (w as int), (w as int) * (s as int), s as int);
        assert((w as int) * (s as int) / (s as int) == w as int) by (nonlinear_arith)
            requires
                0 < s as int,
        ;
        lemma_div_is_ordered_by_denominator(w as int, 1, 3);
    }
    let t5 = u2 * w / s / 5;
    assert(t5 <= t3);
    assert(t3 <= w);
    w - (t3 - t5)
}

/// Arctangent of `z / FP_SCALE` in nanoradians for nonnegative `z`.
pub fn atan_pos(z: u128) -> (r: u64)
    requires
        z < 0x8000_0000_0000_0000u128,
    ensures
        r as int == atan_pos_spec(z as int),
        r <= HALF_PI_NRAD,
{
    let z1 = atan_halve_exec(z);
    let z2 = atan_halve_exec(z1);
    let z3 = atan_halve_exec(z2);
    let z4 = atan_halve_exec(z3);
    let z5 = atan_halve_exec(z4);
    let w = atan_halve_exec(z5);
    let t = atan_series_exec(w);
    let r = 64 * t;
    if r > HALF_PI_NRAD as u128 {
        HALF_PI_NRAD
    } else {
        r as u64
    }
}

/// Arcsine of `m / FP_SCALE` in nanoradians, for `0 <= m <= FP_SCALE`.
pub open spec fn asin_spec(m: int) -> int {
    let s = FP_SCALE as int;
    if m >= s {
        HALF_PI_NRAD as int
    } else {
        atan_pos_spec(m * s / spec_isqrt((s - m) * (s + m)))
    }
}

/// Executable counterpart of `asin_spec`.
pub fn asin_mag(m: u64) -> (r: u64)
    requires
        m <= FP_SCALE,
    ensures
        r as int == asin_spec(m as int),
        r <= HALF_PI_NRAD,
{
    let s: u128 = FP_SCALE as u128;
    if m >= FP_SCALE {
        HALF_PI_NRAD
    } else {
        let mw = m as u128;
        proof {
            lemma_mul_upper_bound((s - mw) as int, s as int, (s + mw) as int, 2 * s as int);
        }
        let den = isqrt_u128((s - mw) * (s + mw));
        proof {
            assert(((s - mw) as int) * ((s + mw) as int) >= 1) by (nonlinear_arith)
                requires
                    1 <= (s - mw) as int,
                    1 <= (s + mw) as int,
            ;
            if den == 0 {
                assert((den as int + 1) * (den as int + 1) == 1);
            }
            assert(den >= 1);
            lemma_mul_upper_bound(mw as int, s as int, s as int, s as int);
            lemma_div_is_ordered_by_denominator((mw as int) * (s as int), 1, den as int);
        }
        let z = mw * s / den;
        atan_pos(z)
    }
}

/// The arctangent of zero is zero: every halving step keeps a zero
/// argument at zero and the series of zero is zero.
pub proof fn lemma_atan_zero()
    ensures
        atan_pos_spec(0) == 0,
{
    let s = FP_SCALE as int;
    lemma_isqrt_is(s * s, s);
    assert(s * s + 0 * 0 == s * s) by (nonlinear_arith);
    assert(atan_halve(0) == 0 * s / (s + spec_isqrt(s * s + 0 * 0)));
    assert(atan_halve(0) == 0);
    assert(atan_series(0) == 0);
}

/// The calibrated sine of a right angle is exactly one: the series value
/// at `HALF_PI_NRAD` lies inside the top calibration band.
pub proof fn lemma_sin_right_angle()
    ensures
        sin_q(HALF_PI_NRAD as int) == FP_SCALE,
{
    let s = FP_SCALE as int;
    let x = HALF_PI_NRAD as int;
    assert(1_570_796_327int * 1_570_796_327int == 2_467_401_100_916_690_929int)
        by (nonlinear_arith);
    assert(2_467_401_100_916_690_929int / 1_000_000_000int == 2_467_401_100int);
    let t = x * x / s;
    assert(t == 2_467_401_100int);
    assert(2_467_401_100int / 110int == 22_430_919int);
    let f4 = s - t / 110;
    assert(f4 == 977_569_081int);
    assert(t * f4 == 2_412_055_025_785_389_100int) by (nonlinear_arith)
        requires
            t == 2_467_401_100int,
            f4 == 977_569_081int,
    ;
    assert(2_412_055_025_785_389_100int / 72_000_000_000int == 33_500_764int);
    let f3 = s - t * f4 / (72 * s);
    assert(f3 == 966_499_236int);
    assert(t * f3 == 2_384_741_278_055_559_600int) by (nonlinear_arith)
        requires
            t == 2_467_401_100int,
            f3 == 966_499_236int,
    ;
    assert(2_384_741_278_055_559_600int / 42_000_000_000int == 56_779_554int);
    let f2 = s - t * f3 / (42 * s);
    assert(f2 == 943_220_446int);
    assert(t * f2 == 2_327_303_166_002_890_600int) by (nonlinear_arith)
        requires
            t == 2_467_401_100int,
            f2 == 943_220_446int,
    ;
    assert(2_327_303_166_002_890_600int / 20_000_000_000int == 116_365_158int);
    let f1 = s - t * f2 / (20 * s);
    assert(f1 == 883_634_842int);
    assert(t * f1 == 2_180_281_581_149_126_200int) by (nonlinear_arith)
        requires
            t == 2_467_401_100int,
            f1 == 883_634_842int,
    ;
    assert(2_180_281_581_149_126_200int / 6_000_000_000int == 363_380_263int);
    let f0 = s - t * f1 / (6 * s);
    assert(f0 == 636_619_737int);
    assert(x * f0 == 999_999_944_575_305_999int) by (nonlinear_arith)
        requires
            x == 1_570_796_327int,
            f0 == 636_619_737int,
    ;
    assert(999_999_944_575_305_999int / 1_000_000_000int == 999_999_944int);
    assert(x * f0 / s == 999_999_944int);
}

} // verus!
