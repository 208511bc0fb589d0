//! Geodesic and slant-range distance computations.
//!
//! Coordinates are geodetic latitude/longitude in nanodegrees (degrees
//! scaled by 10^9, signed), altitudes and distances in metres.  The central
//! angle between two points comes from the haversine form; the ground-to-space
//! slant range from the law of cosines on the triangle made of the Earth
//! centre, the ground point and the satellite.

use vstd::prelude::*;

verus! {

use crate::fixed::FP_SCALE;
use crate::fixed::HALF_PI_NRAD;
use crate::fixed::PI_NRAD;
use crate::fixed::sin_q;
use crate::fixed::sin_h;
use crate::fixed::asin_spec;
use crate::fixed::spec_isqrt;
use crate::fixed::lemma_isqrt_is;
use crate::fixed::sin_quarter;
use crate::fixed::sin_half;
use crate::fixed::asin_mag;
use crate::fixed::isqrt_u128;
use vstd::arithmetic::mul::lemma_mul_upper_bound;
use vstd::arithmetic::div_mod::lemma_div_is_ordered;

/// One degree in nanodegrees.
pub const NANODEG: i64 = 1_000_000_000;

/// Mean Earth radius in metres, as used by the haversine distance.
pub const EARTH_RADIUS_M: u64 = 6_371_000;

/// pi / 180 scaled by 10^15: converts nanodegrees to nanoradians.
pub const DEG_TO_RAD_E15: u64 = 17_453_292_519_943;

/// Magnitude conversion from nanodegrees to nanoradians.
pub open spec fn deg_to_nrad(d: int) -> int {
    d * DEG_TO_RAD_E15 as int / 1_000_000_000_000_000int
}

/// Signed conversion from nanodegrees to nanoradians.
pub open spec fn deg_to_nrad_signed(d: int) -> int {
    if d >= 0 {
        deg_to_nrad(d)
    } else {
        -deg_to_nrad(-d)
    }
}

/// Executable magnitude conversion.
fn deg_mag_to_nrad(d: u64) -> (r: u64)
    requires
        d <= 360_000_000_000u64,
    ensures
        r as int == deg_to_nrad(d as int),
        r <= 6_283_185_307u64,
        d <= 90_000_000_000u64 ==> r <= HALF_PI_NRAD,
        d <= 180_000_000_000u64 ==> r <= PI_NRAD,
{
    proof {
        lemma_mul_upper_bound(d as int, 360_000_000_000int, DEG_TO_RAD_E15 as int, DEG_TO_RAD_E15 as int);
        lemma_div_is_ordered(
            (d as int) * (DEG_TO_RAD_E15 as int),
            360_000_000_000int * (DEG_TO_RAD_E15 as int),
            1_000_000_000_000_000int,
        );
        if d <= 90_000_000_000u64 {
            lemma_mul_upper_bound(d as int, 90_000_000_000int, DEG_TO_RAD_E15 as int, DEG_TO_RAD_E15 as int);
            lemma_div_is_ordered(
                (d as int) * (DEG_TO_RAD_E15 as int),
                90_000_000_000int * (DEG_TO_RAD_E15 as int),
                1_000_000_000_000_000int,
            );
        }
        if d <= 180_000_000_000u64 {
            lemma_mul_upper_bound(d as int, 180_000_000_000int, DEG_TO_RAD_E15 as int, DEG_TO_RAD_E15 as int);
            lemma_div_is_ordered(
                (d as int) * (DEG_TO_RAD_E15 as int),
                180_000_000_000int * (DEG_TO_RAD_E15 as int),
                1_000_000_000_000_000int,
            );
        }
    }
    ((d as u128) * (DEG_TO_RAD_E15 as u128) / 1_000_000_000_000_000u128) as u64
}

/// A latitude is within the geodetic range, a longitude within a full turn.
pub open spec fn valid_coord(c: (i64, i64)) -> bool {
    -90_000_000_000 <= c.0 <= 90_000_000_000 && -180_000_000_000 <= c.1 <= 180_000_000_000
}

/// Magnitude of the difference of two signed integers.
pub open spec fn abs_diff(a: int, b: int) -> int {
    if b >= a {
        b - a
    } else {
        a - b
    }
}

/// Cosine of a latitude given in nanoradians magnitude (first quadrant).
pub open spec fn cos_lat(m: int) -> int {
    sin_q(HALF_PI_NRAD as int - m)
}

/// The haversine central angle between two geodetic coordinates, in
/// nanoradians.  Mirrors the executable computation exactly.
pub open spec fn spec_geodegree(coord1: (i64, i64), coord2: (i64, i64)) -> int {
    let s = FP_SCALE as int;
    let phi1 = deg_to_nrad_signed(coord1.0 as int);
    let phi2 = deg_to_nrad_signed(coord2.0 as int);
    let lam1 = deg_to_nrad_signed(coord1.1 as int);
    let lam2 = deg_to_nrad_signed(coord2.1 as int);
    let dphi = abs_diff(phi1, phi2);
    let dlam = abs_diff(lam1, lam2);
    let sh1 = sin_q(dphi / 2);
    let sh2 = sin_h(dlam / 2);
    let c1 = cos_lat(if coord1.0 >= 0 { phi1 } else { -phi1 });
    let c2 = cos_lat(if coord2.0 >= 0 { phi2 } else { -phi2 });
    let a0 = sh1 * sh1 / s + (c1 * c2 / s) * (sh2 * sh2 / s) / s;
    let a = if a0 > s { s } else { a0 };
    2 * asin_spec(spec_isqrt(a * s))
}

/// Haversine great-circle distance in metres over the mean Earth radius.
pub open spec fn spec_distance(coord1: (i64, i64), coord2: (i64, i64)) -> int {
    EARTH_RADIUS_M as int * spec_geodegree(coord1, coord2) / (FP_SCALE as int)
}

/// Signed executable conversion, returning the nanoradian value and its
/// magnitude.
fn coord_to_nrad(d: i64) -> (r: (i64, u64))
    requires
        -360_000_000_000 <= d <= 360_000_000_000,
    ensures
        r.0 as int == deg_to_nrad_signed(d as int),
        r.1 as int == (if d >= 0 { r.0 as int } else { -(r.0 as int) }),
        r.1 <= 6_283_185_307u64,
        -90_000_000_000 <= d <= 90_000_000_000 ==> r.1 <= HALF_PI_NRAD,
        -180_000_000_000 <= d <= 180_000_000_000 ==> r.1 <= PI_NRAD,
{
    if d >= 0 {
        let m = deg_mag_to_nrad(d as u64);
        (m as i64, m)
    } else {
        let m = deg_mag_to_nrad((-d) as u64);
        (-(m as i64), m)
    }
}

/// Returns the angle (radians) subtended at the Earth centre by two
/// geodetic coordinates, via the haversine formula.
///
/// Coordinates are `(latitude, longitude)` in nanodegrees; the result is in
/// nanoradians and never exceeds pi.
pub fn geodegree(coord1: (i64, i64), coord2: (i64, i64)) -> (r: u64)
    requires
        valid_coord(coord1),
        valid_coord(coord2),
    ensures
        r as int == spec_geodegree(coord1, coord2),
        r <= PI_NRAD,
{
    let s: u128 = FP_SCALE as u128;
    let (phi1, m1) = coord_to_nrad(coord1.0);
    let (phi2, m2) = coord_to_nrad(coord2.0);
    let (lam1, _) = coord_to_nrad(coord1.1);
    let (lam2, _) = coord_to_nrad(coord2.1);
    let dphi: u64 = if phi2 >= phi1 {
        (phi2 - phi1) as u64
    } else {
        (phi1 - phi2) as u64
    };
    let dlam: u64 = if lam2 >= lam1 {
        (lam2 - lam1) as u64
    } else {
        (lam1 - lam2) as u64
    };
    let sh1 = sin_quarter(dphi / 2);
    let sh2 = sin_half(dlam / 2);
    let c1 = sin_quarter(HALF_PI_NRAD - m1);
    let c2 = sin_quarter(HALF_PI_NRAD - m2);
    proof {
        lemma_mul_upper_bound(sh1 as int, s as int, sh1 as int, s as int);
        lemma_mul_upper_bound(c1 as int, s as int, c2 as int, s as int);
        lemma_mul_upper_bound(sh2 as int, s as int, sh2 as int, s as int);
        lemma_div_is_ordered((sh1 as int) * (sh1 as int), (s as int) * (s as int), s as int);
        lemma_div_is_ordered((c1 as int) * (c2 as int), (s as int) * (s as int), s as int);
        lemma_div_is_ordered((sh2 as int) * (sh2 as int), (s as int) * (s as int), s as int);
        lemma_mul_upper_bound(
            ((c1 as int) * (c2 as int) / (s as int)),
            s as int,
            ((sh2 as int) * (sh2 as int) / (s as int)),
            s as int,
        );
    }
    let a0: u128 = (sh1 as u128) * (sh1 as u128) / s
        + ((c1 as u128) * (c2 as u128) / s) * ((sh2 as u128) * (sh2 as u128) / s) / s;
    let a: u128 = if a0 > s {
        s
    } else {
        a0
    };
    proof {
        lemma_mul_upper_bound(a as int, s as int, s as int, s as int);
    }
    let root = isqrt_u128(a * s);
    proof {
        if root as int > FP_SCALE as int {
            assert((s as int) * (s as int) < (root as int) * (root as int)) by (nonlinear_arith)
                requires
                    (s as int) < (root as int),
                    0 <= s as int,
            ;
        }
    }
    let c = 2 * asin_mag(root as u64);
    c
}

/// Returns the great-circle distance in metres between two geodetic
/// coordinates given as `(latitude, longitude)` in nanodegrees.
pub fn distance(coord1: (i64, i64), coord2: (i64, i64)) -> (r: u64)
    requires
        valid_coord(coord1),
        valid_coord(coord2),
    ensures
        r as int == spec_distance(coord1, coord2),
        r <= 20_015_087u64,
{
    let c = geodegree(coord1, coord2);
    proof {
        lemma_mul_upper_bound(EARTH_RADIUS_M as int, EARTH_RADIUS_M as int, c as int, PI_NRAD as int);
        lemma_div_is_ordered(
            (EARTH_RADIUS_M as int) * (c as int),
            (EARTH_RADIUS_M as int) * (PI_NRAD as int),
            FP_SCALE as int,
        );
    }
    ((EARTH_RADIUS_M as u128) * (c as u128) / (FP_SCALE as u128)) as u64
}

/// Cosine of an angle in `[0, pi]` nanoradians, scaled by `FP_SCALE`,
/// by reflection of the first-quadrant sine.
pub open spec fn cos_h(x: int) -> int {
    if x <= HALF_PI_NRAD as int {
        sin_q(HALF_PI_NRAD as int - x)
    } else {
        -sin_q(x - HALF_PI_NRAD as int)
    }
}

/// The third side of a triangle with sides `a` and `b` (metres) enclosing
/// the angle `theta` (nanoradians), by the law of cosines.
pub open spec fn spec_trangle_distance(a: int, b: int, theta: int) -> int {
    let s = FP_SCALE as int;
    let cs = cos_h(theta);
    let sq = if cs >= 0 {
        a * a + b * b - 2 * a * b * cs / s
    } else {
        a * a + b * b + 2 * a * b * (-cs) / s
    };
    spec_isqrt(sq)
}

/// Returns the length (metres) of the side opposite `theta` in a triangle
/// whose other sides are `a` and `b` metres.
pub fn trangle_distance(a: u64, b: u64, theta: u64) -> (r: u64)
    requires
        a <= 1_000_000_000_000u64,
        b <= 1_000_000_000_000u64,
        theta <= PI_NRAD,
    ensures
        r as int == spec_trangle_distance(a as int, b as int, theta as int),
        r <= 2_000_000_000_000u64,
{
    let s: u128 = FP_SCALE as u128;
    let (cs, neg): (u64, bool) = if theta <= HALF_PI_NRAD {
        (sin_quarter(HALF_PI_NRAD - theta), false)
    } else {
        (sin_quarter(theta - HALF_PI_NRAD), true)
    };
    let aw = a as u128;
    let bw = b as u128;
    proof {
        lemma_mul_upper_bound(aw as int, 1_000_000_000_000int, bw as int, 1_000_000_000_000int);
        lemma_mul_upper_bound(aw as int, 1_000_000_000_000int, aw as int, 1_000_000_000_000int);
        lemma_mul_upper_bound(bw as int, 1_000_000_000_000int, bw as int, 1_000_000_000_000int);
    }
    let ab: u128 = aw * bw;
    proof {
        lemma_mul_upper_bound(
            2 * (ab as int),
            2_000_000_000_000_000_000_000_000int,
            cs as int,
            s as int,
        );
        // the subtracted cosine term never exceeds a^2 + b^2
        assert(2 * (ab as int) * (cs as int) <= ((aw as int) * (aw as int) + (bw as int) * (bw
            as int)) * (s as int)) by (nonlinear_arith)
            requires
                ab as int == (aw as int) * (bw as int),
                0 <= aw as int,
                0 <= bw as int,
                0 <= cs as int,
                cs as int <= s as int,
                0 < s as int,
        ;
        lemma_div_is_ordered(
            2 * (ab as int) * (cs as int),
            ((aw as int) * (aw as int) + (bw as int) * (bw as int)) * (s as int),
            s as int,
        );
        assert((((aw as int) * (aw as int) + (bw as int) * (bw as int)) * (s as int)) / (s
            as int) == (aw as int) * (aw as int) + (bw as int) * (bw as int))
            by (nonlinear_arith)
            requires
                0 < s as int,
        ;
    }
    let prod: u128 = 2 * ab * (cs as u128) / s;
    let sq: u128 = if !neg {
        aw * aw + bw * bw - prod
    } else {
        aw * aw + bw * bw + prod
    };
    let root = isqrt_u128(sq);
    proof {
        assert(2 * (a as int) * (b as int) == 2 * (ab as int)) by (nonlinear_arith)
            requires
                ab as int == (aw as int) * (bw as int),
                aw as int == a as int,
                bw as int == b as int,
        ;
        let csp = cos_h(theta as int);
        if !neg {
            assert(csp == cs as int);
            assert(prod as int == 2 * (a as int) * (b as int) * csp / (FP_SCALE as int));
            assert(sq as int == (a as int) * (a as int) + (b as int) * (b as int) - 2 * (a
                as int) * (b as int) * csp / (FP_SCALE as int));
        } else {
            assert(csp == -(cs as int));
            assert(prod as int == 2 * (a as int) * (b as int) * (-csp) / (FP_SCALE as int));
            assert(sq as int == (a as int) * (a as int) + (b as int) * (b as int) + 2 * (a
                as int) * (b as int) * (-csp) / (FP_SCALE as int));
            if csp >= 0 {
                assert(csp == 0);
                assert(sq as int == (a as int) * (a as int) + (b as int) * (b as int) - 2 * (a
                    as int) * (b as int) * csp / (FP_SCALE as int));
            }
        }
        if root as int > 2_000_000_000_000int {
            assert(4_000_000_000_000_000_000_000_000int < (root as int) * (root as int))
                by (nonlinear_arith)
                requires
                    2_000_000_000_000int < root as int,
            ;
        }
    }
    root as u64
}

/// Slant range from a ground point to a satellite, in metres.
///
/// `ground_station` is `(latitude, longitude)` in nanodegrees; `satellite`
/// is `(latitude, longitude, altitude)` with the altitude in metres.  The
/// range is the law-of-cosines side between the ground point at the Earth
/// radius and the satellite at the Earth radius plus its altitude, enclosing
/// the haversine central angle of their ground tracks.
pub open spec fn spec_ground_space_distance(ground_station: (i64, i64), satellite: (i64, i64, u64)) -> int {
    let theta = spec_geodegree(ground_station, (satellite.0, satellite.1));
    spec_trangle_distance(
        satellite.2 as int + EARTH_RADIUS_M as int,
        EARTH_RADIUS_M as int,
        theta,
    )
}

/// Executable counterpart of `spec_ground_space_distance`.
pub fn ground_space_distance(ground_station: (i64, i64), satellite: (i64, i64, u64)) -> (r: u64)
    requires
        valid_coord(ground_station),
        valid_coord((satellite.0, satellite.1)),
        satellite.2 <= 100_000_000_000u64,
    ensures
        r as int == spec_ground_space_distance(ground_station, satellite),
        r <= 2_000_000_000_000u64,
{
    let theta = geodegree(ground_station, (satellite.0, satellite.1));
    trangle_distance(satellite.2 + EARTH_RADIUS_M, EARTH_RADIUS_M, theta)
}

/// Straight-line distance in metres between two points of a shared
/// Cartesian frame, coordinates in metres.
pub open spec fn spec_space_space_distance(p1: (i64, i64, i64), p2: (i64, i64, i64)) -> int {
    let dx = abs_diff(p1.0 as int, p2.0 as int);
    let dy = abs_diff(p1.1 as int, p2.1 as int);
    let dz = abs_diff(p1.2 as int, p2.2 as int);
    spec_isqrt(dx * dx + dy * dy + dz * dz)
}

/// A Cartesian position lies within the engine's working envelope.
pub open spec fn valid_position(p: (i64, i64, i64)) -> bool {
    -1_000_000_000_000 <= p.0 <= 1_000_000_000_000
        && -1_000_000_000_000 <= p.1 <= 1_000_000_000_000
        && -1_000_000_000_000 <= p.2 <= 1_000_000_000_000
}

/// Executable straight-line distance between two Cartesian positions.
pub fn space_space_distance(p1: (i64, i64, i64), p2: (i64, i64, i64)) -> (r: u64)
    requires
        valid_position(p1),
        valid_position(p2),
    ensures
        r as int == spec_space_space_distance(p1, p2),
        r <= 3_464_101_615_138u64,
{
    let dx: u128 = if p2.0 >= p1.0 {
        (p2.0 - p1.0) as u128
    } else {
        (p1.0 - p2.0) as u128
    };
    let dy: u128 = if p2.1 >= p1.1 {
        (p2.1 - p1.1) as u128
    } else {
        (p1.1 - p2.1) as u128
    };
    let dz: u128 = if p2.2 >= p1.2 {
        (p2.2 - p1.2) as u128
    } else {
        (p1.2 - p2.2) as u128
    };
    proof {
        lemma_mul_upper_bound(dx as int, 2_000_000_000_000int, dx as int, 2_000_000_000_000int);
        lemma_mul_upper_bound(dy as int, 2_000_000_000_000int, dy as int, 2_000_000_000_000int);
        lemma_mul_upper_bound(dz as int, 2_000_000_000_000int, dz as int, 2_000_000_000_000int);
    }
    let sq: u128 = dx * dx + dy * dy + dz * dz;
    let root = isqrt_u128(sq);
    proof {
        if root as int > 3_464_101_615_138int {
            assert(12_000_000_000_000_000_000_000_000int < (root as int) * (root as int))
                by (nonlinear_arith)
                requires
                    3_464_101_615_138int < root as int,
            ;
        }
    }
    root as u64
}

/// WGS84 semi-major axis in metres.
pub const WGS84_A_M: u64 = 6_378_137;

/// Square of the first WGS84 eccentricity, scaled by 10^12.
pub const WGS84_E2_E12: u64 = 6_694_379_990;

/// 180 / pi scaled by 10^12: converts nanoradians to nanodegrees.
pub const RAD_TO_DEG_E12: u64 = 57_295_779_513_082;

/// Magnitude conversion from nanoradians to nanodegrees, clamped to `cap`.
pub open spec fn nrad_to_ndeg_capped(m: int, cap: int) -> int {
    let d = m * RAD_TO_DEG_E12 as int / 1_000_000_000_000int;
    if d > cap {
        cap
    } else {
        d
    }
}

/// Four-quadrant arctangent in nanoradians, mirroring the executable
/// integer computation; the result lies in `[-pi, pi]`.
pub open spec fn spec_atan2(y: int, x: int) -> int {
    let ay = if y >= 0 { y } else { -y };
    let ax = if x >= 0 { x } else { -x };
    let base = if ax == 0 && ay == 0 {
        0
    } else if ax == 0 {
        HALF_PI_NRAD as int
    } else {
        crate::fixed::atan_pos_spec(ay * FP_SCALE as int / ax)
    };
    let mag = if x >= 0 {
        base
    } else {
        PI_NRAD as int - base
    };
    if y >= 0 {
        mag
    } else {
        -mag
    }
}

/// Executable four-quadrant arctangent; arguments are plain lengths
/// (metres), the result is in nanoradians.
pub fn atan2_nrad(y: i64, x: i64) -> (r: i64)
    requires
        -1_000_000_000 <= y <= 1_000_000_000,
        -1_000_000_000 <= x <= 1_000_000_000,
    ensures
        r as int == spec_atan2(y as int, x as int),
        -(PI_NRAD as int) <= r as int <= PI_NRAD as int,
{
    let ay: u64 = if y >= 0 {
        y as u64
    } else {
        (-y) as u64
    };
    let ax: u64 = if x >= 0 {
        x as u64
    } else {
        (-x) as u64
    };
    let base: u64 = if ax == 0 && ay == 0 {
        0
    } else if ax == 0 {
        HALF_PI_NRAD
    } else {
        proof {
            lemma_mul_upper_bound(ay as int, 1_000_000_000int, FP_SCALE as int, FP_SCALE as int);
            lemma_div_is_ordered(
                (ay as int) * (FP_SCALE as int),
                1_000_000_000_000_000_000int,
                ax as int,
            );
        }
        crate::fixed::atan_pos((ay as u128) * (FP_SCALE as u128) / (ax as u128))
    };
    let mag: u64 = if x >= 0 {
        base
    } else {
        PI_NRAD - base
    };
    if y >= 0 {
        mag as i64
    } else {
        -(mag as i64)
    }
}

/// Closed-form conversion from Earth-fixed Cartesian coordinates (metres)
/// to geodetic latitude and longitude (nanodegrees) and altitude (metres).
///
/// The latitude uses a single eccentricity-corrected arctangent pass, not an
/// iterative solution: the bounded latitude error of that closed form is an
/// accepted trade-off.  Mirrors the executable computation exactly.
#[verifier::opaque]
pub open spec fn spec_ecef_to_wgs84(x: int, y: int, z: int) -> (int, int, int) {
    let s = FP_SCALE as int;
    let lon_nrad = spec_atan2(y, x);
    let lon_mag = if lon_nrad >= 0 { lon_nrad } else { -lon_nrad };
    let p = spec_isqrt(x * x + y * y);
    let az = if z >= 0 { z } else { -z };
    let den = p * (1_000_000_000_000int - WGS84_E2_E12 as int) / 1_000_000_000_000int;
    let phimag = if den == 0 {
        if az == 0 { 0 } else { HALF_PI_NRAD as int }
    } else {
        crate::fixed::atan_pos_spec(az * s / den)
    };
    let sn = sin_q(phimag);
    let cn = sin_q(HALF_PI_NRAD as int - phimag);
    let inner = 1_000_000_000_000_000_000int - WGS84_E2_E12 as int * (sn * sn) / 1_000_000_000_000int;
    let g = spec_isqrt(inner);
    let alt = (p * cn + az * sn) / s - WGS84_A_M as int * g / s;
    let lat_ndeg = nrad_to_ndeg_capped(phimag, 90_000_000_000int);
    let lon_ndeg = nrad_to_ndeg_capped(lon_mag, 180_000_000_000int);
    (
        if z >= 0 { lat_ndeg } else { -lat_ndeg },
        if lon_nrad >= 0 { lon_ndeg } else { -lon_ndeg },
        alt,
    )
}

/// Converts a magnitude in nanoradians to nanodegrees with a cap.
fn nrad_mag_to_ndeg(m: u64, cap: u64) -> (r: u64)
    requires
        m <= 6_283_185_307u64,
    ensures
        r as int == nrad_to_ndeg_capped(m as int, cap as int),
        r <= cap,
{
    proof {
        lemma_mul_upper_bound(m as int, 6_283_185_307int, RAD_TO_DEG_E12 as int, RAD_TO_DEG_E12 as int);
    }
    let d = ((m as u128) * (RAD_TO_DEG_E12 as u128) / 1_000_000_000_000u128) as u64;
    proof {
        lemma_div_is_ordered(
            (m as int) * (RAD_TO_DEG_E12 as int),
            6_283_185_307int * (RAD_TO_DEG_E12 as int),
            1_000_000_000_000int,
        );
    }
    if d > cap {
        cap
    } else {
        d
    }
}

/// Executable counterpart of `spec_ecef_to_wgs84`.
///
/// Returns `(latitude, longitude, altitude)` with angles in nanodegrees and
/// the altitude in metres above the ellipsoid.
pub fn ecef_to_wgs84(x: i64, y: i64, z: i64) -> (r: (i64, i64, i64))
    requires
        -1_000_000_000 <= x <= 1_000_000_000,
        -1_000_000_000 <= y <= 1_000_000_000,
        -1_000_000_000 <= z <= 1_000_000_000,
    ensures
        (r.0 as int, r.1 as int, r.2 as int) == spec_ecef_to_wgs84(x as int, y as int, z as int),
        valid_coord((r.0, r.1)),
{
    proof {
        reveal(spec_ecef_to_wgs84);
    }
    let s: u128 = FP_SCALE as u128;
    let lon_nrad = atan2_nrad(y, x);
    let lon_mag: u64 = if lon_nrad >= 0 {
        lon_nrad as u64
    } else {
        (-lon_nrad) as u64
    };
    let xw: u128 = if x >= 0 {
        x as u128
    } else {
        (-x) as u128
    };
    let yw: u128 = if y >= 0 {
        y as u128
    } else {
        (-y) as u128
    };
    proof {
        lemma_mul_upper_bound(xw as int, 1_000_000_000int, xw as int, 1_000_000_000int);
        lemma_mul_upper_bound(yw as int, 1_000_000_000int, yw as int, 1_000_000_000int);
        assert((xw as int) * (xw as int) == (x as int) * (x as int)) by (nonlinear_arith)
            requires
                xw as int == x as int || xw as int == -(x as int),
        ;
        assert((yw as int) * (yw as int) == (y as int) * (y as int)) by (nonlinear_arith)
            requires
                yw as int == y as int || yw as int == -(y as int),
        ;
    }
    let p = isqrt_u128(xw * xw + yw * yw);
    proof {
        if p as int > 1_500_000_000int {
            assert(2_000_000_000_000_000_000int < (p as int) * (p as int)) by (nonlinear_arith)
                requires
                    1_500_000_000int < p as int,
            ;
        }
        lemma_mul_upper_bound(p as int, 1_500_000_000int, 993_305_620_010int, 993_305_620_010int);
        lemma_div_is_ordered(
            (p as int) * 993_305_620_010int,
            1_500_000_000int * 993_305_620_010int,
            1_000_000_000_000int,
        );
    }
    let az: u64 = if z >= 0 {
        z as u64
    } else {
        (-z) as u64
    };
    let den: u128 = p * (1_000_000_000_000u128 - WGS84_E2_E12 as u128) / 1_000_000_000_000u128;
    let phimag: u64 = if den == 0 {
        if az == 0 {
            0
        } else {
            HALF_PI_NRAD
        }
    } else {
        proof {
            lemma_mul_upper_bound(az as int, 1_000_000_000int, FP_SCALE as int, FP_SCALE as int);
            lemma_div_is_ordered(
                (az as int) * (FP_SCALE as int),
                1_000_000_000_000_000_000int,
                den as int,
            );
        }
        crate::fixed::atan_pos((az as u128) * s / den)
    };
    let sn = sin_quarter(phimag);
    let cn = sin_quarter(HALF_PI_NRAD - phimag);
    proof {
        lemma_mul_upper_bound(sn as int, FP_SCALE as int, sn as int, FP_SCALE as int);
        lemma_mul_upper_bound(
            WGS84_E2_E12 as int,
            WGS84_E2_E12 as int,
            (sn as int) * (sn as int),
            1_000_000_000_000_000_000int,
        );
        lemma_div_is_ordered(
            WGS84_E2_E12 as int * ((sn as int) * (sn as int)),
            WGS84_E2_E12 as int * 1_000_000_000_000_000_000int,
            1_000_000_000_000int,
        );
    }
    let inner: u128 = 1_000_000_000_000_000_000u128 - (WGS84_E2_E12 as u128) * ((sn as u128) * (sn
        as u128)) / 1_000_000_000_000u128;
    let g = isqrt_u128(inner);
    proof {
        if g as int > 1_000_000_000int {
            assert(1_000_000_000_000_000_000int < (g as int) * (g as int)) by (nonlinear_arith)
                requires
                    1_000_000_000int < g as int,
            ;
        }
        lemma_mul_upper_bound(p as int, 1_500_000_000int, cn as int, FP_SCALE as int);
        lemma_mul_upper_bound(az as int, 1_000_000_000int, sn as int, FP_SCALE as int);
        lemma_div_is_ordered(
            (p as int) * (cn as int) + (az as int) * (sn as int),
            2_500_000_000_000_000_000int,
            FP_SCALE as int,
        );
        lemma_mul_upper_bound(WGS84_A_M as int, WGS84_A_M as int, g as int, 1_000_000_000int);
        lemma_div_is_ordered(
            (WGS84_A_M as int) * (g as int),
            (WGS84_A_M as int) * 1_000_000_000int,
            FP_SCALE as int,
        );
    }
    let above: u128 = (p * (cn as u128) + (az as u128) * (sn as u128)) / s;
    let ellips: u128 = (WGS84_A_M as u128) * (g as u128) / s;
    let alt: i64 = (above as i64) - (ellips as i64);
    let lat_ndeg = nrad_mag_to_ndeg(phimag, 90_000_000_000u64);
    let lon_ndeg = nrad_mag_to_ndeg(lon_mag, 180_000_000_000u64);
    let lat: i64 = if z >= 0 {
        lat_ndeg as i64
    } else {
        -(lat_ndeg as i64)
    };
    let lon: i64 = if lon_nrad >= 0 {
        lon_ndeg as i64
    } else {
        -(lon_ndeg as i64)
    };
    (lat, lon, alt)
}

/// The haversine distance from a point to itself is zero.
pub proof fn lemma_distance_self(p: (i64, i64))
    requires
        valid_coord(p),
    ensures
        spec_geodegree(p, p) == 0,
        spec_distance(p, p) == 0,
{
    let s = FP_SCALE as int;
    assert(sin_q(0) == 0);
    lemma_isqrt_is(0, 0);
    lemma_isqrt_is(s * s, s);
    let phi1 = deg_to_nrad_signed(p.0 as int);
    let lam1 = deg_to_nrad_signed(p.1 as int);
    assert(abs_diff(phi1, phi1) == 0);
    assert(abs_diff(lam1, lam1) == 0);
    let c1 = cos_lat(if p.0 >= 0 { phi1 } else { -phi1 });
    assert((c1 * c1 / s) * (0int * 0int / s) / s == 0);
    assert(spec_geodegree(p, p) == 2 * asin_spec(spec_isqrt(0 * s)));
    assert(spec_isqrt(0 * s) == 0);
    // the arcsine of zero runs to zero through every halving step
    assert(asin_spec(0) == crate::fixed::atan_pos_spec(0 * s / spec_isqrt((s - 0) * (s + 0))));
    assert((s - 0) * (s + 0) == s * s) by (nonlinear_arith);
    assert(asin_spec(0) == crate::fixed::atan_pos_spec(0));
    assert(crate::fixed::atan_halve(0) == 0 * s / (s + spec_isqrt(s * s + 0 * 0)));
    assert(s * s + 0 * 0 == s * s) by (nonlinear_arith);
    assert(crate::fixed::atan_halve(0) == 0);
    assert(crate::fixed::atan_series(0) == 0);
    assert(crate::fixed::atan_pos_spec(0) == 0);
    assert(spec_geodegree(p, p) == 0);
}

/// The haversine distance is symmetric in its two coordinates.
pub proof fn lemma_distance_symmetric(p: (i64, i64), q: (i64, i64))
    requires
        valid_coord(p),
        valid_coord(q),
    ensures
        spec_geodegree(p, q) == spec_geodegree(q, p),
        spec_distance(p, q) == spec_distance(q, p),
{
    let s = FP_SCALE as int;
    let phi1 = deg_to_nrad_signed(p.0 as int);
    let phi2 = deg_to_nrad_signed(q.0 as int);
    let lam1 = deg_to_nrad_signed(p.1 as int);
    let lam2 = deg_to_nrad_signed(q.1 as int);
    assert(abs_diff(phi1, phi2) == abs_diff(phi2, phi1));
    assert(abs_diff(lam1, lam2) == abs_diff(lam2, lam1));
    let c1 = cos_lat(if p.0 >= 0 { phi1 } else { -phi1 });
    let c2 = cos_lat(if q.0 >= 0 { phi2 } else { -phi2 });
    assert(c1 * c2 == c2 * c1) by (nonlinear_arith);
}

/// The slant range from a ground point to a satellite directly overhead is
/// exactly the satellite's altitude: the central angle between a point and
/// itself is zero, the calibrated cosine of zero is one, and the law of
/// cosines collapses to the difference of the two radii.
pub proof fn lemma_zenith_slant_range(p: (i64, i64), alt: u64)
    requires
        valid_coord(p),
        alt <= 100_000_000_000u64,
    ensures
        spec_ground_space_distance(p, (p.0, p.1, alt)) == alt,
{
    lemma_distance_self(p);
    crate::fixed::lemma_sin_right_angle();
    let s = FP_SCALE as int;
    let a = alt as int + EARTH_RADIUS_M as int;
    let b = EARTH_RADIUS_M as int;
    assert(cos_h(0) == sin_q(HALF_PI_NRAD as int));
    assert(2 * a * b * s / s == 2 * a * b) by (nonlinear_arith)
        requires
            0 < s,
    ;
    assert(a * a + b * b - 2 * a * b == (a - b) * (a - b)) by (nonlinear_arith);
    assert((a - b) * (a - b) < (a - b + 1) * (a - b + 1)) by (nonlinear_arith)
        requires
            0 <= a - b,
    ;
    lemma_isqrt_is((a - b) * (a - b), a - b);
    assert(spec_trangle_distance(a, b, 0) == a - b);
}

/// The Earth-fixed point on the equator at the WGS84 semi-major axis
/// converts to latitude zero, longitude zero and altitude zero, exactly.
pub proof fn lemma_wgs84_equator()
    ensures
        spec_ecef_to_wgs84(WGS84_A_M as int, 0, 0) == (0int, 0int, 0int),
{
    reveal(spec_ecef_to_wgs84);
    crate::fixed::lemma_atan_zero();
    crate::fixed::lemma_sin_right_angle();
    let s = FP_SCALE as int;
    let ax = WGS84_A_M as int;
    // the longitude: the arctangent of zero over a positive abscissa
    assert(0int * s / ax == 0);
    assert(spec_atan2(0, ax) == 0);
    // the ground-track radius is exactly the semi-major axis
    assert(6_378_137int * 6_378_137int == 40_680_631_590_769int) by (nonlinear_arith);
    assert(6_378_138int * 6_378_138int == 40_680_644_347_044int) by (nonlinear_arith);
    assert(ax * ax + 0int * 0int == 40_680_631_590_769int);
    lemma_isqrt_is(40_680_631_590_769int, 6_378_137int);
    // the latitude: the arctangent of a zero ordinate
    assert(6_378_137int * 993_305_620_010int == 6_335_439_327_293_721_370int)
        by (nonlinear_arith);
    assert(6_335_439_327_293_721_370int / 1_000_000_000_000int == 6_335_439int);
    let den = 6_378_137int * (1_000_000_000_000int - WGS84_E2_E12 as int) / 1_000_000_000_000int;
    assert(den == 6_335_439int);
    assert(0int * s / den == 0);
    assert(sin_q(0) == 0);
    // the altitude: the point radius against the ellipsoid radius, both
    // exactly the semi-major axis
    assert(1_000_000_000int * 1_000_000_000int == 1_000_000_000_000_000_000int)
        by (nonlinear_arith);
    assert(1_000_000_001int * 1_000_000_001int == 1_000_000_002_000_000_001int)
        by (nonlinear_arith);
    assert(WGS84_E2_E12 as int * (0int * 0int) == 0) by (nonlinear_arith);
    lemma_isqrt_is(1_000_000_000_000_000_000int, 1_000_000_000int);
    assert(6_378_137int * 1_000_000_000int == 6_378_137_000_000_000int) by (nonlinear_arith);
    assert(6_378_137_000_000_000int / 1_000_000_000int == 6_378_137int);
    assert(sin_q(HALF_PI_NRAD as int - 0) == s);
    assert((6_378_137int * s + 0int * 0int) / s == 6_378_137int);
    assert(nrad_to_ndeg_capped(0, 90_000_000_000int) == 0);
    assert(nrad_to_ndeg_capped(0, 180_000_000_000int) == 0);
}

} // verus!
