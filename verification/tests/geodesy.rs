//! Geodesy checks: exact fixed-point identities, agreement with a
//! floating-point reference, and the closed-form geodetic round trip.

use rustsat::geodesy::distance;
use rustsat::geodesy::ecef_to_wgs84;
use rustsat::geodesy::geodegree;
use rustsat::geodesy::ground_space_distance;
use rustsat::geodesy::space_space_distance;
use rustsat::geodesy::trangle_distance;
use rustsat::light_travel_ns;

fn ndeg(d: f64) -> i64 {
    (d * 1e9).round() as i64
}

#[test]
fn distance_of_a_point_to_itself_is_zero() {
    let p = (ndeg(51.0), ndeg(-114.03));
    assert_eq!(distance(p, p), 0);
    let q = (ndeg(-33.87), ndeg(151.21));
    assert_eq!(distance(q, q), 0);
    assert_eq!(geodegree(p, p), 0);
}

#[test]
fn distance_is_symmetric() {
    let a = (ndeg(51.0), ndeg(-114.03));
    let b = (ndeg(44.22), ndeg(-80.11));
    assert_eq!(distance(a, b), distance(b, a));
    let c = (ndeg(-10.5), ndeg(170.0));
    let d = (ndeg(80.0), ndeg(-170.0));
    assert_eq!(distance(c, d), distance(d, c));
}

#[test]
fn distance_agrees_with_floating_point_reference() {
    let cases = [
        ((51.0, -114.03), (44.22, -80.11)),
        ((0.0, 0.0), (0.0, 90.0)),
        ((-35.0, 18.5), (52.5, 13.4)),
        ((10.0, 179.5), (-10.0, -179.5)),
    ];
    for ((lat1, lon1), (lat2, lon2)) in cases {
        let reference = map_3d::distance((lat1, lon1), (lat2, lon2));
        let fixed = distance((ndeg(lat1), ndeg(lon1)), (ndeg(lat2), ndeg(lon2))) as f64;
        let err = (reference - fixed).abs();
        assert!(
            err < 5.0,
            "distance mismatch: reference {reference} m, fixed-point {fixed} m"
        );
    }
}

#[test]
fn quarter_turn_central_angle() {
    // a quarter of a great circle subtends pi/2 at the centre
    let c = geodegree((0, 0), (0, ndeg(90.0)));
    assert!((c as i64 - 1_570_796_327i64).abs() < 500, "central angle {c}");
}

#[test]
fn law_of_cosines_right_angle_is_pythagorean() {
    // cos(pi/2) is exactly zero in the fixed-point kernel
    assert_eq!(trangle_distance(3, 4, 1_570_796_327), 5);
    assert_eq!(trangle_distance(6, 8, 1_570_796_327), 10);
}

#[test]
fn slant_range_to_zenith_satellite_is_its_altitude() {
    // the central angle is zero and the calibrated cosine of zero is one,
    // so the slant range equals the altitude exactly
    assert_eq!(ground_space_distance((0, 0), (0, 0, 550_000)), 550_000);
    let p = (ndeg(51.0), ndeg(-114.03));
    assert_eq!(ground_space_distance(p, (p.0, p.1, 1_200_000)), 1_200_000);
}

#[test]
fn straight_line_distance_is_euclidean() {
    assert_eq!(space_space_distance((0, 0, 0), (3, 4, 0)), 5);
    assert_eq!(space_space_distance((1, 1, 1), (1, 1, 1)), 0);
    assert_eq!(space_space_distance((-3, 0, 0), (3, 0, 8)), 10);
}

#[test]
fn light_travel_time_is_distance_over_light_speed() {
    assert_eq!(light_travel_ns(299_792_458), 1_000_000_000);
    assert_eq!(light_travel_ns(0), 0);
    // 3000 km, about ten milliseconds
    let ns = light_travel_ns(3_000_000);
    assert!(10_006_000 < ns && ns < 10_008_000, "latency {ns} ns");
}

#[test]
fn geodetic_round_trip_stays_within_tolerance() {
    // a known geodetic point to Earth-fixed coordinates and back: the
    // closed-form conversion reproduces non-polar latitudes well inside
    // a hundredth of a degree
    let cases = [(45.0, 7.0), (51.0, -114.03), (-33.87, 151.21), (0.0, 0.0), (70.0, 10.0)];
    for (lat, lon) in cases {
        let (x, y, z) = map_3d::geodetic2ecef(
            map_3d::deg2rad(lat),
            map_3d::deg2rad(lon),
            0.0,
            map_3d::Ellipsoid::WGS84,
        );
        let (rlat, rlon, ralt) = ecef_to_wgs84(x.round() as i64, y.round() as i64, z.round() as i64);
        let lat_err = (rlat - ndeg(lat)).abs();
        let lon_err = (rlon - ndeg(lon)).abs();
        // 0.01 degrees is 10^7 nanodegrees
        assert!(lat_err < 10_000_000, "latitude error {lat_err} ndeg at {lat}");
        assert!(lon_err < 10_000_000, "longitude error {lon_err} ndeg at {lon}");
        assert!(ralt.abs() < 2_000, "altitude error {ralt} m at ({lat},{lon})");
    }
}

#[test]
fn ecef_conversion_of_equatorial_point() {
    // the point on the equator at the semi-major axis: latitude zero,
    // longitude zero, altitude zero, exactly
    assert_eq!(ecef_to_wgs84(6_378_137, 0, 0), (0, 0, 0));
}
