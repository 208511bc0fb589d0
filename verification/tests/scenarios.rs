//! End-to-end scenarios: real propagation through the engine's geodesy,
//! relay-path construction with latency, and divergence reporting.

use rustsat::elements::PropagationError;
use rustsat::geodesy::ecef_to_wgs84;
use rustsat::geodesy::space_space_distance;
use rustsat::topology::compute_latency;
use rustsat::topology::init_gslinks;
use rustsat::topology::nearest_satellite;
use rustsat::topology::GSDataLink;
use rustsat::topology::GroundStation;
use rustsat::tracker::PositionTracker;
use rustsat::tracker::PropagationOutcome;
use rustsat::tracker::TEMEPos;
use rustsat::tracker::TEMEVelocity;
use rustsat::tracker::LatLonAlt;
use rustsat::tracker::TrackedObject;

fn ndeg(d: f64) -> i64 {
    (d * 1e9).round() as i64
}

fn starlink_test_elements() -> sgp4::Elements {
    serde_json::from_str(
        r#"{
        "OBJECT_NAME": "STARLINK-TEST",
        "OBJECT_ID": "2019-074A",
        "EPOCH": "2024-01-01T00:00:00",
        "MEAN_MOTION": 15.06,
        "ECCENTRICITY": 0.0001,
        "INCLINATION": 53.0,
        "RA_OF_ASC_NODE": 120.0,
        "ARG_OF_PERICENTER": 90.0,
        "MEAN_ANOMALY": 270.0,
        "EPHEMERIS_TYPE": 0,
        "CLASSIFICATION_TYPE": "U",
        "NORAD_CAT_ID": 44713,
        "ELEMENT_SET_NO": 999,
        "REV_AT_EPOCH": 10000,
        "BSTAR": 0.0001,
        "MEAN_MOTION_DOT": 0.0001,
        "MEAN_MOTION_DDOT": 0
    }"#,
    )
    .unwrap()
}

#[test]
fn propagation_yields_a_plausible_orbital_radius() {
    // positions across the stable regime lie in a low-orbit radius band,
    // ruling out gross unit errors
    let elements = starlink_test_elements();
    let constants = sgp4::Constants::from_elements(&elements).unwrap();
    for minutes in [0.0, 30.0, 90.0, 720.0, 1440.0] {
        let prediction = constants.propagate(sgp4::MinutesSinceEpoch(minutes)).unwrap();
        let p = prediction.position;
        let pos_m = (
            (p[0] * 1000.0).round() as i64,
            (p[1] * 1000.0).round() as i64,
            (p[2] * 1000.0).round() as i64,
        );
        let radius = space_space_distance(pos_m, (0, 0, 0));
        assert!(
            6_600_000 <= radius && radius <= 7_500_000,
            "orbital radius {radius} m at {minutes} min"
        );
    }
}

#[test]
fn starlink_test_at_epoch_is_in_the_leo_band() {
    let elements = starlink_test_elements();
    assert_eq!(elements.norad_id, 44713);
    assert_eq!(elements.object_name.as_deref(), Some("STARLINK-TEST"));
    let constants = sgp4::Constants::from_elements(&elements).unwrap();
    let prediction = constants.propagate(sgp4::MinutesSinceEpoch(0.0)).unwrap();
    let p = prediction.position;

    // rotate the inertial position into the Earth-fixed frame at the epoch
    let gst = map_3d::utc2gst([2024, 1, 1, 0, 0, 0]);
    let (x, y, z) = map_3d::eci2ecef(gst, p[0] * 1000.0, p[1] * 1000.0, p[2] * 1000.0);
    let (_lat, _lon, alt_m) = ecef_to_wgs84(x.round() as i64, y.round() as i64, z.round() as i64);
    assert!(
        300_000 <= alt_m && alt_m <= 2_000_000,
        "geodetic altitude {alt_m} m is outside the typical low-orbit band"
    );
}

fn sat_between_sites() -> (TrackedObject, (i64, i64), (i64, i64)) {
    let ga = (ndeg(51.00), ndeg(-114.03));
    let gb = (ndeg(44.22), ndeg(-80.11));
    // a satellite halfway between the sites at 550 km altitude
    let lat = (51.00 + 44.22) / 2.0;
    let lon = (-114.03 + -80.11) / 2.0;
    let (x, y, z) = map_3d::geodetic2ecef(
        map_3d::deg2rad(lat),
        map_3d::deg2rad(lon),
        550_000.0,
        map_3d::Ellipsoid::WGS84,
    );
    let sat = TrackedObject {
        id: 1001,
        name: Some("RELAY".to_string()),
        epoch_s: 0,
        constants: None,
        position: Some(TEMEPos(x.round() as i64, y.round() as i64, z.round() as i64)),
        velocity: Some(TEMEVelocity(0, 0, 0)),
        geodetic: Some(LatLonAlt(ndeg(lat), ndeg(lon), 550_000)),
    };
    (sat, ga, gb)
}

#[test]
fn relay_path_between_two_sites_has_three_edges_and_low_latency() {
    let (sat, ga, gb) = sat_between_sites();
    let candidates = vec![(sat.id, ndeg(47.61), ndeg(-97.07), 550_000u64)];

    let na = nearest_satellite(ga, &candidates);
    let nb = nearest_satellite(gb, &candidates);
    let na = na.expect("site a has a nearest satellite");
    let nb = nb.expect("site b has a nearest satellite");
    assert_eq!(na.sat_id, 1001);
    assert_eq!(nb.sat_id, 1001);

    let link = GSDataLink(1, 2);
    let path = init_gslinks(&link, Some(&na), Some(&nb)).expect("path built");
    assert_eq!(path.0.len(), 3);

    let tracker = PositionTracker { objects: vec![sat] };
    let sites = vec![
        GroundStation { id: 1, coord: ga },
        GroundStation { id: 2, coord: gb },
    ];
    let stats = compute_latency(&path, &tracker, &sites).expect("stats computed");
    assert_eq!(stats.distance.len(), 3);
    assert_eq!(stats.latencies.len(), 3);
    // the middle hop connects the satellite to itself
    assert_eq!(stats.distance[1], 0);
    assert!(stats.total_distance_m > 0);
    assert!(stats.total_latency_ns > 0);
    assert!(
        stats.total_latency_ns < 50_000_000,
        "total latency {} ns is not under 50 ms",
        stats.total_latency_ns
    );
}

#[test]
fn missing_endpoint_position_skips_stats() {
    let (mut sat, ga, gb) = sat_between_sites();
    sat.geodetic = None;
    let na = rustsat::topology::NearestSat { sat_id: 1001, distance: 1 };
    let link = GSDataLink(1, 2);
    let path = init_gslinks(&link, Some(&na), Some(&na)).unwrap();
    let tracker = PositionTracker { objects: vec![sat] };
    let sites = vec![
        GroundStation { id: 1, coord: ga },
        GroundStation { id: 2, coord: gb },
    ];
    assert!(compute_latency(&path, &tracker, &sites).is_none());
}

#[test]
fn no_candidates_means_no_nearest_satellite() {
    let candidates: Vec<(u64, i64, i64, u64)> = Vec::new();
    assert!(nearest_satellite((0, 0), &candidates).is_none());
}

#[test]
fn nearest_satellite_takes_the_minimum_with_first_tie() {
    let ground = (0i64, 0i64);
    let candidates = vec![
        (10u64, ndeg(30.0), ndeg(30.0), 550_000u64),
        (11u64, ndeg(1.0), ndeg(1.0), 550_000u64),
        (12u64, ndeg(1.0), ndeg(1.0), 550_000u64),
    ];
    let n = nearest_satellite(ground, &candidates).unwrap();
    // 11 and 12 tie; the first encountered wins
    assert_eq!(n.sat_id, 11);
}

#[test]
fn divergence_is_reported_once_per_tick_and_state_is_retained() {
    let (sat, _, _) = sat_between_sites();
    let held_position = sat.position;
    let held_geodetic = sat.geodetic;
    let mut tracker = PositionTracker { objects: vec![sat] };
    let outcomes = vec![PropagationOutcome {
        id: 1001,
        result: Err(PropagationError::NegativeSemiLatusRectum),
    }];

    let reports = tracker.tick_update(&outcomes);
    assert_eq!(reports.len(), 1);
    assert_eq!(reports[0].id, 1001);
    assert_eq!(reports[0].name, "RELAY");
    assert_eq!(reports[0].error, PropagationError::NegativeSemiLatusRectum);

    // the object stays in the catalog with its previous state untouched
    assert!(tracker.contains(1001));
    let o = tracker.get(1001).unwrap();
    assert_eq!(o.position, held_position);
    assert_eq!(o.geodetic, held_geodetic);

    // the next tick reports again: exactly once per affected tick
    let reports2 = tracker.tick_update(&outcomes);
    assert_eq!(reports2.len(), 1);
}

#[test]
fn successful_outcome_updates_position_and_geodetic() {
    let (sat, _, _) = sat_between_sites();
    let mut tracker = PositionTracker { objects: vec![sat] };
    let new_pos = TEMEPos(6_921_000, 0, 0);
    let new_vel = TEMEVelocity(0, 7_600_000, 0);
    let outcomes = vec![PropagationOutcome {
        id: 1001,
        result: Ok((new_pos, new_vel, (6_921_000, 0, 0))),
    }];
    let reports = tracker.tick_update(&outcomes);
    assert!(reports.is_empty());
    let o = tracker.get(1001).unwrap();
    assert_eq!(o.position, Some(new_pos));
    assert_eq!(o.velocity, Some(new_vel));
    let lla = o.geodetic.unwrap();
    assert!(lla.0.abs() < 1_000_000, "latitude {}", lla.0);
    assert_eq!(lla.1, 0);
    assert!(
        530_000 < lla.2 && lla.2 < 560_000,
        "altitude {} m for a 550 km equatorial position",
        lla.2
    );
}
