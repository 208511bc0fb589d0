//! Orbital state and link-latency engine.
//!
//! The engine tracks a constellation of Earth-orbiting objects from
//! periodically refreshed orbital-element data, keeps per-object position
//! state, and models inter-node communication links (ground station ↔
//! satellite ↔ satellite ↔ ground station) including propagation latency.
//!
//! All quantities are carried as scaled integers: angles in nanodegrees or
//! nanoradians, distances in metres, time as whole seconds or nanoseconds.
//! The surrounding application performs the floating-point work (the SGP4
//! evaluation and the sidereal rotation) and hands the results to the engine
//! in these units.

pub mod console;
pub mod elements;
pub mod engine;
pub mod fixed;
pub mod geodesy;
pub mod refresh;
pub mod store;
pub mod topology;
pub mod tracker;

use vstd::prelude::*;

verus! {

/// Speed of light in metres per second; every link latency is distance
/// divided by this constant.
pub const LIGHT_SPEED_M_PER_S: u64 = 299_792_458;

/// Nanoseconds a signal needs to travel `distance_m` metres in vacuum.
pub fn light_travel_ns(distance_m: u64) -> (r: u64)
    requires
        distance_m < 5_000_000_000_000_000_000u64,
    ensures
        r == distance_m * 1_000_000_000 / (LIGHT_SPEED_M_PER_S as int),
{
    let wide: u128 = (distance_m as u128) * 1_000_000_000u128;
    (wide / (LIGHT_SPEED_M_PER_S as u128)) as u64
}

} // verus!
