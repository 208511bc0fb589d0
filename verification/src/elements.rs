//! Orbital element sets and the constants derived from them.
//!
//! An element set is an immutable snapshot of one object's classical
//! elements with its reference epoch, numeric identifier and free-text
//! name.  Angles are in nanodegrees, the eccentricity and the mean motion
//! (revolutions per day) are scaled by 10^9, the epoch is a Unix timestamp
//! in seconds.  Deriving propagation constants validates the set; an
//! invalid set is reported, never silently defaulted.

use vstd::prelude::*;

verus! {

/// One object's orbital element set.
pub struct OrbitalElementSet {
    /// Catalog number of the object.
    pub norad_id: u64,
    /// Free-text object name, when the catalog carries one.
    pub object_name: Option<String>,
    /// Reference epoch of the elements, Unix seconds.
    pub epoch_s: i64,
    /// Eccentricity scaled by 10^9 (dimensionless).
    pub eccentricity_e9: u64,
    /// Inclination in nanodegrees.
    pub inclination_ndeg: i64,
    /// Right ascension of the ascending node in nanodegrees.
    pub right_ascension_ndeg: i64,
    /// Argument of perigee in nanodegrees.
    pub argument_of_perigee_ndeg: i64,
    /// Mean anomaly in nanodegrees.
    pub mean_anomaly_ndeg: i64,
    /// Mean motion in revolutions per day, scaled by 10^9.
    pub mean_motion_e9: u64,
    /// Radiation pressure coefficient, scaled by 10^9.
    pub drag_term_e9: i64,
}

/// Why an element set cannot seed a propagator.
#[derive(Clone, Copy, Debug, PartialEq, Eq, Structural)]
pub enum DerivationError {
    /// The eccentricity lies outside `[0, 1)`.
    OutOfRangeEccentricity,
    /// The mean motion is not positive.
    NonPositiveMeanMotion,
}

/// Why a propagation attempt produced no position at a query time.
#[derive(Clone, Copy, Debug, PartialEq, Eq, Structural)]
pub enum PropagationError {
    /// The propagated eccentricity left the valid range.
    OutOfRangeEccentricity,
    /// The short-period perturbed eccentricity left the valid range.
    OutOfRangePerturbedEccentricity,
    /// The semi-latus rectum turned negative (decayed orbit).
    NegativeSemiLatusRectum,
}

/// Why a refresh attempt produced no new catalog.
#[derive(Clone, Copy, Debug, PartialEq, Eq, Structural)]
pub enum RefreshError {
    /// The fetch failed in transport.
    Transport,
    /// The fetched payload did not parse as a catalog.
    Parse,
}

/// Why the persisted cache was unusable.
#[derive(Clone, Copy, Debug, PartialEq, Eq, Structural)]
pub enum CacheIOError {
    /// The cache file could not be read or did not parse.
    Unreadable,
    /// The cache file could not be written.
    Unwritable,
}

/// Constants derived once from a validated element set; immutable until
/// the object's element set is replaced.
#[derive(Clone, Copy, Debug, PartialEq, Eq, Structural)]
pub struct PropagationConstants {
    /// Identifier of the object the constants were derived for.
    pub norad_id: u64,
    /// Reference epoch of the seeding element set, Unix seconds.
    pub epoch_s: i64,
    /// Eccentricity scaled by 10^9, strictly below 10^9.
    pub eccentricity_e9: u64,
    /// Mean motion in revolutions per day scaled by 10^9, positive.
    pub mean_motion_e9: u64,
}

impl OrbitalElementSet {
    /// The set passes the seeding checks: eccentricity in `[0, 1)` and a
    /// positive mean motion.
    pub open spec fn derivable(self) -> bool {
        self.eccentricity_e9 < 1_000_000_000 && self.mean_motion_e9 > 0
    }
}

/// Validates an element set and derives its propagation-ready constants.
///
/// Returns an error exactly on the inputs the propagation model rejects at
/// seeding time: an eccentricity outside `[0, 1)` or a non-positive mean
/// motion.
pub fn derive(elements: &OrbitalElementSet) -> (r: Result<PropagationConstants, DerivationError>)
    ensures
        elements.derivable() <==> r is Ok,
        r matches Ok(c) ==> c.norad_id == elements.norad_id && c.epoch_s == elements.epoch_s
            && c.eccentricity_e9 == elements.eccentricity_e9 && c.mean_motion_e9
            == elements.mean_motion_e9,
        r matches Err(e) ==> (e == DerivationError::OutOfRangeEccentricity <==> elements.eccentricity_e9
            >= 1_000_000_000),
{
    if elements.eccentricity_e9 >= 1_000_000_000 {
        Err(DerivationError::OutOfRangeEccentricity)
    } else if elements.mean_motion_e9 == 0 {
        Err(DerivationError::NonPositiveMeanMotion)
    } else {
        Ok(PropagationConstants {
            norad_id: elements.norad_id,
            epoch_s: elements.epoch_s,
            eccentricity_e9: elements.eccentricity_e9,
            mean_motion_e9: elements.mean_motion_e9,
        })
    }
}

} // verus!
