//! Per-object derived state, recomputed on every tick and on catalog
//! changes.
//!
//! The tracker owns one `TrackedObject` per cataloged identifier.  When the
//! catalog is replaced it reconciles by set difference: objects whose
//! identifier vanished are destroyed, new identifiers are created, and
//! survivors have their constants re-derived from the replaced element set.
//! Every tick the application propagates each object and hands the outcomes
//! back; a failed propagation leaves the object's previous state untouched
//! and is reported exactly once for that tick.

use vstd::prelude::*;

verus! {

use crate::elements::OrbitalElementSet;
use crate::elements::PropagationConstants;
use crate::elements::PropagationError;

use crate::store::ElementStore;
use crate::geodesy::spec_ecef_to_wgs84;
use crate::geodesy::ecef_to_wgs84;

/// Inertial-frame position of one object, metres per axis.
#[derive(Clone, Copy, Debug, PartialEq, Eq, Structural)]
pub struct TEMEPos(pub i64, pub i64, pub i64);

/// Inertial-frame velocity of one object, millimetres per second per axis.
#[derive(Clone, Copy, Debug, PartialEq, Eq, Structural)]
pub struct TEMEVelocity(pub i64, pub i64, pub i64);

/// Geodetic coordinate: latitude and longitude in nanodegrees, altitude in
/// metres.
#[derive(Clone, Copy, Debug, PartialEq, Eq, Structural)]
pub struct LatLonAlt(pub i64, pub i64, pub i64);

/// One tracked object's derived state.
pub struct TrackedObject {
    /// Catalog number.
    pub id: u64,
    /// Object name from the catalog, when present.
    pub name: Option<String>,
    /// Reference epoch of the seeding element set, Unix seconds.
    pub epoch_s: i64,
    /// Propagation constants; absent when derivation failed, in which case
    /// the object stays visible but carries no valid position.
    pub constants: Option<PropagationConstants>,
    /// Inertial position from the last successful propagation.
    pub position: Option<TEMEPos>,
    /// Inertial velocity from the last successful propagation.
    pub velocity: Option<TEMEVelocity>,
    /// Geodetic coordinate of the last position.
    pub geodetic: Option<LatLonAlt>,
}

/// The result the application hands back for one object and one tick: the
/// propagated inertial position and velocity together with the same
/// position rotated into the Earth-fixed frame (metres), or the reason the
/// model diverged.
pub struct PropagationOutcome {
    /// Catalog number of the propagated object.
    pub id: u64,
    /// Position, velocity and Earth-fixed position, or the divergence.
    pub result: Result<(TEMEPos, TEMEVelocity, (i64, i64, i64)), PropagationError>,
}

/// One per-tick divergence notice: which object failed and why.
pub struct DivergenceReport {
    /// Catalog number of the diverged object.
    pub id: u64,
    /// Object name, empty when the catalog has none.
    pub name: String,
    /// The reported reason.
    pub error: PropagationError,
}

/// How a successful outcome rewrites an object: position and velocity are
/// overwritten, and the geodetic coordinate is recomputed only when the
/// position actually changed.
pub open spec fn spec_apply_success(
    o: TrackedObject,
    pos: TEMEPos,
    vel: TEMEVelocity,
    ecef: (i64, i64, i64),
) -> TrackedObject {
    TrackedObject {
        position: Some(pos),
        velocity: Some(vel),
        geodetic: if o.position == Some(pos) {
            o.geodetic
        } else {
            Some(
                LatLonAlt(
                    spec_ecef_to_wgs84(ecef.0 as int, ecef.1 as int, ecef.2 as int).0 as i64,
                    spec_ecef_to_wgs84(ecef.0 as int, ecef.1 as int, ecef.2 as int).1 as i64,
                    spec_ecef_to_wgs84(ecef.0 as int, ecef.1 as int, ecef.2 as int).2 as i64,
                ),
            )
        },
        ..o
    }
}

/// The object a catalog entry seeds or re-seeds.
///
/// `kept` is the previous state of the same identifier, when it survived
/// the catalog change: a survivor whose new element set still derives keeps
/// its last position until the next tick overwrites it.
pub open spec fn spec_object_of(e: OrbitalElementSet, kept: Option<TrackedObject>) -> TrackedObject {
    let derivable = e.derivable();
    TrackedObject {
        id: e.norad_id,
        name: e.object_name,
        epoch_s: e.epoch_s,
        constants: if derivable {
            Some(
                PropagationConstants {
                    norad_id: e.norad_id,
                    epoch_s: e.epoch_s,
                    eccentricity_e9: e.eccentricity_e9,
                    mean_motion_e9: e.mean_motion_e9,
                },
            )
        } else {
            None
        },
        position: if derivable && kept is Some {
            kept->0.position
        } else {
            None
        },
        velocity: if derivable && kept is Some {
            kept->0.velocity
        } else {
            None
        },
        geodetic: if derivable && kept is Some {
            kept->0.geodetic
        } else {
            None
        },
    }
}

/// The single outcome carried by `outs` for identifier `id`, if any.
#[verifier::opaque]
pub open spec fn outcome_for(outs: Seq<PropagationOutcome>, id: u64) -> Option<PropagationOutcome> {
    if exists|i: int| 0 <= i < outs.len() && outs[i].id == id {
        Some(outs[choose|i: int| 0 <= i < outs.len() && outs[i].id == id])
    } else {
        None
    }
}

/// What one tick makes of a tracked object: a successful outcome rewrites
/// position, velocity and (when the position changed) the geodetic
/// coordinate; a divergence or a missing outcome leaves it untouched.
pub open spec fn spec_tick_object(o: TrackedObject, outs: Seq<PropagationOutcome>) -> TrackedObject {
    match outcome_for(outs, o.id) {
        Some(oc) => match oc.result {
            Ok(t) => spec_apply_success(o, t.0, t.1, t.2),
            Err(_) => o,
        },
        None => o,
    }
}

/// The table of tracked objects, keyed by catalog number.
pub struct PositionTracker {
    /// The tracked objects, one per catalog number.
    pub objects: Vec<TrackedObject>,
}

impl PositionTracker {
    /// Each catalog number occurs at most once.
    pub open spec fn wf(self) -> bool {
        forall|i: int, j: int|
            0 <= i < j < self.objects@.len() ==> self.objects@[i].id != self.objects@[j].id
    }

    /// The tracker holds an object for `id`.
    pub open spec fn contains_id(self, id: u64) -> bool {
        exists|i: int| 0 <= i < self.objects@.len() && self.objects@[i].id == id
    }

    /// The index of the object for `id`.
    pub open spec fn index_of(self, id: u64) -> int {
        choose|i: int| 0 <= i < self.objects@.len() && self.objects@[i].id == id
    }

    /// The object tracked for `id`.
    pub open spec fn spec_get(self, id: u64) -> TrackedObject {
        self.objects@[self.index_of(id)]
    }

    /// An empty tracker.
    pub fn new() -> (r: PositionTracker)
        ensures
            r.wf(),
            r.objects@.len() == 0,
    {
        PositionTracker { objects: Vec::new() }
    }

    /// Number of tracked objects.
    pub fn len(&self) -> (r: usize)
        ensures
            r == self.objects@.len(),
    {
        self.objects.len()
    }

    /// Whether an object is tracked for `id`.
    pub fn contains(&self, id: u64) -> (r: bool)
        ensures
            r == self.contains_id(id),
    {
        let mut i: usize = 0;
        while i < self.objects.len()
            invariant
                i <= self.objects@.len(),
                forall|k: int| 0 <= k < i ==> self.objects@[k].id != id,
            decreases self.objects@.len() - i,
        {
            if self.objects[i].id == id {
                return true;
            }
            i = i + 1;
        }
        false
    }

    /// The tracked object for `id`, when one exists.
    pub fn get(&self, id: u64) -> (r: Option<&TrackedObject>)
        requires
            self.wf(),
        ensures
            match r {
                Some(o) => self.contains_id(id) && *o == self.spec_get(id) && o.id == id,
                None => !self.contains_id(id),
            },
    {
        let mut i: usize = 0;
        while i < self.objects.len()
            invariant
                self.wf(),
                i <= self.objects@.len(),
                forall|k: int| 0 <= k < i ==> self.objects@[k].id != id,
            decreases self.objects@.len() - i,
        {
            if self.objects[i].id == id {
                proof {
                    let j = self.index_of(id);
                    assert(0 <= j < self.objects@.len() && self.objects@[j].id == id);
                    assert(j == i as int);
                }
                return Some(&self.objects[i]);
            }
            i = i + 1;
        }
        None
    }

    /// Takes the tracked object for `id` out of the table, when present.
    fn take_out(&mut self, id: u64) -> (r: Option<TrackedObject>)
        requires
            old(self).wf(),
        ensures
            final(self).wf(),
            old(self).contains_id(id) ==> (r matches Some(o) && o == old(self).spec_get(id)
                && o.id == id),
            !old(self).contains_id(id) ==> r is None && *final(self) == *old(self),
            forall|x: u64|
                final(self).contains_id(x) <==> (old(self).contains_id(x) && x != id),
            forall|i: int|
                0 <= i < final(self).objects@.len() ==> old(self).objects@.contains(
                    final(self).objects@[i],
                ) && final(self).objects@[i].id != id,
    {
        let mut i: usize = 0;
        while i < self.objects.len()
            invariant
                self.wf(),
                *self == *old(self),
                i <= self.objects@.len(),
                forall|k: int| 0 <= k < i ==> self.objects@[k].id != id,
            decreases self.objects@.len() - i,
        {
            if self.objects[i].id == id {
                proof {
                    let j = old(self).index_of(id);
                    assert(0 <= j < self.objects@.len() && self.objects@[j].id == id);
                    assert(j == i as int);
                }
                let o = self.objects.remove(i);
                proof {
                    assert forall|x: u64|
                        self.contains_id(x) <==> (old(self).contains_id(x) && x != id) by {
                        if self.contains_id(x) {
                            let k = choose|k: int|
                                0 <= k < self.objects@.len() && self.objects@[k].id == x;
                            if k < i as int {
                                assert(old(self).objects@[k].id == x);
                            } else {
                                assert(old(self).objects@[k + 1].id == x);
                            }
                        }
                        if old(self).contains_id(x) && x != id {
                            let k = choose|k: int|
                                0 <= k < old(self).objects@.len() && old(self).objects@[k].id
                                    == x;
                            if k < i as int {
                                assert(self.objects@[k].id == x);
                            } else {
                                assert(k > i as int);
                                assert(self.objects@[k - 1].id == x);
                            }
                        }
                    }
                    assert forall|k: int|
                        0 <= k < self.objects@.len() implies old(self).objects@.contains(
                        self.objects@[k],
                    ) && self.objects@[k].id != id by {
                        if k < i as int {
                            assert(self.objects@[k] == old(self).objects@[k]);
                        } else {
                            assert(self.objects@[k] == old(self).objects@[k + 1]);
                        }
                    }
                }
                return Some(o);
            }
            i = i + 1;
        }
        None
    }

    /// Reconciles the tracker against a replaced catalog.
    ///
    /// Afterwards the tracker holds exactly the catalog's identifiers.  A
    /// vanished identifier's object is destroyed with all derived state; a
    /// new or surviving identifier gets constants re-derived from its
    /// element set, and a survivor whose set still derives keeps its last
    /// position, velocity and geodetic coordinate until the next tick.
    pub fn apply_store_change(&mut self, catalog: &ElementStore)
        requires
            old(self).wf(),
            catalog.wf(),
        ensures
            final(self).wf(),
            forall|id: u64| final(self).contains_id(id) <==> catalog.contains_id(id),
            final(self).objects@.len() == catalog.sats@.len(),
            forall|i: int|
                0 <= i < final(self).objects@.len() ==> final(self).objects@[i]
                    == spec_object_of(
                    catalog.sats@[i],
                    if old(self).contains_id(catalog.sats@[i].norad_id) {
                        Some(old(self).spec_get(catalog.sats@[i].norad_id))
                    } else {
                        None
                    },
                ),
    {
        let mut next: Vec<TrackedObject> = Vec::new();
        let mut k: usize = 0;
        while k < catalog.sats.len()
            invariant
                old(self).wf(),
                self.wf(),
                catalog.wf(),
                k <= catalog.sats@.len(),
                next@.len() == k,
                forall|i: int|
                    0 <= i < k ==> next@[i] == spec_object_of(
                        catalog.sats@[i],
                        if old(self).contains_id(catalog.sats@[i].norad_id) {
                            Some(old(self).spec_get(catalog.sats@[i].norad_id))
                        } else {
                            None
                        },
                    ),
                forall|x: u64|
                    self.contains_id(x) <==> old(self).contains_id(x),
            decreases catalog.sats@.len() - k,
        {
            let e = &catalog.sats[k];
            let constants = crate::elements::derive(e);
            let kept = self.get(e.norad_id);
            let (position, velocity, geodetic) = match (&constants, kept) {
                (Ok(_), Some(o)) => (o.position, o.velocity, o.geodetic),
                _ => (None, None, None),
            };
            let name = match &e.object_name {
                Some(n) => Some(n.clone()),
                None => None,
            };
            let obj = TrackedObject {
                id: e.norad_id,
                name,
                epoch_s: e.epoch_s,
                constants: match constants {
                    Ok(c) => Some(c),
                    Err(_) => None,
                },
                position,
                velocity,
                geodetic,
            };
            proof {
                assert(obj == spec_object_of(
                    catalog.sats@[k as int],
                    if old(self).contains_id(catalog.sats@[k as int].norad_id) {
                        Some(old(self).spec_get(catalog.sats@[k as int].norad_id))
                    } else {
                        None
                    },
                ));
            }
            next.push(obj);
            k = k + 1;
        }
        self.objects = next;
        proof {
            assert forall|i: int, j: int|
                0 <= i < j < self.objects@.len() implies self.objects@[i].id
                != self.objects@[j].id by {
                assert(self.objects@[i].id == catalog.sats@[i].norad_id);
                assert(self.objects@[j].id == catalog.sats@[j].norad_id);
            }
            assert forall|id: u64|
                self.contains_id(id) <==> catalog.contains_id(id) by {
                if self.contains_id(id) {
                    let i = choose|i: int|
                        0 <= i < self.objects@.len() && self.objects@[i].id == id;
                    assert(catalog.sats@[i].norad_id == id);
                }
                if catalog.contains_id(id) {
                    let i = choose|i: int|
                        0 <= i < catalog.sats@.len() && catalog.sats@[i].norad_id == id;
                    assert(self.objects@[i].id == id);
                }
            }
        }
    }

    /// The position in `outcomes` of the outcome for `id`, if any.
    fn find_outcome(outcomes: &Vec<PropagationOutcome>, id: u64) -> (r: Option<usize>)
        ensures
            match r {
                Some(i) => i < outcomes@.len() && outcomes@[i as int].id == id,
                None => forall|i: int| 0 <= i < outcomes@.len() ==> outcomes@[i].id != id,
            },
    {
        let mut i: usize = 0;
        while i < outcomes.len()
            invariant
                i <= outcomes@.len(),
                forall|k: int| 0 <= k < i ==> outcomes@[k].id != id,
            decreases outcomes@.len() - i,
        {
            if outcomes[i].id == id {
                return Some(i);
            }
            i = i + 1;
        }
        None
    }

    /// The name a divergence report carries for an object: the catalog
    /// name, or empty when the catalog has none.
    pub open spec fn report_name_of(o: TrackedObject) -> Seq<char> {
        if o.name is Some {
            o.name->0@
        } else {
            Seq::<char>::empty()
        }
    }

    /// The outcome for `id` names a divergence.
    pub open spec fn diverged(outs: Seq<PropagationOutcome>, id: u64) -> bool {
        outcome_for(outs, id) matches Some(oc) && oc.result is Err
    }

    /// The divergence reason carried by the outcome for `id`.
    pub open spec fn divergence_of(outs: Seq<PropagationOutcome>, id: u64) -> PropagationError {
        outcome_for(outs, id)->0.result->Err_0
    }

    /// Applies one tick's outcome to a single object: a success overwrites
    /// position and velocity and recomputes the geodetic coordinate when the
    /// position actually changed; a divergence leaves the object untouched
    /// and yields its report.
    fn tick_one(o: TrackedObject, outcomes: &Vec<PropagationOutcome>) -> (r: (
        TrackedObject,
        Option<DivergenceReport>,
    ))
        requires
            forall|i: int, j: int|
                0 <= i < j < outcomes@.len() ==> outcomes@[i].id != outcomes@[j].id,
            forall|i: int|
                0 <= i < outcomes@.len() ==> ((#[trigger] outcomes@[i]).result matches Ok(t) ==> (
                -1_000_000_000 <= t.2.0 <= 1_000_000_000 && -1_000_000_000 <= t.2.1
                    <= 1_000_000_000 && -1_000_000_000 <= t.2.2 <= 1_000_000_000)),
        ensures
            r.0 == spec_tick_object(o, outcomes@),
            r.1 is Some <==> Self::diverged(outcomes@, o.id),
            r.1 matches Some(rep) ==> rep.id == o.id && rep.error == Self::divergence_of(
                outcomes@,
                o.id,
            ) && rep.name@ == Self::report_name_of(o),
    {
        let found = Self::find_outcome(outcomes, o.id);
        match found {
            None => {
                proof {
                    reveal(outcome_for);
                    assert(outcome_for(outcomes@, o.id) is None);
                }
                (o, None)
            },
            Some(i) => {
                proof {
                    reveal(outcome_for);
                    let w = choose|w: int|
                        0 <= w < outcomes@.len() && outcomes@[w].id == o.id;
                    assert(w == i as int);
                    assert(outcome_for(outcomes@, o.id) == Some(outcomes@[i as int]));
                }
                match &outcomes[i].result {
                    Ok(t) => {
                        let (pos, vel, ecef) = *t;
                        let mut u = o;
                        let changed = match &u.position {
                            Some(p) => !(p.0 == pos.0 && p.1 == pos.1 && p.2 == pos.2),
                            None => true,
                        };
                        u.position = Some(pos);
                        u.velocity = Some(vel);
                        if changed {
                            let g = ecef_to_wgs84(ecef.0, ecef.1, ecef.2);
                            u.geodetic = Some(LatLonAlt(g.0, g.1, g.2));
                        }
                        (u, None)
                    },
                    Err(e) => {
                        let name = match &o.name {
                            Some(n) => n.clone(),
                            None => String::new(),
                        };
                        let report = DivergenceReport { id: o.id, name, error: *e };
                        (o, Some(report))
                    },
                }
            },
        }
    }

    /// Applies one tick's propagation outcomes to every tracked object.
    ///
    /// Successful outcomes rewrite their objects; each divergence leaves its
    /// object untouched and is reported exactly once, so a repeatedly
    /// failing object yields one notice per tick, not an unbounded stream.
    /// Outcomes for identifiers that are no longer tracked are skipped.
    pub fn tick_update(&mut self, outcomes: &Vec<PropagationOutcome>) -> (reports: Vec<
        DivergenceReport,
    >)
        requires
            old(self).wf(),
            forall|i: int, j: int|
                0 <= i < j < outcomes@.len() ==> outcomes@[i].id != outcomes@[j].id,
            forall|i: int|
                0 <= i < outcomes@.len() ==> ((#[trigger] outcomes@[i]).result matches Ok(t) ==> (
                -1_000_000_000 <= t.2.0 <= 1_000_000_000 && -1_000_000_000 <= t.2.1
                    <= 1_000_000_000 && -1_000_000_000 <= t.2.2 <= 1_000_000_000)),
        ensures
            final(self).wf(),
            final(self).objects@.len() == old(self).objects@.len(),
            forall|j: int|
                0 <= j < old(self).objects@.len() ==> final(self).objects@[j] == spec_tick_object(
                    old(self).objects@[j],
                    outcomes@,
                ),
            forall|id: u64| final(self).contains_id(id) <==> old(self).contains_id(id),
            forall|m: int|
                0 <= m < reports@.len() ==> old(self).contains_id((#[trigger] reports@[m]).id)
                    && Self::diverged(outcomes@, reports@[m].id) && reports@[m].error
                    == Self::divergence_of(outcomes@, reports@[m].id) && reports@[m].name@
                    == Self::report_name_of(old(self).spec_get(reports@[m].id)),
            forall|j: int|
                0 <= j < old(self).objects@.len() && Self::diverged(
                    outcomes@,
                    (#[trigger] old(self).objects@[j]).id,
                ) ==> exists|m: int|
                    0 <= m < reports@.len() && (#[trigger] reports@[m]).id == old(
                        self,
                    ).objects@[j].id,
            forall|m1: int, m2: int|
                0 <= m1 < m2 < reports@.len() ==> reports@[m1].id != reports@[m2].id,
    {
        let ghost orig = self.objects@;
        let ghost outs = outcomes@;
        let mut reports: Vec<DivergenceReport> = Vec::new();
        let mut next: Vec<TrackedObject> = Vec::new();
        let ghost mut done: int = 0;
        let ghost mut srcj: Seq<int> = Seq::empty();
        while self.objects.len() > 0
            invariant
                old(self).wf(),
                0 <= done <= orig.len(),
                orig == old(self).objects@,
                outs == outcomes@,
                self.objects@ == orig.skip(done),
                next@.len() == done,
                forall|i: int, j: int| 0 <= i < j < outs.len() ==> outs[i].id != outs[j].id,
                forall|i: int|
                    0 <= i < outs.len() ==> ((#[trigger] outs[i]).result matches Ok(t) ==> (
                    -1_000_000_000 <= t.2.0 <= 1_000_000_000 && -1_000_000_000 <= t.2.1
                        <= 1_000_000_000 && -1_000_000_000 <= t.2.2 <= 1_000_000_000)),
                forall|j: int| 0 <= j < done ==> next@[j] == spec_tick_object(orig[j], outs),
                srcj.len() == reports@.len(),
                forall|m: int| #![trigger reports@[m]]
                    0 <= m < reports@.len() ==> (0 <= srcj[m] < done && reports@[m].id == orig[
                    srcj[m]].id && Self::diverged(outs, reports@[m].id) && reports@[m].error
                        == Self::divergence_of(outs, reports@[m].id) && reports@[m].name@
                        == Self::report_name_of(orig[srcj[m]])),
                forall|m1: int, m2: int|
                    0 <= m1 < m2 < reports@.len() ==> srcj[m1] < srcj[m2],
                forall|j: int|
                    0 <= j < done && Self::diverged(outs, (#[trigger] orig[j]).id) ==> exists|
                        m: int,
                    |
                        0 <= m < reports@.len() && (#[trigger] reports@[m]).id == orig[j].id,
            decreases self.objects@.len(),
        {
            let o = self.objects.remove(0);
            proof {
                assert(orig.skip(done)[0] == o);
                assert(orig[done] == o);
                assert(self.objects@ =~= orig.skip(done + 1));
            }
            let (u, rep) = Self::tick_one(o, outcomes);
            next.push(u);
            match rep {
                None => {
                    proof {
                        done = done + 1;
                    }
                },
                Some(rep) => {
                    let ghost pre_reports = reports@;
                    let ghost pre_srcj = srcj;
                    proof {
                        srcj = srcj.push(done);
                    }
                    reports.push(rep);
                    proof {
                        let n = reports@.len() - 1;
                        assert(reports@ == pre_reports.push(rep));
                        assert(reports@[n] == rep && srcj[n] == done);
                        assert forall|m: int| #![trigger reports@[m]]
                            0 <= m < reports@.len() implies (0 <= srcj[m] < done + 1
                            && reports@[m].id == orig[srcj[m]].id && Self::diverged(
                            outs,
                            reports@[m].id,
                        ) && reports@[m].error == Self::divergence_of(
                            outs,
                            reports@[m].id,
                        ) && reports@[m].name@ == Self::report_name_of(orig[srcj[m]])) by {
                            if m < n {
                                assert(reports@[m] == pre_reports[m]);
                                assert(srcj[m] == pre_srcj[m]);
                            } else {
                                assert(reports@[m] == rep);
                                assert(orig[srcj[m]] == orig[done]);
                            }
                        }
                        assert forall|m1: int, m2: int|
                            0 <= m1 < m2 < reports@.len() implies srcj[m1] < srcj[m2] by {
                            if m2 < n {
                                assert(srcj[m1] == pre_srcj[m1] && srcj[m2] == pre_srcj[m2]);
                            } else {
                                assert(srcj[m2] == done);
                                assert(reports@[m1] == pre_reports[m1]);
                                assert(srcj[m1] == pre_srcj[m1]);
                                assert(0 <= pre_srcj[m1] < done);
                            }
                        }
                        done = done + 1;
                        assert forall|j: int|
                            0 <= j < done && Self::diverged(
                                outs,
                                (#[trigger] orig[j]).id,
                            ) implies exists|m: int|
                            0 <= m < reports@.len() && (#[trigger] reports@[m]).id == orig[
                            j].id by {
                            if j == done - 1 {
                                assert(reports@[n].id == orig[j].id);
                            } else {
                                let m = choose|m: int|
                                    0 <= m < pre_reports.len() && (#[trigger] pre_reports[m]).id
                                        == orig[j].id;
                                assert(reports@[m].id == orig[j].id);
                            }
                        }
                    }
                },
            }
        }
        proof {
            assert(orig.skip(done) =~= Seq::<TrackedObject>::empty());
            assert(done == orig.len());
        }
        self.objects = next;
        proof {
            assert forall|i2: int, j2: int|
                0 <= i2 < j2 < self.objects@.len() implies self.objects@[i2].id
                != self.objects@[j2].id by {
                assert(self.objects@[i2] == spec_tick_object(orig[i2], outs));
                assert(self.objects@[j2] == spec_tick_object(orig[j2], outs));
                assert(spec_tick_object(orig[i2], outs).id == orig[i2].id);
                assert(spec_tick_object(orig[j2], outs).id == orig[j2].id);
            }
            assert forall|id: u64|
                self.contains_id(id) <==> old(self).contains_id(id) by {
                assert(forall|j: int|
                    0 <= j < orig.len() ==> (#[trigger] self.objects@[j]).id == orig[j].id);
                if self.contains_id(id) {
                    let j = choose|j: int|
                        0 <= j < self.objects@.len() && self.objects@[j].id == id;
                    assert(orig[j].id == id);
                }
                if old(self).contains_id(id) {
                    let j = choose|j: int| 0 <= j < orig.len() && orig[j].id == id;
                    assert(self.objects@[j].id == id);
                }
            }
            assert forall|m: int|
                0 <= m < reports@.len() implies old(self).contains_id(
                    (#[trigger] reports@[m]).id,
                ) && reports@[m].name@ == Self::report_name_of(
                old(self).spec_get(reports@[m].id),
            ) by {
                let j = srcj[m];
                assert(orig[j].id == reports@[m].id);
                assert(old(self).contains_id(reports@[m].id));
                let j2 = old(self).index_of(reports@[m].id);
                assert(0 <= j2 < orig.len() && orig[j2].id == reports@[m].id);
                if j2 != j {
                    // two distinct positions cannot carry the same identifier
                    assert(orig[j].id != orig[j2].id);
                }
                assert(old(self).spec_get(reports@[m].id) == orig[j]);
            }
            assert forall|m1: int, m2: int|
                0 <= m1 < m2 < reports@.len() implies reports@[m1].id != reports@[m2].id by {
                assert(srcj[m1] < srcj[m2]);
                assert(reports@[m1].id == orig[srcj[m1]].id);
                assert(reports@[m2].id == orig[srcj[m2]].id);
                assert(orig[srcj[m1]].id != orig[srcj[m2]].id);
            }
        }
        reports
    }
}

} // verus!
