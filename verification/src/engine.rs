//! The engine: catalog, refresh control and tracker under one tick loop.
//!
//! Within one tick the parts run in a fixed order: a completed fetch is
//! reconciled into the catalog before the tracker reads it, and the
//! tracker's objects are updated before link statistics are computed from
//! them.  The application around the loop performs the fetch, the file
//! reads and writes, and the propagation, and hands the results in as plain
//! values.

use vstd::prelude::*;

verus! {

use crate::elements::OrbitalElementSet;
use crate::elements::RefreshError;
use crate::refresh::ElementCache;
use crate::refresh::RefreshController;
use crate::refresh::STALENESS_MULTIPLIER;
use crate::refresh::spec_trigger;
use crate::store::ElementStore;
use crate::store::is_last_with_id;
use crate::store::seq_contains_id;
use crate::tracker::PositionTracker;
use crate::tracker::PropagationOutcome;
use crate::tracker::DivergenceReport;
use crate::tracker::spec_object_of;
use crate::tracker::spec_tick_object;

/// The orbital state engine: the element catalog, the refresh controller
/// and the object tracker.
pub struct Engine {
    /// The authoritative element catalog.
    pub store: ElementStore,
    /// Staleness policy and in-flight fetch control.
    pub controller: RefreshController,
    /// Per-object derived state.
    pub tracker: PositionTracker,
}

impl Engine {
    /// The parts are well-formed and the tracker mirrors the catalog.
    pub open spec fn wf(self) -> bool {
        &&& self.store.wf()
        &&& self.controller.wf()
        &&& self.tracker.wf()
        &&& forall|id: u64| self.tracker.contains_id(id) <==> self.store.contains_id(id)
    }

    /// Startup: adopt the persisted cache when it is fresh, else begin a
    /// refresh with an empty catalog.
    ///
    /// `cache` is `None` when the cache file was missing, unreadable or
    /// unparseable.  Returns the engine and whether the application must
    /// start a network fetch now.
    pub fn init_sat_data(
        refresh_period_s: u64,
        now_s: i64,
        cache: Option<ElementCache>,
    ) -> (r: (Engine, bool))
        requires
            0 < refresh_period_s <= 1_000_000_000_000,
            -4_000_000_000_000 <= now_s <= 4_000_000_000_000,
            cache matches Some(c) ==> -4_000_000_000_000 <= c.epoch_s <= 4_000_000_000_000,
        ensures
            r.0.wf(),
            match cache {
                Some(c) => {
                    if now_s - c.epoch_s <= STALENESS_MULTIPLIER * refresh_period_s {
                        &&& !r.1
                        &&& r.0.controller.state is Fresh
                        &&& forall|id: u64|
                            r.0.store.contains_id(id) <==> seq_contains_id(c.elements@, id)
                        &&& forall|i: int|
                            0 <= i < r.0.store.sats@.len() ==> is_last_with_id(
                                c.elements@,
                                #[trigger] r.0.store.sats@[i],
                            )
                        &&& r.0.tracker.objects@.len() == r.0.store.sats@.len()
                        &&& forall|i: int|
                            0 <= i < r.0.store.sats@.len() ==> r.0.tracker.objects@[i]
                                == spec_object_of(#[trigger] r.0.store.sats@[i], None)
                    } else {
                        &&& r.1
                        &&& r.0.controller.state is Refreshing
                        &&& r.0.store.sats@.len() == 0
                        &&& r.0.tracker.objects@.len() == 0
                    }
                },
                None => {
                    &&& r.1
                    &&& r.0.controller.state is Refreshing
                    &&& r.0.store.sats@.len() == 0
                    &&& r.0.tracker.objects@.len() == 0
                },
            },
    {
        let mut controller = RefreshController::new(refresh_period_s, now_s);
        let mut store = ElementStore::new();
        let mut tracker = PositionTracker::new();
        let adopt = controller.load_cache(cache, now_s);
        let needs_fetch = match adopt {
            Some(elements) => {
                store.replace_all(elements);
                let ghost empty = tracker;
                tracker.apply_store_change(&store);
                proof {
                    // nothing was tracked before, so every object is seeded
                    // fresh from its catalog entry
                    assert forall|i: int|
                        0 <= i < store.sats@.len() implies tracker.objects@[i] == spec_object_of(
                        #[trigger] store.sats@[i],
                        None,
                    ) by {
                        assert(!empty.contains_id(store.sats@[i].norad_id));
                    }
                }
                false
            },
            None => true,
        };
        (Engine { store, controller, tracker }, needs_fetch)
    }

    /// Periodic tick of the refresh timer; a manual refresh request is the
    /// timer forced to fire now.  Returns whether the application must
    /// start a network fetch.
    pub fn update_data(&mut self, now_s: i64) -> (issued: bool)
        requires
            old(self).wf(),
            -4_000_000_000_000 <= now_s <= 4_000_000_000_000,
        ensures
            final(self).wf(),
            final(self).store == old(self).store,
            final(self).tracker == old(self).tracker,
            final(self).controller.refresh_period_s == old(self).controller.refresh_period_s,
            now_s < old(self).controller.next_refresh_s ==> !issued && final(self).controller
                == old(self).controller,
            now_s >= old(self).controller.next_refresh_s ==> ((issued <==> !(
            old(self).controller.state is Refreshing)) && final(self).controller.next_refresh_s
                == now_s + old(self).controller.refresh_period_s
                && final(self).controller.state is Refreshing),
    {
        self.controller.poll_timer(now_s)
    }

    /// A manual refresh request: at most one fetch is in flight, so the
    /// request is dropped while one already is.
    pub fn trigger_refresh(&mut self) -> (issued: bool)
        requires
            old(self).wf(),
        ensures
            final(self).wf(),
            final(self).store == old(self).store,
            final(self).tracker == old(self).tracker,
            (final(self).controller, issued) == spec_trigger(old(self).controller),
    {
        self.controller.trigger_refresh()
    }

    /// Reconciles a completed fetch into the catalog and the tracker.
    ///
    /// On success the whole mapping is replaced at once and the tracker is
    /// reconciled by set difference; the returned flag tells the
    /// application to persist the adopted catalog.  On failure the previous
    /// catalog, possibly empty, stays authoritative.
    pub fn receive_task(
        &mut self,
        outcome: Result<Vec<OrbitalElementSet>, RefreshError>,
    ) -> (persist: bool)
        requires
            old(self).wf(),
            old(self).controller.state is Refreshing,
        ensures
            final(self).wf(),
            match outcome {
                Ok(v) => {
                    &&& persist
                    &&& final(self).controller.state is Fresh
                    &&& forall|id: u64|
                        final(self).store.contains_id(id) <==> seq_contains_id(v@, id)
                    &&& forall|id: u64|
                        final(self).tracker.contains_id(id) <==> seq_contains_id(v@, id)
                    &&& forall|i: int|
                        0 <= i < final(self).store.sats@.len() ==> is_last_with_id(
                            v@,
                            #[trigger] final(self).store.sats@[i],
                        )
                    &&& final(self).tracker.objects@.len() == final(self).store.sats@.len()
                    &&& forall|i: int|
                        0 <= i < final(self).store.sats@.len() ==> final(self).tracker.objects@[i]
                            == spec_object_of(
                            #[trigger] final(self).store.sats@[i],
                            if old(self).tracker.contains_id(final(self).store.sats@[i].norad_id) {
                                Some(old(self).tracker.spec_get(
                                    final(self).store.sats@[i].norad_id,
                                ))
                            } else {
                                None
                            },
                        )
                },
                Err(_) => {
                    &&& !persist
                    &&& final(self).controller.state is RefreshFailed
                    &&& final(self).store == old(self).store
                    &&& final(self).tracker == old(self).tracker
                },
            },
    {
        let adopt = self.controller.complete_refresh(outcome);
        match adopt {
            Some(elements) => {
                self.store.replace_all(elements);
                self.tracker.apply_store_change(&self.store);
                true
            },
            None => false,
        }
    }

    /// Per-tick position update: applies the application's propagation
    /// outcomes to every tracked object and returns the divergence
    /// reports, one per diverged object and tick.
    pub fn update_sat_pos(&mut self, outcomes: &Vec<PropagationOutcome>) -> (reports: Vec<
        DivergenceReport,
    >)
        requires
            old(self).wf(),
            forall|i: int, j: int|
                0 <= i < j < outcomes@.len() ==> outcomes@[i].id != outcomes@[j].id,
            forall|i: int|
                0 <= i < outcomes@.len() ==> ((#[trigger] outcomes@[i]).result matches Ok(t) ==> (
                -1_000_000_000 <= t.2.0 <= 1_000_000_000 && -1_000_000_000 <= t.2.1
                    <= 1_000_000_000 && -1_000_000_000 <= t.2.2 <= 1_000_000_000)),
        ensures
            final(self).wf(),
            final(self).store == old(self).store,
            final(self).controller == old(self).controller,
            final(self).tracker.objects@.len() == old(self).tracker.objects@.len(),
            forall|j: int|
                0 <= j < old(self).tracker.objects@.len() ==> final(self).tracker.objects@[j]
                    == spec_tick_object(old(self).tracker.objects@[j], outcomes@),
            forall|m1: int, m2: int|
                0 <= m1 < m2 < reports@.len() ==> reports@[m1].id != reports@[m2].id,
            forall|m: int|
                0 <= m < reports@.len() ==> old(self).tracker.contains_id(
                    (#[trigger] reports@[m]).id,
                ) && PositionTracker::diverged(outcomes@, reports@[m].id) && reports@[m].error
                    == PositionTracker::divergence_of(outcomes@, reports@[m].id)
                    && reports@[m].name@ == PositionTracker::report_name_of(
                    old(self).tracker.spec_get(reports@[m].id),
                ),
            forall|j: int|
                0 <= j < old(self).tracker.objects@.len() && PositionTracker::diverged(
                    outcomes@,
                    (#[trigger] old(self).tracker.objects@[j]).id,
                ) ==> exists|m: int|
                    0 <= m < reports@.len() && (#[trigger] reports@[m]).id == old(
                        self,
                    ).tracker.objects@[j].id,
    {
        self.tracker.tick_update(outcomes)
    }
}

} // verus!
