//! Staleness policy and non-blocking refresh control.
//!
//! The controller decides when the catalog must be refreshed and tracks the
//! single in-flight fetch.  It never performs the fetch itself: the
//! application issues the network request when a trigger fires and reports
//! the outcome back, so the control flow here is fully synchronous and the
//! fetch never blocks the tick loop.

use vstd::prelude::*;

verus! {

use crate::elements::OrbitalElementSet;
use crate::elements::RefreshError;

/// How many refresh periods a cached catalog may age before it is stale.
pub const STALENESS_MULTIPLIER: u64 = 7;

/// A persisted catalog snapshot: the element sets and their reference epoch.
pub struct ElementCache {
    /// Reference epoch of the snapshot, Unix seconds.
    pub epoch_s: i64,
    /// The cached element sets, in catalog order.
    pub elements: Vec<OrbitalElementSet>,
}

impl ElementCache {
    /// Builds a cache snapshot from a catalog, dating it by the first
    /// element's reference epoch; an empty catalog yields no cache.
    pub fn of_elements(elements: Vec<OrbitalElementSet>) -> (r: Option<ElementCache>)
        ensures
            r is Some <==> elements@.len() > 0,
            r matches Some(c) ==> c.epoch_s == elements@[0].epoch_s && c.elements@ == elements@,
    {
        if elements.len() == 0 {
            None
        } else {
            let epoch_s = elements[0].epoch_s;
            Some(ElementCache { epoch_s, elements })
        }
    }

    /// A cache is fresh exactly when its age does not exceed the staleness
    /// multiple of the refresh period; otherwise a refresh is mandatory.
    pub fn is_fresh(&self, now_s: i64, refresh_period_s: u64) -> (r: bool)
        requires
            -4_000_000_000_000 <= self.epoch_s <= 4_000_000_000_000,
            -4_000_000_000_000 <= now_s <= 4_000_000_000_000,
            refresh_period_s <= 1_000_000_000_000,
        ensures
            r <==> now_s - self.epoch_s <= STALENESS_MULTIPLIER * refresh_period_s,
    {
        let age: i64 = now_s - self.epoch_s;
        age <= (STALENESS_MULTIPLIER * refresh_period_s) as i64
    }
}

/// Where the refresh cycle stands.
#[derive(Clone, Copy, Debug, PartialEq, Eq, Structural)]
pub enum RefreshState {
    /// No load was attempted yet.
    Uninitialized,
    /// The persisted cache is fresh and was adopted; no fetch is in flight.
    Fresh,
    /// The adopted data has aged past the policy; a refresh is due.
    Stale,
    /// Exactly one fetch is in flight.
    Refreshing,
    /// The last fetch failed; previously adopted data, if any, remains
    /// authoritative.
    RefreshFailed,
}

/// Drives the staleness policy and the at-most-one-in-flight fetch.
pub struct RefreshController {
    /// Current position in the refresh cycle.
    pub state: RefreshState,
    /// Configured refresh period, seconds.
    pub refresh_period_s: u64,
    /// When the periodic timer next fires, Unix seconds.
    pub next_refresh_s: i64,
    /// Whether a catalog has ever been adopted.
    pub has_data: bool,
    /// Reference epoch of the adopted catalog, Unix seconds; meaningful
    /// only while `has_data` holds.
    pub adopted_epoch_s: i64,
    /// How many fetches have been issued in total.
    pub fetches_issued: u64,
}

/// The transition taken by a refresh trigger: a second trigger while a
/// fetch is in flight is a no-op, so at most one fetch is ever in flight.
pub open spec fn spec_trigger(c: RefreshController) -> (RefreshController, bool) {
    if c.state is Refreshing {
        (c, false)
    } else {
        (
            RefreshController {
                state: RefreshState::Refreshing,
                fetches_issued: if c.fetches_issued < 0xffff_ffff_ffff_ffffu64 {
                    (c.fetches_issued + 1) as u64
                } else {
                    c.fetches_issued
                },
                ..c
            },
            true,
        )
    }
}

impl RefreshController {
    /// The controller's counters stay inside the ranges its arithmetic
    /// needs.
    pub open spec fn wf(self) -> bool {
        0 < self.refresh_period_s <= 1_000_000_000_000
            && -4_000_000_000_000 <= self.next_refresh_s <= 8_000_000_000_000
            && -4_000_000_000_000 <= self.adopted_epoch_s <= 4_000_000_000_000
    }

    /// A new controller that has loaded nothing yet.
    ///
    /// The refresh period comes from configuration; a period of zero is a
    /// configuration error that the application rejects at startup.
    pub fn new(refresh_period_s: u64, now_s: i64) -> (r: RefreshController)
        requires
            0 < refresh_period_s <= 1_000_000_000_000,
            -4_000_000_000_000 <= now_s <= 4_000_000_000_000,
        ensures
            r.wf(),
            r.state is Uninitialized,
            r.refresh_period_s == refresh_period_s,
            r.next_refresh_s == now_s + refresh_period_s,
            !r.has_data,
            r.fetches_issued == 0,
    {
        RefreshController {
            state: RefreshState::Uninitialized,
            refresh_period_s,
            next_refresh_s: now_s + refresh_period_s as i64,
            has_data: false,
            adopted_epoch_s: 0,
            fetches_issued: 0,
        }
    }

    /// Issues a refresh unless one is already in flight.
    ///
    /// Returns whether a fetch must actually be started; a trigger while
    /// `Refreshing` changes nothing.
    pub fn trigger_refresh(&mut self) -> (issued: bool)
        requires
            old(self).wf(),
        ensures
            final(self).wf(),
            (*final(self), issued) == spec_trigger(*old(self)),
    {
        if matches!(self.state, RefreshState::Refreshing) {
            false
        } else {
            self.state = RefreshState::Refreshing;
            if self.fetches_issued < 0xffff_ffff_ffff_ffffu64 {
                self.fetches_issued = self.fetches_issued + 1;
            }
            true
        }
    }

    /// Startup: adopt a fresh persisted cache, or start a refresh.
    ///
    /// `cache` is `None` when the persisted file was missing, unreadable or
    /// unparseable.  A fresh cache is adopted without network access and
    /// returned for the store to take; a stale or missing cache forces an
    /// immediate fetch.
    pub fn load_cache(
        &mut self,
        cache: Option<ElementCache>,
        now_s: i64,
    ) -> (adopt: Option<Vec<OrbitalElementSet>>)
        requires
            old(self).wf(),
            old(self).state is Uninitialized,
            -4_000_000_000_000 <= now_s <= 4_000_000_000_000,
            cache matches Some(c) ==> -4_000_000_000_000 <= c.epoch_s <= 4_000_000_000_000,
        ensures
            final(self).wf(),
            final(self).refresh_period_s == old(self).refresh_period_s,
            final(self).next_refresh_s == old(self).next_refresh_s,
            match cache {
                Some(c) => {
                    if now_s - c.epoch_s <= STALENESS_MULTIPLIER * old(self).refresh_period_s {
                        &&& adopt matches Some(v) && v@ == c.elements@
                        &&& final(self).state is Fresh
                        &&& final(self).has_data
                        &&& final(self).adopted_epoch_s == c.epoch_s
                        &&& final(self).fetches_issued == old(self).fetches_issued
                    } else {
                        &&& adopt is None
                        &&& final(self).state is Refreshing
                        &&& final(self).has_data == old(self).has_data
                        &&& final(self).fetches_issued == spec_trigger(*old(self)).0.fetches_issued
                    }
                },
                None => {
                    &&& adopt is None
                    &&& final(self).state is Refreshing
                    &&& final(self).has_data == old(self).has_data
                    &&& final(self).fetches_issued == spec_trigger(*old(self)).0.fetches_issued
                },
            },
    {
        match cache {
            Some(c) => {
                if c.is_fresh(now_s, self.refresh_period_s) {
                    self.state = RefreshState::Fresh;
                    self.has_data = true;
                    self.adopted_epoch_s = c.epoch_s;
                    Some(c.elements)
                } else {
                    self.trigger_refresh();
                    None
                }
            },
            None => {
                self.trigger_refresh();
                None
            },
        }
    }

    /// Periodic tick: when the timer has elapsed, trigger a refresh and
    /// re-arm the timer.  Returns whether a fetch must be started.
    pub fn poll_timer(&mut self, now_s: i64) -> (issued: bool)
        requires
            old(self).wf(),
            -4_000_000_000_000 <= now_s <= 4_000_000_000_000,
        ensures
            final(self).wf(),
            final(self).refresh_period_s == old(self).refresh_period_s,
            final(self).has_data == old(self).has_data,
            now_s < old(self).next_refresh_s ==> *final(self) == *old(self) && !issued,
            now_s >= old(self).next_refresh_s ==> final(self).next_refresh_s == now_s
                + old(self).refresh_period_s && (final(self).state, issued) == (
            spec_trigger(*old(self)).0.state,
            spec_trigger(*old(self)).1,
            ) && final(self).fetches_issued == spec_trigger(*old(self)).0.fetches_issued,
    {
        if now_s >= self.next_refresh_s {
            let issued = self.trigger_refresh();
            self.next_refresh_s = now_s + self.refresh_period_s as i64;
            issued
        } else {
            false
        }
    }

    /// Reconciles a completed fetch.
    ///
    /// On success the new catalog is adopted and returned so the caller can
    /// replace the store and persist the cache; on failure nothing is
    /// adopted and previously adopted data, if any, remains authoritative.
    pub fn complete_refresh(
        &mut self,
        outcome: Result<Vec<OrbitalElementSet>, RefreshError>,
    ) -> (adopt: Option<Vec<OrbitalElementSet>>)
        requires
            old(self).wf(),
            old(self).state is Refreshing,
        ensures
            final(self).wf(),
            final(self).refresh_period_s == old(self).refresh_period_s,
            final(self).next_refresh_s == old(self).next_refresh_s,
            final(self).fetches_issued == old(self).fetches_issued,
            match outcome {
                Ok(v) => {
                    &&& adopt matches Some(a) && a@ == v@
                    &&& final(self).state is Fresh
                    &&& final(self).has_data
                    &&& v@.len() == 0 ==> final(self).adopted_epoch_s == old(
                        self,
                    ).adopted_epoch_s
                    &&& v@.len() > 0 ==> final(self).adopted_epoch_s == (if v@[0].epoch_s
                        < -4_000_000_000_000 {
                        -4_000_000_000_000int
                    } else if v@[0].epoch_s > 4_000_000_000_000 {
                        4_000_000_000_000int
                    } else {
                        v@[0].epoch_s as int
                    })
                },
                Err(_) => {
                    &&& adopt is None
                    &&& final(self).state is RefreshFailed
                    &&& final(self).has_data == old(self).has_data
                },
            },
    {
        match outcome {
            Ok(v) => {
                self.state = RefreshState::Fresh;
                self.has_data = true;
                if v.len() > 0 {
                    let e = v[0].epoch_s;
                    self.adopted_epoch_s = if e < -4_000_000_000_000 {
                        -4_000_000_000_000
                    } else if e > 4_000_000_000_000 {
                        4_000_000_000_000
                    } else {
                        e
                    };
                }
                Some(v)
            },
            Err(_) => {
                self.state = RefreshState::RefreshFailed;
                None
            },
        }
    }

    /// Ages the adopted catalog against the staleness policy: once its
    /// reference epoch falls past the staleness multiple of the refresh
    /// period, `Fresh` data becomes `Stale` and a refresh is due at the
    /// next trigger.
    pub fn poll_staleness(&mut self, now_s: i64) -> (stale: bool)
        requires
            old(self).wf(),
            -4_000_000_000_000 <= now_s <= 4_000_000_000_000,
        ensures
            final(self).wf(),
            stale <==> (old(self).state is Fresh && now_s - old(self).adopted_epoch_s
                > STALENESS_MULTIPLIER * old(self).refresh_period_s),
            stale ==> *final(self) == (RefreshController {
                state: RefreshState::Stale,
                ..*old(self)
            }),
            !stale ==> *final(self) == *old(self),
    {
        let aged = matches!(self.state, RefreshState::Fresh) && now_s - self.adopted_epoch_s
            > (STALENESS_MULTIPLIER * self.refresh_period_s) as i64;
        if aged {
            self.state = RefreshState::Stale;
        }
        aged
    }
}

/// Two refresh triggers in immediate succession issue exactly one fetch:
/// the first leaves a fetch in flight and the second is a no-op.
pub proof fn lemma_at_most_one_in_flight(c: RefreshController)
    ensures
        !(c.state is Refreshing) ==> spec_trigger(c).1 && !spec_trigger(spec_trigger(c).0).1,
        spec_trigger(spec_trigger(c).0).0.fetches_issued <= c.fetches_issued + 1,
        spec_trigger(spec_trigger(c).0).0.state is Refreshing,
{
}

} // verus!
