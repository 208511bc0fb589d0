//! Engine behaviour: catalog replacement, staleness policy, the
//! at-most-one-in-flight refresh, tracker reconciliation and the monitor
//! model.

use rustsat::console::Id;
use rustsat::console::Model;
use rustsat::console::Msg;
use rustsat::elements::DerivationError;
use rustsat::elements::OrbitalElementSet;
use rustsat::elements::RefreshError;
use rustsat::engine::Engine;
use rustsat::refresh::ElementCache;
use rustsat::refresh::RefreshController;
use rustsat::refresh::RefreshState;
use rustsat::store::ElementStore;
use rustsat::tracker::PropagationOutcome;
use rustsat::tracker::TEMEPos;
use rustsat::tracker::TEMEVelocity;

fn element(id: u64, name: &str, epoch_s: i64) -> OrbitalElementSet {
    OrbitalElementSet {
        norad_id: id,
        object_name: Some(name.to_string()),
        epoch_s,
        eccentricity_e9: 100_000,
        inclination_ndeg: 53_000_000_000,
        right_ascension_ndeg: 120_000_000_000,
        argument_of_perigee_ndeg: 90_000_000_000,
        mean_anomaly_ndeg: 270_000_000_000,
        mean_motion_e9: 15_060_000_000,
        drag_term_e9: 100_000,
    }
}

#[test]
fn derive_accepts_valid_and_rejects_invalid_sets() {
    let good = element(1, "GOOD", 0);
    assert!(rustsat::elements::derive(&good).is_ok());

    let mut bad_ecc = element(2, "BAD-E", 0);
    bad_ecc.eccentricity_e9 = 1_000_000_000;
    assert_eq!(
        rustsat::elements::derive(&bad_ecc),
        Err(DerivationError::OutOfRangeEccentricity)
    );

    let mut bad_n = element(3, "BAD-N", 0);
    bad_n.mean_motion_e9 = 0;
    assert_eq!(
        rustsat::elements::derive(&bad_n),
        Err(DerivationError::NonPositiveMeanMotion)
    );
}

#[test]
fn store_replace_is_wholesale_and_last_wins() {
    let mut store = ElementStore::new();
    store.replace_all(vec![element(1, "ONE", 10), element(2, "TWO", 10)]);
    assert_eq!(store.len(), 2);
    assert!(store.contains(1) && store.contains(2));
    assert_eq!(store.get_name(1), "ONE");

    // a duplicate identifier: the later element set wins
    store.replace_all(vec![element(3, "OLD", 10), element(3, "NEW", 20)]);
    assert_eq!(store.len(), 1);
    assert!(!store.contains(1) && !store.contains(2));
    assert_eq!(store.get_name(3), "NEW");
    assert_eq!(store.get(3).unwrap().epoch_s, 20);
}

#[test]
fn cache_staleness_boundaries() {
    let period: u64 = 3_600;
    let now: i64 = 1_700_000_000;
    // one period old: fresh
    let fresh = ElementCache::of_elements(vec![element(1, "A", now - period as i64)]).unwrap();
    assert!(fresh.is_fresh(now, period));
    // eight periods old: stale, a refresh is mandatory
    let stale = ElementCache::of_elements(vec![element(1, "A", now - 8 * period as i64)]).unwrap();
    assert!(!stale.is_fresh(now, period));
    // exactly at the staleness multiple: still fresh
    let edge = ElementCache::of_elements(vec![element(1, "A", now - 7 * period as i64)]).unwrap();
    assert!(edge.is_fresh(now, period));
    // an empty catalog makes no cache
    assert!(ElementCache::of_elements(Vec::new()).is_none());
}

#[test]
fn fresh_data_ages_into_stale() {
    let now: i64 = 1_700_000_000;
    let period: u64 = 3_600;
    let cache = ElementCache::of_elements(vec![element(1, "A", now)]).unwrap();
    let mut c = RefreshController::new(period, now);
    assert!(c.load_cache(Some(cache), now).is_some());
    assert_eq!(c.state, RefreshState::Fresh);
    // within the staleness window nothing changes
    assert!(!c.poll_staleness(now + period as i64));
    assert_eq!(c.state, RefreshState::Fresh);
    // past seven periods the adopted data is stale
    assert!(c.poll_staleness(now + 8 * period as i64));
    assert_eq!(c.state, RefreshState::Stale);
    // the next trigger starts a refresh
    assert!(c.trigger_refresh());
    assert_eq!(c.state, RefreshState::Refreshing);
}

#[test]
fn at_most_one_refresh_in_flight() {
    let mut c = RefreshController::new(3_600, 0);
    assert!(c.trigger_refresh());
    assert_eq!(c.state, RefreshState::Refreshing);
    // a second trigger in immediate succession is a no-op
    assert!(!c.trigger_refresh());
    assert!(!c.trigger_refresh());
    assert_eq!(c.fetches_issued, 1);
}

#[test]
fn timer_triggers_once_per_period() {
    let mut c = RefreshController::new(100, 0);
    assert!(!c.poll_timer(50));
    assert_eq!(c.fetches_issued, 0);
    assert!(c.poll_timer(100));
    assert_eq!(c.fetches_issued, 1);
    // the fetch is still in flight when the timer fires again
    assert!(!c.poll_timer(250));
    assert_eq!(c.fetches_issued, 1);
}

#[test]
fn startup_adopts_fresh_cache_without_fetching() {
    let now: i64 = 1_700_000_000;
    let cache = ElementCache::of_elements(vec![element(7, "SEVEN", now - 100)]).unwrap();
    let (engine, needs_fetch) = Engine::init_sat_data(3_600, now, Some(cache));
    assert!(!needs_fetch);
    assert_eq!(engine.controller.state, RefreshState::Fresh);
    assert!(engine.store.contains(7));
    assert!(engine.tracker.contains(7));
}

#[test]
fn startup_with_stale_cache_fetches() {
    let now: i64 = 1_700_000_000;
    let cache = ElementCache::of_elements(vec![element(7, "SEVEN", now - 1_000_000)]).unwrap();
    let (engine, needs_fetch) = Engine::init_sat_data(3_600, now, Some(cache));
    assert!(needs_fetch);
    assert_eq!(engine.controller.state, RefreshState::Refreshing);
    assert_eq!(engine.store.len(), 0);
}

#[test]
fn startup_without_cache_fetches() {
    let (engine, needs_fetch) = Engine::init_sat_data(3_600, 0, None);
    assert!(needs_fetch);
    assert_eq!(engine.controller.state, RefreshState::Refreshing);
    assert_eq!(engine.tracker.len(), 0);
}

#[test]
fn failed_refresh_keeps_previous_catalog() {
    let now: i64 = 1_700_000_000;
    let cache = ElementCache::of_elements(vec![element(7, "SEVEN", now - 100)]).unwrap();
    let (mut engine, _) = Engine::init_sat_data(3_600, now, Some(cache));
    assert!(engine.trigger_refresh());
    let persist = engine.receive_task(Err(RefreshError::Transport));
    assert!(!persist);
    assert_eq!(engine.controller.state, RefreshState::RefreshFailed);
    // the previously adopted catalog remains authoritative
    assert!(engine.store.contains(7));
    assert!(engine.tracker.contains(7));
}

#[test]
fn replace_destroys_vanished_objects() {
    let (mut engine, _) = Engine::init_sat_data(3_600, 0, None);
    let persist = engine.receive_task(Ok(vec![element(1, "ONE", 0), element(2, "TWO", 0)]));
    assert!(persist);
    assert!(engine.tracker.contains(1) && engine.tracker.contains(2));

    // the next catalog no longer carries identifier 2
    assert!(engine.trigger_refresh());
    engine.receive_task(Ok(vec![element(1, "ONE", 5)]));
    assert!(engine.tracker.contains(1));
    assert!(!engine.tracker.contains(2));
    assert_eq!(engine.tracker.len(), 1);
}

#[test]
fn receive_task_adopts_values_and_later_duplicate_wins() {
    let (mut engine, _) = Engine::init_sat_data(3_600, 0, None);
    engine.receive_task(Ok(vec![element(5, "OLD", 1), element(5, "NEW", 2)]));
    assert_eq!(engine.store.len(), 1);
    assert_eq!(engine.store.get(5).unwrap().epoch_s, 2);
    assert_eq!(engine.store.get_name(5), "NEW");
    // the seeded object carries the adopted element set's fields
    let o = engine.tracker.get(5).unwrap();
    assert_eq!(o.epoch_s, 2);
    assert!(o.constants.is_some());
    assert!(o.position.is_none());
}

#[test]
fn survivor_keeps_position_across_catalog_replace() {
    let (mut engine, _) = Engine::init_sat_data(3_600, 0, None);
    engine.receive_task(Ok(vec![element(1, "ONE", 0)]));
    let outcomes = vec![PropagationOutcome {
        id: 1,
        result: Ok((TEMEPos(7_000_000, 0, 0), TEMEVelocity(0, 0, 0), (7_000_000, 0, 0))),
    }];
    assert!(engine.update_sat_pos(&outcomes).is_empty());
    // a replaced catalog re-derives the survivor but keeps its last position
    assert!(engine.trigger_refresh());
    engine.receive_task(Ok(vec![element(1, "ONE", 9)]));
    let o = engine.tracker.get(1).unwrap();
    assert_eq!(o.epoch_s, 9);
    assert_eq!(o.position, Some(TEMEPos(7_000_000, 0, 0)));
}

#[test]
fn derivation_failure_keeps_object_visible_without_position() {
    let (mut engine, _) = Engine::init_sat_data(3_600, 0, None);
    let mut bad = element(9, "BROKEN", 0);
    bad.eccentricity_e9 = 2_000_000_000;
    engine.receive_task(Ok(vec![bad]));
    assert!(engine.tracker.contains(9));
    let o = engine.tracker.get(9).unwrap();
    assert!(o.constants.is_none());
    assert!(o.position.is_none());
    assert!(o.geodetic.is_none());
}

#[test]
fn monitor_model_updates() {
    let mut m = Model::new();
    assert!(!m.quit);
    assert_eq!(m.focused, Id::MapCanvas);
    assert_eq!(m.update(Some(Msg::TextareaAlfaBlur)), None);
    assert_eq!(m.focused, Id::TextareaBeta);
    assert_eq!(m.update(Some(Msg::TextareaBetaBlur)), None);
    assert_eq!(m.focused, Id::MapCanvas);
    m.redraw = false;
    assert_eq!(m.update(None), None);
    assert!(m.redraw);
    assert!(!m.quit);
    assert_eq!(m.update(Some(Msg::AppClose)), None);
    assert!(m.quit);
}
