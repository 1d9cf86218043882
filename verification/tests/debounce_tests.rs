//! The update consumer's minimum-visible-duration debounce.

use keylayers::debounce::{ApplyOutcome, DisplayState, MIN_VISIBLE_MS};
use keylayers::{InputUpdate, SwitchSlot};

fn s(x: &str) -> String {
    x.to_owned()
}

fn shown(ds: &DisplayState, id: &str) -> bool {
    ds.active_switches.iter().any(|a| a.switch_id == id)
}

#[test]
fn fast_tap_is_held_for_the_minimum_duration() {
    let mut ds = DisplayState::new();
    let r = ds.apply(&InputUpdate::SwitchPressed(s("a"), Some(SwitchSlot::Tap)), 0);
    assert_eq!(r, ApplyOutcome::Applied);
    assert!(shown(&ds, "a"));
    // Released after 30 ms: too early, the removal is deferred by the
    // remaining 70 ms, landing at press + minimum.
    let r = ds.apply(&InputUpdate::SwitchReleased(s("a")), 30);
    assert_eq!(r, ApplyOutcome::Deferred { delay_ms: MIN_VISIBLE_MS - 30, pressed_at: 0 });
    assert!(shown(&ds, "a"));
    // The deferred release fires at 100 ms and removes the switch.
    let removed = ds.deferred_release(&s("a"), 0);
    assert!(removed);
    assert!(!shown(&ds, "a"));
}

#[test]
fn slow_release_is_applied_immediately() {
    let mut ds = DisplayState::new();
    ds.apply(&InputUpdate::SwitchPressed(s("a"), Some(SwitchSlot::Tap)), 0);
    let r = ds.apply(&InputUpdate::SwitchReleased(s("a")), 150);
    assert_eq!(r, ApplyOutcome::Applied);
    assert!(!shown(&ds, "a"));
}

#[test]
fn release_at_exactly_the_minimum_is_applied_immediately() {
    let mut ds = DisplayState::new();
    ds.apply(&InputUpdate::SwitchPressed(s("a"), None), 0);
    let r = ds.apply(&InputUpdate::SwitchReleased(s("a")), MIN_VISIBLE_MS);
    assert_eq!(r, ApplyOutcome::Applied);
    assert!(!shown(&ds, "a"));
}

#[test]
fn release_without_a_recorded_press_is_ignored() {
    let mut ds = DisplayState::new();
    let r = ds.apply(&InputUpdate::SwitchReleased(s("ghost")), 10);
    assert_eq!(r, ApplyOutcome::Ignored);
}

/// Press at 0, release at 10 (deferring a release to ~100), press again at
/// 50: the switch must remain shown through the second press, and the
/// stale timer, firing with the old press timestamp, must not clear it.
#[test]
fn superseding_press_survives_the_stale_timer() {
    let mut ds = DisplayState::new();
    ds.apply(&InputUpdate::SwitchPressed(s("a"), Some(SwitchSlot::Tap)), 0);
    let r = ds.apply(&InputUpdate::SwitchReleased(s("a")), 10);
    assert_eq!(r, ApplyOutcome::Deferred { delay_ms: 90, pressed_at: 0 });
    // The second press overwrites the recorded timestamp.
    let r = ds.apply(&InputUpdate::SwitchPressed(s("a"), Some(SwitchSlot::Tap)), 50);
    assert_eq!(r, ApplyOutcome::Applied);
    // The stale timer fires with the old timestamp and finds a newer
    // press: nothing is removed.
    let removed = ds.deferred_release(&s("a"), 0);
    assert!(!removed);
    assert!(shown(&ds, "a"));
    // A release of the second press defers again, and its own timer
    // removes the switch.
    let r = ds.apply(&InputUpdate::SwitchReleased(s("a")), 60);
    assert_eq!(r, ApplyOutcome::Deferred { delay_ms: 90, pressed_at: 50 });
    let removed = ds.deferred_release(&s("a"), 50);
    assert!(removed);
    assert!(!shown(&ds, "a"));
}

#[test]
fn deferred_release_for_an_unknown_switch_does_nothing() {
    let mut ds = DisplayState::new();
    ds.apply(&InputUpdate::SwitchPressed(s("a"), None), 0);
    let removed = ds.deferred_release(&s("ghost"), 0);
    assert!(!removed);
    assert!(shown(&ds, "a"));
}

#[test]
fn layer_updates_apply_immediately() {
    let mut ds = DisplayState::new();
    assert_eq!(ds.apply(&InputUpdate::LayerActivate(s("nav")), 0), ApplyOutcome::Applied);
    assert_eq!(ds.active_layers, vec![s("nav")]);
    assert_eq!(ds.apply(&InputUpdate::LayerDeactivate(s("nav")), 5), ApplyOutcome::Applied);
    assert!(ds.active_layers.is_empty());
}

#[test]
fn press_before_a_release_seen_late_still_records_latest_time() {
    let mut ds = DisplayState::new();
    ds.apply(&InputUpdate::SwitchPressed(s("a"), None), 40);
    // A release whose timestamp reads earlier than the press saturates to
    // zero elapsed and is deferred by the full minimum.
    let r = ds.apply(&InputUpdate::SwitchReleased(s("a")), 20);
    assert_eq!(r, ApplyOutcome::Deferred { delay_ms: MIN_VISIBLE_MS, pressed_at: 40 });
}
