use petsona::interaction::{
    fallback_step, greeting_may_start, repaint_after, ClickKind, ClickState, FallbackStep,
    RepaintInputs, CLICK_FALLBACK_MS, DOUBLE_CLICK_MS,
};
use petsona::runtime::GreetingConfig;

#[test]
fn double_click_replaces_the_single_click() {
    let mut clicks = ClickState::new();
    assert_eq!(clicks.register_click(1_000), ClickKind::Pending);
    assert!(clicks.pending_single_click, "first click waits for a second");
    assert!(clicks.last_click_at.is_some());
    assert_eq!(clicks.register_click(1_001), ClickKind::Double);
    assert!(!clicks.pending_single_click, "the pair is a double click");
    assert!(clicks.last_click_at.is_none());
}

#[test]
fn a_lone_click_fires_once_after_the_window() {
    let mut clicks = ClickState::new();
    clicks.register_click(5_000);
    assert_eq!(clicks.deadline(5_100), Some(220));
    assert!(!clicks.settle(5_000 + DOUBLE_CLICK_MS - 1));
    assert!(clicks.pending_single_click);
    assert!(clicks.settle(5_000 + DOUBLE_CLICK_MS));
    assert!(!clicks.settle(9_000));
    assert_eq!(clicks.deadline(9_000), None);
}

#[test]
fn clicks_further_apart_are_two_single_clicks() {
    let mut clicks = ClickState::new();
    assert_eq!(clicks.register_click(0), ClickKind::Pending);
    assert_eq!(clicks.register_click(DOUBLE_CLICK_MS + 1), ClickKind::Pending);
    assert_eq!(clicks.last_click_at, Some(DOUBLE_CLICK_MS + 1));
    assert_eq!(clicks.deadline(10_000), Some(1));
}

fn greeting(enabled: bool) -> GreetingConfig {
    GreetingConfig { enabled, idle_minutes: 30, cooldown_minutes: 2, max_chars: 40 }
}

#[test]
fn greetings_respect_pet_switch_cooldown_and_pending_request() {
    let minute = 60_000;
    assert!(!greeting_may_start(false, true, &greeting(true), None, false, 0));
    assert!(!greeting_may_start(true, false, &greeting(false), None, false, 0));
    assert!(greeting_may_start(true, true, &greeting(false), None, false, 0));
    assert!(!greeting_may_start(true, false, &greeting(true), Some(0), false, 2 * minute - 1));
    assert!(greeting_may_start(true, false, &greeting(true), Some(0), false, 2 * minute));
    assert!(greeting_may_start(true, true, &greeting(true), Some(0), false, 1));
    assert!(!greeting_may_start(true, true, &greeting(true), None, true, 0));
}

#[test]
fn a_slow_click_greeting_falls_back_to_the_local_line() {
    assert_eq!(fallback_step(None, false, 100), FallbackStep::Idle);
    assert_eq!(fallback_step(Some(100), false, 300), FallbackStep::WaitMs(500));
    assert_eq!(fallback_step(Some(100), false, 100 + CLICK_FALLBACK_MS), FallbackStep::ShowLocal);
    assert_eq!(fallback_step(Some(100), true, 5_000), FallbackStep::Idle);
}

fn quiet(now: u64) -> RepaintInputs {
    RepaintInputs {
        animating: false,
        pet_frame_ms: None,
        pointer_poll: None,
        greeting_inflight: false,
        bubble_until: None,
        last_health_at: now,
    }
}

#[test]
fn the_window_repaints_as_soon_as_anything_needs_it() {
    let now = 10_000;
    let clicks = ClickState::new();
    assert_eq!(repaint_after(&quiet(now), &clicks, now), 1000);
    assert_eq!(repaint_after(&quiet(now - 900), &clicks, now), 100);
    assert_eq!(repaint_after(&RepaintInputs { animating: true, ..quiet(now) }, &clicks, now), 16);
    assert_eq!(repaint_after(&RepaintInputs { pet_frame_ms: Some(250), ..quiet(now) }, &clicks, now), 250);
    assert_eq!(repaint_after(&RepaintInputs { pointer_poll: Some(true), ..quiet(now) }, &clicks, now), 40);
    assert_eq!(repaint_after(&RepaintInputs { pointer_poll: Some(false), ..quiet(now) }, &clicks, now), 100);
    assert_eq!(repaint_after(&RepaintInputs { greeting_inflight: true, ..quiet(now) }, &clicks, now), 100);
    assert_eq!(repaint_after(&RepaintInputs { bubble_until: Some(now + 30), ..quiet(now) }, &clicks, now), 30);
    assert_eq!(repaint_after(&RepaintInputs { bubble_until: Some(now - 5), ..quiet(now) }, &clicks, now), 1);
    let mut waiting = ClickState::new();
    waiting.register_click(now - 300);
    assert_eq!(repaint_after(&quiet(now), &waiting, now), 20);
}
