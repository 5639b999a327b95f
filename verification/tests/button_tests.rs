use mac_sniff::button::{ButtonEvent, ButtonState, LONG_PRESS_DURATION_MS};

#[test]
fn short_press_edge_path_emits_one_short_press() {
    let mut b = ButtonState::new();
    b.on_edge(1000);
    b.on_edge(1500);
    assert_eq!(b.check_button_event(), ButtonEvent::ShortPress);
    assert_eq!(b.check_button_event(), ButtonEvent::Idle);
}

#[test]
fn short_press_poll_path_emits_one_short_press() {
    let mut b = ButtonState::new();
    b.update_button_state(true, 1000);
    b.update_button_state(true, 1400);
    b.update_button_state(true, 1900);
    b.update_button_state(false, 2200);
    assert_eq!(b.check_button_event(), ButtonEvent::ShortPress);
    assert_eq!(b.check_button_event(), ButtonEvent::Idle);
}

#[test]
fn long_press_edge_path_classifies_on_release() {
    let mut b = ButtonState::new();
    b.on_edge(500);
    b.on_edge(500 + LONG_PRESS_DURATION_MS);
    assert_eq!(b.check_button_event(), ButtonEvent::LongPress);
    assert_eq!(b.check_button_event(), ButtonEvent::Idle);
}

#[test]
fn classification_boundary_is_the_threshold() {
    let mut b = ButtonState::new();
    b.on_edge(0);
    b.on_edge(LONG_PRESS_DURATION_MS - 1);
    assert_eq!(b.check_button_event(), ButtonEvent::ShortPress);
    b.on_edge(10_000);
    b.on_edge(10_000 + LONG_PRESS_DURATION_MS);
    assert_eq!(b.check_button_event(), ButtonEvent::LongPress);
}

#[test]
fn live_long_press_fires_while_held_and_release_adds_nothing() {
    let mut b = ButtonState::new();
    b.update_button_state(true, 0);
    b.update_button_state(true, 1000);
    assert_eq!(b.check_button_event(), ButtonEvent::Idle);
    b.update_button_state(true, LONG_PRESS_DURATION_MS);
    // Still held after the threshold: the long press is already pending.
    b.update_button_state(true, LONG_PRESS_DURATION_MS + 500);
    assert_eq!(b.check_button_event(), ButtonEvent::LongPress);
    // The eventual physical release emits no trailing event.
    b.update_button_state(false, LONG_PRESS_DURATION_MS + 900);
    assert_eq!(b.check_button_event(), ButtonEvent::Idle);
    // And a later fresh short cycle works normally again.
    b.update_button_state(true, 10_000);
    b.update_button_state(false, 10_100);
    assert_eq!(b.check_button_event(), ButtonEvent::ShortPress);
}

#[test]
fn reading_a_pending_event_clears_it() {
    let mut b = ButtonState::new();
    b.on_edge(0);
    b.on_edge(100);
    let first = b.check_button_event();
    let second = b.check_button_event();
    assert_eq!(first, ButtonEvent::ShortPress);
    assert_eq!(second, ButtonEvent::Idle);
}

#[test]
fn clock_step_backwards_counts_as_zero_duration() {
    let mut b = ButtonState::new();
    b.on_edge(5000);
    b.on_edge(4000);
    assert_eq!(b.check_button_event(), ButtonEvent::ShortPress);
    assert_eq!(b.last_duration_ms, 0);
}
