//! Button debounce and press classification.
//!
//! Two independent detection paths feed the same state: an edge path driven
//! by GPIO interrupts (`on_edge`) and a polling path driven once per
//! cooperative-loop tick (`update_button_state`). Both classify a completed
//! press as `ShortPress` or `LongPress` against a single threshold and leave
//! at most one pending event, which `check_button_event` reads and clears.

use vstd::prelude::*;

verus! {

/// Hold threshold: a press of at least this many milliseconds is long.
pub const LONG_PRESS_DURATION_MS: u32 = 2000;

/// Classified outcome of one press/release or hold-timeout cycle.
#[derive(Clone, Copy, Debug, PartialEq, Eq, Structural)]
pub enum ButtonEvent {
    Idle,
    ShortPress,
    LongPress,
}

/// Raw debounce state shared by the edge path and the polling path, plus the
/// single pending-event slot.
///
/// `released` marks a press whose release has already been accounted for (a
/// live long-press fired while the button was still held); while it is set
/// the polling path ignores the held button, so the eventual physical
/// release emits no second event.
#[derive(Clone, Copy, Debug, PartialEq, Eq, Structural)]
pub struct ButtonState {
    pub pressed: bool,
    pub released: bool,
    pub press_start_ms: u32,
    pub last_duration_ms: u32,
    pub pending: ButtonEvent,
}

/// Elapsed time between a press start and a later clock reading; a clock
/// that stepped backwards counts as zero rather than wrapping.
pub open spec fn spec_elapsed(start: u32, now: u32) -> u32 {
    if now >= start {
        (now - start) as u32
    } else {
        0
    }
}

/// A completed press is long exactly when it lasted at least the threshold.
pub open spec fn spec_classify(duration: u32) -> ButtonEvent {
    if duration >= LONG_PRESS_DURATION_MS {
        ButtonEvent::LongPress
    } else {
        ButtonEvent::ShortPress
    }
}

/// State with no press in progress and no pending event.
pub open spec fn spec_idle_state() -> ButtonState {
    ButtonState {
        pressed: false,
        released: false,
        press_start_ms: 0,
        last_duration_ms: 0,
        pending: ButtonEvent::Idle,
    }
}

/// Edge-path transition: the first edge of a cycle starts a press, the next
/// edge ends it and classifies the duration.
pub open spec fn spec_on_edge(s: ButtonState, now_ms: u32) -> ButtonState {
    if !s.pressed {
        ButtonState { pressed: true, released: false, press_start_ms: now_ms, ..s }
    } else {
        let duration = spec_elapsed(s.press_start_ms, now_ms);
        ButtonState {
            pressed: false,
            released: false,
            last_duration_ms: duration,
            pending: spec_classify(duration),
            ..s
        }
    }
}

/// Polling-path transition from the pin level read at `now_ms`.
///
/// A release already accounted for (`released`) suppresses the held button
/// until the pin actually reads released again. Otherwise: a fresh press
/// records its start; a release classifies the duration; a hold that has
/// reached the threshold emits `LongPress` at once (only into an empty slot)
/// and forces the release bookkeeping.
pub open spec fn spec_poll(s: ButtonState, is_pressed: bool, now_ms: u32) -> ButtonState {
    if s.released {
        if !is_pressed {
            ButtonState { released: false, ..s }
        } else {
            s
        }
    } else if is_pressed && !s.pressed {
        ButtonState { pressed: true, released: false, press_start_ms: now_ms, ..s }
    } else if !is_pressed && s.pressed {
        let duration = spec_elapsed(s.press_start_ms, now_ms);
        ButtonState {
            pressed: false,
            released: false,
            last_duration_ms: duration,
            pending: spec_classify(duration),
            ..s
        }
    } else if is_pressed && s.pressed && spec_elapsed(s.press_start_ms, now_ms)
        >= LONG_PRESS_DURATION_MS {
        if s.pending is Idle {
            ButtonState { pressed: false, released: true, pending: ButtonEvent::LongPress, ..s }
        } else {
            s
        }
    } else {
        s
    }
}

/// Reading the pending slot returns its value and leaves it empty.
pub open spec fn spec_check_event(s: ButtonState) -> (ButtonEvent, ButtonState) {
    (s.pending, ButtonState { pending: ButtonEvent::Idle, ..s })
}

impl ButtonState {
    /// Fresh state: button up, nothing pending.
    pub fn new() -> (s: ButtonState)
        ensures
            s == spec_idle_state(),
    {
        ButtonState {
            pressed: false,
            released: false,
            press_start_ms: 0,
            last_duration_ms: 0,
            pending: ButtonEvent::Idle,
        }
    }

    /// Edge path: called from the GPIO interrupt with the current clock.
    pub fn on_edge(&mut self, now_ms: u32)
        ensures
            *final(self) == spec_on_edge(*old(self), now_ms),
    {
        if !self.pressed {
            self.pressed = true;
            self.released = false;
            self.press_start_ms = now_ms;
        } else {
            let duration = now_ms.saturating_sub(self.press_start_ms);
            self.pressed = false;
            self.released = false;
            self.last_duration_ms = duration;
            if duration >= LONG_PRESS_DURATION_MS {
                self.pending = ButtonEvent::LongPress;
            } else {
                self.pending = ButtonEvent::ShortPress;
            }
        }
    }

    /// Polling path: called once per cooperative-loop tick with the pin
    /// level and the current clock.
    pub fn update_button_state(&mut self, is_pressed: bool, now_ms: u32)
        ensures
            *final(self) == spec_poll(*old(self), is_pressed, now_ms),
    {
        if self.released {
            if !is_pressed {
                self.released = false;
            }
        } else if is_pressed && !self.pressed {
            self.pressed = true;
            self.released = false;
            self.press_start_ms = now_ms;
        } else if !is_pressed && self.pressed {
            let duration = now_ms.saturating_sub(self.press_start_ms);
            self.pressed = false;
            self.released = false;
            self.last_duration_ms = duration;
            if duration >= LONG_PRESS_DURATION_MS {
                self.pending = ButtonEvent::LongPress;
            } else {
                self.pending = ButtonEvent::ShortPress;
            }
        } else if is_pressed && self.pressed {
            let duration = now_ms.saturating_sub(self.press_start_ms);
            if duration >= LONG_PRESS_DURATION_MS && matches!(self.pending, ButtonEvent::Idle) {
                self.pending = ButtonEvent::LongPress;
                self.pressed = false;
                self.released = true;
            }
        }
    }

    /// Read and clear the pending event.
    pub fn check_button_event(&mut self) -> (event: ButtonEvent)
        ensures
            event == old(self).pending,
            *final(self) == spec_check_event(*old(self)).1,
            final(self).pending is Idle,
    {
        let result = self.pending;
        self.pending = ButtonEvent::Idle;
        result
    }
}

/// A press/release cycle shorter than the threshold, seen by the edge path,
/// yields exactly one `ShortPress`: the pending slot holds `ShortPress`, a
/// read returns it, and afterwards nothing is pending and the state is back
/// to an idle cycle.
pub proof fn lemma_short_press_edge_path(s: ButtonState, t0: u32, t1: u32)
    requires
        !s.pressed,
        !s.released,
        s.pending is Idle,
        t0 <= t1,
        t1 - t0 < LONG_PRESS_DURATION_MS,
    ensures
        ({
            let done = spec_on_edge(spec_on_edge(s, t0), t1);
            let (event, after) = spec_check_event(done);
            done.pending is ShortPress && event is ShortPress && after.pending is Idle
                && !after.pressed && !after.released
        }),
{
}

/// The same short cycle seen by the polling path, with any number of
/// intermediate polls while the button is held (all before the threshold),
/// also yields exactly one `ShortPress`.
pub proof fn lemma_short_press_poll_path(s: ButtonState, t0: u32, holds: Seq<u32>, t1: u32)
    requires
        !s.pressed,
        !s.released,
        s.pending is Idle,
        forall|i: int| 0 <= i < holds.len() ==> t0 <= #[trigger] holds[i],
        forall|i: int| 0 <= i < holds.len() ==> #[trigger] holds[i] - t0 < LONG_PRESS_DURATION_MS,
        t0 <= t1,
        t1 - t0 < LONG_PRESS_DURATION_MS,
    ensures
        ({
            let held = spec_poll_all(spec_poll(s, true, t0), holds);
            let done = spec_poll(held, false, t1);
            let (event, after) = spec_check_event(done);
            done.pending is ShortPress && event is ShortPress && after.pending is Idle
                && !after.pressed && !after.released
        }),
{
    let pressed_state = spec_poll(s, true, t0);
    lemma_poll_all_held_before_threshold(pressed_state, holds);
}

/// Folding the polling transition over a sequence of hold readings.
pub open spec fn spec_poll_all(s: ButtonState, holds: Seq<u32>) -> ButtonState
    decreases holds.len(),
{
    if holds.len() == 0 {
        s
    } else {
        spec_poll_all(spec_poll(s, true, holds[0]), holds.drop_first())
    }
}

/// While a press is in progress and every reading stays under the
/// threshold, polling the held button changes nothing.
pub proof fn lemma_poll_all_held_before_threshold(s: ButtonState, holds: Seq<u32>)
    requires
        s.pressed,
        !s.released,
        forall|i: int| 0 <= i < holds.len() ==> s.press_start_ms <= #[trigger] holds[i],
        forall|i: int| 0 <= i < holds.len()
            ==> #[trigger] holds[i] - s.press_start_ms < LONG_PRESS_DURATION_MS,
    ensures
        spec_poll_all(s, holds) == s,
    decreases holds.len(),
{
    if holds.len() > 0 {
        assert(spec_poll(s, true, holds[0]) == s);
        lemma_poll_all_held_before_threshold(s, holds.drop_first());
    }
}

/// A hold of at least the threshold, ended by a release edge, yields exactly
/// one `LongPress` on the edge path.
pub proof fn lemma_long_press_edge_path(s: ButtonState, t0: u32, t1: u32)
    requires
        !s.pressed,
        !s.released,
        s.pending is Idle,
        t0 <= t1,
        t1 - t0 >= LONG_PRESS_DURATION_MS,
    ensures
        ({
            let done = spec_on_edge(spec_on_edge(s, t0), t1);
            let (event, after) = spec_check_event(done);
            done.pending is LongPress && event is LongPress && after.pending is Idle
        }),
{
}

/// On the polling path a hold that reaches the threshold emits `LongPress`
/// at once, further held polls change nothing, and the eventual physical
/// release emits no trailing `ShortPress`: after the event is read the state
/// is idle again.
pub proof fn lemma_long_press_poll_path(s: ButtonState, t0: u32, t_hold: u32, t_more: u32, t1: u32)
    requires
        !s.pressed,
        !s.released,
        s.pending is Idle,
        t0 <= t_hold,
        t_hold - t0 >= LONG_PRESS_DURATION_MS,
    ensures
        ({
            let fired = spec_poll(spec_poll(s, true, t0), true, t_hold);
            let still_held = spec_poll(fired, true, t_more);
            let released = spec_poll(still_held, false, t1);
            let (event, after) = spec_check_event(released);
            fired.pending is LongPress && still_held == fired && released.pending is LongPress
                && event is LongPress && after.pending is Idle && !after.pressed
                && !after.released
        }),
{
}

/// Reading the pending event clears it: two consecutive reads with no edge
/// in between return the pending event and then nothing.
pub proof fn lemma_check_event_clears(s: ButtonState)
    ensures
        ({
            let (first, mid) = spec_check_event(s);
            let (second, after) = spec_check_event(mid);
            first == s.pending && second is Idle && after == mid
        }),
{
}

} // verus!
