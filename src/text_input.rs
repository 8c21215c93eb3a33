//! Text selection and panning from mouse and touch input: a small state
//! machine per text widget.
use vstd::prelude::*;
use crate::config::Config;
use crate::event::Event;
use crate::grab::{is_grabbed, touch_grab_made};
use crate::manager::{Manager, ShellWindow};
use crate::updates::{deadline_after, timers_after};
use crate::types::{Coord, GrabMode, MouseButton, Offset, PressSource, WidgetId};

verus! {

/// Timer payload used by the touch selection delay.
pub const TIMER_ID: u64 = 1 << 60;

/// Phase of a touch gesture on a text widget.
#[derive(Clone, Copy, Debug, PartialEq, Eq, Structural)]
pub enum TouchPhase {
    /// No touch in progress.
    Idle,
    /// Touch `id` started at the coordinate.
    Start(u64, Coord),
    /// Touch `id` pans the text.
    Pan(u64),
    /// Touch `id` moves the cursor.
    Cursor(u64),
}

/// Handles text selection and panning from mouse and touch events.
#[derive(Clone, Copy, Debug, PartialEq, Eq, Structural)]
pub struct TextInput {
    pub touch_phase: TouchPhase,
}

/// Result of [`TextInput::handle`].
#[derive(Clone, Copy, Debug, PartialEq, Eq, Structural)]
pub enum TextInputAction {
    /// Event consumed, nothing to do.
    Consumed,
    /// Event not used.
    Unhandled,
    /// Pan the text by the given delta.
    Pan(Offset),
    /// Keyboard focus should be requested.
    Focus,
    /// Update cursor and/or selection: `(coord, anchor, clear, repeats)`.
    Cursor(Coord, bool, bool, u32),
}

/// Phase and action of the recognizer for `event`, given whether a grab
/// request for a press start succeeds (`grabbed`), whether mouse drags pan
/// text, whether Shift is held, and the configuration.
pub open spec fn text_input_step(
    phase: TouchPhase,
    event: Event,
    grabbed: bool,
    text_pan: bool,
    shift: bool,
    config: Config,
) -> (TouchPhase, TextInputAction) {
    match event {
        Event::PressStart { source, coord, .. } => match source {
            PressSource::Touch(t) => (
                if grabbed && phase == TouchPhase::Idle {
                    TouchPhase::Start(t, coord)
                } else {
                    phase
                },
                TextInputAction::Focus,
            ),
            PressSource::Mouse(b, reps) => if b != MouseButton::Left {
                (phase, TextInputAction::Unhandled)
            } else if text_pan {
                (phase, TextInputAction::Focus)
            } else {
                (phase, TextInputAction::Cursor(coord, true, !shift, reps))
            },
        },
        Event::PressMove { source, coord, delta, .. } => match source {
            PressSource::Touch(t) => match phase {
                TouchPhase::Idle => (TouchPhase::Pan(t), TextInputAction::Pan(delta)),
                TouchPhase::Start(id, start) => if id != t {
                    (phase, TextInputAction::Cursor(coord, false, false, 1))
                } else if config.spec_pan_thresh_reached(start, coord) {
                    (TouchPhase::Pan(id), TextInputAction::Pan(delta))
                } else {
                    (phase, TextInputAction::Consumed)
                },
                TouchPhase::Pan(id) => if id == t {
                    (phase, TextInputAction::Pan(delta))
                } else {
                    (phase, TextInputAction::Cursor(coord, false, false, 1))
                },
                TouchPhase::Cursor(_) => (phase, TextInputAction::Cursor(coord, false, false, 1)),
            },
            PressSource::Mouse(_, reps) => if text_pan {
                (phase, TextInputAction::Pan(delta))
            } else {
                (phase, TextInputAction::Cursor(coord, false, false, reps))
            },
        },
        Event::PressEnd { source, .. } => (
            match phase {
                TouchPhase::Start(id, _) => if source == PressSource::Touch(id) {
                    TouchPhase::Idle
                } else {
                    phase
                },
                TouchPhase::Pan(id) => if source == PressSource::Touch(id) {
                    TouchPhase::Idle
                } else {
                    phase
                },
                TouchPhase::Cursor(id) => if source == PressSource::Touch(id) {
                    TouchPhase::Idle
                } else {
                    phase
                },
                TouchPhase::Idle => phase,
            },
            TextInputAction::Consumed,
        ),
        Event::TimerUpdate(payload) => if payload != TIMER_ID {
            (phase, TextInputAction::Unhandled)
        } else {
            match phase {
                TouchPhase::Start(t, coord) => (
                    TouchPhase::Cursor(t),
                    TextInputAction::Cursor(coord, false, !shift, 1),
                ),
                _ => (phase, TextInputAction::Consumed),
            }
        },
        _ => (phase, TextInputAction::Unhandled),
    }
}

/// Whether `event` makes the recognizer request a grab: a touch press start.
/// (A mouse press comes from a caller that already holds the grab.)
pub open spec fn requests_grab(event: Event) -> bool {
    event matches Event::PressStart { source, .. } && source is Touch
}

/// Whether `event` starts the touch selection delay timer.
pub open spec fn starts_timer(phase: TouchPhase, event: Event, grabbed: bool) -> bool {
    event matches Event::PressStart { source, .. } && source is Touch && grabbed && phase
        == TouchPhase::Idle
}

/// Timers after the recognizer ran: the selection-delay timer is scheduled
/// for `w_id` when `started`, and nothing else changes.
pub open spec fn requires_timer_outcome(
    old: &crate::state::ManagerState,
    new: &crate::state::ManagerState,
    started: bool,
    w_id: WidgetId,
) -> bool {
    &&& new.handle_updates@ == old.handle_updates@
    &&& started ==> new.time_updates@.to_set() == timers_after(
        old.time_updates@,
        w_id,
        TIMER_ID,
        deadline_after(old.now, old.config.touch_text_sel_delay_ns),
    )
    &&& !started ==> new.time_updates@ == old.time_updates@
}

impl Default for TextInput {
    fn default() -> (r: TextInput)
        ensures
            r.touch_phase == TouchPhase::Idle,
    {
        TextInput { touch_phase: TouchPhase::Idle }
    }
}

impl TextInput {
    pub fn new() -> (r: TextInput)
        ensures
            r.touch_phase == TouchPhase::Idle,
    {
        TextInput { touch_phase: TouchPhase::Idle }
    }

    /// Handle an input event for widget `w_id`. Consumes press start, move
    /// and end, and the selection-delay timer; may request a press grab and
    /// schedule that timer. Other events are reported as unhandled.
    pub fn handle<S: ShellWindow>(&mut self, mgr: &mut Manager<S>, w_id: WidgetId, event: Event) -> (r: TextInputAction)
        requires
            old(mgr).wf(),
        ensures
            final(mgr).wf(),
            ({
                let grabbed = match event {
                    Event::PressStart { source, .. } => !is_grabbed(&old(mgr).state, source),
                    _ => false,
                };
                let text_pan = old(mgr).state.config.mouse_text_pan.spec_enabled_with(
                    old(mgr).state.modifiers,
                );
                let step = text_input_step(
                    old(self).touch_phase,
                    event,
                    grabbed,
                    text_pan,
                    old(mgr).state.modifiers.shift,
                    old(mgr).state.config,
                );
                &&& final(self).touch_phase == step.0
                &&& r == step.1
                &&& requires_timer_outcome(
                    &old(mgr).state,
                    &final(mgr).state,
                    starts_timer(old(self).touch_phase, event, grabbed),
                    w_id,
                )
            }),
            final(mgr).shell == old(mgr).shell,
            !requests_grab(event) ==> final(mgr).state == old(mgr).state,
            requests_grab(event) ==> {
                let source = event->PressStart_source;
                &&& is_grabbed(&final(mgr).state, source)
                &&& final(mgr).state.mouse_grab == old(mgr).state.mouse_grab
                &&& final(mgr).state.pan_grab@ == old(mgr).state.pan_grab@
                &&& is_grabbed(&old(mgr).state, source) ==> final(mgr).state.touch_grab@ == old(
                    mgr,
                ).state.touch_grab@
                &&& !is_grabbed(&old(mgr).state, source) ==> exists|slot: u16|
                    #[trigger] touch_grab_made(
                        &old(mgr).state,
                        &final(mgr).state,
                        w_id,
                        source,
                        event->PressStart_coord,
                        GrabMode::Grab,
                        slot,
                    )
                &&& final(mgr).state.keeps_accel(&old(mgr).state)
                &&& final(mgr).state.keeps_popups(&old(mgr).state)
                &&& final(mgr).state.keeps_input(&old(mgr).state)
                &&& final(mgr).state.keeps_focus(&old(mgr).state)
                &&& final(mgr).state.pending@ == old(mgr).state.pending@
            },
    {
        match event {
            Event::PressStart { source, coord, .. } => {
                if !source.is_primary() {
                    return TextInputAction::Unhandled;
                }
                match source {
                    PressSource::Touch(touch_id) => {
                        let grab = mgr.request_grab(w_id, source, coord, GrabMode::Grab, None);
                        let ghost mut wslot: u16 = 0;
                        proof {
                            if grab {
                                let slot = choose|slot: u16|
                                    #[trigger] touch_grab_made(
                                        &old(mgr).state,
                                        &mgr.state,
                                        w_id,
                                        source,
                                        coord,
                                        GrabMode::Grab,
                                        slot,
                                    );
                                wslot = slot;
                                let k = mgr.state.touch_grab@.len() - 1;
                                assert(mgr.state.touch_grab@[k].touch_id == touch_id);
                            }
                        }
                        if grab && self.touch_phase == TouchPhase::Idle {
                            self.touch_phase = TouchPhase::Start(touch_id, coord);
                            let delay = mgr.config().touch_text_sel_delay();
                            mgr.update_on_timer(delay, w_id, TIMER_ID);
                        }
                        proof {
                            if grab {
                                assert(touch_grab_made(
                                    &old(mgr).state,
                                    &mgr.state,
                                    w_id,
                                    source,
                                    coord,
                                    GrabMode::Grab,
                                    wslot,
                                ));
                            }
                        }
                        TextInputAction::Focus
                    },
                    PressSource::Mouse(_, repeats) => {
                        if mgr.config_enable_mouse_text_pan() {
                            TextInputAction::Focus
                        } else {
                            TextInputAction::Cursor(coord, true, !mgr.modifiers().shift(), repeats)
                        }
                    },
                }
            },
            Event::PressMove { source, coord, delta, .. } => match source {
                PressSource::Touch(touch_id) => match self.touch_phase {
                    TouchPhase::Idle => {
                        self.touch_phase = TouchPhase::Pan(touch_id);
                        TextInputAction::Pan(delta)
                    },
                    TouchPhase::Start(id, start_coord) => {
                        if id != touch_id {
                            TextInputAction::Cursor(coord, false, false, 1)
                        } else if mgr.config().test_pan_thresh(start_coord, coord) {
                            self.touch_phase = TouchPhase::Pan(id);
                            TextInputAction::Pan(delta)
                        } else {
                            TextInputAction::Consumed
                        }
                    },
                    TouchPhase::Pan(id) => {
                        if id == touch_id {
                            TextInputAction::Pan(delta)
                        } else {
                            TextInputAction::Cursor(coord, false, false, 1)
                        }
                    },
                    TouchPhase::Cursor(_) => TextInputAction::Cursor(coord, false, false, 1),
                },
                PressSource::Mouse(_, repeats) => {
                    if mgr.config_enable_mouse_text_pan() {
                        TextInputAction::Pan(delta)
                    } else {
                        TextInputAction::Cursor(coord, false, false, repeats)
                    }
                },
            },
            Event::PressEnd { source, .. } => {
                let owner = match self.touch_phase {
                    TouchPhase::Start(id, _) => Some(id),
                    TouchPhase::Pan(id) => Some(id),
                    TouchPhase::Cursor(id) => Some(id),
                    TouchPhase::Idle => None,
                };
                if let Some(id) = owner {
                    if source == PressSource::Touch(id) {
                        self.touch_phase = TouchPhase::Idle;
                    }
                }
                TextInputAction::Consumed
            },
            Event::TimerUpdate(payload) => {
                if payload != TIMER_ID {
                    return TextInputAction::Unhandled;
                }
                match self.touch_phase {
                    TouchPhase::Start(touch_id, coord) => {
                        self.touch_phase = TouchPhase::Cursor(touch_id);
                        TextInputAction::Cursor(coord, false, !mgr.modifiers().shift(), 1)
                    },
                    _ => TextInputAction::Consumed,
                }
            },
            _ => TextInputAction::Unhandled,
        }
    }
}

} // verus!
