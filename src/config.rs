//! Event-handling configuration.
use vstd::prelude::*;
use crate::types::{Coord, ModifiersState};

verus! {

/// When dragging with the mouse pans content.
#[derive(Clone, Copy, Debug, PartialEq, Eq, Structural)]
pub enum MousePan {
    Never,
    WithAlt,
    WithCtrl,
    Always,
}

impl MousePan {
    pub open spec fn spec_enabled_with(self, modifiers: ModifiersState) -> bool {
        match self {
            MousePan::Never => false,
            MousePan::WithAlt => modifiers.alt,
            MousePan::WithCtrl => modifiers.ctrl,
            MousePan::Always => true,
        }
    }

    /// Whether panning is enabled given the held modifiers.
    pub fn is_enabled_with(self, modifiers: ModifiersState) -> (r: bool)
        ensures
            r == self.spec_enabled_with(modifiers),
    {
        match self {
            MousePan::Never => false,
            MousePan::WithAlt => modifiers.alt,
            MousePan::WithCtrl => modifiers.ctrl,
            MousePan::Always => true,
        }
    }
}

/// Squared distance between two positions.
pub open spec fn dist_sq(a: Coord, b: Coord) -> int {
    (b.0 - a.0) * (b.0 - a.0) + (b.1 - a.1) * (b.1 - a.1)
}

/// Configuration read by the event core.
#[derive(Clone, Copy, Debug, PartialEq, Eq, Structural)]
pub struct Config {
    /// When mouse drags pan scrollable content.
    pub mouse_pan: MousePan,
    /// When mouse drags pan text instead of selecting it.
    pub mouse_text_pan: MousePan,
    /// Delay before a held touch starts a text selection, in nanoseconds.
    pub touch_text_sel_delay_ns: u64,
    /// Distance a touch must travel before it is treated as a pan, in pixels.
    pub pan_dist_thresh: u32,
}

impl Config {
    /// The default configuration.
    pub fn new() -> (r: Config)
        ensures
            r.mouse_pan == MousePan::Always,
            r.mouse_text_pan == MousePan::WithAlt,
            r.touch_text_sel_delay_ns == 1_000_000_000,
            r.pan_dist_thresh == 2,
    {
        Config {
            mouse_pan: MousePan::Always,
            mouse_text_pan: MousePan::WithAlt,
            touch_text_sel_delay_ns: 1_000_000_000,
            pan_dist_thresh: 2,
        }
    }

    pub fn mouse_pan(&self) -> (r: MousePan)
        ensures
            r == self.mouse_pan,
    {
        self.mouse_pan
    }

    pub fn mouse_text_pan(&self) -> (r: MousePan)
        ensures
            r == self.mouse_text_pan,
    {
        self.mouse_text_pan
    }

    pub fn touch_text_sel_delay(&self) -> (r: u64)
        ensures
            r == self.touch_text_sel_delay_ns,
    {
        self.touch_text_sel_delay_ns
    }

    pub open spec fn spec_pan_thresh_reached(self, from: Coord, to: Coord) -> bool {
        dist_sq(from, to) >= self.pan_dist_thresh * self.pan_dist_thresh
    }

    /// Whether moving from `from` to `to` travels at least the pan threshold.
    pub fn test_pan_thresh(&self, from: Coord, to: Coord) -> (r: bool)
        ensures
            r == self.spec_pan_thresh_reached(from, to),
    {
        let dx: i64 = to.0 as i64 - from.0 as i64;
        let dy: i64 = to.1 as i64 - from.1 as i64;
        let t: i128 = self.pan_dist_thresh as i128;
        proof {
            assert(0 <= dx * dx <= 0x1_0000_0000 * 0x1_0000_0000) by (nonlinear_arith)
                requires -0x1_0000_0000 <= dx <= 0x1_0000_0000;
            assert(0 <= dy * dy <= 0x1_0000_0000 * 0x1_0000_0000) by (nonlinear_arith)
                requires -0x1_0000_0000 <= dy <= 0x1_0000_0000;
            assert(0 <= t * t <= 0x1_0000_0000 * 0x1_0000_0000) by (nonlinear_arith)
                requires 0 <= t <= 0x1_0000_0000;
        }
        let d: i128 = dx as i128 * dx as i128 + dy as i128 * dy as i128;
        d >= t * t
    }
}

} // verus!
