//! Identifiers, input channels and small value types shared by the event core.
use vstd::prelude::*;

verus! {

/// Identifier of a widget; identifiers are ordered by tree position.
#[derive(Clone, Copy, Debug, PartialEq, Eq, Structural, PartialOrd, Ord, Hash)]
pub struct WidgetId(pub u64);

/// Identifier of a window or pop-up window.
#[derive(Clone, Copy, Debug, PartialEq, Eq, Structural, PartialOrd, Ord, Hash)]
pub struct WindowId(pub u64);

/// Opaque token used to fan change notifications out to subscribers.
#[derive(Clone, Copy, Debug, PartialEq, Eq, Structural, PartialOrd, Ord, Hash)]
pub struct UpdateHandle(pub u64);

/// A physical key, identified by its virtual key code.
#[derive(Clone, Copy, Debug, PartialEq, Eq, Structural, PartialOrd, Ord, Hash)]
pub struct VirtualKeyCode(pub u32);

/// A position in window coordinates.
#[derive(Clone, Copy, Debug, PartialEq, Eq, Structural, Default)]
pub struct Coord(pub i32, pub i32);

/// A displacement between two positions.
#[derive(Clone, Copy, Debug, PartialEq, Eq, Structural, Default)]
pub struct Offset(pub i32, pub i32);

/// A mouse button.
#[derive(Clone, Copy, Debug, PartialEq, Eq, Structural)]
pub enum MouseButton {
    Left,
    Right,
    Middle,
    Other(u16),
}

/// An input channel: a mouse button with its click-repeat count, or a touch contact.
#[derive(Clone, Copy, Debug, PartialEq, Eq, Structural)]
pub enum PressSource {
    Mouse(MouseButton, u32),
    Touch(u64),
}

impl PressSource {
    pub open spec fn is_primary_spec(self) -> bool {
        match self {
            PressSource::Mouse(b, _) => b == MouseButton::Left,
            PressSource::Touch(_) => true,
        }
    }

    /// True for the left mouse button and for any touch contact.
    pub fn is_primary(self) -> (r: bool)
        ensures
            r == self.is_primary_spec(),
    {
        match self {
            PressSource::Mouse(b, _) => match b {
                MouseButton::Left => true,
                _ => false,
            },
            PressSource::Touch(_) => true,
        }
    }

    /// True when this is a touch contact.
    pub fn is_touch(self) -> (r: bool)
        ensures
            r == (self is Touch),
    {
        match self {
            PressSource::Touch(_) => true,
            _ => false,
        }
    }

    /// Number of clicks in the current click sequence (1 for touch).
    pub fn repetitions(self) -> (r: u32)
        ensures
            r == (match self {
                PressSource::Mouse(_, n) => n,
                PressSource::Touch(_) => 1u32,
            }),
    {
        match self {
            PressSource::Mouse(_, n) => n,
            PressSource::Touch(_) => 1,
        }
    }
}

/// How a grabbed press is delivered to its owner.
#[derive(Clone, Copy, Debug, PartialEq, Eq, Structural)]
pub enum GrabMode {
    /// Deliver raw move and end events.
    Grab,
    /// Synthesise pan events with translation, rotation and scale.
    PanFull,
    /// Synthesise pan events with translation and scale.
    PanScale,
    /// Synthesise pan events with translation and rotation.
    PanRotate,
    /// Synthesise pan events with translation only.
    PanOnly,
}

/// Shape of the mouse cursor.
#[derive(Clone, Copy, Debug, PartialEq, Eq, Structural)]
pub enum CursorIcon {
    Default,
    Crosshair,
    Hand,
    Arrow,
    Move,
    Text,
    Wait,
    Help,
    Progress,
    NotAllowed,
    Grab,
    Grabbing,
}

/// Which modifier keys are held.
#[derive(Clone, Copy, Debug, PartialEq, Eq, Structural, Default)]
pub struct ModifiersState {
    pub shift: bool,
    pub ctrl: bool,
    pub alt: bool,
    pub logo: bool,
}

impl ModifiersState {
    pub fn shift(&self) -> (r: bool)
        ensures
            r == self.shift,
    {
        self.shift
    }

    pub fn ctrl(&self) -> (r: bool)
        ensures
            r == self.ctrl,
    {
        self.ctrl
    }

    pub fn alt(&self) -> (r: bool)
        ensures
            r == self.alt,
    {
        self.alt
    }

    pub fn logo(&self) -> (r: bool)
        ensures
            r == self.logo,
    {
        self.logo
    }
}

/// Direction in which a pop-up opens relative to its parent.
#[derive(Clone, Copy, Debug, PartialEq, Eq, Structural)]
pub enum Direction {
    Right,
    Down,
    Left,
    Up,
}

/// Description of a pop-up: the pop-up widget, the widget that opened it,
/// and where it opens.
#[derive(Clone, Copy, Debug, PartialEq, Eq, Structural)]
pub struct Popup {
    pub id: WidgetId,
    pub parent: WidgetId,
    pub direction: Direction,
}

/// Set of pending toolkit actions, accumulated by union and drained once per
/// event cycle.
#[derive(Clone, Copy, Debug, PartialEq, Eq, Structural, Default)]
pub struct TkAction(pub u32);

pub const ACTION_REDRAW: u32 = 1;

pub const ACTION_REGION_MOVED: u32 = 2;

pub const ACTION_RECONFIGURE: u32 = 4;

pub const ACTION_RESIZE: u32 = 8;

pub const ACTION_CLOSE: u32 = 16;

impl TkAction {
    /// No action.
    pub fn empty() -> (r: TkAction)
        ensures
            r.0 == 0,
    {
        TkAction(0)
    }

    /// Redraw the window.
    pub fn redraw() -> (r: TkAction)
        ensures
            r.0 == ACTION_REDRAW,
    {
        TkAction(ACTION_REDRAW)
    }

    /// Some region has moved: re-evaluate hover and focus.
    pub fn region_moved() -> (r: TkAction)
        ensures
            r.0 == ACTION_REGION_MOVED,
    {
        TkAction(ACTION_REGION_MOVED)
    }

    /// Widgets were added or removed: reconfigure.
    pub fn reconfigure() -> (r: TkAction)
        ensures
            r.0 == ACTION_RECONFIGURE,
    {
        TkAction(ACTION_RECONFIGURE)
    }

    pub fn is_empty(self) -> (r: bool)
        ensures
            r == (self.0 == 0),
    {
        self.0 == 0
    }

    /// Union of two action sets.
    pub fn union(self, other: TkAction) -> (r: TkAction)
        ensures
            r.0 == self.0 | other.0,
    {
        TkAction(self.0 | other.0)
    }

    /// Whether every action of `other` is in `self`.
    pub fn contains(self, other: TkAction) -> (r: bool)
        ensures
            r == (self.0 & other.0 == other.0),
    {
        self.0 & other.0 == other.0
    }
}

} // verus!
