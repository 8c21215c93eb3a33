//! Events delivered to widgets.
use vstd::prelude::*;
use crate::types::{Coord, Offset, PressSource, UpdateHandle, VirtualKeyCode, WidgetId, WindowId};

verus! {

/// Navigation and editing commands derived from keys.
#[derive(Clone, Copy, Debug, PartialEq, Eq, Structural)]
pub enum Command {
    Escape,
    Return,
    Space,
    Tab,
    Left,
    Right,
    Up,
    Down,
    Home,
    End,
    PageUp,
    PageDown,
}

/// An event delivered to a widget.
#[derive(Clone, Copy, Debug, PartialEq, Eq, Structural)]
pub enum Event {
    /// No event.
    Empty,
    /// Activation through an accelerator key or the keyboard.
    Activate,
    Command(Command, bool),
    ReceivedCharacter(char),
    /// A scheduled timer fired, with its payload.
    TimerUpdate(u64),
    HandleUpdate { handle: UpdateHandle, payload: u64 },
    /// Navigation focus arrived; the flag tells whether it came by key.
    NavFocus(bool),
    LostCharFocus,
    LostSelFocus,
    PressStart { source: PressSource, start_id: Option<WidgetId>, coord: Coord },
    PressMove { source: PressSource, cur_id: Option<WidgetId>, coord: Coord, delta: Offset },
    PressEnd { source: PressSource, end_id: Option<WidgetId>, coord: Coord, success: bool },
    /// A pan gesture moved by `delta`.
    Pan { delta: Offset },
    /// A key bound as an accelerator was pressed.
    AccelKey(VirtualKeyCode),
    NewPopup(WidgetId),
    PopupRemoved(WindowId),
}

} // verus!
