//! The manager: the capability through which widgets and the host act on
//! the event core, and the shell it reports to.
use vstd::prelude::*;
use std::rc::Rc;
use crate::config::Config;
use crate::state::{ManagerState, PopupEntry, nav_focus_set, sel_focus_set};
use crate::tree::Widget;
use crate::types::{
    ACTION_REDRAW, ACTION_REGION_MOVED, CursorIcon, ModifiersState, Popup, TkAction, UpdateHandle,
    WidgetId, WindowId,
};

verus! {

/// Shared data that is told when its update handle is triggered.
pub trait Updatable {
    /// Update own state; a returned handle is triggered in turn.
    fn update_self(&self) -> Option<UpdateHandle>;
}

/// Window-system services that the event core calls on: windows and
/// pop-ups, update fan-out, the clipboard and the cursor.
pub trait ShellWindow {
    /// Open a pop-up window, if pop-ups are available.
    fn add_popup(&mut self, popup: Popup) -> Option<WindowId>;

    /// Open a new window showing `widget`.
    fn add_window(&mut self, widget: Widget) -> WindowId;

    /// Close a window or pop-up.
    fn close_window(&mut self, id: WindowId);

    /// Notify every subscriber of `handle`, in every window, once.
    fn trigger_update(&mut self, handle: UpdateHandle, payload: u64);

    /// Bind shared data to `handle`.
    fn update_shared_data<U: Updatable + 'static>(&mut self, handle: UpdateHandle, data: Rc<U>);

    fn get_clipboard(&mut self) -> Option<String>;

    fn set_clipboard(&mut self, content: String);

    fn set_cursor_icon(&mut self, icon: CursorIcon);
}

/// Event core state together with the shell of the current window.
pub struct Manager<S: ShellWindow> {
    pub state: ManagerState,
    pub shell: S,
}

impl<S: ShellWindow> Manager<S> {
    pub open spec fn wf(&self) -> bool {
        self.state.wf()
    }

    pub fn new(config: Config, shell: S) -> (r: Manager<S>)
        ensures
            r.wf(),
            r.state.is_initial(config),
            r.shell == shell,
    {
        Manager { state: ManagerState::new(config), shell }
    }

    /// Record the current time, in nanoseconds, as reported by the host.
    pub fn set_now(&mut self, now: u64)
        requires
            old(self).wf(),
        ensures
            final(self).wf(),
            final(self).state.now == now,
            final(self).state.keeps_all_but_focus(&(ManagerState { now, ..old(self).state })),
            final(self).state.keeps_focus(&old(self).state),
            final(self).state.pending@ == old(self).state.pending@,
            final(self).state.action == old(self).state.action,
            final(self).shell == old(self).shell,
    {
        self.state.now = now;
    }

    /// Record which modifier keys are held.
    pub fn set_modifiers(&mut self, modifiers: ModifiersState)
        requires
            old(self).wf(),
        ensures
            final(self).wf(),
            final(self).state.modifiers == modifiers,
            final(self).state.keeps_all_but_focus(
                &(ManagerState { modifiers, ..old(self).state }),
            ),
            final(self).state.keeps_focus(&old(self).state),
            final(self).state.pending@ == old(self).state.pending@,
            final(self).state.action == old(self).state.action,
            final(self).shell == old(self).shell,
    {
        self.state.modifiers = modifiers;
    }

    /// The current modifier state.
    pub fn modifiers(&self) -> (r: ModifiersState)
        ensures
            r == self.state.modifiers,
    {
        self.state.modifiers
    }

    /// The event-handling configuration.
    pub fn config(&self) -> (r: &Config)
        ensures
            *r == self.state.config,
    {
        &self.state.config
    }

    /// Whether mouse drags pan content, given the held modifiers.
    pub fn config_enable_mouse_pan(&self) -> (r: bool)
        ensures
            r == self.state.config.mouse_pan.spec_enabled_with(self.state.modifiers),
    {
        self.config().mouse_pan().is_enabled_with(self.modifiers())
    }

    /// Whether mouse drags pan text, given the held modifiers.
    pub fn config_enable_mouse_text_pan(&self) -> (r: bool)
        ensures
            r == self.state.config.mouse_text_pan.spec_enabled_with(self.state.modifiers),
    {
        self.config().mouse_text_pan().is_enabled_with(self.modifiers())
    }

    /// Request a redraw (of the whole window).
    pub fn redraw(&mut self, _id: WidgetId)
        requires
            old(self).wf(),
        ensures
            final(self).wf(),
            final(self).state.action.0 == old(self).state.action.0 | ACTION_REDRAW,
            final(self).state.keeps_all_but_focus(&old(self).state),
            final(self).state.keeps_focus(&old(self).state),
            final(self).state.pending@ == old(self).state.pending@,
            final(self).shell == old(self).shell,
    {
        self.send_action(TkAction(ACTION_REDRAW));
    }

    /// Add `action` to the actions applied after event handling.
    pub fn send_action(&mut self, action: TkAction)
        requires
            old(self).wf(),
        ensures
            final(self).wf(),
            final(self).state.action.0 == old(self).state.action.0 | action.0,
            final(self).state.keeps_all_but_focus(&old(self).state),
            final(self).state.keeps_focus(&old(self).state),
            final(self).state.pending@ == old(self).state.pending@,
            final(self).shell == old(self).shell,
    {
        self.state.send_action(action);
    }

    /// Take the accumulated actions, leaving none.
    pub fn pop_action(&mut self) -> (r: TkAction)
        requires
            old(self).wf(),
        ensures
            final(self).wf(),
            r == old(self).state.action,
            final(self).state.action.0 == 0,
            final(self).state.keeps_all_but_focus(&old(self).state),
            final(self).state.keeps_focus(&old(self).state),
            final(self).state.pending@ == old(self).state.pending@,
            final(self).shell == old(self).shell,
    {
        let action = self.state.action;
        self.state.action = TkAction(0);
        action
    }

    /// Open a pop-up through the shell. When it opens, the pop-up is recorded
    /// with the navigation focus to restore on close, and navigation focus
    /// is cleared.
    pub fn add_popup(&mut self, popup: Popup) -> (r: Option<WindowId>)
        requires
            old(self).wf(),
        ensures
            final(self).wf(),
            r.is_none() ==> {
                &&& final(self).state.keeps_all_but_focus(&old(self).state)
                &&& final(self).state.keeps_focus(&old(self).state)
                &&& final(self).state.pending@ == old(self).state.pending@
                &&& final(self).state.action == old(self).state.action
            },
            r matches Some(w) ==> {
                &&& final(self).state.popups@ == old(self).state.popups@.push(
                    PopupEntry { window: w, popup, saved_nav_focus: old(self).state.nav_focus },
                )
                &&& final(self).state.new_popups@ == old(self).state.new_popups@.push(popup.id)
                &&& final(self).state.popup_removed@ == old(self).state.popup_removed@
                &&& final(self).state.keeps_grabs(&old(self).state)
                &&& final(self).state.keeps_accel(&old(self).state)
                &&& final(self).state.keeps_updates(&old(self).state)
                &&& final(self).state.keeps_input(&old(self).state)
                &&& final(self).state.nav_focus.is_none()
                &&& final(self).state.nav_stack@.len() == 0
                &&& final(self).state.sel_focus == old(self).state.sel_focus
                &&& final(self).state.char_focus == old(self).state.char_focus
                &&& final(self).state.nav_fallback == old(self).state.nav_fallback
                &&& final(self).state.pending@ == old(self).state.pending@
                &&& final(self).state.action.0 == (if old(self).state.nav_focus.is_some() {
                    old(self).state.action.0 | ACTION_REDRAW
                } else {
                    old(self).state.action.0
                })
            },
    {
        let opt_id = self.shell.add_popup(popup);
        if let Some(id) = opt_id {
            self.state.new_popups.push(popup.id);
            self.state.popups.push(
                PopupEntry { window: id, popup, saved_nav_focus: self.state.nav_focus },
            );
            self.state.clear_nav_focus();
        }
        opt_id
    }

    /// Open a new window showing `widget`, through the shell.
    pub fn add_window(&mut self, widget: Widget) -> (r: WindowId)
        requires
            old(self).wf(),
        ensures
            final(self).wf(),
            final(self).state == old(self).state,
    {
        self.shell.add_window(widget)
    }

    /// Close a window or pop-up. Closing a pop-up records its removal and
    /// restores the navigation focus saved when it opened.
    pub fn close_window(&mut self, id: WindowId)
        requires
            old(self).wf(),
        ensures
            final(self).wf(),
            final(self).state.keeps_grabs(&old(self).state),
            final(self).state.keeps_accel(&old(self).state),
            final(self).state.keeps_updates(&old(self).state),
            final(self).state.keeps_input(&old(self).state),
            final(self).state.new_popups@ == old(self).state.new_popups@,
            final(self).state.action.0 & ACTION_REGION_MOVED == ACTION_REGION_MOVED,
            !(exists|i: int|
                0 <= i < old(self).state.popups@.len() && (
                #[trigger] old(self).state.popups@[i]).window == id) ==> {
                &&& final(self).state.popups@ == old(self).state.popups@
                &&& final(self).state.popup_removed@ == old(self).state.popup_removed@
                &&& final(self).state.keeps_focus(&old(self).state)
                &&& final(self).state.pending@ == old(self).state.pending@
            },
            forall|i: int|
                0 <= i < old(self).state.popups@.len() && (#[trigger] old(
                    self,
                ).state.popups@[i]).window == id && (forall|j: int|
                    0 <= j < i ==> (#[trigger] old(self).state.popups@[j]).window != id) ==> {
                    let e = old(self).state.popups@[i];
                    &&& final(self).state.popups@ == old(self).state.popups@.remove(i)
                    &&& final(self).state.popup_removed@ == old(
                        self,
                    ).state.popup_removed@.push((e.popup.parent, id))
                    &&& e.saved_nav_focus matches Some(f) ==> {
                        &&& final(self).state.nav_focus == Some(f)
                        &&& final(self).state.sel_focus == old(self).state.sel_focus
                        &&& final(self).state.nav_fallback == old(self).state.nav_fallback
                        &&& old(self).state.nav_focus == Some(f) ==> {
                            &&& final(self).state.keeps_focus(&old(self).state)
                            &&& final(self).state.pending@ == old(self).state.pending@
                        }
                        &&& old(self).state.nav_focus != Some(f) ==> {
                            &&& final(self).state.nav_stack@.len() == 0
                            &&& final(self).state.char_focus == old(
                                self,
                            ).state.char_focus_after_nav(f)
                            &&& final(self).state.pending@ == old(self).state.pending_after_nav(
                                f,
                                true,
                            )
                        }
                    }
                    &&& e.saved_nav_focus.is_none() ==> final(self).state.keeps_focus(
                        &old(self).state,
                    )
                },
    {
        let mut i: usize = 0;
        let mut found = false;
        while i < self.state.popups.len() && !found
            invariant
                i <= self.state.popups@.len(),
                self.state == old(self).state,
                found ==> i < self.state.popups@.len() && self.state.popups@[i as int].window == id,
                forall|j: int| 0 <= j < i ==> (#[trigger] self.state.popups@[j]).window != id,
            decreases self.state.popups@.len() - i + (if found {
                0int
            } else {
                1int
            }),
        {
            if self.state.popups[i].window == id {
                found = true;
            } else {
                i += 1;
            }
        }
        if found {
            let entry = self.state.popups.remove(i);
            self.state.popup_removed.push((entry.popup.parent, id));
            if let Some(f) = entry.saved_nav_focus {
                self.state.set_nav_focus(f, true);
            }
        }
        let ghost b = self.state.action.0;
        self.state.send_action(TkAction(ACTION_REGION_MOVED));
        proof {
            let a = self.state.action.0;
            assert(a & 2 == 2) by (bit_vector)
                requires
                    a == b | 2,
            ;
        }
        self.shell.close_window(id);
    }

    /// Notify every subscriber of `handle`, across all windows, through the shell.
    pub fn trigger_update(&mut self, handle: UpdateHandle, payload: u64)
        requires
            old(self).wf(),
        ensures
            final(self).wf(),
            final(self).state == old(self).state,
    {
        self.shell.trigger_update(handle, payload);
    }

    /// Bind shared data to `handle`: triggering the handle calls its update
    /// hook, and a handle it returns is triggered in turn.
    pub fn update_shared_data<U: Updatable + 'static>(&mut self, handle: UpdateHandle, data: Rc<U>)
        requires
            old(self).wf(),
        ensures
            final(self).wf(),
            final(self).state == old(self).state,
    {
        self.shell.update_shared_data(handle, data);
    }

    /// Clipboard contents, if the shell can provide them.
    pub fn get_clipboard(&mut self) -> (r: Option<String>)
        requires
            old(self).wf(),
        ensures
            final(self).wf(),
            final(self).state == old(self).state,
    {
        self.shell.get_clipboard()
    }

    /// Replace the clipboard contents.
    pub fn set_clipboard(&mut self, content: String)
        requires
            old(self).wf(),
        ensures
            final(self).wf(),
            final(self).state == old(self).state,
    {
        self.shell.set_clipboard(content)
    }

    /// Register a widget to receive navigation commands when nothing has
    /// navigation focus; the first registration wins.
    pub fn register_nav_fallback(&mut self, id: WidgetId)
        requires
            old(self).wf(),
        ensures
            final(self).wf(),
            final(self).state.nav_fallback == (if old(self).state.nav_fallback.is_none() {
                Some(id)
            } else {
                old(self).state.nav_fallback
            }),
            final(self).state.keeps_all_but_focus(
                &(ManagerState { nav_fallback: final(self).state.nav_fallback, ..old(self).state }),
            ),
            final(self).state.char_focus == old(self).state.char_focus,
            final(self).state.sel_focus == old(self).state.sel_focus,
            final(self).state.nav_focus == old(self).state.nav_focus,
            final(self).state.nav_stack@ == old(self).state.nav_stack@,
            final(self).state.pending@ == old(self).state.pending@,
            final(self).state.action == old(self).state.action,
            final(self).shell == old(self).shell,
    {
        if self.state.nav_fallback.is_none() {
            self.state.nav_fallback = Some(id);
        }
    }

    /// Give character focus (with selection and navigation focus) to `id`.
    /// Always succeeds.
    pub fn request_char_focus(&mut self, id: WidgetId) -> (r: bool)
        requires
            old(self).wf(),
        ensures
            final(self).wf(),
            r,
            final(self).state.char_focus,
            final(self).state.sel_focus == Some(id),
            final(self).state.nav_focus == Some(id),
            sel_focus_set(&old(self).state, &final(self).state, id, true),
            final(self).shell == old(self).shell,
    {
        self.state.set_sel_focus(id, true);
        true
    }

    /// Give selection focus (with navigation focus) to `id`. Character focus
    /// stays only if `id` already had it. Always succeeds.
    pub fn request_sel_focus(&mut self, id: WidgetId) -> (r: bool)
        requires
            old(self).wf(),
        ensures
            final(self).wf(),
            r,
            final(self).state.char_focus == (old(self).state.sel_focus == Some(id)
                && old(self).state.char_focus),
            final(self).state.sel_focus == Some(id),
            final(self).state.nav_focus == Some(id),
            sel_focus_set(&old(self).state, &final(self).state, id, false),
            final(self).shell == old(self).shell,
    {
        self.state.set_sel_focus(id, false);
        true
    }

    /// The widget with keyboard navigation focus, if any.
    pub fn nav_focus(&self) -> (r: Option<WidgetId>)
        ensures
            r == self.state.nav_focus,
    {
        self.state.nav_focus
    }

    /// Clear keyboard navigation focus; the old holder is redrawn.
    pub fn clear_nav_focus(&mut self)
        requires
            old(self).wf(),
        ensures
            final(self).wf(),
            final(self).state.keeps_all_but_focus(&old(self).state),
            final(self).state.nav_focus.is_none(),
            final(self).state.nav_stack@.len() == 0,
            final(self).state.char_focus == old(self).state.char_focus,
            final(self).state.sel_focus == old(self).state.sel_focus,
            final(self).state.pending@ == old(self).state.pending@,
            final(self).state.action.0 == (if old(self).state.nav_focus.is_some() {
                old(self).state.action.0 | ACTION_REDRAW
            } else {
                old(self).state.action.0
            }),
            final(self).shell == old(self).shell,
    {
        self.state.clear_nav_focus();
    }

    /// Set keyboard navigation focus to `id`. Nothing happens when `id`
    /// already has it. Otherwise character focus is cleared unless `id`
    /// holds selection focus, the navigation stack is reset, a redraw is
    /// requested, and with `notify` a focus notification is queued.
    pub fn set_nav_focus(&mut self, id: WidgetId, notify: bool)
        requires
            old(self).wf(),
        ensures
            final(self).wf(),
            final(self).shell == old(self).shell,
            nav_focus_set(&old(self).state, &final(self).state, id, notify),
    {
        self.state.set_nav_focus(id, notify);
    }
}

} // verus!
