//! Session state of the event core and its well-formedness.
use vstd::prelude::*;
use crate::config::Config;
use crate::types::{
    ACTION_REDRAW, Coord, GrabMode, ModifiersState, MouseButton, Popup, TkAction, UpdateHandle, VirtualKeyCode,
    WidgetId, WindowId,
};

verus! {

/// The grab held on the mouse.
#[derive(Clone, Copy, Debug, PartialEq, Eq, Structural)]
pub struct MouseGrab {
    pub button: MouseButton,
    pub repetitions: u32,
    /// The widget that owns the grab.
    pub start_id: WidgetId,
    /// The widget drawn as pressed for this grab.
    pub depress: Option<WidgetId>,
    pub mode: GrabMode,
    /// Slot of this press in its owner's pan accumulator, for pan modes.
    pub pan_slot: Option<u16>,
}

/// A grab held on one touch contact.
#[derive(Clone, Copy, Debug, PartialEq, Eq, Structural)]
pub struct TouchGrab {
    pub touch_id: u64,
    /// The widget that owns the grab.
    pub start_id: WidgetId,
    /// The widget drawn as pressed for this grab.
    pub depress: Option<WidgetId>,
    /// The widget under the contact.
    pub cur_id: Option<WidgetId>,
    pub coord: Coord,
    pub mode: GrabMode,
    /// Slot of this press in its owner's pan accumulator, for pan modes.
    pub pan_slot: Option<u16>,
}

/// Number of presses whose coordinates a pan accumulator tracks.
pub const MAX_PAN_GRABS: usize = 2;

/// Pan accumulator of one widget: the presses that drive its pan gesture,
/// each with its start and current coordinate.
pub struct PanGrab {
    pub id: WidgetId,
    pub mode: GrabMode,
    pub source_is_touch: bool,
    /// Number of presses contributing (only the first two are tracked).
    pub n: u16,
    pub coords: Vec<(Coord, Coord)>,
}

/// One accelerator-key layer. Later bindings of a key take precedence.
pub struct AccelLayer {
    pub alt_bypass: bool,
    pub keys: Vec<(VirtualKeyCode, WidgetId)>,
}

/// A notification queued for delivery after the current call.
#[derive(Clone, Copy, Debug, PartialEq, Eq, Structural)]
pub enum Pending {
    LostCharFocus(WidgetId),
    LostSelFocus(WidgetId),
    SetNavFocus(WidgetId),
}

/// An open pop-up: its window, its description, and the navigation focus to
/// restore when it closes.
#[derive(Clone, Copy, Debug, PartialEq, Eq, Structural)]
pub struct PopupEntry {
    pub window: WindowId,
    pub popup: Popup,
    pub saved_nav_focus: Option<WidgetId>,
}

/// The map described by a list of associations, later entries overriding
/// earlier ones.
pub open spec fn assoc_map<K, V>(s: Seq<(K, V)>) -> Map<K, V>
    decreases s.len(),
{
    if s.len() == 0 {
        Map::empty()
    } else {
        assoc_map(s.drop_last()).insert(s.last().0, s.last().1)
    }
}

/// The last association of `k` in `s` decides its value.
pub proof fn lemma_assoc_map_last<K, V>(s: Seq<(K, V)>, k: K, j: int)
    requires
        0 <= j < s.len(),
        s[j].0 == k,
        forall|m: int| j < m < s.len() ==> (#[trigger] s[m]).0 != k,
    ensures
        assoc_map(s).contains_key(k),
        assoc_map(s)[k] == s[j].1,
    decreases s.len(),
{
    if j < s.len() - 1 {
        lemma_assoc_map_last(s.drop_last(), k, j);
    }
}

/// A key with no association is absent from the map.
pub proof fn lemma_assoc_map_absent<K, V>(s: Seq<(K, V)>, k: K)
    requires
        forall|m: int| 0 <= m < s.len() ==> (#[trigger] s[m]).0 != k,
    ensures
        !assoc_map(s).contains_key(k),
    decreases s.len(),
{
    if s.len() > 0 {
        lemma_assoc_map_absent(s.drop_last(), k);
    }
}

/// Timer entries `(deadline, widget, payload)` are sorted by descending
/// deadline and hold each `(widget, payload)` pair at most once.
pub open spec fn timers_wf(s: Seq<(u64, WidgetId, u64)>) -> bool {
    &&& forall|i: int, j: int| 0 <= i < j < s.len() ==> (#[trigger] s[i]).0 >= (#[trigger] s[j]).0
    &&& forall|i: int, j: int|
        0 <= i < s.len() && 0 <= j < s.len() && i != j ==> !((#[trigger] s[i]).1 == (
        #[trigger] s[j]).1 && s[i].2 == s[j].2)
}

/// Touch grabs hold each contact at most once.
pub open spec fn touch_ids_unique(s: Seq<TouchGrab>) -> bool {
    forall|i: int, j: int|
        0 <= i < s.len() && 0 <= j < s.len() && i != j ==> (#[trigger] s[i]).touch_id != (
        #[trigger] s[j]).touch_id
}

/// Pan accumulators hold each widget at most once.
pub open spec fn pan_ids_unique(s: Seq<PanGrab>) -> bool {
    forall|i: int, j: int|
        0 <= i < s.len() && 0 <= j < s.len() && i != j ==> (#[trigger] s[i]).id != (
        #[trigger] s[j]).id
}

/// Session state kept by the event core between events.
pub struct ManagerState {
    pub config: Config,
    pub modifiers: ModifiersState,
    /// The current time in nanoseconds, as last reported by the host.
    pub now: u64,
    /// Whether the selection-focus holder also receives character input.
    pub char_focus: bool,
    pub sel_focus: Option<WidgetId>,
    pub nav_focus: Option<WidgetId>,
    pub nav_fallback: Option<WidgetId>,
    /// Child indices from the navigation root down to `nav_focus`; empty
    /// when it must be rebuilt.
    pub nav_stack: Vec<usize>,
    pub hover: Option<WidgetId>,
    /// Widgets pressed through a key, with the key's scan code.
    pub key_depress: Vec<(u32, WidgetId)>,
    pub mouse_grab: Option<MouseGrab>,
    pub touch_grab: Vec<TouchGrab>,
    pub pan_grab: Vec<PanGrab>,
    /// Layers being configured; the base layer is at index 0.
    pub accel_stack: Vec<AccelLayer>,
    /// Finished layers, keyed by the widget that owns each.
    pub accel_layers: Vec<(WidgetId, AccelLayer)>,
    pub popups: Vec<PopupEntry>,
    pub new_popups: Vec<WidgetId>,
    pub popup_removed: Vec<(WidgetId, WindowId)>,
    pub time_updates: Vec<(u64, WidgetId, u64)>,
    /// Subscriptions `(handle, widget)`.
    pub handle_updates: Vec<(UpdateHandle, WidgetId)>,
    pub pending: Vec<Pending>,
    pub action: TkAction,
}

impl ManagerState {
    pub open spec fn wf(&self) -> bool {
        &&& self.char_focus ==> self.sel_focus.is_some()
        &&& touch_ids_unique(self.touch_grab@)
        &&& pan_ids_unique(self.pan_grab@)
        &&& self.accel_stack@.len() >= 1
        &&& timers_wf(self.time_updates@)
        &&& self.handle_updates@.no_duplicates()
    }

    /// A fresh state: nothing focused or grabbed, only the empty base layer.
    pub open spec fn is_initial(&self, config: Config) -> bool {
        &&& self.config == config
        &&& self.now == 0
        &&& !self.char_focus
        &&& self.sel_focus.is_none()
        &&& self.nav_focus.is_none()
        &&& self.nav_fallback.is_none()
        &&& self.nav_stack@.len() == 0
        &&& self.hover.is_none()
        &&& self.key_depress@.len() == 0
        &&& self.mouse_grab.is_none()
        &&& self.touch_grab@.len() == 0
        &&& self.pan_grab@.len() == 0
        &&& self.accel_stack@.len() == 1
        &&& !self.accel_stack@[0].alt_bypass
        &&& self.accel_stack@[0].keys@.len() == 0
        &&& self.accel_layers@.len() == 0
        &&& self.popups@.len() == 0
        &&& self.new_popups@.len() == 0
        &&& self.popup_removed@.len() == 0
        &&& self.time_updates@.len() == 0
        &&& self.handle_updates@.len() == 0
        &&& self.pending@.len() == 0
        &&& self.action.0 == 0
    }

    pub fn new(config: Config) -> (r: ManagerState)
        ensures
            r.wf(),
            r.is_initial(config),
    {
        let mut accel_stack = Vec::new();
        accel_stack.push(AccelLayer { alt_bypass: false, keys: Vec::new() });
        ManagerState {
            config,
            modifiers: ModifiersState { shift: false, ctrl: false, alt: false, logo: false },
            now: 0,
            char_focus: false,
            sel_focus: None,
            nav_focus: None,
            nav_fallback: None,
            nav_stack: Vec::new(),
            hover: None,
            key_depress: Vec::new(),
            mouse_grab: None,
            touch_grab: Vec::new(),
            pan_grab: Vec::new(),
            accel_stack,
            accel_layers: Vec::new(),
            popups: Vec::new(),
            new_popups: Vec::new(),
            popup_removed: Vec::new(),
            time_updates: Vec::new(),
            handle_updates: Vec::new(),
            pending: Vec::new(),
            action: TkAction(0),
        }
    }

    /// True when Alt is held and no widget has character focus.
    pub fn show_accel_labels(&self) -> (r: bool)
        ensures
            r == (self.modifiers.alt && !self.char_focus),
    {
        self.modifiers.alt() && !self.char_focus
    }

    /// Whether `w_id` has `(char_focus, sel_focus)`.
    pub fn has_char_focus(&self, w_id: WidgetId) -> (r: (bool, bool))
        ensures
            r == (if self.sel_focus == Some(w_id) {
                (self.char_focus, true)
            } else {
                (false, false)
            }),
    {
        if let Some(id) = self.sel_focus {
            if id == w_id {
                return (self.char_focus, true);
            }
        }
        (false, false)
    }

    /// Whether `w_id` has keyboard navigation focus.
    pub fn nav_focus(&self, w_id: WidgetId) -> (r: bool)
        ensures
            r == (self.nav_focus == Some(w_id)),
    {
        match self.nav_focus {
            Some(id) => id == w_id,
            None => false,
        }
    }

    /// Whether `w_id` is under the mouse cursor (and the mouse is not grabbed).
    pub fn is_hovered(&self, w_id: WidgetId) -> (r: bool)
        ensures
            r == (self.mouse_grab.is_none() && self.hover == Some(w_id)),
    {
        self.mouse_grab.is_none() && match self.hover {
            Some(id) => id == w_id,
            None => false,
        }
    }

    pub open spec fn spec_is_depressed(&self, w_id: WidgetId) -> bool {
        ||| exists|i: int|
            0 <= i < self.key_depress@.len() && (#[trigger] self.key_depress@[i]).1 == w_id
        ||| (self.mouse_grab matches Some(g) && g.depress == Some(w_id))
        ||| exists|i: int|
            0 <= i < self.touch_grab@.len() && (#[trigger] self.touch_grab@[i]).depress == Some(
                w_id,
            )
    }

    /// Whether `w_id` is drawn as pressed: by a key, the mouse grab or a touch grab.
    pub fn is_depressed(&self, w_id: WidgetId) -> (r: bool)
        ensures
            r == self.spec_is_depressed(w_id),
    {
        let mut i: usize = 0;
        while i < self.key_depress.len()
            invariant
                i <= self.key_depress@.len(),
                forall|j: int| 0 <= j < i ==> (#[trigger] self.key_depress@[j]).1 != w_id,
            decreases self.key_depress@.len() - i,
        {
            if self.key_depress[i].1 == w_id {
                return true;
            }
            i += 1;
        }
        if let Some(grab) = &self.mouse_grab {
            if grab.depress == Some(w_id) {
                return true;
            }
        }
        let mut k: usize = 0;
        while k < self.touch_grab.len()
            invariant
                k <= self.touch_grab@.len(),
                forall|j: int| 0 <= j < k ==> (#[trigger] self.touch_grab@[j]).depress != Some(w_id),
            decreases self.touch_grab@.len() - k,
        {
            if self.touch_grab[k].depress == Some(w_id) {
                return true;
            }
            k += 1;
        }
        false
    }

    /// Add `action` to the pending actions.
    pub fn send_action(&mut self, action: TkAction)
        ensures
            final(self).action.0 == old(self).action.0 | action.0,
            (ManagerState { action: final(self).action, ..*old(self) }) == *final(self),
    {
        self.action = TkAction(self.action.0 | action.0);
    }
}

} // verus!

verus! {

/// `new` is `old` after navigation focus is set to `id`: nothing changes
/// when `id` already has it; otherwise focus moves, the navigation stack is
/// reset, character focus is cleared unless `id` holds selection focus, a
/// redraw is requested and, with `notify`, a notification queued.
pub open spec fn nav_focus_set(old: &ManagerState, new: &ManagerState, id: WidgetId, notify: bool) -> bool {
    &&& new.keeps_all_but_focus(old)
    &&& old.nav_focus == Some(id) ==> {
        &&& new.keeps_focus(old)
        &&& new.pending@ == old.pending@
        &&& new.action == old.action
    }
    &&& old.nav_focus != Some(id) ==> {
        &&& new.nav_focus == Some(id)
        &&& new.nav_stack@.len() == 0
        &&& new.sel_focus == old.sel_focus
        &&& new.nav_fallback == old.nav_fallback
        &&& new.char_focus == old.char_focus_after_nav(id)
        &&& new.pending@ == old.pending_after_nav(id, notify)
        &&& new.action.0 == old.action.0 | ACTION_REDRAW
    }
}

/// `new` is `old` after selection focus (with character focus when
/// `char_focus`) is given to `wid`: `wid` also takes navigation focus, and a
/// previous holder is told that it lost character and selection focus.
pub open spec fn sel_focus_set(old: &ManagerState, new: &ManagerState, wid: WidgetId, char_focus: bool) -> bool {
    &&& new.keeps_all_but_focus(old)
    &&& new.sel_focus == Some(wid)
    &&& new.nav_focus == Some(wid)
    &&& new.nav_fallback == old.nav_fallback
    &&& old.nav_focus == Some(wid) ==> new.nav_stack@ == old.nav_stack@
    &&& old.nav_focus != Some(wid) ==> new.nav_stack@.len() == 0
    &&& new.char_focus == (if old.sel_focus == Some(wid) {
        old.char_focus || char_focus
    } else {
        char_focus
    })
    &&& new.pending@ == (if old.nav_focus == Some(wid) {
        old.pending@
    } else {
        old.pending_after_nav(wid, true)
    }) + (match old.sel_focus {
        Some(prev) => if prev == wid {
            Seq::empty()
        } else if old.nav_focus == Some(wid) && old.char_focus {
            seq![Pending::LostCharFocus(prev), Pending::LostSelFocus(prev)]
        } else {
            seq![Pending::LostSelFocus(prev)]
        },
        None => Seq::empty(),
    })
    &&& new.action.0 == (if old.nav_focus == Some(wid) {
        old.action.0
    } else {
        old.action.0 | ACTION_REDRAW
    })
}

/// Setting the same navigation focus twice in a row has the effect of
/// setting it once: the second call queues no notification and requests no
/// further redraw.
pub proof fn lemma_set_nav_focus_idempotent(
    s0: &ManagerState,
    s1: &ManagerState,
    s2: &ManagerState,
    id: WidgetId,
    notify: bool,
)
    requires
        nav_focus_set(s0, s1, id, notify),
        nav_focus_set(s1, s2, id, notify),
    ensures
        s2.keeps_all_but_focus(s1),
        s2.keeps_focus(s1),
        s2.pending@ == s1.pending@,
        s2.action == s1.action,
{
}

/// After any call on a well-formed state, character focus implies that some
/// widget holds selection focus.
pub proof fn lemma_char_focus_has_sel_focus(st: &ManagerState)
    requires
        st.wf(),
    ensures
        st.char_focus ==> st.sel_focus.is_some(),
{
}

/// A well-formed state holds at most one grab per input channel: one
/// optional mouse grab, and at most one grab per touch contact.
pub proof fn lemma_one_grab_per_channel(st: &ManagerState, touch_id: u64)
    requires
        st.wf(),
    ensures
        forall|i: int, j: int|
            0 <= i < st.touch_grab@.len() && 0 <= j < st.touch_grab@.len() && (
            #[trigger] st.touch_grab@[i]).touch_id == touch_id && (
            #[trigger] st.touch_grab@[j]).touch_id == touch_id ==> i == j,
{
}

impl ManagerState {
    /// Grabs and pan accumulators are the same.
    pub open spec fn keeps_grabs(&self, other: &ManagerState) -> bool {
        &&& self.mouse_grab == other.mouse_grab
        &&& self.touch_grab@ == other.touch_grab@
        &&& self.pan_grab@ == other.pan_grab@
    }

    /// Focus holders and the navigation stack are the same.
    pub open spec fn keeps_focus(&self, other: &ManagerState) -> bool {
        &&& self.char_focus == other.char_focus
        &&& self.sel_focus == other.sel_focus
        &&& self.nav_focus == other.nav_focus
        &&& self.nav_stack@ == other.nav_stack@
        &&& self.nav_fallback == other.nav_fallback
    }

    /// Accelerator layers are the same.
    pub open spec fn keeps_accel(&self, other: &ManagerState) -> bool {
        &&& self.accel_stack@ == other.accel_stack@
        &&& self.accel_layers@ == other.accel_layers@
    }

    /// Pop-up records are the same.
    pub open spec fn keeps_popups(&self, other: &ManagerState) -> bool {
        &&& self.popups@ == other.popups@
        &&& self.new_popups@ == other.new_popups@
        &&& self.popup_removed@ == other.popup_removed@
    }

    /// Timers and update subscriptions are the same.
    pub open spec fn keeps_updates(&self, other: &ManagerState) -> bool {
        &&& self.time_updates@ == other.time_updates@
        &&& self.handle_updates@ == other.handle_updates@
    }

    /// Configuration, input state and the clock are the same.
    pub open spec fn keeps_input(&self, other: &ManagerState) -> bool {
        &&& self.config == other.config
        &&& self.modifiers == other.modifiers
        &&& self.now == other.now
        &&& self.hover == other.hover
        &&& self.key_depress@ == other.key_depress@
    }

    /// Everything but focus, pending notifications and actions is the same.
    pub open spec fn keeps_all_but_focus(&self, other: &ManagerState) -> bool {
        &&& self.keeps_grabs(other)
        &&& self.keeps_accel(other)
        &&& self.keeps_popups(other)
        &&& self.keeps_updates(other)
        &&& self.keeps_input(other)
        &&& self.nav_fallback == other.nav_fallback
    }

    /// Pending notifications after character focus is cleared.
    pub open spec fn pending_after_clear_char(&self) -> Seq<Pending> {
        match self.sel_focus {
            Some(id) => if self.char_focus {
                self.pending@.push(Pending::LostCharFocus(id))
            } else {
                self.pending@
            },
            None => self.pending@,
        }
    }

    /// Pending notifications after navigation focus moves to `id`.
    pub open spec fn pending_after_nav(&self, id: WidgetId, notify: bool) -> Seq<Pending> {
        let p = if self.sel_focus != Some(id) {
            self.pending_after_clear_char()
        } else {
            self.pending@
        };
        if notify {
            p.push(Pending::SetNavFocus(id))
        } else {
            p
        }
    }

    /// Character focus after navigation focus moves to `id`.
    pub open spec fn char_focus_after_nav(&self, id: WidgetId) -> bool {
        if self.sel_focus != Some(id) {
            false
        } else {
            self.char_focus
        }
    }

    /// Stop sending character input to the selection-focus holder, which is
    /// told that it lost character focus.
    pub fn clear_char_focus(&mut self)
        requires
            old(self).wf(),
        ensures
            final(self).wf(),
            final(self).keeps_all_but_focus(old(self)),
            final(self).pending@ == old(self).pending_after_clear_char(),
            !final(self).char_focus,
            final(self).sel_focus == old(self).sel_focus,
            final(self).nav_focus == old(self).nav_focus,
            final(self).nav_stack@ == old(self).nav_stack@,
            final(self).action == old(self).action,
    {
        if let Some(id) = self.sel_focus {
            if self.char_focus {
                self.pending.push(Pending::LostCharFocus(id));
            }
            self.char_focus = false;
        }
    }

    /// Move navigation focus to `id`; see `Manager::set_nav_focus`.
    pub fn set_nav_focus(&mut self, id: WidgetId, notify: bool)
        requires
            old(self).wf(),
        ensures
            final(self).wf(),
            nav_focus_set(old(self), final(self), id, notify),
    {
        let is_focus = match self.nav_focus {
            Some(f) => f == id,
            None => false,
        };
        if !is_focus {
            self.send_action(TkAction(ACTION_REDRAW));
            let is_sel = match self.sel_focus {
                Some(f) => f == id,
                None => false,
            };
            if !is_sel {
                self.clear_char_focus();
            }
            self.nav_focus = Some(id);
            self.nav_stack.clear();
            if notify {
                self.pending.push(Pending::SetNavFocus(id));
            }
        }
    }

    /// Clear navigation focus and its cached stack; the old holder is redrawn.
    pub fn clear_nav_focus(&mut self)
        requires
            old(self).wf(),
        ensures
            final(self).wf(),
            final(self).keeps_all_but_focus(old(self)),
            final(self).nav_focus.is_none(),
            final(self).nav_stack@.len() == 0,
            final(self).char_focus == old(self).char_focus,
            final(self).sel_focus == old(self).sel_focus,
            final(self).pending@ == old(self).pending@,
            final(self).action.0 == (if old(self).nav_focus.is_some() {
                old(self).action.0 | ACTION_REDRAW
            } else {
                old(self).action.0
            }),
    {
        if self.nav_focus.is_some() {
            self.send_action(TkAction(ACTION_REDRAW));
        }
        self.nav_focus = None;
        self.nav_stack.clear();
    }

    /// Give selection focus (and character focus when `char_focus`) to `wid`,
    /// which also receives navigation focus. A previous holder is told that
    /// it lost character and selection focus.
    pub fn set_sel_focus(&mut self, wid: WidgetId, char_focus: bool)
        requires
            old(self).wf(),
        ensures
            final(self).wf(),
            sel_focus_set(old(self), final(self), wid, char_focus),
    {
        self.set_nav_focus(wid, true);
        let ghost mid = self.pending@;
        let same = match self.sel_focus {
            Some(f) => f == wid,
            None => false,
        };
        if same {
            self.char_focus = self.char_focus || char_focus;
            assert(self.pending@ =~= mid + Seq::empty());
            return;
        }
        if let Some(id) = self.sel_focus {
            if self.char_focus {
                self.pending.push(Pending::LostCharFocus(id));
            }
            self.pending.push(Pending::LostSelFocus(id));
        }
        self.char_focus = char_focus;
        self.sel_focus = Some(wid);
        assert(self.pending@ =~= mid + (match old(self).sel_focus {
            Some(prev) => if prev == wid {
                Seq::empty()
            } else if old(self).nav_focus == Some(wid) && old(self).char_focus {
                seq![Pending::LostCharFocus(prev), Pending::LostSelFocus(prev)]
            } else {
                seq![Pending::LostSelFocus(prev)]
            },
            None => Seq::empty(),
        }));
    }
}

} // verus!
