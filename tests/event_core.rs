use std::rc::Rc;

use kas_event::config::{Config, MousePan};
use kas_event::event::Event;
use kas_event::manager::{Manager, ShellWindow, Updatable};
use kas_event::state::{ManagerState, Pending, PopupEntry};
use kas_event::text_input::{TextInput, TextInputAction, TouchPhase, TIMER_ID};
use kas_event::tree::Widget;
use kas_event::types::{
    Coord, CursorIcon, Direction, GrabMode, ModifiersState, MouseButton, Offset, Popup,
    PressSource, TkAction, UpdateHandle, VirtualKeyCode, WidgetId, WindowId, ACTION_REDRAW,
    ACTION_REGION_MOVED,
};

#[derive(Default)]
struct TestShell {
    next_window: u64,
    popups_open: bool,
    closed: Vec<WindowId>,
    triggered: Vec<(UpdateHandle, u64)>,
    shared: Vec<UpdateHandle>,
    clipboard: Option<String>,
    cursor: Option<CursorIcon>,
}

impl ShellWindow for TestShell {
    fn add_popup(&mut self, _popup: Popup) -> Option<WindowId> {
        if self.popups_open {
            self.next_window += 1;
            Some(WindowId(self.next_window))
        } else {
            None
        }
    }

    fn add_window(&mut self, _widget: Widget) -> WindowId {
        self.next_window += 1;
        WindowId(self.next_window)
    }

    fn close_window(&mut self, id: WindowId) {
        self.closed.push(id);
    }

    fn trigger_update(&mut self, handle: UpdateHandle, payload: u64) {
        self.triggered.push((handle, payload));
    }

    fn update_shared_data<U: Updatable + 'static>(&mut self, handle: UpdateHandle, _data: Rc<U>) {
        self.shared.push(handle);
    }

    fn get_clipboard(&mut self) -> Option<String> {
        self.clipboard.clone()
    }

    fn set_clipboard(&mut self, content: String) {
        self.clipboard = Some(content);
    }

    fn set_cursor_icon(&mut self, icon: CursorIcon) {
        self.cursor = Some(icon);
    }
}

struct Counter;

impl Updatable for Counter {
    fn update_self(&self) -> Option<UpdateHandle> {
        None
    }
}

fn manager() -> Manager<TestShell> {
    Manager::new(Config::new(), TestShell { popups_open: true, ..Default::default() })
}

fn w(n: u64) -> WidgetId {
    WidgetId(n)
}

fn leaf(n: u64) -> Widget {
    Widget::new(w(n), true, Vec::new())
}

fn three_siblings() -> Widget {
    Widget::new(w(0), false, vec![leaf(1), leaf(2), leaf(3)])
}

fn touch(id: u64) -> PressSource {
    PressSource::Touch(id)
}

fn left() -> PressSource {
    PressSource::Mouse(MouseButton::Left, 1)
}

fn sorted_subscribers(st: &ManagerState, h: UpdateHandle) -> Vec<WidgetId> {
    let mut v = st.subscribers(h);
    v.sort();
    v
}

// ---- grabs ----

#[test]
fn grab_second_mouse_request_fails_and_keeps_grab() {
    let mut mgr = manager();
    assert!(mgr.request_grab(w(1), left(), Coord(0, 0), GrabMode::Grab, None));
    let before = mgr.state.mouse_grab;
    let action = mgr.state.action;
    assert!(!mgr.request_grab(w(2), PressSource::Mouse(MouseButton::Right, 2), Coord(5, 5), GrabMode::PanFull, Some(CursorIcon::Hand)));
    assert_eq!(mgr.state.mouse_grab, before);
    assert_eq!(mgr.state.action, action);
    assert_eq!(mgr.shell.cursor, None);
    assert_eq!(mgr.state.mouse_grab.unwrap().start_id, w(1));
    assert_eq!(mgr.state.mouse_grab.unwrap().depress, Some(w(1)));
}

#[test]
fn grab_one_per_touch_channel() {
    let mut mgr = manager();
    assert!(mgr.request_grab(w(1), touch(7), Coord(1, 1), GrabMode::Grab, None));
    assert!(!mgr.request_grab(w(2), touch(7), Coord(1, 1), GrabMode::Grab, None));
    assert!(mgr.request_grab(w(2), touch(8), Coord(1, 1), GrabMode::Grab, None));
    assert!(mgr.request_grab(w(3), left(), Coord(1, 1), GrabMode::Grab, None));
    assert_eq!(mgr.state.touch_grab.len(), 2);
    assert_eq!(mgr.state.touch_grab.iter().filter(|g| g.touch_id == 7).count(), 1);
    assert!(mgr.end_grab(touch(7)));
    assert!(!mgr.end_grab(touch(7)));
    assert!(mgr.request_grab(w(4), touch(7), Coord(1, 1), GrabMode::Grab, None));
    assert_eq!(mgr.state.touch_grab.iter().filter(|g| g.touch_id == 7).count(), 1);
    assert_eq!(mgr.state.touch_grab.len(), 2);
}

#[test]
fn grab_requests_redraw_and_sets_cursor() {
    let mut mgr = manager();
    assert!(mgr.request_grab(w(1), left(), Coord(0, 0), GrabMode::Grab, Some(CursorIcon::Grabbing)));
    assert_eq!(mgr.shell.cursor, Some(CursorIcon::Grabbing));
    assert_eq!(mgr.pop_action().0 & ACTION_REDRAW, ACTION_REDRAW);
    assert_eq!(mgr.pop_action(), TkAction::empty());
}

#[test]
fn grab_cursor_only_for_owner() {
    let mut mgr = manager();
    mgr.update_grab_cursor(w(1), CursorIcon::Text);
    assert_eq!(mgr.shell.cursor, None);
    assert!(mgr.request_grab(w(1), left(), Coord(0, 0), GrabMode::Grab, None));
    mgr.update_grab_cursor(w(2), CursorIcon::Text);
    assert_eq!(mgr.shell.cursor, None);
    mgr.update_grab_cursor(w(1), CursorIcon::Move);
    assert_eq!(mgr.shell.cursor, Some(CursorIcon::Move));
}

#[test]
fn grab_end_requires_matching_button() {
    let mut mgr = manager();
    assert!(mgr.request_grab(w(1), left(), Coord(0, 0), GrabMode::Grab, None));
    assert!(!mgr.end_grab(PressSource::Mouse(MouseButton::Right, 1)));
    assert!(mgr.state.mouse_grab.is_some());
    assert!(mgr.end_grab(left()));
    assert!(mgr.state.mouse_grab.is_none());
    assert!(mgr.request_grab(w(2), left(), Coord(0, 0), GrabMode::Grab, None));
}

#[test]
fn grab_depress_changes_and_reports() {
    let mut mgr = manager();
    assert!(!mgr.set_grab_depress(left(), Some(w(5))));
    assert!(mgr.request_grab(w(1), touch(3), Coord(0, 0), GrabMode::Grab, None));
    mgr.pop_action();
    assert!(mgr.state.is_depressed(w(1)));
    assert!(!mgr.set_grab_depress(touch(3), Some(w(1))));
    assert_eq!(mgr.pop_action(), TkAction::empty());
    assert!(mgr.set_grab_depress(touch(3), Some(w(9))));
    assert_eq!(mgr.pop_action().0, ACTION_REDRAW);
    assert!(mgr.state.is_depressed(w(9)));
    assert!(!mgr.state.is_depressed(w(1)));
    assert!(mgr.set_grab_depress(touch(3), None));
    assert!(!mgr.state.is_depressed(w(9)));
}

#[test]
fn grab_pan_accumulates_same_source_and_replaces_other() {
    let mut mgr = manager();
    assert!(mgr.request_grab(w(1), touch(1), Coord(0, 0), GrabMode::PanFull, None));
    assert!(mgr.request_grab(w(1), touch(2), Coord(5, 5), GrabMode::PanFull, None));
    assert_eq!(mgr.state.pan_grab.len(), 1);
    assert_eq!(mgr.state.pan_grab[0].n, 2);
    assert_eq!(mgr.state.pan_grab[0].coords.len(), 2);
    assert_eq!(mgr.state.touch_grab[1].pan_slot, Some(1));
    assert!(mgr.request_grab(w(1), left(), Coord(9, 9), GrabMode::PanOnly, None));
    assert_eq!(mgr.state.pan_grab.len(), 1);
    assert_eq!(mgr.state.pan_grab[0].n, 1);
    assert!(!mgr.state.pan_grab[0].source_is_touch);
    assert_eq!(mgr.state.pan_grab[0].mode, GrabMode::PanOnly);
    assert_eq!(mgr.state.pan_grab[0].coords, vec![(Coord(9, 9), Coord(9, 9))]);
    assert!(mgr.end_grab(left()));
    assert!(mgr.state.pan_grab.is_empty());
}

#[test]
fn grab_pan_release_shifts_later_slots() {
    let mut mgr = manager();
    assert!(mgr.request_grab(w(1), touch(1), Coord(0, 0), GrabMode::PanScale, None));
    assert!(mgr.request_grab(w(1), touch(2), Coord(4, 4), GrabMode::PanScale, None));
    assert!(mgr.end_grab(touch(1)));
    assert_eq!(mgr.state.pan_grab[0].n, 1);
    assert_eq!(mgr.state.pan_grab[0].coords, vec![(Coord(4, 4), Coord(4, 4))]);
    assert_eq!(mgr.state.touch_grab[0].touch_id, 2);
    assert_eq!(mgr.state.touch_grab[0].pan_slot, Some(0));
}

#[test]
fn hover_hidden_while_mouse_grabbed() {
    let mut mgr = manager();
    mgr.state.hover = Some(w(4));
    assert!(mgr.state.is_hovered(w(4)));
    assert!(!mgr.state.is_hovered(w(5)));
    assert!(mgr.request_grab(w(1), left(), Coord(0, 0), GrabMode::Grab, None));
    assert!(!mgr.state.is_hovered(w(4)));
}

#[test]
fn key_depress_counts() {
    let mut mgr = manager();
    mgr.state.key_depress.push((30, w(6)));
    assert!(mgr.state.is_depressed(w(6)));
    assert!(!mgr.state.is_depressed(w(7)));
}

// ---- focus ----

#[test]
fn char_focus_implies_sel_focus_after_calls() {
    let mut mgr = manager();
    let check = |m: &Manager<TestShell>| assert!(!m.state.char_focus || m.state.sel_focus.is_some());
    assert!(mgr.request_char_focus(w(1)));
    check(&mgr);
    assert_eq!(mgr.state.has_char_focus(w(1)), (true, true));
    assert!(mgr.request_sel_focus(w(2)));
    check(&mgr);
    assert_eq!(mgr.state.has_char_focus(w(1)), (false, false));
    assert_eq!(mgr.state.has_char_focus(w(2)), (false, true));
    mgr.clear_nav_focus();
    check(&mgr);
    assert!(mgr.request_char_focus(w(2)));
    check(&mgr);
    assert_eq!(mgr.state.has_char_focus(w(2)), (true, true));
    mgr.set_nav_focus(w(3), false);
    check(&mgr);
    assert_eq!(mgr.state.has_char_focus(w(2)), (false, true));
}

#[test]
fn char_focus_loss_is_notified() {
    let mut mgr = manager();
    mgr.request_char_focus(w(1));
    mgr.state.pending.clear();
    mgr.request_char_focus(w(2));
    assert_eq!(
        mgr.state.pending,
        vec![Pending::LostCharFocus(w(1)), Pending::SetNavFocus(w(2)), Pending::LostSelFocus(w(1))]
    );
    assert_eq!(mgr.nav_focus(), Some(w(2)));
}

#[test]
fn sel_focus_keeps_char_focus_of_holder() {
    let mut mgr = manager();
    mgr.request_char_focus(w(1));
    mgr.request_sel_focus(w(1));
    assert_eq!(mgr.state.has_char_focus(w(1)), (true, true));
}

#[test]
fn set_nav_focus_twice_has_one_effect() {
    let mut mgr = manager();
    mgr.set_nav_focus(w(4), true);
    assert_eq!(mgr.state.pending, vec![Pending::SetNavFocus(w(4))]);
    assert_eq!(mgr.pop_action().0, ACTION_REDRAW);
    mgr.set_nav_focus(w(4), true);
    assert_eq!(mgr.state.pending, vec![Pending::SetNavFocus(w(4))]);
    assert_eq!(mgr.pop_action(), TkAction::empty());
    assert!(mgr.state.nav_focus(w(4)));
}

#[test]
fn clear_nav_focus_redraws_only_when_focused() {
    let mut mgr = manager();
    mgr.clear_nav_focus();
    assert_eq!(mgr.pop_action(), TkAction::empty());
    mgr.set_nav_focus(w(1), false);
    mgr.pop_action();
    mgr.clear_nav_focus();
    assert_eq!(mgr.pop_action().0, ACTION_REDRAW);
    assert_eq!(mgr.nav_focus(), None);
}

#[test]
fn accel_labels_need_alt_without_char_focus() {
    let mut mgr = manager();
    assert!(!mgr.state.show_accel_labels());
    mgr.set_modifiers(ModifiersState { alt: true, ..Default::default() });
    assert!(mgr.state.show_accel_labels());
    mgr.request_char_focus(w(1));
    assert!(!mgr.state.show_accel_labels());
}

#[test]
fn nav_fallback_first_wins() {
    let mut mgr = manager();
    mgr.register_nav_fallback(w(1));
    mgr.register_nav_fallback(w(2));
    assert_eq!(mgr.state.nav_fallback, Some(w(1)));
}

// ---- navigation ----

#[test]
fn nav_three_siblings_cycle() {
    let root = three_siblings();
    let mut mgr = manager();
    assert!(mgr.next_nav_focus(&root, false, true));
    assert_eq!(mgr.nav_focus(), Some(w(1)));
    assert!(mgr.next_nav_focus(&root, false, true));
    assert_eq!(mgr.nav_focus(), Some(w(2)));
    assert!(mgr.next_nav_focus(&root, false, true));
    assert_eq!(mgr.nav_focus(), Some(w(3)));
    assert!(mgr.next_nav_focus(&root, false, true));
    assert_eq!(mgr.nav_focus(), Some(w(1)));
}

#[test]
fn nav_reverse_cycle() {
    let root = three_siblings();
    let mut mgr = manager();
    assert!(mgr.next_nav_focus(&root, true, false));
    assert_eq!(mgr.nav_focus(), Some(w(3)));
    assert!(mgr.next_nav_focus(&root, true, false));
    assert_eq!(mgr.nav_focus(), Some(w(2)));
    assert!(mgr.next_nav_focus(&root, true, false));
    assert_eq!(mgr.nav_focus(), Some(w(1)));
    assert!(mgr.next_nav_focus(&root, true, false));
    assert_eq!(mgr.nav_focus(), Some(w(3)));
}

#[test]
fn nav_depth_first_and_skips_disabled() {
    // 0 { 1 { 2, 3 }, 4 (disabled) { 5 }, 6 }
    let mut disabled = Widget::new(w(4), true, vec![leaf(5)]);
    disabled.disabled = true;
    let root = Widget::new(
        w(0),
        false,
        vec![Widget::new(w(1), true, vec![leaf(2), leaf(3)]), disabled, leaf(6)],
    );
    let mut mgr = manager();
    let mut seen = Vec::new();
    for _ in 0..5 {
        assert!(mgr.next_nav_focus(&root, false, false));
        seen.push(mgr.nav_focus().unwrap().0);
    }
    assert_eq!(seen, vec![1, 2, 3, 6, 1]);
    assert_eq!(mgr.state.nav_stack, vec![0]);
}

#[test]
fn nav_resumes_after_set_nav_focus() {
    let root = Widget::new(w(0), false, vec![Widget::new(w(1), false, vec![leaf(2), leaf(3)]), leaf(4)]);
    let mut mgr = manager();
    mgr.set_nav_focus(w(2), false);
    assert!(mgr.state.nav_stack.is_empty());
    assert!(mgr.next_nav_focus(&root, false, false));
    assert_eq!(mgr.nav_focus(), Some(w(3)));
    assert_eq!(mgr.state.nav_stack, vec![0, 1]);
}

#[test]
fn nav_fails_without_focusable_widgets() {
    let root = Widget::new(w(0), false, vec![Widget::new(w(1), false, Vec::new())]);
    let mut mgr = manager();
    assert!(!mgr.next_nav_focus(&root, false, false));
    assert!(!mgr.next_nav_focus(&root, true, false));
    assert_eq!(mgr.nav_focus(), None);
}

#[test]
fn nav_unknown_focus_is_cleared() {
    let root = three_siblings();
    let mut mgr = manager();
    mgr.set_nav_focus(w(99), false);
    assert!(!mgr.next_nav_focus(&root, false, false));
    assert_eq!(mgr.nav_focus(), None);
}

#[test]
fn nav_searches_inside_open_popup() {
    let popup_widget = Widget::new(w(10), false, vec![leaf(11), leaf(12)]);
    let root = Widget::new(w(0), false, vec![leaf(1), popup_widget]);
    let mut mgr = manager();
    let popup = Popup { id: w(10), parent: w(1), direction: Direction::Down };
    assert_eq!(mgr.add_popup(popup), Some(WindowId(1)));
    assert!(mgr.next_nav_focus(&root, false, false));
    assert_eq!(mgr.nav_focus(), Some(w(11)));
    assert!(mgr.next_nav_focus(&root, false, false));
    assert_eq!(mgr.nav_focus(), Some(w(12)));
    assert!(mgr.next_nav_focus(&root, false, false));
    assert_eq!(mgr.nav_focus(), Some(w(11)));
}

#[test]
fn tree_queries() {
    let root = three_siblings();
    assert!(root.is_ancestor_of(w(2)));
    assert!(!root.is_ancestor_of(w(7)));
    assert_eq!(root.find_leaf(w(3)).map(|n| n.id()), Some(w(3)));
    assert!(root.find_leaf(w(8)).is_none());
    assert_eq!(root.spatial_nav(false, None), Some(0));
    assert_eq!(root.spatial_nav(true, None), Some(2));
    assert_eq!(root.spatial_nav(false, Some(2)), None);
    assert_eq!(root.spatial_nav(true, Some(0)), None);
    assert_eq!(root.spatial_nav(true, Some(2)), Some(1));
    assert_eq!(leaf(1).spatial_nav(false, None), None);
}

// ---- pop-ups ----

#[test]
fn popup_close_restores_focus() {
    let mut mgr = manager();
    mgr.set_nav_focus(w(5), false);
    let popup = Popup { id: w(20), parent: w(5), direction: Direction::Right };
    let win = mgr.add_popup(popup).unwrap();
    assert_eq!(mgr.nav_focus(), None);
    assert_eq!(mgr.state.new_popups, vec![w(20)]);
    assert_eq!(
        mgr.state.popups,
        vec![PopupEntry { window: win, popup, saved_nav_focus: Some(w(5)) }]
    );
    mgr.pop_action();
    mgr.close_window(win);
    assert_eq!(mgr.nav_focus(), Some(w(5)));
    assert!(mgr.state.popups.is_empty());
    assert_eq!(mgr.state.popup_removed, vec![(w(5), win)]);
    assert_eq!(mgr.shell.closed, vec![win]);
    assert_eq!(mgr.pop_action().0 & ACTION_REGION_MOVED, ACTION_REGION_MOVED);
}

#[test]
fn popup_unavailable_changes_nothing() {
    let mut mgr = Manager::new(Config::new(), TestShell::default());
    mgr.set_nav_focus(w(5), false);
    let popup = Popup { id: w(20), parent: w(5), direction: Direction::Up };
    assert_eq!(mgr.add_popup(popup), None);
    assert_eq!(mgr.nav_focus(), Some(w(5)));
    assert!(mgr.state.popups.is_empty());
}

#[test]
fn close_unknown_window_only_moves_region() {
    let mut mgr = manager();
    mgr.close_window(WindowId(42));
    assert_eq!(mgr.pop_action().0, ACTION_REGION_MOVED);
    assert_eq!(mgr.shell.closed, vec![WindowId(42)]);
}

// ---- accelerator layers ----

#[test]
fn accel_push_pop_restores_stack() {
    let mut mgr = manager();
    mgr.add_accel_keys(w(1), &[VirtualKeyCode(65)]);
    mgr.set_modifiers(ModifiersState { alt: true, ..Default::default() });
    let base_keys = mgr.state.accel_stack[0].keys.clone();
    for i in 0..3u64 {
        mgr.push_accel_layer(i == 1);
        mgr.add_accel_keys(w(10 + i), &[VirtualKeyCode(66)]);
    }
    assert_eq!(mgr.state.accel_stack.len(), 4);
    for i in 0..3u64 {
        mgr.pop_accel_layer(w(100 + i));
    }
    assert_eq!(mgr.state.accel_stack.len(), 1);
    assert_eq!(mgr.state.accel_stack[0].keys, base_keys);
    assert!(!mgr.state.accel_stack[0].alt_bypass);
    assert_eq!(mgr.state.find_accel_key(VirtualKeyCode(65)), Some(w(1)));
    assert_eq!(mgr.state.find_accel_key(VirtualKeyCode(66)), None);
    assert_eq!(mgr.state.accel_layers.len(), 3);
}

#[test]
fn accel_pop_without_push_keeps_base() {
    let mut mgr = manager();
    mgr.pop_accel_layer(w(1));
    assert_eq!(mgr.state.accel_stack.len(), 1);
    assert!(mgr.state.accel_layers.is_empty());
}

#[test]
fn accel_needs_alt_unless_bypassed() {
    let mut mgr = manager();
    mgr.add_accel_keys(w(1), &[VirtualKeyCode(70), VirtualKeyCode(71)]);
    assert_eq!(mgr.state.find_accel_key(VirtualKeyCode(70)), None);
    mgr.enable_alt_bypass(true);
    assert_eq!(mgr.state.find_accel_key(VirtualKeyCode(70)), Some(w(1)));
    assert_eq!(mgr.state.find_accel_key(VirtualKeyCode(71)), Some(w(1)));
    mgr.add_accel_keys(w(2), &[VirtualKeyCode(70)]);
    assert_eq!(mgr.state.find_accel_key(VirtualKeyCode(70)), Some(w(2)));
}

#[test]
fn accel_popup_layer_first_then_base() {
    let mut mgr = manager();
    mgr.enable_alt_bypass(true);
    mgr.add_accel_keys(w(1), &[VirtualKeyCode(1), VirtualKeyCode(2)]);
    mgr.push_accel_layer(true);
    mgr.add_accel_keys(w(7), &[VirtualKeyCode(1)]);
    mgr.pop_accel_layer(w(5));
    assert_eq!(mgr.state.find_accel_key(VirtualKeyCode(1)), Some(w(1)));
    let popup = Popup { id: w(6), parent: w(5), direction: Direction::Down };
    mgr.add_popup(popup).unwrap();
    assert_eq!(mgr.state.find_accel_key(VirtualKeyCode(1)), Some(w(7)));
    assert_eq!(mgr.state.find_accel_key(VirtualKeyCode(2)), Some(w(1)));
    assert_eq!(mgr.state.find_accel_key(VirtualKeyCode(3)), None);
}

// ---- timers ----

#[test]
fn timer_merge_keeps_earliest() {
    let mut mgr = manager();
    mgr.set_now(1_000);
    mgr.update_on_timer(50, w(1), 9);
    mgr.update_on_timer(80, w(1), 9);
    assert_eq!(mgr.state.time_updates, vec![(1_050, w(1), 9)]);
    mgr.update_on_timer(20, w(1), 9);
    assert_eq!(mgr.state.time_updates, vec![(1_020, w(1), 9)]);
}

#[test]
fn timer_pairs_do_not_merge_and_stay_sorted() {
    let mut mgr = manager();
    mgr.update_on_timer(30, w(1), 1);
    mgr.update_on_timer(10, w(1), 2);
    mgr.update_on_timer(20, w(2), 1);
    assert_eq!(
        mgr.state.time_updates,
        vec![(30, w(1), 1), (20, w(2), 1), (10, w(1), 2)]
    );
    assert_eq!(mgr.state.next_resume(), Some(10));
    assert_eq!(mgr.state.pop_due_timer(), None);
    mgr.set_now(25);
    assert_eq!(mgr.state.pop_due_timer(), Some((w(1), 2)));
    assert_eq!(mgr.state.pop_due_timer(), Some((w(2), 1)));
    assert_eq!(mgr.state.pop_due_timer(), None);
    assert_eq!(mgr.state.next_resume(), Some(30));
}

#[test]
fn timer_deadline_saturates() {
    let mut mgr = manager();
    mgr.set_now(u64::MAX - 5);
    mgr.update_on_timer(100, w(1), 0);
    assert_eq!(mgr.state.time_updates, vec![(u64::MAX, w(1), 0)]);
}

// ---- update handles ----

#[test]
fn handle_trigger_reaches_each_subscriber_once() {
    let h = UpdateHandle(3);
    let mut mgr = manager();
    mgr.update_on_handle(h, w(1));
    mgr.update_on_handle(h, w(2));
    mgr.update_on_handle(h, w(1));
    mgr.update_on_handle(UpdateHandle(4), w(3));
    mgr.trigger_update(h, 5);
    assert_eq!(mgr.shell.triggered, vec![(h, 5)]);
    assert_eq!(sorted_subscribers(&mgr.state, h), vec![w(1), w(2)]);
    assert_eq!(sorted_subscribers(&mgr.state, UpdateHandle(9)), Vec::<WidgetId>::new());
}

#[test]
fn shared_data_goes_to_shell() {
    let mut mgr = manager();
    mgr.update_shared_data(UpdateHandle(8), Rc::new(Counter));
    assert_eq!(mgr.shell.shared, vec![UpdateHandle(8)]);
}

#[test]
fn clipboard_goes_through_shell() {
    let mut mgr = manager();
    assert_eq!(mgr.get_clipboard(), None);
    mgr.set_clipboard("text".to_string());
    assert_eq!(mgr.get_clipboard(), Some("text".to_string()));
}

// ---- configuration and actions ----

#[test]
fn mouse_pan_modes() {
    let mut mgr = manager();
    assert!(mgr.config_enable_mouse_pan());
    assert!(!mgr.config_enable_mouse_text_pan());
    mgr.set_modifiers(ModifiersState { alt: true, ..Default::default() });
    assert!(mgr.config_enable_mouse_text_pan());
    let ctrl = ModifiersState { ctrl: true, ..Default::default() };
    assert!(MousePan::WithCtrl.is_enabled_with(ctrl));
    assert!(!MousePan::Never.is_enabled_with(ctrl));
    assert_eq!(mgr.modifiers().alt(), true);
    assert_eq!(mgr.config().touch_text_sel_delay(), 1_000_000_000);
}

#[test]
fn pan_threshold_is_squared_distance() {
    let c = Config::new();
    assert!(!c.test_pan_thresh(Coord(0, 0), Coord(1, 1)));
    assert!(c.test_pan_thresh(Coord(0, 0), Coord(2, 0)));
    assert!(c.test_pan_thresh(Coord(10, 10), Coord(10, 40)));
    assert!(c.test_pan_thresh(Coord(i32::MIN, i32::MIN), Coord(i32::MAX, i32::MAX)));
}

#[test]
fn actions_union() {
    let mut mgr = manager();
    mgr.send_action(TkAction::reconfigure());
    mgr.redraw(w(1));
    let a = mgr.pop_action();
    assert!(a.contains(TkAction::redraw()));
    assert!(a.contains(TkAction::reconfigure()));
    assert!(!a.contains(TkAction::region_moved()));
    assert_eq!(TkAction::redraw().union(TkAction::region_moved()).0, 3);
    assert!(mgr.pop_action().is_empty());
}

// ---- text input ----

fn press_start(source: PressSource, coord: Coord) -> Event {
    Event::PressStart { source, start_id: None, coord }
}

fn press_move(source: PressSource, coord: Coord, delta: Offset) -> Event {
    Event::PressMove { source, cur_id: None, coord, delta }
}

fn press_end(source: PressSource) -> Event {
    Event::PressEnd { source, end_id: None, coord: Coord(0, 0), success: true }
}

#[test]
fn text_touch_move_past_threshold_pans() {
    let mut mgr = manager();
    let mut t = TextInput::new();
    let a = t.handle(&mut mgr, w(1), press_start(touch(7), Coord(10, 10)));
    assert_eq!(a, TextInputAction::Focus);
    assert_eq!(t.touch_phase, TouchPhase::Start(7, Coord(10, 10)));
    assert_eq!(mgr.state.time_updates, vec![(1_000_000_000, w(1), TIMER_ID)]);
    let a = t.handle(&mut mgr, w(1), press_move(touch(7), Coord(10, 40), Offset(0, 30)));
    assert_eq!(a, TextInputAction::Pan(Offset(0, 30)));
    assert_eq!(t.touch_phase, TouchPhase::Pan(7));
    let a = t.handle(&mut mgr, w(1), press_move(touch(7), Coord(10, 45), Offset(0, 5)));
    assert_eq!(a, TextInputAction::Pan(Offset(0, 5)));
    let a = t.handle(&mut mgr, w(1), Event::TimerUpdate(TIMER_ID));
    assert_eq!(a, TextInputAction::Consumed);
    assert_eq!(t.touch_phase, TouchPhase::Pan(7));
}

#[test]
fn text_touch_small_move_is_swallowed() {
    let mut mgr = manager();
    let mut t = TextInput::new();
    t.handle(&mut mgr, w(1), press_start(touch(7), Coord(10, 10)));
    let a = t.handle(&mut mgr, w(1), press_move(touch(7), Coord(11, 10), Offset(1, 0)));
    assert_eq!(a, TextInputAction::Consumed);
    assert_eq!(t.touch_phase, TouchPhase::Start(7, Coord(10, 10)));
}

#[test]
fn text_touch_hold_selects_after_delay() {
    let mut mgr = manager();
    let mut t = TextInput::new();
    t.handle(&mut mgr, w(1), press_start(touch(2), Coord(3, 4)));
    let a = t.handle(&mut mgr, w(1), Event::TimerUpdate(TIMER_ID));
    assert_eq!(a, TextInputAction::Cursor(Coord(3, 4), false, true, 1));
    assert_eq!(t.touch_phase, TouchPhase::Cursor(2));
    let a = t.handle(&mut mgr, w(1), press_move(touch(3), Coord(8, 8), Offset(1, 1)));
    assert_eq!(a, TextInputAction::Cursor(Coord(8, 8), false, false, 1));
    let a = t.handle(&mut mgr, w(1), press_end(touch(3)));
    assert_eq!(a, TextInputAction::Consumed);
    assert_eq!(t.touch_phase, TouchPhase::Cursor(2));
    t.handle(&mut mgr, w(1), press_end(touch(2)));
    assert_eq!(t.touch_phase, TouchPhase::Idle);
}

#[test]
fn text_touch_without_grab_keeps_idle() {
    let mut mgr = manager();
    assert!(mgr.request_grab(w(9), touch(7), Coord(0, 0), GrabMode::Grab, None));
    let mut t = TextInput::new();
    let a = t.handle(&mut mgr, w(1), press_start(touch(7), Coord(10, 10)));
    assert_eq!(a, TextInputAction::Focus);
    assert_eq!(t.touch_phase, TouchPhase::Idle);
    assert!(mgr.state.time_updates.is_empty());
}

#[test]
fn text_mouse_press_sets_cursor() {
    let mut mgr = manager();
    let mut t = TextInput::new();
    let a = t.handle(&mut mgr, w(1), press_start(PressSource::Mouse(MouseButton::Left, 2), Coord(5, 6)));
    assert_eq!(a, TextInputAction::Cursor(Coord(5, 6), true, true, 2));
    mgr.set_modifiers(ModifiersState { shift: true, ..Default::default() });
    let a = t.handle(&mut mgr, w(1), press_move(left(), Coord(7, 6), Offset(2, 0)));
    assert_eq!(a, TextInputAction::Cursor(Coord(7, 6), false, false, 1));
    assert_eq!(t.touch_phase, TouchPhase::Idle);
}

#[test]
fn text_mouse_pan_with_alt() {
    let mut mgr = manager();
    mgr.set_modifiers(ModifiersState { alt: true, ..Default::default() });
    let mut t = TextInput::new();
    let a = t.handle(&mut mgr, w(1), press_start(left(), Coord(0, 0)));
    assert_eq!(a, TextInputAction::Focus);
    let a = t.handle(&mut mgr, w(1), press_move(left(), Coord(0, 3), Offset(0, 3)));
    assert_eq!(a, TextInputAction::Pan(Offset(0, 3)));
}

#[test]
fn text_other_events_unhandled() {
    let mut mgr = manager();
    let mut t = TextInput::new();
    assert_eq!(t.handle(&mut mgr, w(1), Event::Activate), TextInputAction::Unhandled);
    assert_eq!(t.handle(&mut mgr, w(1), Event::TimerUpdate(3)), TextInputAction::Unhandled);
    let right = PressSource::Mouse(MouseButton::Right, 1);
    assert_eq!(t.handle(&mut mgr, w(1), press_start(right, Coord(0, 0))), TextInputAction::Unhandled);
    assert!(mgr.state.mouse_grab.is_none());
}

#[test]
fn nav_reverse_includes_root_forward_skips_it() {
    let root = Widget::new(w(0), true, vec![leaf(1), leaf(2), leaf(3)]);
    let mut mgr = manager();
    let mut seen = Vec::new();
    for _ in 0..5 {
        assert!(mgr.next_nav_focus(&root, true, false));
        seen.push(mgr.nav_focus().unwrap().0);
    }
    assert_eq!(seen, vec![3, 2, 1, 0, 3]);
    let mut mgr = manager();
    let mut seen = Vec::new();
    for _ in 0..4 {
        assert!(mgr.next_nav_focus(&root, false, false));
        seen.push(mgr.nav_focus().unwrap().0);
    }
    assert_eq!(seen, vec![1, 2, 3, 1]);
}

#[test]
fn nav_notifies_when_asked() {
    let root = three_siblings();
    let mut mgr = manager();
    assert!(mgr.next_nav_focus(&root, false, true));
    assert_eq!(mgr.state.pending, vec![Pending::SetNavFocus(w(1))]);
    assert_eq!(mgr.pop_action().0 & ACTION_REDRAW, ACTION_REDRAW);
    assert!(mgr.next_nav_focus(&root, false, false));
    assert_eq!(mgr.state.pending, vec![Pending::SetNavFocus(w(1))]);
}

#[test]
fn nav_clears_char_focus_of_other_widget() {
    let root = three_siblings();
    let mut mgr = manager();
    mgr.request_char_focus(w(9));
    mgr.state.nav_stack.clear();
    mgr.state.nav_focus = None;
    assert!(mgr.next_nav_focus(&root, false, false));
    assert_eq!(mgr.nav_focus(), Some(w(1)));
    assert_eq!(mgr.state.has_char_focus(w(9)), (false, true));
}

#[test]
fn add_window_goes_to_shell() {
    let mut mgr = manager();
    assert_eq!(mgr.add_window(three_siblings()), WindowId(1));
    assert_eq!(mgr.add_window(leaf(4)), WindowId(2));
    assert_eq!(mgr.nav_focus(), None);
}

#[test]
fn nav_missing_popup_changes_nothing() {
    let root = three_siblings();
    let mut mgr = manager();
    mgr.set_nav_focus(w(2), false);
    let popup = Popup { id: w(77), parent: w(2), direction: Direction::Down };
    mgr.add_popup(popup).unwrap();
    mgr.set_nav_focus(w(3), true);
    let action = mgr.state.action;
    let pending = mgr.state.pending.clone();
    assert!(!mgr.next_nav_focus(&root, false, true));
    assert_eq!(mgr.nav_focus(), Some(w(3)));
    assert_eq!(mgr.state.action, action);
    assert_eq!(mgr.state.pending, pending);
}

#[test]
fn nav_without_candidate_keeps_focus() {
    let mut disabled = Widget::new(w(1), true, vec![leaf(2)]);
    disabled.disabled = true;
    let root = Widget::new(w(0), false, vec![disabled, Widget::new(w(3), false, Vec::new())]);
    let mut mgr = manager();
    mgr.request_char_focus(w(3));
    mgr.pop_action();
    let pending = mgr.state.pending.clone();
    assert!(!mgr.next_nav_focus(&root, false, false));
    assert_eq!(mgr.nav_focus(), Some(w(3)));
    assert_eq!(mgr.state.has_char_focus(w(3)), (true, true));
    assert_eq!(mgr.state.pending, pending);
    assert_eq!(mgr.pop_action().0, ACTION_REDRAW);
}

#[test]
fn nav_focus_outside_root_with_stack_restarts_from_top() {
    let other = Widget::new(w(50), false, vec![leaf(51), leaf(52)]);
    let root = three_siblings();
    let mut mgr = manager();
    mgr.next_nav_focus(&other, false, false);
    assert!(mgr.next_nav_focus(&other, false, false));
    assert_eq!(mgr.nav_focus(), Some(w(52)));
    assert_eq!(mgr.state.nav_stack, vec![1]);
    assert!(mgr.next_nav_focus(&root, false, false));
    assert_eq!(mgr.nav_focus(), Some(w(1)));
}

#[test]
fn char_focus_request_notifies_previous_holder() {
    let mut mgr = manager();
    mgr.request_sel_focus(w(1));
    mgr.state.pending.clear();
    mgr.request_char_focus(w(2));
    assert!(mgr.state.pending.contains(&Pending::LostSelFocus(w(1))));
    assert!(!mgr.state.pending.contains(&Pending::LostCharFocus(w(1))));
}

#[test]
fn text_touch_grab_belongs_to_widget() {
    let mut mgr = manager();
    let mut t = TextInput::new();
    t.handle(&mut mgr, w(4), press_start(touch(7), Coord(10, 10)));
    assert_eq!(mgr.state.touch_grab.len(), 1);
    let g = mgr.state.touch_grab[0];
    assert_eq!((g.touch_id, g.start_id, g.mode, g.depress), (7, w(4), GrabMode::Grab, Some(w(4))));
}

#[test]
fn text_mouse_press_requests_no_grab() {
    let mut mgr = manager();
    let mut t = TextInput::new();
    t.handle(&mut mgr, w(1), press_start(left(), Coord(0, 0)));
    assert!(mgr.state.mouse_grab.is_none());
    assert_eq!(mgr.pop_action(), TkAction::empty());
}
