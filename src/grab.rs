//! Press grabs: at most one grab per input channel, with an optional pan
//! accumulator per widget.
use vstd::prelude::*;
use crate::manager::{Manager, ShellWindow};
use crate::state::{MAX_PAN_GRABS, ManagerState, MouseGrab, PanGrab, TouchGrab};
use crate::types::{ACTION_REDRAW, Coord, CursorIcon, GrabMode, PressSource, TkAction, WidgetId};

verus! {

/// The touch contacts that are grabbed, in order.
pub open spec fn touch_ids(s: Seq<TouchGrab>) -> Seq<u64> {
    s.map_values(|g: TouchGrab| g.touch_id)
}

/// Whether touch contact `t` is grabbed.
pub open spec fn touch_grabbed(s: Seq<TouchGrab>, t: u64) -> bool {
    exists|i: int| 0 <= i < s.len() && (#[trigger] s[i]).touch_id == t
}

/// Whether channel `source` is grabbed.
pub open spec fn is_grabbed(st: &ManagerState, source: PressSource) -> bool {
    match source {
        PressSource::Mouse(_, _) => st.mouse_grab.is_some(),
        PressSource::Touch(t) => touch_grabbed(st.touch_grab@, t),
    }
}

/// `new` is `base` with a fresh accumulator for `id` appended.
pub open spec fn pan_pushed(
    base: Seq<PanGrab>,
    new: Seq<PanGrab>,
    id: WidgetId,
    mode: GrabMode,
    is_touch: bool,
    coord: Coord,
) -> bool {
    &&& new.len() == base.len() + 1
    &&& new.take(base.len() as int) == base
    &&& new.last().id == id
    &&& new.last().mode == mode
    &&& new.last().source_is_touch == is_touch
    &&& new.last().n == 1
    &&& new.last().coords@ == seq![(coord, coord)]
}

/// `new` is `old` with one more press added to accumulator `i`.
pub open spec fn pan_bumped(old: Seq<PanGrab>, new: Seq<PanGrab>, i: int, coord: Coord) -> bool {
    &&& new.len() == old.len()
    &&& forall|j: int| 0 <= j < old.len() && j != i ==> new[j] == old[j]
    &&& new[i].id == old[i].id
    &&& new[i].mode == old[i].mode
    &&& new[i].source_is_touch == old[i].source_is_touch
    &&& new[i].n == (if old[i].n < u16::MAX {
        (old[i].n + 1) as u16
    } else {
        old[i].n
    })
    &&& new[i].coords@ == (if old[i].coords@.len() < MAX_PAN_GRABS {
        old[i].coords@.push((coord, coord))
    } else {
        old[i].coords@
    })
}

/// Pan accumulators after widget `id` starts a pan with one more press:
/// an accumulator of the same kind of source gains the press (at `slot`);
/// one of the other kind is replaced by a fresh one, as is a missing one.
pub open spec fn pan_added(
    old: Seq<PanGrab>,
    new: Seq<PanGrab>,
    id: WidgetId,
    mode: GrabMode,
    is_touch: bool,
    coord: Coord,
    slot: u16,
) -> bool {
    ||| (forall|i: int| 0 <= i < old.len() ==> (#[trigger] old[i]).id != id) && pan_pushed(
        old,
        new,
        id,
        mode,
        is_touch,
        coord,
    ) && slot == 0
    ||| exists|i: int|
        0 <= i < old.len() && (#[trigger] old[i]).id == id && old[i].source_is_touch == is_touch
            && pan_bumped(old, new, i, coord) && slot == old[i].n
    ||| exists|i: int|
        0 <= i < old.len() && (#[trigger] old[i]).id == id && old[i].source_is_touch != is_touch
            && pan_pushed(old.remove(i), new, id, mode, is_touch, coord) && slot == 0
}

impl ManagerState {
    /// Index of the grab on touch contact `touch_id`, if any.
    pub fn get_touch(&self, touch_id: u64) -> (r: Option<usize>)
        ensures
            r matches Some(i) ==> i < self.touch_grab@.len() && self.touch_grab@[i as int].touch_id
                == touch_id,
            r.is_none() ==> !touch_grabbed(self.touch_grab@, touch_id),
    {
        let mut i: usize = 0;
        while i < self.touch_grab.len()
            invariant
                i <= self.touch_grab@.len(),
                forall|j: int| 0 <= j < i ==> (#[trigger] self.touch_grab@[j]).touch_id != touch_id,
            decreases self.touch_grab@.len() - i,
        {
            if self.touch_grab[i].touch_id == touch_id {
                return Some(i);
            }
            i += 1;
        }
        None
    }

    /// Index of the pan accumulator of widget `id`, if any.
    fn find_pan(&self, id: WidgetId) -> (r: Option<usize>)
        ensures
            r matches Some(i) ==> i < self.pan_grab@.len() && self.pan_grab@[i as int].id == id,
            r.is_none() ==> forall|i: int|
                0 <= i < self.pan_grab@.len() ==> (#[trigger] self.pan_grab@[i]).id != id,
    {
        let mut i: usize = 0;
        while i < self.pan_grab.len()
            invariant
                i <= self.pan_grab@.len(),
                forall|j: int| 0 <= j < i ==> (#[trigger] self.pan_grab@[j]).id != id,
            decreases self.pan_grab@.len() - i,
        {
            if self.pan_grab[i].id == id {
                return Some(i);
            }
            i += 1;
        }
        None
    }

    /// Add a press at `coord` to the pan accumulator of widget `id`,
    /// returning the press's slot in it.
    pub fn set_pan_on(&mut self, id: WidgetId, mode: GrabMode, source_is_touch: bool, coord: Coord) -> (r: u16)
        requires
            old(self).wf(),
        ensures
            final(self).wf(),
            pan_added(old(self).pan_grab@, final(self).pan_grab@, id, mode, source_is_touch, coord, r),
            final(self).mouse_grab == old(self).mouse_grab,
            final(self).touch_grab@ == old(self).touch_grab@,
            final(self).keeps_accel(old(self)),
            final(self).keeps_popups(old(self)),
            final(self).keeps_updates(old(self)),
            final(self).keeps_input(old(self)),
            final(self).keeps_focus(old(self)),
            final(self).pending@ == old(self).pending@,
            final(self).action == old(self).action,
    {
        let found = self.find_pan(id);
        if let Some(gi) = found {
            if self.pan_grab[gi].source_is_touch == source_is_touch {
                let mut grab = self.pan_grab.remove(gi);
                let index = grab.n;
                if grab.coords.len() < MAX_PAN_GRABS {
                    grab.coords.push((coord, coord));
                }
                if grab.n < u16::MAX {
                    grab.n = grab.n + 1;
                }
                self.pan_grab.insert(gi, grab);
                proof {
                    let o = old(self).pan_grab@;
                    let n = self.pan_grab@;
                    assert forall|j: int| 0 <= j < o.len() && j != gi implies n[j] == o[j] by {
                        if j < gi {
                        } else {
                        }
                    }
                    assert(pan_bumped(o, n, gi as int, coord));
                    assert forall|a: int, b: int|
                        0 <= a < n.len() && 0 <= b < n.len() && a != b implies (
                        #[trigger] n[a]).id != (#[trigger] n[b]).id by {
                        assert(n[a].id == o[a].id);
                        assert(n[b].id == o[b].id);
                    }
                }
                return index;
            }
            self.pan_grab.remove(gi);
            proof {
                let o = old(self).pan_grab@;
                let n = self.pan_grab@;
                assert(n =~= o.remove(gi as int));
                assert forall|j: int| 0 <= j < n.len() implies (#[trigger] n[j]).id != id by {
                    if j < gi {
                        assert(n[j] == o[j]);
                    } else {
                        assert(n[j] == o[j + 1]);
                    }
                }
            }
        }
        let ghost base = self.pan_grab@;
        let mut coords = Vec::new();
        coords.push((coord, coord));
        self.pan_grab.push(PanGrab { id, mode, source_is_touch, n: 1, coords });
        proof {
            let n = self.pan_grab@;
            assert(n.take(base.len() as int) =~= base);
            assert(pan_pushed(base, n, id, mode, source_is_touch, coord));
            assert forall|a: int, b: int|
                0 <= a < n.len() && 0 <= b < n.len() && a != b implies (#[trigger] n[a]).id != (
                #[trigger] n[b]).id by {
                if a < base.len() && b < base.len() {
                    assert(n[a] == base[a]);
                    assert(n[b] == base[b]);
                } else if a < base.len() {
                    assert(n[a] == base[a]);
                } else {
                    assert(n[b] == base[b]);
                }
            }
            if found.is_some() {
                let gi = found.unwrap() as int;
                assert(base =~= old(self).pan_grab@.remove(gi));
            } else {
                assert(base == old(self).pan_grab@);
            }
        }
        0
    }
}

/// `new` holds the mouse grab that `request_grab` makes for `id`, with pan
/// slot `slot` in a pan mode.
pub open spec fn mouse_grab_made(
    old: &ManagerState,
    new: &ManagerState,
    id: WidgetId,
    source: PressSource,
    coord: Coord,
    mode: GrabMode,
    slot: u16,
) -> bool {
    &&& source matches PressSource::Mouse(button, repetitions)
    &&& new.mouse_grab == Some(
        (MouseGrab {
            button: source->Mouse_0,
            repetitions: source->Mouse_1,
            start_id: id,
            depress: Some(id),
            mode,
            pan_slot: if mode == GrabMode::Grab {
                None
            } else {
                Some(slot)
            },
        }),
    )
    &&& mode != GrabMode::Grab ==> pan_added(
        old.pan_grab@,
        new.pan_grab@,
        id,
        mode,
        false,
        coord,
        slot,
    )
}

/// `new` holds the touch grab that `request_grab` makes for `id`, appended
/// to those of `old`, with pan slot `slot` in a pan mode.
pub open spec fn touch_grab_made(
    old: &ManagerState,
    new: &ManagerState,
    id: WidgetId,
    source: PressSource,
    coord: Coord,
    mode: GrabMode,
    slot: u16,
) -> bool {
    &&& source matches PressSource::Touch(t)
    &&& new.touch_grab@ == old.touch_grab@.push(
        (TouchGrab {
            touch_id: source->Touch_0,
            start_id: id,
            depress: Some(id),
            cur_id: Some(id),
            coord,
            mode,
            pan_slot: if mode == GrabMode::Grab {
                None
            } else {
                Some(slot)
            },
        }),
    )
    &&& mode != GrabMode::Grab ==> pan_added(
        old.pan_grab@,
        new.pan_grab@,
        id,
        mode,
        true,
        coord,
        slot,
    )
}

/// Two touch grabs agree on everything but their pan slot.
pub open spec fn same_but_slot(a: TouchGrab, b: TouchGrab) -> bool {
    &&& a.touch_id == b.touch_id
    &&& a.start_id == b.start_id
    &&& a.depress == b.depress
    &&& a.cur_id == b.cur_id
    &&& a.coord == b.coord
    &&& a.mode == b.mode
}

impl ManagerState {
    /// Release slot `slot` of the pan accumulator of `owner`: the
    /// accumulator goes when its last press ends; touch grabs of `owner`
    /// holding later slots move down one.
    fn remove_pan_slot(&mut self, owner: WidgetId, slot: u16)
        requires
            old(self).wf(),
        ensures
            final(self).wf(),
            final(self).mouse_grab == old(self).mouse_grab,
            final(self).touch_grab@.len() == old(self).touch_grab@.len(),
            forall|j: int|
                0 <= j < old(self).touch_grab@.len() ==> same_but_slot(
                    #[trigger] final(self).touch_grab@[j],
                    old(self).touch_grab@[j],
                ),
            final(self).keeps_accel(old(self)),
            final(self).keeps_popups(old(self)),
            final(self).keeps_updates(old(self)),
            final(self).keeps_input(old(self)),
            final(self).keeps_focus(old(self)),
            final(self).pending@ == old(self).pending@,
            final(self).action == old(self).action,
    {
        let found = self.find_pan(owner);
        let gi = match found {
            Some(gi) => gi,
            None => {
                return;
            },
        };
        let mut grab = self.pan_grab.remove(gi);
        if grab.n <= 1 {
            proof {
                let o = old(self).pan_grab@;
                let n = self.pan_grab@;
                assert forall|a: int, b: int|
                    0 <= a < n.len() && 0 <= b < n.len() && a != b implies (
                    #[trigger] n[a]).id != (#[trigger] n[b]).id by {
                    let oa = if a < gi { a } else { a + 1 };
                    let ob = if b < gi { b } else { b + 1 };
                    assert(n[a] == o[oa]);
                    assert(n[b] == o[ob]);
                }
            }
            return;
        }
        grab.n = grab.n - 1;
        if (slot as usize) < grab.coords.len() {
            grab.coords.remove(slot as usize);
        }
        self.pan_grab.insert(gi, grab);
        proof {
            let o = old(self).pan_grab@;
            let n = self.pan_grab@;
            assert forall|a: int, b: int|
                0 <= a < n.len() && 0 <= b < n.len() && a != b implies (#[trigger] n[a]).id != (
                #[trigger] n[b]).id by {
                assert(n[a].id == o[a].id);
                assert(n[b].id == o[b].id);
            }
        }
        let ghost mid = self.touch_grab@;
        let mut k: usize = 0;
        while k < self.touch_grab.len()
            invariant
                k <= self.touch_grab@.len(),
                self.touch_grab@.len() == mid.len(),
                forall|j: int|
                    0 <= j < mid.len() ==> same_but_slot(#[trigger] self.touch_grab@[j], mid[j]),
                self.wf(),
                self.mouse_grab == old(self).mouse_grab,
                self.keeps_accel(old(self)),
                self.keeps_popups(old(self)),
                self.keeps_updates(old(self)),
                self.keeps_input(old(self)),
                self.keeps_focus(old(self)),
                self.pending@ == old(self).pending@,
                self.action == old(self).action,
                mid == old(self).touch_grab@,
            decreases self.touch_grab@.len() - k,
        {
            let g = self.touch_grab[k];
            if g.start_id == owner {
                if let Some(p) = g.pan_slot {
                    if p > slot {
                        let ng = TouchGrab { pan_slot: Some((p - 1) as u16), ..g };
                        self.touch_grab.set(k, ng);
                        proof {
                            let t = self.touch_grab@;
                            assert forall|a: int, b: int|
                                0 <= a < t.len() && 0 <= b < t.len() && a != b implies (
                                #[trigger] t[a]).touch_id != (#[trigger] t[b]).touch_id by {
                                assert(same_but_slot(t[a], mid[a]));
                                assert(same_but_slot(t[b], mid[b]));
                            }
                        }
                    }
                }
            }
            k += 1;
        }
    }
}

impl<S: ShellWindow> Manager<S> {
    /// Grab channel `source` for widget `id`. Fails, changing nothing, when
    /// the channel is already grabbed. On success the grab depresses `id`;
    /// for a pan `mode` the press joins `id`'s pan accumulator; a mouse grab
    /// sets `cursor` when given; a redraw is requested.
    pub fn request_grab(
        &mut self,
        id: WidgetId,
        source: PressSource,
        coord: Coord,
        mode: GrabMode,
        cursor: Option<CursorIcon>,
    ) -> (r: bool)
        requires
            old(self).wf(),
        ensures
            final(self).wf(),
            r == !is_grabbed(&old(self).state, source),
            !r ==> final(self).state == old(self).state && final(self).shell == old(self).shell,
            r ==> {
                &&& final(self).state.keeps_accel(&old(self).state)
                &&& final(self).state.keeps_popups(&old(self).state)
                &&& final(self).state.keeps_updates(&old(self).state)
                &&& final(self).state.keeps_input(&old(self).state)
                &&& final(self).state.keeps_focus(&old(self).state)
                &&& final(self).state.pending@ == old(self).state.pending@
                &&& final(self).state.action.0 == old(self).state.action.0 | ACTION_REDRAW
                &&& mode == GrabMode::Grab ==> final(self).state.pan_grab@ == old(
                    self,
                ).state.pan_grab@
            },
            cursor.is_none() ==> final(self).shell == old(self).shell,
            r && source is Mouse ==> {
                &&& final(self).state.touch_grab@ == old(self).state.touch_grab@
                &&& exists|slot: u16|
                    #[trigger] mouse_grab_made(
                        &old(self).state,
                        &final(self).state,
                        id,
                        source,
                        coord,
                        mode,
                        slot,
                    )
            },
            r && source is Touch ==> {
                &&& final(self).state.mouse_grab == old(self).state.mouse_grab
                &&& final(self).shell == old(self).shell
                &&& exists|slot: u16|
                    #[trigger] touch_grab_made(
                        &old(self).state,
                        &final(self).state,
                        id,
                        source,
                        coord,
                        mode,
                        slot,
                    )
            },
    {
        let ghost mut wslot: u16 = 0;
        match source {
            PressSource::Mouse(button, repetitions) => {
                if self.state.mouse_grab.is_some() {
                    return false;
                }
                let mut pan_slot: Option<u16> = None;
                if mode != GrabMode::Grab {
                    pan_slot = Some(self.state.set_pan_on(id, mode, false, coord));
                }
                self.state.mouse_grab = Some(
                    MouseGrab { button, repetitions, start_id: id, depress: Some(id), mode, pan_slot },
                );
                if let Some(icon) = cursor {
                    self.shell.set_cursor_icon(icon);
                }
                proof {
                    let slot = if mode == GrabMode::Grab { 0u16 } else { pan_slot.unwrap() };
                    wslot = slot;
                    assert(self.state.mouse_grab == Some(
                        (MouseGrab {
                            button,
                            repetitions,
                            start_id: id,
                            depress: Some(id),
                            mode,
                            pan_slot: if mode == GrabMode::Grab {
                                None
                            } else {
                                Some(slot)
                            },
                        }),
                    ));
                }
            },
            PressSource::Touch(touch_id) => {
                if self.state.get_touch(touch_id).is_some() {
                    return false;
                }
                let mut pan_slot: Option<u16> = None;
                if mode != GrabMode::Grab {
                    pan_slot = Some(self.state.set_pan_on(id, mode, true, coord));
                }
                let ghost before = self.state.touch_grab@;
                self.state.touch_grab.push(
                    TouchGrab {
                        touch_id,
                        start_id: id,
                        depress: Some(id),
                        cur_id: Some(id),
                        coord,
                        mode,
                        pan_slot,
                    },
                );
                proof {
                    let t = self.state.touch_grab@;
                    assert forall|a: int, b: int|
                        0 <= a < t.len() && 0 <= b < t.len() && a != b implies (
                        #[trigger] t[a]).touch_id != (#[trigger] t[b]).touch_id by {
                        if a < before.len() && b < before.len() {
                            assert(t[a] == before[a]);
                            assert(t[b] == before[b]);
                        } else if a < before.len() {
                            assert(t[a] == before[a]);
                        } else {
                            assert(t[b] == before[b]);
                        }
                    }
                    let slot = if mode == GrabMode::Grab { 0u16 } else { pan_slot.unwrap() };
                    wslot = slot;
                    assert(pan_slot == if mode == GrabMode::Grab {
                        None
                    } else {
                        Some(slot)
                    });
                }
            },
        }
        self.state.send_action(TkAction(ACTION_REDRAW));
        proof {
            let ps = if mode == GrabMode::Grab {
                None
            } else {
                Some(wslot)
            };
            match source {
                PressSource::Mouse(button, repetitions) => {
                    assert(self.state.mouse_grab == Some(
                        (MouseGrab {
                            button,
                            repetitions,
                            start_id: id,
                            depress: Some(id),
                            mode,
                            pan_slot: ps,
                        }),
                    ));
                    assert(mouse_grab_made(&old(self).state, &self.state, id, source, coord, mode, wslot));
                },
                PressSource::Touch(touch_id) => {
                    assert(self.state.touch_grab@ == old(self).state.touch_grab@.push(
                        (TouchGrab {
                            touch_id,
                            start_id: id,
                            depress: Some(id),
                            cur_id: Some(id),
                            coord,
                            mode,
                            pan_slot: ps,
                        }),
                    ));
                    assert(touch_grab_made(&old(self).state, &self.state, id, source, coord, mode, wslot));
                },
            }
        }
        true
    }

    /// Change the widget drawn as pressed by the grab on `source`. Returns
    /// whether the target changed, and then requests a redraw.
    pub fn set_grab_depress(&mut self, source: PressSource, target: Option<WidgetId>) -> (r: bool)
        requires
            old(self).wf(),
        ensures
            final(self).wf(),
            final(self).shell == old(self).shell,
            final(self).state.keeps_accel(&old(self).state),
            final(self).state.keeps_popups(&old(self).state),
            final(self).state.keeps_updates(&old(self).state),
            final(self).state.keeps_input(&old(self).state),
            final(self).state.keeps_focus(&old(self).state),
            final(self).state.pending@ == old(self).state.pending@,
            final(self).state.pan_grab@ == old(self).state.pan_grab@,
            final(self).state.action.0 == (if r {
                old(self).state.action.0 | ACTION_REDRAW
            } else {
                old(self).state.action.0
            }),
            match source {
                PressSource::Mouse(_, _) => {
                    &&& final(self).state.touch_grab@ == old(self).state.touch_grab@
                    &&& match old(self).state.mouse_grab {
                        Some(g) => {
                            &&& r == (g.depress != target)
                            &&& final(self).state.mouse_grab == Some(
                                (MouseGrab { depress: target, ..g }),
                            )
                        },
                        None => !r && final(self).state.mouse_grab.is_none(),
                    }
                },
                PressSource::Touch(t) => {
                    &&& final(self).state.mouse_grab == old(self).state.mouse_grab
                    &&& !touch_grabbed(old(self).state.touch_grab@, t) ==> !r
                        && final(self).state.touch_grab@ == old(self).state.touch_grab@
                    &&& forall|i: int|
                        0 <= i < old(self).state.touch_grab@.len() && (#[trigger] old(
                            self,
                        ).state.touch_grab@[i]).touch_id == t ==> {
                            &&& r == (old(self).state.touch_grab@[i].depress != target)
                            &&& final(self).state.touch_grab@ == old(
                                self,
                            ).state.touch_grab@.update(
                                i,
                                (TouchGrab { depress: target, ..old(self).state.touch_grab@[i] }),
                            )
                        }
                },
            },
    {
        let mut redraw = false;
        match source {
            PressSource::Mouse(_, _) => {
                if let Some(g) = self.state.mouse_grab {
                    redraw = g.depress != target;
                    self.state.mouse_grab = Some(MouseGrab { depress: target, ..g });
                }
            },
            PressSource::Touch(t) => {
                if let Some(i) = self.state.get_touch(t) {
                    let g = self.state.touch_grab[i];
                    redraw = g.depress != target;
                    self.state.touch_grab.set(i, TouchGrab { depress: target, ..g });
                    proof {
                        let o = old(self).state.touch_grab@;
                        let n = self.state.touch_grab@;
                        assert forall|a: int, b: int|
                            0 <= a < n.len() && 0 <= b < n.len() && a != b implies (
                            #[trigger] n[a]).touch_id != (#[trigger] n[b]).touch_id by {
                            assert(n[a].touch_id == o[a].touch_id);
                            assert(n[b].touch_id == o[b].touch_id);
                        }
                    }
                }
            },
        }
        if redraw {
            self.state.send_action(TkAction(ACTION_REDRAW));
        }
        redraw
    }

    /// Change the cursor icon, when widget `id` owns the mouse grab.
    pub fn update_grab_cursor(&mut self, id: WidgetId, icon: CursorIcon)
        requires
            old(self).wf(),
        ensures
            final(self).wf(),
            final(self).state == old(self).state,
            !(old(self).state.mouse_grab matches Some(g) && g.start_id == id) ==> final(self).shell
                == old(self).shell,
    {
        if let Some(grab) = &self.state.mouse_grab {
            if grab.start_id == id {
                self.shell.set_cursor_icon(icon);
            }
        }
    }

    /// End the grab on `source` because its press was released: the mouse
    /// grab when `source` is its button, or the grab on the touch contact.
    /// Its pan press is released and a redraw is requested. Returns whether
    /// a grab ended.
    pub fn end_grab(&mut self, source: PressSource) -> (r: bool)
        requires
            old(self).wf(),
        ensures
            final(self).wf(),
            final(self).shell == old(self).shell,
            r == match source {
                PressSource::Mouse(button, _) => old(self).state.mouse_grab matches Some(g)
                    && g.button == button,
                PressSource::Touch(t) => touch_grabbed(old(self).state.touch_grab@, t),
            },
            !r ==> final(self).state == old(self).state,
            r ==> {
                &&& final(self).state.keeps_accel(&old(self).state)
                &&& final(self).state.keeps_popups(&old(self).state)
                &&& final(self).state.keeps_updates(&old(self).state)
                &&& final(self).state.keeps_input(&old(self).state)
                &&& final(self).state.keeps_focus(&old(self).state)
                &&& final(self).state.pending@ == old(self).state.pending@
                &&& final(self).state.action.0 == old(self).state.action.0 | ACTION_REDRAW
            },
            r && source is Mouse ==> {
                &&& final(self).state.mouse_grab.is_none()
                &&& touch_ids(final(self).state.touch_grab@) == touch_ids(
                    old(self).state.touch_grab@,
                )
                &&& final(self).state.touch_grab@.len() == old(self).state.touch_grab@.len()
                &&& forall|j: int|
                    0 <= j < old(self).state.touch_grab@.len() ==> same_but_slot(
                        #[trigger] final(self).state.touch_grab@[j],
                        old(self).state.touch_grab@[j],
                    )
            },
            r && source is Touch ==> {
                &&& final(self).state.mouse_grab == old(self).state.mouse_grab
                &&& forall|i: int|
                    0 <= i < old(self).state.touch_grab@.len() && (#[trigger] old(
                        self,
                    ).state.touch_grab@[i]).touch_id == source->Touch_0 ==> {
                        &&& touch_ids(final(self).state.touch_grab@) == touch_ids(
                            old(self).state.touch_grab@,
                        ).remove(i)
                        &&& final(self).state.touch_grab@.len() == old(
                            self,
                        ).state.touch_grab@.len() - 1
                        &&& forall|j: int|
                            0 <= j < final(self).state.touch_grab@.len() ==> same_but_slot(
                                #[trigger] final(self).state.touch_grab@[j],
                                old(self).state.touch_grab@.remove(i)[j],
                            )
                    }
            },
    {
        match source {
            PressSource::Mouse(button, _) => {
                let g = match self.state.mouse_grab {
                    Some(g) => g,
                    None => {
                        return false;
                    },
                };
                if g.button != button {
                    return false;
                }
                self.state.mouse_grab = None;
                if let Some(slot) = g.pan_slot {
                    self.state.remove_pan_slot(g.start_id, slot);
                }
                proof {
                    assert(touch_ids(self.state.touch_grab@) =~= touch_ids(
                        old(self).state.touch_grab@,
                    ));
                }
            },
            PressSource::Touch(t) => {
                let i = match self.state.get_touch(t) {
                    Some(i) => i,
                    None => {
                        return false;
                    },
                };
                let g = self.state.touch_grab.remove(i);
                let ghost removed = self.state.touch_grab@;
                proof {
                    let o = old(self).state.touch_grab@;
                    assert(removed =~= o.remove(i as int));
                    assert forall|a: int, b: int|
                        0 <= a < removed.len() && 0 <= b < removed.len() && a != b implies (
                        #[trigger] removed[a]).touch_id != (#[trigger] removed[b]).touch_id by {
                        let oa = if a < i { a } else { a + 1 };
                        let ob = if b < i { b } else { b + 1 };
                        assert(removed[a] == o[oa]);
                        assert(removed[b] == o[ob]);
                    }
                }
                if let Some(slot) = g.pan_slot {
                    self.state.remove_pan_slot(g.start_id, slot);
                }
                proof {
                    let o = old(self).state.touch_grab@;
                    assert(touch_ids(self.state.touch_grab@) =~= touch_ids(removed));
                    assert(touch_ids(removed) =~= touch_ids(o).remove(i as int));
                    assert forall|k: int|
                        0 <= k < o.len() && (#[trigger] o[k]).touch_id == t implies k == i by {}
                }
            },
        }
        self.state.send_action(TkAction(ACTION_REDRAW));
        true
    }
}

} // verus!
