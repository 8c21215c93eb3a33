//! Scheduled timer updates and update-handle subscriptions.
use vstd::prelude::*;
use crate::manager::{Manager, ShellWindow};
use crate::state::{ManagerState, timers_wf};
use crate::types::{UpdateHandle, WidgetId};

verus! {

/// The deadline `delay` nanoseconds after `now`, saturating at the largest time.
pub open spec fn deadline_after(now: u64, delay: u64) -> u64 {
    if now + delay <= u64::MAX {
        (now + delay) as u64
    } else {
        u64::MAX
    }
}

/// Whether some entry of `s` is for `(w, payload)` at a deadline no later than `t`.
pub open spec fn due_by(s: Seq<(u64, WidgetId, u64)>, w: WidgetId, payload: u64, t: u64) -> bool {
    exists|i: int| 0 <= i < s.len() && (#[trigger] s[i]).1 == w && s[i].2 == payload && s[i].0 <= t
}

/// Timer entries after a request for `(w, payload)` at deadline `t`: an
/// earlier or equal entry for the pair stays; otherwise the pair's entry, if
/// any, is replaced by one at `t`.
pub open spec fn timers_after(
    s: Seq<(u64, WidgetId, u64)>,
    w: WidgetId,
    payload: u64,
    t: u64,
) -> Set<(u64, WidgetId, u64)> {
    if due_by(s, w, payload, t) {
        s.to_set()
    } else {
        s.to_set().filter(|e: (u64, WidgetId, u64)| !(e.1 == w && e.2 == payload)).insert(
            (t, w, payload),
        )
    }
}

/// Two timer requests for the same widget and payload, the second with a
/// longer delay from the same time, leave exactly one entry for the pair, at
/// the earlier deadline (for a pair not already due by then).
pub proof fn lemma_timer_keeps_earliest(
    s0: Seq<(u64, WidgetId, u64)>,
    s1: Seq<(u64, WidgetId, u64)>,
    s2: Seq<(u64, WidgetId, u64)>,
    now: u64,
    d1: u64,
    d2: u64,
    w: WidgetId,
    payload: u64,
)
    requires
        timers_wf(s0),
        timers_wf(s1),
        timers_wf(s2),
        d1 < d2,
        !due_by(s0, w, payload, deadline_after(now, d1)),
        s1.to_set() == timers_after(s0, w, payload, deadline_after(now, d1)),
        s2.to_set() == timers_after(s1, w, payload, deadline_after(now, d2)),
    ensures
        s2.contains((deadline_after(now, d1), w, payload)),
        forall|i: int|
            0 <= i < s2.len() && (#[trigger] s2[i]).1 == w && s2[i].2 == payload ==> s2[i].0
                == deadline_after(now, d1),
        forall|i: int, j: int|
            0 <= i < s2.len() && 0 <= j < s2.len() && (#[trigger] s2[i]).1 == w && s2[i].2
                == payload && (#[trigger] s2[j]).1 == w && s2[j].2 == payload ==> i == j,
{
    let t1 = deadline_after(now, d1);
    let x = (t1, w, payload);
    assert(s1.to_set().contains(x));
    assert(s1.contains(x));
    let k = choose|k: int| 0 <= k < s1.len() && s1[k] == x;
    assert(due_by(s1, w, payload, deadline_after(now, d2)));
    assert(s2.to_set() == s1.to_set());
    assert(s2.to_set().contains(x));
    assert forall|i: int| 0 <= i < s2.len() && (#[trigger] s2[i]).1 == w && s2[i].2 == payload implies s2[i].0 == t1 by {
        assert(s2.to_set().contains(s2[i]));
        assert(s1.contains(s2[i]));
        let m = choose|m: int| 0 <= m < s1.len() && s1[m] == s2[i];
        assert(m == k);
    }
}

impl<S: ShellWindow> Manager<S> {
    /// Schedule a timer update for widget `w_id` with `payload` at
    /// `now + delay` (nanoseconds). Requests for the same widget and payload
    /// merge, keeping the earliest deadline.
    #[verifier::rlimit(50)]
    pub fn update_on_timer(&mut self, delay: u64, w_id: WidgetId, payload: u64)
        requires
            old(self).wf(),
        ensures
            final(self).wf(),
            final(self).shell == old(self).shell,
            final(self).state.time_updates@.to_set() == timers_after(
                old(self).state.time_updates@,
                w_id,
                payload,
                deadline_after(old(self).state.now, delay),
            ),
            final(self).state.handle_updates@ == old(self).state.handle_updates@,
            final(self).state.keeps_grabs(&old(self).state),
            final(self).state.keeps_accel(&old(self).state),
            final(self).state.keeps_popups(&old(self).state),
            final(self).state.keeps_input(&old(self).state),
            final(self).state.keeps_focus(&old(self).state),
            final(self).state.pending@ == old(self).state.pending@,
            final(self).state.action == old(self).state.action,
    {
        let time = self.state.now.saturating_add(delay);
        let ghost s0 = self.state.time_updates@;
        let n = self.state.time_updates.len();
        let mut i: usize = 0;
        let mut found = false;
        while i < n && !found
            invariant
                n == s0.len(),
                i <= n,
                self.state.time_updates@ == s0,
                found ==> i < n && s0[i as int].1 == w_id && s0[i as int].2 == payload,
                forall|k: int|
                    0 <= k < i ==> !((#[trigger] s0[k]).1 == w_id && s0[k].2 == payload),
            decreases n - i + (if found {
                0int
            } else {
                1int
            }),
        {
            let e = self.state.time_updates[i];
            if e.1 == w_id && e.2 == payload {
                found = true;
            } else {
                i += 1;
            }
        }
        if found {
            if self.state.time_updates[i].0 <= time {
                assert(due_by(s0, w_id, payload, time));
                return;
            }
            self.state.time_updates.remove(i);
            proof {
                let s1 = self.state.time_updates@;
                assert(s1 =~= s0.remove(i as int));
                assert forall|k: int| 0 <= k < s0.len() && (#[trigger] s0[k]).1 == w_id && s0[k].2
                    == payload implies k == i by {}
                assert(!due_by(s0, w_id, payload, time));
                assert forall|a: int, b: int| 0 <= a < b < s1.len() implies (#[trigger] s1[a]).0
                    >= (#[trigger] s1[b]).0 by {
                    let oa = if a < i { a } else { a + 1 };
                    let ob = if b < i { b } else { b + 1 };
                    assert(s1[a] == s0[oa]);
                    assert(s1[b] == s0[ob]);
                }
                assert forall|a: int, b: int|
                    0 <= a < s1.len() && 0 <= b < s1.len() && a != b implies !((
                    #[trigger] s1[a]).1 == (#[trigger] s1[b]).1 && s1[a].2 == s1[b].2) by {
                    let oa = if a < i { a } else { a + 1 };
                    let ob = if b < i { b } else { b + 1 };
                    assert(s1[a] == s0[oa]);
                    assert(s1[b] == s0[ob]);
                }
                assert forall|e: (u64, WidgetId, u64)| #[trigger] s1.contains(e) <==> (s0.contains(e)
                    && !(e.1 == w_id && e.2 == payload)) by {
                    if s1.contains(e) {
                        let k = choose|k: int| 0 <= k < s1.len() && s1[k] == e;
                        let ok = if k < i { k } else { k + 1 };
                        assert(s0[ok] == e);
                    }
                    if s0.contains(e) && !(e.1 == w_id && e.2 == payload) {
                        let k = choose|k: int| 0 <= k < s0.len() && s0[k] == e;
                        assert(k != i);
                        let nk = if k < i { k } else { k - 1 };
                        assert(s1[nk] == e);
                    }
                }
            }
        } else {
            assert(!due_by(s0, w_id, payload, time));
        }
        let ghost s1 = self.state.time_updates@;
        let m = self.state.time_updates.len();
        let mut j: usize = 0;
        while j < m && self.state.time_updates[j].0 >= time
            invariant
                m == s1.len(),
                j <= m,
                self.state.time_updates@ == s1,
                forall|k: int| 0 <= k < j ==> (#[trigger] s1[k]).0 >= time,
            decreases m - j,
        {
            j += 1;
        }
        self.state.time_updates.insert(j, (time, w_id, payload));
        proof {
            let s2 = self.state.time_updates@;
            let x = (time, w_id, payload);
            assert(s2 =~= s1.insert(j as int, x));
            assert(timers_wf(s1));
            assert forall|k: int| 0 <= k < s1.len() implies !((#[trigger] s1[k]).1 == w_id
                && s1[k].2 == payload) by {
                if found {
                    assert(!s1.contains(s1[k]) || !(s1[k].1 == w_id && s1[k].2 == payload));
                }
            }
            assert forall|a: int, b: int| 0 <= a < b < s2.len() implies (#[trigger] s2[a]).0 >= (
            #[trigger] s2[b]).0 by {
                if a < j && b < j {
                    assert(s2[a] == s1[a] && s2[b] == s1[b]);
                } else if a < j && b == j {
                    assert(s2[a] == s1[a]);
                } else if a < j {
                    assert(s2[a] == s1[a] && s2[b] == s1[b - 1]);
                } else if a == j {
                    assert(s2[b] == s1[b - 1]);
                    if j < s1.len() {
                        assert(s1[j as int].0 < time);
                        if b - 1 > j {
                            assert(s1[j as int].0 >= s1[b - 1].0);
                        }
                    }
                } else {
                    assert(s2[a] == s1[a - 1] && s2[b] == s1[b - 1]);
                }
            }
            assert forall|a: int, b: int|
                0 <= a < s2.len() && 0 <= b < s2.len() && a != b implies !((#[trigger] s2[a]).1
                == (#[trigger] s2[b]).1 && s2[a].2 == s2[b].2) by {
                let oa = if a < j { a } else { a - 1 };
                let ob = if b < j { b } else { b - 1 };
                if a != j && b != j {
                    assert(s2[a] == s1[oa] && s2[b] == s1[ob]);
                } else if a == j {
                    assert(s2[b] == s1[ob]);
                } else {
                    assert(s2[a] == s1[oa]);
                }
            }
            assert forall|e: (u64, WidgetId, u64)| #[trigger] s2.contains(e) <==> (s1.contains(e)
                || e == x) by {
                if s2.contains(e) {
                    let k = choose|k: int| 0 <= k < s2.len() && s2[k] == e;
                    if k < j {
                        assert(s1[k] == e);
                    } else if k > j {
                        assert(s1[k - 1] == e);
                    }
                }
                if s1.contains(e) {
                    let k = choose|k: int| 0 <= k < s1.len() && s1[k] == e;
                    if k < j {
                        assert(s2[k] == e);
                    } else {
                        assert(s2[k + 1] == e);
                    }
                }
                if e == x {
                    assert(s2[j as int] == e);
                }
            }
            assert(s2.to_set() =~= timers_after(s0, w_id, payload, time));
        }
    }

    /// Subscribe widget `w_id` to `handle`; subscribing twice has no
    /// further effect.
    pub fn update_on_handle(&mut self, handle: UpdateHandle, w_id: WidgetId)
        requires
            old(self).wf(),
        ensures
            final(self).wf(),
            final(self).shell == old(self).shell,
            final(self).state.handle_updates@.to_set() == old(
                self,
            ).state.handle_updates@.to_set().insert((handle, w_id)),
            final(self).state.time_updates@ == old(self).state.time_updates@,
            final(self).state.keeps_grabs(&old(self).state),
            final(self).state.keeps_accel(&old(self).state),
            final(self).state.keeps_popups(&old(self).state),
            final(self).state.keeps_input(&old(self).state),
            final(self).state.keeps_focus(&old(self).state),
            final(self).state.pending@ == old(self).state.pending@,
            final(self).state.action == old(self).state.action,
    {
        let ghost s0 = self.state.handle_updates@;
        let mut i: usize = 0;
        while i < self.state.handle_updates.len()
            invariant
                i <= s0.len(),
                self.state.handle_updates@ == s0,
                *self == *old(self),
                self.wf(),
                forall|k: int| 0 <= k < i ==> (#[trigger] s0[k]) != (handle, w_id),
            decreases s0.len() - i,
        {
            let e = self.state.handle_updates[i];
            if e.0 == handle && e.1 == w_id {
                proof {
                    assert(s0.contains((handle, w_id)));
                    assert(s0.to_set().insert((handle, w_id)) =~= s0.to_set());
                }
                return;
            }
            i += 1;
        }
        self.state.handle_updates.push((handle, w_id));
        proof {
            let s1 = self.state.handle_updates@;
            assert(s1 =~= s0.push((handle, w_id)));
            assert forall|a: int, b: int| 0 <= a < s1.len() && 0 <= b < s1.len() && a != b implies
                s1[a] != s1[b] by {
                if a < s0.len() && b < s0.len() {
                } else if a < s0.len() {
                    assert(s1[a] == s0[a]);
                } else {
                    assert(s1[b] == s0[b]);
                }
            }
            assert forall|e: (UpdateHandle, WidgetId)| #[trigger] s1.contains(e) <==> (s0.contains(e)
                || e == (handle, w_id)) by {
                if s1.contains(e) {
                    let k = choose|k: int| 0 <= k < s1.len() && s1[k] == e;
                    if k < s0.len() {
                        assert(s0[k] == e);
                    }
                }
                if s0.contains(e) {
                    let k = choose|k: int| 0 <= k < s0.len() && s0[k] == e;
                    assert(s1[k] == e);
                }
                if e == (handle, w_id) {
                    assert(s1[s0.len() as int] == e);
                }
            }
            assert(s1.to_set() =~= s0.to_set().insert((handle, w_id)));
        }
    }
}

impl ManagerState {
    /// The widgets subscribed to `handle`, each listed once; these are the
    /// widgets that a trigger of `handle` notifies in this window.
    pub fn subscribers(&self, handle: UpdateHandle) -> (r: Vec<WidgetId>)
        requires
            self.wf(),
        ensures
            r@.no_duplicates(),
            forall|w: WidgetId| r@.contains(w) <==> self.handle_updates@.contains((handle, w)),
    {
        let ghost s = self.handle_updates@;
        let mut r: Vec<WidgetId> = Vec::new();
        let mut i: usize = 0;
        while i < self.handle_updates.len()
            invariant
                i <= s.len(),
                s == self.handle_updates@,
                s.no_duplicates(),
                r@.no_duplicates(),
                forall|w: WidgetId|
                    r@.contains(w) <==> exists|k: int| 0 <= k < i && #[trigger] s[k] == (handle, w),
            decreases s.len() - i,
        {
            let e = self.handle_updates[i];
            if e.0 == handle {
                proof {
                    if r@.contains(e.1) {
                        let k = choose|k: int| 0 <= k < i && #[trigger] s[k] == (handle, e.1);
                        assert(s[k] == s[i as int]);
                    }
                }
                let ghost r0 = r@;
                r.push(e.1);
                proof {
                    assert forall|a: int, b: int|
                        0 <= a < r@.len() && 0 <= b < r@.len() && a != b implies r@[a] != r@[b] by {
                        if a < r0.len() && b < r0.len() {
                        } else if a < r0.len() {
                            assert(r0.contains(r@[a]));
                        } else {
                            assert(r0.contains(r@[b]));
                        }
                    }
                    assert forall|w: WidgetId|
                        r@.contains(w) <==> exists|k: int|
                            0 <= k < i + 1 && #[trigger] s[k] == (handle, w) by {
                        if r@.contains(w) {
                            let k = choose|k: int| 0 <= k < r@.len() && r@[k] == w;
                            if k < r0.len() {
                                assert(r0.contains(w));
                            } else {
                                assert(s[i as int] == (handle, w));
                            }
                        }
                        if exists|k: int| 0 <= k < i + 1 && #[trigger] s[k] == (handle, w) {
                            let k = choose|k: int| 0 <= k < i + 1 && #[trigger] s[k] == (handle, w);
                            if k < i {
                                assert(r0.contains(w));
                                let m = choose|m: int| 0 <= m < r0.len() && r0[m] == w;
                                assert(r@[m] == w);
                            } else {
                                assert(r@[r0.len() as int] == w);
                            }
                        }
                    }
                }
            }
            i += 1;
        }
        proof {
            assert forall|w: WidgetId| r@.contains(w) <==> s.contains((handle, w)) by {
                if s.contains((handle, w)) {
                    let k = choose|k: int| 0 <= k < s.len() && s[k] == (handle, w);
                    assert(exists|k: int| 0 <= k < i && #[trigger] s[k] == (handle, w));
                }
            }
        }
        r
    }

    /// The earliest timer deadline, if any timer is scheduled.
    pub fn next_resume(&self) -> (r: Option<u64>)
        requires
            self.wf(),
        ensures
            self.time_updates@.len() == 0 ==> r.is_none(),
            self.time_updates@.len() > 0 ==> r == Some(self.time_updates@.last().0),
            forall|i: int|
                0 <= i < self.time_updates@.len() ==> r.unwrap() <= (
                #[trigger] self.time_updates@[i]).0,
    {
        let n = self.time_updates.len();
        if n == 0 {
            None
        } else {
            proof {
                assert forall|i: int| 0 <= i < n implies self.time_updates@[n - 1].0 <= (
                #[trigger] self.time_updates@[i]).0 by {
                    if i < n - 1 {
                        assert(timers_wf(self.time_updates@));
                    }
                }
            }
            Some(self.time_updates[n - 1].0)
        }
    }

    /// Remove and return the earliest timer entry `(widget, payload)` if its
    /// deadline is not after `now`; the host delivers it as a timer event.
    pub fn pop_due_timer(&mut self) -> (r: Option<(WidgetId, u64)>)
        requires
            old(self).wf(),
        ensures
            final(self).wf(),
            final(self).keeps_grabs(old(self)),
            final(self).keeps_accel(old(self)),
            final(self).keeps_popups(old(self)),
            final(self).keeps_input(old(self)),
            final(self).keeps_focus(old(self)),
            final(self).handle_updates@ == old(self).handle_updates@,
            final(self).pending@ == old(self).pending@,
            final(self).action == old(self).action,
            ({
                let s = old(self).time_updates@;
                if s.len() > 0 && s.last().0 <= old(self).now {
                    &&& r == Some((s.last().1, s.last().2))
                    &&& final(self).time_updates@ == s.drop_last()
                } else {
                    &&& r.is_none()
                    &&& final(self).time_updates@ == s
                }
            }),
    {
        let n = self.time_updates.len();
        if n == 0 || self.time_updates[n - 1].0 > self.now {
            return None;
        }
        let e = self.time_updates.pop().unwrap();
        proof {
            let s = old(self).time_updates@;
            let s1 = self.time_updates@;
            assert(s1 =~= s.drop_last());
            assert forall|a: int, b: int| 0 <= a < b < s1.len() implies (#[trigger] s1[a]).0 >= (
            #[trigger] s1[b]).0 by {
                assert(s1[a] == s[a] && s1[b] == s[b]);
            }
            assert forall|a: int, b: int|
                0 <= a < s1.len() && 0 <= b < s1.len() && a != b implies !((#[trigger] s1[a]).1
                == (#[trigger] s1[b]).1 && s1[a].2 == s1[b].2) by {
                assert(s1[a] == s[a] && s1[b] == s[b]);
            }
        }
        Some((e.1, e.2))
    }
}

} // verus!
