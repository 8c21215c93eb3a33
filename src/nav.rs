//! Keyboard navigation: an iterative depth-first walk over the widget tree
//! that moves navigation focus to the next (or previous) focusable widget.
use vstd::prelude::*;
use crate::manager::{Manager, ShellWindow};
use crate::state::{ManagerState, Pending};
use crate::tree::Widget;
use crate::types::{ACTION_REDRAW, TkAction, WidgetId};

verus! {

/// `ws` holds the ancestors along `path` from `sr`, and `w` is the node
/// that `path` leads to.
pub open spec fn stack_inv(sr: Widget, path: Seq<usize>, ws: Seq<&Widget>, w: Widget) -> bool {
    &&& ws.len() == path.len()
    &&& forall|k: int| 0 <= k < ws.len() ==> sr.node_at(path.take(k)) == Some(*(#[trigger] ws[k]))
    &&& sr.node_at(path) == Some(w)
}

/// Descending into child `i` keeps the stacks consistent.
pub proof fn lemma_descend(sr: Widget, path: Seq<usize>, ws: Seq<&Widget>, w: &Widget, i: usize)
    requires
        stack_inv(sr, path, ws, *w),
        i < w.children@.len(),
    ensures
        stack_inv(sr, path.push(i), ws.push(w), w.children@[i as int]),
{
    sr.lemma_node_at_push(path, i);
    let deeper = path.push(i);
    let ws_deeper = ws.push(w);
    assert forall|k: int| 0 <= k < ws_deeper.len() implies sr.node_at(deeper.take(k)) == Some(
        *(#[trigger] ws_deeper[k]),
    ) by {
        if k < ws.len() {
            assert(deeper.take(k) =~= path.take(k));
        } else {
            assert(deeper.take(k) =~= path);
        }
    }
}

/// Climbing to the parent keeps the stacks consistent.
pub proof fn lemma_ascend(sr: Widget, path: Seq<usize>, ws: Seq<&Widget>, w: Widget)
    requires
        stack_inv(sr, path, ws, w),
        path.len() > 0,
    ensures
        stack_inv(sr, path.drop_last(), ws.drop_last(), *ws.last()),
        path.last() < ws.last().children@.len(),
        ws.last().children@[path.last() as int] == w,
{
    let parent_path = path.drop_last();
    let k = path.len() - 1;
    assert(parent_path =~= path.take(k));
    assert(sr.node_at(parent_path) == Some(*ws[k]));
    assert(path =~= parent_path.push(path.last()));
    sr.lemma_node_at_push(parent_path, path.last());
    let ws_parent = ws.drop_last();
    assert forall|j: int| 0 <= j < ws_parent.len() implies sr.node_at(parent_path.take(j)) == Some(
        *(#[trigger] ws_parent[j]),
    ) by {
        assert(parent_path.take(j) =~= path.take(j));
        assert(ws_parent[j] == ws[j]);
    }
}

/// The node at `cur`, inside the subtree at `x`, lies after `x` and before
/// the end of that subtree in pre-order.
pub proof fn lemma_within_subtree(sr: Widget, x: Seq<usize>, cur: Seq<usize>)
    requires
        sr.node_at(cur).is_some(),
        x.len() <= cur.len(),
        cur.take(x.len() as int) == x,
    ensures
        sr.node_at(x).is_some(),
        sr.pos(x) <= sr.pos(cur),
        sr.pos(cur) < sr.pos(x) + sr.node_at(x).unwrap().size(),
{
    sr.lemma_node_at_prefix(cur, x.len() as int);
    let r = cur.skip(x.len() as int);
    assert(cur =~= x + r);
    sr.lemma_pos_concat(x, r);
    sr.node_at(x).unwrap().lemma_pos_lt_size(r);
}

/// Child `i + 1` of the node at `p` comes after the whole subtree of child `i`.
pub proof fn lemma_sibling_pos(sr: Widget, p: Seq<usize>, i: usize, j: usize)
    requires
        sr.node_at(p).is_some(),
        j == i + 1,
        j < sr.node_at(p).unwrap().children@.len(),
    ensures
        sr.pos(p.push(j)) == sr.pos(p.push(i)) + sr.node_at(p).unwrap().children@[i as int].size(),
        sr.node_at(p.push(i)) == Some(sr.node_at(p).unwrap().children@[i as int]),
{
    let ch = sr.node_at(p).unwrap().children@;
    sr.lemma_pos_child(p, i);
    sr.lemma_pos_child(p, j);
    Widget::lemma_sizes_take(ch, i as int);
    assert(ch.take(j as int) == ch.take(i + 1));
}

/// The walk position moves forward when it steps to the next sibling of an
/// ancestor of `c0` (or of `c0` itself).
pub proof fn lemma_next_sibling_after(sr: Widget, c0: Seq<usize>, k: int, j: usize)
    requires
        sr.node_at(c0).is_some(),
        0 < k <= c0.len(),
        j == c0[k - 1] + 1,
        sr.node_at(c0.take(k - 1)).is_some(),
        j < sr.node_at(c0.take(k - 1)).unwrap().children@.len(),
    ensures
        sr.pos(c0.take(k - 1).push(j)) > sr.pos(c0),
{
    let p = c0.take(k - 1);
    let i = c0[k - 1];
    assert(c0.take(k) =~= p.push(i));
    lemma_sibling_pos(sr, p, i, j);
    lemma_within_subtree(sr, c0.take(k), c0);
}

/// No proper ancestor of the node at `q` is disabled.
pub open spec fn ancestors_enabled(sr: Widget, q: Seq<usize>) -> bool {
    forall|k: int| 0 <= k < q.len() ==> !(#[trigger] sr.node_at(q.take(k))).unwrap().disabled
}

/// Whether navigation may stop at the node at `q`: it accepts focus and no
/// proper ancestor is disabled. Forward navigation never stops at the
/// search root itself (`with_root` false).
pub open spec fn nav_candidate(sr: Widget, q: Seq<usize>, with_root: bool) -> bool {
    &&& sr.node_at(q) matches Some(n) && n.focusable()
    &&& with_root || q.len() > 0
    &&& ancestors_enabled(sr, q)
}

/// Stepping down from an enabled node keeps all ancestors enabled.
pub proof fn lemma_enabled_push(sr: Widget, q: Seq<usize>, j: usize)
    requires
        ancestors_enabled(sr, q),
        sr.node_at(q).is_some(),
        !sr.node_at(q).unwrap().disabled,
    ensures
        ancestors_enabled(sr, q.push(j)),
{
    assert forall|k: int| 0 <= k < q.push(j).len() implies !(#[trigger] sr.node_at(
        q.push(j).take(k),
    )).unwrap().disabled by {
        if k < q.len() {
            assert(q.push(j).take(k) =~= q.take(k));
        } else {
            assert(q.push(j).take(k) =~= q);
        }
    }
}

/// Climbing keeps all ancestors enabled.
pub proof fn lemma_enabled_prefix(sr: Widget, q: Seq<usize>, m: int)
    requires
        ancestors_enabled(sr, q),
        0 <= m <= q.len(),
    ensures
        ancestors_enabled(sr, q.take(m)),
{
    assert forall|k: int| 0 <= k < q.take(m).len() implies !(#[trigger] sr.node_at(
        q.take(m).take(k),
    )).unwrap().disabled by {
        assert(q.take(m).take(k) =~= q.take(k));
    }
}

/// A forward candidate lies after the search root.
pub proof fn lemma_candidate_after_root(sr: Widget, q: Seq<usize>)
    requires
        nav_candidate(sr, q, false),
    ensures
        sr.pos(q) > 0,
{
}

/// Below a disabled node or a leaf there is no candidate.
pub proof fn lemma_no_candidate_below(sr: Widget, x: Seq<usize>, q: Seq<usize>, with_root: bool)
    requires
        sr.node_at(x).is_some(),
        sr.node_at(x).unwrap().disabled || sr.node_at(x).unwrap().children@.len() == 0,
        sr.node_at(q).is_some(),
        sr.pos(x) < sr.pos(q) < sr.pos(x) + sr.node_at(x).unwrap().size(),
    ensures
        !nav_candidate(sr, q, with_root),
{
    sr.lemma_pos_in_subtree(x, q);
    if q.len() == x.len() {
        assert(q.take(x.len() as int) =~= q);
    }
    let r = q.skip(x.len() as int);
    assert(q =~= x + r);
    sr.lemma_pos_concat(x, r);
    if sr.node_at(x).unwrap().disabled {
        assert(sr.node_at(q.take(x.len() as int)) == sr.node_at(x));
    }
}

/// Where the walk starts: the root without a focus; the focused widget when
/// the navigation stack must be rebuilt; the stored stack when the focused
/// widget lies in the searched subtree and the stack leads to a node of it;
/// otherwise the root.
pub open spec fn walk_start(st: &ManagerState, sr: Widget, c: Seq<usize>) -> bool {
    &&& sr.node_at(c).is_some()
    &&& st.nav_focus.is_none() ==> c.len() == 0
    &&& st.nav_focus.is_some() && st.nav_stack@.len() == 0 ==> sr.node_at(c).unwrap().id
        == st.nav_focus->0
    &&& st.nav_focus.is_some() && st.nav_stack@.len() > 0 ==> if sr.has_id(st.nav_focus->0)
        && sr.node_at(st.nav_stack@).is_some() {
        c == st.nav_stack@
    } else {
        c.len() == 0
    }
}

/// A pop-up is open but its widget is not in the tree under `root`.
pub open spec fn popup_missing(st: &ManagerState, root: Widget) -> bool {
    st.popups@.len() > 0 && !root.has_id(st.popups@.last().popup.id)
}

/// The navigation stack must be rebuilt, but the focused widget is not in
/// the searched subtree.
pub open spec fn rebuild_fails(st: &ManagerState, sr: Widget) -> bool {
    st.nav_stack@.len() == 0 && st.nav_focus.is_some() && !sr.has_id(st.nav_focus->0)
}

/// `f` follows `c` in pre-order (precedes it, when `reverse`) with no
/// candidate between them; or no candidate lies on that side of `c`, and no
/// candidate lies before (after) `f`: the walk wrapped around.
pub open spec fn next_in_order(sr: Widget, c: Seq<usize>, f: Seq<usize>, reverse: bool) -> bool {
    if !reverse {
        ||| sr.pos(f) > sr.pos(c) && forall|q: Seq<usize>|
            nav_candidate(sr, q, false) ==> sr.pos(q) <= sr.pos(c) || sr.pos(q) >= sr.pos(f)
        ||| forall|q: Seq<usize>|
            nav_candidate(sr, q, false) ==> sr.pos(f) <= sr.pos(q) && sr.pos(q) <= sr.pos(c)
    } else {
        ||| sr.pos(f) < sr.pos(c) && forall|q: Seq<usize>|
            nav_candidate(sr, q, true) ==> sr.pos(q) >= sr.pos(c) || sr.pos(q) <= sr.pos(f)
        ||| forall|q: Seq<usize>|
            nav_candidate(sr, q, true) ==> sr.pos(c) <= sr.pos(q) && sr.pos(q) <= sr.pos(f)
    }
}

/// The subtree in which navigation searches: the innermost open pop-up,
/// found in `root`, or `root` itself.
pub open spec fn nav_root(st: &ManagerState, root: Widget, sr: Widget) -> bool {
    if st.popups@.len() == 0 {
        sr == root
    } else {
        sr.id == st.popups@.last().popup.id && root.has_node(sr)
    }
}

impl ManagerState {
    /// Give navigation focus to `id` found by the search, keeping the
    /// navigation stack that leads to it.
    fn take_nav_focus(&mut self, id: WidgetId, notify: bool)
        requires
            old(self).wf(),
        ensures
            final(self).wf(),
            final(self).keeps_all_but_focus(old(self)),
            final(self).nav_focus == Some(id),
            final(self).nav_stack@ == old(self).nav_stack@,
            final(self).nav_fallback == old(self).nav_fallback,
            final(self).sel_focus == old(self).sel_focus,
            final(self).char_focus == old(self).char_focus_after_nav(id),
            final(self).pending@ == old(self).pending_after_nav(id, notify),
            final(self).action == old(self).action,
    {
        let is_sel = match self.sel_focus {
            Some(f) => f == id,
            None => false,
        };
        if !is_sel {
            self.clear_char_focus();
        }
        self.nav_focus = Some(id);
        if notify {
            self.pending.push(Pending::SetNavFocus(id));
        }
    }
}

impl<S: ShellWindow> Manager<S> {
    /// Move keyboard navigation focus to the next (or, with `reverse`, the
    /// previous) focusable widget in depth-first order, searching the
    /// innermost open pop-up or else `root`. The walk starts at the current
    /// focus and restarts from the top once before giving up; it starts at
    /// the top when nothing is focused or the focus lies outside the searched
    /// subtree. On success the navigation stack leads from the search root to
    /// the new focus, character focus is cleared unless the new focus holds
    /// selection focus, and with `notify` a focus notification is queued.
    ///
    /// When the open pop-up is not in the tree nothing changes. Otherwise a
    /// redraw is requested, and the call fails in two ways: the navigation
    /// stack must be rebuilt but the focused widget is not in the searched
    /// subtree (navigation and character focus are then cleared), or no
    /// candidate exists (focus is then left as it was). The walk is
    /// iterative: its stacks are the navigation stack and the stack of
    /// ancestors.
    #[verifier::rlimit(100)]
    pub fn next_nav_focus(&mut self, root: &Widget, reverse: bool, notify: bool) -> (r: bool)
        requires
            old(self).wf(),
        ensures
            final(self).wf(),
            final(self).shell == old(self).shell,
            final(self).state.keeps_all_but_focus(&old(self).state),
            final(self).state.nav_fallback == old(self).state.nav_fallback,
            final(self).state.sel_focus == old(self).state.sel_focus,
            r ==> exists|sr: Widget|
                #![trigger nav_root(&old(self).state, *root, sr)]
                nav_root(&old(self).state, *root, sr) && match sr.node_at(
                    final(self).state.nav_stack@,
                ) {
                    Some(f) => {
                        &&& f.focusable()
                        &&& final(self).state.nav_focus == Some(f.id)
                        &&& final(self).state.char_focus == old(self).state.char_focus_after_nav(
                            f.id,
                        )
                        &&& final(self).state.pending@ == old(self).state.pending_after_nav(
                            f.id,
                            notify,
                        )
                        &&& old(self).state.nav_focus.is_none() ==> {
                            &&& nav_candidate(sr, final(self).state.nav_stack@, reverse)
                            &&& forall|q: Seq<usize>|
                                nav_candidate(sr, q, reverse) ==> if reverse {
                                    sr.pos(q) <= sr.pos(final(self).state.nav_stack@)
                                } else {
                                    sr.pos(q) >= sr.pos(final(self).state.nav_stack@)
                                }
                        }
                    },
                    None => false,
                },
            r ==> exists|sr: Widget, c: Seq<usize>|
                #![trigger nav_root(&old(self).state, *root, sr), walk_start(&old(self).state, sr, c)]
                nav_root(&old(self).state, *root, sr) && walk_start(&old(self).state, sr, c)
                    && next_in_order(sr, c, final(self).state.nav_stack@, reverse),
            popup_missing(&old(self).state, *root) ==> !r && final(self).state == old(self).state,
            !popup_missing(&old(self).state, *root) ==> final(self).state.action.0 == old(
                self,
            ).state.action.0 | ACTION_REDRAW,
            !popup_missing(&old(self).state, *root) ==> exists|sr: Widget|
                #![trigger nav_root(&old(self).state, *root, sr)]
                {
                    &&& nav_root(&old(self).state, *root, sr)
                    &&& rebuild_fails(&old(self).state, sr) ==> {
                        &&& !r
                        &&& final(self).state.nav_focus.is_none()
                        &&& final(self).state.nav_stack@.len() == 0
                        &&& !final(self).state.char_focus
                        &&& final(self).state.pending@ == old(self).state.pending_after_clear_char()
                    }
                    &&& !r && !rebuild_fails(&old(self).state, sr) ==> {
                        &&& final(self).state.nav_focus == old(self).state.nav_focus
                        &&& final(self).state.char_focus == old(self).state.char_focus
                        &&& final(self).state.pending@ == old(self).state.pending@
                        &&& forall|q: Seq<usize>| !nav_candidate(sr, q, reverse)
                    }
                },
    {
        let mut widget: &Widget = root;
        if self.state.popups.len() > 0 {
            let pid = self.state.popups[self.state.popups.len() - 1].popup.id;
            match root.find_leaf(pid) {
                Some(w) => {
                    widget = w;
                },
                None => {
                    return false;
                },
            }
        }
        let search_root: &Widget = widget;
        let ghost sr: Widget = *widget;
        assert(nav_root(&old(self).state, *root, sr));
        assert(!popup_missing(&old(self).state, *root));
        self.state.send_action(TkAction(ACTION_REDRAW));
        let ghost st0 = self.state;
        let mut widget_stack: Vec<&Widget> = Vec::new();
        let ghost size = sr.size() as int;

        if self.state.nav_stack.len() == 0 {
            if let Some(id) = self.state.nav_focus {
                assert(sr.node_at(Seq::empty()) == Some(sr));
                assert(self.state.nav_stack@ =~= Seq::<usize>::empty());
                proof {
                    sr.lemma_pos_lt_size(self.state.nav_stack@);
                }
                // rebuild the stacks from the root down to the focused widget
                while id != widget.id
                    invariant
                        self.state.wf(),
                        self.state.keeps_all_but_focus(&st0),
                        st0.keeps_all_but_focus(&old(self).state),
                        st0.nav_fallback == old(self).state.nav_fallback,
                        st0.nav_focus == old(self).state.nav_focus,
                        st0.sel_focus == old(self).state.sel_focus,
                        st0.char_focus == old(self).state.char_focus,
                        st0.pending@ == old(self).state.pending@,
                        self.state.nav_focus == st0.nav_focus,
                        self.state.sel_focus == st0.sel_focus,
                        self.state.char_focus == st0.char_focus,
                        self.state.pending@ == st0.pending@,
                        self.state.action == st0.action,
                        self.shell == old(self).shell,
                        stack_inv(sr, self.state.nav_stack@, widget_stack@, *widget),
                        nav_root(&old(self).state, *root, sr),
                        !popup_missing(&old(self).state, *root),
                        st0.action.0 == old(self).state.action.0 | ACTION_REDRAW,
                        size == sr.size(),
                        sr.pos(self.state.nav_stack@) < size,
                        old(self).state.nav_stack@.len() == 0,
                        old(self).state.nav_focus == Some(id),
                        sr.has_id(id) ==> widget.has_id(id),
                    decreases size - sr.pos(self.state.nav_stack@),
                {
                    let n = widget.children.len();
                    let mut index: usize = 0;
                    let mut found = false;
                    while index < n && !found
                        invariant
                            n == widget.children@.len(),
                            index <= n,
                            found ==> index < n && widget.children@[index as int].has_id(id),
                            forall|j: int|
                                0 <= j < index ==> !(#[trigger] widget.children@[j]).has_id(id),
                        decreases n - index + (if found {
                            0int
                        } else {
                            1int
                        }),
                    {
                        if widget.children[index].is_ancestor_of(id) {
                            found = true;
                        } else {
                            index += 1;
                        }
                    }
                    if !found {
                        self.state.clear_char_focus();
                        self.state.nav_focus = None;
                        self.state.nav_stack.clear();
                        assert(!sr.has_id(id));
                        return false;
                    }
                    proof {
                        lemma_descend(sr, self.state.nav_stack@, widget_stack@, widget, index);
                        sr.lemma_pos_child(self.state.nav_stack@, index);
                        sr.lemma_pos_lt_size(self.state.nav_stack@.push(index));
                    }
                    self.state.nav_stack.push(index);
                    widget_stack.push(widget);
                    widget = &widget.children[index];
                }
            }
        } else {
            let outside = match self.state.nav_focus {
                Some(id) => !widget.is_ancestor_of(id),
                None => true,
            };
            if outside {
                self.state.nav_stack.clear();
                assert(sr.node_at(self.state.nav_stack@) == Some(sr));
            } else {
                // follow the stored child indices down from the root
                let ghost path = self.state.nav_stack@;
                let len = self.state.nav_stack.len();
                let mut k: usize = 0;
                let mut broken = false;
                assert(path.take(0) =~= Seq::<usize>::empty());
                while k < len && !broken
                    invariant
                        path == self.state.nav_stack@,
                        len == path.len(),
                        k <= len,
                        !broken ==> stack_inv(sr, path.take(k as int), widget_stack@, *widget),
                        broken ==> sr.node_at(path).is_none(),
                        self.state == st0,
                        st0.keeps_all_but_focus(&old(self).state),
                        st0.nav_fallback == old(self).state.nav_fallback,
                        st0.nav_focus == old(self).state.nav_focus,
                        st0.sel_focus == old(self).state.sel_focus,
                        st0.char_focus == old(self).state.char_focus,
                        st0.pending@ == old(self).state.pending@,
                        self.shell == old(self).shell,
                    decreases len - k + (if broken {
                        0int
                    } else {
                        1int
                    }),
                {
                    let index = self.state.nav_stack[k];
                    if index < widget.children.len() {
                        proof {
                            lemma_descend(sr, path.take(k as int), widget_stack@, widget, index);
                            assert(path.take(k as int).push(index) =~= path.take(k + 1));
                        }
                        widget_stack.push(widget);
                        widget = &widget.children[index];
                        k += 1;
                    } else {
                        proof {
                            sr.lemma_node_at_push(path.take(k as int), index);
                            assert(path.take(k as int).push(index) =~= path.take(k + 1));
                            if sr.node_at(path).is_some() {
                                sr.lemma_node_at_prefix(path, k + 1);
                            }
                        }
                        broken = true;
                    }
                }
                if broken {
                    // the stack does not fit this tree: search from the top
                    self.state.nav_stack.clear();
                    widget_stack.clear();
                    widget = search_root;
                    assert(self.state.nav_stack@ =~= Seq::<usize>::empty());
                    assert(sr.node_at(self.state.nav_stack@) == Some(sr));
                } else {
                    assert(path.take(len as int) =~= path);
                }
                assert(path == old(self).state.nav_stack@);
            }
        }
        // Whether to restart from the top once the walk falls off the end
        proof {
            if old(self).state.nav_stack@.len() == 0 && old(self).state.nav_focus.is_some() {
                sr.lemma_node_at_has_id(self.state.nav_stack@);
            }
            assert(!rebuild_fails(&old(self).state, sr));
        }
        let mut restart = self.state.nav_focus.is_some();
        let ghost mut from_root = self.state.nav_stack@.len() == 0;
        // where the walk starts, and the candidates it has already passed
        let ghost origin = self.state.nav_stack@;
        let ghost mut lo: int = sr.pos(origin) as int;
        let ghost mut wrapped = false;
        proof {
            sr.lemma_pos_lt_size(self.state.nav_stack@);
            assert(!restart ==> from_root);
            assert(walk_start(&old(self).state, sr, origin));
        }
        if !reverse {
            let mut done = false;
            while !done
                invariant
                    sr.pos(self.state.nav_stack@) < size,
                    !restart ==> from_root,
                    old(self).state.nav_focus.is_none() ==> from_root,
                    !reverse,
                    from_root ==> ancestors_enabled(sr, self.state.nav_stack@),
                    done ==> from_root && forall|q: Seq<usize>| !nav_candidate(sr, q, false),
                    forall|q: Seq<usize>|
                        nav_candidate(sr, q, false) ==> sr.pos(q) > sr.pos(self.state.nav_stack@)
                            || sr.pos(q) <= lo,
                    sr.node_at(origin).is_some(),
                    walk_start(&old(self).state, sr, origin),
                    from_root ==> lo == 0,
                    !wrapped ==> lo == sr.pos(origin),
                    !wrapped ==> sr.pos(self.state.nav_stack@) >= sr.pos(origin),
                    wrapped ==> from_root && forall|q: Seq<usize>|
                        nav_candidate(sr, q, false) ==> sr.pos(q) <= sr.pos(origin),
                    self.state.wf(),
                    self.state.keeps_all_but_focus(&st0),
                    st0.keeps_all_but_focus(&old(self).state),
                    st0.nav_fallback == old(self).state.nav_fallback,
                    st0.nav_focus == old(self).state.nav_focus,
                    st0.sel_focus == old(self).state.sel_focus,
                    st0.char_focus == old(self).state.char_focus,
                    st0.pending@ == old(self).state.pending@,
                    self.state.nav_focus == st0.nav_focus,
                    self.state.sel_focus == st0.sel_focus,
                    self.state.char_focus == st0.char_focus,
                    self.state.pending@ == st0.pending@,
                    self.state.action == st0.action,
                    self.shell == old(self).shell,
                    stack_inv(sr, self.state.nav_stack@, widget_stack@, *widget),
                    nav_root(&old(self).state, *root, sr),
                    !popup_missing(&old(self).state, *root),
                    !rebuild_fails(&old(self).state, sr),
                    st0.action.0 == old(self).state.action.0 | ACTION_REDRAW,
                    size == sr.size(),
                decreases (if done {
                    0int
                } else {
                    1 + (if restart {
                        size
                    } else {
                        0int
                    }) + size - sr.pos(self.state.nav_stack@)
                }),
            {
                // descend to the first child
                if !widget.disabled {
                    if let Some(index) = widget.spatial_nav(false, None) {
                        let ghost cur = self.state.nav_stack@;
                        proof {
                            lemma_descend(sr, self.state.nav_stack@, widget_stack@, widget, index);
                            sr.lemma_pos_child(self.state.nav_stack@, index);
                            sr.lemma_pos_lt_size(self.state.nav_stack@.push(index));
                            if from_root {
                                lemma_enabled_push(sr, cur, index);
                            }
                        }
                        self.state.nav_stack.push(index);
                        widget_stack.push(widget);
                        widget = &widget.children[index];
                        if widget.key_nav && !widget.disabled {
                            proof {
                                let f = self.state.nav_stack@;
                                if old(self).state.nav_focus.is_none() {
                                    assert(nav_candidate(sr, f, reverse));
                                    assert forall|q: Seq<usize>| nav_candidate(sr, q, reverse) implies (if reverse {
                            sr.pos(q) <= sr.pos(f)
                        } else {
                            sr.pos(q) >= sr.pos(f)
                        }) by {
                            assert(reverse == false);
                            assert(nav_candidate(sr, q, false));
                            lemma_candidate_after_root(sr, q);
                        }
                                }
                            }
                            proof {
                                let f = self.state.nav_stack@;
                                if !wrapped {
                                    assert forall|q: Seq<usize>| nav_candidate(sr, q, reverse) implies sr.pos(q) <= sr.pos(origin)
                                        || sr.pos(q) >= sr.pos(f) by {
                                        assert(nav_candidate(sr, q, false));
                                    }
                                } else {
                                    assert forall|q: Seq<usize>| nav_candidate(sr, q, reverse) implies sr.pos(f) <= sr.pos(q)
                                        && sr.pos(q) <= sr.pos(origin) by {
                                        assert(nav_candidate(sr, q, false));
                                        lemma_candidate_after_root(sr, q);
                                    }
                                }
                                assert(next_in_order(sr, origin, f, reverse));
                            }
                            self.state.take_nav_focus(widget.id, notify);
                            return true;
                        }
                        proof {
                            let nc = self.state.nav_stack@;
                            assert forall|q: Seq<usize>| nav_candidate(sr, q, false) implies sr.pos(q)
                                > sr.pos(nc) || sr.pos(q) <= lo by {
                                if sr.pos(q) == sr.pos(nc) {
                                    sr.lemma_pos_injective(q, nc);
                                }
                            }
                        }
                        continue;
                    }
                }
                // else the next sibling, climbing as needed
                let ghost c0 = self.state.nav_stack@;
                let ghost restart0 = restart;
                proof {
                    // nothing below the current node can take focus
                    let n0 = sr.node_at(c0).unwrap();
                    assert forall|q: Seq<usize>| nav_candidate(sr, q, false) implies sr.pos(q) >= sr.pos(
                        c0,
                    ) + n0.size() || sr.pos(q) <= lo by {
                        if sr.pos(q) < sr.pos(c0) + n0.size() && sr.pos(q) > lo {
                            lemma_no_candidate_below(sr, c0, q, false);
                        }
                    }
                }
                let mut climbing = true;
                while climbing
                    invariant
                        !restart ==> from_root,
                        old(self).state.nav_focus.is_none() ==> from_root,
                        !reverse,
                        from_root ==> ancestors_enabled(sr, self.state.nav_stack@),
                        done ==> from_root && forall|q: Seq<usize>| !nav_candidate(sr, q, false),
                        climbing ==> forall|q: Seq<usize>|
                            nav_candidate(sr, q, false) ==> sr.pos(q) >= sr.pos(self.state.nav_stack@)
                                + sr.node_at(self.state.nav_stack@).unwrap().size() || sr.pos(q) <= lo,
                        !climbing && !done ==> forall|q: Seq<usize>|
                            nav_candidate(sr, q, false) ==> sr.pos(q) > sr.pos(self.state.nav_stack@)
                                || sr.pos(q) <= lo,
                        sr.node_at(origin).is_some(),
                        walk_start(&old(self).state, sr, origin),
                        from_root ==> lo == 0,
                        !wrapped ==> lo == sr.pos(origin),
                        !wrapped ==> sr.pos(c0) >= sr.pos(origin),
                        wrapped ==> from_root && forall|q: Seq<usize>|
                            nav_candidate(sr, q, false) ==> sr.pos(q) <= sr.pos(origin),
                        sr.node_at(c0).is_some(),
                        sr.pos(c0) < size,
                        sr.pos(self.state.nav_stack@) < size,
                        climbing ==> self.state.nav_stack@.len() <= c0.len()
                            && self.state.nav_stack@ == c0.take(self.state.nav_stack@.len() as int),
                        climbing ==> restart == restart0 && !done,
                        !climbing && self.state.nav_stack@.len() == 0 ==> done || (restart0 && !restart),
                        !climbing && self.state.nav_stack@.len() > 0 ==> !done && restart == restart0
                            && sr.pos(self.state.nav_stack@) > sr.pos(c0),
                        self.state.wf(),
                        self.state.keeps_all_but_focus(&st0),
                        st0.keeps_all_but_focus(&old(self).state),
                        st0.nav_fallback == old(self).state.nav_fallback,
                        st0.nav_focus == old(self).state.nav_focus,
                        st0.sel_focus == old(self).state.sel_focus,
                        st0.char_focus == old(self).state.char_focus,
                        st0.pending@ == old(self).state.pending@,
                        self.state.nav_focus == st0.nav_focus,
                        self.state.sel_focus == st0.sel_focus,
                        self.state.char_focus == st0.char_focus,
                        self.state.pending@ == st0.pending@,
                        self.state.action == st0.action,
                        self.shell == old(self).shell,
                        stack_inv(sr, self.state.nav_stack@, widget_stack@, *widget),
                        nav_root(&old(self).state, *root, sr),
                        !popup_missing(&old(self).state, *root),
                        !rebuild_fails(&old(self).state, sr),
                        st0.action.0 == old(self).state.action.0 | ACTION_REDRAW,
                        size == sr.size(),
                    decreases self.state.nav_stack@.len() + (if climbing {
                        1int
                    } else {
                        0int
                    }),
                {
                    if self.state.nav_stack.len() == 0 {
                        // fell off the end
                        proof {
                            assert(self.state.nav_stack@ =~= Seq::<usize>::empty());
                            assert forall|q: Seq<usize>| nav_candidate(sr, q, false) implies sr.pos(q)
                                <= lo by {
                                sr.lemma_pos_lt_size(q);
                            }
                            if from_root {
                                assert forall|q: Seq<usize>| !nav_candidate(sr, q, false) by {
                                    if nav_candidate(sr, q, false) {
                                        lemma_candidate_after_root(sr, q);
                                    }
                                }
                            }
                        }
                        climbing = false;
                        if restart {
                            restart = false;
                            proof {
                                wrapped = true;
                                from_root = true;
                                lo = 0;
                            }
                        } else {
                            done = true;
                        }
                    } else {
                        proof {
                            lemma_ascend(sr, self.state.nav_stack@, widget_stack@, *widget);
                        }
                        let ghost k = self.state.nav_stack@.len() as int;
                        let ghost cb = self.state.nav_stack@;
                        let i = self.state.nav_stack.pop().unwrap();
                        let w = widget_stack.pop().unwrap();
                        widget = w;
                        let ghost cp = self.state.nav_stack@.push(i);
                        proof {
                            assert(cp =~= cb);
                            assert(self.state.nav_stack@ =~= cb.take(k - 1));
                            if from_root {
                                lemma_enabled_prefix(sr, cb, k - 1);
                            }
                            assert(self.state.nav_stack@ =~= c0.take(k - 1));
                            assert(i == c0[k - 1]);
                            sr.lemma_pos_lt_size(self.state.nav_stack@);
                            sr.lemma_pos_child(self.state.nav_stack@, i);
                        }
                        let nch = widget.children.len();
                        let mut moved = false;
                        if !widget.disabled {
                            if let Some(index) = widget.spatial_nav(false, Some(i)) {
                                assert(nch == widget.children@.len());
                                assert(index == i + 1);
                                proof {
                                    lemma_descend(
                                        sr,
                                        self.state.nav_stack@,
                                        widget_stack@,
                                        widget,
                                        index,
                                    );
                                    lemma_next_sibling_after(sr, c0, k, index);
                                    sr.lemma_pos_lt_size(self.state.nav_stack@.push(index));
                                    lemma_sibling_pos(sr, self.state.nav_stack@, i, index);
                                    if from_root {
                                        lemma_enabled_push(sr, self.state.nav_stack@, index);
                                    }
                                }
                                self.state.nav_stack.push(index);
                                widget_stack.push(widget);
                                widget = &widget.children[index];
                                if widget.key_nav && !widget.disabled {
                                    proof {
                                        let f = self.state.nav_stack@;
                                        if old(self).state.nav_focus.is_none() {
                                            assert(nav_candidate(sr, f, reverse));
                                            assert forall|q: Seq<usize>| nav_candidate(sr, q, reverse) implies (if reverse {
                            sr.pos(q) <= sr.pos(f)
                        } else {
                            sr.pos(q) >= sr.pos(f)
                        }) by {
                            assert(reverse == false);
                            assert(nav_candidate(sr, q, false));
                            lemma_candidate_after_root(sr, q);
                        }
                                        }
                                    }
                                    proof {
                                        let f = self.state.nav_stack@;
                                        if !wrapped {
                                            assert(sr.pos(f) == sr.pos(cb) + sr.node_at(cb).unwrap().size());
                                            assert forall|q: Seq<usize>| nav_candidate(sr, q, reverse) implies sr.pos(q) <= sr.pos(origin)
                                                || sr.pos(q) >= sr.pos(f) by {
                                                assert(nav_candidate(sr, q, false));
                                            }
                                        } else {
                                            assert forall|q: Seq<usize>| nav_candidate(sr, q, reverse) implies sr.pos(f) <= sr.pos(q)
                                                && sr.pos(q) <= sr.pos(origin) by {
                                                assert(nav_candidate(sr, q, false));
                                                lemma_candidate_after_root(sr, q);
                                            }
                                        }
                                        assert(next_in_order(sr, origin, f, reverse));
                                    }
                                    self.state.take_nav_focus(widget.id, notify);
                                    return true;
                                }
                                proof {
                                    let nc = self.state.nav_stack@;
                                    assert forall|q: Seq<usize>| nav_candidate(sr, q, false) implies sr.pos(q)
                                        > sr.pos(nc) || sr.pos(q) <= lo by {
                                        if sr.pos(q) == sr.pos(nc) {
                                            sr.lemma_pos_injective(q, nc);
                                        }
                                    }
                                }
                                climbing = false;
                                moved = true;
                            }
                        }
                        proof {
                            if !moved {
                                // the parent's subtree holds no candidate beyond `c`
                                let p = self.state.nav_stack@;
                                let pn = sr.node_at(p).unwrap();
                                Widget::lemma_sizes_take(pn.children@, i as int);
                                assert(pn.children@.take(pn.children@.len() as int) =~= pn.children@);
                                assert forall|q: Seq<usize>| nav_candidate(sr, q, false) implies sr.pos(q)
                                    >= sr.pos(p) + pn.size() || sr.pos(q) <= lo by {
                                    if sr.pos(q) < sr.pos(p) + pn.size() && sr.pos(q) > lo {
                                        if pn.disabled {
                                            lemma_no_candidate_below(sr, p, q, false);
                                        }
                                    }
                                }
                            }
                        }
                    }
                }
            }
        } else {
            let mut start = self.state.nav_focus.is_none();
            let ghost mut full = start;
            let ghost mut hi: int = if full {
                size
            } else {
                sr.pos(origin) as int
            };
            let mut done = false;
            while !done
                invariant
                    sr.pos(self.state.nav_stack@) < size,
                    !restart ==> full,
                    old(self).state.nav_focus.is_none() ==> full,
                    reverse,
                    full ==> ancestors_enabled(sr, self.state.nav_stack@),
                    start ==> full && self.state.nav_stack@.len() == 0,
                    done ==> full && forall|q: Seq<usize>| !nav_candidate(sr, q, true),
                    !done && !start ==> forall|q: Seq<usize>|
                        nav_candidate(sr, q, true) ==> sr.pos(q) < sr.pos(self.state.nav_stack@)
                            || sr.pos(q) >= hi,
                    sr.node_at(origin).is_some(),
                    walk_start(&old(self).state, sr, origin),
                    full ==> hi == size,
                    !full ==> hi == sr.pos(origin),
                    restart ==> !full,
                    full ==> forall|q: Seq<usize>|
                        nav_candidate(sr, q, true) ==> sr.pos(q) >= sr.pos(origin),
                    !full && !start ==> sr.pos(self.state.nav_stack@) <= sr.pos(origin),
                    self.state.wf(),
                    self.state.keeps_all_but_focus(&st0),
                    st0.keeps_all_but_focus(&old(self).state),
                    st0.nav_fallback == old(self).state.nav_fallback,
                    st0.nav_focus == old(self).state.nav_focus,
                    st0.sel_focus == old(self).state.sel_focus,
                    st0.char_focus == old(self).state.char_focus,
                    st0.pending@ == old(self).state.pending@,
                    self.state.nav_focus == st0.nav_focus,
                    self.state.sel_focus == st0.sel_focus,
                    self.state.char_focus == st0.char_focus,
                    self.state.pending@ == st0.pending@,
                    self.state.action == st0.action,
                    self.shell == old(self).shell,
                    stack_inv(sr, self.state.nav_stack@, widget_stack@, *widget),
                    nav_root(&old(self).state, *root, sr),
                    !popup_missing(&old(self).state, *root),
                    !rebuild_fails(&old(self).state, sr),
                    st0.action.0 == old(self).state.action.0 | ACTION_REDRAW,
                    size == sr.size(),
                decreases (if done {
                    0int
                } else {
                    1 + (if restart {
                        size + 1
                    } else {
                        0int
                    }) + (if start {
                        size
                    } else {
                        sr.pos(self.state.nav_stack@) as int
                    })
                }),
            {
                let ghost c = self.state.nav_stack@;
                let ghost was_start = start;
                let ghost mut bound: int = size;
                // 0: moved to a sibling (or start), 1: climbed, 2: fell off the end
                let mut case: u8 = 0;
                if start {
                    start = false;
                    proof {
                        assert(self.state.nav_stack@ =~= Seq::<usize>::empty());
                        assert forall|q: Seq<usize>| nav_candidate(sr, q, true) implies sr.pos(q)
                            < sr.pos(self.state.nav_stack@) + sr.node_at(
                            self.state.nav_stack@,
                        ).unwrap().size() by {
                            sr.lemma_pos_lt_size(q);
                        }
                    }
                } else if self.state.nav_stack.len() == 0 {
                    case = 2;
                } else {
                    proof {
                        lemma_ascend(sr, self.state.nav_stack@, widget_stack@, *widget);
                    }
                    let i = self.state.nav_stack.pop().unwrap();
                    let w = widget_stack.pop().unwrap();
                    widget = w;
                    case = 1;
                    proof {
                        assert(c =~= self.state.nav_stack@.push(i));
                        assert(self.state.nav_stack@ =~= c.take(c.len() - 1));
                        if full {
                            lemma_enabled_prefix(sr, c, c.len() - 1);
                        }
                        sr.lemma_pos_child(self.state.nav_stack@, i);
                        bound = sr.pos(c) as int;
                    }
                    if !widget.disabled {
                        if let Some(index) = widget.spatial_nav(true, Some(i)) {
                            proof {
                                lemma_descend(sr, self.state.nav_stack@, widget_stack@, widget, index);
                                lemma_sibling_pos(sr, self.state.nav_stack@, index, i);
                                if full {
                                    lemma_enabled_push(sr, self.state.nav_stack@, index);
                                }
                            }
                            self.state.nav_stack.push(index);
                            widget_stack.push(widget);
                            widget = &widget.children[index];
                            case = 0;
                            proof {
                                let nx = self.state.nav_stack@;
                                assert forall|q: Seq<usize>| nav_candidate(sr, q, true) implies sr.pos(q)
                                    < sr.pos(nx) + sr.node_at(nx).unwrap().size() || sr.pos(q) >= hi by {}
                            }
                        }
                    }
                    proof {
                        let p = self.state.nav_stack@;
                        if case == 1 {
                            // climbed to the parent: nothing between it and `c` can take focus
                            sr.lemma_node_at_prefix(c, p.len() as int);
                            assert(c.take(p.len() as int) =~= p);
                            lemma_within_subtree(sr, p, c);
                            assert(sr.pos(p) < sr.pos(c));
                            assert forall|q: Seq<usize>| nav_candidate(sr, q, true) implies sr.pos(q)
                                <= sr.pos(p) || sr.pos(q) >= hi by {
                                if sr.pos(q) > sr.pos(p) && i > 0 && sr.pos(q) < hi {
                                    lemma_no_candidate_below(sr, p, q, true);
                                }
                            }
                        }
                    }
                }
                if case == 0 {
                    // descend to the last leaf
                    let ghost x = self.state.nav_stack@;
                    proof {
                        sr.lemma_pos_lt_size(x);
                        assert(x.take(x.len() as int) =~= x);
                    }
                    let mut descending = true;
                    while descending
                        invariant
                            forall|q: Seq<usize>|
                                nav_candidate(sr, q, true) ==> sr.pos(q) < sr.pos(self.state.nav_stack@)
                                    + sr.node_at(self.state.nav_stack@).unwrap().size() || sr.pos(q) >= hi,
                            full ==> hi == size,
                            !full ==> hi == sr.pos(origin),
                            !descending ==> widget.disabled || widget.children@.len() == 0,
                            full ==> ancestors_enabled(sr, self.state.nav_stack@),
                            old(self).state.nav_focus.is_none() ==> full,
                            reverse,
                            x.len() <= self.state.nav_stack@.len(),
                            self.state.nav_stack@.take(x.len() as int) == x,
                            sr.pos(self.state.nav_stack@) < size,
                            self.state.wf(),
                            self.state.keeps_all_but_focus(&st0),
                            st0.keeps_all_but_focus(&old(self).state),
                            st0.nav_fallback == old(self).state.nav_fallback,
                            st0.nav_focus == old(self).state.nav_focus,
                            st0.sel_focus == old(self).state.sel_focus,
                            st0.char_focus == old(self).state.char_focus,
                            st0.pending@ == old(self).state.pending@,
                            self.state.nav_focus == st0.nav_focus,
                            self.state.sel_focus == st0.sel_focus,
                            self.state.char_focus == st0.char_focus,
                            self.state.pending@ == st0.pending@,
                            self.state.action == st0.action,
                            self.shell == old(self).shell,
                            stack_inv(sr, self.state.nav_stack@, widget_stack@, *widget),
                            nav_root(&old(self).state, *root, sr),
                            !popup_missing(&old(self).state, *root),
                            !rebuild_fails(&old(self).state, sr),
                            st0.action.0 == old(self).state.action.0 | ACTION_REDRAW,
                            size == sr.size(),
                        decreases size - sr.pos(self.state.nav_stack@) + (if descending {
                            1int
                        } else {
                            0int
                        }),
                    {
                        descending = false;
                        let nch = widget.children.len();
                        if !widget.disabled {
                            if let Some(index) = widget.spatial_nav(true, None) {
                                assert(index == nch - 1);
                                proof {
                                    let cur = self.state.nav_stack@;
                                    let ch = widget.children@;
                                    Widget::lemma_sizes_take(ch, index as int);
                                    assert(ch.take(ch.len() as int) =~= ch);
                                    lemma_descend(
                                        sr,
                                        self.state.nav_stack@,
                                        widget_stack@,
                                        widget,
                                        index,
                                    );
                                    sr.lemma_pos_child(self.state.nav_stack@, index);
                                    sr.lemma_pos_lt_size(self.state.nav_stack@.push(index));
                                    if full {
                                        lemma_enabled_push(sr, cur, index);
                                    }
                                    assert(self.state.nav_stack@.push(index).take(x.len() as int)
                                        =~= self.state.nav_stack@.take(x.len() as int));
                                }
                                self.state.nav_stack.push(index);
                                widget_stack.push(widget);
                                widget = &widget.children[index];
                                descending = true;
                            }
                        }
                    }
                    proof {
                        if !was_start {
                            lemma_within_subtree(sr, x, self.state.nav_stack@);
                        }
                        let nc = self.state.nav_stack@;
                        // the walk stopped at a leaf or a disabled node
                        assert forall|q: Seq<usize>| nav_candidate(sr, q, true) implies sr.pos(q) <= sr.pos(
                            nc,
                        ) || sr.pos(q) >= hi by {
                            if sr.pos(q) > sr.pos(nc) && sr.pos(q) < hi {
                                lemma_no_candidate_below(sr, nc, q, true);
                            }
                        }
                        if !was_start {
                            assert(sr.pos(nc) < sr.pos(c));
                        }
                    }
                } else if case == 2 {
                    proof {
                        assert(self.state.nav_stack@ =~= Seq::<usize>::empty());
                    }
                    if restart {
                        restart = false;
                        start = true;
                        proof {
                            // nothing before the start can take focus
                            assert forall|q: Seq<usize>| nav_candidate(sr, q, true) implies sr.pos(q)
                                >= sr.pos(origin) by {}
                            full = true;
                            hi = size;
                        }
                        continue;
                    } else {
                        proof {
                            assert forall|q: Seq<usize>| !nav_candidate(sr, q, true) by {
                                if nav_candidate(sr, q, true) {
                                    sr.lemma_pos_lt_size(q);
                                }
                            }
                        }
                        done = true;
                    }
                }
                if !done && widget.key_nav && !widget.disabled {
                    proof {
                        let f = self.state.nav_stack@;
                        if old(self).state.nav_focus.is_none() {
                            assert(nav_candidate(sr, f, reverse));
                            assert forall|q: Seq<usize>| nav_candidate(sr, q, reverse) implies (if reverse {
                            sr.pos(q) <= sr.pos(f)
                        } else {
                            sr.pos(q) >= sr.pos(f)
                        }) by {
                            assert(reverse == true);
                            assert(nav_candidate(sr, q, true));
                            sr.lemma_pos_lt_size(q);
                        }
                        }
                    }
                    proof {
                        let f = self.state.nav_stack@;
                        if !full {
                            assert forall|q: Seq<usize>| nav_candidate(sr, q, reverse) implies sr.pos(q)
                                >= sr.pos(origin) || sr.pos(q) <= sr.pos(f) by {
                                assert(nav_candidate(sr, q, true));
                            }
                        } else {
                            assert forall|q: Seq<usize>| nav_candidate(sr, q, reverse) implies sr.pos(origin)
                                <= sr.pos(q) && sr.pos(q) <= sr.pos(f) by {
                                assert(nav_candidate(sr, q, true));
                                sr.lemma_pos_lt_size(q);
                            }
                        }
                        assert(next_in_order(sr, origin, f, reverse));
                    }
                    self.state.take_nav_focus(widget.id, notify);
                    return true;
                }
                proof {
                    let nc = self.state.nav_stack@;
                    if !done {
                        assert forall|q: Seq<usize>| nav_candidate(sr, q, true) implies sr.pos(q) < sr.pos(
                            nc,
                        ) || sr.pos(q) >= hi by {
                            if sr.pos(q) == sr.pos(nc) {
                                sr.lemma_pos_injective(q, nc);
                            }
                        }
                    }
                }
            }
        }
        proof {
            assert(nav_root(&old(self).state, *root, sr));
            assert(forall|q: Seq<usize>| !nav_candidate(sr, q, reverse));
        }
        false
    }
}

} // verus!
