//! Accelerator-key layers: a stack of layers being configured, finished
//! layers keyed by their owner, and key lookup across open pop-ups.
use vstd::prelude::*;
use crate::manager::{Manager, ShellWindow};
use crate::state::{
    AccelLayer, ManagerState, assoc_map, lemma_assoc_map_absent, lemma_assoc_map_last,
};
use crate::types::{VirtualKeyCode, WidgetId};

verus! {

/// The widget that `layer` binds `key` to, when the layer is active: with
/// Alt held, or always when the layer bypasses Alt.
pub open spec fn layer_lookup(layer: AccelLayer, key: VirtualKeyCode, alt: bool) -> Option<
    WidgetId,
> {
    if (alt || layer.alt_bypass) && assoc_map(layer.keys@).contains_key(key) {
        Some(assoc_map(layer.keys@)[key])
    } else {
        None
    }
}

/// Lookup through the layers of the `n` innermost open pop-ups (innermost
/// first), then the base layer; a miss in one layer falls through.
pub open spec fn lookup_from(st: &ManagerState, key: VirtualKeyCode, n: int) -> Option<WidgetId>
    decreases n,
{
    if n <= 0 {
        layer_lookup(st.accel_stack@[0], key, st.modifiers.alt)
    } else {
        let owner = st.popups@[n - 1].popup.parent;
        let layers = assoc_map(st.accel_layers@);
        if layers.contains_key(owner) && layer_lookup(layers[owner], key, st.modifiers.alt).is_some() {
            layer_lookup(layers[owner], key, st.modifiers.alt)
        } else {
            lookup_from(st, key, n - 1)
        }
    }
}

/// The keys of `keys` all bound to `id`.
pub open spec fn bindings(keys: Seq<VirtualKeyCode>, id: WidgetId) -> Map<VirtualKeyCode, WidgetId> {
    Map::new(|k: VirtualKeyCode| keys.contains(k), |k: VirtualKeyCode| id)
}

/// The widget bound to `key` in `layer`, if any.
fn layer_find(layer: &AccelLayer, key: VirtualKeyCode) -> (r: Option<WidgetId>)
    ensures
        r == (if assoc_map(layer.keys@).contains_key(key) {
            Some(assoc_map(layer.keys@)[key])
        } else {
            None
        }),
{
    let mut i: usize = layer.keys.len();
    while i > 0
        invariant
            i <= layer.keys@.len(),
            forall|m: int| i <= m < layer.keys@.len() ==> (#[trigger] layer.keys@[m]).0 != key,
        decreases i,
    {
        if layer.keys[i - 1].0 == key {
            proof {
                lemma_assoc_map_last(layer.keys@, key, i - 1);
                assert(assoc_map(layer.keys@).contains_key(key));
                assert(assoc_map(layer.keys@)[key] == layer.keys@[i - 1].1);
            }
            return Some(layer.keys[i - 1].1);
        }
        i -= 1;
    }
    proof {
        lemma_assoc_map_absent(layer.keys@, key);
    }
    None
}

impl ManagerState {
    /// Index of the finished layer owned by `owner`, if any.
    fn find_layer(&self, owner: WidgetId) -> (r: Option<usize>)
        ensures
            r matches Some(i) ==> i < self.accel_layers@.len() && assoc_map(
                self.accel_layers@,
            ).contains_key(owner) && assoc_map(self.accel_layers@)[owner]
                == self.accel_layers@[i as int].1,
            r.is_none() ==> !assoc_map(self.accel_layers@).contains_key(owner),
    {
        let mut i: usize = self.accel_layers.len();
        while i > 0
            invariant
                i <= self.accel_layers@.len(),
                forall|m: int| i <= m < self.accel_layers@.len() ==> (#[trigger] self.accel_layers@[m]).0 != owner,
            decreases i,
        {
            if self.accel_layers[i - 1].0 == owner {
                proof {
                    lemma_assoc_map_last(self.accel_layers@, owner, i - 1);
                }
                return Some(i - 1);
            }
            i -= 1;
        }
        proof {
            lemma_assoc_map_absent(self.accel_layers@, owner);
        }
        None
    }

    /// The widget that an accelerator `key` activates: the layers of open
    /// pop-ups are tried innermost first, then the base layer.
    pub fn find_accel_key(&self, key: VirtualKeyCode) -> (r: Option<WidgetId>)
        requires
            self.wf(),
        ensures
            r == lookup_from(self, key, self.popups@.len() as int),
    {
        let alt = self.modifiers.alt;
        let mut n: usize = self.popups.len();
        while n > 0
            invariant
                n <= self.popups@.len(),
                alt == self.modifiers.alt,
                lookup_from(self, key, n as int) == lookup_from(
                    self,
                    key,
                    self.popups@.len() as int,
                ),
            decreases n,
        {
            let owner = self.popups[n - 1].popup.parent;
            if let Some(li) = self.find_layer(owner) {
                let layer = &self.accel_layers[li].1;
                if alt || layer.alt_bypass {
                    if let Some(id) = layer_find(layer, key) {
                        return Some(id);
                    }
                }
            }
            n -= 1;
        }
        let base = &self.accel_stack[0];
        if alt || base.alt_bypass {
            layer_find(base, key)
        } else {
            None
        }
    }
}

/// `new` is `old` with one more layer on top.
pub open spec fn layer_pushed(old: Seq<AccelLayer>, new: Seq<AccelLayer>) -> bool {
    new.len() == old.len() + 1 && new.drop_last() == old
}

/// `new` is `old` with only its top layer changed.
pub open spec fn top_layer_changed(old: Seq<AccelLayer>, new: Seq<AccelLayer>) -> bool {
    new.len() == old.len() && new.drop_last() == old.drop_last()
}

/// `new` is `old` with its top layer removed, unless that is the base layer.
pub open spec fn layer_popped(old: Seq<AccelLayer>, new: Seq<AccelLayer>) -> bool {
    if old.len() > 1 {
        new == old.drop_last()
    } else {
        new == old
    }
}

/// A run of calls that pushes accelerator layers, changes only layers pushed
/// during the run (adding keys, setting Alt bypass), and pops back to the
/// starting depth restores the layer stack: same layers, so the same base
/// layer and the same lookups. `stacks` holds the stack before each call and
/// after the last.
pub proof fn lemma_push_pop_restores(stacks: Seq<Seq<AccelLayer>>)
    requires
        stacks.len() >= 1,
        stacks[0].len() >= 1,
        forall|k: int|
            0 < k < stacks.len() ==> layer_pushed(stacks[k - 1], #[trigger] stacks[k]) || (
            stacks[k - 1].len() > stacks[0].len() && (top_layer_changed(stacks[k - 1], stacks[k])
                || layer_popped(stacks[k - 1], stacks[k]))),
        stacks.last().len() == stacks[0].len(),
    ensures
        stacks.last() == stacks[0],
{
    let l = stacks[0].len() as int;
    lemma_base_kept(stacks, stacks.len() - 1);
    assert(stacks.last().take(l) =~= stacks.last());
}

/// Every stack of such a run keeps the starting layers below its top.
proof fn lemma_base_kept(stacks: Seq<Seq<AccelLayer>>, k: int)
    requires
        0 <= k < stacks.len(),
        stacks[0].len() >= 1,
        forall|k: int|
            0 < k < stacks.len() ==> layer_pushed(stacks[k - 1], #[trigger] stacks[k]) || (
            stacks[k - 1].len() > stacks[0].len() && (top_layer_changed(stacks[k - 1], stacks[k])
                || layer_popped(stacks[k - 1], stacks[k]))),
    ensures
        stacks[k].len() >= stacks[0].len(),
        stacks[k].take(stacks[0].len() as int) == stacks[0],
    decreases k,
{
    let l = stacks[0].len() as int;
    if k == 0 {
        assert(stacks[0].take(l) =~= stacks[0]);
    } else {
        lemma_base_kept(stacks, k - 1);
        let a = stacks[k - 1];
        let b = stacks[k];
        if layer_pushed(a, b) {
            assert(b.take(l) =~= a.take(l)) by {
                assert forall|j: int| 0 <= j < l implies b.take(l)[j] == a.take(l)[j] by {
                    assert(b.drop_last()[j] == b[j]);
                }
            }
        } else if top_layer_changed(a, b) {
            assert(b.take(l) =~= a.take(l)) by {
                assert forall|j: int| 0 <= j < l implies b.take(l)[j] == a.take(l)[j] by {
                    assert(b.drop_last()[j] == b[j]);
                    assert(a.drop_last()[j] == a[j]);
                }
            }
        } else {
            assert(b.take(l) =~= a.take(l));
        }
    }
}

impl<S: ShellWindow> Manager<S> {
    /// Push a new, empty accelerator layer and make it current.
    pub fn push_accel_layer(&mut self, alt_bypass: bool)
        requires
            old(self).wf(),
        ensures
            final(self).wf(),
            final(self).shell == old(self).shell,
            layer_pushed(old(self).state.accel_stack@, final(self).state.accel_stack@),
            final(self).state.accel_stack@.last().alt_bypass == alt_bypass,
            final(self).state.accel_stack@.last().keys@.len() == 0,
            final(self).state.accel_layers@ == old(self).state.accel_layers@,
            final(self).state.keeps_grabs(&old(self).state),
            final(self).state.keeps_popups(&old(self).state),
            final(self).state.keeps_updates(&old(self).state),
            final(self).state.keeps_input(&old(self).state),
            final(self).state.keeps_focus(&old(self).state),
            final(self).state.pending@ == old(self).state.pending@,
            final(self).state.action == old(self).state.action,
    {
        self.state.accel_stack.push(AccelLayer { alt_bypass, keys: Vec::new() });
        assert(self.state.accel_stack@.drop_last() =~= old(self).state.accel_stack@);
    }

    /// Set whether the current layer's keys work without Alt.
    pub fn enable_alt_bypass(&mut self, alt_bypass: bool)
        requires
            old(self).wf(),
        ensures
            final(self).wf(),
            final(self).shell == old(self).shell,
            top_layer_changed(old(self).state.accel_stack@, final(self).state.accel_stack@),
            final(self).state.accel_stack@.last().alt_bypass == alt_bypass,
            final(self).state.accel_stack@.last().keys@ == old(
                self,
            ).state.accel_stack@.last().keys@,
            final(self).state.accel_layers@ == old(self).state.accel_layers@,
            final(self).state.keeps_grabs(&old(self).state),
            final(self).state.keeps_popups(&old(self).state),
            final(self).state.keeps_updates(&old(self).state),
            final(self).state.keeps_input(&old(self).state),
            final(self).state.keeps_focus(&old(self).state),
            final(self).state.pending@ == old(self).state.pending@,
            final(self).state.action == old(self).state.action,
    {
        let mut layer = self.state.accel_stack.pop().unwrap();
        layer.alt_bypass = alt_bypass;
        self.state.accel_stack.push(layer);
        assert(self.state.accel_stack@.drop_last() =~= old(self).state.accel_stack@.drop_last());
    }

    /// Finish the current layer and store it under its owner `id`, making
    /// the previous layer current. The base layer is never popped: a pop
    /// without a matching push changes nothing.
    pub fn pop_accel_layer(&mut self, id: WidgetId)
        requires
            old(self).wf(),
        ensures
            final(self).wf(),
            final(self).shell == old(self).shell,
            layer_popped(old(self).state.accel_stack@, final(self).state.accel_stack@),
            old(self).state.accel_stack@.len() > 1 ==> {
                &&& final(self).state.accel_layers@ == old(self).state.accel_layers@.push(
                    (id, old(self).state.accel_stack@.last()),
                )
            },
            old(self).state.accel_stack@.len() <= 1 ==> final(self).state.keeps_accel(
                &old(self).state,
            ),
            final(self).state.keeps_grabs(&old(self).state),
            final(self).state.keeps_popups(&old(self).state),
            final(self).state.keeps_updates(&old(self).state),
            final(self).state.keeps_input(&old(self).state),
            final(self).state.keeps_focus(&old(self).state),
            final(self).state.pending@ == old(self).state.pending@,
            final(self).state.action == old(self).state.action,
    {
        if self.state.accel_stack.len() > 1 {
            let layer = self.state.accel_stack.pop().unwrap();
            self.state.accel_layers.push((id, layer));
        }
    }

    /// Bind each of `keys` to widget `id` in the current layer.
    pub fn add_accel_keys(&mut self, id: WidgetId, keys: &[VirtualKeyCode])
        requires
            old(self).wf(),
        ensures
            final(self).wf(),
            final(self).shell == old(self).shell,
            top_layer_changed(old(self).state.accel_stack@, final(self).state.accel_stack@),
            final(self).state.accel_stack@.last().alt_bypass == old(
                self,
            ).state.accel_stack@.last().alt_bypass,
            assoc_map(final(self).state.accel_stack@.last().keys@) == assoc_map(
                old(self).state.accel_stack@.last().keys@,
            ).union_prefer_right(bindings(keys@, id)),
            final(self).state.accel_layers@ == old(self).state.accel_layers@,
            final(self).state.keeps_grabs(&old(self).state),
            final(self).state.keeps_popups(&old(self).state),
            final(self).state.keeps_updates(&old(self).state),
            final(self).state.keeps_input(&old(self).state),
            final(self).state.keeps_focus(&old(self).state),
            final(self).state.pending@ == old(self).state.pending@,
            final(self).state.action == old(self).state.action,
    {
        let mut layer = self.state.accel_stack.pop().unwrap();
        let ghost k0 = layer.keys@;
        let mut i: usize = 0;
        while i < keys.len()
            invariant
                i <= keys@.len(),
                assoc_map(layer.keys@) == assoc_map(k0).union_prefer_right(
                    bindings(keys@.take(i as int), id),
                ),
                layer.alt_bypass == old(self).state.accel_stack@.last().alt_bypass,
            decreases keys@.len() - i,
        {
            let ghost before = layer.keys@;
            layer.keys.push((keys[i], id));
            proof {
                assert(layer.keys@.drop_last() =~= before);
                assert(keys@.take(i + 1) =~= keys@.take(i as int).push(keys@[i as int]));
                assert(layer.keys@.last() == (keys@[i as int], id));
                assert(assoc_map(layer.keys@) == assoc_map(before).insert(keys@[i as int], id));
                assert forall|k: VirtualKeyCode| #[trigger] keys@.take(i + 1).contains(k) <==> (
                keys@.take(i as int).contains(k) || k == keys@[i as int]) by {
                    if keys@.take(i + 1).contains(k) {
                        let m = choose|m: int| 0 <= m < i + 1 && #[trigger] keys@.take(i + 1)[m] == k;
                        if m < i {
                            assert(keys@.take(i as int)[m] == k);
                        }
                    }
                    if keys@.take(i as int).contains(k) {
                        let m = choose|m: int| 0 <= m < i && #[trigger] keys@.take(i as int)[m] == k;
                        assert(keys@.take(i + 1)[m] == k);
                    }
                    if k == keys@[i as int] {
                        assert(keys@.take(i + 1)[i as int] == k);
                    }
                }
                assert(assoc_map(layer.keys@) =~= assoc_map(k0).union_prefer_right(
                    bindings(keys@.take(i + 1), id),
                ));
            }
            i += 1;
        }
        self.state.accel_stack.push(layer);
        proof {
            assert(keys@.take(keys@.len() as int) =~= keys@);
            assert(self.state.accel_stack@.drop_last() =~= old(self).state.accel_stack@.drop_last());
        }
    }
}

} // verus!
