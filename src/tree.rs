//! The widget tree that navigation walks: each node has an identifier,
//! navigation flags and an ordered list of children.
use vstd::prelude::*;
use crate::types::WidgetId;

verus! {

/// A node of the widget tree.
pub struct Widget {
    pub id: WidgetId,
    /// Whether this widget accepts keyboard navigation focus.
    pub key_nav: bool,
    /// A disabled widget and its descendants cannot receive focus.
    pub disabled: bool,
    pub children: Vec<Widget>,
}

impl Widget {
    /// Whether `id` names this widget or one of its descendants.
    pub open spec fn has_id(self, id: WidgetId) -> bool
        decreases self,
    {
        self.id == id || exists|i: int|
            0 <= i < self.children@.len() && (#[trigger] self.children@[i]).has_id(id)
    }

    /// The node reached from this one by following child indices.
    pub open spec fn node_at(self, path: Seq<usize>) -> Option<Widget>
        decreases path.len(),
    {
        if path.len() == 0 {
            Some(self)
        } else if path[0] < self.children@.len() {
            self.children@[path[0] as int].node_at(path.drop_first())
        } else {
            None
        }
    }

    /// Number of nodes in this subtree.
    pub open spec fn size(self) -> nat
        decreases self,
    {
        1 + Widget::sizes(self.children@)
    }

    /// Number of nodes in a list of subtrees.
    pub open spec fn sizes(s: Seq<Widget>) -> nat
        decreases s,
    {
        if s.len() == 0 {
            0
        } else {
            Widget::sizes(s.drop_last()) + s.last().size()
        }
    }

    /// Position of the node at `path` in depth-first pre-order.
    pub open spec fn pos(self, path: Seq<usize>) -> nat
        decreases path.len(),
    {
        if path.len() == 0 {
            0
        } else if path[0] < self.children@.len() {
            1 + Widget::sizes(self.children@.take(path[0] as int)) + self.children@[path[0] as int].pos(
                path.drop_first(),
            )
        } else {
            0
        }
    }

    /// Whether `n` is this node or one of its descendants.
    pub open spec fn has_node(self, n: Widget) -> bool {
        exists|p: Seq<usize>| self.node_at(p) == Some(n)
    }

    /// A node accepts focus when it takes keyboard navigation and is enabled.
    pub open spec fn focusable(self) -> bool {
        self.key_nav && !self.disabled
    }

    /// The child index that navigation tries after `from` (or first, when
    /// `from` is `None`), going backwards when `reverse`.
    pub open spec fn spec_spatial_nav(self, reverse: bool, from: Option<usize>) -> Option<usize> {
        let n = self.children@.len();
        if n == 0 {
            None
        } else {
            match from {
                Some(i) => if !reverse && i + 1 < n {
                    Some((i + 1) as usize)
                } else if reverse && 0 < i {
                    Some((i - 1) as usize)
                } else {
                    None
                },
                None => if reverse {
                    Some((n - 1) as usize)
                } else {
                    Some(0usize)
                },
            }
        }
    }

    pub fn new(id: WidgetId, key_nav: bool, children: Vec<Widget>) -> (r: Widget)
        ensures
            r.id == id,
            r.key_nav == key_nav,
            !r.disabled,
            r.children@ == children@,
    {
        Widget { id, key_nav, disabled: false, children }
    }

    pub fn id(&self) -> (r: WidgetId)
        ensures
            r == self.id,
    {
        self.id
    }

    pub fn key_nav(&self) -> (r: bool)
        ensures
            r == self.key_nav,
    {
        self.key_nav
    }

    pub fn is_disabled(&self) -> (r: bool)
        ensures
            r == self.disabled,
    {
        self.disabled
    }

    pub fn num_children(&self) -> (r: usize)
        ensures
            r == self.children@.len(),
    {
        self.children.len()
    }

    pub fn get_child(&self, index: usize) -> (r: Option<&Widget>)
        ensures
            index < self.children@.len() ==> r == Some(&self.children@[index as int]),
            index >= self.children@.len() ==> r.is_none(),
    {
        if index < self.children.len() {
            Some(&self.children[index])
        } else {
            None
        }
    }

    /// Next child index for navigation; see [`Widget::spec_spatial_nav`].
    pub fn spatial_nav(&self, reverse: bool, from: Option<usize>) -> (r: Option<usize>)
        ensures
            r == self.spec_spatial_nav(reverse, from),
    {
        let n = self.children.len();
        if n == 0 {
            return None;
        }
        match from {
            Some(i) => {
                if !reverse && i < n - 1 {
                    Some(i + 1)
                } else if reverse && 0 < i {
                    Some(i - 1)
                } else {
                    None
                }
            },
            None => {
                if reverse {
                    Some(n - 1)
                } else {
                    Some(0)
                }
            },
        }
    }

    /// Whether `id` names this widget or one of its descendants.
    pub fn is_ancestor_of(&self, id: WidgetId) -> (r: bool)
        ensures
            r == self.has_id(id),
        decreases self,
    {
        if self.id == id {
            return true;
        }
        let mut i: usize = 0;
        while i < self.children.len()
            invariant
                i <= self.children@.len(),
                self.id != id,
                forall|j: int| 0 <= j < i ==> !(#[trigger] self.children@[j]).has_id(id),
            decreases self.children@.len() - i,
        {
            if self.children[i].is_ancestor_of(id) {
                return true;
            }
            i += 1;
        }
        false
    }

    /// Find the widget with identifier `id` in this subtree.
    pub fn find_leaf(&self, id: WidgetId) -> (r: Option<&Widget>)
        ensures
            r matches Some(n) ==> n.id == id && self.has_node(*n),
            r.is_some() == self.has_id(id),
        decreases self,
    {
        if self.id == id {
            assert(self.node_at(Seq::empty()) == Some(*self));
            return Some(self);
        }
        let mut i: usize = 0;
        while i < self.children.len()
            invariant
                i <= self.children@.len(),
                self.id != id,
                forall|j: int| 0 <= j < i ==> !(#[trigger] self.children@[j]).has_id(id),
            decreases self.children@.len() - i,
        {
            let found = self.children[i].find_leaf(id);
            if let Some(n) = found {
                proof {
                    let p = choose|p: Seq<usize>| self.children@[i as int].node_at(p) == Some(*n);
                    let q = seq![i].add(p);
                    assert(q.drop_first() =~= p);
                    assert(self.node_at(q) == Some(*n));
                }
                return Some(n);
            }
            i += 1;
        }
        None
    }

    /// Walking one more step down a path.
    pub proof fn lemma_node_at_push(self, path: Seq<usize>, i: usize)
        requires
            self.node_at(path).is_some(),
        ensures
            self.node_at(path.push(i)) == (if i < self.node_at(path).unwrap().children@.len() {
                Some(self.node_at(path).unwrap().children@[i as int])
            } else {
                None
            }),
        decreases path.len(),
    {
        if path.len() == 0 {
            assert(path.push(i).drop_first() =~= Seq::<usize>::empty());
            assert(path.push(i)[0] == i);
            if i < self.children@.len() {
                let c = self.children@[i as int];
                assert(c.node_at(Seq::empty()) == Some(c));
            }
        } else {
            let c = self.children@[path[0] as int];
            assert(path.push(i).drop_first() =~= path.drop_first().push(i));
            c.lemma_node_at_push(path.drop_first(), i);
        }
    }

    /// Walking a path with its last step removed.
    pub proof fn lemma_node_at_prefix(self, path: Seq<usize>, k: int)
        requires
            self.node_at(path).is_some(),
            0 <= k <= path.len(),
        ensures
            self.node_at(path.subrange(0, k)).is_some(),
        decreases path.len(),
    {
        if k == 0 {
        } else {
            let c = self.children@[path[0] as int];
            assert(path.subrange(0, k).drop_first() =~= path.drop_first().subrange(0, k - 1));
            c.lemma_node_at_prefix(path.drop_first(), k - 1);
        }
    }

    /// Size of a list prefix grows by the next subtree.
    pub proof fn lemma_sizes_take(s: Seq<Widget>, k: int)
        requires
            0 <= k < s.len(),
        ensures
            Widget::sizes(s.take(k + 1)) == Widget::sizes(s.take(k)) + s[k].size(),
    {
        assert(s.take(k + 1).drop_last() =~= s.take(k));
    }

    /// A list prefix has no more nodes than the list.
    pub proof fn lemma_sizes_mono(s: Seq<Widget>, k: int)
        requires
            0 <= k <= s.len(),
        ensures
            Widget::sizes(s.take(k)) <= Widget::sizes(s),
        decreases s.len() - k,
    {
        if k == s.len() {
            assert(s.take(k) =~= s);
        } else {
            Widget::lemma_sizes_take(s, k);
            Widget::lemma_sizes_mono(s, k + 1);
        }
    }

    /// Every node of the subtree has a position below its size.
    pub proof fn lemma_pos_lt_size(self, path: Seq<usize>)
        requires
            self.node_at(path).is_some(),
        ensures
            self.pos(path) < self.size(),
        decreases path.len(),
    {
        if path.len() > 0 {
            let i = path[0] as int;
            let c = self.children@[i];
            c.lemma_pos_lt_size(path.drop_first());
            Widget::lemma_sizes_take(self.children@, i);
            Widget::lemma_sizes_mono(self.children@, i + 1);
        }
    }

    /// Following `q` and then `r` reaches the node `r` reaches from the node at `q`,
    /// at the sum of the positions.
    pub proof fn lemma_pos_concat(self, q: Seq<usize>, r: Seq<usize>)
        requires
            self.node_at(q).is_some(),
        ensures
            self.node_at(q + r) == self.node_at(q).unwrap().node_at(r),
            self.pos(q + r) == self.pos(q) + self.node_at(q).unwrap().pos(r),
        decreases q.len(),
    {
        if q.len() == 0 {
            assert(q + r =~= r);
        } else {
            let c = self.children@[q[0] as int];
            assert((q + r).drop_first() =~= q.drop_first() + r);
            assert((q + r)[0] == q[0]);
            c.lemma_pos_concat(q.drop_first(), r);
        }
    }

    /// Position of child `j` of the node at `path`.
    pub proof fn lemma_pos_child(self, path: Seq<usize>, j: usize)
        requires
            self.node_at(path).is_some(),
            j < self.node_at(path).unwrap().children@.len(),
        ensures
            self.pos(path.push(j)) == self.pos(path) + 1 + Widget::sizes(
                self.node_at(path).unwrap().children@.take(j as int),
            ),
            self.node_at(path.push(j)) == Some(self.node_at(path).unwrap().children@[j as int]),
    {
        let n = self.node_at(path).unwrap();
        assert(path.push(j) =~= path + seq![j]);
        self.lemma_pos_concat(path, seq![j]);
        assert(seq![j].drop_first() =~= Seq::<usize>::empty());
        assert(n.children@[j as int].node_at(Seq::empty()) == Some(n.children@[j as int]));
        assert(n.children@[j as int].pos(Seq::empty()) == 0);
        assert(seq![j][0] == j);
        assert(n.pos(seq![j]) == 1 + Widget::sizes(n.children@.take(j as int)));
    }

    /// A subtree's nodes occupy positions inside the enclosing tree.
    pub proof fn lemma_subtree_fits(self, x: Seq<usize>)
        requires
            self.node_at(x).is_some(),
        ensures
            self.pos(x) + self.node_at(x).unwrap().size() <= self.size(),
        decreases x.len(),
    {
        if x.len() > 0 {
            let i = x[0] as int;
            let c = self.children@[i];
            c.lemma_subtree_fits(x.drop_first());
            Widget::lemma_sizes_take(self.children@, i);
            Widget::lemma_sizes_mono(self.children@, i + 1);
        }
    }

    /// Sizes of list prefixes grow with their length.
    pub proof fn lemma_sizes_take_mono(s: Seq<Widget>, a: int, b: int)
        requires
            0 <= a <= b <= s.len(),
        ensures
            Widget::sizes(s.take(a)) <= Widget::sizes(s.take(b)),
    {
        Widget::lemma_sizes_mono(s.take(b), a);
        assert(s.take(b).take(a) =~= s.take(a));
    }

    /// A node whose position lies within the subtree at `x` is in that subtree.
    pub proof fn lemma_pos_in_subtree(self, x: Seq<usize>, q: Seq<usize>)
        requires
            self.node_at(x).is_some(),
            self.node_at(q).is_some(),
            self.pos(x) <= self.pos(q) < self.pos(x) + self.node_at(x).unwrap().size(),
        ensures
            x.len() <= q.len(),
            q.take(x.len() as int) == x,
        decreases x.len(),
    {
        if x.len() == 0 {
            assert(q.take(0) =~= x);
        } else {
            let i = x[0] as int;
            if q.len() == 0 {
                assert(false);
            }
            let j = q[0] as int;
            let ch = self.children@;
            let ci = ch[i];
            let cj = ch[j];
            ci.lemma_subtree_fits(x.drop_first());
            cj.lemma_pos_lt_size(q.drop_first());
            if j < i {
                Widget::lemma_sizes_take(ch, j);
                Widget::lemma_sizes_take_mono(ch, j + 1, i);
                assert(false);
            } else if j > i {
                Widget::lemma_sizes_take(ch, i);
                Widget::lemma_sizes_take_mono(ch, i + 1, j);
                assert(false);
            } else {
                ci.lemma_pos_in_subtree(x.drop_first(), q.drop_first());
                assert(q.take(x.len() as int) =~= seq![q[0]] + q.drop_first().take(
                    x.drop_first().len() as int,
                ));
                assert(x =~= seq![x[0]] + x.drop_first());
            }
        }
    }

    /// Distinct nodes have distinct positions.
    pub proof fn lemma_pos_injective(self, x: Seq<usize>, q: Seq<usize>)
        requires
            self.node_at(x).is_some(),
            self.node_at(q).is_some(),
            self.pos(x) == self.pos(q),
        ensures
            x == q,
    {
        self.lemma_pos_in_subtree(x, q);
        self.lemma_pos_in_subtree(q, x);
        assert(x =~= q);
    }

    /// The identifier of any node of the subtree is found in it.
    pub proof fn lemma_node_at_has_id(self, path: Seq<usize>)
        requires
            self.node_at(path).is_some(),
        ensures
            self.has_id(self.node_at(path).unwrap().id),
        decreases path.len(),
    {
        if path.len() > 0 {
            let i = path[0] as int;
            self.children@[i].lemma_node_at_has_id(path.drop_first());
        }
    }
}

} // verus!
