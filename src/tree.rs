//! The persisted state tree and its reconciliation against a newly built
//! widget description.
//!
//! Reconciliation is positional: the state at index `i` is offered to
//! whatever widget stands at index `i` in the new description. Reordering
//! children therefore moves state onto whichever widget ends up at a given
//! index, and a widget of another kind at that index gets fresh state.
use vstd::prelude::*;
use crate::widget::{Element, Kind};

verus! {

broadcast use vstd::std_specs::vec::group_vec_axioms;

/// The mutable data that a widget of a given kind keeps across frames.
#[derive(Clone, Copy, Debug, PartialEq, Eq, Structural)]
pub enum State {
    /// Kinds that keep nothing.
    Empty,
    Button { is_pressed: bool },
    Checkbox { is_pressed: bool },
    Scrollable { offset: u32 },
    TextInput { is_focused: bool, cursor: u32 },
    Slider { is_dragging: bool },
}

/// The state that a widget of kind `k` starts with.
pub open spec fn fresh_state(k: Kind) -> State {
    match k {
        Kind::Button => State::Button { is_pressed: false },
        Kind::Checkbox => State::Checkbox { is_pressed: false },
        Kind::Scrollable => State::Scrollable { offset: 0 },
        Kind::TextInput => State::TextInput { is_focused: false, cursor: 0 },
        Kind::Slider => State::Slider { is_dragging: false },
        _ => State::Empty,
    }
}

/// Whether `s` is a state of the shape that kind `k` keeps.
pub open spec fn state_fits(k: Kind, s: State) -> bool {
    match k {
        Kind::Button => s is Button,
        Kind::Checkbox => s is Checkbox,
        Kind::Scrollable => s is Scrollable,
        Kind::TextInput => s is TextInput,
        Kind::Slider => s is Slider,
        _ => s is Empty,
    }
}

/// The persisted counterpart of one widget: the kind that produced it, its
/// state, and the nodes of its children in order.
#[derive(Debug)]
pub struct Tree {
    pub tag: Kind,
    pub state: State,
    pub children: Vec<Tree>,
}

/// `t` is the state tree that a first build of `e` gives.
pub open spec fn is_fresh(t: Tree, e: Element) -> bool
    decreases e,
{
    &&& t.tag == e.kind
    &&& t.state == fresh_state(e.kind)
    &&& t.children@.len() == e.children@.len()
    &&& forall|i: int|
        0 <= i < e.children@.len() ==> is_fresh(#[trigger] t.children@[i], e.children@[i])
}

/// `new` is what reconciling `old` against `e` gives: on a kind mismatch a
/// fresh tree; otherwise the same state, each child reconciled with the
/// child at its index, fresh trees for added children, surplus ones dropped.
pub open spec fn is_reconciled(old: Tree, e: Element, new: Tree) -> bool
    decreases e,
{
    if old.tag != e.kind {
        is_fresh(new, e)
    } else {
        &&& new.tag == old.tag
        &&& new.state == old.state
        &&& new.children@.len() == e.children@.len()
        &&& forall|i: int|
            0 <= i < e.children@.len() ==> if i < old.children@.len() {
                is_reconciled(old.children@[i], e.children@[i], #[trigger] new.children@[i])
            } else {
                is_fresh(new.children@[i], e.children@[i])
            }
    }
}

/// Every node of `t` holds a state of the shape its tag calls for.
pub open spec fn tree_wf(t: Tree) -> bool
    decreases t,
{
    &&& state_fits(t.tag, t.state)
    &&& forall|i: int| 0 <= i < t.children@.len() ==> tree_wf(#[trigger] t.children@[i])
}

/// `t` has the kinds and the child counts of `e`, at every depth.
pub open spec fn same_shape(t: Tree, e: Element) -> bool
    decreases e,
{
    &&& t.tag == e.kind
    &&& t.children@.len() == e.children@.len()
    &&& forall|i: int|
        0 <= i < e.children@.len() ==> same_shape(#[trigger] t.children@[i], e.children@[i])
}

/// `new` holds, at every depth, the tags and states of `old`: no node was reset.
pub open spec fn keeps_states(old: Tree, new: Tree) -> bool
    decreases old,
{
    &&& new.tag == old.tag
    &&& new.state == old.state
    &&& new.children@.len() == old.children@.len()
    &&& forall|i: int|
        0 <= i < old.children@.len() ==> keeps_states(old.children@[i], #[trigger] new.children@[i])
}

/// A widget's kind is its tag, whatever its content: two widgets of one kind
/// carry the same tag, and reconciling a node against a widget of the kind
/// that produced it keeps the node's state.
pub proof fn lemma_same_kind_keeps_state(old: Tree, e1: Element, e2: Element, new: Tree)
    requires
        e1.kind == e2.kind,
        old.tag == e1.kind,
        is_reconciled(old, e2, new),
    ensures
        new.tag == old.tag,
        new.state == old.state,
{
}

/// Reconciling a node against a widget of another kind gives the fresh state
/// of the new kind, with nothing of the old state left.
pub proof fn lemma_kind_change_resets(old: Tree, e: Element, new: Tree)
    requires
        old.tag != e.kind,
        is_reconciled(old, e, new),
    ensures
        new.tag == e.kind,
        new.state == fresh_state(e.kind),
        is_fresh(new, e),
{
}

/// Reconciliation goes by position: when the first of two children is removed,
/// the remaining widget is offered the state at index 0, and where its kind
/// differs from that state's kind it gets a fresh tree.
pub proof fn lemma_positional_shift(old: Tree, e: Element, new: Tree)
    requires
        old.tag == e.kind,
        old.children@.len() == 2,
        e.children@.len() == 1,
        old.children@[0].tag != e.children@[0].kind,
        is_reconciled(old, e, new),
    ensures
        new.children@.len() == 1,
        is_fresh(new.children@[0], e.children@[0]),
        new.children@[0].state == fresh_state(e.children@[0].kind),
{
    assert(is_reconciled(old.children@[0], e.children@[0], new.children@[0]));
}

/// A fresh tree of `e` has the shape of `e`.
pub proof fn lemma_fresh_has_shape(t: Tree, e: Element)
    requires
        is_fresh(t, e),
    ensures
        same_shape(t, e),
    decreases e,
{
    assert forall|i: int| 0 <= i < e.children@.len() implies same_shape(
        #[trigger] t.children@[i],
        e.children@[i],
    ) by {
        assert(is_fresh(t.children@[i], e.children@[i]));
        lemma_fresh_has_shape(t.children@[i], e.children@[i]);
    }
}

/// Reconciling a tree against a widget of the same shape resets no node.
pub proof fn lemma_same_shape_no_reset(old: Tree, e: Element, new: Tree)
    requires
        same_shape(old, e),
        is_reconciled(old, e, new),
    ensures
        keeps_states(old, new),
    decreases e,
{
    assert forall|i: int| 0 <= i < old.children@.len() implies keeps_states(
        old.children@[i],
        #[trigger] new.children@[i],
    ) by {
        assert(same_shape(old.children@[i], e.children@[i]));
        assert(is_reconciled(old.children@[i], e.children@[i], new.children@[i]));
        lemma_same_shape_no_reset(old.children@[i], e.children@[i], new.children@[i]);
    }
}

/// A tree built fresh for `e` and reconciled against the same description
/// on the next frame keeps every node's state.
pub proof fn lemma_rebuild_no_reset(e: Element, first: Tree, second: Tree)
    requires
        is_fresh(first, e),
        is_reconciled(first, e, second),
    ensures
        keeps_states(first, second),
{
    lemma_fresh_has_shape(first, e);
    lemma_same_shape_no_reset(first, e, second);
}

/// A fresh tree is well formed.
pub proof fn lemma_fresh_wf(t: Tree, e: Element)
    requires
        is_fresh(t, e),
    ensures
        tree_wf(t),
    decreases e,
{
    assert forall|i: int| 0 <= i < t.children@.len() implies tree_wf(#[trigger] t.children@[i]) by {
        lemma_fresh_wf(t.children@[i], e.children@[i]);
    }
}

/// Reconciliation keeps a tree well formed: no state is ever kept under a
/// tag of another kind.
pub proof fn lemma_reconcile_wf(old: Tree, e: Element, new: Tree)
    requires
        is_reconciled(old, e, new),
    ensures
        tree_wf(old) ==> tree_wf(new),
    decreases e,
{
    if !tree_wf(old) {
    } else if old.tag != e.kind {
        lemma_fresh_wf(new, e);
    } else {
        assert forall|i: int| 0 <= i < new.children@.len() implies tree_wf(
            #[trigger] new.children@[i],
        ) by {
            if i < old.children@.len() {
                assert(tree_wf(old.children@[i]));
                lemma_reconcile_wf(old.children@[i], e.children@[i], new.children@[i]);
            } else {
                lemma_fresh_wf(new.children@[i], e.children@[i]);
            }
        }
    }
}

impl Element {
    /// The tag of this widget's kind.
    pub fn tag(&self) -> (r: Kind)
        ensures
            r == self.kind,
    {
        self.kind
    }

    /// This widget's fresh state.
    pub fn state(&self) -> (r: State)
        ensures
            r == fresh_state(self.kind),
    {
        match self.kind {
            Kind::Button => State::Button { is_pressed: false },
            Kind::Checkbox => State::Checkbox { is_pressed: false },
            Kind::Scrollable => State::Scrollable { offset: 0 },
            Kind::TextInput => State::TextInput { is_focused: false, cursor: 0 },
            Kind::Slider => State::Slider { is_dragging: false },
            _ => State::Empty,
        }
    }

    /// Fresh state trees for each child, in order.
    pub fn children_state(&self) -> (r: Vec<Tree>)
        ensures
            r@.len() == self.children@.len(),
            forall|i: int| 0 <= i < r@.len() ==> #[trigger] is_fresh(r@[i], self.children@[i]),
        decreases self, 0nat,
    {
        let mut out: Vec<Tree> = Vec::new();
        let mut i: usize = 0;
        while i < self.children.len()
            invariant
                i <= self.children@.len(),
                out@.len() == i,
                forall|j: int| 0 <= j < i ==> #[trigger] is_fresh(out@[j], self.children@[j]),
            decreases self.children@.len() - i,
        {
            let t = Tree::new(&self.children[i]);
            out.push(t);
            i = i + 1;
        }
        out
    }
}

impl Tree {
    /// The state tree of a first build of `e`.
    pub fn new(e: &Element) -> (r: Tree)
        ensures
            is_fresh(r, *e),
            tree_wf(r),
        decreases *e, 1nat,
    {
        let children = e.children_state();
        let r = Tree { tag: e.tag(), state: e.state(), children };
        assert(forall|i: int| 0 <= i < e.children@.len() ==> is_fresh(r.children@[i], e.children@[i]));
        proof {
            lemma_fresh_wf(r, *e);
        }
        r
    }

    /// Reconciles this tree against the newly built `e`, in place.
    pub fn diff(&mut self, e: &Element)
        ensures
            is_reconciled(*old(self), *e, *final(self)),
            tree_wf(*old(self)) ==> tree_wf(*final(self)),
        decreases *e,
    {
        if self.tag != e.kind {
            *self = Tree::new(e);
            return;
        }
        let ghost before = *self;
        let n = e.children.len();
        if self.children.len() > n {
            self.children.truncate(n);
        }
        let kept = self.children.len();
        let mut i: usize = 0;
        while i < kept
            invariant
                kept <= n == e.children@.len(),
                kept <= before.children@.len(),
                self.children@.len() == kept,
                self.tag == before.tag && self.state == before.state && self.tag == e.kind,
                i <= kept,
                forall|j: int|
                    0 <= j < i ==> #[trigger] is_reconciled(
                        before.children@[j],
                        e.children@[j],
                        self.children@[j],
                    ),
                forall|j: int| i <= j < kept ==> self.children@[j] == before.children@[j],
            decreases kept - i,
        {
            self.children[i].diff(&e.children[i]);
            i = i + 1;
        }
        while i < n
            invariant
                kept <= i <= n == e.children@.len(),
                kept <= before.children@.len(),
                kept == before.children@.len() || kept == n,
                self.children@.len() == i,
                self.tag == before.tag && self.state == before.state && self.tag == e.kind,
                forall|j: int|
                    0 <= j < kept ==> #[trigger] is_reconciled(
                        before.children@[j],
                        e.children@[j],
                        self.children@[j],
                    ),
                forall|j: int| kept <= j < i ==> #[trigger] is_fresh(self.children@[j], e.children@[j]),
            decreases n - i,
        {
            let t = Tree::new(&e.children[i]);
            self.children.push(t);
            i = i + 1;
        }
        assert(forall|j: int|
            0 <= j < n ==> if j < before.children@.len() {
                is_reconciled(before.children@[j], e.children@[j], self.children@[j])
            } else {
                is_fresh(self.children@[j], e.children@[j])
            });
        proof {
            lemma_reconcile_wf(before, *e, *self);
        }
    }
}

} // verus!
