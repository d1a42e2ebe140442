//! The capability set of a widget: what every kind of UI element offers to
//! reconciliation, layout, hashing and dispatch.
use vstd::prelude::*;
use crate::dispatch::{
    Event, Interaction, Shell, Status, aligned, dispatched, emitted, interaction_of, status_of,
};
use crate::geometry::{Length, Limits, Node, Point};
use crate::hash::layout_key;
use crate::layout::laid_out;
use crate::tree::{State, Tree, fresh_state, is_fresh, is_reconciled};
use crate::widget::{Element, Kind};

verus! {

pub trait Widget {
    /// The kind under which this widget's state is kept.
    spec fn spec_kind(&self) -> Kind;

    /// `tree` and `node` have the shape of this widget.
    spec fn fits(&self, tree: Tree, node: Node) -> bool;

    /// The widget's width policy.
    spec fn spec_width(&self) -> Length;

    /// The widget's height policy.
    spec fn spec_height(&self) -> Length;

    /// `trees` are fresh state trees for the widget's children, in order.
    spec fn spec_children_fresh(&self, trees: Seq<Tree>) -> bool;

    /// The words of every layout-affecting property of the widget and its children.
    spec fn spec_layout_key(&self) -> Seq<u64>;

    /// `node` is the widget's layout under `limits`, placed at the origin.
    spec fn spec_laid_out(&self, limits: Limits, node: Node) -> bool;

    /// `new` is `old` reconciled against this widget.
    spec fn spec_reconciled(&self, old: Tree, new: Tree) -> bool;

    /// The cursor affordance over the widget.
    spec fn spec_interaction(&self, tree: Tree, node: Node, origin: Point, cursor: Point) -> Interaction;

    /// The status that handling `ev` returns.
    spec fn spec_status(&self, tree: Tree, node: Node, origin: Point, ev: Event, cursor: Point) -> Status;

    /// `after` is the state tree once `ev` was handled over `before`.
    spec fn spec_dispatched(
        &self,
        before: Tree,
        node: Node,
        origin: Point,
        ev: Event,
        cursor: Point,
        after: Tree,
    ) -> bool;

    /// The messages that handling `ev` publishes, in order.
    spec fn spec_emitted(&self, tree: Tree, node: Node, origin: Point, ev: Event, cursor: Point) -> Seq<u64>;

    /// A stable identifier of the widget's kind, used only to decide whether
    /// persisted state can be reused.
    fn tag(&self) -> (r: Kind)
        ensures
            r == self.spec_kind(),
    ;

    /// The widget's fresh state.
    fn state(&self) -> (r: State)
        ensures
            r == fresh_state(self.spec_kind()),
    ;

    /// Fresh state trees for the widget's children.
    fn children_state(&self) -> (r: Vec<Tree>)
        ensures
            self.spec_children_fresh(r@),
    ;

    fn width(&self) -> (r: Length)
        ensures
            r == self.spec_width(),
    ;

    fn height(&self) -> (r: Length)
        ensures
            r == self.spec_height(),
    ;

    /// Appends every layout-affecting property of the widget and its
    /// children to `key`.
    fn hash_layout(&self, key: &mut Vec<u64>)
        ensures
            final(key)@ == old(key)@ + self.spec_layout_key(),
    ;

    fn layout(&self, limits: &Limits) -> (r: Node)
        requires
            limits.wf(),
        ensures
            self.spec_laid_out(*limits, r),
    ;

    /// Adapts a persisted state tree to this widget.
    fn diff(&self, tree: &mut Tree)
        ensures
            self.spec_reconciled(*old(tree), *final(tree)),
    ;

    /// The cursor affordance over the widget.
    fn mouse_interaction(&self, tree: &Tree, node: &Node, origin: Point, cursor: Point) -> (r:
        Interaction)
        requires
            self.fits(*tree, *node),
        ensures
            r == self.spec_interaction(*tree, *node, origin, cursor),
    ;

    /// Handles an event; a captured event requests a redraw.
    fn on_event(
        &self,
        tree: &mut Tree,
        event: Event,
        node: &Node,
        origin: Point,
        cursor: Point,
        shell: &mut Shell,
    ) -> (r: Status)
        requires
            self.fits(*old(tree), *node),
        ensures
            r == self.spec_status(*old(tree), *node, origin, event, cursor),
            self.spec_dispatched(*old(tree), *node, origin, event, cursor, *final(tree)),
            final(shell).messages@ == old(shell).messages@ + self.spec_emitted(
                *old(tree),
                *node,
                origin,
                event,
                cursor,
            ),
            final(shell).redraw_requested == (old(shell).redraw_requested || r == Status::Captured),
            final(shell).layout_invalidated == old(shell).layout_invalidated,
    ;
}

impl Widget for Element {
    open spec fn spec_kind(&self) -> Kind {
        self.kind
    }

    open spec fn fits(&self, tree: Tree, node: Node) -> bool {
        aligned(*self, tree, node)
    }

    open spec fn spec_width(&self) -> Length {
        self.width
    }

    open spec fn spec_height(&self) -> Length {
        self.height
    }

    open spec fn spec_children_fresh(&self, trees: Seq<Tree>) -> bool {
        &&& trees.len() == self.children@.len()
        &&& forall|i: int| 0 <= i < trees.len() ==> #[trigger] is_fresh(trees[i], self.children@[i])
    }

    open spec fn spec_layout_key(&self) -> Seq<u64> {
        layout_key(*self)
    }

    open spec fn spec_laid_out(&self, limits: Limits, node: Node) -> bool {
        laid_out(*self, limits, node) && node.position == (Point { x: 0, y: 0 })
    }

    open spec fn spec_reconciled(&self, old: Tree, new: Tree) -> bool {
        is_reconciled(old, *self, new)
    }

    open spec fn spec_interaction(&self, tree: Tree, node: Node, origin: Point, cursor: Point) -> Interaction {
        interaction_of(*self, tree, node, origin, cursor)
    }

    open spec fn spec_status(&self, tree: Tree, node: Node, origin: Point, ev: Event, cursor: Point) -> Status {
        status_of(*self, tree, node, origin, ev, cursor)
    }

    open spec fn spec_dispatched(
        &self,
        before: Tree,
        node: Node,
        origin: Point,
        ev: Event,
        cursor: Point,
        after: Tree,
    ) -> bool {
        dispatched(*self, before, node, origin, ev, cursor, after)
    }

    open spec fn spec_emitted(&self, tree: Tree, node: Node, origin: Point, ev: Event, cursor: Point) -> Seq<u64> {
        emitted(*self, tree, node, origin, ev, cursor)
    }

    fn tag(&self) -> (r: Kind) {
        Element::tag(self)
    }

    fn state(&self) -> (r: State) {
        Element::state(self)
    }

    fn children_state(&self) -> (r: Vec<Tree>) {
        Element::children_state(self)
    }

    fn width(&self) -> (r: Length) {
        self.width
    }

    fn height(&self) -> (r: Length) {
        self.height
    }

    fn hash_layout(&self, key: &mut Vec<u64>) {
        Element::hash_layout(self, key);
    }

    fn layout(&self, limits: &Limits) -> (r: Node) {
        Element::layout(self, limits)
    }

    fn diff(&self, tree: &mut Tree) {
        tree.diff(self);
    }

    fn mouse_interaction(&self, tree: &Tree, node: &Node, origin: Point, cursor: Point) -> (r:
        Interaction) {
        Element::mouse_interaction(self, tree, node, origin, cursor)
    }

    fn on_event(
        &self,
        tree: &mut Tree,
        event: Event,
        node: &Node,
        origin: Point,
        cursor: Point,
        shell: &mut Shell,
    ) -> (r: Status) {
        Element::on_event(self, tree, event, node, origin, cursor, shell)
    }
}

} // verus!
