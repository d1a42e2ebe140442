//! Event dispatch and mouse-interaction resolution over a widget
//! description, its state tree and its layout.
//!
//! A widget first offers an event to its children, in their order; the first
//! child that captures it ends the delivery, and the children after it never
//! see the event. When every child ignores it, the widget reacts itself.
use vstd::prelude::*;
use crate::geometry::{Node, Point, Rectangle, sat_add, add_saturating};
use crate::tree::{State, Tree, state_fits, tree_wf};
use crate::widget::{Element, Kind};

verus! {

broadcast use vstd::std_specs::vec::group_vec_axioms;

/// An input event.
#[derive(Clone, Copy, Debug, PartialEq, Eq, Structural)]
pub enum Event {
    /// The pointer's button went down.
    ButtonPressed,
    /// The pointer's button went up.
    ButtonReleased,
    /// The wheel turned by this many lines; positive moves the content up
    /// (the view further down), negative back.
    WheelScrolled(i32),
    /// A key with this code was pressed.
    KeyPressed(u32),
}

/// Whether an event was consumed.
#[derive(Clone, Copy, Debug, PartialEq, Eq, Structural)]
pub enum Status {
    Ignored,
    Captured,
}

/// The cursor affordance over a region.
#[derive(Clone, Copy, Debug, PartialEq, Eq, Structural)]
pub enum Interaction {
    Idle,
    Pointer,
    Text,
    Grab,
}

/// The outbound channel of one dispatch: the messages published, in order,
/// and two sticky flags.
#[derive(Debug)]
pub struct Shell {
    pub messages: Vec<u64>,
    pub redraw_requested: bool,
    pub layout_invalidated: bool,
}

impl Shell {
    pub fn new() -> (r: Shell)
        ensures
            r.messages@ == Seq::<u64>::empty(),
            !r.redraw_requested,
            !r.layout_invalidated,
    {
        Shell { messages: Vec::new(), redraw_requested: false, layout_invalidated: false }
    }

    /// Queues a message after those already published.
    pub fn publish(&mut self, message: u64)
        ensures
            final(self).messages@ == old(self).messages@.push(message),
            final(self).redraw_requested == old(self).redraw_requested,
            final(self).layout_invalidated == old(self).layout_invalidated,
    {
        self.messages.push(message);
    }

    pub fn request_redraw(&mut self)
        ensures
            final(self).messages@ == old(self).messages@,
            final(self).redraw_requested,
            final(self).layout_invalidated == old(self).layout_invalidated,
    {
        self.redraw_requested = true;
    }

    pub fn invalidate_layout(&mut self)
        ensures
            final(self).messages@ == old(self).messages@,
            final(self).redraw_requested == old(self).redraw_requested,
            final(self).layout_invalidated,
    {
        self.layout_invalidated = true;
    }
}

/// The description, its state tree and its layout have the same shape, and
/// every state node carries the tag of the widget at its place and a state
/// of the shape that tag calls for.
pub open spec fn aligned(e: Element, t: Tree, n: Node) -> bool
    decreases e,
{
    &&& t.tag == e.kind
    &&& state_fits(e.kind, t.state)
    &&& t.children@.len() == e.children@.len()
    &&& n.children@.len() == e.children@.len()
    &&& forall|i: int|
        0 <= i < e.children@.len() ==> aligned(
            #[trigger] e.children@[i],
            t.children@[i],
            n.children@[i],
        )
}

/// The origin that a node hands on to its children.
pub open spec fn inner_origin(n: Node, origin: Point) -> Point {
    let b = n.spec_bounds(origin);
    Point { x: b.x, y: b.y }
}

/// A scroll offset moved by `d`, held within `[0, u32::MAX]`.
pub open spec fn scroll_by(offset: u32, d: i32) -> u32 {
    let v = offset as int + d as int;
    if v < 0 {
        0
    } else if v > u32::MAX as int {
        u32::MAX
    } else {
        v as u32
    }
}

fn scroll_exec(offset: u32, d: i32) -> (r: u32)
    ensures
        r == scroll_by(offset, d),
{
    let v: i64 = offset as i64 + d as i64;
    if v < 0 {
        0
    } else if v > u32::MAX as i64 {
        u32::MAX
    } else {
        v as u32
    }
}

/// Whether the event concerns only the widget under the pointer.
pub open spec fn is_positional(ev: Event) -> bool {
    ev is ButtonPressed || ev is WheelScrolled
}

/// Whether child `i` of a widget is handed `ev`: always for an event that is
/// not positional, otherwise only with the pointer inside the child.
pub open spec fn receives(n: Node, origin: Point, i: int, ev: Event, cursor: Point) -> bool {
    !is_positional(ev) || n.children@[i].spec_bounds(inner_origin(n, origin)).spec_contains(cursor)
}

/// What a widget does with an event that its children left alone: its new
/// state, whether it captured the event, and the messages it publishes.
///
/// A button or checkbox is pressed by a press inside it and released by any
/// release, publishing its message when the release is inside; a scrollable
/// scrolls under the wheel; a text input takes focus on a press inside and
/// then moves its cursor one place per key; a slider drags from a press
/// inside until a release.
pub open spec fn own_reaction(e: Element, s: State, b: Rectangle, ev: Event, cursor: Point) -> (
    State,
    Status,
    Seq<u64>,
) {
    let inside = b.spec_contains(cursor);
    let release_msgs = if inside && e.on_press.is_some() {
        seq![e.on_press.unwrap()]
    } else {
        Seq::<u64>::empty()
    };
    match (s, ev) {
        (State::Button { .. }, Event::ButtonPressed) if inside => (
            State::Button { is_pressed: true },
            Status::Captured,
            Seq::empty(),
        ),
        (State::Button { is_pressed: true }, Event::ButtonReleased) => (
            State::Button { is_pressed: false },
            Status::Captured,
            release_msgs,
        ),
        (State::Checkbox { .. }, Event::ButtonPressed) if inside => (
            State::Checkbox { is_pressed: true },
            Status::Captured,
            Seq::empty(),
        ),
        (State::Checkbox { is_pressed: true }, Event::ButtonReleased) => (
            State::Checkbox { is_pressed: false },
            Status::Captured,
            release_msgs,
        ),
        (State::Scrollable { offset }, Event::WheelScrolled(d)) if inside => (
            State::Scrollable { offset: scroll_by(offset, d) },
            Status::Captured,
            Seq::empty(),
        ),
        (State::TextInput { cursor: c, .. }, Event::ButtonPressed) if inside => (
            State::TextInput { is_focused: true, cursor: c },
            Status::Captured,
            Seq::empty(),
        ),
        (State::TextInput { is_focused: true, cursor: c }, Event::KeyPressed(_)) => (
            State::TextInput { is_focused: true, cursor: sat_add(c, 1) },
            Status::Captured,
            Seq::empty(),
        ),
        (State::Slider { .. }, Event::ButtonPressed) if inside => (
            State::Slider { is_dragging: true },
            Status::Captured,
            Seq::empty(),
        ),
        (State::Slider { is_dragging: true }, Event::ButtonReleased) => (
            State::Slider { is_dragging: false },
            Status::Captured,
            Seq::empty(),
        ),
        _ => (s, Status::Ignored, Seq::empty()),
    }
}

/// The status that dispatching `ev` over `e` returns.
pub open spec fn status_of(e: Element, t: Tree, n: Node, origin: Point, ev: Event, cursor: Point) -> Status
    decreases e, e.children@.len() + 1,
{
    let k = capture_from(e, t, n, origin, ev, cursor, 0);
    if k < e.children@.len() {
        Status::Captured
    } else {
        own_reaction(e, t.state, n.spec_bounds(origin), ev, cursor).1
    }
}

/// The index of the first child at or after `k` that captures `ev`, or the
/// number of children where none does.
pub open spec fn capture_from(
    e: Element,
    t: Tree,
    n: Node,
    origin: Point,
    ev: Event,
    cursor: Point,
    k: int,
) -> int
    decreases e, e.children@.len() - k,
{
    if k < 0 || k >= e.children@.len() {
        e.children@.len() as int
    } else if receives(n, origin, k, ev, cursor) && status_of(
        e.children@[k],
        t.children@[k],
        n.children@[k],
        inner_origin(n, origin),
        ev,
        cursor,
    ) == Status::Captured {
        k
    } else {
        capture_from(e, t, n, origin, ev, cursor, k + 1)
    }
}

/// The index of the child that captures `ev`, or the number of children.
pub open spec fn first_capture(e: Element, t: Tree, n: Node, origin: Point, ev: Event, cursor: Point) -> int {
    capture_from(e, t, n, origin, ev, cursor, 0)
}

/// The messages that dispatching `ev` over `e` publishes, in order.
pub open spec fn emitted(e: Element, t: Tree, n: Node, origin: Point, ev: Event, cursor: Point) -> Seq<u64>
    decreases e, e.children@.len() + 1,
{
    let k = first_capture(e, t, n, origin, ev, cursor);
    if 0 <= k < e.children@.len() {
        emitted_upto(e, t, n, origin, ev, cursor, k + 1)
    } else {
        emitted_upto(e, t, n, origin, ev, cursor, e.children@.len() as int) + own_reaction(
            e,
            t.state,
            n.spec_bounds(origin),
            ev,
            cursor,
        ).2
    }
}

/// The messages that the first `k` children publish, in order.
pub open spec fn emitted_upto(
    e: Element,
    t: Tree,
    n: Node,
    origin: Point,
    ev: Event,
    cursor: Point,
    k: int,
) -> Seq<u64>
    decreases e, k,
{
    if k <= 0 || k > e.children@.len() {
        Seq::empty()
    } else {
        emitted_upto(e, t, n, origin, ev, cursor, k - 1) + if receives(
            n,
            origin,
            k - 1,
            ev,
            cursor,
        ) {
            emitted(
                e.children@[k - 1],
                t.children@[k - 1],
                n.children@[k - 1],
                inner_origin(n, origin),
                ev,
                cursor,
            )
        } else {
            Seq::empty()
        }
    }
}

/// `after` is the state tree once `ev` was dispatched over `e` and `before`:
/// the children up to the capturing one that were handed the event took it,
/// all others are untouched, and the widget's own state changed only if no
/// child captured.
pub open spec fn dispatched(
    e: Element,
    before: Tree,
    n: Node,
    origin: Point,
    ev: Event,
    cursor: Point,
    after: Tree,
) -> bool
    decreases e,
{
    let k = first_capture(e, before, n, origin, ev, cursor);
    &&& after.tag == before.tag
    &&& after.children@.len() == before.children@.len()
    &&& after.state == if k < e.children@.len() {
        before.state
    } else {
        own_reaction(e, before.state, n.spec_bounds(origin), ev, cursor).0
    }
    &&& forall|i: int|
        0 <= i < e.children@.len() ==> if i <= k && receives(n, origin, i, ev, cursor) {
            dispatched(
                e.children@[i],
                before.children@[i],
                n.children@[i],
                inner_origin(n, origin),
                ev,
                cursor,
                #[trigger] after.children@[i],
            )
        } else {
            after.children@[i] == before.children@[i]
        }
}

/// The messages of an optional message, as a sequence.
pub open spec fn opt_seq(m: Option<u64>) -> Seq<u64> {
    match m {
        Some(v) => seq![v],
        None => Seq::empty(),
    }
}

fn react(e: &Element, s: State, b: Rectangle, ev: Event, cursor: Point) -> (r: (
    State,
    Status,
    Option<u64>,
))
    ensures
        r.0 == own_reaction(*e, s, b, ev, cursor).0,
        r.1 == own_reaction(*e, s, b, ev, cursor).1,
        opt_seq(r.2) == own_reaction(*e, s, b, ev, cursor).2,
{
    let inside = b.contains(cursor);
    let on_release = if inside {
        e.on_press
    } else {
        None
    };
    match (s, ev) {
        (State::Button { .. }, Event::ButtonPressed) if inside => (
            State::Button { is_pressed: true },
            Status::Captured,
            None,
        ),
        (State::Button { is_pressed: true }, Event::ButtonReleased) => (
            State::Button { is_pressed: false },
            Status::Captured,
            on_release,
        ),
        (State::Checkbox { .. }, Event::ButtonPressed) if inside => (
            State::Checkbox { is_pressed: true },
            Status::Captured,
            None,
        ),
        (State::Checkbox { is_pressed: true }, Event::ButtonReleased) => (
            State::Checkbox { is_pressed: false },
            Status::Captured,
            on_release,
        ),
        (State::Scrollable { offset }, Event::WheelScrolled(d)) if inside => (
            State::Scrollable { offset: scroll_exec(offset, d) },
            Status::Captured,
            None,
        ),
        (State::TextInput { cursor: c, .. }, Event::ButtonPressed) if inside => (
            State::TextInput { is_focused: true, cursor: c },
            Status::Captured,
            None,
        ),
        (State::TextInput { is_focused: true, cursor: c }, Event::KeyPressed(_)) => (
            State::TextInput { is_focused: true, cursor: add_saturating(c, 1) },
            Status::Captured,
            None,
        ),
        (State::Slider { .. }, Event::ButtonPressed) if inside => (
            State::Slider { is_dragging: true },
            Status::Captured,
            None,
        ),
        (State::Slider { is_dragging: true }, Event::ButtonReleased) => (
            State::Slider { is_dragging: false },
            Status::Captured,
            None,
        ),
        _ => (s, Status::Ignored, None),
    }
}

/// The first capturing child at or after `k` stands in `[k, len]`.
pub proof fn lemma_capture_from_range(
    e: Element,
    t: Tree,
    n: Node,
    origin: Point,
    ev: Event,
    cursor: Point,
    k: int,
)
    requires
        0 <= k <= e.children@.len(),
    ensures
        k <= capture_from(e, t, n, origin, ev, cursor, k) <= e.children@.len(),
        forall|j: int|
            k <= j < capture_from(e, t, n, origin, ev, cursor, k) ==> !(receives(
                n,
                origin,
                j,
                ev,
                cursor,
            ) && status_of(
                #[trigger] e.children@[j],
                t.children@[j],
                n.children@[j],
                inner_origin(n, origin),
                ev,
                cursor,
            ) == Status::Captured),
        capture_from(e, t, n, origin, ev, cursor, k) < e.children@.len() ==> receives(
            n,
            origin,
            capture_from(e, t, n, origin, ev, cursor, k),
            ev,
            cursor,
        ) && status_of(
            e.children@[capture_from(e, t, n, origin, ev, cursor, k)],
            t.children@[capture_from(e, t, n, origin, ev, cursor, k)],
            n.children@[capture_from(e, t, n, origin, ev, cursor, k)],
            inner_origin(n, origin),
            ev,
            cursor,
        ) == Status::Captured,
    decreases e.children@.len() - k,
{
    if k < e.children@.len() {
        lemma_capture_from_range(e, t, n, origin, ev, cursor, k + 1);
    }
}

/// When the first of two children captures an event, the container captures
/// it too, the second child's state is left as it was, and only what the
/// first child published is published.
pub proof fn lemma_capture_short_circuits(
    e: Element,
    before: Tree,
    n: Node,
    origin: Point,
    ev: Event,
    cursor: Point,
    after: Tree,
)
    requires
        e.children@.len() == 2,
        receives(n, origin, 0, ev, cursor),
        status_of(
            e.children@[0],
            before.children@[0],
            n.children@[0],
            inner_origin(n, origin),
            ev,
            cursor,
        ) == Status::Captured,
        dispatched(e, before, n, origin, ev, cursor, after),
    ensures
        status_of(e, before, n, origin, ev, cursor) == Status::Captured,
        after.children@[1] == before.children@[1],
        after.state == before.state,
        emitted(e, before, n, origin, ev, cursor) == emitted(
            e.children@[0],
            before.children@[0],
            n.children@[0],
            inner_origin(n, origin),
            ev,
            cursor,
        ),
{
    assert(first_capture(e, before, n, origin, ev, cursor) == 0);
    assert(emitted_upto(e, before, n, origin, ev, cursor, 0) == Seq::<u64>::empty());
    assert(emitted_upto(e, before, n, origin, ev, cursor, 1) =~= emitted(
        e.children@[0],
        before.children@[0],
        n.children@[0],
        inner_origin(n, origin),
        ev,
        cursor,
    ));
}

/// A widget's own reaction keeps the shape of its state.
pub proof fn lemma_reaction_fits(e: Element, k: Kind, s: State, b: Rectangle, ev: Event, cursor: Point)
    requires
        state_fits(k, s),
    ensures
        state_fits(k, own_reaction(e, s, b, ev, cursor).0),
{
}

/// Dispatch keeps a state tree well formed.
pub proof fn lemma_dispatch_wf(
    e: Element,
    before: Tree,
    n: Node,
    origin: Point,
    ev: Event,
    cursor: Point,
    after: Tree,
)
    requires
        aligned(e, before, n),
        dispatched(e, before, n, origin, ev, cursor, after),
    ensures
        tree_wf(before) ==> tree_wf(after),
    decreases e,
{
    if tree_wf(before) {
        lemma_reaction_fits(e, before.tag, before.state, n.spec_bounds(origin), ev, cursor);
        let k = first_capture(e, before, n, origin, ev, cursor);
        assert forall|i: int| 0 <= i < after.children@.len() implies tree_wf(
            #[trigger] after.children@[i],
        ) by {
            assert(tree_wf(before.children@[i]));
            assert(aligned(e.children@[i], before.children@[i], n.children@[i]));
            if i <= k && receives(n, origin, i, ev, cursor) {
                lemma_dispatch_wf(
                    e.children@[i],
                    before.children@[i],
                    n.children@[i],
                    inner_origin(n, origin),
                    ev,
                    cursor,
                    after.children@[i],
                );
            }
        }
    }
}

/// A pointer event is never handed to a child that the pointer is not over:
/// that child's state tree comes out as it went in.
pub proof fn lemma_outside_child_untouched(
    e: Element,
    before: Tree,
    n: Node,
    origin: Point,
    ev: Event,
    cursor: Point,
    after: Tree,
    i: int,
)
    requires
        0 <= i < e.children@.len(),
        is_positional(ev),
        !n.children@[i].spec_bounds(inner_origin(n, origin)).spec_contains(cursor),
        dispatched(e, before, n, origin, ev, cursor, after),
    ensures
        after.children@[i] == before.children@[i],
{
    assert(!receives(n, origin, i, ev, cursor));
}

/// The cursor affordance that a widget shows by itself.
pub open spec fn own_interaction(e: Element, b: Rectangle, cursor: Point) -> Interaction {
    if !b.spec_contains(cursor) {
        Interaction::Idle
    } else {
        match e.kind {
            Kind::Button | Kind::Checkbox => Interaction::Pointer,
            Kind::TextInput => Interaction::Text,
            Kind::Slider => Interaction::Grab,
            _ => Interaction::Idle,
        }
    }
}

/// The cursor affordance over `e`: the last child (the one drawn on top)
/// that asks for one wins; where none does, the widget's own.
/// Children are asked wherever their own bounds lie, so a pointer outside
/// the widget gives `Idle` only where its children lie inside it.
pub open spec fn interaction_of(e: Element, t: Tree, n: Node, origin: Point, cursor: Point) -> Interaction
    decreases e, e.children@.len() + 1,
{
    interaction_below(e, t, n, origin, cursor, e.children@.len() as int)
}

/// The affordance that the first `k` children give, the later ones first,
/// falling back on the widget's own.
pub open spec fn interaction_below(
    e: Element,
    t: Tree,
    n: Node,
    origin: Point,
    cursor: Point,
    k: int,
) -> Interaction
    decreases e, k,
{
    if k <= 0 || k > e.children@.len() {
        own_interaction(e, n.spec_bounds(origin), cursor)
    } else {
        let c = interaction_of(
            e.children@[k - 1],
            t.children@[k - 1],
            n.children@[k - 1],
            inner_origin(n, origin),
            cursor,
        );
        if c != Interaction::Idle {
            c
        } else {
            interaction_below(e, t, n, origin, cursor, k - 1)
        }
    }
}

fn own_interaction_exec(e: &Element, b: Rectangle, cursor: Point) -> (r: Interaction)
    ensures
        r == own_interaction(*e, b, cursor),
{
    if !b.contains(cursor) {
        Interaction::Idle
    } else {
        match e.kind {
            Kind::Button | Kind::Checkbox => Interaction::Pointer,
            Kind::TextInput => Interaction::Text,
            Kind::Slider => Interaction::Grab,
            _ => Interaction::Idle,
        }
    }
}

fn fits_state(k: Kind, s: State) -> (r: bool)
    ensures
        r == state_fits(k, s),
{
    match k {
        Kind::Button => matches!(s, State::Button { .. }),
        Kind::Checkbox => matches!(s, State::Checkbox { .. }),
        Kind::Scrollable => matches!(s, State::Scrollable { .. }),
        Kind::TextInput => matches!(s, State::TextInput { .. }),
        Kind::Slider => matches!(s, State::Slider { .. }),
        _ => matches!(s, State::Empty),
    }
}

fn delivers(ev: Event, child: &Node, inner: Point, cursor: Point) -> (r: bool)
    ensures
        r == (!is_positional(ev) || child.spec_bounds(inner).spec_contains(cursor)),
{
    match ev {
        Event::ButtonPressed | Event::WheelScrolled(_) => child.bounds(inner).contains(cursor),
        _ => true,
    }
}

impl Element {
    /// Whether `tree` and `node` have the shape of this widget, as dispatch
    /// requires.
    pub fn is_aligned(&self, tree: &Tree, node: &Node) -> (r: bool)
        ensures
            r == aligned(*self, *tree, *node),
        decreases self,
    {
        let n = self.children.len();
        if tree.tag != self.kind || !fits_state(self.kind, tree.state) || tree.children.len() != n || node.children.len() != n {
            return false;
        }
        let mut i: usize = 0;
        while i < n
            invariant
                n == self.children@.len() == tree.children@.len() == node.children@.len(),
                tree.tag == self.kind,
                state_fits(self.kind, tree.state),
                i <= n,
                forall|j: int|
                    0 <= j < i ==> aligned(
                        #[trigger] self.children@[j],
                        tree.children@[j],
                        node.children@[j],
                    ),
            decreases n - i,
        {
            if !self.children[i].is_aligned(&tree.children[i], &node.children[i]) {
                return false;
            }
            i = i + 1;
        }
        true
    }

    /// The cursor affordance over this widget, with the pointer at `cursor`.
    pub fn mouse_interaction(&self, tree: &Tree, node: &Node, origin: Point, cursor: Point) -> (r:
        Interaction)
        requires
            aligned(*self, *tree, *node),
        ensures
            r == interaction_of(*self, *tree, *node, origin, cursor),
        decreases self,
    {
        let b = node.bounds(origin);
        let inner = Point { x: b.x, y: b.y };
        let mut k: usize = self.children.len();
        while k > 0
            invariant
                k <= self.children@.len(),
                aligned(*self, *tree, *node),
                inner == inner_origin(*node, origin),
                interaction_of(*self, *tree, *node, origin, cursor) == interaction_below(
                    *self,
                    *tree,
                    *node,
                    origin,
                    cursor,
                    k as int,
                ),
            decreases k,
        {
            proof {
                assert(aligned(
                    self.children@[k - 1],
                    tree.children@[k - 1],
                    node.children@[k - 1],
                ));
            }
            let c = self.children[k - 1].mouse_interaction(
                &tree.children[k - 1],
                &node.children[k - 1],
                inner,
                cursor,
            );
            if c != Interaction::Idle {
                return c;
            }
            k = k - 1;
        }
        own_interaction_exec(self, b, cursor)
    }

    /// Delivers `event` to this widget and its children, with the pointer at
    /// `cursor`. `node` is this widget's layout and `origin` its parent's
    /// absolute position. A captured event requests a redraw.
    ///
    /// A press or a wheel turn reaches only children under the pointer; a
    /// release or a key reaches every child in turn. So a pressed button
    /// captures the release wherever the pointer is, and publishes its
    /// message only when the release is inside it.
    pub fn on_event(
        &self,
        tree: &mut Tree,
        event: Event,
        node: &Node,
        origin: Point,
        cursor: Point,
        shell: &mut Shell,
    ) -> (r: Status)
        requires
            aligned(*self, *old(tree), *node),
        ensures
            r == status_of(*self, *old(tree), *node, origin, event, cursor),
            dispatched(*self, *old(tree), *node, origin, event, cursor, *final(tree)),
            final(shell).messages@ == old(shell).messages@ + emitted(
                *self,
                *old(tree),
                *node,
                origin,
                event,
                cursor,
            ),
            final(shell).redraw_requested == (old(shell).redraw_requested || r == Status::Captured),
            final(shell).layout_invalidated == old(shell).layout_invalidated,
            tree_wf(*old(tree)) ==> tree_wf(*final(tree)),
        decreases self,
    {
        let ghost t0 = *tree;
        let ghost m0 = shell.messages@;
        let b = node.bounds(origin);
        let inner = Point { x: b.x, y: b.y };
        let n = self.children.len();
        proof {
            lemma_capture_from_range(*self, t0, *node, origin, event, cursor, 0);
        }
        let mut i: usize = 0;
        while i < n
            invariant
                n == self.children@.len(),
                t0 == *old(tree),
                m0 == old(shell).messages@,
                aligned(*self, t0, *node),
                0 <= i <= first_capture(*self, t0, *node, origin, event, cursor) <= n,
                forall|j: int|
                    0 <= j < first_capture(*self, t0, *node, origin, event, cursor) ==> !(
                    receives(*node, origin, j, event, cursor) && status_of(
                        #[trigger] self.children@[j],
                        t0.children@[j],
                        node.children@[j],
                        inner_origin(*node, origin),
                        event,
                        cursor,
                    ) == Status::Captured),
                first_capture(*self, t0, *node, origin, event, cursor) < n ==> receives(
                    *node,
                    origin,
                    first_capture(*self, t0, *node, origin, event, cursor),
                    event,
                    cursor,
                ) && status_of(
                    self.children@[first_capture(*self, t0, *node, origin, event, cursor)],
                    t0.children@[first_capture(*self, t0, *node, origin, event, cursor)],
                    node.children@[first_capture(*self, t0, *node, origin, event, cursor)],
                    inner_origin(*node, origin),
                    event,
                    cursor,
                ) == Status::Captured,
                inner == inner_origin(*node, origin),
                tree.tag == t0.tag && tree.state == t0.state,
                tree.children@.len() == n,
                forall|j: int|
                    0 <= j < i ==> if receives(*node, origin, j, event, cursor) {
                        dispatched(
                            self.children@[j],
                            t0.children@[j],
                            node.children@[j],
                            inner,
                            event,
                            cursor,
                            #[trigger] tree.children@[j],
                        )
                    } else {
                        tree.children@[j] == t0.children@[j]
                    },
                forall|j: int| i <= j < n ==> #[trigger] tree.children@[j] == t0.children@[j],
                shell.messages@ == m0 + emitted_upto(*self, t0, *node, origin, event, cursor, i as int),
                shell.redraw_requested == old(shell).redraw_requested,
                shell.layout_invalidated == old(shell).layout_invalidated,
            decreases n - i,
        {
            if delivers(event, &node.children[i], inner, cursor) {
                proof {
                    assert(aligned(self.children@[i as int], t0.children@[i as int], node.children@[i as int]));
                }
                let st = self.children[i].on_event(
                    &mut tree.children[i],
                    event,
                    &node.children[i],
                    inner,
                    cursor,
                    shell,
                );
                proof {
                    assert(emitted_upto(*self, t0, *node, origin, event, cursor, i + 1) == emitted_upto(
                        *self, t0, *node, origin, event, cursor, i as int) + emitted(
                        self.children@[i as int],
                        t0.children@[i as int],
                        node.children@[i as int],
                        inner,
                        event,
                        cursor,
                    ));
                    vstd::seq_lib::lemma_concat_associative(
                        m0,
                        emitted_upto(*self, t0, *node, origin, event, cursor, i as int),
                        emitted(
                            self.children@[i as int],
                            t0.children@[i as int],
                            node.children@[i as int],
                            inner,
                            event,
                            cursor,
                        ),
                    );
                }
                if st == Status::Captured {
                    proof {
                        assert(dispatched(*self, t0, *node, origin, event, cursor, *tree));
                        lemma_dispatch_wf(*self, t0, *node, origin, event, cursor, *tree);
                    }
                    return Status::Captured;
                }
            } else {
                proof {
                    assert(emitted_upto(*self, t0, *node, origin, event, cursor, i + 1) =~= emitted_upto(
                        *self, t0, *node, origin, event, cursor, i as int));
                }
            }
            i = i + 1;
        }
        let (s, st, m) = react(self, tree.state, b, event, cursor);
        tree.state = s;
        match m {
            Some(v) => shell.publish(v),
            None => {},
        }
        if st == Status::Captured {
            shell.request_redraw();
        }
        proof {
            assert(dispatched(*self, t0, *node, origin, event, cursor, *tree));
            lemma_dispatch_wf(*self, t0, *node, origin, event, cursor, *tree);
        }
        st
    }
}

} // verus!
