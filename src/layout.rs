//! Layout: from a widget description and limits to a tree of sized and
//! positioned nodes.
//!
//! A row places its children from left to right; every other kind stacks
//! them from top to bottom. Children get the parent's maximum, less its
//! padding on both sides, with no minimum; they are separated by the
//! parent's spacing and inset by its padding. A widget's content is the
//! larger of its own measured content and its stacked children (with
//! padding); its size is what its sizing policy picks for that content.
use vstd::prelude::*;
use crate::geometry::{Limits, Node, Point, Size, sat_add, add_saturating};
use crate::widget::{Element, Kind};

verus! {

broadcast use vstd::std_specs::vec::group_vec_axioms;

pub open spec fn sat_sub(a: u32, b: u32) -> u32 {
    if a >= b {
        (a - b) as u32
    } else {
        0
    }
}

pub open spec fn max_u32(a: u32, b: u32) -> u32 {
    if a >= b {
        a
    } else {
        b
    }
}

/// Twice the padding, held at `u32::MAX`.
pub open spec fn pad2(e: Element) -> u32 {
    sat_add(e.padding, e.padding)
}

/// The limits that a widget hands to each of its children.
pub open spec fn child_limits(e: Element, lim: Limits) -> Limits {
    Limits {
        min: Size { width: 0, height: 0 },
        max: Size {
            width: sat_sub(lim.max.width, pad2(e)),
            height: sat_sub(lim.max.height, pad2(e)),
        },
    }
}

/// The extent of `s` along the axis in which `e` places its children.
pub open spec fn main_of(e: Element, s: Size) -> u32 {
    if e.kind == Kind::Row {
        s.width
    } else {
        s.height
    }
}

/// The extent of `s` across that axis.
pub open spec fn cross_of(e: Element, s: Size) -> u32 {
    if e.kind == Kind::Row {
        s.height
    } else {
        s.width
    }
}

/// The size that layout gives `e` under `lim`.
pub open spec fn layout_size(e: Element, lim: Limits) -> Size
    decreases e, e.children@.len() + 1,
{
    let cl = child_limits(e, lim);
    let n = e.children@.len() as int;
    let main = sat_add(main_before(e, cl, n), pad2(e));
    let cross = sat_add(cross_upto(e, cl, n), pad2(e));
    let stacked = if e.kind == Kind::Row {
        Size { width: main, height: cross }
    } else {
        Size { width: cross, height: main }
    };
    let content = Size {
        width: max_u32(e.content.width, stacked.width),
        height: max_u32(e.content.height, stacked.height),
    };
    lim.spec_resolve(e.width, e.height, content)
}

/// The offset along the main axis at which child `k` starts, relative to the
/// padding; for `k` the number of children, the extent of all of them.
pub open spec fn main_before(e: Element, cl: Limits, k: int) -> u32
    decreases e, k,
{
    if k <= 0 || k > e.children@.len() {
        0
    } else {
        let gap = if k < e.children@.len() {
            e.spacing
        } else {
            0
        };
        sat_add(
            sat_add(main_before(e, cl, k - 1), main_of(e, layout_size(e.children@[k - 1], cl))),
            gap,
        )
    }
}

/// The largest cross extent of the first `k` children.
pub open spec fn cross_upto(e: Element, cl: Limits, k: int) -> u32
    decreases e, k,
{
    if k <= 0 || k > e.children@.len() {
        0
    } else {
        max_u32(cross_upto(e, cl, k - 1), cross_of(e, layout_size(e.children@[k - 1], cl)))
    }
}

/// Where child `i` of `e` is placed, relative to `e`'s origin.
pub open spec fn child_position(e: Element, lim: Limits, i: int) -> Point {
    let along = sat_add(e.padding, main_before(e, child_limits(e, lim), i));
    if e.kind == Kind::Row {
        Point { x: along, y: e.padding }
    } else {
        Point { x: e.padding, y: along }
    }
}

/// `node` is the layout of `e` under `lim`: its size, and each child's node
/// laid out under the child limits at the child's position.
pub open spec fn laid_out(e: Element, lim: Limits, node: Node) -> bool
    decreases e,
{
    &&& node.size == layout_size(e, lim)
    &&& node.children@.len() == e.children@.len()
    &&& forall|i: int|
        0 <= i < e.children@.len() ==> {
            &&& laid_out(e.children@[i], child_limits(e, lim), #[trigger] node.children@[i])
            &&& node.children@[i].position == child_position(e, lim, i)
        }
}

/// Two nodes with the same sizes and positions at every depth.
pub open spec fn same_nodes(a: Node, b: Node) -> bool
    decreases a,
{
    &&& a.size == b.size
    &&& a.position == b.position
    &&& a.children@.len() == b.children@.len()
    &&& forall|i: int|
        0 <= i < a.children@.len() ==> same_nodes(a.children@[i], #[trigger] b.children@[i])
}

/// Layout is deterministic: two layouts of one description under the same
/// limits agree in every size and position, provided their roots are placed
/// alike.
pub proof fn lemma_layout_deterministic(e: Element, lim: Limits, a: Node, b: Node)
    requires
        laid_out(e, lim, a),
        laid_out(e, lim, b),
        a.position == b.position,
    ensures
        same_nodes(a, b),
    decreases e,
{
    assert forall|i: int| 0 <= i < a.children@.len() implies same_nodes(
        a.children@[i],
        #[trigger] b.children@[i],
    ) by {
        assert(laid_out(e.children@[i], child_limits(e, lim), a.children@[i]));
        assert(laid_out(e.children@[i], child_limits(e, lim), b.children@[i]));
        lemma_layout_deterministic(e.children@[i], child_limits(e, lim), a.children@[i], b.children@[i]);
    }
}

fn sub_saturating(a: u32, b: u32) -> (r: u32)
    ensures
        r == sat_sub(a, b),
{
    if a >= b {
        a - b
    } else {
        0
    }
}

fn max_exec(a: u32, b: u32) -> (r: u32)
    ensures
        r == max_u32(a, b),
{
    if a >= b {
        a
    } else {
        b
    }
}

impl Element {
    /// The layout of this widget under `limits`, placed at the origin.
    pub fn layout(&self, limits: &Limits) -> (r: Node)
        requires
            limits.wf(),
        ensures
            laid_out(*self, *limits, r),
            r.position == (Point { x: 0, y: 0 }),
        decreases self,
    {
        let p2 = add_saturating(self.padding, self.padding);
        let cl = Limits {
            min: Size { width: 0, height: 0 },
            max: Size {
                width: sub_saturating(limits.max.width, p2),
                height: sub_saturating(limits.max.height, p2),
            },
        };
        let is_row = self.kind == Kind::Row;
        let n = self.children.len();
        let mut children: Vec<Node> = Vec::new();
        let mut main: u32 = 0;
        let mut cross: u32 = 0;
        let mut i: usize = 0;
        while i < n
            invariant
                n == self.children@.len(),
                cl == child_limits(*self, *limits),
                is_row == (self.kind == Kind::Row),
                i <= n,
                children@.len() == i,
                main == main_before(*self, cl, i as int),
                cross == cross_upto(*self, cl, i as int),
                forall|j: int|
                    0 <= j < i ==> {
                        &&& laid_out(self.children@[j], cl, #[trigger] children@[j])
                        &&& children@[j].position == child_position(*self, *limits, j)
                    },
            decreases n - i,
        {
            let mut c = self.children[i].layout(&cl);
            let along = add_saturating(self.padding, main);
            c.position = if is_row {
                Point { x: along, y: self.padding }
            } else {
                Point { x: self.padding, y: along }
            };
            let (ext, across) = if is_row {
                (c.size.width, c.size.height)
            } else {
                (c.size.height, c.size.width)
            };
            let gap = if i + 1 < n {
                self.spacing
            } else {
                0
            };
            main = add_saturating(add_saturating(main, ext), gap);
            cross = max_exec(cross, across);
            children.push(c);
            i = i + 1;
        }
        let main_total = add_saturating(main, p2);
        let cross_total = add_saturating(cross, p2);
        let (sw, sh) = if is_row {
            (main_total, cross_total)
        } else {
            (cross_total, main_total)
        };
        let content = Size {
            width: max_exec(self.content.width, sw),
            height: max_exec(self.content.height, sh),
        };
        let size = limits.resolve(self.width, self.height, content);
        Node { size, position: Point { x: 0, y: 0 }, children }
    }
}

} // verus!
