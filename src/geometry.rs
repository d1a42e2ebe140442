//! Integer layout geometry: points, sizes, rectangles, sizing policies,
//! layout limits and layout nodes.
use vstd::prelude::*;

verus! {

/// The sum of two coordinates, held at `u32::MAX` where it would not fit.
pub open spec fn sat_add(a: u32, b: u32) -> u32 {
    if a + b <= u32::MAX {
        (a + b) as u32
    } else {
        u32::MAX
    }
}

pub fn add_saturating(a: u32, b: u32) -> (r: u32)
    ensures
        r == sat_add(a, b),
{
    if a <= u32::MAX - b {
        a + b
    } else {
        u32::MAX
    }
}

/// A position, in pixels, from the top-left corner.
#[derive(Clone, Copy, Debug, PartialEq, Eq, Structural)]
pub struct Point {
    pub x: u32,
    pub y: u32,
}

/// A width and a height, in pixels.
#[derive(Clone, Copy, Debug, PartialEq, Eq, Structural)]
pub struct Size {
    pub width: u32,
    pub height: u32,
}

/// An axis-aligned rectangle: its top-left corner and its size.
#[derive(Clone, Copy, Debug, PartialEq, Eq, Structural)]
pub struct Rectangle {
    pub x: u32,
    pub y: u32,
    pub width: u32,
    pub height: u32,
}

impl Rectangle {
    /// A point is inside when it lies in `[x, x + width) × [y, y + height)`.
    pub open spec fn spec_contains(self, p: Point) -> bool {
        &&& self.x <= p.x < self.x + self.width
        &&& self.y <= p.y < self.y + self.height
    }

    pub fn contains(&self, p: Point) -> (r: bool)
        ensures
            r == self.spec_contains(p),
    {
        self.x <= p.x && p.x - self.x < self.width && self.y <= p.y && p.y - self.y
            < self.height
    }
}

/// A sizing policy along one axis.
#[derive(Clone, Copy, Debug, PartialEq, Eq, Structural)]
pub enum Length {
    /// Take all the space that the limits allow.
    Fill,
    /// Take as little space as the content needs.
    Shrink,
    /// Take exactly this many pixels, within the limits.
    Units(u32),
}

/// The smallest and the largest size that a widget may take.
#[derive(Clone, Copy, Debug, PartialEq, Eq, Structural)]
pub struct Limits {
    pub min: Size,
    pub max: Size,
}

/// `v` held within `[lo, hi]`.
pub open spec fn clamp(v: u32, lo: u32, hi: u32) -> u32 {
    if v < lo {
        lo
    } else if v > hi {
        hi
    } else {
        v
    }
}

/// The extent along one axis that a policy picks, for content of extent `content`.
pub open spec fn resolve_axis(len: Length, content: u32, lo: u32, hi: u32) -> u32 {
    match len {
        Length::Fill => hi,
        Length::Shrink => clamp(content, lo, hi),
        Length::Units(u) => clamp(u, lo, hi),
    }
}

fn clamp_exec(v: u32, lo: u32, hi: u32) -> (r: u32)
    ensures
        r == clamp(v, lo, hi),
{
    if v < lo {
        lo
    } else if v > hi {
        hi
    } else {
        v
    }
}

fn resolve_axis_exec(len: Length, content: u32, lo: u32, hi: u32) -> (r: u32)
    ensures
        r == resolve_axis(len, content, lo, hi),
{
    match len {
        Length::Fill => hi,
        Length::Shrink => clamp_exec(content, lo, hi),
        Length::Units(u) => clamp_exec(u, lo, hi),
    }
}

impl Limits {
    /// Well-formed limits: the minimum fits inside the maximum.
    pub open spec fn wf(self) -> bool {
        self.min.width <= self.max.width && self.min.height <= self.max.height
    }

    pub fn is_wf(&self) -> (r: bool)
        ensures
            r == self.wf(),
    {
        self.min.width <= self.max.width && self.min.height <= self.max.height
    }

    pub fn new(min: Size, max: Size) -> (r: Limits)
        ensures
            r.min == min,
            r.max == max,
    {
        Limits { min, max }
    }

    /// The same maximum, with no minimum.
    pub fn loose(&self) -> (r: Limits)
        ensures
            r.min == (Size { width: 0, height: 0 }),
            r.max == self.max,
            r.wf(),
    {
        Limits { min: Size { width: 0, height: 0 }, max: self.max }
    }

    pub open spec fn spec_resolve(self, width: Length, height: Length, content: Size) -> Size {
        Size {
            width: resolve_axis(width, content.width, self.min.width, self.max.width),
            height: resolve_axis(height, content.height, self.min.height, self.max.height),
        }
    }

    /// The size that the sizing policies pick for content of size `content`.
    pub fn resolve(&self, width: Length, height: Length, content: Size) -> (r: Size)
        requires
            self.wf(),
        ensures
            r == self.spec_resolve(width, height, content),
            self.min.width <= r.width <= self.max.width,
            self.min.height <= r.height <= self.max.height,
    {
        Size {
            width: resolve_axis_exec(width, content.width, self.min.width, self.max.width),
            height: resolve_axis_exec(height, content.height, self.min.height, self.max.height),
        }
    }
}

/// The outcome of layout for one widget: its size, its position relative to
/// its parent's origin, and its children's nodes in the children's order.
#[derive(Debug)]
pub struct Node {
    pub size: Size,
    pub position: Point,
    pub children: Vec<Node>,
}

impl Node {
    /// The bounds of this node, for a parent whose origin is `origin`.
    pub open spec fn spec_bounds(&self, origin: Point) -> Rectangle {
        Rectangle {
            x: sat_add(origin.x, self.position.x),
            y: sat_add(origin.y, self.position.y),
            width: self.size.width,
            height: self.size.height,
        }
    }

    pub fn bounds(&self, origin: Point) -> (r: Rectangle)
        ensures
            r == self.spec_bounds(origin),
    {
        Rectangle {
            x: add_saturating(origin.x, self.position.x),
            y: add_saturating(origin.y, self.position.y),
            width: self.size.width,
            height: self.size.height,
        }
    }
}

} // verus!
