//! Widget descriptions: the frame-local values that an application builds
//! every frame, and the functions that build them.
use vstd::prelude::*;
use crate::geometry::{Length, Size};

verus! {

/// The kind of a widget. It is the tag under which a widget's persisted
/// state is kept, and decides whether that state can be reused.
#[derive(Clone, Copy, Debug, PartialEq, Eq, Structural)]
pub enum Kind {
    Column,
    Row,
    Container,
    Scrollable,
    Button,
    Text,
    Checkbox,
    TextInput,
    Slider,
    Image,
}

/// One widget of a frame's description, with its children in order.
///
/// `content` is the size of the widget's own content as the renderer
/// measured it (the extent of a text, the intrinsic size of an image).
/// `on_press` is the message published when the widget is activated.
#[derive(Debug)]
pub struct Element {
    pub kind: Kind,
    pub width: Length,
    pub height: Length,
    pub content: Size,
    pub spacing: u32,
    pub padding: u32,
    pub on_press: Option<u64>,
    pub children: Vec<Element>,
}

/// A widget of kind `kind` that shrinks to `content`, with no children.
pub open spec fn is_bare(e: Element, kind: Kind, content: Size) -> bool {
    &&& e.kind == kind
    &&& e.width == Length::Shrink
    &&& e.height == Length::Shrink
    &&& e.content == content
    &&& e.spacing == 0
    &&& e.padding == 0
    &&& e.on_press.is_none()
    &&& e.children@.len() == 0
}

fn bare(kind: Kind, content: Size) -> (r: Element)
    ensures
        is_bare(r, kind, content),
{
    Element {
        kind,
        width: Length::Shrink,
        height: Length::Shrink,
        content,
        spacing: 0,
        padding: 0,
        on_press: None,
        children: Vec::new(),
    }
}

impl Element {
    /// Appends a child after the existing ones.
    pub fn push(self, child: Element) -> (r: Element)
        ensures
            r.children@ == self.children@.push(child),
            r.kind == self.kind && r.width == self.width && r.height == self.height,
            r.content == self.content && r.spacing == self.spacing,
            r.padding == self.padding && r.on_press == self.on_press,
    {
        let mut e = self;
        e.children.push(child);
        e
    }

    pub fn width(self, width: Length) -> (r: Element)
        ensures
            r == (Element { width, ..self }),
    {
        Element { width, ..self }
    }

    pub fn height(self, height: Length) -> (r: Element)
        ensures
            r == (Element { height, ..self }),
    {
        Element { height, ..self }
    }

    pub fn spacing(self, spacing: u32) -> (r: Element)
        ensures
            r == (Element { spacing, ..self }),
    {
        Element { spacing, ..self }
    }

    pub fn padding(self, padding: u32) -> (r: Element)
        ensures
            r == (Element { padding, ..self }),
    {
        Element { padding, ..self }
    }

    pub fn on_press(self, message: u64) -> (r: Element)
        ensures
            r == (Element { on_press: Some(message), ..self }),
    {
        Element { on_press: Some(message), ..self }
    }
}

/// A container that lays out one child.
pub fn container(content: Element) -> (r: Element)
    ensures
        r.kind == Kind::Container,
        r.children@ == seq![content],
        r.width == Length::Shrink && r.height == Length::Shrink,
        r.content == (Size { width: 0, height: 0 }),
        r.spacing == 0 && r.padding == 0 && r.on_press.is_none(),
{
    bare(Kind::Container, Size { width: 0, height: 0 }).push(content)
}

/// An empty column: children are stacked from top to bottom.
pub fn column() -> (r: Element)
    ensures
        is_bare(r, Kind::Column, Size { width: 0, height: 0 }),
{
    bare(Kind::Column, Size { width: 0, height: 0 })
}

/// An empty row: children are placed from left to right.
pub fn row() -> (r: Element)
    ensures
        is_bare(r, Kind::Row, Size { width: 0, height: 0 }),
{
    bare(Kind::Row, Size { width: 0, height: 0 })
}

/// A scrollable view over one child.
pub fn scrollable(content: Element) -> (r: Element)
    ensures
        r.kind == Kind::Scrollable,
        r.children@ == seq![content],
        r.width == Length::Shrink && r.height == Length::Shrink,
        r.content == (Size { width: 0, height: 0 }),
        r.spacing == 0 && r.padding == 0 && r.on_press.is_none(),
{
    bare(Kind::Scrollable, Size { width: 0, height: 0 }).push(content)
}

/// A button around one child; it publishes nothing until `on_press` is set.
pub fn button(content: Element) -> (r: Element)
    ensures
        r.kind == Kind::Button,
        r.children@ == seq![content],
        r.width == Length::Shrink && r.height == Length::Shrink,
        r.content == (Size { width: 0, height: 0 }),
        r.spacing == 0 && r.padding == 0 && r.on_press.is_none(),
{
    bare(Kind::Button, Size { width: 0, height: 0 }).push(content)
}

/// A text whose measured extent is `measured`.
pub fn text(measured: Size) -> (r: Element)
    ensures
        is_bare(r, Kind::Text, measured),
{
    bare(Kind::Text, measured)
}

/// A checkbox with a label of extent `label`; it publishes `on_toggle` when pressed.
pub fn checkbox(label: Size, on_toggle: u64) -> (r: Element)
    ensures
        r == (Element { on_press: Some(on_toggle), ..r }),
        is_bare(Element { on_press: None, ..r }, Kind::Checkbox, label),
{
    bare(Kind::Checkbox, label).on_press(on_toggle)
}

/// A text field whose value has extent `value`.
pub fn text_input(value: Size) -> (r: Element)
    ensures
        is_bare(r, Kind::TextInput, value),
{
    bare(Kind::TextInput, value)
}

/// A slider whose track has extent `track`.
pub fn slider(track: Size) -> (r: Element)
    ensures
        is_bare(r, Kind::Slider, track),
{
    bare(Kind::Slider, track)
}

/// An image whose intrinsic size is `size`.
pub fn image(size: Size) -> (r: Element)
    ensures
        is_bare(r, Kind::Image, size),
{
    bare(Kind::Image, size)
}

} // verus!
