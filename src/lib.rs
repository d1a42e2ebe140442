//! The retained-mode widget core of a declarative UI toolkit: widget
//! descriptions rebuilt every frame, a persisted state tree reconciled
//! against them, layout, layout hashing, and event dispatch.
//!
//! - `geometry`: points, sizes, rectangles, sizing policies, limits, nodes.
//! - `widget`: the widget description and the functions that build one.
//! - `tree`: persisted per-widget state and its positional reconciliation.
//! - `layout`: sizes and positions from a description and limits.
//! - `hash`: the layout key of a description and its digest.
//! - `dispatch`: event delivery, the outbound shell, cursor affordances.
//! - `capability`: the `Widget` interface that ties these together.
pub mod geometry;
pub mod widget;
pub mod tree;
pub mod dispatch;
pub mod layout;
pub mod hash;
pub mod capability;
