//! Core engine of a retained-mode widget toolkit: a tree of widgets that
//! receives input events, negotiates layout along two axes, propagates
//! cascading enabled/visible/style scopes, and mirrors itself into an
//! accessibility tree.
//!
//! Platform concerns (windowing, rasterization, text shaping, CSS parsing,
//! the accessibility wire format) are collaborators behind plain-value
//! interfaces; this crate holds the tree-walking logic itself.

pub mod accessible;
pub mod address;
pub mod events;
pub mod geometry;
pub mod ids;
pub mod review;
pub mod style;
pub mod system;
pub mod widget;
pub mod window;
