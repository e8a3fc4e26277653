//! A small retained-tree UI toolkit core: flow containers and labelled
//! leaves are measured, placed into absolute rectangles, turned into draw
//! primitives and hit-tested against mouse events.
pub mod geometry;
pub mod metrics;
pub mod widget;
pub mod layout;
pub mod hit;
pub mod draw;
