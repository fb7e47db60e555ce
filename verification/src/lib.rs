//! Geometry core of a terminal renderer: merging styled cells into decoration
//! rectangles, pixel-exact size and padding computation, and the coordinator
//! that collapses asynchronous resize signals into one geometry update per
//! frame tick.

pub mod term;
pub mod geometry;
pub mod rects;
pub mod rect_laws;
pub mod display;
pub mod event;
pub mod ui_config;
