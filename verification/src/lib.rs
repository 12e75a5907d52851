//! A deterministic two-dimensional physics sandbox core.
//!
//! Bodies are circles and axis-aligned rectangles that fall under gravity,
//! are slowed by drag and are pushed apart when they overlap.  Every
//! quantity is a fixed-point integer (see [`units`]), so a simulation step
//! gives the same result on every machine and every function has an exact
//! contract.

pub mod collision;
pub mod create_objects;
pub mod geometry;
pub mod laws;
pub mod objects;
pub mod quadtree;
pub mod shapes;
pub mod units;
pub mod world;
