//! Circles and rectangles on the integer lattice, and an approximate overlap
//! test that samples their boundaries.
//!
//! A shape is read from a line of text ([`Shape::from_str`]), sampled along
//! its boundary ([`Points`]), asked whether it holds a point ([`Contains`])
//! and tested for overlap with another shape ([`Collidable`]). The module
//! [`report`] goes from a text that lists shapes to the list of collisions
//! between neighbours in it.
//!
//! A line names a kind of shape and lists its numbers, divided by blanks or
//! commas: `circle 5 5 2` is the circle of radius 2 around `(5, 5)`, and
//! `rect 0,0,10,10` the rectangle that spans from `(0, 0)` to `(10, 10)`.
//!
//! All coordinates are whole numbers and all arithmetic is exact, so what is
//! stated of the shapes holds without rounding error.

pub mod circle;
pub mod collisions;
pub mod number;
pub mod parse;
pub mod rect;
pub mod report;
pub mod sampling;
pub mod shape;
pub mod text;

pub use circle::Circle;
pub use collisions::{Collidable, Contains, Point, Points};
pub use parse::ShapeParseError;
pub use rect::Rect;
pub use shape::Shape;
