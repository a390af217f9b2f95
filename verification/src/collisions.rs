//! The capabilities a shape offers, and the overlap test built on them.
//!
//! A shape is known to the rest of the library by two operations: it hands
//! out a finite sample of its boundary ([`Points`]) and it answers whether a
//! point lies in it ([`Contains`]). Two shapes collide when a boundary sample
//! of either lies in the other ([`Collidable`]). The test is approximate: two
//! shapes that overlap only where no sample falls are reported as apart.

use vstd::prelude::*;

verus! {

/// A point of the plane: its `x` and its `y` coordinate.
pub type Point = (i64, i64);

/// A shape that can be sampled along its boundary.
pub trait Points {
    /// The boundary samples of the shape, in the order `points` yields them.
    spec fn samples(&self) -> Seq<Point>;

    /// Returns the boundary samples of the shape.
    fn points(&self) -> (pts: Vec<Point>)
        ensures
            pts@ == self.samples(),
    ;
}

/// A shape that can tell which points belong to it.
pub trait Contains {
    /// Whether `point` lies in the shape, boundary included.
    spec fn covers(&self, point: Point) -> bool;

    /// Decides whether `point` lies in the shape.
    fn contains_point(&self, point: Point) -> (inside: bool)
        ensures
            inside == self.covers(point),
    ;
}

/// Whether one of `points` lies in `shape`.
pub open spec fn any_inside<S: Contains>(points: Seq<Point>, shape: &S) -> bool {
    exists|i: int| 0 <= i < points.len() && shape.covers(#[trigger] points[i])
}

/// Decides whether one of `points` lies in `shape`.
pub fn any_point_inside<S: Contains>(points: &Vec<Point>, shape: &S) -> (hit: bool)
    ensures
        hit == any_inside(points@, shape),
{
    let mut i: usize = 0;
    while i < points.len()
        invariant
            i <= points.len(),
            forall|k: int| 0 <= k < i ==> !shape.covers(#[trigger] points@[k]),
        decreases points.len() - i,
    {
        if shape.contains_point(points[i]) {
            return true;
        }
        i += 1;
    }
    false
}

/// A shape that can be tested for overlap with a shape of type `T`.
pub trait Collidable<T> {
    /// Whether a boundary sample of either shape lies in the other one.
    spec fn collides(&self, other: &T) -> bool;

    /// Decides whether the two shapes collide.
    fn collide(&self, other: &T) -> (hit: bool)
        ensures
            hit == self.collides(other),
    ;
}

impl<T: Points + Contains, V: Points + Contains> Collidable<T> for V {
    open spec fn collides(&self, other: &T) -> bool {
        any_inside(self.samples(), other) || any_inside(other.samples(), self)
    }

    /// Tests the samples of `self` against `other` first, those of `other`
    /// against `self` second, and stops at the first one that lies inside.
    fn collide(&self, other: &T) -> (hit: bool) {
        let mine = self.points();
        if any_point_inside(&mine, other) {
            return true;
        }
        let theirs = other.points();
        any_point_inside(&theirs, self)
    }
}

/// Collision does not depend on the order of the two shapes.
pub proof fn lemma_collide_symmetric<A: Points + Contains, B: Points + Contains>(a: &A, b: &B)
    ensures
        a.collides(b) == b.collides(a),
{
}

/// Two shapes that collide have a point in common, provided that each of
/// them contains its own boundary samples.
pub proof fn lemma_collide_shares_point<A: Points + Contains, B: Points + Contains>(a: &A, b: &B)
    requires
        a.collides(b),
        forall|i: int| 0 <= i < a.samples().len() ==> a.covers(#[trigger] a.samples()[i]),
        forall|i: int| 0 <= i < b.samples().len() ==> b.covers(#[trigger] b.samples()[i]),
    ensures
        exists|p: Point| a.covers(p) && b.covers(p),
{
    let shared: Point = if any_inside(a.samples(), b) {
        let i: int = choose|i: int| 0 <= i < a.samples().len() && b.covers(#[trigger] a.samples()[i]);
        a.samples()[i]
    } else {
        let i: int = choose|i: int| 0 <= i < b.samples().len() && a.covers(#[trigger] b.samples()[i]);
        b.samples()[i]
    };
    assert(a.covers(shared) && b.covers(shared));
}

} // verus!
