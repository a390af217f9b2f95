//! The shape type: a circle or a rectangle.

use crate::circle::Circle;
use crate::collisions::{Collidable, Contains, Point, Points};
use crate::parse::ShapeParseError;
use crate::rect::Rect;
use crate::sampling::SAMPLES;
use crate::text::{chars_of, copy_range, find_blanks_end, find_word_end, spells};
use vstd::prelude::*;

verus! {

/// A circle or a rectangle. Sampling and containment are those of the shape
/// inside.
#[derive(Clone, Copy, Debug, PartialEq, Eq, Structural)]
pub enum Shape {
    Circle(Circle),
    Rect(Rect),
}

impl Shape {
    /// A shape is valid when the circle or rectangle inside is.
    pub open spec fn is_valid(&self) -> bool {
        match *self {
            Shape::Circle(c) => c.is_valid(),
            Shape::Rect(r) => r.is_valid(),
        }
    }

    /// The smallest `x` coordinate of a valid shape.
    pub open spec fn left(&self) -> int {
        match *self {
            Shape::Circle(c) => c.x - c.radius,
            Shape::Rect(r) => r.x as int,
        }
    }

    /// The largest `x` coordinate of a valid shape.
    pub open spec fn right(&self) -> int {
        match *self {
            Shape::Circle(c) => c.x + c.radius,
            Shape::Rect(r) => r.x + r.width,
        }
    }

    /// The smallest `y` coordinate of a valid shape.
    pub open spec fn bottom(&self) -> int {
        match *self {
            Shape::Circle(c) => c.y - c.radius,
            Shape::Rect(r) => r.y as int,
        }
    }

    /// The largest `y` coordinate of a valid shape.
    pub open spec fn top(&self) -> int {
        match *self {
            Shape::Circle(c) => c.y + c.radius,
            Shape::Rect(r) => r.y + r.height,
        }
    }

    /// Whether the two shapes share no `x` coordinate or share no `y`
    /// coordinate.
    pub open spec fn apart(&self, other: &Shape) -> bool {
        ||| self.right() < other.left()
        ||| other.right() < self.left()
        ||| self.top() < other.bottom()
        ||| other.top() < self.bottom()
    }

    /// The shape that a line describes.
    ///
    /// The leading word of the line names the kind, `rect` or `circle`, and
    /// what follows the blanks after it is the record of that kind. A line
    /// with another leading word describes no shape; neither does one whose
    /// record the kind refuses.
    pub open spec fn parse(line: Seq<char>) -> Result<Shape, ShapeParseError> {
        let kind: Seq<char> = crate::text::leading_word(line);
        let data: Seq<char> = crate::text::after_leading_word(line);
        if kind == "rect"@ {
            match Rect::parse(data) {
                Ok(r) => Ok(Shape::Rect(r)),
                Err(e) => Err(e),
            }
        } else if kind == "circle"@ {
            match Circle::parse(data) {
                Ok(c) => Ok(Shape::Circle(c)),
                Err(e) => Err(e),
            }
        } else {
            Err(ShapeParseError::BadShape)
        }
    }

    /// The line that describes the shape: its kind, a space, and its record.
    pub open spec fn text(&self) -> Seq<char> {
        match *self {
            Shape::Circle(c) => "circle"@ + seq![' '] + c.text(),
            Shape::Rect(r) => "rect"@ + seq![' '] + r.text(),
        }
    }

    /// Reads a shape from the characters of a line.
    pub fn from_chars(line: &Vec<char>) -> (shape: Result<Shape, ShapeParseError>)
        ensures
            shape == Shape::parse(line@),
    {
        let end: usize = find_word_end(line, 0);
        let kind = copy_range(line, 0, end);
        let start: usize = find_blanks_end(line, end);
        let data = copy_range(line, start, line.len());
        if spells(&kind, "rect") {
            match Rect::from_chars(&data) {
                Ok(r) => Ok(Shape::Rect(r)),
                Err(e) => Err(e),
            }
        } else if spells(&kind, "circle") {
            match Circle::from_chars(&data) {
                Ok(c) => Ok(Shape::Circle(c)),
                Err(e) => Err(e),
            }
        } else {
            Err(ShapeParseError::BadShape)
        }
    }

    /// Reads a shape from a line.
    pub fn from_str(line: &str) -> (shape: Result<Shape, ShapeParseError>)
        ensures
            shape == Shape::parse(line@),
    {
        let chars = chars_of(line);
        Shape::from_chars(&chars)
    }

    /// Appends the line of the shape to `out`.
    pub fn write_to(&self, out: &mut String)
        ensures
            final(out)@ == old(out)@ + self.text(),
    {
        proof {
            reveal_strlit(" ");
        }
        match self {
            Shape::Circle(c) => {
                out.append("circle");
                out.append(" ");
                c.write_to(out);
            },
            Shape::Rect(r) => {
                out.append("rect");
                out.append(" ");
                r.write_to(out);
            },
        }
    }

    /// The line of the shape. It is never empty.
    pub fn to_string(&self) -> (s: String)
        ensures
            s@ == self.text(),
            s@.len() > 0,
    {
        let mut out = String::new();
        self.write_to(&mut out);
        out
    }

    /// The line that [`Shape::text`] writes of a shape, [`Shape::parse`] reads
    /// back as the same shape.
    pub proof fn lemma_text_reads_back(&self)
        ensures
            Shape::parse(self.text()) == Ok::<Shape, ShapeParseError>(*self),
    {
        reveal_strlit("circle");
        reveal_strlit("rect");
        match *self {
            Shape::Circle(c) => {
                c.lemma_text_reads_back();
                crate::text::lemma_leading_word("circle"@, c.text());
            },
            Shape::Rect(r) => {
                r.lemma_text_reads_back();
                crate::text::lemma_leading_word("rect"@, r.text());
            },
        }
    }

    /// A valid shape has [`SAMPLES`] boundary samples and contains each.
    pub proof fn lemma_samples_inside(&self)
        requires
            self.is_valid(),
        ensures
            self.samples().len() == SAMPLES,
            forall|i: int| 0 <= i < self.samples().len() ==> self.covers(#[trigger] self.samples()[i]),
    {
        assert forall|i: int| 0 <= i < self.samples().len() implies self.covers(
            #[trigger] self.samples()[i],
        ) by {
            match *self {
                Shape::Circle(c) => {
                    c.lemma_sample_inside(i);
                },
                Shape::Rect(r) => {
                    r.lemma_sample_inside(i);
                },
            }
        }
    }

    /// Every point of a shape lies between its left and right and between
    /// its bottom and top coordinate.
    pub proof fn lemma_covers_in_bounds(&self, point: Point)
        requires
            self.covers(point),
        ensures
            self.left() <= point.0 <= self.right(),
            self.bottom() <= point.1 <= self.top(),
    {
        match *self {
            Shape::Circle(c) => {
                c.lemma_covers_in_box(point);
            },
            Shape::Rect(r) => {},
        }
    }
}

impl Points for Shape {
    open spec fn samples(&self) -> Seq<Point> {
        match *self {
            Shape::Circle(c) => c.samples(),
            Shape::Rect(r) => r.samples(),
        }
    }

    fn points(&self) -> (pts: Vec<Point>) {
        match self {
            Shape::Circle(c) => c.points(),
            Shape::Rect(r) => r.points(),
        }
    }
}

impl Contains for Shape {
    open spec fn covers(&self, point: Point) -> bool {
        match *self {
            Shape::Circle(c) => c.covers(point),
            Shape::Rect(r) => r.covers(point),
        }
    }

    fn contains_point(&self, point: Point) -> (inside: bool) {
        match self {
            Shape::Circle(c) => c.contains_point(point),
            Shape::Rect(r) => r.contains_point(point),
        }
    }
}

/// Two valid circles with the same center and the same radius collide.
pub proof fn lemma_equal_circles_collide(c1: Circle, c2: Circle)
    requires
        c1.is_valid(),
        c2.is_valid(),
        c1.x == c2.x,
        c1.y == c2.y,
        c1.radius == c2.radius,
    ensures
        c1.collides(&c2),
        Shape::Circle(c1).collides(&Shape::Circle(c2)),
{
    c1.lemma_sample_inside(0);
    assert(Shape::Circle(c2).covers(Shape::Circle(c1).samples()[0]));
}

/// Two valid shapes that share no `x` coordinate, or no `y` coordinate, do
/// not collide. This holds of a rectangle and a circle in either order, and
/// of two shapes of one kind.
pub proof fn lemma_apart_never_collide(a: Shape, b: Shape)
    requires
        a.is_valid(),
        b.is_valid(),
        a.apart(&b),
    ensures
        !a.collides(&b),
        !b.collides(&a),
{
    a.lemma_samples_inside();
    b.lemma_samples_inside();
    assert forall|i: int| 0 <= i < a.samples().len() implies !b.covers(
        #[trigger] a.samples()[i],
    ) by {
        let p: Point = a.samples()[i];
        a.lemma_covers_in_bounds(p);
        if b.covers(p) {
            b.lemma_covers_in_bounds(p);
        }
    }
    assert forall|i: int| 0 <= i < b.samples().len() implies !a.covers(
        #[trigger] b.samples()[i],
    ) by {
        let p: Point = b.samples()[i];
        b.lemma_covers_in_bounds(p);
        if a.covers(p) {
            a.lemma_covers_in_bounds(p);
        }
    }
}

/// A valid rectangle and a valid circle that share no `x` coordinate, or no
/// `y` coordinate, do not collide, whichever of the two is asked.
pub proof fn lemma_rect_and_circle_apart(rect: Rect, circle: Circle)
    requires
        rect.is_valid(),
        circle.is_valid(),
        Shape::Rect(rect).apart(&Shape::Circle(circle)),
    ensures
        !rect.collides(&circle),
        !circle.collides(&rect),
{
    lemma_apart_never_collide(Shape::Rect(rect), Shape::Circle(circle));
}

/// The test reports no collision between valid shapes that have no point in
/// common: where it answers yes, some point lies in both.
pub proof fn lemma_collision_is_overlap(a: Shape, b: Shape)
    requires
        a.is_valid(),
        b.is_valid(),
        a.collides(&b),
    ensures
        exists|p: Point| a.covers(p) && b.covers(p),
{
    a.lemma_samples_inside();
    b.lemma_samples_inside();
    crate::collisions::lemma_collide_shares_point(&a, &b);
}

} // verus!
