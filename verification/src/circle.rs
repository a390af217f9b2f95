//! Circles.

use crate::collisions::{Contains, Point, Points};
use crate::number::push_number;
use crate::parse::{parse_record, ShapeParseError};
use crate::sampling::{scale, unit_cos_at, QUARTER, SAMPLES, UNIT};
use crate::text::chars_of;
use vstd::prelude::*;

verus! {

/// The circle of radius `radius` around the center `(x, y)`.
#[derive(Clone, Copy, Debug, PartialEq, Eq, Structural)]
pub struct Circle {
    pub x: i32,
    pub y: i32,
    pub radius: i32,
}

impl Circle {
    /// A circle is valid when its radius is positive.
    pub open spec fn is_valid(&self) -> bool {
        self.radius > 0
    }

    /// The boundary sample with index `i`, for `i` below [`SAMPLES`].
    ///
    /// Sample `i` lies in the direction of `10 * i` degrees from the center,
    /// counted from the positive `x` axis toward the positive `y` axis. Its
    /// offsets from the center are the radius times the cosine and the sine
    /// of that angle, taken from the table of [`crate::sampling::unit_cos`]
    /// and rounded toward the center.
    pub open spec fn sample(&self, i: int) -> Point {
        let step: int = i % (QUARTER as int);
        let far: int = crate::sampling::scaled(
            self.radius as int,
            crate::sampling::unit_cos(step),
            UNIT as int,
        );
        let near: int = crate::sampling::scaled(
            self.radius as int,
            crate::sampling::unit_cos(QUARTER - step),
            UNIT as int,
        );
        if i < QUARTER {
            ((self.x + far) as i64, (self.y + near) as i64)
        } else if i < 2 * QUARTER {
            ((self.x - near) as i64, (self.y + far) as i64)
        } else if i < 3 * QUARTER {
            ((self.x - far) as i64, (self.y - near) as i64)
        } else {
            ((self.x + near) as i64, (self.y - far) as i64)
        }
    }

    /// The circle that a record describes: its fields are `x`, `y` and
    /// `radius`, in this order.
    pub open spec fn parse(data: Seq<char>) -> Result<Circle, ShapeParseError> {
        match crate::parse::record_of(data, 3) {
            Ok(v) => Ok(Circle { x: v[0], y: v[1], radius: v[2] }),
            Err(e) => Err(e),
        }
    }

    /// The record that describes the circle: `x`, `y` and `radius`, with one
    /// space between two of them.
    pub open spec fn text(&self) -> Seq<char> {
        crate::number::number_text(self.x as int) + seq![' '] + crate::number::number_text(
            self.y as int,
        ) + seq![' '] + crate::number::number_text(self.radius as int)
    }

    /// Reads a circle from the characters of a record.
    pub fn from_chars(data: &Vec<char>) -> (circle: Result<Circle, ShapeParseError>)
        ensures
            circle == Circle::parse(data@),
    {
        match parse_record(data, 3) {
            Ok(v) => Ok(Circle { x: v[0], y: v[1], radius: v[2] }),
            Err(e) => Err(e),
        }
    }

    /// Reads a circle from a record.
    pub fn from_str(data: &str) -> (circle: Result<Circle, ShapeParseError>)
        ensures
            circle == Circle::parse(data@),
    {
        let chars = chars_of(data);
        Circle::from_chars(&chars)
    }

    /// Appends the record of the circle to `out`.
    pub fn write_to(&self, out: &mut String)
        ensures
            final(out)@ == old(out)@ + self.text(),
    {
        proof {
            reveal_strlit(" ");
        }
        push_number(out, self.x);
        out.append(" ");
        push_number(out, self.y);
        out.append(" ");
        push_number(out, self.radius);
    }

    /// The record of the circle.
    pub fn to_string(&self) -> (s: String)
        ensures
            s@ == self.text(),
            s@.len() > 0,
    {
        let mut out = String::new();
        self.write_to(&mut out);
        proof {
            crate::number::lemma_number_text(self.x as int);
        }
        out
    }

    /// Computes the boundary sample with index `i`.
    fn sample_at(&self, i: usize) -> (p: Point)
        requires
            i < SAMPLES,
        ensures
            p == self.sample(i as int),
    {
        let step: usize = i % QUARTER;
        let far: i64 = scale(self.radius, unit_cos_at(step), UNIT);
        let near: i64 = scale(self.radius, unit_cos_at(QUARTER - step), UNIT);
        let x: i64 = self.x as i64;
        let y: i64 = self.y as i64;
        if i < QUARTER {
            (x + far, y + near)
        } else if i < 2 * QUARTER {
            (x - near, y + far)
        } else if i < 3 * QUARTER {
            (x - far, y - near)
        } else {
            (x + near, y - far)
        }
    }

    /// What [`Circle::text`] writes, [`Circle::parse`] reads back as the same
    /// circle. The text does not start with a blank.
    pub proof fn lemma_text_reads_back(&self)
        ensures
            Circle::parse(self.text()) == Ok::<Circle, ShapeParseError>(*self),
            self.text().len() > 0,
            !crate::text::is_blank(self.text()[0]),
    {
        let a: Seq<char> = crate::number::number_text(self.x as int);
        let b: Seq<char> = crate::number::number_text(self.y as int);
        let c: Seq<char> = crate::number::number_text(self.radius as int);
        crate::number::lemma_number_text(self.x as int);
        crate::number::lemma_number_text(self.y as int);
        crate::number::lemma_number_text(self.radius as int);
        assert(self.text() =~= a + seq![' '] + (b + seq![' '] + c));
        crate::text::lemma_fields_cons(a, ' ', b + seq![' '] + c);
        crate::text::lemma_fields_cons(b, ' ', c);
        crate::text::lemma_fields_cons(c, ' ', Seq::empty());
        let values: Seq<i32> = seq![self.x, self.y, self.radius];
        assert(crate::text::fields(self.text()) =~= Seq::new(
            values.len(),
            |i: int| crate::number::number_text(values[i] as int),
        ));
        crate::parse::lemma_record_of_numbers(self.text(), values);
    }

    /// Every sample of a circle with a radius of at least zero lies in the
    /// circle, and the first one lies at `(x + radius, y)`.
    pub proof fn lemma_sample_inside(&self, i: int)
        requires
            0 <= i < SAMPLES,
            self.radius >= 0,
        ensures
            self.covers(self.sample(i)),
            i == 0 ==> self.sample(i) == ((self.x + self.radius) as i64, self.y as i64),
    {
        let step: int = i % (QUARTER as int);
        let c: int = crate::sampling::unit_cos(step);
        let s: int = crate::sampling::unit_cos(QUARTER - step);
        let r: int = self.radius as int;
        let far: int = crate::sampling::scaled(r, c, UNIT as int);
        let near: int = crate::sampling::scaled(r, s, UNIT as int);
        crate::sampling::lemma_unit_cos_bounds(step);
        crate::sampling::lemma_scaled_bounds(r, c, UNIT as int);
        crate::sampling::lemma_scaled_bounds(r, s, UNIT as int);
        crate::sampling::lemma_scaled_in_disc(r, c, s);
        assert((-far) * (-far) == far * far) by (nonlinear_arith);
        assert((-near) * (-near) == near * near) by (nonlinear_arith);
    }

    /// A point of the circle is no farther from the center than the radius,
    /// along either axis.
    pub proof fn lemma_covers_in_box(&self, point: Point)
        requires
            self.covers(point),
        ensures
            self.x - self.radius <= point.0 <= self.x + self.radius,
            self.y - self.radius <= point.1 <= self.y + self.radius,
    {
        let r: int = self.radius as int;
        let dx: int = point.0 - self.x;
        let dy: int = point.1 - self.y;
        assert(-r <= dx <= r && -r <= dy <= r) by (nonlinear_arith)
            requires
                r >= 0,
                dx * dx + dy * dy <= r * r,
        ;
    }
}

impl Points for Circle {
    open spec fn samples(&self) -> Seq<Point> {
        Seq::new(SAMPLES as nat, |i: int| self.sample(i))
    }

    fn points(&self) -> (pts: Vec<Point>) {
        let mut pts: Vec<Point> = Vec::new();
        let mut i: usize = 0;
        while i < SAMPLES
            invariant
                i <= SAMPLES,
                pts@.len() == i,
                forall|k: int| 0 <= k < i ==> pts@[k] == self.sample(k),
            decreases SAMPLES - i,
        {
            pts.push(self.sample_at(i));
            i += 1;
        }
        pts
    }
}

impl Contains for Circle {
    /// A point lies in the circle when its distance from the center is at
    /// most the radius; the comparison is made between the squares. A circle
    /// with a negative radius holds no point.
    open spec fn covers(&self, point: Point) -> bool {
        &&& self.radius >= 0
        &&& (point.0 - self.x) * (point.0 - self.x) + (point.1 - self.y) * (point.1 - self.y)
            <= self.radius * self.radius
    }

    fn contains_point(&self, point: Point) -> (inside: bool) {
        if self.radius < 0 {
            return false;
        }
        let r: i128 = self.radius as i128;
        let dx: i128 = point.0 as i128 - self.x as i128;
        let dy: i128 = point.1 as i128 - self.y as i128;
        if dx < -r || dx > r || dy < -r || dy > r {
            proof {
                if self.covers(point) {
                    self.lemma_covers_in_box(point);
                }
            }
            return false;
        }
        assert(0 <= dx * dx <= 0x8000_0000 * 0x8000_0000 && 0 <= dy * dy <= 0x8000_0000
            * 0x8000_0000 && 0 <= r * r <= 0x8000_0000 * 0x8000_0000) by (nonlinear_arith)
            requires
                0 <= r <= 0x8000_0000,
                -r <= dx <= r,
                -r <= dy <= r,
        ;
        dx * dx + dy * dy <= r * r
    }
}

} // verus!
