//! Axis-aligned rectangles.

use crate::collisions::{Contains, Point, Points};
use crate::number::push_number;
use crate::parse::{parse_record, ShapeParseError};
use crate::sampling::{scale, QUARTER, SAMPLES};
use crate::text::chars_of;
use vstd::prelude::*;

verus! {

/// An axis-aligned rectangle that spans from `x` to `x + width` and from `y`
/// to `y + height`.
#[derive(Clone, Copy, Debug, PartialEq, Eq, Structural)]
pub struct Rect {
    pub x: i32,
    pub y: i32,
    pub width: i32,
    pub height: i32,
}

impl Rect {
    /// A rectangle is valid when neither of its sizes is negative.
    pub open spec fn is_valid(&self) -> bool {
        self.width >= 0 && self.height >= 0
    }

    /// The boundary sample with index `i`, for `i` below [`SAMPLES`].
    ///
    /// The samples walk the perimeter from the corner `(x, y)`: along the
    /// edge at `y`, up the edge at `x + width`, back along the edge at
    /// `y + height` and down the edge at `x`. Each edge contributes its
    /// starting corner and the points at 1/9, 2/9, .. 8/9 of its length,
    /// rounded toward the starting corner.
    pub open spec fn sample(&self, i: int) -> Point {
        let step: int = i % (QUARTER as int);
        let across: int = crate::sampling::scaled(self.width as int, step, QUARTER as int);
        let up: int = crate::sampling::scaled(self.height as int, step, QUARTER as int);
        if i < QUARTER {
            ((self.x + across) as i64, self.y as i64)
        } else if i < 2 * QUARTER {
            ((self.x + self.width) as i64, (self.y + up) as i64)
        } else if i < 3 * QUARTER {
            ((self.x + self.width - across) as i64, (self.y + self.height) as i64)
        } else {
            (self.x as i64, (self.y + self.height - up) as i64)
        }
    }

    /// The rectangle that a record describes: its fields are `x`, `y`,
    /// `width` and `height`, in this order.
    pub open spec fn parse(data: Seq<char>) -> Result<Rect, ShapeParseError> {
        match crate::parse::record_of(data, 4) {
            Ok(v) => Ok(Rect { x: v[0], y: v[1], width: v[2], height: v[3] }),
            Err(e) => Err(e),
        }
    }

    /// The record that describes the rectangle: `x`, `y`, `width` and
    /// `height`, with one space between two of them.
    pub open spec fn text(&self) -> Seq<char> {
        crate::number::number_text(self.x as int) + seq![' '] + crate::number::number_text(
            self.y as int,
        ) + seq![' '] + crate::number::number_text(self.width as int) + seq![' ']
            + crate::number::number_text(self.height as int)
    }

    /// Reads a rectangle from the characters of a record.
    pub fn from_chars(data: &Vec<char>) -> (rect: Result<Rect, ShapeParseError>)
        ensures
            rect == Rect::parse(data@),
    {
        match parse_record(data, 4) {
            Ok(v) => Ok(Rect { x: v[0], y: v[1], width: v[2], height: v[3] }),
            Err(e) => Err(e),
        }
    }

    /// Reads a rectangle from a record.
    pub fn from_str(data: &str) -> (rect: Result<Rect, ShapeParseError>)
        ensures
            rect == Rect::parse(data@),
    {
        let chars = chars_of(data);
        Rect::from_chars(&chars)
    }

    /// Appends the record of the rectangle to `out`.
    pub fn write_to(&self, out: &mut String)
        ensures
            final(out)@ == old(out)@ + self.text(),
    {
        proof {
            reveal_strlit(" ");
        }
        push_number(out, self.x);
        out.append(" ");
        push_number(out, self.y);
        out.append(" ");
        push_number(out, self.width);
        out.append(" ");
        push_number(out, self.height);
    }

    /// The record of the rectangle.
    pub fn to_string(&self) -> (s: String)
        ensures
            s@ == self.text(),
            s@.len() > 0,
    {
        let mut out = String::new();
        self.write_to(&mut out);
        proof {
            crate::number::lemma_number_text(self.x as int);
        }
        out
    }

    /// Width times height.
    pub fn area(&self) -> (a: i64)
        ensures
            a == self.width * self.height,
    {
        let w: i64 = self.width as i64;
        let h: i64 = self.height as i64;
        assert(-0x8000_0000 * 0x8000_0000 <= w * h <= 0x8000_0000 * 0x8000_0000)
            by (nonlinear_arith)
            requires
                -0x8000_0000 <= w <= 0x8000_0000,
                -0x8000_0000 <= h <= 0x8000_0000,
        ;
        w * h
    }

    /// Computes the boundary sample with index `i`.
    fn sample_at(&self, i: usize) -> (p: Point)
        requires
            i < SAMPLES,
        ensures
            p == self.sample(i as int),
    {
        let step: i64 = (i % QUARTER) as i64;
        let x: i64 = self.x as i64;
        let y: i64 = self.y as i64;
        let w: i64 = self.width as i64;
        let h: i64 = self.height as i64;
        if i < QUARTER {
            (x + scale(self.width, step, QUARTER as i64), y)
        } else if i < 2 * QUARTER {
            (x + w, y + scale(self.height, step, QUARTER as i64))
        } else if i < 3 * QUARTER {
            (x + w - scale(self.width, step, QUARTER as i64), y + h)
        } else {
            (x, y + h - scale(self.height, step, QUARTER as i64))
        }
    }

    /// What [`Rect::text`] writes, [`Rect::parse`] reads back as the same
    /// rectangle. The text does not start with a blank.
    pub proof fn lemma_text_reads_back(&self)
        ensures
            Rect::parse(self.text()) == Ok::<Rect, ShapeParseError>(*self),
            self.text().len() > 0,
            !crate::text::is_blank(self.text()[0]),
    {
        let a: Seq<char> = crate::number::number_text(self.x as int);
        let b: Seq<char> = crate::number::number_text(self.y as int);
        let c: Seq<char> = crate::number::number_text(self.width as int);
        let d: Seq<char> = crate::number::number_text(self.height as int);
        crate::number::lemma_number_text(self.x as int);
        crate::number::lemma_number_text(self.y as int);
        crate::number::lemma_number_text(self.width as int);
        crate::number::lemma_number_text(self.height as int);
        assert(self.text() =~= a + seq![' '] + (b + seq![' '] + (c + seq![' '] + d)));
        crate::text::lemma_fields_cons(a, ' ', b + seq![' '] + (c + seq![' '] + d));
        crate::text::lemma_fields_cons(b, ' ', c + seq![' '] + d);
        crate::text::lemma_fields_cons(c, ' ', d);
        crate::text::lemma_fields_cons(d, ' ', Seq::empty());
        let values: Seq<i32> = seq![self.x, self.y, self.width, self.height];
        assert(crate::text::fields(self.text()) =~= Seq::new(
            values.len(),
            |i: int| crate::number::number_text(values[i] as int),
        ));
        crate::parse::lemma_record_of_numbers(self.text(), values);
    }

    /// Every sample of a valid rectangle lies in it, and the first sample of
    /// each edge is a corner, whether the rectangle is valid or not.
    pub proof fn lemma_sample_inside(&self, i: int)
        requires
            0 <= i < SAMPLES,
        ensures
            self.is_valid() ==> self.covers(self.sample(i)),
            i == 0 ==> self.sample(i) == (self.x as i64, self.y as i64),
            i == QUARTER ==> self.sample(i) == ((self.x + self.width) as i64, self.y as i64),
            i == 2 * QUARTER ==> self.sample(i) == (
                (self.x + self.width) as i64,
                (self.y + self.height) as i64,
            ),
            i == 3 * QUARTER ==> self.sample(i) == (self.x as i64, (self.y + self.height) as i64),
    {
        let step: int = i % (QUARTER as int);
        crate::sampling::lemma_scaled_bounds(self.width as int, step, QUARTER as int);
        crate::sampling::lemma_scaled_bounds(self.height as int, step, QUARTER as int);
    }
}

impl Points for Rect {
    open spec fn samples(&self) -> Seq<Point> {
        Seq::new(SAMPLES as nat, |i: int| self.sample(i))
    }

    fn points(&self) -> (pts: Vec<Point>) {
        let mut pts: Vec<Point> = Vec::new();
        let mut i: usize = 0;
        while i < SAMPLES
            invariant
                i <= SAMPLES,
                pts@.len() == i,
                forall|k: int| 0 <= k < i ==> pts@[k] == self.sample(k),
            decreases SAMPLES - i,
        {
            pts.push(self.sample_at(i));
            i += 1;
        }
        pts
    }
}

impl Contains for Rect {
    /// A point lies in the rectangle when both coordinates are within its
    /// span, the edges included.
    open spec fn covers(&self, point: Point) -> bool {
        &&& self.x <= point.0 <= self.x + self.width
        &&& self.y <= point.1 <= self.y + self.height
    }

    fn contains_point(&self, point: Point) -> (inside: bool) {
        let x: i64 = self.x as i64;
        let y: i64 = self.y as i64;
        x <= point.0 && point.0 <= x + self.width as i64 && y <= point.1 && point.1 <= y
            + self.height as i64
    }
}

} // verus!
