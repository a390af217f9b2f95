//! From a text that lists shapes to the report of their collisions.
//!
//! Each line of the text describes one shape. Lines that describe none are
//! passed over. Every shape is tested against the one listed just before it,
//! and each collision found gives one line of the report.

use crate::collisions::Collidable;
use crate::shape::Shape;
use crate::text::{chars_of, split_lines};
use vstd::prelude::*;

verus! {

/// The view of each string, in order.
pub open spec fn string_texts(strings: Seq<String>) -> Seq<Seq<char>> {
    Seq::new(strings.len(), |i: int| strings[i]@)
}

/// The shapes that `lines` describe, in order. A line that describes no
/// shape adds nothing.
pub open spec fn shapes_of(lines: Seq<Seq<char>>) -> Seq<Shape>
    decreases lines.len(),
{
    if lines.len() == 0 {
        Seq::empty()
    } else {
        let before: Seq<Shape> = shapes_of(lines.drop_last());
        match Shape::parse(lines.last()) {
            Ok(shape) => before.push(shape),
            Err(_) => before,
        }
    }
}

/// The line that reports the collision of `shape` with `previous`.
pub open spec fn collision_line(shape: Shape, previous: Shape) -> Seq<char> {
    shape.text() + " collides with "@ + previous.text()
}

/// The report on the first `n` of `shapes`: one line for each index `i` from
/// 1 up to, not including, `n` at which shape `i` collides with shape
/// `i - 1`, by rising `i`.
pub open spec fn collisions_of(shapes: Seq<Shape>, n: int) -> Seq<Seq<char>>
    decreases n,
{
    if n <= 1 {
        Seq::empty()
    } else {
        let before: Seq<Seq<char>> = collisions_of(shapes, n - 1);
        if shapes[n - 1].collides(&shapes[n - 2]) {
            before.push(collision_line(shapes[n - 1], shapes[n - 2]))
        } else {
            before
        }
    }
}

/// The report on a text: the collisions among the shapes that its lines
/// describe.
pub open spec fn report_of(text: Seq<char>) -> Seq<Seq<char>> {
    let shapes: Seq<Shape> = shapes_of(crate::text::lines(text));
    collisions_of(shapes, shapes.len() as int)
}

/// Lines of which none describes a shape give no shapes.
pub proof fn lemma_no_shape_in_lines(lines: Seq<Seq<char>>)
    requires
        forall|i: int| 0 <= i < lines.len() ==> (#[trigger] Shape::parse(lines[i])) is Err,
    ensures
        shapes_of(lines) == Seq::<Shape>::empty(),
    decreases lines.len(),
{
    if lines.len() > 0 {
        lemma_no_shape_in_lines(lines.drop_last());
    }
}

/// A text in which no line describes a shape has an empty report. The empty
/// text, which has no line, is one such.
pub proof fn lemma_no_shape_no_report(text: Seq<char>)
    requires
        forall|i: int|
            0 <= i < crate::text::lines(text).len() ==> (#[trigger] Shape::parse(
                crate::text::lines(text)[i],
            )) is Err,
    ensures
        shapes_of(crate::text::lines(text)) == Seq::<Shape>::empty(),
        report_of(text) == Seq::<Seq<char>>::empty(),
        text.len() == 0 ==> crate::text::lines(text) == Seq::<Seq<char>>::empty(),
{
    lemma_no_shape_in_lines(crate::text::lines(text));
}

/// Reads the shapes that the lines of `text` describe.
pub fn parse_shapes(text: &str) -> (shapes: Vec<Shape>)
    ensures
        shapes@ == shapes_of(crate::text::lines(text@)),
{
    let chars = chars_of(text);
    let lines = split_lines(&chars);
    let ghost all: Seq<Seq<char>> = crate::text::lines(text@);
    let mut shapes: Vec<Shape> = Vec::new();
    let mut i: usize = 0;
    while i < lines.len()
        invariant
            i <= lines.len(),
            crate::text::texts(lines@) == all,
            shapes@ == shapes_of(all.take(i as int)),
        decreases lines.len() - i,
    {
        assert(all.take(i + 1).drop_last() =~= all.take(i as int));
        match Shape::from_chars(&lines[i]) {
            Ok(shape) => {
                shapes.push(shape);
            },
            Err(_) => {},
        }
        i += 1;
    }
    assert(all.take(lines.len() as int) =~= all);
    shapes
}

/// Reports the collisions between each of `shapes` and the one before it.
pub fn collisions(shapes: &Vec<Shape>) -> (report: Vec<String>)
    ensures
        string_texts(report@) == collisions_of(shapes@, shapes@.len() as int),
{
    let n: usize = shapes.len();
    let mut report: Vec<String> = Vec::new();
    if n == 0 {
        return report;
    }
    let mut i: usize = 1;
    while i < n
        invariant
            1 <= i <= n,
            n == shapes.len(),
            string_texts(report@) == collisions_of(shapes@, i as int),
        decreases n - i,
    {
        if shapes[i].collide(&shapes[i - 1]) {
            let mut line = shapes[i].to_string();
            line.append(" collides with ");
            shapes[i - 1].write_to(&mut line);
            report.push(line);
        }
        i += 1;
    }
    report
}

/// Reports the collisions among the shapes that the lines of `text`
/// describe.
pub fn report(text: &str) -> (lines: Vec<String>)
    ensures
        string_texts(lines@) == report_of(text@),
{
    let shapes = parse_shapes(text);
    collisions(&shapes)
}

} // verus!
