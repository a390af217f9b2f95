//! Reading records of numbers, and what can go wrong when a shape is read.

use crate::number::parse_i32;
use crate::text::split_fields;
use vstd::prelude::*;

verus! {

/// Why a line describes no shape.
#[derive(Clone, Copy, Debug, PartialEq, Eq, Structural)]
pub enum ShapeParseError {
    /// The leading word of the line is neither `rect` nor `circle`.
    BadShape,
    /// The line holds more or fewer numbers than the shape has fields.
    FieldCount,
    /// A field is not a number, or not one that fits 32 bits.
    BadNumber,
}

/// The numbers that a record of `count` fields holds.
///
/// A record with another number of fields is refused first
/// ([`ShapeParseError::FieldCount`]), one with a field that
/// [`crate::number::i32_of`] cannot read second
/// ([`ShapeParseError::BadNumber`]).
pub open spec fn record_of(data: Seq<char>, count: nat) -> Result<Seq<i32>, ShapeParseError> {
    let parts: Seq<Seq<char>> = crate::text::fields(data);
    if parts.len() != count {
        Err(ShapeParseError::FieldCount)
    } else if exists|i: int| 0 <= i < parts.len() && (#[trigger] crate::number::i32_of(parts[i])) is None {
        Err(ShapeParseError::BadNumber)
    } else {
        Ok(Seq::new(parts.len(), |i: int| crate::number::i32_of(parts[i])->0))
    }
}

/// A record whose fields are the numbers `values` as
/// [`crate::number::number_text`] writes them is read as `values`.
pub proof fn lemma_record_of_numbers(data: Seq<char>, values: Seq<i32>)
    requires
        crate::text::fields(data) == Seq::new(
            values.len(),
            |i: int| crate::number::number_text(values[i] as int),
        ),
    ensures
        record_of(data, values.len()) == Ok::<Seq<i32>, ShapeParseError>(values),
{
    let parts: Seq<Seq<char>> = crate::text::fields(data);
    assert forall|i: int| 0 <= i < parts.len() implies (#[trigger] crate::number::i32_of(
        parts[i],
    )) == Some(values[i]) by {
        crate::number::lemma_number_text(values[i] as int);
    }
    assert(Seq::new(parts.len(), |i: int| crate::number::i32_of(parts[i])->0) =~= values);
}

/// Reads a record of `count` numbers.
pub fn parse_record(data: &Vec<char>, count: usize) -> (record: Result<Vec<i32>, ShapeParseError>)
    ensures
        match record {
            Ok(values) => record_of(data@, count as nat) == Ok::<Seq<i32>, ShapeParseError>(values@),
            Err(e) => record_of(data@, count as nat) == Err::<Seq<i32>, ShapeParseError>(e),
        },
{
    let parts = split_fields(data);
    let ghost texts: Seq<Seq<char>> = crate::text::fields(data@);
    if parts.len() != count {
        return Err(ShapeParseError::FieldCount);
    }
    let mut values: Vec<i32> = Vec::new();
    let mut i: usize = 0;
    while i < parts.len()
        invariant
            i <= parts.len(),
            values.len() == i,
            parts.len() == count,
            texts == crate::text::fields(data@),
            crate::text::texts(parts@) == texts,
            forall|k: int| 0 <= k < i ==> crate::number::i32_of(texts[k]) == Some(#[trigger] values@[k]),
        decreases parts.len() - i,
    {
        assert(parts@[i as int]@ == texts[i as int]);
        match parse_i32(&parts[i]) {
            Some(v) => {
                values.push(v);
            },
            None => {
                return Err(ShapeParseError::BadNumber);
            },
        }
        i += 1;
    }
    assert forall|k: int| 0 <= k < texts.len() implies (#[trigger] crate::number::i32_of(
        texts[k],
    )) is Some by {
        assert(crate::number::i32_of(texts[k]) == Some(values@[k]));
    }
    assert(values@ =~= Seq::new(texts.len(), |i: int| crate::number::i32_of(texts[i])->0));
    Ok(values)
}

} // verus!
