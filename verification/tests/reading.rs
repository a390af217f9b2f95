use shape_collide::number::{parse_i32, push_number};
use shape_collide::text::{chars_of, split_fields, split_lines};
use shape_collide::{Circle, Rect, Shape, ShapeParseError};

fn chars(s: &str) -> Vec<char> {
    s.chars().collect()
}

#[test]
fn parse_circle_with_commas() {
    assert_eq!(
        Shape::from_str("circle 0,0,5"),
        Ok(Shape::Circle(Circle { x: 0, y: 0, radius: 5 }))
    );
}

#[test]
fn parse_twice_gives_the_same_shape() {
    let first = Shape::from_str("circle 0,0,5");
    let second = Shape::from_str("circle 0,0,5");
    assert_eq!(first, second);
    let shape = first.unwrap();
    assert_eq!(shape.to_string(), "circle 0 0 5");
    assert_eq!(Shape::from_str(&shape.to_string()), Ok(shape));
    assert_eq!(shape.to_string(), second.unwrap().to_string());
}

#[test]
fn parse_rect_with_spaces() {
    assert_eq!(
        Shape::from_str("rect 0 0 10 10"),
        Ok(Shape::Rect(Rect { x: 0, y: 0, width: 10, height: 10 }))
    );
    assert_eq!(
        Shape::from_str("rect 100 100 5 5"),
        Ok(Shape::Rect(Rect { x: 100, y: 100, width: 5, height: 5 }))
    );
}

#[test]
fn parse_takes_fields_in_order() {
    assert_eq!(
        Shape::from_str("circle 1 2 3"),
        Ok(Shape::Circle(Circle { x: 1, y: 2, radius: 3 }))
    );
    assert_eq!(
        Shape::from_str("rect 1 2 3 4"),
        Ok(Shape::Rect(Rect { x: 1, y: 2, width: 3, height: 4 }))
    );
}

#[test]
fn parse_accepts_signs_and_mixed_separators() {
    assert_eq!(
        Shape::from_str("circle -1, +2 ,\t3"),
        Ok(Shape::Circle(Circle { x: -1, y: 2, radius: 3 }))
    );
    assert_eq!(
        Shape::from_str("rect   -2147483648,2147483647  007 -0\r"),
        Ok(Shape::Rect(Rect { x: i32::MIN, y: i32::MAX, width: 7, height: 0 }))
    );
}

#[test]
fn parse_does_not_validate_sizes() {
    assert_eq!(
        Shape::from_str("circle 0 0 -5"),
        Ok(Shape::Circle(Circle { x: 0, y: 0, radius: -5 }))
    );
    assert_eq!(
        Shape::from_str("rect 0 0 -1 -1"),
        Ok(Shape::Rect(Rect { x: 0, y: 0, width: -1, height: -1 }))
    );
}

#[test]
fn triangle_is_a_bad_shape() {
    assert_eq!(Shape::from_str("triangle 1,2,3"), Err(ShapeParseError::BadShape));
}

#[test]
fn kind_is_matched_exactly() {
    assert_eq!(Shape::from_str("Circle 0 0 5"), Err(ShapeParseError::BadShape));
    assert_eq!(Shape::from_str("RECT 0 0 5 5"), Err(ShapeParseError::BadShape));
    assert_eq!(Shape::from_str("circles 0 0 5"), Err(ShapeParseError::BadShape));
    assert_eq!(Shape::from_str("circle,0,0,5"), Err(ShapeParseError::BadShape));
    assert_eq!(Shape::from_str(" circle 0 0 5"), Err(ShapeParseError::BadShape));
    assert_eq!(Shape::from_str(""), Err(ShapeParseError::BadShape));
    assert_eq!(Shape::from_str("   "), Err(ShapeParseError::BadShape));
}

#[test]
fn line_without_blank_has_no_data() {
    assert_eq!(Shape::from_str("rect"), Err(ShapeParseError::FieldCount));
    assert_eq!(Shape::from_str("circle"), Err(ShapeParseError::FieldCount));
}

#[test]
fn wrong_number_of_fields() {
    assert_eq!(Shape::from_str("circle 1 2"), Err(ShapeParseError::FieldCount));
    assert_eq!(Shape::from_str("circle 1 2 3 4"), Err(ShapeParseError::FieldCount));
    assert_eq!(Shape::from_str("rect 1 2 3"), Err(ShapeParseError::FieldCount));
    assert_eq!(Shape::from_str("rect 1 2 3 4 5"), Err(ShapeParseError::FieldCount));
    assert_eq!(Shape::from_str("rect "), Err(ShapeParseError::FieldCount));
    assert_eq!(Shape::from_str("rect x"), Err(ShapeParseError::FieldCount));
}

#[test]
fn malformed_numbers() {
    assert_eq!(Shape::from_str("circle 1 2 x"), Err(ShapeParseError::BadNumber));
    assert_eq!(Shape::from_str("circle 1 2 3.5"), Err(ShapeParseError::BadNumber));
    assert_eq!(Shape::from_str("circle 1 - 3"), Err(ShapeParseError::BadNumber));
    assert_eq!(Shape::from_str("circle 1 --2 3"), Err(ShapeParseError::BadNumber));
    assert_eq!(Shape::from_str("circle 1 2 2147483648"), Err(ShapeParseError::BadNumber));
    assert_eq!(Shape::from_str("rect 1 2 3 -2147483649"), Err(ShapeParseError::BadNumber));
    assert_eq!(
        Shape::from_str("rect 1 2 3 99999999999999999999999999"),
        Err(ShapeParseError::BadNumber)
    );
    assert_eq!(Shape::from_str("rect 1 2 3 1e3"), Err(ShapeParseError::BadNumber));
}

#[test]
fn primitive_parsers_read_records() {
    assert_eq!(Circle::from_str("0,0,5"), Ok(Circle { x: 0, y: 0, radius: 5 }));
    assert_eq!(Circle::from_str(" 1 2 3 "), Ok(Circle { x: 1, y: 2, radius: 3 }));
    assert_eq!(Circle::from_str(""), Err(ShapeParseError::FieldCount));
    assert_eq!(Circle::from_str("1 2 z"), Err(ShapeParseError::BadNumber));
    assert_eq!(Rect::from_str("0 0 10 10"), Ok(Rect { x: 0, y: 0, width: 10, height: 10 }));
    assert_eq!(Rect::from_str("1,2,3"), Err(ShapeParseError::FieldCount));
    assert_eq!(Rect::from_str("1,2,3,"), Err(ShapeParseError::FieldCount));
    assert_eq!(Rect::from_str("a b c d"), Err(ShapeParseError::BadNumber));
    assert_eq!(
        Circle::from_chars(&chars("4 5 6")),
        Ok(Circle { x: 4, y: 5, radius: 6 })
    );
    assert_eq!(
        Rect::from_chars(&chars("4 5 6 7")),
        Ok(Rect { x: 4, y: 5, width: 6, height: 7 })
    );
    assert_eq!(
        Shape::from_chars(&chars("rect 4 5 6 7")),
        Ok(Shape::Rect(Rect { x: 4, y: 5, width: 6, height: 7 }))
    );
}

#[test]
fn rendering_is_exact() {
    assert_eq!(Shape::Circle(Circle { x: 5, y: 5, radius: 2 }).to_string(), "circle 5 5 2");
    assert_eq!(
        Shape::Rect(Rect { x: -1, y: 0, width: 10, height: 100 }).to_string(),
        "rect -1 0 10 100"
    );
    assert_eq!(
        Shape::Rect(Rect { x: i32::MIN, y: i32::MAX, width: -7, height: 1000000 }).to_string(),
        "rect -2147483648 2147483647 -7 1000000"
    );
    assert_eq!(Circle { x: 1, y: -2, radius: 30 }.to_string(), "1 -2 30");
    assert_eq!(Rect { x: 1, y: -2, width: 30, height: 4 }.to_string(), "1 -2 30 4");
}

#[test]
fn rendering_appends() {
    let mut out = String::from(">");
    Shape::Circle(Circle { x: 1, y: 2, radius: 3 }).write_to(&mut out);
    assert_eq!(out, ">circle 1 2 3");
    Rect { x: 4, y: 5, width: 6, height: 7 }.write_to(&mut out);
    assert_eq!(out, ">circle 1 2 34 5 6 7");
    Circle { x: 8, y: 9, radius: 10 }.write_to(&mut out);
    assert_eq!(out, ">circle 1 2 34 5 6 78 9 10");
}

#[test]
fn rendered_shapes_read_back() {
    let shapes = [
        Shape::Circle(Circle { x: 0, y: 0, radius: 5 }),
        Shape::Circle(Circle { x: -12, y: 340, radius: i32::MAX }),
        Shape::Rect(Rect { x: i32::MIN, y: -1, width: 0, height: 99 }),
        Shape::Rect(Rect { x: 10, y: 20, width: 30, height: 40 }),
    ];
    for shape in shapes {
        let text = shape.to_string();
        assert!(!text.is_empty());
        assert_eq!(Shape::from_str(&text), Ok(shape));
    }
}

#[test]
fn numbers_are_read() {
    assert_eq!(parse_i32(&chars("0")), Some(0));
    assert_eq!(parse_i32(&chars("42")), Some(42));
    assert_eq!(parse_i32(&chars("-42")), Some(-42));
    assert_eq!(parse_i32(&chars("+42")), Some(42));
    assert_eq!(parse_i32(&chars("0042")), Some(42));
    assert_eq!(parse_i32(&chars("-0")), Some(0));
    assert_eq!(parse_i32(&chars("2147483647")), Some(i32::MAX));
    assert_eq!(parse_i32(&chars("-2147483648")), Some(i32::MIN));
    assert_eq!(parse_i32(&chars("2147483648")), None);
    assert_eq!(parse_i32(&chars("-2147483649")), None);
    assert_eq!(parse_i32(&chars("00000000000000000000001")), Some(1));
    assert_eq!(parse_i32(&chars("")), None);
    assert_eq!(parse_i32(&chars("-")), None);
    assert_eq!(parse_i32(&chars("+")), None);
    assert_eq!(parse_i32(&chars("4 2")), None);
    assert_eq!(parse_i32(&chars("4-2")), None);
    assert_eq!(parse_i32(&chars("12a")), None);
    assert_eq!(parse_i32(&chars("\u{0663}")), None);
}

#[test]
fn numbers_are_written() {
    for (value, text) in [
        (0, "0"),
        (7, "7"),
        (10, "10"),
        (-1, "-1"),
        (1234567890, "1234567890"),
        (i32::MAX, "2147483647"),
        (i32::MIN, "-2147483648"),
    ] {
        let mut out = String::new();
        push_number(&mut out, value);
        assert_eq!(out, text);
        assert_eq!(parse_i32(&chars(text)), Some(value));
    }
}

#[test]
fn fields_are_the_stretches_between_separators() {
    let parts = split_fields(&chars(" a,b  c,,d\t"));
    assert_eq!(parts, vec![chars("a"), chars("b"), chars("c"), chars("d")]);
    assert_eq!(split_fields(&chars("")), Vec::<Vec<char>>::new());
    assert_eq!(split_fields(&chars(" , ,")), Vec::<Vec<char>>::new());
    assert_eq!(split_fields(&chars("one")), vec![chars("one")]);
}

#[test]
fn lines_end_at_line_feeds() {
    assert_eq!(split_lines(&chars("")), Vec::<Vec<char>>::new());
    assert_eq!(split_lines(&chars("a")), vec![chars("a")]);
    assert_eq!(split_lines(&chars("a\n")), vec![chars("a")]);
    assert_eq!(split_lines(&chars("a\nb")), vec![chars("a"), chars("b")]);
    assert_eq!(split_lines(&chars("a\n\nb\n")), vec![chars("a"), chars(""), chars("b")]);
    assert_eq!(split_lines(&chars("\n")), vec![chars("")]);
    assert_eq!(split_lines(&chars("a\r\nb")), vec![chars("a\r"), chars("b")]);
}

#[test]
fn chars_of_a_string() {
    assert_eq!(chars_of("rect 1"), chars("rect 1"));
    assert_eq!(chars_of(""), chars(""));
    assert_eq!(chars_of("\u{00e9}\u{4e2d}"), vec!['\u{00e9}', '\u{4e2d}']);
}

#[test]
fn every_number_written_reads_back() {
    let mut state: u64 = 99;
    for _ in 0..2000 {
        state = state.wrapping_mul(6364136223846793005).wrapping_add(1442695040888963407);
        let value = (state >> 32) as u32 as i32;
        let shape = Shape::Circle(Circle { x: value, y: value.wrapping_neg(), radius: value / 1000 });
        assert_eq!(Shape::from_str(&shape.to_string()), Ok(shape));
        let mut out = String::new();
        push_number(&mut out, value);
        assert_eq!(out, format!("{}", value));
    }
}
