use shape_collide::report::{collisions, parse_shapes, report};
use shape_collide::{Circle, Rect, Shape};

#[test]
fn three_shapes_one_collision() {
    let text = "rect 0 0 10 10\ncircle 5 5 2\nrect 100 100 5 5\n";
    let shapes = parse_shapes(text);
    assert_eq!(
        shapes,
        vec![
            Shape::Rect(Rect { x: 0, y: 0, width: 10, height: 10 }),
            Shape::Circle(Circle { x: 5, y: 5, radius: 2 }),
            Shape::Rect(Rect { x: 100, y: 100, width: 5, height: 5 }),
        ]
    );
    let lines = report(text);
    assert_eq!(lines, vec![String::from("circle 5 5 2 collides with rect 0 0 10 10")]);
    assert_eq!(collisions(&shapes), lines);
}

#[test]
fn empty_text_gives_no_shapes_and_no_report() {
    assert_eq!(parse_shapes(""), Vec::<Shape>::new());
    assert_eq!(report(""), Vec::<String>::new());
    assert_eq!(collisions(&Vec::new()), Vec::<String>::new());
}

#[test]
fn unparseable_lines_give_no_shapes_and_no_report() {
    let text = "triangle 1,2,3\n\nhello\ncircle 1 2\nrect a b c d\n";
    assert_eq!(parse_shapes(text), Vec::<Shape>::new());
    assert_eq!(report(text), Vec::<String>::new());
}

#[test]
fn unparseable_lines_are_passed_over() {
    let text = "rect 0 0 10 10\ntriangle 1,2,3\ncircle 5 5 2\n";
    assert_eq!(
        parse_shapes(text),
        vec![
            Shape::Rect(Rect { x: 0, y: 0, width: 10, height: 10 }),
            Shape::Circle(Circle { x: 5, y: 5, radius: 2 }),
        ]
    );
    assert_eq!(report(text), vec![String::from("circle 5 5 2 collides with rect 0 0 10 10")]);
}

#[test]
fn one_shape_has_no_neighbour() {
    assert_eq!(report("circle 0 0 5"), Vec::<String>::new());
}

#[test]
fn each_shape_is_tested_against_the_one_before() {
    let text = "circle 0 0 5\ncircle 0 0 5\nrect 50 50 1 1\ncircle 0 0 5\nrect -1 -1 2 2";
    assert_eq!(
        report(text),
        vec![
            String::from("circle 0 0 5 collides with circle 0 0 5"),
            String::from("rect -1 -1 2 2 collides with circle 0 0 5"),
        ]
    );
}

#[test]
fn carriage_returns_and_missing_final_line_feed() {
    let text = "rect 0,0,10,10\r\ncircle 5,5,2\r\nrect 100,100,5,5";
    assert_eq!(report(text), vec![String::from("circle 5 5 2 collides with rect 0 0 10 10")]);
}
