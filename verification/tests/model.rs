use lines_are_rusty::{BrushType, Color, Error, Line, Point, Real};

fn num(v: f32) -> Real {
    Real::from_bits(v.to_bits())
}

fn three_points() -> Line {
    Line::with_points(
        Point { width: num(2.0), ..Default::default() },
        &[(num(0.0), num(0.0)), (num(3.0), num(4.0)), (num(6.0), num(4.0))],
    )
}

#[test]
fn with_points_takes_positions_and_the_rest_from_the_template() {
    let line = three_points();
    assert_eq!(line.brush_type, BrushType::Fineliner);
    assert_eq!(line.color, Color::Black);
    assert_eq!(line.unknown_line_attribute, 0);
    assert_eq!(line.unknown_line_attribute_2, 0);
    assert_eq!(line.brush_base_size, num(0.0));
    assert_eq!(line.points.len(), 3);
    let expected = [(0.0, 0.0), (3.0, 4.0), (6.0, 4.0)];
    for (point, (x, y)) in line.points.iter().zip(expected) {
        assert_eq!(f32::from_bits(point.x.bits), x);
        assert_eq!(f32::from_bits(point.y.bits), y);
        assert_eq!(f32::from_bits(point.width.bits), 2.0);
        assert_eq!(point.speed, Real::default());
        assert_eq!(point.direction, Real::default());
        assert_eq!(point.pressure, Real::default());
    }
}

#[test]
fn with_no_points() {
    let line = Line::with_points(Point::default(), &[]);
    assert!(line.points.is_empty());
    assert_eq!(line, Line::default());
}

#[test]
fn segment_gives_its_two_ends() {
    let line = three_points();
    assert_eq!(line.segment(0), Ok((line.points[0], line.points[1])));
    assert_eq!(line.segment(1), Ok((line.points[1], line.points[2])));
}

#[test]
fn no_segment_begins_at_the_last_point_or_behind_it() {
    let line = three_points();
    assert_eq!(line.segment(2), Err(Error::InvalidSegmentIndex(2)));
    assert_eq!(line.segment(3), Err(Error::InvalidSegmentIndex(3)));
    assert_eq!(line.segment(usize::MAX), Err(Error::InvalidSegmentIndex(usize::MAX)));
    let empty = Line::default();
    assert_eq!(empty.segment(0), Err(Error::InvalidSegmentIndex(0)));
    let single = Line::with_points(Point::default(), &[(num(1.0), num(1.0))]);
    assert_eq!(single.segment(0), Err(Error::InvalidSegmentIndex(0)));
}

#[test]
fn default_line() {
    let line = Line::default();
    assert_eq!(line.brush_type, BrushType::Fineliner);
    assert_eq!(line.color, Color::Black);
    assert_eq!(line.unknown_line_attribute, 0);
    assert_eq!(line.unknown_line_attribute_2, 0);
    assert_eq!(line.brush_base_size.bits, 0);
    assert!(line.points.is_empty());
}
