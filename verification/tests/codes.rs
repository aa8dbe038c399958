use lines_are_rusty::{BrushType, Color, Error};

#[test]
fn brush_codes_0_and_12_are_the_same_brush() {
    assert_eq!(BrushType::try_from(0), Ok(BrushType::Brush));
    assert_eq!(BrushType::try_from(12), Ok(BrushType::Brush));
}

#[test]
fn every_brush_code_of_the_table() {
    let table = [
        (0, BrushType::Brush),
        (1, BrushType::TiltPencil),
        (2, BrushType::Pen),
        (3, BrushType::Marker),
        (4, BrushType::Fineliner),
        (5, BrushType::Highlighter),
        (6, BrushType::Eraser),
        (7, BrushType::SharpPencil),
        (8, BrushType::EraseArea),
        (9, BrushType::EraseAll),
        (10, BrushType::SelectionBrush),
        (11, BrushType::SelectionBrush),
        (12, BrushType::Brush),
        (13, BrushType::SharpPencil),
        (14, BrushType::TiltPencil),
        (15, BrushType::BallPoint),
        (16, BrushType::Marker),
        (17, BrushType::Fineliner),
        (18, BrushType::Highlighter),
        (21, BrushType::Calligraphy),
    ];
    for (code, brush) in table {
        assert_eq!(BrushType::try_from(code), Ok(brush));
    }
}

#[test]
fn brush_codes_outside_the_table_are_errors() {
    for code in [-1, 19, 20, 22, 99, i32::MAX, i32::MIN] {
        assert_eq!(BrushType::try_from(code), Err(Error::UnknownBrush(code)));
    }
}

#[test]
fn color_code_7_is_red() {
    assert_eq!(Color::try_from(7), Ok(Color::Red));
}

#[test]
fn color_code_99_is_an_error() {
    assert_eq!(Color::try_from(99), Err(Error::UnknownColor(99)));
}

#[test]
fn every_color_code_of_the_table() {
    assert_eq!(Color::try_from(0), Ok(Color::Black));
    assert_eq!(Color::try_from(1), Ok(Color::Grey));
    assert_eq!(Color::try_from(2), Ok(Color::White));
    assert_eq!(Color::try_from(6), Ok(Color::Blue));
    assert_eq!(Color::try_from(7), Ok(Color::Red));
    for code in [-1, 3, 4, 5, 8] {
        assert_eq!(Color::try_from(code), Err(Error::UnknownColor(code)));
    }
}

#[test]
fn defaults_are_fineliner_and_black() {
    assert_eq!(BrushType::default(), BrushType::Fineliner);
    assert_eq!(Color::default(), Color::Black);
}
