//! The numeric codes by which a stroke file names brushes and colours.

use vstd::prelude::*;
use crate::model::{BrushType, Color, Error, Line, LineView, Point, Real};

verus! {

/// The brush that a raw code stands for, if any.
///
/// The tablet's software changed the numbering over time and kept the set of brushes,
/// so several codes name one brush.
pub open spec fn brush_of_code(code: int) -> Option<BrushType> {
    if code == 0 || code == 12 {
        Some(BrushType::Brush)
    } else if code == 1 || code == 14 {
        Some(BrushType::TiltPencil)
    } else if code == 2 {
        Some(BrushType::Pen)
    } else if code == 3 || code == 16 {
        Some(BrushType::Marker)
    } else if code == 4 || code == 17 {
        Some(BrushType::Fineliner)
    } else if code == 5 || code == 18 {
        Some(BrushType::Highlighter)
    } else if code == 6 {
        Some(BrushType::Eraser)
    } else if code == 7 || code == 13 {
        Some(BrushType::SharpPencil)
    } else if code == 8 {
        Some(BrushType::EraseArea)
    } else if code == 9 {
        Some(BrushType::EraseAll)
    } else if code == 10 || code == 11 {
        Some(BrushType::SelectionBrush)
    } else if code == 15 {
        Some(BrushType::BallPoint)
    } else if code == 21 {
        Some(BrushType::Calligraphy)
    } else {
        None
    }
}

/// The colour that a raw code stands for, if any.
pub open spec fn color_of_code(code: int) -> Option<Color> {
    if code == 0 {
        Some(Color::Black)
    } else if code == 1 {
        Some(Color::Grey)
    } else if code == 2 {
        Some(Color::White)
    } else if code == 6 {
        Some(Color::Blue)
    } else if code == 7 {
        Some(Color::Red)
    } else {
        None
    }
}

impl BrushType {
    /// Decodes a raw brush code. A code outside the table is an error that holds it.
    pub fn try_from(value: i32) -> (r: Result<BrushType, Error>)
        ensures
            match brush_of_code(value as int) {
                Some(b) => r == Ok::<BrushType, Error>(b),
                None => r == Err::<BrushType, Error>(Error::UnknownBrush(value)),
            },
    {
        match value {
            0 => Ok(BrushType::Brush),
            1 => Ok(BrushType::TiltPencil),
            2 => Ok(BrushType::Pen),
            3 => Ok(BrushType::Marker),
            4 => Ok(BrushType::Fineliner),
            5 => Ok(BrushType::Highlighter),
            6 => Ok(BrushType::Eraser),
            7 => Ok(BrushType::SharpPencil),
            8 => Ok(BrushType::EraseArea),
            9 => Ok(BrushType::EraseAll),
            10 => Ok(BrushType::SelectionBrush),
            11 => Ok(BrushType::SelectionBrush),
            12 => Ok(BrushType::Brush),
            13 => Ok(BrushType::SharpPencil),
            14 => Ok(BrushType::TiltPencil),
            15 => Ok(BrushType::BallPoint),
            16 => Ok(BrushType::Marker),
            17 => Ok(BrushType::Fineliner),
            18 => Ok(BrushType::Highlighter),
            21 => Ok(BrushType::Calligraphy),
            v => Err(Error::UnknownBrush(v)),
        }
    }
}

impl Default for BrushType {
    fn default() -> (r: BrushType)
        ensures
            r == BrushType::Fineliner,
    {
        BrushType::Fineliner
    }
}

impl Color {
    /// Decodes a raw colour code. A code outside the table is an error that holds it.
    pub fn try_from(color_i: i32) -> (r: Result<Color, Error>)
        ensures
            match color_of_code(color_i as int) {
                Some(c) => r == Ok::<Color, Error>(c),
                None => r == Err::<Color, Error>(Error::UnknownColor(color_i)),
            },
    {
        match color_i {
            0 => Ok(Color::Black),
            1 => Ok(Color::Grey),
            2 => Ok(Color::White),
            6 => Ok(Color::Blue),
            7 => Ok(Color::Red),
            _ => Err(Error::UnknownColor(color_i)),
        }
    }
}

impl Default for Color {
    fn default() -> (r: Color)
        ensures
            r == Color::Black,
    {
        Color::Black
    }
}

impl Default for Line {
    fn default() -> (r: Line)
        ensures
            r@ == (LineView {
                brush_type: BrushType::Fineliner,
                color: Color::Black,
                unknown_line_attribute: 0,
                unknown_line_attribute_2: 0,
                brush_base_size: Real { bits: 0 },
                points: Seq::<Point>::empty(),
            }),
    {
        Line {
            brush_type: BrushType::Fineliner,
            color: Color::Black,
            unknown_line_attribute: 0,
            unknown_line_attribute_2: 0,
            brush_base_size: Real { bits: 0 },
            points: Vec::new(),
        }
    }
}

} // verus!
