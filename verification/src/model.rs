//! The document model: pages, layers, lines and points, and the errors of the library.

use vstd::prelude::*;

verus! {

/// An IEEE-754 single-precision number, held as its 32 bits.
///
/// The library never computes with such a number: it reads it, carries it and hands it
/// on, bit for bit.
#[derive(Clone, Copy, Debug, Default, PartialEq, Eq, Hash, Structural)]
pub struct Real {
    pub bits: u32,
}

impl Real {
    /// The number with the given bit pattern.
    pub fn from_bits(bits: u32) -> (r: Real)
        ensures
            r.bits == bits,
    {
        Real { bits }
    }

    /// The bit pattern of the number.
    pub fn to_bits(&self) -> (bits: u32)
        ensures
            bits == self.bits,
    {
        self.bits
    }
}

/// The logical pen or tool that drew a line.
#[derive(Clone, Copy, Debug, PartialEq, Eq, Hash, Structural)]
pub enum BrushType {
    BallPoint,
    Marker,
    Fineliner,
    SharpPencil,
    TiltPencil,
    Brush,
    Highlighter,
    Eraser,
    EraseArea,
    EraseAll,
    Calligraphy,
    Pen,
    SelectionBrush,
}

/// The nominal ink colour of a line.
#[derive(Clone, Copy, Debug, PartialEq, Eq, Hash, Structural)]
pub enum Color {
    Black,
    Grey,
    White,
    Blue,
    Red,
}

/// One sample of a stroke.
#[derive(Clone, Copy, Debug, Default, PartialEq, Eq, Structural)]
pub struct Point {
    pub x: Real,
    pub y: Real,
    pub speed: Real,
    pub direction: Real,
    pub width: Real,
    pub pressure: Real,
}

/// One continuous pen gesture.
#[derive(Clone, Debug, PartialEq, Eq)]
pub struct Line {
    pub brush_type: BrushType,
    pub color: Color,
    pub unknown_line_attribute: i32,
    pub unknown_line_attribute_2: i32,
    pub brush_base_size: Real,
    pub points: Vec<Point>,
}

/// What a [`Line`] holds, as a mathematical value.
pub ghost struct LineView {
    pub brush_type: BrushType,
    pub color: Color,
    pub unknown_line_attribute: i32,
    pub unknown_line_attribute_2: i32,
    pub brush_base_size: Real,
    pub points: Seq<Point>,
}

impl View for Line {
    type V = LineView;

    open spec fn view(&self) -> LineView {
        LineView {
            brush_type: self.brush_type,
            color: self.color,
            unknown_line_attribute: self.unknown_line_attribute,
            unknown_line_attribute_2: self.unknown_line_attribute_2,
            brush_base_size: self.brush_base_size,
            points: self.points@,
        }
    }
}

/// A group of lines with its own place in the drawing order.
#[derive(Clone, Debug, Default, PartialEq, Eq)]
pub struct Layer {
    pub lines: Vec<Line>,
}

/// The lines of a layer as mathematical values, in order.
pub open spec fn lines_view(lines: Seq<Line>) -> Seq<LineView> {
    Seq::new(lines.len(), |i: int| lines[i]@)
}

impl View for Layer {
    type V = Seq<LineView>;

    open spec fn view(&self) -> Seq<LineView> {
        lines_view(self.lines@)
    }
}

/// A page: its layers from bottom to top.
#[derive(Clone, Debug, Default, PartialEq, Eq)]
pub struct Page {
    pub layers: Vec<Layer>,
}

/// The layers of a page as mathematical values, from bottom to top.
pub open spec fn layers_view(layers: Seq<Layer>) -> Seq<Seq<LineView>> {
    Seq::new(layers.len(), |i: int| layers[i]@)
}

impl View for Page {
    type V = Seq<Seq<LineView>>;

    open spec fn view(&self) -> Seq<Seq<LineView>> {
        layers_view(self.layers@)
    }
}

/// The pages of a document as mathematical values, in order.
pub open spec fn pages_view(pages: Seq<Page>) -> Seq<Seq<Seq<LineView>>> {
    Seq::new(pages.len(), |i: int| pages[i]@)
}

/// A decoded stroke file.
#[derive(Clone, Debug, Default, PartialEq, Eq)]
pub struct LinesData {
    pub version: i32,
    pub pages: Vec<Page>,
}

/// What a [`LinesData`] holds, as a mathematical value.
pub ghost struct LinesDataView {
    pub version: i32,
    pub pages: Seq<Seq<Seq<LineView>>>,
}

impl View for LinesData {
    type V = LinesDataView;

    open spec fn view(&self) -> LinesDataView {
        LinesDataView { version: self.version, pages: pages_view(self.pages@) }
    }
}

/// Why the library refused an input.
#[derive(Clone, Debug, PartialEq, Eq)]
pub enum Error {
    /// The header names no version that the decoder reads; holds the trimmed header.
    UnsupportedVersion(String),
    /// A line's brush code stands for no brush.
    UnknownBrush(i32),
    /// A line's colour code stands for no colour.
    UnknownColor(i32),
    /// No page template has this name.
    UnknownTemplate(String),
    /// The page template of this name has no inside to lay under a page.
    MalformedTemplate(String),
    /// A line has no segment that starts at this point.
    InvalidSegmentIndex(usize),
    /// The bytes end before a field that the layout requires.
    Truncated,
    /// A count field holds a negative number.
    InvalidCount(i32),
}

/// An [`Error`] as a mathematical value.
pub ghost enum ErrorView {
    UnsupportedVersion(Seq<char>),
    UnknownBrush(i32),
    UnknownColor(i32),
    UnknownTemplate(Seq<char>),
    MalformedTemplate(Seq<char>),
    InvalidSegmentIndex(usize),
    Truncated,
    InvalidCount(i32),
}

impl View for Error {
    type V = ErrorView;

    open spec fn view(&self) -> ErrorView {
        match self {
            Error::UnsupportedVersion(s) => ErrorView::UnsupportedVersion(s@),
            Error::UnknownBrush(c) => ErrorView::UnknownBrush(*c),
            Error::UnknownColor(c) => ErrorView::UnknownColor(*c),
            Error::UnknownTemplate(s) => ErrorView::UnknownTemplate(s@),
            Error::MalformedTemplate(s) => ErrorView::MalformedTemplate(s@),
            Error::InvalidSegmentIndex(i) => ErrorView::InvalidSegmentIndex(*i),
            Error::Truncated => ErrorView::Truncated,
            Error::InvalidCount(c) => ErrorView::InvalidCount(*c),
        }
    }
}

impl Line {
    /// The two ends of the segment that begins at the point `i`. The last point of a
    /// line begins no segment, and neither does an index behind it.
    pub fn segment(&self, i: usize) -> (r: Result<(Point, Point), Error>)
        ensures
            i + 1 < self.points@.len() ==> r == Ok::<(Point, Point), Error>(
                (self.points@[i as int], self.points@[i + 1]),
            ),
            i + 1 >= self.points@.len() ==> r == Err::<(Point, Point), Error>(
                Error::InvalidSegmentIndex(i),
            ),
    {
        let n = self.points.len();
        if n < 2 || i > n - 2 {
            Err(Error::InvalidSegmentIndex(i))
        } else {
            Ok((self.points[i], self.points[i + 1]))
        }
    }

    /// A line through the given positions. Every point has its position from `points`
    /// and everything else from `template`. Brush and colour are the defaults, the
    /// attributes and the base size zero.
    pub fn with_points(template: Point, points: &[(Real, Real)]) -> (r: Line)
        ensures
            r.brush_type == BrushType::Fineliner,
            r.color == Color::Black,
            r.unknown_line_attribute == 0,
            r.unknown_line_attribute_2 == 0,
            r.brush_base_size == (Real { bits: 0 }),
            r.points@.len() == points@.len(),
            forall|i: int|
                0 <= i < points@.len() ==> #[trigger] r.points@[i] == (Point {
                    x: points@[i].0,
                    y: points@[i].1,
                    ..template
                }),
    {
        let mut line_points: Vec<Point> = Vec::new();
        let mut i: usize = 0;
        while i < points.len()
            invariant
                i <= points@.len(),
                line_points@.len() == i,
                forall|k: int|
                    0 <= k < i ==> #[trigger] line_points@[k] == (Point {
                        x: points@[k].0,
                        y: points@[k].1,
                        ..template
                    }),
            decreases points@.len() - i,
        {
            let mut point = template;
            point.x = points[i].0;
            point.y = points[i].1;
            line_points.push(point);
            i = i + 1;
        }
        Line {
            brush_type: BrushType::Fineliner,
            color: Color::Black,
            unknown_line_attribute: 0,
            unknown_line_attribute_2: 0,
            brush_base_size: Real { bits: 0 },
            points: line_points,
        }
    }
}

} // verus!
