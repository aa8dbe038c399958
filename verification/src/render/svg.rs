//! The vector-markup target: what is drawn for each line of a page, and in which frame.
//!
//! Nothing here writes markup. The functions decide what the markup holds: the paths,
//! the points they visit, their strokes, colours and classes. Widths and opacities are
//! given by the numbers they come from and the rule that applies to them.

use vstd::prelude::*;
use crate::model::{BrushType, Layer, Line, LineView, Page, Point, Real};
use crate::palette::{LayerColorView, LayerColors};
use crate::render::renderlib::{
    css_color_of, is_simplification, line_to_css_color, simplify, strategy_of, Strategy,
};

verus! {

/// The bits of the factor 0.8 by which a scaled stroke width is multiplied.
pub const WIDTH_FACTOR_BITS: u32 = 0x3f4c_cccd;

/// The bits of the opacity 0.25 of highlighter ink.
pub const HIGHLIGHTER_OPACITY_BITS: u32 = 0x3e80_0000;

/// The bits of the exponent 5 to which a ball-point's pressure is raised.
pub const PRESSURE_EXPONENT_BITS: u32 = 0x40a0_0000;

/// The bits of the opacity 0.7 that a ball-point has at no pressure.
pub const PRESSURE_FLOOR_BITS: u32 = 0x3f33_3333;

/// The width of a page that is not cropped.
pub const PAGE_WIDTH: u32 = 1404;

/// The height of a page that is not cropped.
pub const PAGE_HEIGHT: u32 = 1872;

/// How the end of a stroke is shaped.
#[derive(Clone, Copy, Debug, PartialEq, Eq, Structural)]
pub enum LineCap {
    Butt,
    Round,
}

/// How the corners of a stroke are shaped.
#[derive(Clone, Copy, Debug, PartialEq, Eq, Structural)]
pub enum LineJoin {
    Bevel,
    Round,
}

/// The width of a stroke.
#[derive(Clone, Copy, Debug, PartialEq, Eq, Structural)]
pub enum StrokeWidth {
    /// The width of a point, as it is.
    Raw(Real),
    /// The width of a point, times the width factor.
    Scaled(Real),
}

/// The opacity of a stroke.
#[derive(Clone, Copy, Debug, PartialEq, Eq, Structural)]
pub enum Opacity {
    /// Opaque.
    Full,
    /// The highlighter's fixed opacity.
    Highlighter,
    /// The pressure of a point raised to the pressure exponent, plus the pressure floor.
    Pressure(Real),
}

/// How a path is stroked.
#[derive(Clone, Copy, Debug, PartialEq, Eq, Structural)]
pub struct Stroke {
    pub width: StrokeWidth,
    pub opacity: Opacity,
    pub cap: LineCap,
    pub join: LineJoin,
}

/// The stroke of a line drawn at one width, which is the width of its first point.
///
/// Highlighter ink has that width as it is, a quarter of the opacity, flat ends and
/// bevelled corners. Every other brush has the scaled width and round ends and corners.
pub open spec fn constant_stroke(brush: BrushType, first: Point) -> Stroke {
    if brush == BrushType::Highlighter {
        Stroke {
            width: StrokeWidth::Raw(first.width),
            opacity: Opacity::Highlighter,
            cap: LineCap::Butt,
            join: LineJoin::Bevel,
        }
    } else {
        Stroke {
            width: StrokeWidth::Scaled(first.width),
            opacity: Opacity::Full,
            cap: LineCap::Round,
            join: LineJoin::Round,
        }
    }
}

/// The stroke of one piece of a line drawn at varying width, which ends at `trailing`:
/// that point's scaled width, and round ends and corners. A ball-point's opacity
/// follows the pressure at that point; every other brush is opaque.
pub open spec fn segment_stroke(brush: BrushType, trailing: Point) -> Stroke {
    Stroke {
        width: StrokeWidth::Scaled(trailing.width),
        opacity: if brush == BrushType::BallPoint {
            Opacity::Pressure(trailing.pressure)
        } else {
            Opacity::Full
        },
        cap: LineCap::Round,
        join: LineJoin::Round,
    }
}

/// One path along a whole line.
#[derive(Clone, Debug, PartialEq, Eq)]
pub struct Path {
    /// The points of the line that the path visits, by their indices, in order.
    pub points: Vec<usize>,
    pub stroke: Stroke,
    /// The CSS colour of the path.
    pub color: String,
    /// The brush, by which the path is classed.
    pub class: BrushType,
    /// Whether the path carries a description of its line.
    pub tooltip: bool,
}

/// One piece of a line drawn at varying width: a straight path between two points of
/// the line, given by their indices.
#[derive(Clone, Copy, Debug, PartialEq, Eq, Structural)]
pub struct Segment {
    pub from: usize,
    pub to: usize,
    pub stroke: Stroke,
}

/// The pieces of a line drawn at varying width.
#[derive(Clone, Debug, PartialEq, Eq)]
pub struct Group {
    pub segments: Vec<Segment>,
    /// The CSS colour of the pieces.
    pub color: String,
    /// The brush, by which the group is classed.
    pub class: BrushType,
    /// Whether each piece carries a description of its two points.
    pub tooltip: bool,
}

/// The pieces between the points that simplification has kept, each with the stroke
/// that its trailing point gives it.
pub open spec fn segments_of(line: LineView, kept: Seq<usize>) -> Seq<Segment> {
    Seq::new(
        if kept.len() > 0 {
            (kept.len() - 1) as nat
        } else {
            0
        },
        |k: int|
            Segment {
                from: kept[k],
                to: kept[k + 1],
                stroke: segment_stroke(line.brush_type, line.points[kept[k + 1] as int]),
            },
    )
}

/// Whether `r` is the path of `line` drawn at one width: none for a line without
/// points, else a path along the points that simplification keeps.
pub open spec fn is_constant_width_path<F: Fn(Point, Point) -> bool>(
    line: LineView,
    css_color: Seq<char>,
    closer: F,
    debug_dump: bool,
    r: Option<Path>,
) -> bool {
    if line.points.len() == 0 {
        r is None
    } else {
        &&& r matches Some(path)
        &&& is_simplification(line.points, closer, path.points@)
        &&& path.stroke == constant_stroke(line.brush_type, line.points[0])
        &&& path.color@ == css_color
        &&& path.class == line.brush_type
        &&& path.tooltip == debug_dump
    }
}

/// Whether `r` is the group of `line` drawn at varying width: none for a line without
/// points, else the pieces between the points that simplification keeps.
pub open spec fn is_variable_width_group<F: Fn(Point, Point) -> bool>(
    line: LineView,
    css_color: Seq<char>,
    closer: F,
    debug_dump: bool,
    r: Option<Group>,
) -> bool {
    if line.points.len() == 0 {
        r is None
    } else {
        &&& r matches Some(group)
        &&& exists|kept: Seq<usize>| #[trigger]
            is_simplification(line.points, closer, kept) && group.segments@ == segments_of(
                line,
                kept,
            )
        &&& group.color@ == css_color
        &&& group.class == line.brush_type
        &&& group.tooltip == debug_dump
    }
}

/// The path of a line drawn at one width.
///
/// `closer(p, q)` says whether `p` lies closer to `q` than the distance below which
/// points are left out.
pub fn render_constant_width_line<F: Fn(Point, Point) -> bool>(
    line: &Line,
    css_color: &str,
    closer: &F,
    debug_dump: bool,
) -> (r: Option<Path>)
    requires
        forall|p: Point, q: Point| closer.requires((p, q)),
    ensures
        is_constant_width_path(line@, css_color@, *closer, debug_dump, r),
{
    if line.points.len() == 0 {
        return None;
    }
    let first = line.points[0];
    let points = simplify(&line.points, closer);
    let stroke = match line.brush_type {
        BrushType::Highlighter => Stroke {
            width: StrokeWidth::Raw(first.width),
            opacity: Opacity::Highlighter,
            cap: LineCap::Butt,
            join: LineJoin::Bevel,
        },
        _ => Stroke {
            width: StrokeWidth::Scaled(first.width),
            opacity: Opacity::Full,
            cap: LineCap::Round,
            join: LineJoin::Round,
        },
    };
    Some(
        Path {
            points,
            stroke,
            color: css_color.to_owned(),
            class: line.brush_type,
            tooltip: debug_dump,
        },
    )
}

/// The pieces of a line drawn at varying width.
///
/// `closer(p, q)` says whether `p` lies closer to `q` than the distance below which
/// points are left out.
pub fn render_variable_width_line<F: Fn(Point, Point) -> bool>(
    line: &Line,
    css_color: &str,
    closer: &F,
    debug_dump: bool,
) -> (r: Option<Group>)
    requires
        forall|p: Point, q: Point| closer.requires((p, q)),
    ensures
        is_variable_width_group(line@, css_color@, *closer, debug_dump, r),
{
    if line.points.len() == 0 {
        return None;
    }
    let kept = simplify(&line.points, closer);
    let mut segments: Vec<Segment> = Vec::new();
    let mut k: usize = 1;
    while k < kept.len()
        invariant
            1 <= k <= kept@.len(),
            line.points@.len() > 0,
            is_simplification(line.points@, *closer, kept@),
            segments@.len() == k - 1,
            forall|i: int| 0 <= i < k - 1 ==> #[trigger] segments@[i] == segments_of(line@, kept@)[i],
        decreases kept@.len() - k,
    {
        let to = kept[k];
        assert(kept@[k as int] <= kept@.last());
        let trailing = line.points[to];
        let opacity = match line.brush_type {
            BrushType::BallPoint => Opacity::Pressure(trailing.pressure),
            _ => Opacity::Full,
        };
        segments.push(
            Segment {
                from: kept[k - 1],
                to,
                stroke: Stroke {
                    width: StrokeWidth::Scaled(trailing.width),
                    opacity,
                    cap: LineCap::Round,
                    join: LineJoin::Round,
                },
            },
        );
        k = k + 1;
    }
    assert(segments@ =~= segments_of(line@, kept@));
    Some(
        Group {
            segments,
            color: css_color.to_owned(),
            class: line.brush_type,
            tooltip: debug_dump,
        },
    )
}

/// What is drawn for one line.
#[derive(Clone, Debug, PartialEq, Eq)]
pub enum Drawing {
    /// The path of a line drawn at one width; none where the line has no points.
    Path(Option<Path>),
    /// The group of a line drawn at varying width; none where the line has no points.
    Group(Option<Group>),
}

/// What is drawn for one layer: its lines that leave ink, in order.
#[derive(Clone, Debug, PartialEq, Eq)]
pub struct LayerGroup {
    /// The lines that are drawn, by their indices in the layer, in order.
    pub lines: Vec<usize>,
    /// What is drawn for each of them.
    pub drawings: Vec<Drawing>,
}

/// The frame in which a page is shown.
#[derive(Clone, Copy, Debug, PartialEq, Eq, Structural)]
pub enum Frame {
    /// The whole page, `PAGE_WIDTH` by `PAGE_HEIGHT`.
    Nominal,
    /// The smallest box around all points of the page.
    Content,
    /// A crop was asked for, and the page has no point to put a box around.
    Empty,
}

/// What is drawn for one page.
#[derive(Clone, Debug, PartialEq, Eq)]
pub struct Document {
    /// One group per layer of the page, from bottom to top.
    pub layers: Vec<LayerGroup>,
    pub frame: Frame,
    /// Whether the document carries the style sheet that marks the path under the pointer.
    pub debug_style: bool,
}

/// The lines that leave ink, by their indices, in order.
pub open spec fn visible_lines(lines: Seq<LineView>) -> Seq<usize>
    decreases lines.len(),
{
    if lines.len() == 0 {
        Seq::empty()
    } else {
        let before = visible_lines(lines.drop_last());
        if strategy_of(lines.last().brush_type) == Strategy::Suppressed {
            before
        } else {
            before.push((lines.len() - 1) as usize)
        }
    }
}

/// Whether `drawing` is what is drawn for a line that leaves ink.
pub open spec fn is_drawing_of<F: Fn(Point, Point) -> bool>(
    line: LineView,
    css_color: Seq<char>,
    closer: F,
    debug_dump: bool,
    drawing: Drawing,
) -> bool {
    match drawing {
        Drawing::Path(path) => strategy_of(line.brush_type) == Strategy::ConstantWidth
            && is_constant_width_path(line, css_color, closer, debug_dump, path),
        Drawing::Group(group) => strategy_of(line.brush_type) == Strategy::VariableWidth
            && is_variable_width_group(line, css_color, closer, debug_dump, group),
    }
}

/// Whether `group` is what is drawn for the layer `layer_id`: one drawing for each of
/// its lines that leaves ink, in order, in the colour that the layer's palette gives.
pub open spec fn is_layer_group<F: Fn(Point, Point) -> bool>(
    lines: Seq<LineView>,
    layer_id: int,
    palettes: Seq<LayerColorView>,
    closer: F,
    debug_dump: bool,
    group: LayerGroup,
) -> bool {
    &&& group.lines@ == visible_lines(lines)
    &&& group.drawings@.len() == group.lines@.len()
    &&& forall|k: int| 0 <= k < group.lines@.len() ==> 0 <= #[trigger] group.lines@[k] < lines.len()
    &&& forall|k: int|
        0 <= k < group.drawings@.len() ==> is_drawing_of(
            lines[group.lines@[k] as int],
            css_color_of(lines[group.lines@[k] as int], layer_id, palettes),
            closer,
            debug_dump,
            #[trigger] group.drawings@[k],
        )
}

/// Whether some line of the page has a point.
pub open spec fn has_points(page: Seq<Seq<LineView>>) -> bool {
    exists|i: int, j: int|
        0 <= i < page.len() && 0 <= j < page[i].len() && (#[trigger] page[i][j]).points.len() > 0
}

/// The frame of a page: the nominal page unless a crop is asked for; then the box
/// around its points, or the mark that there is none.
pub open spec fn frame_of(page: Seq<Seq<LineView>>, auto_crop: bool) -> Frame {
    if !auto_crop {
        Frame::Nominal
    } else if has_points(page) {
        Frame::Content
    } else {
        Frame::Empty
    }
}

/// Whether every line that asks its layer's palette for a colour has one to ask.
pub open spec fn palettes_suffice(page: Seq<Seq<LineView>>, palettes: Seq<LayerColorView>) -> bool {
    forall|i: int, j: int|
        0 <= i < page.len() && 0 <= j < page[i].len() && (#[trigger] page[i][j]).brush_type
            != BrushType::Highlighter ==> i < palettes.len()
}

/// A line leaves something to draw exactly if its brush is not suppressed: the lines of
/// an eraser, of an erased area, of a wiped page and of a selection are never drawn.
pub proof fn lemma_visible_lines(lines: Seq<LineView>)
    requires
        lines.len() <= usize::MAX,
    ensures
        forall|k: int|
            0 <= k < visible_lines(lines).len() ==> 0 <= #[trigger] visible_lines(lines)[k]
                < lines.len(),
        forall|i: int|
            0 <= i < lines.len() ==> (visible_lines(lines).contains(i as usize) <==> strategy_of(
                (#[trigger] lines[i]).brush_type,
            ) != Strategy::Suppressed),
    decreases lines.len(),
{
    if lines.len() > 0 {
        let front = lines.drop_last();
        let last = (lines.len() - 1) as usize;
        lemma_visible_lines(front);
        let before = visible_lines(front);
        assert forall|i: int| 0 <= i < lines.len() implies (visible_lines(lines).contains(
            i as usize,
        ) <==> strategy_of((#[trigger] lines[i]).brush_type) != Strategy::Suppressed) by {
            if i < lines.len() - 1 {
                assert(front[i] == lines[i]);
                if before.contains(i as usize) {
                    let k = choose|k: int| 0 <= k < before.len() && before[k] == i as usize;
                    assert(visible_lines(lines)[k] == i as usize);
                }
                if visible_lines(lines).contains(i as usize) {
                    let k = choose|k: int|
                        0 <= k < visible_lines(lines).len() && visible_lines(lines)[k] == i as usize;
                    assert(k < before.len());
                    assert(before[k] == i as usize);
                }
            } else {
                if strategy_of(lines.last().brush_type) != Strategy::Suppressed {
                    assert(visible_lines(lines)[before.len() as int] == last);
                } else {
                    if before.contains(i as usize) {
                        let k = choose|k: int| 0 <= k < before.len() && before[k] == i as usize;
                        assert(before[k] < front.len());
                    }
                }
            }
        }
    }
}

/// Whether some line of the page has a point.
pub fn page_has_points(page: &Page) -> (r: bool)
    ensures
        r == has_points(page@),
{
    let mut i: usize = 0;
    while i < page.layers.len()
        invariant
            i <= page.layers@.len(),
            forall|a: int, b: int|
                0 <= a < i && 0 <= b < page@[a].len() ==> (#[trigger] page@[a][b]).points.len() == 0,
        decreases page.layers@.len() - i,
    {
        let layer = &page.layers[i];
        assert(page@[i as int] == layer@);
        let mut j: usize = 0;
        while j < layer.lines.len()
            invariant
                i < page.layers@.len(),
                page@[i as int] == layer@,
                j <= layer.lines@.len(),
                forall|b: int| 0 <= b < j ==> (#[trigger] layer@[b]).points.len() == 0,
            decreases layer.lines@.len() - j,
        {
            if layer.lines[j].points.len() > 0 {
                assert(page@[i as int][j as int].points.len() > 0);
                return true;
            }
            j = j + 1;
        }
        i = i + 1;
    }
    false
}

/// The frame in which a page is shown.
///
/// A crop of a page without points has no box to show: the result says so, and leaves
/// it to the caller what to show instead.
pub fn frame(page: &Page, auto_crop: bool) -> (r: Frame)
    ensures
        r == frame_of(page@, auto_crop),
{
    if !auto_crop {
        Frame::Nominal
    } else if page_has_points(page) {
        Frame::Content
    } else {
        Frame::Empty
    }
}

/// What is drawn for the layer `layer_id` of a page.
pub fn render_layer<F: Fn(Point, Point) -> bool>(
    layer: &Layer,
    layer_id: usize,
    layer_colors: &LayerColors,
    closer: &F,
    debug_dump: bool,
) -> (r: LayerGroup)
    requires
        forall|p: Point, q: Point| closer.requires((p, q)),
        forall|j: int|
            0 <= j < layer@.len() && (#[trigger] layer@[j]).brush_type != BrushType::Highlighter
                ==> layer_id < layer_colors@.len(),
    ensures
        is_layer_group(layer@, layer_id as int, layer_colors@, *closer, debug_dump, r),
        forall|j: int|
            0 <= j < layer@.len() && strategy_of((#[trigger] layer@[j]).brush_type)
                == Strategy::Suppressed ==> !r.lines@.contains(j as usize),
{
    let mut lines: Vec<usize> = Vec::new();
    let mut drawings: Vec<Drawing> = Vec::new();
    let mut j: usize = 0;
    assert(layer@.take(0) =~= Seq::empty());
    while j < layer.lines.len()
        invariant
            j <= layer.lines@.len(),
            forall|p: Point, q: Point| closer.requires((p, q)),
            forall|j: int|
                0 <= j < layer@.len() && (#[trigger] layer@[j]).brush_type != BrushType::Highlighter
                    ==> layer_id < layer_colors@.len(),
            lines@ == visible_lines(layer@.take(j as int)),
            drawings@.len() == lines@.len(),
            forall|k: int| 0 <= k < lines@.len() ==> 0 <= #[trigger] lines@[k] < j,
            forall|k: int|
                0 <= k < drawings@.len() ==> is_drawing_of(
                    layer@[lines@[k] as int],
                    css_color_of(layer@[lines@[k] as int], layer_id as int, layer_colors@),
                    *closer,
                    debug_dump,
                    #[trigger] drawings@[k],
                ),
        decreases layer.lines@.len() - j,
    {
        let line = &layer.lines[j];
        assert(layer@[j as int] == line@);
        assert(layer@.take(j + 1).drop_last() =~= layer@.take(j as int));
        assert(layer@.take(j + 1).last() == line@);
        let css_color = line_to_css_color(line, layer_id, layer_colors);
        let ghost lines_before = lines@;
        let ghost drawings_before = drawings@;
        match line.brush_type.strategy() {
            Strategy::ConstantWidth => {
                let path = render_constant_width_line(line, css_color, closer, debug_dump);
                lines.push(j);
                drawings.push(Drawing::Path(path));
            },
            Strategy::VariableWidth => {
                let group = render_variable_width_line(line, css_color, closer, debug_dump);
                lines.push(j);
                drawings.push(Drawing::Group(group));
            },
            Strategy::Suppressed => {},
        }
        assert forall|k: int| 0 <= k < drawings@.len() implies is_drawing_of(
            layer@[lines@[k] as int],
            css_color_of(layer@[lines@[k] as int], layer_id as int, layer_colors@),
            *closer,
            debug_dump,
            #[trigger] drawings@[k],
        ) by {
            if k < drawings_before.len() {
                assert(drawings@[k] == drawings_before[k]);
                assert(lines@[k] == lines_before[k]);
            }
        }
        j = j + 1;
    }
    proof {
        assert(layer@.take(j as int) =~= layer@);
        lemma_visible_lines(layer@);
    }
    LayerGroup { lines, drawings }
}

/// What is drawn for a page.
///
/// `closer(p, q)` says whether `p` lies closer to `q` than the distance below which
/// points are left out. Each layer gets the palette at its index.
pub fn render_svg<F: Fn(Point, Point) -> bool>(
    page: &Page,
    auto_crop: bool,
    layer_colors: &LayerColors,
    closer: &F,
    debug_dump: bool,
) -> (r: Document)
    requires
        forall|p: Point, q: Point| closer.requires((p, q)),
        palettes_suffice(page@, layer_colors@),
    ensures
        r.layers@.len() == page@.len(),
        forall|i: int|
            0 <= i < page@.len() ==> is_layer_group(
                page@[i],
                i,
                layer_colors@,
                *closer,
                debug_dump,
                #[trigger] r.layers@[i],
            ),
        r.frame == frame_of(page@, auto_crop),
        r.debug_style == debug_dump,
{
    let mut layers: Vec<LayerGroup> = Vec::new();
    let mut i: usize = 0;
    while i < page.layers.len()
        invariant
            i <= page.layers@.len(),
            forall|p: Point, q: Point| closer.requires((p, q)),
            palettes_suffice(page@, layer_colors@),
            layers@.len() == i,
            forall|a: int|
                0 <= a < i ==> is_layer_group(
                    page@[a],
                    a,
                    layer_colors@,
                    *closer,
                    debug_dump,
                    #[trigger] layers@[a],
                ),
        decreases page.layers@.len() - i,
    {
        let layer = &page.layers[i];
        assert(page@[i as int] == layer@);
        assert forall|j: int|
            0 <= j < layer@.len() && (#[trigger] layer@[j]).brush_type
                != BrushType::Highlighter implies i < layer_colors@.len() by {
            assert(page@[i as int][j] == layer@[j]);
        }
        let group = render_layer(layer, i, layer_colors, closer, debug_dump);
        layers.push(group);
        i = i + 1;
    }
    Document { layers, frame: frame(page, auto_crop), debug_style: debug_dump }
}

} // verus!
