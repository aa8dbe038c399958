//! The page-stream target: the drawing operations of each page, in order.
//!
//! A page stream has its origin at the bottom left, a stroke file at the top left. Each
//! page therefore begins by turning the vertical axis over and moving the page back into
//! view. Then every line that leaves ink and has points is one stroked path. The lines
//! of an eraser, of an erased area, of a wiped page and of a selection leave none.

use vstd::prelude::*;
use crate::model::{Layer, Line, LineView, Page, Point, Real};
use crate::render::renderlib::{strategy_of, Strategy};
use crate::render::svg::{LineCap, LineJoin, PAGE_HEIGHT, PAGE_WIDTH};

verus! {

/// The factor by which a point's pressure gives the width of the stroke that leads to it.
pub const BASE_LINE_WIDTH: u32 = 4;

/// One drawing operation of a page stream.
#[derive(Clone, Copy, Debug, PartialEq, Eq, Structural)]
pub enum Op {
    /// Scales the coordinates by the two whole factors.
    Scale { sx: i32, sy: i32 },
    /// Moves the coordinates by the two whole distances.
    Translate { dx: i32, dy: i32 },
    /// Sets the stroke colour to a grey, from 0 for black to 255 for white.
    StrokeGray(u8),
    /// Begins a path at a position.
    MoveTo { x: Real, y: Real },
    /// Sets the stroke width to a pressure times `BASE_LINE_WIDTH`.
    LineWidth { pressure: Real },
    /// Sets the shape of the ends of strokes.
    Cap(LineCap),
    /// Sets the shape of the corners of strokes.
    Join(LineJoin),
    /// Extends the path by a straight line to a position.
    LineTo { x: Real, y: Real },
    /// Strokes the path.
    Stroke,
}

/// The drawing operations of one page of a page stream, and the size of the page.
#[derive(Clone, Debug, PartialEq, Eq)]
pub struct PdfPage {
    pub width: u32,
    pub height: u32,
    pub ops: Vec<Op>,
}

/// The operations that every page begins with: the vertical axis turned over, the page
/// moved back into view, and black as the stroke colour.
pub open spec fn prelude() -> Seq<Op> {
    seq![
        Op::Scale { sx: 1i32, sy: (-1i32) },
        Op::Translate { dx: 0i32, dy: (-1872i32) },
        Op::StrokeGray(0u8),
    ]
}

/// The operations that lead the path to one point: the width that the point's pressure
/// gives, round ends and corners, and the straight line to the point.
pub open spec fn point_ops(point: Point) -> Seq<Op> {
    seq![
        Op::LineWidth { pressure: point.pressure },
        Op::Cap(LineCap::Round),
        Op::Join(LineJoin::Round),
        Op::LineTo { x: point.x, y: point.y },
    ]
}

/// The operations that lead the path to each of the points in turn.
pub open spec fn points_ops(points: Seq<Point>) -> Seq<Op>
    decreases points.len(),
{
    if points.len() == 0 {
        Seq::empty()
    } else {
        points_ops(points.drop_last()) + point_ops(points.last())
    }
}

/// Whether a line gives a path: its brush leaves ink, and it has a point.
pub open spec fn is_drawn(line: LineView) -> bool {
    strategy_of(line.brush_type) != Strategy::Suppressed && line.points.len() > 0
}

/// The operations of one line: nothing for a line whose brush leaves no ink or that
/// has no points, else one path that begins at the first point, leads to every point
/// in turn, the first included, and is stroked.
pub open spec fn line_ops(line: LineView) -> Seq<Op> {
    if !is_drawn(line) {
        Seq::empty()
    } else {
        seq![Op::MoveTo { x: line.points[0].x, y: line.points[0].y }] + points_ops(line.points)
            + seq![Op::Stroke]
    }
}

/// The operations of the lines in turn.
pub open spec fn lines_ops(lines: Seq<LineView>) -> Seq<Op>
    decreases lines.len(),
{
    if lines.len() == 0 {
        Seq::empty()
    } else {
        lines_ops(lines.drop_last()) + line_ops(lines.last())
    }
}

/// The operations of the layers in turn, from bottom to top.
pub open spec fn layers_ops(layers: Seq<Seq<LineView>>) -> Seq<Op>
    decreases layers.len(),
{
    if layers.len() == 0 {
        Seq::empty()
    } else {
        layers_ops(layers.drop_last()) + lines_ops(layers.last())
    }
}

/// The operations of a page.
pub open spec fn page_ops(page: Seq<Seq<LineView>>) -> Seq<Op> {
    prelude() + layers_ops(page)
}

/// Lines that are not drawn give no operation: no path is begun, led on or stroked for
/// them, however many they are and whatever stands between them.
pub proof fn lemma_undrawn_lines_give_nothing(lines: Seq<LineView>)
    requires
        forall|j: int| 0 <= j < lines.len() ==> !is_drawn(#[trigger] lines[j]),
    ensures
        lines_ops(lines) == Seq::<Op>::empty(),
    decreases lines.len(),
{
    if lines.len() > 0 {
        let front = lines.drop_last();
        assert forall|j: int| 0 <= j < front.len() implies !is_drawn(#[trigger] front[j]) by {
            assert(front[j] == lines[j]);
        }
        lemma_undrawn_lines_give_nothing(front);
        assert(lines_ops(front) + line_ops(lines.last()) =~= Seq::<Op>::empty());
    }
}

/// Layers on which no line is drawn give no operation.
pub proof fn lemma_undrawn_layers_give_nothing(layers: Seq<Seq<LineView>>)
    requires
        forall|i: int, j: int|
            0 <= i < layers.len() && 0 <= j < layers[i].len() ==> !is_drawn(
                #[trigger] layers[i][j],
            ),
    ensures
        layers_ops(layers) == Seq::<Op>::empty(),
    decreases layers.len(),
{
    if layers.len() > 0 {
        let front = layers.drop_last();
        assert forall|i: int, j: int| 0 <= i < front.len() && 0 <= j < front[i].len() implies !is_drawn(
            #[trigger] front[i][j],
        ) by {
            assert(front[i] == layers[i]);
        }
        lemma_undrawn_layers_give_nothing(front);
        assert forall|j: int| 0 <= j < layers.last().len() implies !is_drawn(
            #[trigger] layers.last()[j],
        ) by {
            assert(layers.last()[j] == layers[layers.len() - 1][j]);
        }
        lemma_undrawn_lines_give_nothing(layers.last());
        assert(layers_ops(front) + lines_ops(layers.last()) =~= Seq::<Op>::empty());
    }
}

/// A page on which no line is drawn is only the operations that every page begins with.
pub proof fn lemma_undrawn_page_is_blank(page: Seq<Seq<LineView>>)
    requires
        forall|i: int, j: int|
            0 <= i < page.len() && 0 <= j < page[i].len() ==> !is_drawn(#[trigger] page[i][j]),
    ensures
        page_ops(page) == prelude(),
{
    lemma_undrawn_layers_give_nothing(page);
    assert(prelude() + Seq::<Op>::empty() =~= prelude());
}

/// Appends the operations of one line. A line whose brush leaves no ink, or that has no
/// points, appends nothing.
pub fn append_line(ops: &mut Vec<Op>, line: &Line)
    ensures
        final(ops)@ == old(ops)@ + line_ops(line@),
        !is_drawn(line@) ==> final(ops)@ == old(ops)@,
{
    let ghost before = ops@;
    let suppressed = match line.brush_type.strategy() {
        Strategy::Suppressed => true,
        _ => false,
    };
    if suppressed || line.points.len() == 0 {
        assert(ops@ =~= before + line_ops(line@));
        return ;
    }
    let first = line.points[0];
    ops.push(Op::MoveTo { x: first.x, y: first.y });
    let ghost begun = ops@;
    let mut i: usize = 0;
    assert(line.points@.take(0) =~= Seq::empty());
    assert(ops@ =~= begun + points_ops(line.points@.take(0)));
    while i < line.points.len()
        invariant
            i <= line.points@.len(),
            ops@ == begun + points_ops(line.points@.take(i as int)),
        decreases line.points@.len() - i,
    {
        let point = line.points[i];
        ops.push(Op::LineWidth { pressure: point.pressure });
        ops.push(Op::Cap(LineCap::Round));
        ops.push(Op::Join(LineJoin::Round));
        ops.push(Op::LineTo { x: point.x, y: point.y });
        proof {
            assert(line.points@.take(i + 1).drop_last() =~= line.points@.take(i as int));
            assert(line.points@.take(i + 1).last() == point);
            assert(ops@ =~= begun + points_ops(line.points@.take(i + 1)));
        }
        i = i + 1;
    }
    ops.push(Op::Stroke);
    proof {
        assert(line.points@.take(i as int) =~= line.points@);
        assert(ops@ =~= before + line_ops(line@));
    }
}

/// Appends the operations of the lines of one layer.
pub fn append_layer(ops: &mut Vec<Op>, layer: &Layer)
    ensures
        final(ops)@ == old(ops)@ + lines_ops(layer@),
{
    let ghost before = ops@;
    let mut j: usize = 0;
    assert(layer@.take(0) =~= Seq::empty());
    assert(ops@ =~= before + lines_ops(layer@.take(0)));
    while j < layer.lines.len()
        invariant
            j <= layer.lines@.len(),
            ops@ == before + lines_ops(layer@.take(j as int)),
        decreases layer.lines@.len() - j,
    {
        let line = &layer.lines[j];
        append_line(ops, line);
        proof {
            assert(layer@.take(j + 1).drop_last() =~= layer@.take(j as int));
            assert(layer@.take(j + 1).last() == line@);
            assert(ops@ =~= before + lines_ops(layer@.take(j + 1)));
        }
        j = j + 1;
    }
    assert(layer@.take(j as int) =~= layer@);
}

/// The drawing operations of one page.
pub fn render_page(page: &Page) -> (r: PdfPage)
    ensures
        r.width == PAGE_WIDTH,
        r.height == PAGE_HEIGHT,
        r.ops@ == page_ops(page@),
{
    let mut ops: Vec<Op> = Vec::new();
    ops.push(Op::Scale { sx: 1, sy: -1 });
    ops.push(Op::Translate { dx: 0, dy: -1872 });
    ops.push(Op::StrokeGray(0));
    let mut i: usize = 0;
    assert(page@.take(0) =~= Seq::empty());
    assert(ops@ =~= prelude() + layers_ops(page@.take(0)));
    while i < page.layers.len()
        invariant
            i <= page.layers@.len(),
            ops@ == prelude() + layers_ops(page@.take(i as int)),
        decreases page.layers@.len() - i,
    {
        let layer = &page.layers[i];
        append_layer(&mut ops, layer);
        proof {
            assert(page@.take(i + 1).drop_last() =~= page@.take(i as int));
            assert(page@.take(i + 1).last() == layer@);
            assert(ops@ =~= prelude() + layers_ops(page@.take(i + 1)));
        }
        i = i + 1;
    }
    assert(page@.take(i as int) =~= page@);
    PdfPage { width: PAGE_WIDTH, height: PAGE_HEIGHT, ops }
}

/// The drawing operations of a document: one page of the stream for each of its pages.
pub fn render_pdf(pages: &[Page]) -> (r: Vec<PdfPage>)
    ensures
        r@.len() == pages@.len(),
        forall|i: int|
            0 <= i < pages@.len() ==> {
                &&& (#[trigger] r@[i]).width == PAGE_WIDTH
                &&& r@[i].height == PAGE_HEIGHT
                &&& r@[i].ops@ == page_ops(pages@[i]@)
            },
{
    let mut out: Vec<PdfPage> = Vec::new();
    let mut i: usize = 0;
    while i < pages.len()
        invariant
            i <= pages@.len(),
            out@.len() == i,
            forall|a: int|
                0 <= a < i ==> {
                    &&& (#[trigger] out@[a]).width == PAGE_WIDTH
                    &&& out@[a].height == PAGE_HEIGHT
                    &&& out@[a].ops@ == page_ops(pages@[a]@)
                },
        decreases pages@.len() - i,
    {
        out.push(render_page(&pages[i]));
        i = i + 1;
    }
    out
}

} // verus!
