//! What the output targets share: the rules per brush, colours, and path simplification.

use vstd::prelude::*;
use crate::model::{BrushType, Line, LineView, Point};
use crate::palette::{LayerColorView, LayerColors};

verus! {

/// The way in which a line is drawn, which its brush decides.
#[derive(Clone, Copy, Debug, PartialEq, Eq, Structural)]
pub enum Strategy {
    /// One path along the whole line, of one width.
    ConstantWidth,
    /// One piece per pair of neighbouring points, each with a width of its own.
    VariableWidth,
    /// Nothing is drawn: the brush erased or selected, and left no ink.
    Suppressed,
}

/// The way in which the lines of a brush are drawn.
pub open spec fn strategy_of(brush: BrushType) -> Strategy {
    match brush {
        BrushType::Fineliner | BrushType::Highlighter => Strategy::ConstantWidth,
        BrushType::Eraser | BrushType::EraseArea | BrushType::EraseAll | BrushType::SelectionBrush =>
            Strategy::Suppressed,
        _ => Strategy::VariableWidth,
    }
}

impl BrushType {
    /// The way in which the lines of this brush are drawn.
    pub fn strategy(&self) -> (r: Strategy)
        ensures
            r == strategy_of(*self),
    {
        match self {
            BrushType::Fineliner | BrushType::Highlighter => Strategy::ConstantWidth,
            BrushType::Eraser
            | BrushType::EraseArea
            | BrushType::EraseAll
            | BrushType::SelectionBrush => Strategy::Suppressed,
            _ => Strategy::VariableWidth,
        }
    }
}

/// The colour of highlighter ink, whatever the layer and the line's own colour.
pub open spec fn highlighter_color() -> Seq<char> {
    "rgb(240, 220, 40)"@
}

/// The CSS colour of a line on the layer `layer_id`: the highlighter's own colour, or
/// what the layer's palette gives for the line's colour.
pub open spec fn css_color_of(line: LineView, layer_id: int, palettes: Seq<LayerColorView>) -> Seq<
    char,
>
    recommends
        line.brush_type == BrushType::Highlighter || 0 <= layer_id < palettes.len(),
{
    if line.brush_type == BrushType::Highlighter {
        highlighter_color()
    } else {
        palettes[layer_id].of(line.color)
    }
}

/// The CSS colour in which a line on the layer `layer_id` is drawn.
///
/// A layer without a palette is the caller's fault, unless the line is highlighter ink,
/// which asks for none.
pub fn line_to_css_color<'a>(line: &Line, layer_id: usize, layer_colors: &'a LayerColors) -> (r:
    &'a str)
    requires
        line.brush_type != BrushType::Highlighter ==> layer_id < layer_colors.colors@.len(),
    ensures
        r@ == css_color_of(line@, layer_id as int, layer_colors@),
{
    match line.brush_type {
        BrushType::Highlighter => "rgb(240, 220, 40)",
        _ => layer_colors.colors[layer_id].of(line.color),
    }
}

/// Whether `kept` is what simplification leaves of `points`, where `closer` judged which
/// point lies too close to which.
///
/// The first point is kept. From then on a point is dropped where `closer` said that it
/// lies too close to the point kept last, and kept where it said otherwise. The last
/// point is kept whatever `closer` says.
pub open spec fn is_simplification<F: Fn(Point, Point) -> bool>(
    points: Seq<Point>,
    closer: F,
    kept: Seq<usize>,
) -> bool {
    if points.len() == 0 {
        kept.len() == 0
    } else {
        &&& kept.len() >= 1
        &&& kept[0] == 0
        &&& kept.last() == points.len() - 1
        &&& forall|a: int, b: int| 0 <= a < b < kept.len() ==> #[trigger] kept[a] < #[trigger] kept[b]
        &&& forall|a: int, b: int|
            #![trigger kept[a], kept[b]]
            0 <= a && b == a + 1 && b < kept.len() && kept[b] != points.len() - 1
                ==> closer.ensures((points[kept[b] as int], points[kept[a] as int]), false)
        &&& forall|a: int, b: int, j: int|
            #![trigger kept[a], kept[b], points[j]]
            0 <= a && b == a + 1 && b < kept.len() && kept[a] < j < kept[b] ==> closer.ensures(
                (points[j], points[kept[a] as int]),
                true,
            )
    }
}

/// Leaves out the points that lie too close to the point kept before them.
///
/// `closer(p, q)` says whether `p` lies closer to `q` than the caller's threshold. The
/// result holds the indices of the points that stay, in order. The last point of a
/// line always stays, so that a drawn path reaches the true end of the stroke.
pub fn simplify<F: Fn(Point, Point) -> bool>(points: &Vec<Point>, closer: &F) -> (kept: Vec<usize>)
    requires
        forall|p: Point, q: Point| closer.requires((p, q)),
    ensures
        is_simplification(points@, *closer, kept@),
        points@.len() > 0 ==> kept@.len() > 0 && kept@[0] == 0 && kept@.last() == points@.len() - 1,
{
    let mut kept: Vec<usize> = Vec::new();
    if points.len() == 0 {
        return kept;
    }
    kept.push(0);
    let mut prev: usize = 0;
    let mut idx: usize = 1;
    while idx < points.len()
        invariant
            1 <= idx <= points@.len(),
            forall|p: Point, q: Point| closer.requires((p, q)),
            kept@.len() >= 1,
            kept@[0] == 0,
            kept@.last() == prev,
            prev < idx,
            idx == points@.len() ==> prev == points@.len() - 1,
            forall|j: int|
                prev < j < idx ==> closer.ensures((#[trigger] points@[j], points@[prev as int]), true),
            forall|a: int, b: int|
                0 <= a < b < kept@.len() ==> #[trigger] kept@[a] < #[trigger] kept@[b],
            forall|a: int, b: int|
                #![trigger kept@[a], kept@[b]]
                0 <= a && b == a + 1 && b < kept@.len() && kept@[b] != points@.len() - 1
                    ==> closer.ensures((points@[kept@[b] as int], points@[kept@[a] as int]), false),
            forall|a: int, b: int, j: int|
                #![trigger kept@[a], kept@[b], points@[j]]
                0 <= a && b == a + 1 && b < kept@.len() && kept@[a] < j < kept@[b]
                    ==> closer.ensures((points@[j], points@[kept@[a] as int]), true),
        decreases points@.len() - idx,
    {
        let is_last = idx + 1 == points.len();
        let too_close = closer(points[idx], points[prev]);
        if !too_close || is_last {
            kept.push(idx);
            prev = idx;
        }
        idx = idx + 1;
    }
    kept
}

} // verus!
