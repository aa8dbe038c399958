//! The bytes of a document, and the law that the decoder reads them back.
//!
//! The functions here say, as mathematical values, which bytes a document is laid out
//! in. They write nothing: they are the other half of the layout, by which the decoder
//! can be held to the format.

use vstd::prelude::*;
use crate::bytes::{
    i32_at, i32_le_bytes, le_u32, lemma_encode_then_decode_i32, real_at, u32_le_bytes,
};
use crate::header::{version_3_header, version_5_header, version_of_header};
use crate::layout::{
    count_at, document, layer_at, layers_n, line_at, lines_n, page_at, pages_at, pages_n,
    point_at, points_n, second_attribute_at,
};
use crate::model::{BrushType, Color, ErrorView, LineView, LinesDataView, Point, Real};

verus! {

/// The code under which a brush is written: of the codes that name it, the one that
/// the newer files use.
pub open spec fn code_of_brush(brush: BrushType) -> i32 {
    match brush {
        BrushType::Brush => 12,
        BrushType::TiltPencil => 14,
        BrushType::Pen => 2,
        BrushType::Marker => 16,
        BrushType::Fineliner => 17,
        BrushType::Highlighter => 18,
        BrushType::Eraser => 6,
        BrushType::SharpPencil => 13,
        BrushType::EraseArea => 8,
        BrushType::EraseAll => 9,
        BrushType::SelectionBrush => 10,
        BrushType::BallPoint => 15,
        BrushType::Calligraphy => 21,
    }
}

/// The code under which a colour is written.
pub open spec fn code_of_color(color: Color) -> i32 {
    match color {
        Color::Black => 0,
        Color::Grey => 1,
        Color::White => 2,
        Color::Blue => 6,
        Color::Red => 7,
    }
}

/// The four bytes of a signed field.
#[verifier::opaque]
pub open spec fn int_bytes(n: i32) -> Seq<u8> {
    i32_le_bytes(n)
}

/// The four bytes of a single-precision field.
#[verifier::opaque]
pub open spec fn real_bytes(r: Real) -> Seq<u8> {
    u32_le_bytes(r.bits)
}

/// The bytes of a count field.
pub open spec fn count_bytes(n: nat) -> Seq<u8> {
    int_bytes(n as i32)
}

/// The bytes of a point.
#[verifier::opaque]
pub open spec fn point_bytes(p: Point) -> Seq<u8> {
    real_bytes(p.x) + real_bytes(p.y) + real_bytes(p.speed) + real_bytes(p.direction)
        + real_bytes(p.width) + real_bytes(p.pressure)
}

/// The bytes of points in turn.
#[verifier::opaque]
pub open spec fn points_bytes(points: Seq<Point>) -> Seq<u8>
    decreases points.len(),
{
    if points.len() == 0 {
        Seq::empty()
    } else {
        points_bytes(points.drop_last()) + point_bytes(points.last())
    }
}

/// The bytes of the second opaque attribute: a field from version 5 on, nothing before.
pub open spec fn second_attribute_bytes(attribute: i32, version: i32) -> Seq<u8> {
    if version >= 5 {
        int_bytes(attribute)
    } else {
        Seq::empty()
    }
}

/// The bytes of a line.
#[verifier::opaque]
pub open spec fn line_bytes(line: LineView, version: i32) -> Seq<u8> {
    int_bytes(code_of_brush(line.brush_type)) + int_bytes(code_of_color(line.color)) + int_bytes(
        line.unknown_line_attribute,
    ) + real_bytes(line.brush_base_size)
        + second_attribute_bytes(line.unknown_line_attribute_2, version) + count_bytes(
        line.points.len(),
    ) + points_bytes(line.points)
}

/// The bytes of lines in turn.
#[verifier::opaque]
pub open spec fn lines_bytes(lines: Seq<LineView>, version: i32) -> Seq<u8>
    decreases lines.len(),
{
    if lines.len() == 0 {
        Seq::empty()
    } else {
        lines_bytes(lines.drop_last(), version) + line_bytes(lines.last(), version)
    }
}

/// The bytes of a layer: the count of its lines, and the lines.
#[verifier::opaque]
pub open spec fn layer_bytes(layer: Seq<LineView>, version: i32) -> Seq<u8> {
    count_bytes(layer.len()) + lines_bytes(layer, version)
}

/// The bytes of layers in turn.
#[verifier::opaque]
pub open spec fn layers_bytes(layers: Seq<Seq<LineView>>, version: i32) -> Seq<u8>
    decreases layers.len(),
{
    if layers.len() == 0 {
        Seq::empty()
    } else {
        layers_bytes(layers.drop_last(), version) + layer_bytes(layers.last(), version)
    }
}

/// The bytes of a page: the count of its layers, and the layers.
#[verifier::opaque]
pub open spec fn page_bytes(page: Seq<Seq<LineView>>, version: i32) -> Seq<u8> {
    count_bytes(page.len()) + layers_bytes(page, version)
}

/// The header of a version that the decoder reads.
pub open spec fn header_bytes(version: i32) -> Seq<u8> {
    if version == 3 {
        version_3_header()
    } else {
        version_5_header()
    }
}

/// The bytes of a document of one page: header, the ten reserved bytes, and the page.
pub open spec fn document_bytes(data: LinesDataView, reserved: Seq<u8>) -> Seq<u8> {
    header_bytes(data.version) + reserved + page_bytes(data.pages[0], data.version)
}

/// Whether a line can be written in a version: its points can be counted, and it has
/// a second attribute only where the version has a field for it.
pub open spec fn line_fits(line: LineView, version: i32) -> bool {
    line.points.len() <= i32::MAX && (version < 5 ==> line.unknown_line_attribute_2 == 0)
}

/// Whether a layer can be written in a version.
pub open spec fn layer_fits(layer: Seq<LineView>, version: i32) -> bool {
    layer.len() <= i32::MAX && forall|i: int|
        0 <= i < layer.len() ==> line_fits(#[trigger] layer[i], version)
}

/// Whether a page can be written in a version.
pub open spec fn page_fits(page: Seq<Seq<LineView>>, version: i32) -> bool {
    page.len() <= i32::MAX && forall|i: int|
        0 <= i < page.len() ==> layer_fits(#[trigger] page[i], version)
}

/// Whether a document can be written: it is of version 3 or 5 and has one page, which
/// can be written in that version.
pub open spec fn document_fits(data: LinesDataView) -> bool {
    (data.version == 3 || data.version == 5) && data.pages.len() == 1 && page_fits(
        data.pages[0],
        data.version,
    )
}

/// Whether `bytes` stand in `s` from `pos` on.
pub open spec fn holds_at(s: Seq<u8>, pos: int, bytes: Seq<u8>) -> bool {
    0 <= pos && pos + bytes.len() <= s.len() && s.subrange(pos, pos + bytes.len()) == bytes
}

/// Where two runs of bytes stand one behind the other, each of them stands in its place.
pub proof fn lemma_holds_at_both(s: Seq<u8>, pos: int, a: Seq<u8>, b: Seq<u8>)
    requires
        holds_at(s, pos, a + b),
    ensures
        holds_at(s, pos, a),
        holds_at(s, pos + a.len(), b),
{
    let whole = s.subrange(pos, pos + (a + b).len());
    assert(s.subrange(pos, pos + a.len()) =~= whole.subrange(0, a.len() as int));
    assert((a + b).subrange(0, a.len() as int) =~= a);
    assert(s.subrange(pos + a.len(), pos + a.len() + b.len()) =~= whole.subrange(
        a.len() as int,
        (a + b).len() as int,
    ));
    assert((a + b).subrange(a.len() as int, (a + b).len() as int) =~= b);
}

/// A signed field is four bytes, and is read back from them.
pub proof fn lemma_i32_read_back(s: Seq<u8>, pos: int, n: i32)
    ensures
        int_bytes(n).len() == 4,
        holds_at(s, pos, int_bytes(n)) ==> i32_at(s, pos) == Some(n),
{
    reveal(int_bytes);
    lemma_encode_then_decode_i32(n);
}

/// A single-precision field is four bytes, and is read back from them.
pub proof fn lemma_real_read_back(s: Seq<u8>, pos: int, r: Real)
    ensures
        real_bytes(r).len() == 4,
        holds_at(s, pos, real_bytes(r)) ==> real_at(s, pos) == Some(r),
{
    reveal(real_bytes);
    assert(le_u32(u32_le_bytes(r.bits)) == r.bits);
}

/// A count is read back from its bytes.
pub proof fn lemma_count_read_back(s: Seq<u8>, pos: int, n: nat)
    requires
        n <= i32::MAX,
    ensures
        count_bytes(n).len() == 4,
        holds_at(s, pos, count_bytes(n)) ==> count_at(s, pos) == Ok::<(nat, int), ErrorView>(
            (n, pos + 4),
        ),
{
    lemma_i32_read_back(s, pos, n as i32);
}

/// A point is read back from its bytes.
pub proof fn lemma_point_read_back(s: Seq<u8>, pos: int, p: Point)
    requires
        holds_at(s, pos, point_bytes(p)),
    ensures
        point_bytes(p).len() == 24,
        point_at(s, pos) == Ok::<(Point, int), ErrorView>((p, pos + 24)),
{
    reveal(point_bytes);
    let x = real_bytes(p.x);
    let y = real_bytes(p.y);
    let speed = real_bytes(p.speed);
    let direction = real_bytes(p.direction);
    let width = real_bytes(p.width);
    let pressure = real_bytes(p.pressure);
    lemma_real_read_back(s, pos, p.x);
    lemma_real_read_back(s, pos + 4, p.y);
    lemma_real_read_back(s, pos + 8, p.speed);
    lemma_real_read_back(s, pos + 12, p.direction);
    lemma_real_read_back(s, pos + 16, p.width);
    lemma_real_read_back(s, pos + 20, p.pressure);
    lemma_holds_at_both(s, pos, x + y + speed + direction + width, pressure);
    lemma_holds_at_both(s, pos, x + y + speed + direction, width);
    lemma_holds_at_both(s, pos, x + y + speed, direction);
    lemma_holds_at_both(s, pos, x + y, speed);
    lemma_holds_at_both(s, pos, x, y);
}

/// Points are read back from their bytes.
pub proof fn lemma_points_read_back(s: Seq<u8>, pos: int, points: Seq<Point>)
    requires
        holds_at(s, pos, points_bytes(points)),
    ensures
        points_n(s, pos, points.len()) == Ok::<(Seq<Point>, int), ErrorView>(
            (points, pos + points_bytes(points).len()),
        ),
    decreases points.len(),
{
    reveal(points_bytes);
    if points.len() == 0 {
        assert(points =~= Seq::empty());
    } else {
        let front = points.drop_last();
        lemma_holds_at_both(s, pos, points_bytes(front), point_bytes(points.last()));
        lemma_points_read_back(s, pos, front);
        lemma_point_read_back(s, pos + points_bytes(front).len(), points.last());
        assert(front.push(points.last()) =~= points);
    }
}

/// A line is read back from its bytes.
pub proof fn lemma_line_read_back(s: Seq<u8>, pos: int, line: LineView, version: i32)
    requires
        line_fits(line, version),
        holds_at(s, pos, line_bytes(line, version)),
    ensures
        line_at(s, pos, version) == Ok::<(LineView, int), ErrorView>(
            (line, pos + line_bytes(line, version).len()),
        ),
{
    reveal(line_bytes);
    let brush = int_bytes(code_of_brush(line.brush_type));
    let color = int_bytes(code_of_color(line.color));
    let attribute = int_bytes(line.unknown_line_attribute);
    let size = real_bytes(line.brush_base_size);
    let second = second_attribute_bytes(line.unknown_line_attribute_2, version);
    let count = count_bytes(line.points.len());
    let points = points_bytes(line.points);
    let p = pos + 16 + second.len();
    lemma_i32_read_back(s, pos, code_of_brush(line.brush_type));
    lemma_i32_read_back(s, pos + 4, code_of_color(line.color));
    lemma_i32_read_back(s, pos + 8, line.unknown_line_attribute);
    lemma_real_read_back(s, pos + 12, line.brush_base_size);
    lemma_i32_read_back(s, pos + 16, line.unknown_line_attribute_2);
    lemma_count_read_back(s, p, line.points.len());
    lemma_holds_at_both(s, pos, brush + color + attribute + size + second + count, points);
    lemma_holds_at_both(s, pos, brush + color + attribute + size + second, count);
    lemma_holds_at_both(s, pos, brush + color + attribute + size, second);
    lemma_holds_at_both(s, pos, brush + color + attribute, size);
    lemma_holds_at_both(s, pos, brush + color, attribute);
    lemma_holds_at_both(s, pos, brush, color);
    assert(second_attribute_at(s, pos + 16, version) == Ok::<(i32, int), ErrorView>(
        (line.unknown_line_attribute_2, p),
    ));
    lemma_points_read_back(s, p + 4, line.points);
}

/// Lines are read back from their bytes.
pub proof fn lemma_lines_read_back(s: Seq<u8>, pos: int, lines: Seq<LineView>, version: i32)
    requires
        forall|i: int| 0 <= i < lines.len() ==> line_fits(#[trigger] lines[i], version),
        holds_at(s, pos, lines_bytes(lines, version)),
    ensures
        lines_n(s, pos, version, lines.len()) == Ok::<(Seq<LineView>, int), ErrorView>(
            (lines, pos + lines_bytes(lines, version).len()),
        ),
    decreases lines.len(),
{
    reveal(lines_bytes);
    if lines.len() == 0 {
        assert(lines =~= Seq::empty());
    } else {
        let front = lines.drop_last();
        assert forall|i: int| 0 <= i < front.len() implies line_fits(
            #[trigger] front[i],
            version,
        ) by {
            assert(front[i] == lines[i]);
        }
        lemma_holds_at_both(s, pos, lines_bytes(front, version), line_bytes(lines.last(), version));
        lemma_lines_read_back(s, pos, front, version);
        lemma_line_read_back(s, pos + lines_bytes(front, version).len(), lines.last(), version);
        assert(front.push(lines.last()) =~= lines);
    }
}

/// A layer is read back from its bytes.
pub proof fn lemma_layer_read_back(s: Seq<u8>, pos: int, layer: Seq<LineView>, version: i32)
    requires
        layer_fits(layer, version),
        holds_at(s, pos, layer_bytes(layer, version)),
    ensures
        layer_at(s, pos, version) == Ok::<(Seq<LineView>, int), ErrorView>(
            (layer, pos + layer_bytes(layer, version).len()),
        ),
{
    reveal(layer_bytes);
    lemma_count_read_back(s, pos, layer.len());
    lemma_holds_at_both(s, pos, count_bytes(layer.len()), lines_bytes(layer, version));
    lemma_lines_read_back(s, pos + 4, layer, version);
}

/// Layers are read back from their bytes.
pub proof fn lemma_layers_read_back(
    s: Seq<u8>,
    pos: int,
    layers: Seq<Seq<LineView>>,
    version: i32,
)
    requires
        forall|i: int| 0 <= i < layers.len() ==> layer_fits(#[trigger] layers[i], version),
        holds_at(s, pos, layers_bytes(layers, version)),
    ensures
        layers_n(s, pos, version, layers.len()) == Ok::<(Seq<Seq<LineView>>, int), ErrorView>(
            (layers, pos + layers_bytes(layers, version).len()),
        ),
    decreases layers.len(),
{
    reveal(layers_bytes);
    if layers.len() == 0 {
        assert(layers =~= Seq::empty());
    } else {
        let front = layers.drop_last();
        assert forall|i: int| 0 <= i < front.len() implies layer_fits(
            #[trigger] front[i],
            version,
        ) by {
            assert(front[i] == layers[i]);
        }
        lemma_holds_at_both(
            s,
            pos,
            layers_bytes(front, version),
            layer_bytes(layers.last(), version),
        );
        lemma_layers_read_back(s, pos, front, version);
        lemma_layer_read_back(s, pos + layers_bytes(front, version).len(), layers.last(), version);
        assert(front.push(layers.last()) =~= layers);
    }
}

/// A page is read back from its bytes.
pub proof fn lemma_page_read_back(s: Seq<u8>, pos: int, page: Seq<Seq<LineView>>, version: i32)
    requires
        page_fits(page, version),
        holds_at(s, pos, page_bytes(page, version)),
    ensures
        page_at(s, pos, version) == Ok::<(Seq<Seq<LineView>>, int), ErrorView>(
            (page, pos + page_bytes(page, version).len()),
        ),
{
    reveal(page_bytes);
    lemma_count_read_back(s, pos, page.len());
    lemma_holds_at_both(s, pos, count_bytes(page.len()), layers_bytes(page, version));
    lemma_layers_read_back(s, pos + 4, page, version);
}

/// The decoder reads every document back from its bytes: exactly the version, the one
/// page, and every layer, line and point that were written, whatever the reserved
/// bytes hold and whatever follows the page.
pub proof fn lemma_document_read_back(data: LinesDataView, reserved: Seq<u8>, rest: Seq<u8>)
    requires
        document_fits(data),
        reserved.len() == 10,
    ensures
        document(document_bytes(data, reserved) + rest) == Ok::<LinesDataView, ErrorView>(data),
{
    reveal_strlit("reMarkable .lines file, version=3");
    reveal_strlit("reMarkable .lines file, version=5");
    reveal_with_fuel(pages_n, 2);
    let header = header_bytes(data.version);
    let page = page_bytes(data.pages[0], data.version);
    let s = document_bytes(data, reserved) + rest;
    assert(header.len() == 33);
    assert(s.subrange(0, 33) =~= header);
    assert(version_5_header()[32] != version_3_header()[32]);
    assert(version_of_header(header) == Some(data.version));
    assert(s.subrange(43, 43 + page.len() as int) =~= page);
    lemma_page_read_back(s, 43, data.pages[0], data.version);
    assert(Seq::<Seq<Seq<LineView>>>::empty().push(data.pages[0]) =~= data.pages);
    assert(pages_at(s, 43, data.version) == Ok::<(Seq<Seq<Seq<LineView>>>, int), ErrorView>(
        (data.pages, 43 + page.len() as int),
    ));
}

} // verus!
