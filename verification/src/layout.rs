//! The byte layout of a stroke file, as a mathematical function from bytes to a document.
//!
//! Every function here reads a field or a group of fields at a position and gives what
//! it holds together with the position behind it, or the reason why it cannot be read.
//! A list is a count followed by that many items. The first field that cannot be read
//! decides the outcome of everything that contains it.

use vstd::prelude::*;
use crate::bytes::{i32_at, real_at};
use crate::codes::{brush_of_code, color_of_code};
use crate::header::{
    ascii_bytes, header_text, is_padding, trim_padding, version_3_header, version_5_header,
    version_of_header, HEADER_LEN, RESERVED_LEN,
};
use crate::model::{ErrorView, LineView, LinesDataView, Point};

verus! {

/// The count field at `pos`: a signed number that must not be negative.
pub open spec fn count_at(s: Seq<u8>, pos: int) -> Result<(nat, int), ErrorView> {
    match i32_at(s, pos) {
        None => Err(ErrorView::Truncated),
        Some(n) => if n < 0 {
            Err(ErrorView::InvalidCount(n))
        } else {
            Ok((n as nat, pos + 4))
        },
    }
}

/// The point at `pos`: six single-precision fields in the order x, y, speed, direction,
/// width, pressure.
pub open spec fn point_at(s: Seq<u8>, pos: int) -> Result<(Point, int), ErrorView> {
    if 0 <= pos && pos + 24 <= s.len() {
        Ok(
            (
                Point {
                    x: real_at(s, pos).unwrap(),
                    y: real_at(s, pos + 4).unwrap(),
                    speed: real_at(s, pos + 8).unwrap(),
                    direction: real_at(s, pos + 12).unwrap(),
                    width: real_at(s, pos + 16).unwrap(),
                    pressure: real_at(s, pos + 20).unwrap(),
                },
                pos + 24,
            ),
        )
    } else {
        Err(ErrorView::Truncated)
    }
}

/// The first `n` points from `pos` on.
pub open spec fn points_n(s: Seq<u8>, pos: int, n: nat) -> Result<(Seq<Point>, int), ErrorView>
    decreases n,
{
    if n == 0 {
        Ok((Seq::empty(), pos))
    } else {
        match points_n(s, pos, (n - 1) as nat) {
            Err(e) => Err(e),
            Ok((items, p)) => match point_at(s, p) {
                Err(e) => Err(e),
                Ok((item, end)) => Ok((items.push(item), end)),
            },
        }
    }
}

/// The list of points at `pos`: a count and that many points.
pub open spec fn points_at(s: Seq<u8>, pos: int) -> Result<(Seq<Point>, int), ErrorView> {
    match count_at(s, pos) {
        Err(e) => Err(e),
        Ok((n, p)) => points_n(s, p, n),
    }
}

/// The second opaque attribute of a line: a field of its own from version 5 on, zero
/// and no bytes before.
pub open spec fn second_attribute_at(s: Seq<u8>, pos: int, version: i32) -> Result<
    (i32, int),
    ErrorView,
> {
    if version >= 5 {
        match i32_at(s, pos) {
            None => Err(ErrorView::Truncated),
            Some(a) => Ok((a, pos + 4)),
        }
    } else {
        Ok((0i32, pos))
    }
}

/// The line at `pos`: brush code, colour code, opaque attribute, base size, the second
/// opaque attribute where the version has it, and the list of points.
pub open spec fn line_at(s: Seq<u8>, pos: int, version: i32) -> Result<(LineView, int), ErrorView> {
    match i32_at(s, pos) {
        None => Err(ErrorView::Truncated),
        Some(brush_code) => match brush_of_code(brush_code as int) {
            None => Err(ErrorView::UnknownBrush(brush_code)),
            Some(brush_type) => match i32_at(s, pos + 4) {
                None => Err(ErrorView::Truncated),
                Some(color_code) => match color_of_code(color_code as int) {
                    None => Err(ErrorView::UnknownColor(color_code)),
                    Some(color) => match (i32_at(s, pos + 8), real_at(s, pos + 12)) {
                        (Some(attribute), Some(size)) => match second_attribute_at(
                            s,
                            pos + 16,
                            version,
                        ) {
                            Err(e) => Err(e),
                            Ok((attribute_2, p)) => match points_at(s, p) {
                                Err(e) => Err(e),
                                Ok((points, end)) => Ok(
                                    (
                                        LineView {
                                            brush_type,
                                            color,
                                            unknown_line_attribute: attribute,
                                            unknown_line_attribute_2: attribute_2,
                                            brush_base_size: size,
                                            points,
                                        },
                                        end,
                                    ),
                                ),
                            },
                        },
                        _ => Err(ErrorView::Truncated),
                    },
                },
            },
        },
    }
}

/// The first `n` lines from `pos` on.
pub open spec fn lines_n(s: Seq<u8>, pos: int, version: i32, n: nat) -> Result<
    (Seq<LineView>, int),
    ErrorView,
>
    decreases n,
{
    if n == 0 {
        Ok((Seq::empty(), pos))
    } else {
        match lines_n(s, pos, version, (n - 1) as nat) {
            Err(e) => Err(e),
            Ok((items, p)) => match line_at(s, p, version) {
                Err(e) => Err(e),
                Ok((item, end)) => Ok((items.push(item), end)),
            },
        }
    }
}

/// The layer at `pos`: a count and that many lines.
pub open spec fn layer_at(s: Seq<u8>, pos: int, version: i32) -> Result<
    (Seq<LineView>, int),
    ErrorView,
> {
    match count_at(s, pos) {
        Err(e) => Err(e),
        Ok((n, p)) => lines_n(s, p, version, n),
    }
}

/// The first `n` layers from `pos` on.
pub open spec fn layers_n(s: Seq<u8>, pos: int, version: i32, n: nat) -> Result<
    (Seq<Seq<LineView>>, int),
    ErrorView,
>
    decreases n,
{
    if n == 0 {
        Ok((Seq::empty(), pos))
    } else {
        match layers_n(s, pos, version, (n - 1) as nat) {
            Err(e) => Err(e),
            Ok((items, p)) => match layer_at(s, p, version) {
                Err(e) => Err(e),
                Ok((item, end)) => Ok((items.push(item), end)),
            },
        }
    }
}

/// The page at `pos`: a count and that many layers.
pub open spec fn page_at(s: Seq<u8>, pos: int, version: i32) -> Result<
    (Seq<Seq<LineView>>, int),
    ErrorView,
> {
    match count_at(s, pos) {
        Err(e) => Err(e),
        Ok((n, p)) => layers_n(s, p, version, n),
    }
}

/// The first `n` pages from `pos` on.
pub open spec fn pages_n(s: Seq<u8>, pos: int, version: i32, n: nat) -> Result<
    (Seq<Seq<Seq<LineView>>>, int),
    ErrorView,
>
    decreases n,
{
    if n == 0 {
        Ok((Seq::empty(), pos))
    } else {
        match pages_n(s, pos, version, (n - 1) as nat) {
            Err(e) => Err(e),
            Ok((items, p)) => match page_at(s, p, version) {
                Err(e) => Err(e),
                Ok((item, end)) => Ok((items.push(item), end)),
            },
        }
    }
}

/// The pages at `pos`. From version 3 on a file holds one page and no page count;
/// before, a count and that many pages.
pub open spec fn pages_at(s: Seq<u8>, pos: int, version: i32) -> Result<
    (Seq<Seq<Seq<LineView>>>, int),
    ErrorView,
> {
    if version >= 3 {
        pages_n(s, pos, version, 1)
    } else {
        match count_at(s, pos) {
            Err(e) => Err(e),
            Ok((n, p)) => pages_n(s, p, version, n),
        }
    }
}

/// Where the pages of a file of the given version begin: behind the header and, from
/// version 3 on, the reserved bytes.
pub open spec fn body_start(version: i32) -> int {
    if version >= 3 {
        HEADER_LEN + RESERVED_LEN
    } else {
        HEADER_LEN as int
    }
}

/// The document that a whole file holds. Bytes behind the last page are not read.
pub open spec fn document(s: Seq<u8>) -> Result<LinesDataView, ErrorView> {
    if s.len() < HEADER_LEN {
        Err(ErrorView::Truncated)
    } else {
        let header = s.subrange(0, HEADER_LEN as int);
        match version_of_header(header) {
            None => Err(ErrorView::UnsupportedVersion(header_text(header))),
            Some(version) => if s.len() < body_start(version) {
                Err(ErrorView::Truncated)
            } else {
                match pages_at(s, body_start(version), version) {
                    Err(e) => Err(e),
                    Ok((pages, _)) => Ok(LinesDataView { version, pages }),
                }
            },
        }
    }
}

/// Once a list of points has failed, no longer list from the same place succeeds, and
/// the reason stays the same.
pub proof fn lemma_points_failure_stays(s: Seq<u8>, pos: int, i: nat, n: nat)
    requires
        i <= n,
        points_n(s, pos, i) is Err,
    ensures
        points_n(s, pos, n) == points_n(s, pos, i),
    decreases n,
{
    if i < n {
        lemma_points_failure_stays(s, pos, i, (n - 1) as nat);
    }
}

/// Once a list of lines has failed, no longer list from the same place succeeds, and
/// the reason stays the same.
pub proof fn lemma_lines_failure_stays(s: Seq<u8>, pos: int, version: i32, i: nat, n: nat)
    requires
        i <= n,
        lines_n(s, pos, version, i) is Err,
    ensures
        lines_n(s, pos, version, n) == lines_n(s, pos, version, i),
    decreases n,
{
    if i < n {
        lemma_lines_failure_stays(s, pos, version, i, (n - 1) as nat);
    }
}

/// Once a list of layers has failed, no longer list from the same place succeeds, and
/// the reason stays the same.
pub proof fn lemma_layers_failure_stays(s: Seq<u8>, pos: int, version: i32, i: nat, n: nat)
    requires
        i <= n,
        layers_n(s, pos, version, i) is Err,
    ensures
        layers_n(s, pos, version, n) == layers_n(s, pos, version, i),
    decreases n,
{
    if i < n {
        lemma_layers_failure_stays(s, pos, version, i, (n - 1) as nat);
    }
}

/// Once a list of pages has failed, no longer list from the same place succeeds, and
/// the reason stays the same.
pub proof fn lemma_pages_failure_stays(s: Seq<u8>, pos: int, version: i32, i: nat, n: nat)
    requires
        i <= n,
        pages_n(s, pos, version, i) is Err,
    ensures
        pages_n(s, pos, version, n) == pages_n(s, pos, version, i),
    decreases n,
{
    if i < n {
        lemma_pages_failure_stays(s, pos, version, i, (n - 1) as nat);
    }
}

/// A list of points that decodes has as many points as its count field says.
pub proof fn lemma_point_count(s: Seq<u8>, pos: int)
    requires
        points_at(s, pos) is Ok,
    ensures
        i32_at(s, pos) == Some(points_at(s, pos)->Ok_0.0.len() as i32),
{
    let n = count_at(s, pos)->Ok_0.0;
    lemma_points_len(s, pos + 4, n);
}

/// A layer that decodes has as many lines as its count field says.
pub proof fn lemma_line_count(s: Seq<u8>, pos: int, version: i32)
    requires
        layer_at(s, pos, version) is Ok,
    ensures
        i32_at(s, pos) == Some(layer_at(s, pos, version)->Ok_0.0.len() as i32),
{
    let n = count_at(s, pos)->Ok_0.0;
    lemma_lines_len(s, pos + 4, version, n);
}

/// A page that decodes has as many layers as its count field says.
pub proof fn lemma_layer_count(s: Seq<u8>, pos: int, version: i32)
    requires
        page_at(s, pos, version) is Ok,
    ensures
        i32_at(s, pos) == Some(page_at(s, pos, version)->Ok_0.0.len() as i32),
{
    let n = count_at(s, pos)->Ok_0.0;
    lemma_layers_len(s, pos + 4, version, n);
}

/// The first `n` points, where they decode, are `n` points.
pub proof fn lemma_points_len(s: Seq<u8>, pos: int, n: nat)
    requires
        points_n(s, pos, n) is Ok,
    ensures
        points_n(s, pos, n)->Ok_0.0.len() == n,
    decreases n,
{
    if n > 0 {
        lemma_points_len(s, pos, (n - 1) as nat);
    }
}

/// The first `n` lines, where they decode, are `n` lines.
pub proof fn lemma_lines_len(s: Seq<u8>, pos: int, version: i32, n: nat)
    requires
        lines_n(s, pos, version, n) is Ok,
    ensures
        lines_n(s, pos, version, n)->Ok_0.0.len() == n,
    decreases n,
{
    if n > 0 {
        lemma_lines_len(s, pos, version, (n - 1) as nat);
    }
}

/// The first `n` layers, where they decode, are `n` layers.
pub proof fn lemma_layers_len(s: Seq<u8>, pos: int, version: i32, n: nat)
    requires
        layers_n(s, pos, version, n) is Ok,
    ensures
        layers_n(s, pos, version, n)->Ok_0.0.len() == n,
    decreases n,
{
    if n > 0 {
        lemma_layers_len(s, pos, version, (n - 1) as nat);
    }
}

/// An error that the fields behind the header can give: every one but those on the
/// header itself and on what is not decoding.
pub open spec fn is_body_error(e: ErrorView) -> bool {
    e is Truncated || e is InvalidCount || e is UnknownBrush || e is UnknownColor
}

/// A list of points fails only for want of bytes or for its count.
pub proof fn lemma_points_errors(s: Seq<u8>, pos: int, n: nat)
    ensures
        points_n(s, pos, n) matches Err(e) ==> e is Truncated,
    decreases n,
{
    if n > 0 {
        lemma_points_errors(s, pos, (n - 1) as nat);
    }
}

/// A line fails only with an error of the fields behind the header.
pub proof fn lemma_line_errors(s: Seq<u8>, pos: int, version: i32)
    ensures
        line_at(s, pos, version) matches Err(e) ==> is_body_error(e),
{
    if let Ok((_, p)) = second_attribute_at(s, pos + 16, version) {
        if let Ok((n, first)) = count_at(s, p) {
            lemma_points_errors(s, first, n);
        }
    }
}

/// A list of lines fails only with an error of the fields behind the header.
pub proof fn lemma_lines_errors(s: Seq<u8>, pos: int, version: i32, n: nat)
    ensures
        lines_n(s, pos, version, n) matches Err(e) ==> is_body_error(e),
    decreases n,
{
    if n > 0 {
        lemma_lines_errors(s, pos, version, (n - 1) as nat);
        if let Ok((_, p)) = lines_n(s, pos, version, (n - 1) as nat) {
            lemma_line_errors(s, p, version);
        }
    }
}

/// A list of layers fails only with an error of the fields behind the header.
pub proof fn lemma_layers_errors(s: Seq<u8>, pos: int, version: i32, n: nat)
    ensures
        layers_n(s, pos, version, n) matches Err(e) ==> is_body_error(e),
    decreases n,
{
    if n > 0 {
        lemma_layers_errors(s, pos, version, (n - 1) as nat);
        if let Ok((_, p)) = layers_n(s, pos, version, (n - 1) as nat) {
            if let Ok((m, first)) = count_at(s, p) {
                lemma_lines_errors(s, first, version, m);
            }
        }
    }
}

/// A page fails only with an error of the fields behind the header.
pub proof fn lemma_page_errors(s: Seq<u8>, pos: int, version: i32)
    ensures
        page_at(s, pos, version) matches Err(e) ==> is_body_error(e),
{
    if let Ok((n, first)) = count_at(s, pos) {
        lemma_layers_errors(s, first, version, n);
    }
}

/// A file that begins with the version 3 header and its ten reserved bytes never fails
/// for its version. Where it decodes, the document has version 3 and exactly one page:
/// the page that stands behind the reserved bytes, with as many layers as the count
/// field there says.
pub proof fn lemma_version_3_has_one_page(s: Seq<u8>)
    requires
        s.len() >= HEADER_LEN + RESERVED_LEN,
        s.subrange(0, HEADER_LEN as int) == version_3_header(),
    ensures
        match document(s) {
            Ok(data) => {
                &&& data.version == 3
                &&& data.pages.len() == 1
                &&& page_at(s, 43, 3) matches Ok((layers, _)) && data.pages[0] == layers
                &&& i32_at(s, 43) == Some(data.pages[0].len() as i32)
            },
            Err(e) => is_body_error(e) && page_at(s, 43, 3) == Err::<
                (Seq<Seq<LineView>>, int),
                ErrorView,
            >(e),
        },
{
    reveal_with_fuel(pages_n, 2);
    assert(version_of_header(s.subrange(0, HEADER_LEN as int)) == Some(3i32));
    assert(body_start(3) == 43);
    assert(pages_n(s, 43, 3, 0) == Ok::<(Seq<Seq<Seq<LineView>>>, int), ErrorView>(
        (Seq::empty(), 43),
    ));
    match page_at(s, 43, 3) {
        Ok((layers, end)) => {
            lemma_layer_count(s, 43, 3);
            let pages = Seq::<Seq<Seq<LineView>>>::empty().push(layers);
            assert(pages_at(s, 43, 3) == Ok::<(Seq<Seq<Seq<LineView>>>, int), ErrorView>(
                (pages, end),
            ));
            assert(pages.len() == 1 && pages[0] == layers);
        },
        Err(e) => {
            assert(pages_at(s, 43, 3) == Err::<(Seq<Seq<Seq<LineView>>>, int), ErrorView>(e));
            lemma_page_errors(s, 43, 3);
        },
    }
}

/// A file that begins with the header of the early layout, the one with selections and
/// layers, is refused as an unsupported version, whatever follows the header. The
/// version is reported by the text of the first 33 bytes without the space at their end.
pub proof fn lemma_early_layout_is_refused(s: Seq<u8>)
    requires
        s.len() >= 43,
        s.subrange(0, 43) == ascii_bytes("reMarkable lines with selections and layers"@),
    ensures
        document(s) == Err::<LinesDataView, ErrorView>(
            ErrorView::UnsupportedVersion(header_text(s.subrange(0, HEADER_LEN as int))),
        ),
        trim_padding(s.subrange(0, HEADER_LEN as int)) == ascii_bytes(
            "reMarkable lines with selections"@,
        ),
{
    reveal_strlit("reMarkable lines with selections and layers");
    reveal_strlit("reMarkable lines with selections");
    reveal_strlit("reMarkable .lines file, version=3");
    reveal_strlit("reMarkable .lines file, version=5");
    let header = s.subrange(0, HEADER_LEN as int);
    let text = ascii_bytes("reMarkable lines with selections"@);
    assert forall|i: int| 0 <= i < 33 implies header[i] == s.subrange(0, 43)[i] by {}
    assert(header[11] != version_3_header()[11]);
    assert(header[11] != version_5_header()[11]);
    assert(header.drop_last() =~= text);
    assert(is_padding(header.last()));
    assert(!is_padding(text.last()));
    reveal_with_fuel(trim_padding, 2);
}

} // verus!
