//! Reading the parts of a version 3 file, each from a given position.
//!
//! Every function gives what it read together with the position behind it. A line of
//! this version has one opaque attribute; the second is zero.

use vstd::prelude::*;
use crate::bytes::{i32_at, real_at};
use crate::layout::{layer_at, page_at, point_at, points_at};
use crate::model::{layers_view, lines_view, Error, Layer, Line, Page, Point, Real};
use crate::parse::LinesDataReader;

verus! {

/// The version whose layout this module reads.
pub const VERSION: i32 = 3;

/// The four fields that a line begins with, as they stand in the bytes: brush code,
/// colour code, opaque attribute and base size. No code is looked up.
pub open spec fn line_header_at(s: Seq<u8>, pos: int) -> Option<((i32, i32, i32, Real), int)> {
    if 0 <= pos && pos + 16 <= s.len() {
        Some(
            (
                (
                    i32_at(s, pos).unwrap(),
                    i32_at(s, pos + 4).unwrap(),
                    i32_at(s, pos + 8).unwrap(),
                    real_at(s, pos + 12).unwrap(),
                ),
                pos + 16,
            ),
        )
    } else {
        None
    }
}

/// Reads the four fields that the line at `pos` begins with, or nothing where the bytes
/// end before the last of them.
pub fn parse_line_header(content: &[u8], pos: usize) -> (r: Option<((i32, i32, i32, Real), usize)>)
    ensures
        match line_header_at(content@, pos as int) {
            Some((header, end)) => r == Some((header, end as usize)) && end <= usize::MAX,
            None => r is None,
        },
{
    let mut reader = LinesDataReader::new(content, pos, VERSION);
    let brush_type = match reader.read_i32() {
        Ok(v) => v,
        Err(_) => return None,
    };
    let color = match reader.read_i32() {
        Ok(v) => v,
        Err(_) => return None,
    };
    let unknown_line_attribute = match reader.read_i32() {
        Ok(v) => v,
        Err(_) => return None,
    };
    let brush_base_size = match reader.read_f32() {
        Ok(v) => v,
        Err(_) => return None,
    };
    Some(((brush_type, color, unknown_line_attribute, brush_base_size), reader.pos))
}

/// Reads the six fields of the point at `pos`, in the order x, y, speed, direction,
/// width, pressure, or nothing where the bytes end before the last of them.
pub fn parse_point_header(content: &[u8], pos: usize) -> (r: Option<
    ((Real, Real, Real, Real, Real, Real), usize),
>)
    ensures
        match point_at(content@, pos as int) {
            Ok((p, end)) => r == Some(
                ((p.x, p.y, p.speed, p.direction, p.width, p.pressure), end as usize),
            ) && end <= usize::MAX,
            Err(_) => r is None,
        },
{
    let mut reader = LinesDataReader::new(content, pos, VERSION);
    match reader.read_point() {
        Ok(p) => Some(((p.x, p.y, p.speed, p.direction, p.width, p.pressure), reader.pos)),
        Err(_) => None,
    }
}

/// Reads the list of points at `pos`.
pub fn read_points(content: &[u8], pos: usize) -> (r: Result<(Vec<Point>, usize), Error>)
    ensures
        match points_at(content@, pos as int) {
            Ok((points, end)) => r matches Ok((v, p)) && v@ == points && p == end,
            Err(e) => r matches Err(x) && x@ == e,
        },
{
    let mut reader = LinesDataReader::new(content, pos, VERSION);
    match reader.read_points() {
        Ok(points) => Ok((points, reader.pos)),
        Err(e) => Err(e),
    }
}

/// Reads the lines of the layer at `pos`.
pub fn read_lines(content: &[u8], pos: usize) -> (r: Result<(Vec<Line>, usize), Error>)
    ensures
        match layer_at(content@, pos as int, VERSION) {
            Ok((lines, end)) => r matches Ok((v, p)) && lines_view(v@) == lines && p == end,
            Err(e) => r matches Err(x) && x@ == e,
        },
{
    let mut reader = LinesDataReader::new(content, pos, VERSION);
    match reader.read_lines() {
        Ok(lines) => Ok((lines, reader.pos)),
        Err(e) => Err(e),
    }
}

/// Reads the layers of the page at `pos`.
pub fn read_layers(content: &[u8], pos: usize) -> (r: Result<(Vec<Layer>, usize), Error>)
    ensures
        match page_at(content@, pos as int, VERSION) {
            Ok((layers, end)) => r matches Ok((v, p)) && layers_view(v@) == layers && p == end,
            Err(e) => r matches Err(x) && x@ == e,
        },
{
    let mut reader = LinesDataReader::new(content, pos, VERSION);
    match reader.read_layers() {
        Ok(layers) => Ok((layers, reader.pos)),
        Err(e) => Err(e),
    }
}

/// Reads a page from bytes that hold nothing before it: neither header nor reserved
/// bytes. What follows the page is not read.
pub fn read_page(content: &[u8]) -> (r: Result<Page, Error>)
    ensures
        match page_at(content@, 0, VERSION) {
            Ok((layers, _)) => r matches Ok(v) && v@ == layers,
            Err(e) => r matches Err(x) && x@ == e,
        },
{
    match read_layers(content, 0) {
        Ok((layers, _)) => Ok(Page { layers }),
        Err(e) => Err(e),
    }
}

} // verus!
