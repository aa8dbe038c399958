//! Reading the parts of a version 5 file, each from a given position.
//!
//! Every function gives what it read together with the position behind it.

use vstd::prelude::*;
use crate::layout::{layer_at, line_at, page_at, point_at};
use crate::model::{layers_view, lines_view, Error, Layer, Line, Page, Point};
use crate::parse::LinesDataReader;

verus! {

/// The version whose layout this module reads.
pub const VERSION: i32 = 5;

/// Reads the point at `pos`.
pub fn parse_point(content: &[u8], pos: usize) -> (r: Result<(Point, usize), Error>)
    ensures
        match point_at(content@, pos as int) {
            Ok((point, end)) => r matches Ok((v, p)) && v == point && p == end,
            Err(e) => r matches Err(x) && x@ == e,
        },
{
    let mut reader = LinesDataReader::new(content, pos, VERSION);
    match reader.read_point() {
        Ok(point) => Ok((point, reader.pos)),
        Err(e) => Err(e),
    }
}

/// Reads the line at `pos`, with its second opaque attribute.
pub fn parse_line(content: &[u8], pos: usize) -> (r: Result<(Line, usize), Error>)
    ensures
        match line_at(content@, pos as int, VERSION) {
            Ok((line, end)) => r matches Ok((v, p)) && v@ == line && p == end,
            Err(e) => r matches Err(x) && x@ == e,
        },
{
    let mut reader = LinesDataReader::new(content, pos, VERSION);
    match reader.read_line() {
        Ok(line) => Ok((line, reader.pos)),
        Err(e) => Err(e),
    }
}

/// Reads the lines of the layer at `pos`.
pub fn read_lines(content: &[u8], pos: usize) -> (r: Result<(Vec<Line>, usize), Error>)
    ensures
        match layer_at(content@, pos as int, VERSION) {
            Ok((lines, end)) => r matches Ok((v, p)) && lines_view(v@) == lines && p == end,
            Err(e) => r matches Err(x) && x@ == e,
        },
{
    let mut reader = LinesDataReader::new(content, pos, VERSION);
    match reader.read_lines() {
        Ok(lines) => Ok((lines, reader.pos)),
        Err(e) => Err(e),
    }
}

/// Reads the layers of the page at `pos`.
pub fn read_layers(content: &[u8], pos: usize) -> (r: Result<(Vec<Layer>, usize), Error>)
    ensures
        match page_at(content@, pos as int, VERSION) {
            Ok((layers, end)) => r matches Ok((v, p)) && layers_view(v@) == layers && p == end,
            Err(e) => r matches Err(x) && x@ == e,
        },
{
    let mut reader = LinesDataReader::new(content, pos, VERSION);
    match reader.read_layers() {
        Ok(layers) => Ok((layers, reader.pos)),
        Err(e) => Err(e),
    }
}

/// Reads a page from bytes that hold nothing before it: neither header nor reserved
/// bytes. What follows the page is not read.
pub fn read_page(content: &[u8]) -> (r: Result<Page, Error>)
    ensures
        match page_at(content@, 0, VERSION) {
            Ok((layers, _)) => r matches Ok(v) && v@ == layers,
            Err(e) => r matches Err(x) && x@ == e,
        },
{
    match read_layers(content, 0) {
        Ok((layers, _)) => Ok(Page { layers }),
        Err(e) => Err(e),
    }
}

} // verus!
