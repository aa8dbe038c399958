//! The decoder: a forward-only reader over the bytes of a stroke file.

use vstd::prelude::*;
use crate::bytes::{decode_i32, decode_real, i32_at, real_at};
use crate::header::{
    all_ascii, ascii_text, detect_version, header_string, trim_padding, version_of_header,
    HEADER_LEN, RESERVED_LEN,
};
use crate::layout::{
    count_at, document, layer_at, layers_n, lemma_layers_failure_stays, lemma_lines_failure_stays,
    lemma_pages_failure_stays, lemma_points_failure_stays, line_at, lines_n, page_at, pages_at,
    pages_n, point_at, points_at, points_n,
};
use crate::model::{
    layers_view, lines_view, pages_view, BrushType, Color, Error, ErrorView, Layer, Line, Page,
    LinesData, Point, Real,
};
use vstd::slice::slice_subrange;

verus! {

/// A position in the bytes of a stroke file, and the version whose layout is read there.
///
/// Each read takes what stands at `pos` and moves `pos` behind it. A read that fails
/// leaves the reader at an unspecified position: the document is lost with it.
pub struct LinesDataReader<'a> {
    pub file: &'a [u8],
    pub pos: usize,
    pub version: i32,
}

impl<'a> LinesDataReader<'a> {
    /// The bytes and the version are those of `before`.
    pub open spec fn continues(&self, before: &Self) -> bool {
        self.file@ == before.file@ && self.version == before.version
    }

    /// A reader at the position `pos` of `file`.
    pub fn new(file: &'a [u8], pos: usize, version: i32) -> (r: Self)
        ensures
            r.file@ == file@,
            r.pos == pos,
            r.version == version,
    {
        LinesDataReader { file, pos, version }
    }

    /// Reads a signed 32-bit field.
    pub fn read_i32(&mut self) -> (r: Result<i32, Error>)
        ensures
            final(self).continues(old(self)),
            match i32_at(old(self).file@, old(self).pos as int) {
                Some(v) => r == Ok::<i32, Error>(v) && final(self).pos == old(self).pos + 4,
                None => r == Err::<i32, Error>(Error::Truncated) && final(self).pos == old(self).pos,
            },
    {
        match decode_i32(self.file, self.pos) {
            Some(v) => {
                self.pos = self.pos + 4;
                Ok(v)
            },
            None => Err(Error::Truncated),
        }
    }

    /// Reads a single-precision field.
    pub fn read_f32(&mut self) -> (r: Result<Real, Error>)
        ensures
            final(self).continues(old(self)),
            match real_at(old(self).file@, old(self).pos as int) {
                Some(v) => r == Ok::<Real, Error>(v) && final(self).pos == old(self).pos + 4,
                None => r == Err::<Real, Error>(Error::Truncated) && final(self).pos == old(self).pos,
            },
    {
        match decode_real(self.file, self.pos) {
            Some(v) => {
                self.pos = self.pos + 4;
                Ok(v)
            },
            None => Err(Error::Truncated),
        }
    }

    /// Reads a count field: a signed number, refused where it is negative.
    pub fn read_count(&mut self) -> (r: Result<i32, Error>)
        ensures
            final(self).continues(old(self)),
            match count_at(old(self).file@, old(self).pos as int) {
                Ok((n, end)) => r matches Ok(v) && v == n && final(self).pos == end,
                Err(e) => r matches Err(x) && x@ == e,
            },
    {
        match self.read_i32() {
            Ok(n) => if n < 0 {
                Err(Error::InvalidCount(n))
            } else {
                Ok(n)
            },
            Err(e) => Err(e),
        }
    }

    /// Reads one point.
    pub fn read_point(&mut self) -> (r: Result<Point, Error>)
        ensures
            final(self).continues(old(self)),
            match point_at(old(self).file@, old(self).pos as int) {
                Ok((point, end)) => r matches Ok(v) && v == point && final(self).pos == end,
                Err(e) => r matches Err(x) && x@ == e,
            },
    {
        let x = match self.read_f32() {
            Ok(v) => v,
            Err(e) => return Err(e),
        };
        let y = match self.read_f32() {
            Ok(v) => v,
            Err(e) => return Err(e),
        };
        let speed = match self.read_f32() {
            Ok(v) => v,
            Err(e) => return Err(e),
        };
        let direction = match self.read_f32() {
            Ok(v) => v,
            Err(e) => return Err(e),
        };
        let width = match self.read_f32() {
            Ok(v) => v,
            Err(e) => return Err(e),
        };
        let pressure = match self.read_f32() {
            Ok(v) => v,
            Err(e) => return Err(e),
        };
        Ok(Point { x, y, speed, direction, width, pressure })
    }

    /// Reads a list of points: a count and that many points.
    pub fn read_points(&mut self) -> (r: Result<Vec<Point>, Error>)
        ensures
            final(self).continues(old(self)),
            match points_at(old(self).file@, old(self).pos as int) {
                Ok((points, end)) => r matches Ok(v) && v@ == points && final(self).pos == end,
                Err(e) => r matches Err(x) && x@ == e,
            },
    {
        let ghost before = *self;
        let n = match self.read_count() {
            Ok(n) => n,
            Err(e) => return Err(e),
        };
        let ghost first = self.pos as int;
        let mut points: Vec<Point> = Vec::new();
        let mut i: i32 = 0;
        while i < n
            invariant
                0 <= i <= n,
                before == *old(self),
                self.continues(&before),
                count_at(before.file@, before.pos as int) == Ok::<(nat, int), ErrorView>(
                    (n as nat, first),
                ),
                points_n(before.file@, first, i as nat) == Ok::<(Seq<Point>, int), ErrorView>(
                    (points@, self.pos as int),
                ),
            decreases n - i,
        {
            match self.read_point() {
                Ok(point) => {
                    points.push(point);
                },
                Err(e) => {
                    proof {
                        lemma_points_failure_stays(before.file@, first, (i + 1) as nat, n as nat);
                    }
                    return Err(e);
                },
            }
            i = i + 1;
        }
        Ok(points)
    }

    /// Reads one line.
    pub fn read_line(&mut self) -> (r: Result<Line, Error>)
        ensures
            final(self).continues(old(self)),
            match line_at(old(self).file@, old(self).pos as int, old(self).version) {
                Ok((line, end)) => r matches Ok(v) && v@ == line && final(self).pos == end,
                Err(e) => r matches Err(x) && x@ == e,
            },
    {
        let brush_code = match self.read_i32() {
            Ok(v) => v,
            Err(e) => return Err(e),
        };
        let brush_type = match BrushType::try_from(brush_code) {
            Ok(v) => v,
            Err(e) => return Err(e),
        };
        let color_code = match self.read_i32() {
            Ok(v) => v,
            Err(e) => return Err(e),
        };
        let color = match Color::try_from(color_code) {
            Ok(v) => v,
            Err(e) => return Err(e),
        };
        let unknown_line_attribute = match self.read_i32() {
            Ok(v) => v,
            Err(e) => return Err(e),
        };
        let brush_base_size = match self.read_f32() {
            Ok(v) => v,
            Err(e) => return Err(e),
        };
        let unknown_line_attribute_2 = if self.version >= 5 {
            match self.read_i32() {
                Ok(v) => v,
                Err(e) => return Err(e),
            }
        } else {
            0
        };
        let points = match self.read_points() {
            Ok(v) => v,
            Err(e) => return Err(e),
        };
        Ok(
            Line {
                brush_type,
                color,
                unknown_line_attribute,
                unknown_line_attribute_2,
                brush_base_size,
                points,
            },
        )
    }

    /// Reads the lines of a layer: a count and that many lines.
    pub fn read_lines(&mut self) -> (r: Result<Vec<Line>, Error>)
        ensures
            final(self).continues(old(self)),
            match layer_at(old(self).file@, old(self).pos as int, old(self).version) {
                Ok((lines, end)) => r matches Ok(v) && lines_view(v@) == lines && final(self).pos
                    == end,
                Err(e) => r matches Err(x) && x@ == e,
            },
    {
        let ghost before = *self;
        let n = match self.read_count() {
            Ok(n) => n,
            Err(e) => return Err(e),
        };
        let ghost first = self.pos as int;
        let mut lines: Vec<Line> = Vec::new();
        assert(lines_view(lines@) =~= Seq::empty());
        let mut i: i32 = 0;
        while i < n
            invariant
                0 <= i <= n,
                before == *old(self),
                self.continues(&before),
                count_at(before.file@, before.pos as int) == Ok::<(nat, int), ErrorView>(
                    (n as nat, first),
                ),
                lines_n(before.file@, first, before.version, i as nat) == Ok::<
                    (Seq<crate::model::LineView>, int),
                    ErrorView,
                >((lines_view(lines@), self.pos as int)),
            decreases n - i,
        {
            let ghost so_far = lines@;
            match self.read_line() {
                Ok(line) => {
                    lines.push(line);
                    assert(lines_view(lines@) =~= lines_view(so_far).push(line@));
                },
                Err(e) => {
                    proof {
                        lemma_lines_failure_stays(
                            before.file@,
                            first,
                            before.version,
                            (i + 1) as nat,
                            n as nat,
                        );
                    }
                    return Err(e);
                },
            }
            i = i + 1;
        }
        Ok(lines)
    }

    /// Reads the layers of a page: a count and that many layers.
    pub fn read_layers(&mut self) -> (r: Result<Vec<Layer>, Error>)
        ensures
            final(self).continues(old(self)),
            match page_at(old(self).file@, old(self).pos as int, old(self).version) {
                Ok((layers, end)) => r matches Ok(v) && layers_view(v@) == layers && final(self).pos == end,
                Err(e) => r matches Err(x) && x@ == e,
            },
    {
        let ghost before = *self;
        let n = match self.read_count() {
            Ok(n) => n,
            Err(e) => return Err(e),
        };
        let ghost first = self.pos as int;
        let mut layers: Vec<Layer> = Vec::new();
        assert(layers_view(layers@) =~= Seq::empty());
        let mut i: i32 = 0;
        while i < n
            invariant
                0 <= i <= n,
                before == *old(self),
                self.continues(&before),
                count_at(before.file@, before.pos as int) == Ok::<(nat, int), ErrorView>(
                    (n as nat, first),
                ),
                layers_n(before.file@, first, before.version, i as nat) == Ok::<
                    (Seq<Seq<crate::model::LineView>>, int),
                    ErrorView,
                >((layers_view(layers@), self.pos as int)),
            decreases n - i,
        {
            let ghost so_far = layers@;
            match self.read_lines() {
                Ok(lines) => {
                    let layer = Layer { lines };
                    layers.push(layer);
                    assert(layers_view(layers@) =~= layers_view(so_far).push(layer@));
                },
                Err(e) => {
                    proof {
                        lemma_layers_failure_stays(
                            before.file@,
                            first,
                            before.version,
                            (i + 1) as nat,
                            n as nat,
                        );
                    }
                    return Err(e);
                },
            }
            i = i + 1;
        }
        Ok(layers)
    }

    /// Reads the pages of a file. From version 3 on that is one page, and no count is
    /// read; before, a count and that many pages.
    pub fn read_pages(&mut self) -> (r: Result<Vec<Page>, Error>)
        ensures
            final(self).continues(old(self)),
            match pages_at(old(self).file@, old(self).pos as int, old(self).version) {
                Ok((pages, end)) => r matches Ok(v) && pages_view(v@) == pages && final(self).pos
                    == end,
                Err(e) => r matches Err(x) && x@ == e,
            },
    {
        let ghost before = *self;
        let n = if self.version >= 3 {
            1
        } else {
            match self.read_count() {
                Ok(n) => n,
                Err(e) => return Err(e),
            }
        };
        let ghost first = self.pos as int;
        let mut pages: Vec<Page> = Vec::new();
        assert(pages_view(pages@) =~= Seq::empty());
        let mut i: i32 = 0;
        while i < n
            invariant
                0 <= i <= n,
                before == *old(self),
                self.continues(&before),
                before.version >= 3 ==> n == 1 && first == before.pos,
                before.version < 3 ==> count_at(before.file@, before.pos as int) == Ok::<
                    (nat, int),
                    ErrorView,
                >((n as nat, first)),
                pages_n(before.file@, first, before.version, i as nat) == Ok::<
                    (Seq<Seq<Seq<crate::model::LineView>>>, int),
                    ErrorView,
                >((pages_view(pages@), self.pos as int)),
            decreases n - i,
        {
            let ghost so_far = pages@;
            match self.read_layers() {
                Ok(layers) => {
                    let page = Page { layers };
                    pages.push(page);
                    assert(pages_view(pages@) =~= pages_view(so_far).push(page@));
                },
                Err(e) => {
                    proof {
                        lemma_pages_failure_stays(
                            before.file@,
                            first,
                            before.version,
                            (i + 1) as nat,
                            n as nat,
                        );
                    }
                    return Err(e);
                },
            }
            i = i + 1;
        }
        Ok(pages)
    }
}

impl LinesData {
    /// Decodes a whole stroke file.
    ///
    /// The header decides the version; only versions 3 and 5 are read. The document is
    /// complete or there is none: the first field that cannot be read is the error.
    /// An unsupported header is reported by its text without the padding at its end.
    pub fn parse(file: &[u8]) -> (r: Result<LinesData, Error>)
        ensures
            match document(file@) {
                Ok(data) => r matches Ok(v) && v@ == data,
                Err(e) => r matches Err(x) && x@ == e,
            },
            file@.len() >= HEADER_LEN && version_of_header(file@.subrange(0, HEADER_LEN as int))
                is None && all_ascii(file@.subrange(0, HEADER_LEN as int)) ==> (r matches Err(
                Error::UnsupportedVersion(text),
            ) && text@ == ascii_text(trim_padding(file@.subrange(0, HEADER_LEN as int)))),
    {
        if file.len() < HEADER_LEN {
            return Err(Error::Truncated);
        }
        let header = slice_subrange(file, 0, HEADER_LEN);
        let version = match detect_version(header) {
            Some(version) => version,
            None => return Err(Error::UnsupportedVersion(header_string(header))),
        };
        let start = if version >= 3 {
            HEADER_LEN + RESERVED_LEN
        } else {
            HEADER_LEN
        };
        if file.len() < start {
            return Err(Error::Truncated);
        }
        let mut reader = LinesDataReader::new(file, start, version);
        match reader.read_pages() {
            Ok(pages) => Ok(LinesData { version, pages }),
            Err(e) => Err(e),
        }
    }
}

} // verus!
