use lines_are_rusty::parse::LinesDataReader;
use lines_are_rusty::{BrushType, Color, Error, Line, LinesData, Point, Real};

const V3: &str = "reMarkable .lines file, version=3";
const V5: &str = "reMarkable .lines file, version=5";

fn num(v: f32) -> Real {
    Real::from_bits(v.to_bits())
}

fn put_i32(out: &mut Vec<u8>, n: i32) {
    out.extend_from_slice(&n.to_le_bytes());
}

fn put_f32(out: &mut Vec<u8>, v: f32) {
    out.extend_from_slice(&v.to_le_bytes());
}

fn put_point(out: &mut Vec<u8>, seed: f32) {
    for k in 0..6 {
        put_f32(out, seed + k as f32);
    }
}

fn point(seed: f32) -> Point {
    Point {
        x: num(seed),
        y: num(seed + 1.0),
        speed: num(seed + 2.0),
        direction: num(seed + 3.0),
        width: num(seed + 4.0),
        pressure: num(seed + 5.0),
    }
}

fn start(header: &str) -> Vec<u8> {
    let mut out = header.as_bytes().to_vec();
    out.extend_from_slice(&[0x20; 10]);
    out
}

/// Two layers: the first with two lines of two and no points, the second empty.
fn sample(version: i32) -> Vec<u8> {
    let mut out = start(if version == 3 { V3 } else { V5 });
    put_i32(&mut out, 2);
    put_i32(&mut out, 2);
    put_i32(&mut out, 12);
    put_i32(&mut out, 7);
    put_i32(&mut out, -5);
    put_f32(&mut out, 2.125);
    if version >= 5 {
        put_i32(&mut out, 77);
    }
    put_i32(&mut out, 2);
    put_point(&mut out, 10.0);
    put_point(&mut out, 20.0);
    put_i32(&mut out, 4);
    put_i32(&mut out, 1);
    put_i32(&mut out, 3);
    put_f32(&mut out, 1.875);
    if version >= 5 {
        put_i32(&mut out, -1);
    }
    put_i32(&mut out, 0);
    put_i32(&mut out, 0);
    out
}

fn sample_lines(version: i32) -> Vec<Line> {
    vec![
        Line {
            brush_type: BrushType::Brush,
            color: Color::Red,
            unknown_line_attribute: -5,
            unknown_line_attribute_2: if version >= 5 { 77 } else { 0 },
            brush_base_size: num(2.125),
            points: vec![point(10.0), point(20.0)],
        },
        Line {
            brush_type: BrushType::Fineliner,
            color: Color::Grey,
            unknown_line_attribute: 3,
            unknown_line_attribute_2: if version >= 5 { -1 } else { 0 },
            brush_base_size: num(1.875),
            points: vec![],
        },
    ]
}

#[test]
fn version_3_file_is_one_page_with_the_encoded_counts() {
    let data = LinesData::parse(&sample(3)).unwrap();
    assert_eq!(data.version, 3);
    assert_eq!(data.pages.len(), 1);
    let page = &data.pages[0];
    assert_eq!(page.layers.len(), 2);
    assert_eq!(page.layers[0].lines.len(), 2);
    assert_eq!(page.layers[0].lines[0].points.len(), 2);
    assert_eq!(page.layers[0].lines[1].points.len(), 0);
    assert_eq!(page.layers[1].lines.len(), 0);
    assert_eq!(page.layers[0].lines, sample_lines(3));
}

#[test]
fn version_3_line_has_a_zero_second_attribute() {
    let data = LinesData::parse(&sample(3)).unwrap();
    for line in &data.pages[0].layers[0].lines {
        assert_eq!(line.unknown_line_attribute_2, 0);
    }
}

#[test]
fn version_5_file_keeps_the_second_attribute() {
    let data = LinesData::parse(&sample(5)).unwrap();
    assert_eq!(data.version, 5);
    assert_eq!(data.pages.len(), 1);
    assert_eq!(data.pages[0].layers.len(), 2);
    assert_eq!(data.pages[0].layers[0].lines, sample_lines(5));
    assert_eq!(data.pages[0].layers[0].lines[0].unknown_line_attribute_2, 77);
    assert_eq!(data.pages[0].layers[0].lines[1].unknown_line_attribute_2, -1);
}

#[test]
fn points_hold_their_six_fields_in_order() {
    let data = LinesData::parse(&sample(5)).unwrap();
    let p = data.pages[0].layers[0].lines[0].points[1];
    assert_eq!(f32::from_bits(p.x.bits), 20.0);
    assert_eq!(f32::from_bits(p.y.bits), 21.0);
    assert_eq!(f32::from_bits(p.speed.bits), 22.0);
    assert_eq!(f32::from_bits(p.direction.bits), 23.0);
    assert_eq!(f32::from_bits(p.width.bits), 24.0);
    assert_eq!(f32::from_bits(p.pressure.bits), 25.0);
    let size = data.pages[0].layers[0].lines[0].brush_base_size;
    assert_eq!(f32::from_bits(size.bits), 2.125);
}

#[test]
fn bytes_behind_the_page_are_not_read() {
    let mut bytes = sample(5);
    let expected = LinesData::parse(&bytes).unwrap();
    bytes.extend_from_slice(&[0xff; 13]);
    assert_eq!(LinesData::parse(&bytes), Ok(expected));
}

#[test]
fn every_proper_prefix_of_a_file_is_truncated() {
    for version in [3, 5] {
        let bytes = sample(version);
        assert!(LinesData::parse(&bytes).is_ok());
        for len in 0..bytes.len() {
            assert_eq!(
                LinesData::parse(&bytes[..len]),
                Err(Error::Truncated),
                "version {} cut to {} bytes",
                version,
                len
            );
        }
    }
}

#[test]
fn empty_page_decodes() {
    let mut bytes = start(V3);
    put_i32(&mut bytes, 0);
    let data = LinesData::parse(&bytes).unwrap();
    assert_eq!(data.version, 3);
    assert_eq!(data.pages.len(), 1);
    assert!(data.pages[0].layers.is_empty());
}

#[test]
fn early_layout_is_unsupported_whatever_follows() {
    let header = "reMarkable lines with selections and layers";
    let expected = Err(Error::UnsupportedVersion("reMarkable lines with selections".to_string()));
    let mut bytes = header.as_bytes().to_vec();
    assert_eq!(LinesData::parse(&bytes), expected);
    bytes.extend_from_slice(&sample(5)[33..]);
    assert_eq!(LinesData::parse(&bytes), expected);
    let mut bytes = header.as_bytes().to_vec();
    bytes.extend_from_slice(&[0xff; 64]);
    assert_eq!(LinesData::parse(&bytes), expected);
}

#[test]
fn unknown_header_is_reported_without_its_padding() {
    let mut bytes = b"some other format".to_vec();
    bytes.extend_from_slice(&[b' '; 6]);
    bytes.extend_from_slice(&[0; 10]);
    assert_eq!(bytes.len(), 33);
    assert_eq!(
        LinesData::parse(&bytes),
        Err(Error::UnsupportedVersion("some other format".to_string()))
    );
    let bytes = [b' '; 40];
    assert_eq!(LinesData::parse(&bytes), Err(Error::UnsupportedVersion(String::new())));
}

#[test]
fn other_versions_are_unsupported() {
    for header in [
        "reMarkable .lines file, version=4",
        "reMarkable .lines file, version=6",
        "reMarkable .lines file, version=2",
        "reMarkable .lines file, Version=3",
    ] {
        let mut bytes = start(header);
        put_i32(&mut bytes, 0);
        assert_eq!(LinesData::parse(&bytes), Err(Error::UnsupportedVersion(header.to_string())));
    }
}

#[test]
fn header_that_is_not_text_is_reported_with_replacement_characters() {
    let mut bytes = vec![0xff, b'a', 0xc3, 0xa9];
    bytes.extend_from_slice(&[b' '; 29]);
    bytes.extend_from_slice(&[0; 20]);
    assert_eq!(
        LinesData::parse(&bytes),
        Err(Error::UnsupportedVersion("\u{fffd}a\u{e9}".to_string()))
    );
}

#[test]
fn short_input_is_truncated() {
    assert_eq!(LinesData::parse(&[]), Err(Error::Truncated));
    assert_eq!(LinesData::parse(&V3.as_bytes()[..32]), Err(Error::Truncated));
    assert_eq!(LinesData::parse(V3.as_bytes()), Err(Error::Truncated));
    assert_eq!(LinesData::parse(&start(V3)), Err(Error::Truncated));
    assert_eq!(LinesData::parse(&start(V3)[..42]), Err(Error::Truncated));
}

fn one_line_file(brush: i32, color: i32) -> Vec<u8> {
    let mut bytes = start(V5);
    put_i32(&mut bytes, 1);
    put_i32(&mut bytes, 1);
    put_i32(&mut bytes, brush);
    put_i32(&mut bytes, color);
    put_i32(&mut bytes, 0);
    put_f32(&mut bytes, 2.0);
    put_i32(&mut bytes, 0);
    put_i32(&mut bytes, 1);
    put_point(&mut bytes, 1.0);
    bytes
}

#[test]
fn brush_codes_12_and_0_decode_to_brush() {
    for code in [12, 0] {
        let data = LinesData::parse(&one_line_file(code, 0)).unwrap();
        assert_eq!(data.pages[0].layers[0].lines[0].brush_type, BrushType::Brush);
    }
}

#[test]
fn color_code_7_decodes_to_red() {
    let data = LinesData::parse(&one_line_file(4, 7)).unwrap();
    assert_eq!(data.pages[0].layers[0].lines[0].color, Color::Red);
}

#[test]
fn color_code_99_fails_decoding() {
    assert_eq!(LinesData::parse(&one_line_file(4, 99)), Err(Error::UnknownColor(99)));
}

#[test]
fn unknown_brush_fails_decoding() {
    assert_eq!(LinesData::parse(&one_line_file(19, 0)), Err(Error::UnknownBrush(19)));
    assert_eq!(LinesData::parse(&one_line_file(-3, 99)), Err(Error::UnknownBrush(-3)));
}

#[test]
fn unknown_brush_is_found_before_the_rest_of_the_line_is_missed() {
    let mut bytes = start(V5);
    put_i32(&mut bytes, 1);
    put_i32(&mut bytes, 1);
    put_i32(&mut bytes, 20);
    assert_eq!(LinesData::parse(&bytes), Err(Error::UnknownBrush(20)));
}

#[test]
fn negative_counts_fail_decoding() {
    let mut bytes = start(V3);
    put_i32(&mut bytes, -1);
    assert_eq!(LinesData::parse(&bytes), Err(Error::InvalidCount(-1)));

    let mut bytes = start(V3);
    put_i32(&mut bytes, 1);
    put_i32(&mut bytes, -7);
    assert_eq!(LinesData::parse(&bytes), Err(Error::InvalidCount(-7)));

    let mut bytes = start(V3);
    put_i32(&mut bytes, 1);
    put_i32(&mut bytes, 1);
    put_i32(&mut bytes, 4);
    put_i32(&mut bytes, 0);
    put_i32(&mut bytes, 0);
    put_f32(&mut bytes, 1.0);
    put_i32(&mut bytes, i32::MIN);
    assert_eq!(LinesData::parse(&bytes), Err(Error::InvalidCount(i32::MIN)));
}

#[test]
fn count_larger_than_the_file_is_truncated() {
    let mut bytes = start(V5);
    put_i32(&mut bytes, i32::MAX);
    put_i32(&mut bytes, 0);
    assert_eq!(LinesData::parse(&bytes), Err(Error::Truncated));
}

#[test]
fn reader_reads_fields_in_turn() {
    let mut bytes = Vec::new();
    put_i32(&mut bytes, -9);
    put_f32(&mut bytes, 0.5);
    put_i32(&mut bytes, 3);
    let mut reader = LinesDataReader::new(&bytes, 0, 5);
    assert_eq!(reader.read_i32(), Ok(-9));
    assert_eq!(reader.pos, 4);
    assert_eq!(reader.read_f32(), Ok(num(0.5)));
    assert_eq!(reader.read_count(), Ok(3));
    assert_eq!(reader.pos, 12);
    assert_eq!(reader.read_i32(), Err(Error::Truncated));
    assert_eq!(reader.read_f32(), Err(Error::Truncated));
    assert_eq!(reader.pos, 12);
}

#[test]
fn reader_before_version_3_reads_a_page_count() {
    let mut bytes = Vec::new();
    put_i32(&mut bytes, 2);
    put_i32(&mut bytes, 0);
    put_i32(&mut bytes, 1);
    put_i32(&mut bytes, 0);
    let mut reader = LinesDataReader::new(&bytes, 0, 2);
    let pages = reader.read_pages().unwrap();
    assert_eq!(pages.len(), 2);
    assert_eq!(pages[0].layers.len(), 0);
    assert_eq!(pages[1].layers.len(), 1);
    assert_eq!(reader.pos, bytes.len());

    let mut reader = LinesDataReader::new(&bytes[..12], 0, 3);
    assert_eq!(reader.read_pages(), Err(Error::Truncated));

    let mut reader = LinesDataReader::new(&bytes, 4, 3);
    let pages = reader.read_pages().unwrap();
    assert_eq!(pages.len(), 1);
    assert_eq!(pages[0].layers.len(), 0);
    assert_eq!(reader.pos, 8);
}

#[test]
fn reader_reads_points_and_lines() {
    let mut bytes = Vec::new();
    put_i32(&mut bytes, 2);
    put_point(&mut bytes, 1.0);
    put_point(&mut bytes, 2.0);
    let mut reader = LinesDataReader::new(&bytes, 0, 3);
    assert_eq!(reader.read_points(), Ok(vec![point(1.0), point(2.0)]));
    let mut reader = LinesDataReader::new(&bytes, 4, 3);
    assert_eq!(reader.read_point(), Ok(point(1.0)));
    assert_eq!(reader.pos, 28);
    let mut reader = LinesDataReader::new(&bytes, 30, 3);
    assert_eq!(reader.read_point(), Err(Error::Truncated));
}
