use lines_are_rusty::v3;
use lines_are_rusty::v5;
use lines_are_rusty::{BrushType, Color, Error, Line, Point, Real};

fn num(v: f32) -> Real {
    Real::from_bits(v.to_bits())
}

fn put_i32(out: &mut Vec<u8>, n: i32) {
    out.extend_from_slice(&n.to_le_bytes());
}

fn put_f32(out: &mut Vec<u8>, v: f32) {
    out.extend_from_slice(&v.to_le_bytes());
}

fn put_point(out: &mut Vec<u8>, seed: f32) {
    for k in 0..6 {
        put_f32(out, seed + k as f32);
    }
}

fn point(seed: f32) -> Point {
    Point {
        x: num(seed),
        y: num(seed + 1.0),
        speed: num(seed + 2.0),
        direction: num(seed + 3.0),
        width: num(seed + 4.0),
        pressure: num(seed + 5.0),
    }
}

/// One layer with one line of one point.
fn page(version: i32) -> Vec<u8> {
    let mut out = Vec::new();
    put_i32(&mut out, 1);
    put_i32(&mut out, 1);
    put_i32(&mut out, 15);
    put_i32(&mut out, 6);
    put_i32(&mut out, 11);
    put_f32(&mut out, 1.5);
    if version >= 5 {
        put_i32(&mut out, 22);
    }
    put_i32(&mut out, 1);
    put_point(&mut out, 3.0);
    out
}

fn line(version: i32) -> Line {
    Line {
        brush_type: BrushType::BallPoint,
        color: Color::Blue,
        unknown_line_attribute: 11,
        unknown_line_attribute_2: if version >= 5 { 22 } else { 0 },
        brush_base_size: num(1.5),
        points: vec![point(3.0)],
    }
}

#[test]
fn version_constants() {
    assert_eq!(v3::parse::VERSION, 3);
    assert_eq!(v5::parse::VERSION, 5);
}

#[test]
fn version_5_page() {
    let bytes = page(5);
    let page = v5::parse::read_page(&bytes).unwrap();
    assert_eq!(page.layers.len(), 1);
    assert_eq!(page.layers[0].lines, vec![line(5)]);
    let (layers, end) = v5::parse::read_layers(&bytes, 0).unwrap();
    assert_eq!(layers, page.layers);
    assert_eq!(end, bytes.len());
    let (lines, end) = v5::parse::read_lines(&bytes, 4).unwrap();
    assert_eq!(lines, vec![line(5)]);
    assert_eq!(end, bytes.len());
    assert_eq!(v5::parse::parse_line(&bytes, 8), Ok((line(5), bytes.len())));
    assert_eq!(v5::parse::parse_point(&bytes, 32), Ok((point(3.0), 56)));
}

#[test]
fn version_3_page() {
    let bytes = page(3);
    let page = v3::parse::read_page(&bytes).unwrap();
    assert_eq!(page.layers.len(), 1);
    assert_eq!(page.layers[0].lines, vec![line(3)]);
    let (layers, end) = v3::parse::read_layers(&bytes, 0).unwrap();
    assert_eq!(layers, page.layers);
    assert_eq!(end, bytes.len());
    let (lines, end) = v3::parse::read_lines(&bytes, 4).unwrap();
    assert_eq!(lines, vec![line(3)]);
    assert_eq!(end, bytes.len());
    assert_eq!(v3::parse::read_points(&bytes, 24), Ok((vec![point(3.0)], 52)));
}

#[test]
fn version_3_headers_are_the_raw_fields() {
    let bytes = page(3);
    assert_eq!(v3::parse::parse_line_header(&bytes, 8), Some(((15, 6, 11, num(1.5)), 24)));
    assert_eq!(
        v3::parse::parse_point_header(&bytes, 28),
        Some(((num(3.0), num(4.0), num(5.0), num(6.0), num(7.0), num(8.0)), 52))
    );
    let mut raw = Vec::new();
    put_i32(&mut raw, 99);
    put_i32(&mut raw, -4);
    put_i32(&mut raw, 0);
    put_f32(&mut raw, 0.0);
    assert_eq!(v3::parse::parse_line_header(&raw, 0), Some(((99, -4, 0, num(0.0)), 16)));
    assert_eq!(v3::parse::parse_line_header(&raw, 1), None);
    assert_eq!(v3::parse::parse_line_header(&raw[..15], 0), None);
    assert_eq!(v3::parse::parse_point_header(&bytes[..51], 28), None);
}

#[test]
fn the_layouts_differ_by_the_second_attribute() {
    assert_eq!(page(5).len(), page(3).len() + 4);
    assert_eq!(v5::parse::read_page(&page(3)), Err(Error::Truncated));
    let as_3 = v3::parse::read_page(&page(5));
    assert_eq!(as_3, Err(Error::Truncated));
}

#[test]
fn a_cut_page_is_no_page() {
    for version in [3, 5] {
        let bytes = page(version);
        for len in 0..bytes.len() {
            let cut = &bytes[..len];
            let r = if version == 3 { v3::parse::read_page(cut) } else { v5::parse::read_page(cut) };
            assert_eq!(r, Err(Error::Truncated));
        }
    }
}

#[test]
fn unknown_codes_in_a_page() {
    let mut bytes = page(5);
    bytes[8..12].copy_from_slice(&19i32.to_le_bytes());
    assert_eq!(v5::parse::read_page(&bytes), Err(Error::UnknownBrush(19)));
    let mut bytes = page(3);
    bytes[12..16].copy_from_slice(&99i32.to_le_bytes());
    assert_eq!(v3::parse::read_page(&bytes), Err(Error::UnknownColor(99)));
    let mut bytes = page(3);
    bytes[0..4].copy_from_slice(&(-2i32).to_le_bytes());
    assert_eq!(v3::parse::read_page(&bytes), Err(Error::InvalidCount(-2)));
}
