use lines_are_rusty::render::templates::{
    find_bytes, hashes_to_zero, is_searchable, snippet, template_snippet,
};
use lines_are_rusty::Error;

fn table(entries: &[(&'static str, &'static str)]) -> phf::Map<&'static str, &'static str> {
    let keys: Vec<&'static str> = entries.iter().map(|entry| entry.0).collect();
    let state = phf_generator::generate_hash(&keys);
    let ordered: Vec<(&'static str, &'static str)> =
        state.map.iter().map(|index| entries[*index]).collect();
    phf::Map {
        key: state.key,
        disps: Box::leak(state.disps.into_boxed_slice()),
        entries: Box::leak(ordered.into_boxed_slice()),
    }
}

const BLANK: &str = "<svg width=\"1404\" height=\"1872\"></svg>";
const GRID: &str =
    "<svg xmlns=\"http://www.w3.org/2000/svg\">\n<g><line x1=\"0\"/></g>\n</svg>\n";
const LATE: &str = "<!-- grid --><svg id=\"a\"><g/></svg>";

#[test]
fn finds_the_first_place() {
    assert_eq!(find_bytes(b"abcabc", b"bc", 0), Some(1));
    assert_eq!(find_bytes(b"abcabc", b"bc", 1), Some(1));
    assert_eq!(find_bytes(b"abcabc", b"bc", 2), Some(4));
    assert_eq!(find_bytes(b"abcabc", b"bc", 5), None);
    assert_eq!(find_bytes(b"abcabc", b"abcabc", 0), Some(0));
    assert_eq!(find_bytes(b"abcabc", b"abcabcd", 0), None);
    assert_eq!(find_bytes(b"abcabc", b"x", 0), None);
    assert_eq!(find_bytes(b"abc", b"", 2), Some(2));
    assert_eq!(find_bytes(b"abc", b"", 3), Some(3));
    assert_eq!(find_bytes(b"abc", b"", 4), None);
    assert_eq!(find_bytes(b"", b"a", 0), None);
    assert_eq!(find_bytes(b"abc", b"c", usize::MAX), None);
}

#[test]
fn inside_of_a_template() {
    assert_eq!(snippet(BLANK), Some(""));
    assert_eq!(snippet(GRID), Some("\n<g><line x1=\"0\"/></g>\n"));
    assert_eq!(snippet("<svg>a</svg>"), Some("a"));
    assert_eq!(snippet("<svg>a</svg>b</svg>"), Some("a"));
    assert_eq!(snippet("<svg a=\"1\">\u{e9}\u{4e2d}\u{1f58a}</svg>"), Some("\u{e9}\u{4e2d}\u{1f58a}"));
}

#[test]
fn inside_begins_as_far_in_as_the_opening_tag_is_long() {
    assert_eq!("<svg id=\"a\">".len(), 12);
    assert_eq!(snippet(LATE), Some("><svg id=\"a\"><g/>"));
    assert_eq!(snippet("ab<svg>cd</svg>"), Some("g>cd"));
    assert_eq!(snippet("0123456789<svg></svg>"), Some("56789<svg>"));
}

#[test]
fn inside_that_would_begin_within_a_character_is_none() {
    assert_eq!(snippet("\u{e9}\u{e9}\u{e9}<svg></svg>"), None);
    assert_eq!(snippet("a\u{e9}\u{e9}\u{e9}<svg></svg>"), Some("\u{e9}<svg>"));
}

#[test]
fn inside_that_would_end_before_it_begins_is_none() {
    assert_eq!(snippet("</svg><svg>"), None);
    assert_eq!(snippet("</svg><svg a=\"0123456789\">"), None);
    assert_eq!(snippet("a</svg><svg>"), None);
    assert_eq!(snippet("abcde</svg><svg>"), Some(""));
    assert_eq!(snippet("abcdef</svg><svg>"), Some("f"));
}

#[test]
fn template_without_a_drawing_has_no_inside() {
    assert_eq!(snippet(""), None);
    assert_eq!(snippet("<svg>"), None);
    assert_eq!(snippet("</svg>"), None);
    assert_eq!(snippet("<svg </svg>"), None);
    assert_eq!(snippet("<g></g>"), None);
    assert_eq!(snippet("a></svg><svg"), None);
}

#[test]
fn unknown_template() {
    let empty: phf::Map<&'static str, &'static str> = phf::Map::new();
    assert_eq!(
        template_snippet(&empty, "Blank"),
        Err(Error::UnknownTemplate("Blank".to_string()))
    );
    let templates = table(&[("Blank", BLANK), ("P Grid small", GRID)]);
    assert_eq!(
        template_snippet(&templates, "blank"),
        Err(Error::UnknownTemplate("blank".to_string()))
    );
    assert_eq!(template_snippet(&templates, ""), Err(Error::UnknownTemplate(String::new())));
}

#[test]
fn known_templates_give_their_inside() {
    let templates = table(&[
        ("Blank", BLANK),
        ("P Grid small", GRID),
        ("Notes", "<svg><!-- notes --></svg>"),
        ("Broken", "<svg"),
    ]);
    assert_eq!(template_snippet(&templates, "Blank"), Ok(""));
    assert_eq!(template_snippet(&templates, "P Grid small"), Ok("\n<g><line x1=\"0\"/></g>\n"));
    assert_eq!(template_snippet(&templates, "Notes"), Ok("<!-- notes -->"));
    let name = String::from("Notes");
    assert_eq!(template_snippet(&templates, &name), Ok("<!-- notes -->"));
}

#[test]
fn malformed_template() {
    let templates = table(&[("Blank", BLANK), ("Broken", "<svg")]);
    assert_eq!(
        template_snippet(&templates, "Broken"),
        Err(Error::MalformedTemplate("Broken".to_string()))
    );
}

#[test]
fn counts_as_32_bits_hold_them() {
    assert!(hashes_to_zero(0));
    assert!(!hashes_to_zero(1));
    assert!(!hashes_to_zero(77));
    assert!(!hashes_to_zero(u32::MAX as usize));
    assert_eq!(hashes_to_zero(usize::MAX), usize::MAX as u64 == 0);
    let wide = 1u64 << 32;
    if let Ok(count) = usize::try_from(wide) {
        assert!(hashes_to_zero(count));
        assert!(hashes_to_zero(count * 3));
        assert!(!hashes_to_zero(count + 1));
    }
}

#[test]
fn tables_as_they_are_made_can_be_searched() {
    let empty: phf::Map<&'static str, &'static str> = phf::Map::new();
    assert!(is_searchable(&empty));
    assert!(is_searchable(&table(&[("Blank", BLANK)])));
    assert!(is_searchable(&table(&[("Blank", BLANK), ("P Grid small", GRID), ("Notes", "")])));
}

#[test]
fn table_with_displacements_and_no_entries_knows_no_name() {
    let hollow: phf::Map<&'static str, &'static str> =
        phf::Map { key: 0, disps: &[(0, 0)], entries: &[] };
    assert!(!is_searchable(&hollow));
    assert_eq!(
        template_snippet(&hollow, "Blank"),
        Err(Error::UnknownTemplate("Blank".to_string()))
    );
    assert_eq!(template_snippet(&hollow, ""), Err(Error::UnknownTemplate(String::new())));
}

#[test]
fn table_with_entries_and_no_displacements_finds_nothing() {
    let loose: phf::Map<&'static str, &'static str> =
        phf::Map { key: 0, disps: &[], entries: &[("Blank", BLANK)] };
    assert!(is_searchable(&loose));
    assert_eq!(
        template_snippet(&loose, "Blank"),
        Err(Error::UnknownTemplate("Blank".to_string()))
    );
}
