//! Page templates: background drawings kept as vector markup under their names.
//!
//! A template is a whole markup document that begins with the opening tag of its
//! drawing. What is laid under a page is its inside: the text between that tag and the
//! closing tag.

use vstd::prelude::*;
use vstd::slice::slice_subrange;
use vstd::string::StringSliceAdditionalSpecFns;
use vstd::utf8::{
    decode_utf8, encode_utf8, encode_utf8_decode_utf8, encode_utf8_valid_utf8, is_char_boundary,
    is_char_boundary_iff_not_is_continuation_byte, valid_utf8_split,
};
use crate::header::{ascii_bytes, bytes_equal};
use crate::model::{Error, ErrorView};

verus! {

/// `phf::Map`: a table that is fixed when the program is built. Nothing is known of a
/// table but what [`table_entries`] names.
#[verifier::external_type_specification]
#[verifier::external_body]
#[verifier::reject_recursive_types(K)]
#[verifier::reject_recursive_types(V)]
pub struct ExTemplateTable<K: 'static, V: 'static>(phf::Map<K, V>);

/// What a table of templates gives for each name that it knows: the names under which
/// `phf::Map::get` finds a text, each with that text.
pub uninterp spec fn table_entries(table: phf::Map<&'static str, &'static str>) -> Map<
    Seq<char>,
    Seq<char>,
>;

/// How many entries a table holds: what `phf::Map::len` gives.
pub uninterp spec fn table_size(table: phf::Map<&'static str, &'static str>) -> nat;

/// How many displacements a table was made with: the length of its field `disps`.
pub uninterp spec fn table_displacements(table: phf::Map<&'static str, &'static str>) -> nat;

/// A count as the 32-bit hashes of a table see it.
pub open spec fn as_hashed(count: nat) -> nat {
    count % 0x1_0000_0000
}

/// Whether a name can be looked up in a table.
///
/// A table without displacements holds nothing, and every lookup says so. In any other
/// table a lookup divides a hash by the number of displacements and by the number of
/// entries, each as 32 bits hold it: neither may be zero there. The tables that the
/// `phf` macros and `phf::Map::new` make can all be searched; one that is written out
/// by its fields need not be.
pub open spec fn can_be_searched(table: phf::Map<&'static str, &'static str>) -> bool {
    table_displacements(table) == 0 || (as_hashed(table_displacements(table)) != 0 && as_hashed(
        table_size(table),
    ) != 0)
}

/// The template that a table holds under a name, where it can be searched and holds one.
pub open spec fn known_template(
    table: phf::Map<&'static str, &'static str>,
    name: Seq<char>,
) -> Option<Seq<char>> {
    if can_be_searched(table) {
        table_entries(table).get(name)
    } else {
        None
    }
}

/// `phf::Map::len`: the number of entries of the table.
#[verifier::external_body]
pub(crate) fn table_len(table: &phf::Map<&'static str, &'static str>) -> (n: usize)
    ensures
        n == table_size(*table),
{
    table.len()
}

/// The field `disps` of `phf::Map`: the number of displacements of the table.
#[verifier::external_body]
pub(crate) fn displacement_count(table: &phf::Map<&'static str, &'static str>) -> (n: usize)
    ensures
        n == table_displacements(*table),
{
    table.disps.len()
}

/// `phf::Map::get`: the text that the table holds under `name`, or nothing where it
/// holds none under that name. On a table that cannot be searched it panics with a
/// division by zero, which `requires` leaves out.
#[verifier::external_body]
pub(crate) fn lookup<'a>(table: &'a phf::Map<&'static str, &'static str>, name: &str) -> (r: Option<
    &'a str,
>)
    requires
        can_be_searched(*table),
    ensures
        match r {
            Some(text) => table_entries(*table).contains_key(name@) && table_entries(*table)[name@]
                == text@,
            None => !table_entries(*table).contains_key(name@),
        },
{
    table.get(name).copied()
}

/// Whether 32 bits hold a count as zero.
pub fn hashes_to_zero(count: usize) -> (r: bool)
    ensures
        r == (as_hashed(count as nat) == 0),
{
    let wide: u64 = count as u64;
    wide % 0x1_0000_0000 == 0
}

/// Whether a name can be looked up in a table.
pub fn is_searchable(table: &phf::Map<&'static str, &'static str>) -> (r: bool)
    ensures
        r == can_be_searched(*table),
{
    let displacements = displacement_count(table);
    if displacements == 0 {
        true
    } else {
        !hashes_to_zero(displacements) && !hashes_to_zero(table_len(table))
    }
}

/// The first place at or behind `from` where `needle` stands in `hay`.
pub open spec fn find(hay: Seq<u8>, needle: Seq<u8>, from: int) -> Option<int>
    decreases hay.len() - from + 1,
{
    if from < 0 || from + needle.len() > hay.len() {
        None
    } else if hay.subrange(from, from + needle.len()) == needle {
        Some(from)
    } else {
        find(hay, needle, from + 1)
    }
}

/// Where the inside of a template begins and ends, in bytes.
///
/// It ends before the first `</svg>`. It begins as far into the text as the opening tag
/// is long, from its `<svg` to the first `>` behind that: in a template that begins
/// with its opening tag, right behind that tag. There is no inside where one of the
/// three is missing, or where the end would come before the beginning.
pub open spec fn snippet_range(text: Seq<u8>) -> Option<(int, int)> {
    match find(text, ascii_bytes("<svg"@), 0) {
        None => None,
        Some(open) => match find(text, ascii_bytes(">"@), open) {
            None => None,
            Some(open_end) => match find(text, ascii_bytes("</svg>"@), 0) {
                None => None,
                Some(close) => if open_end - open + 1 <= close {
                    Some((open_end - open + 1, close))
                } else {
                    None
                },
            },
        },
    }
}

/// The bytes of the inside of a template, where it has one that begins with a whole
/// character.
pub open spec fn snippet_bytes(text: Seq<u8>) -> Option<Seq<u8>> {
    match snippet_range(text) {
        None => None,
        Some((start, end)) => if is_char_boundary(text, start) {
            Some(text.subrange(start, end))
        } else {
            None
        },
    }
}

/// The first place at or behind `from` where `needle` stands in `hay`.
pub fn find_bytes(hay: &[u8], needle: &[u8], from: usize) -> (r: Option<usize>)
    ensures
        find(hay@, needle@, from as int) == match r {
            Some(at) => Some(at as int),
            None => None,
        },
        r matches Some(at) ==> from <= at && at + needle@.len() <= hay@.len()
            && hay@.subrange(at as int, at + needle@.len()) == needle@,
{
    if needle.len() > hay.len() || from > hay.len() - needle.len() {
        return None;
    }
    let last = hay.len() - needle.len();
    let mut at: usize = from;
    loop
        invariant
            from <= at <= last,
            last == hay@.len() - needle@.len(),
            hay@.len() <= usize::MAX,
            find(hay@, needle@, from as int) == find(hay@, needle@, at as int),
        decreases last - at,
    {
        let window = slice_subrange(hay, at, at + needle.len());
        if bytes_equal(window, needle) {
            return Some(at);
        }
        if at == last {
            assert(find(hay@, needle@, at + 1) is None);
            return None;
        }
        at = at + 1;
    }
}

/// The inside of a template, or nothing where the template has none.
pub fn snippet(template: &str) -> (r: Option<&str>)
    ensures
        match snippet_bytes(template.spec_bytes()) {
            Some(inside) => r matches Some(text) && text.spec_bytes() == inside && text@
                == decode_utf8(inside),
            None => r is None,
        },
{
    let bytes = template.as_bytes();
    let svg_open = "<svg".as_bytes();
    let tag_end = ">".as_bytes();
    let svg_close = "</svg>".as_bytes();
    proof {
        reveal_strlit("<svg");
        reveal_strlit(">");
        reveal_strlit("</svg>");
        vstd::utf8::is_ascii_chars_encode_utf8("<svg"@);
        vstd::utf8::is_ascii_chars_encode_utf8(">"@);
        vstd::utf8::is_ascii_chars_encode_utf8("</svg>"@);
        assert(svg_open@ =~= ascii_bytes("<svg"@));
        assert(tag_end@ =~= ascii_bytes(">"@));
        assert(svg_close@ =~= ascii_bytes("</svg>"@));
        assert(tag_end@.len() == 1);
    }
    let len = bytes.len();
    let open = match find_bytes(bytes, svg_open, 0) {
        Some(at) => at,
        None => return None,
    };
    let open_end = match find_bytes(bytes, tag_end, open) {
        Some(at) => at,
        None => return None,
    };
    let close = match find_bytes(bytes, svg_close, 0) {
        Some(at) => at,
        None => return None,
    };
    assert(open <= open_end < len);
    let start = open_end - open + 1;
    if start > close || !template.is_char_boundary(start) {
        return None;
    }
    proof {
        let text = template.spec_bytes();
        encode_utf8_valid_utf8(template@);
        valid_utf8_split(text, start as int);
        let tail = text.subrange(start as int, text.len() as int);
        assert(text[close as int] == svg_close@[0]);
        assert(tail[close - start] == text[close as int]);
        is_char_boundary_iff_not_is_continuation_byte(tail, close - start);
    }
    let (_, tail) = template.split_at(start);
    let (inside, _) = tail.split_at(close - start);
    proof {
        assert(inside.spec_bytes() =~= template.spec_bytes().subrange(start as int, close as int));
        encode_utf8_decode_utf8(inside@);
    }
    Some(inside)
}

/// The inside of the template that a table holds under a name.
///
/// A name under which nothing can be found is an error: the table does not know it, or
/// the table cannot be searched at all. A template without an inside is an error too.
/// Both errors hold the name.
pub fn template_snippet<'a>(
    templates: &'a phf::Map<&'static str, &'static str>,
    template_name: &str,
) -> (r: Result<&'a str, Error>)
    ensures
        match known_template(*templates, template_name@) {
            None => r matches Err(e) && e@ == ErrorView::UnknownTemplate(template_name@),
            Some(template) => match snippet_bytes(encode_utf8(template)) {
                Some(inside) => r matches Ok(text) && text.spec_bytes() == inside && text@
                    == decode_utf8(inside),
                None => r matches Err(e) && e@ == ErrorView::MalformedTemplate(template_name@),
            },
        },
{
    if !is_searchable(templates) {
        return Err(Error::UnknownTemplate(template_name.to_owned()));
    }
    match lookup(templates, template_name) {
        None => Err(Error::UnknownTemplate(template_name.to_owned())),
        Some(template) => match snippet(template) {
            Some(inside) => Ok(inside),
            None => Err(Error::MalformedTemplate(template_name.to_owned())),
        },
    }
}

} // verus!
