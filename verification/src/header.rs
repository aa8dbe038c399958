//! The header of a stroke file: a fixed block of text that names the format version.

use vstd::prelude::*;
use vstd::slice::slice_subrange;
use vstd::string::StringSliceAdditionalSpecFns;

verus! {

/// How many bytes the header occupies.
pub const HEADER_LEN: usize = 33;

/// How many reserved bytes follow the header from version 3 on.
pub const RESERVED_LEN: usize = 10;

/// The bytes of a text of ASCII characters.
pub open spec fn ascii_bytes(text: Seq<char>) -> Seq<u8> {
    Seq::new(text.len(), |i: int| text[i] as u8)
}

/// The text of bytes that are all ASCII characters.
pub open spec fn ascii_text(bytes: Seq<u8>) -> Seq<char> {
    Seq::new(bytes.len(), |i: int| bytes[i] as char)
}

/// Every byte is an ASCII character.
pub open spec fn all_ascii(bytes: Seq<u8>) -> bool {
    forall|i: int| 0 <= i < bytes.len() ==> #[trigger] bytes[i] < 0x80
}

/// The header of a version 3 file.
pub open spec fn version_3_header() -> Seq<u8> {
    ascii_bytes("reMarkable .lines file, version=3"@)
}

/// The header of a version 5 file.
pub open spec fn version_5_header() -> Seq<u8> {
    ascii_bytes("reMarkable .lines file, version=5"@)
}

/// The version that a header names, if the decoder reads that version.
pub open spec fn version_of_header(header: Seq<u8>) -> Option<i32> {
    if header == version_3_header() {
        Some(3i32)
    } else if header == version_5_header() {
        Some(5i32)
    } else {
        None
    }
}

/// A byte that pads a header: a space or a NUL.
pub open spec fn is_padding(b: u8) -> bool {
    b == 0x20 || b == 0
}

/// A header without the padding at its end.
pub open spec fn trim_padding(header: Seq<u8>) -> Seq<u8>
    decreases header.len(),
{
    if header.len() > 0 && is_padding(header.last()) {
        trim_padding(header.drop_last())
    } else {
        header
    }
}

/// The text that `String::from_utf8_lossy` makes of bytes: their UTF-8 decoding, with
/// the replacement character in place of what is not UTF-8.
pub uninterp spec fn utf8_lossy(bytes: Seq<u8>) -> Seq<char>;

/// The text by which an unsupported header is reported: the header without its
/// padding, decoded leniently.
pub open spec fn header_text(header: Seq<u8>) -> Seq<char> {
    utf8_lossy(trim_padding(header))
}

/// `String::from_utf8_lossy`: decodes bytes as UTF-8 and puts the replacement character
/// where they are not. Bytes that are all ASCII decode to the same characters.
#[verifier::external_body]
pub(crate) fn lossy_string(bytes: &[u8]) -> (r: String)
    ensures
        r@ == utf8_lossy(bytes@),
        all_ascii(bytes@) ==> r@ == ascii_text(bytes@),
{
    String::from_utf8_lossy(bytes).into_owned()
}

/// Whether two byte strings are the same.
pub fn bytes_equal(a: &[u8], b: &[u8]) -> (r: bool)
    ensures
        r == (a@ == b@),
{
    if a.len() != b.len() {
        return false;
    }
    let mut i: usize = 0;
    while i < a.len()
        invariant
            0 <= i <= a@.len(),
            a@.len() == b@.len(),
            forall|j: int| 0 <= j < i ==> a@[j] == b@[j],
        decreases a@.len() - i,
    {
        if a[i] != b[i] {
            return false;
        }
        i = i + 1;
    }
    assert(a@ =~= b@);
    true
}

/// The version that a header names, or `None` where the decoder does not read it.
pub fn detect_version(header: &[u8]) -> (r: Option<i32>)
    ensures
        r == version_of_header(header@),
{
    let v3 = "reMarkable .lines file, version=3";
    let v5 = "reMarkable .lines file, version=5";
    proof {
        reveal_strlit("reMarkable .lines file, version=3");
        reveal_strlit("reMarkable .lines file, version=5");
        vstd::utf8::is_ascii_chars_encode_utf8(v3@);
        vstd::utf8::is_ascii_chars_encode_utf8(v5@);
        assert(v3.spec_bytes() =~= version_3_header());
        assert(v5.spec_bytes() =~= version_5_header());
    }
    if bytes_equal(header, v3.as_bytes()) {
        Some(3)
    } else if bytes_equal(header, v5.as_bytes()) {
        Some(5)
    } else {
        None
    }
}

/// The length of a header without the padding at its end.
pub fn trimmed_len(header: &[u8]) -> (n: usize)
    ensures
        n <= header@.len(),
        header@.subrange(0, n as int) == trim_padding(header@),
{
    let mut n: usize = header.len();
    assert(header@.subrange(0, n as int) =~= header@);
    while n > 0 && (header[n - 1] == 0x20 || header[n - 1] == 0)
        invariant
            n <= header@.len(),
            trim_padding(header@.subrange(0, n as int)) == trim_padding(header@),
        decreases n,
    {
        assert(header@.subrange(0, n as int).drop_last() =~= header@.subrange(0, n - 1));
        n = n - 1;
    }
    n
}

/// The text by which an unsupported header is reported.
pub fn header_string(header: &[u8]) -> (r: String)
    ensures
        r@ == header_text(header@),
        all_ascii(header@) ==> r@ == ascii_text(trim_padding(header@)),
{
    let n = trimmed_len(header);
    let trimmed = slice_subrange(header, 0, n);
    lossy_string(trimmed)
}

} // verus!
