//! Conversions between byte buffers and owned strings. The library does its
//! text processing over bytes; these are the only places where byte buffers
//! become `String`s.

use vstd::prelude::*;

verus! {

/// The characters `String::from_utf8_lossy` decodes from `b`: valid UTF-8
/// passes through and each invalid sequence becomes U+FFFD. The full decoding
/// is a function of the bytes alone, so it is only named here; the one fact
/// stated beside it is the ASCII case below.
pub uninterp spec fn lossy_text_of(b: Seq<u8>) -> Seq<char>;

/// Whether every byte is plain ASCII.
pub open spec fn all_ascii(b: Seq<u8>) -> bool {
    forall|i: int| 0 <= i < b.len() ==> #[trigger] b[i] < 128
}

/// Relies on `String::from_utf8_lossy`: the result is a function of the bytes
/// alone, and ASCII bytes decode to themselves, one character per byte.
#[verifier::external_body]
pub(crate) fn utf8_lossy(b: &[u8]) -> (r: String)
    ensures
        r@ == lossy_text_of(b@),
        all_ascii(b@) ==> r@ =~= b@.map_values(|x: u8| x as char),
{
    String::from_utf8_lossy(b).into_owned()
}

/// Character-for-character equality of two string slices.
pub(crate) fn str_eq(a: &str, b: &str) -> (r: bool)
    ensures
        r == (a@ == b@),
{
    let sa = a.to_owned();
    let sb = b.to_owned();
    sa == sb
}

/// Relies on `String::from_utf8`: ASCII bytes are valid UTF-8 and decode to
/// themselves, one character per byte.
#[verifier::external_body]
pub(crate) fn ascii_to_string(b: &Vec<u8>) -> (r: String)
    requires
        all_ascii(b@),
    ensures
        r@ =~= b@.map_values(|x: u8| x as char),
{
    String::from_utf8(b.clone()).unwrap_or_default()
}

} // verus!
