//! Small general-purpose helpers: tuple sums for folding statistics, and
//! lossy conversion of interned byte strings into text at the export
//! boundary.

use vstd::prelude::*;

verus! {

/// Computes the sum of two 3-tuples, component by component.
pub fn tuple_3_add(left: (u64, u64, u64), right: (u64, u64, u64)) -> (r: (u64, u64, u64))
    requires
        left.0 + right.0 <= u64::MAX,
        left.1 + right.1 <= u64::MAX,
        left.2 + right.2 <= u64::MAX,
    ensures
        r.0 == left.0 + right.0,
        r.1 == left.1 + right.1,
        r.2 == left.2 + right.2,
{
    (left.0 + right.0, left.1 + right.1, left.2 + right.2)
}

/// Computes the sum of two 4-tuples, component by component.
pub fn tuple_4_add(left: (u64, u64, u64, u64), right: (u64, u64, u64, u64)) -> (r: (
    u64,
    u64,
    u64,
    u64,
))
    requires
        left.0 + right.0 <= u64::MAX,
        left.1 + right.1 <= u64::MAX,
        left.2 + right.2 <= u64::MAX,
        left.3 + right.3 <= u64::MAX,
    ensures
        r.0 == left.0 + right.0,
        r.1 == left.1 + right.1,
        r.2 == left.2 + right.2,
        r.3 == left.3 + right.3,
{
    (left.0 + right.0, left.1 + right.1, left.2 + right.2, left.3 + right.3)
}

/// The text that lossy UTF-8 decoding yields for a byte string: a function
/// of the bytes alone, with ill-formed sequences replaced by U+FFFD.
pub uninterp spec fn lossy_decode(b: Seq<u8>) -> Seq<char>;

/// Relies on `String::from_utf8_lossy`: the result depends on the bytes
/// alone, an empty input decodes to an empty string, and valid UTF-8
/// decodes to exactly the text those bytes encode.
#[verifier::external_body]
fn utf8_lossy(b: &Vec<u8>) -> (r: String)
    ensures
        r@ == lossy_decode(b@),
        b@.len() == 0 ==> r@.len() == 0,
        vstd::utf8::valid_utf8(b@) ==> vstd::utf8::encode_utf8(r@) == b@,
{
    String::from_utf8_lossy(b.as_slice()).into_owned()
}

/// Converts a borrowed byte string into text, replacing unconvertible
/// bytes with U+FFFD.
pub fn bytes_lossy(b: &Vec<u8>) -> (r: String)
    ensures
        r@ == lossy_decode(b@),
{
    utf8_lossy(b)
}

/// Consumes a string-like value and converts it into real text, replacing
/// unconvertible bytes with U+FFFD.
pub trait IntoStringLossy: Sized {
    /// What the conversion yields, as a sequence of characters.
    spec fn lossy_view(&self) -> Seq<char>;

    /// Performs the conversion.
    fn into_string_lossy(self) -> (r: String)
        ensures
            r@ == self.lossy_view(),
    ;
}

impl IntoStringLossy for Vec<u8> {
    open spec fn lossy_view(&self) -> Seq<char> {
        lossy_decode(self@)
    }

    fn into_string_lossy(self) -> (r: String)
        ensures
            r@ == self.lossy_view(),
    {
        utf8_lossy(&self)
    }
}

} // verus!
