use vstd::prelude::*;

verus! {

/// The characters that the game's 8-bit text maps to, one per byte: the
/// character whose code is the byte's value.
pub open spec fn latin1(bytes: Seq<u8>) -> Seq<char> {
    Seq::new(bytes.len(), |i: int| bytes[i] as char)
}

/// Relies on `quake_text::bytestr::to_unicode`, which maps each byte to the
/// character with the same code (`char::from(u8)`).
#[verifier::external_body]
pub(crate) fn to_unicode(bytes: &[u8]) -> (r: String)
    ensures
        r@ == latin1(bytes@),
{
    quake_text::bytestr::to_unicode(bytes)
}

/// What `str::trim_end` leaves of a string.
pub uninterp spec fn trimmed_end(s: Seq<char>) -> Seq<char>;

/// Relies on `str::trim_end`: the string without trailing whitespace, a
/// prefix of it.
#[verifier::external_body]
pub(crate) fn trim_end(s: &str) -> (r: &str)
    ensures
        r@ == trimmed_end(s@),
        r@.len() <= s@.len(),
        r@ == s@.subrange(0, r@.len() as int),
{
    s.trim_end()
}

} // verus!
