//! Tests on `str`s, stated over their UTF-8 bytes, and the joining of `str`s.

use vstd::prelude::*;
use vstd::string::*;
use vstd::utf8::{encode_utf8, decode_utf8, encode_utf8_decode_utf8, valid_utf8};
use crate::text::{contains, ends_with, occurs_in, same_bytes, starts_with};

verus! {

/// Two texts with the same bytes are the same text.
pub proof fn lemma_bytes_decide(a: Seq<char>, b: Seq<char>)
    ensures
        (encode_utf8(a) == encode_utf8(b)) == (a == b),
{
    encode_utf8_decode_utf8(a);
    encode_utf8_decode_utf8(b);
    if encode_utf8(a) == encode_utf8(b) {
        assert(decode_utf8(encode_utf8(a)) == decode_utf8(encode_utf8(b)));
    }
}

/// Whether two texts are equal.
pub fn str_eq(a: &str, b: &str) -> (r: bool)
    ensures
        r == (a@ == b@),
{
    proof {
        lemma_bytes_decide(a@, b@);
    }
    same_bytes(a.as_bytes(), b.as_bytes())
}

/// Whether `text` begins with `prefix`.
pub fn str_starts_with(text: &str, prefix: &str) -> (r: bool)
    ensures
        r == encode_utf8(prefix@).is_prefix_of(encode_utf8(text@)),
{
    starts_with(text.as_bytes(), prefix.as_bytes())
}

/// Whether `text` ends with `suffix`.
pub fn str_ends_with(text: &str, suffix: &str) -> (r: bool)
    ensures
        r == encode_utf8(suffix@).is_suffix_of(encode_utf8(text@)),
{
    ends_with(text.as_bytes(), suffix.as_bytes())
}

/// Whether `needle` stands somewhere in `text`.
pub fn str_contains(text: &str, needle: &str) -> (r: bool)
    ensures
        r == occurs_in(encode_utf8(needle@), encode_utf8(text@)),
{
    contains(text.as_bytes(), needle.as_bytes())
}

/// `a` followed by `b`.
pub fn join2(a: &str, b: &str) -> (out: String)
    ensures
        out@ == a@ + b@,
{
    let mut out = a.to_owned();
    out.append(b);
    out
}

/// `a` followed by `b` and `c`.
pub fn join3(a: &str, b: &str, c: &str) -> (out: String)
    ensures
        out@ == a@ + b@ + c@,
{
    let mut out = a.to_owned();
    out.append(b);
    out.append(c);
    out
}

/// The text that `String::from_utf8_lossy` makes of `bytes`: what they
/// spell, with the replacement character for what is not UTF-8.
pub uninterp spec fn utf8_lossy(bytes: Seq<u8>) -> Seq<char>;

/// `String::from_utf8_lossy`. The contract gives the result its name and
/// claims no more of it.
#[verifier::external_body]
pub(crate) fn from_utf8_lossy(bytes: &[u8]) -> (out: String)
    ensures
        out@ == utf8_lossy(bytes@),
{
    String::from_utf8_lossy(bytes).into_owned()
}

/// `String::from_utf8`: the text that `bytes` spell, or nothing where they
/// are not UTF-8. The contract claims that a text that is returned has
/// exactly these bytes, and that nothing is returned only for bytes that are
/// not UTF-8.
#[verifier::external_body]
pub(crate) fn from_utf8(bytes: Vec<u8>) -> (out: Option<String>)
    ensures
        match out {
            Some(text) => encode_utf8(text@) == bytes@,
            None => !valid_utf8(bytes@),
        },
{
    String::from_utf8(bytes).ok()
}

} // verus!
