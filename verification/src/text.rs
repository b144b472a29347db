use vstd::prelude::*;

verus! {

use vstd::utf8::decode_utf8;
use vstd::utf8::valid_utf8;

/// True when `needle` occurs as a contiguous run of characters inside `hay`.
pub open spec fn seq_contains(hay: Seq<char>, needle: Seq<char>) -> bool {
    exists|i: int|
        0 <= i && i + needle.len() <= hay.len() && #[trigger] hay.subrange(
            i,
            i + needle.len(),
        ) == needle
}

pub open spec fn seq_starts_with(hay: Seq<char>, prefix: Seq<char>) -> bool {
    prefix.len() <= hay.len() && hay.subrange(0, prefix.len() as int) == prefix
}

pub open spec fn seq_ends_with(hay: Seq<char>, suffix: Seq<char>) -> bool {
    suffix.len() <= hay.len() && hay.subrange(
        hay.len() - suffix.len(),
        hay.len() as int,
    ) == suffix
}

/// Relies on str's `==`: two string slices are equal exactly when their
/// character sequences are.
#[verifier::external_body]
pub fn str_eq(a: &str, b: &str) -> (r: bool)
    ensures
        r == (a@ == b@),
{
    a == b
}

/// Relies on str::contains: reports whether the needle occurs as a substring.
#[verifier::external_body]
pub fn str_contains(hay: &str, needle: &str) -> (r: bool)
    ensures
        r == seq_contains(hay@, needle@),
{
    hay.contains(needle)
}

/// Relies on str::starts_with: reports whether the haystack begins with the prefix.
#[verifier::external_body]
pub fn str_starts_with(hay: &str, prefix: &str) -> (r: bool)
    ensures
        r == seq_starts_with(hay@, prefix@),
{
    hay.starts_with(prefix)
}

/// Relies on str::ends_with: reports whether the haystack ends with the suffix.
#[verifier::external_body]
pub fn str_ends_with(hay: &str, suffix: &str) -> (r: bool)
    ensures
        r == seq_ends_with(hay@, suffix@),
{
    hay.ends_with(suffix)
}

/// Relies on String::push: appends one character at the end.
#[verifier::external_body]
pub fn push_char(s: &mut String, c: char)
    ensures
        final(s)@ == old(s)@.push(c),
{
    s.push(c);
}

/// Relies on String::from_utf8: decodes a byte buffer exactly when it is
/// valid UTF-8; vstd's `valid_utf8` / `decode_utf8` state that encoding.
#[verifier::external_body]
pub fn string_from_utf8(bytes: Vec<u8>) -> (r: Option<String>)
    ensures
        r is Some <==> valid_utf8(bytes@),
        r matches Some(s) ==> s@ == decode_utf8(bytes@),
{
    String::from_utf8(bytes).ok()
}

} // verus!
