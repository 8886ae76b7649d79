//! The trusted boundary: every call into an outside crate, and into the few
//! std functions that vstd gives no specification, stands here as a small
//! wrapper whose contract Verus believes.  Each wrapper names the function it
//! relies on.  Results that take pages to state but depend on the arguments
//! alone carry an uninterpreted name, and the verified code speaks of that
//! name exactly.

use vstd::prelude::*;
use crate::chars::opt_str_view;

verus! {

/// What htmlescape's decoder makes of `s`: the string with each HTML entity
/// replaced by its character, or nothing when an entity is malformed.  The
/// result depends on the characters of `s` alone.
pub uninterp spec fn entity_decoded(s: Seq<char>) -> Option<Seq<char>>;

/// What the url parser makes of `s`: the normalized serialization of the
/// parsed absolute URL, or nothing when `s` is not a parseable URL.  The
/// result depends on the characters of `s` alone.
pub uninterp spec fn url_normalized(s: Seq<char>) -> Option<Seq<char>>;

/// What relative-URL resolution makes of `href` against `base`: the
/// serialization of the resolved absolute URL, or nothing when `base` does
/// not parse or `href` cannot be resolved against it.  The result depends on
/// the two argument strings alone.
pub uninterp spec fn url_resolved(base: Seq<char>, href: Seq<char>) -> Option<Seq<char>>;

/// Relies on htmlescape::decode_html: replaces HTML entities (`&amp;`,
/// `&#32;`, ...) by their characters, returns an error exactly on a
/// malformed entity, and copies every character outside an entity unchanged,
/// so a string without `&` decodes to itself.
#[verifier::external_body]
pub fn decode_entities(s: &str) -> (r: Option<String>)
    ensures
        opt_str_view(r) == entity_decoded(s@),
        (forall|i: int| 0 <= i < s@.len() ==> s@[i] != '&') ==> opt_str_view(r) == Some(s@),
{
    htmlescape::decode_html(s).ok()
}

/// Relies on url::Url::parse and the conversion of a Url to a String:
/// parses an absolute URL and returns its normalized serialization; `None`
/// exactly when parsing fails.
#[verifier::external_body]
pub fn normalize_url(s: &str) -> (r: Option<String>)
    ensures
        opt_str_view(r) == url_normalized(s@),
{
    match url::Url::parse(s) {
        Ok(u) => Some(String::from(u)),
        Err(_) => None,
    }
}

/// Relies on url::Url::parse and url::Url::join: resolves `href` against
/// the URL `base` by the standard relative-resolution rules and returns the
/// serialization of the result; `None` when `base` does not parse or the
/// reference cannot be resolved against it.
#[verifier::external_body]
pub fn resolve_url(base: &str, href: &str) -> (r: Option<String>)
    ensures
        opt_str_view(r) == url_resolved(base@, href@),
{
    match url::Url::parse(base) {
        Ok(u) => match u.join(href) {
            Ok(v) => Some(String::from(v)),
            Err(_) => None,
        },
        Err(_) => None,
    }
}

/// Relies on tree_magic::from_u8: sniffs a MIME type from the bytes alone,
/// never from any server-declared header.  The answer also depends on the
/// magic database present on the machine, so no contract ties it to the
/// bytes; callers branch on the returned string and state what holds of
/// every outcome.
#[verifier::external_body]
pub(crate) fn classify_bytes(b: &Vec<u8>) -> String {
    tree_magic::from_u8(b.as_slice())
}

/// Relies on std's String::from_utf8: succeeds exactly on valid UTF-8 input
/// and returns the string those bytes encode.
#[verifier::external_body]
pub(crate) fn utf8_string(v: &Vec<u8>) -> (r: Option<String>)
    ensures
        r is Some <==> vstd::utf8::valid_utf8(v@),
        r matches Some(s) ==> s@ == vstd::utf8::decode_utf8(v@),
{
    String::from_utf8(v.clone()).ok()
}

/// Relies on std's String::push: appends the character at the end.
#[verifier::external_body]
pub(crate) fn push_char(s: &mut String, c: char)
    ensures
        final(s)@ == old(s)@.push(c),
{
    s.push(c);
}

} // verus!
