//! Request headers: what the library believes of the header map that it
//! reads.
//!
//! The map itself belongs to the HTTP stack. The library only looks headers
//! up in it, and states that through the names below.

use vstd::prelude::*;
use reqwest::header::{HeaderMap, HeaderValue};

verus! {

/// The header map of the HTTP stack. Nothing is known of what is inside
/// it but what the names below say.
#[verifier::external_type_specification]
#[verifier::external_body]
#[verifier::reject_recursive_types(T)]
pub struct ExHeaderMap<T>(reqwest::header::HeaderMap<T>);

/// One value of a header, as the HTTP stack holds it.
#[verifier::external_type_specification]
#[verifier::external_body]
pub struct ExHeaderValue(reqwest::header::HeaderValue);

/// What a header map holds: under each header name, written in lower case,
/// the values of that header in the order in which they were added.
pub uninterp spec fn header_values(headers: HeaderMap) -> Map<Seq<char>, Seq<Seq<u8>>>;

/// The bytes of a header value.
pub uninterp spec fn header_bytes(value: HeaderValue) -> Seq<u8>;

/// A letter of a header name in lower case; any other character as it is.
pub open spec fn lower(c: char) -> char {
    if 'A' <= c && c <= 'Z' {
        ((c as u8) + 32) as u8 as char
    } else {
        c
    }
}

/// The name under which a header is looked up: names do not tell upper
/// case from lower case.
pub open spec fn lowered(name: Seq<char>) -> Seq<char> {
    Seq::new(name.len(), |i: int| lower(name[i]))
}

/// Whether a byte is a visible ASCII character, a space or a tab.
pub open spec fn is_visible(b: u8) -> bool {
    (32 <= b && b < 127) || b == 9
}

/// Whether a header value can be read as text.
pub open spec fn is_text(bytes: Seq<u8>) -> bool {
    forall|i: int| 0 <= i < bytes.len() ==> is_visible(#[trigger] bytes[i])
}

/// The text of a header value that can be read as text: each byte is one
/// character.
pub open spec fn text_of(bytes: Seq<u8>) -> Seq<char> {
    Seq::new(bytes.len(), |i: int| bytes[i] as char)
}

/// The text of the header called `key`: that of its first value, if the map
/// holds the header and that value can be read as text.
pub open spec fn header_text(headers: HeaderMap, key: Seq<char>) -> Option<Seq<char>> {
    let name = lowered(key);
    if header_values(headers).contains_key(name) && header_values(headers)[name].len() > 0
        && is_text(header_values(headers)[name][0]) {
        Some(text_of(header_values(headers)[name][0]))
    } else {
        None
    }
}

/// `HeaderMap::get` of the HTTP stack, with a string as the key. The
/// contract claims that the lookup ignores the case of the key, that it
/// finds a value exactly when the map holds the header, and that the value
/// it returns is the first one of that header.
#[verifier::external_body]
pub(crate) fn header_get<'a>(headers: &'a HeaderMap, key: &str) -> (value: Option<&'a HeaderValue>)
    ensures
        match value {
            Some(v) => header_values(*headers).contains_key(lowered(key@)) && header_values(
                *headers,
            )[lowered(key@)].len() > 0 && header_bytes(*v) == header_values(*headers)[lowered(
                key@,
            )][0],
            None => !header_values(*headers).contains_key(lowered(key@)),
        },
{
    headers.get(key)
}

/// `HeaderValue::to_str` of the HTTP stack. The contract claims that the
/// value is handed out as text exactly when each of its bytes is a visible
/// ASCII character, a space or a tab, and that the text then holds one
/// character for each byte.
#[verifier::external_body]
pub(crate) fn header_to_str<'a>(value: &'a HeaderValue) -> (text: Option<&'a str>)
    ensures
        match text {
            Some(t) => is_text(header_bytes(*value)) && t@ == text_of(header_bytes(*value)),
            None => !is_text(header_bytes(*value)),
        },
{
    value.to_str().ok()
}

} // verus!
