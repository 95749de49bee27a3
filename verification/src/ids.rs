//! Note and list identifiers are the 128-bit values of UUIDs. Generation,
//! rendering and parsing are delegated to the `uuid` crate behind trusted
//! wrappers; everything else treats an id as a plain integer.

use vstd::prelude::*;

verus! {

/// The id denoted by a UUID string, if the string is a well-formed UUID in
/// any of the accepted textual formats.
pub uninterp spec fn uuid_of_str(s: Seq<char>) -> Option<u128>;

/// The canonical hyphenated rendering of an id.
pub uninterp spec fn uuid_str_of(v: u128) -> Seq<char>;

/// Relies on `uuid::Uuid::new_v4` and `Uuid::as_u128`: a freshly generated
/// random UUID as its 128-bit value. Nothing is promised of the value.
#[verifier::external_body]
pub fn new_uuid_v4() -> u128 {
    uuid::Uuid::new_v4().as_u128()
}

/// Relies on `uuid::Uuid::parse_str` and `Uuid::as_u128`: parses a UUID
/// string; the outcome depends on the characters alone.
#[verifier::external_body]
pub fn parse_uuid(s: &str) -> (r: Option<u128>)
    ensures
        r == uuid_of_str(s@),
{
    match uuid::Uuid::parse_str(s) {
        Ok(u) => Some(u.as_u128()),
        Err(_) => None,
    }
}

/// Relies on `uuid::Uuid::from_u128` and the `Display` impl of `Uuid`: the
/// hyphenated rendering of the id, which `Uuid::parse_str` accepts and maps
/// back to the same 128-bit value.
#[verifier::external_body]
pub fn uuid_to_string(v: u128) -> (r: String)
    ensures
        r@ == uuid_str_of(v),
        uuid_of_str(r@) == Some(v),
{
    uuid::Uuid::from_u128(v).to_string()
}

} // verus!
