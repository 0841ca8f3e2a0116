//! Identifiers: random 128-bit values, written in the hyphenated form of a
//! UUID where they travel as text.

use vstd::prelude::*;

verus! {

/// The hyphenated form of an identifier, as `Uuid::to_hyphenated` of the
/// `uuid` crate writes it.
pub uninterp spec fn hyphenated_text(id: u128) -> Seq<char>;

/// The identifier that a text denotes, as `Uuid::parse_str` of the `uuid`
/// crate reads it; `None` for a text that it rejects.
pub uninterp spec fn id_of_text(text: Seq<char>) -> Option<u128>;

/// A random identifier from `Uuid::new_v4`. Nothing is promised of the
/// value: every call may give another. `new_v4` panics where the operating
/// system hands out no random bytes.
#[verifier::external_body]
pub(crate) fn fresh_id() -> (id: u128) {
    uuid::Uuid::new_v4().as_u128()
}

/// Writes an identifier in hyphenated form with `Uuid::to_hyphenated`. The
/// text depends on the identifier alone; the contract names it.
#[verifier::external_body]
pub(crate) fn hyphenated(id: u128) -> (text: String)
    ensures
        text@ == hyphenated_text(id),
{
    uuid::Uuid::from_u128(id).to_hyphenated().to_string()
}

/// Reads an identifier with `Uuid::parse_str`; `None` where it reports an
/// error. The outcome depends on the text alone; the contract names it.
#[verifier::external_body]
pub(crate) fn parse_id(text: &str) -> (id: Option<u128>)
    ensures
        id == id_of_text(text@),
{
    uuid::Uuid::parse_str(text).ok().map(|u| u.as_u128())
}

} // verus!
