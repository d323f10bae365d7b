//! Identifiers of tenants and owners.

use uuid::Uuid;
use vstd::prelude::*;

verus! {

/// `uuid::Uuid`, an identifier of 128 bits.
#[verifier::external_type_specification]
#[verifier::external_body]
pub struct ExUuid(uuid::Uuid);

/// `Uuid::clone`: an identifier is plain data, and its copy is the same
/// identifier.
pub assume_specification[ <Uuid as Clone>::clone ](id: &Uuid) -> (copy: Uuid)
    ensures
        copy == *id,
;

/// The 128 bits of an identifier.
pub uninterp spec fn uuid_bits(id: Uuid) -> u128;

/// The identifier that a text denotes, as its 128 bits, where the text
/// denotes one in the simple, hyphenated, URN or braced form.
pub uninterp spec fn uuid_of_text(text: Seq<char>) -> Option<u128>;

/// `Uuid::parse_str`: the identifier that `text` denotes, or `None` where
/// the text denotes none.
#[verifier::external_body]
pub(crate) fn parse_uuid_text(text: &str) -> (r: Option<Uuid>)
    ensures
        r is Some <==> uuid_of_text(text@) is Some,
        r matches Some(id) ==> uuid_of_text(text@) == Some(uuid_bits(id)),
{
    match Uuid::parse_str(text) {
        Ok(id) => Some(id),
        Err(_) => None,
    }
}

/// The text of the identifier with the bits `bits`: 32 hexadecimal digits in
/// lower case, in five groups that hyphens separate.
pub uninterp spec fn uuid_text(bits: u128) -> Seq<char>;

/// `Uuid`'s `Display`: the identifier in hyphenated lower-case form.
#[verifier::external_body]
pub(crate) fn id_text(id: &Uuid) -> (text: String)
    ensures
        text@ == uuid_text(uuid_bits(*id)),
{
    id.to_string()
}

/// `Uuid::eq`: two identifiers are equal when their bits are.
#[verifier::external_body]
pub(crate) fn same_id(a: &Uuid, b: &Uuid) -> (r: bool)
    ensures
        r == (uuid_bits(*a) == uuid_bits(*b)),
{
    a == b
}

} // verus!
