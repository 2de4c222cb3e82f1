//! The calls into the `uuid` crate that the library relies on.
use vstd::prelude::*;

use crate::text::{hyphenated_text, identifier_text_value};

verus! {

/// The error that `uuid::Uuid::parse_str` reports; it is carried, not inspected.
#[verifier::external_type_specification]
#[verifier::external_body]
pub struct ExParseError(uuid::Error);

/// The layout of a random (version 4, RFC 4122 variant) identifier: the version
/// nibble (bits 76 to 79) holds 4 and the two variant bits (62 and 63) hold `0b10`.
pub open spec fn is_random_layout(v: nat) -> bool {
    &&& (v / 0x10000000000000000000) % 16 == 4
    &&& (v / 0x4000000000000000) % 4 == 2
}

/// A value laid out as a random identifier is not the nil identifier.
pub proof fn lemma_random_layout_not_nil(v: nat)
    requires
        is_random_layout(v),
    ensures
        v != 0,
{
}

/// Relies on `uuid::Uuid::parse_str` and `Uuid::as_u128`: the text is read in
/// one of the forms of `identifier_text_value`, first digit most significant,
/// and any other text is refused.
#[verifier::external_body]
pub(crate) fn parse_identifier(s: &str) -> (r: Result<u128, uuid::Error>)
    ensures
        r is Ok <==> identifier_text_value(s@) is Some,
        r matches Ok(v) ==> identifier_text_value(s@) == Some(v as nat),
{
    uuid::Uuid::parse_str(s).map(|u| u.as_u128())
}

/// Relies on `uuid::Uuid::from_u128` and the `Display` of `uuid::Uuid`, which
/// writes the value hyphen-grouped in lower-case hexadecimal.
#[verifier::external_body]
pub(crate) fn render_identifier(v: u128) -> (r: String)
    ensures
        r@ == hyphenated_text(v as nat),
{
    uuid::Uuid::from_u128(v).to_string()
}

/// Relies on `uuid::Uuid::new_v4` and `Uuid::as_u128`: random bits, with the
/// version and variant bits set as `is_random_layout` says. It panics only
/// where the operating system gives no random bytes at all.
#[verifier::external_body]
pub(crate) fn random_identifier() -> (r: u128)
    ensures
        is_random_layout(r as nat),
{
    uuid::Uuid::new_v4().as_u128()
}

} // verus!
