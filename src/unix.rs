//! Resolution on Unix-like systems, from the first line of the machine-id file.
use vstd::prelude::*;

use crate::machine_id::{lemma_value_of_injective, value_of, MachineId, ResolveError};
use crate::text::{
    all_hex, hyphenate, hyphenated_text, identifier_text_value, is_lower_hex_digit, lemma_round_trip,
};
use crate::uuid_ops::parse_identifier;

verus! {

/// The file where Unix-like systems keep the machine identifier.
pub const MACHINE_ID_PATH: &'static str = "/etc/machine-id";

/// How many characters at the start of the first line hold the identifier.
pub const ID_FIELD_LEN: usize = 32;

/// The part of the first line read as the identifier: its first 32
/// characters, or all of it when it is shorter.
pub open spec fn identifier_field(line: Seq<char>) -> Seq<char> {
    if line.len() > ID_FIELD_LEN {
        line.subrange(0, ID_FIELD_LEN as int)
    } else {
        line
    }
}

/// The identifier value that a first line gives, if any.
pub open spec fn first_line_value(line: Seq<char>) -> Option<nat> {
    identifier_text_value(identifier_field(line))
}

/// Resolves the identifier from the first line of the machine-id file, with
/// the cause of failure. `first_line` is `None` when the file could not be
/// opened or read; the line may still end in its line break.
pub fn get_machine_id_impl(first_line: Option<&str>) -> (r: Result<MachineId, ResolveError>)
    ensures
        first_line is None ==> r == Err::<MachineId, ResolveError>(ResolveError::Io),
        first_line matches Some(line) ==> match first_line_value(line@) {
            Some(n) => r matches Ok(id) && id@ == n,
            None => r == Err::<MachineId, ResolveError>(ResolveError::Parse),
        },
{
    match first_line {
        None => Err(ResolveError::Io),
        Some(line) => {
            let len = line.unicode_len();
            let field = if len > ID_FIELD_LEN {
                line.substring_char(0, ID_FIELD_LEN)
            } else {
                line
            };
            match parse_identifier(field) {
                Ok(v) => Ok(MachineId::from_value(v)),
                Err(_) => Err(ResolveError::Parse),
            }
        },
    }
}

/// The value of what resolution from `first_line` yields: none when the line
/// is missing, else what the line gives.
pub open spec fn resolved_value(first_line: Option<Seq<char>>) -> Option<nat> {
    match first_line {
        Some(line) => first_line_value(line),
        None => None,
    }
}

/// Resolves the identifier from the first line of the machine-id file, every
/// failure collapsed into `None`.
pub fn get_machine_id(first_line: Option<&str>) -> (r: Option<MachineId>)
    ensures
        value_of(r) == resolved_value(
            match first_line {
                Some(line) => Some(line@),
                None => None,
            },
        ),
{
    match get_machine_id_impl(first_line) {
        Ok(id) => Some(id),
        Err(_) => None,
    }
}

/// A first line shorter than the identifier, or with a character among its
/// first 32 that is no hexadecimal digit, gives no identifier.
pub proof fn lemma_malformed_line_unavailable(line: Seq<char>)
    requires
        line.len() < 32 || !all_hex(line.subrange(0, 32)),
    ensures
        first_line_value(line) is None,
{
}

/// Two resolutions from the same line that gives an identifier yield the same
/// identifier.
pub proof fn lemma_stable_source(line: Seq<char>, a: Option<MachineId>, b: Option<MachineId>)
    requires
        first_line_value(line) is Some,
        value_of(a) == first_line_value(line),
        value_of(b) == first_line_value(line),
    ensures
        a is Some,
        a == b,
{
    lemma_value_of_injective(a, b);
}

/// A first line that starts with 32 lower-case hexadecimal digits resolves to
/// an identifier whose rendering is those digits, hyphen-grouped.
pub proof fn lemma_line_round_trip(line: Seq<char>, r: Option<MachineId>)
    requires
        line.len() >= 32,
        forall|i: int| 0 <= i < 32 ==> is_lower_hex_digit(#[trigger] line[i]),
        value_of(r) == first_line_value(line),
    ensures
        r is Some,
        hyphenated_text(r->0@) == hyphenate(line.subrange(0, 32)),
{
    let field = line.subrange(0, 32);
    assert(identifier_field(line) == field);
    assert forall|i: int| 0 <= i < 32 implies is_lower_hex_digit(#[trigger] field[i]) by {
        assert(field[i] == line[i]);
    }
    lemma_round_trip(field);
}

} // verus!
