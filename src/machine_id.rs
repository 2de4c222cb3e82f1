//! The machine identifier and the process-wide cache that holds it.
use vstd::prelude::*;

use crate::text::hyphenated_text;
use crate::uuid_ops::{is_random_layout, random_identifier, render_identifier};

verus! {

/// A machine-specific identifier: a 128-bit value.
#[derive(PartialEq, Eq, Structural, Debug, Clone, Copy)]
pub struct MachineId {
    value: u128,
}

impl View for MachineId {
    type V = nat;

    closed spec fn view(&self) -> nat {
        self.value as nat
    }
}

/// Why the platform's record of machine identity gave no identifier.
#[derive(PartialEq, Eq, Structural, Debug, Clone, Copy)]
pub enum ResolveError {
    /// The record could not be opened or read.
    Io,
    /// The record does not hold an identifier in an accepted text form.
    Parse,
    /// The platform's API reported an error of its own, with its code.
    Platform { code: u32 },
}

impl MachineId {
    pub(crate) fn from_value(value: u128) -> (r: MachineId)
        ensures
            r@ == value as nat,
    {
        MachineId { value }
    }

    /// A fresh random identifier, laid out as a version 4 identifier.
    pub fn generate() -> (r: MachineId)
        ensures
            is_random_layout(r@),
    {
        MachineId { value: random_identifier() }
    }

    /// The 128-bit value, first digit of the text most significant.
    pub fn as_u128(&self) -> (r: u128)
        ensures
            r as nat == self@,
    {
        self.value
    }

    /// The canonical rendering: 32 lower-case hexadecimal digits grouped
    /// 8-4-4-4-12 by hyphens.
    pub fn to_string(&self) -> (r: String)
        ensures
            r@ == hyphenated_text(self@),
    {
        render_identifier(self.value)
    }
}

/// The value of an optional identifier.
pub open spec fn value_of(r: Option<MachineId>) -> Option<nat> {
    match r {
        Some(id) => Some(id@),
        None => None,
    }
}

/// Optional identifiers with the same value are the same.
pub proof fn lemma_value_of_injective(a: Option<MachineId>, b: Option<MachineId>)
    ensures
        value_of(a) == value_of(b) <==> a == b,
{
}

} // verus!
