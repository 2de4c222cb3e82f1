//! Resolution on Windows, from the `MachineGuid` registry value.
use vstd::prelude::*;

use crate::machine_id::{value_of, MachineId, ResolveError};
use crate::text::identifier_text_value;
use crate::uuid_ops::parse_identifier;

verus! {

/// The subkey of the local-machine hive that holds the machine identifier.
pub const REGISTRY_KEY_PATH: &'static str = "SOFTWARE\\Microsoft\\Cryptography";

/// The name of the registry value that holds the machine identifier.
pub const REGISTRY_VALUE_NAME: &'static str = "MachineGuid";

/// What reading the registry value gave.
#[derive(Debug, Clone)]
pub enum RegistryLookup {
    /// The value, read as a string.
    Value(String),
    /// The subkey could not be opened for reading.
    KeyUnavailable,
    /// The value could not be read; `last_error` is the last Win32 error code
    /// that the thread saw then, 0 for none.
    ValueUnavailable { last_error: u32 },
}

/// The outcome of resolution from a registry lookup: the subkey or value
/// missing is an I/O failure, unless the platform reported an error code of
/// its own; a value not in an accepted text form is a parse failure.
pub open spec fn lookup_outcome(lookup: RegistryLookup) -> Result<nat, ResolveError> {
    match lookup {
        RegistryLookup::KeyUnavailable => Err(ResolveError::Io),
        RegistryLookup::ValueUnavailable { last_error } => if last_error != 0 {
            Err(ResolveError::Platform { code: last_error })
        } else {
            Err(ResolveError::Io)
        },
        RegistryLookup::Value(s) => match identifier_text_value(s@) {
            Some(n) => Ok(n),
            None => Err(ResolveError::Parse),
        },
    }
}

/// Resolves the identifier from a registry lookup, with the cause of failure.
pub fn get_machine_id_impl(lookup: RegistryLookup) -> (r: Result<MachineId, ResolveError>)
    ensures
        match lookup_outcome(lookup) {
            Ok(n) => r matches Ok(id) && id@ == n,
            Err(e) => r == Err::<MachineId, ResolveError>(e),
        },
{
    match lookup {
        RegistryLookup::KeyUnavailable => Err(ResolveError::Io),
        RegistryLookup::ValueUnavailable { last_error } => {
            if last_error != 0 {
                Err(ResolveError::Platform { code: last_error })
            } else {
                Err(ResolveError::Io)
            }
        },
        RegistryLookup::Value(s) => match parse_identifier(s.as_str()) {
            Ok(v) => Ok(MachineId::from_value(v)),
            Err(_) => Err(ResolveError::Parse),
        },
    }
}

/// Resolves the identifier from a registry lookup, every failure collapsed
/// into `None`.
pub fn get_machine_id(lookup: RegistryLookup) -> (r: Option<MachineId>)
    ensures
        value_of(r) == match lookup_outcome(lookup) {
            Ok(n) => Some(n),
            Err(_) => None,
        },
{
    match get_machine_id_impl(lookup) {
        Ok(id) => Some(id),
        Err(_) => None,
    }
}

} // verus!
