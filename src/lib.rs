//! A stable, process-wide identifier for the host machine.
//!
//! The identifier is read from the platform's own record of machine identity
//! (a file on Unix-like systems, a registry value on Windows), and replaced by
//! a random identifier when that record is missing or malformed.
pub mod text;
pub mod uuid_ops;
pub mod machine_id;
pub mod cache;
pub mod unix;
pub mod windows;

pub use cache::IdentityCache;
pub use machine_id::{MachineId, ResolveError};
