//! Every way an operation can fail. Errors are wrapped by the operation
//! that was attempted and surfaced unchanged to the top of the call chain;
//! nothing here retries.

use vstd::prelude::*;

verus! {

#[derive(Clone, Debug, PartialEq)]
pub enum Error {
    /// The external process could not start.
    SpawnError(String),
    /// The external process ran and reported failure with this exit code.
    NonZeroExit(i32),
    /// A stream or file read/write failed.
    IoError(String),
    /// A required configuration key was never resolved.
    MissingValue(crate::config::MissingValue),
    /// The operation was requested for an unsupported build target.
    InvalidTarget(crate::cook::InvalidCookTarget),
    /// The requested language is absent from the base localization config.
    UnsupportedCulture(String),
}

} // verus!
