//! The error kinds that the library reports.
use vstd::prelude::*;

verus! {

/// Why an operation failed: a name that is not defined, or data that the
/// API cannot carry.
#[derive(Debug, Clone, Copy, PartialEq, Eq, Structural)]
pub enum ErrorKind {
    NotFound,
    InvalidData,
}

} // verus!
