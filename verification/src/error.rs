//! The ways in which the library can refuse an input.

use vstd::prelude::*;

verus! {

/// Why an input was refused.
#[derive(Debug, Clone, Copy, PartialEq, Eq, Structural)]
pub enum AntsError {
    /// The byte stream ended before a field was complete.
    TruncatedStream,
    /// A direction code outside `1..=9`.
    InvalidDirectionCode,
    /// The job counts do not describe exactly sixteen ants.
    InvalidRoleAssignment,
}

} // verus!
