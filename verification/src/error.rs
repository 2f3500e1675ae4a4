//! What can go wrong.

use vstd::prelude::*;

verus! {

/// The ways in which a call can fail.
#[derive(Copy, Clone, Debug, PartialEq, Eq, Structural)]
pub enum FmtError {
    /// A position or a range lies outside the string.
    OutOfRange,
    /// An escape sequence is cut short by the end of the text, or one that
    /// sets a 24-bit colour does not hold the fields that it must.
    MalformedColorField,
}

} // verus!
