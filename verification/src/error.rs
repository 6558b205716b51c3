//! The ways in which a call on a circular sequence is refused.

use vstd::prelude::*;

verus! {

/// Why a call was refused.
#[derive(Clone, Copy, Debug, PartialEq, Eq, Structural)]
pub enum CircularVecError {
    /// No element was given to build the sequence from.
    InvalidArgument,
    /// A position or range reaches past the last element.
    IndexOutOfRange,
}

} // verus!
