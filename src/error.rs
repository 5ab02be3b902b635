//! The ways an operation of this library can fail.

use vstd::prelude::*;

verus! {

/// Why an operation failed.
#[derive(Debug, Clone, Copy, PartialEq, Eq, Hash, Structural)]
pub enum NumError {
    /// The text holds a character other than `'0'` or `'1'`, or more
    /// characters than the target has bits.
    ParseError,
    /// An integer division or remainder by a divisor that is zero.
    DivisionByZero,
    /// A bit index at or beyond the width of the container.
    IndexOutOfRange,
}

} // verus!
