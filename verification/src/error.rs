//! The failures that construction, resolution and forwarded operations can
//! report. A factory may also fail with any of these values; the proxy
//! passes such a failure through unchanged.

use vstd::prelude::*;

verus! {

/// An error of the proxy or of its value model.
#[derive(Clone, Copy, Debug, PartialEq, Eq, Structural)]
pub enum Error {
    /// The factory handed to the proxy at construction is not callable.
    NotCallable,
    /// An operation is not defined for the kinds of value it was given.
    Unsupported,
    /// An object has no attribute of the requested name, or the name is one
    /// of the proxy's own reserved slots.
    NoAttribute,
    /// An item index lies outside the container.
    BadIndex,
    /// A shift amount is negative.
    BadShift,
    /// A division by zero.
    ZeroDivision,
    /// A true division whose quotient is not a whole number.
    Inexact,
    /// An arithmetic result does not fit the model's integer range.
    Overflow,
    /// An iterator has no further item.
    Exhausted,
    /// An internal-consistency violation: resolution reported success while
    /// no target was stored. Provably unreachable in this implementation.
    Internal,
}

} // verus!
