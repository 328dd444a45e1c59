//! Error taxonomy for geometry encoding.

use vstd::prelude::*;

verus! {

/// Errors raised while encoding geometry.
#[derive(Clone, Copy, Debug, PartialEq, Eq, Structural)]
pub enum Error {
    /// A coordinate, after transform and rounding, is not representable as a
    /// finite tile integer (non-finite input or transform overflow).
    InvalidValue,
    /// A command word's low three bits name no path command: an internal
    /// consistency failure, since command words are only read back from a
    /// buffer this encoder wrote.
    InvalidCommand,
}

} // verus!
