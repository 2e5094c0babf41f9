//! Errors of this crate.

use vstd::prelude::*;

verus! {

/// A byte string had another length than the one expected.
#[derive(Clone, Copy, Debug, PartialEq, Eq, Structural)]
pub struct LengthMismatch {
    /// The length that was expected.
    pub expected: usize,
    /// The length that was found.
    pub found: usize,
}

/// An error in decoding a curve scalar or a key image.
#[derive(Clone, Copy, Debug, PartialEq, Eq, Structural)]
pub enum Error {
    /// A byte string had the wrong length: (expected, found).
    LengthMismatch(usize, usize),
    /// Bytes that should have encoded a curve point did not.
    InvalidCurvePoint,
}

impl From<LengthMismatch> for Error {
    fn from(src: LengthMismatch) -> (r: Error) {
        Error::LengthMismatch(src.expected, src.found)
    }
}

impl vstd::std_specs::convert::FromSpecImpl<LengthMismatch> for Error {
    open spec fn obeys_from_spec() -> bool {
        true
    }

    open spec fn from_spec(src: LengthMismatch) -> Error {
        Error::LengthMismatch(src.expected, src.found)
    }
}

} // verus!
