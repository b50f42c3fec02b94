//! The refusals of the library.

use vstd::prelude::*;

verus! {

/// The ways in which an operation on a bitmap can be refused.
#[derive(Debug, Clone, Copy, PartialEq, Eq, Structural)]
pub enum BitMapError {
    /// `width * height` does not fit in `usize`.
    DimensionOverflow,
    /// The allocator did not provide the requested buffer.
    AllocationFailed,
    /// The destination pitch is smaller than one packed RGB row, `3 * width`.
    PitchTooSmall,
    /// The destination cannot hold `height` rows of `pitch` bytes.
    DestinationTooSmall,
    /// The body holds fewer than `4 * width * height` bytes.
    SourceTooSmall,
}

} // verus!
