//! The bulk-write interface.

use vstd::prelude::*;

verus! {

/// `std::io::Error`, taken as an opaque value: it only stands in the result
/// types of reading and writing.
#[verifier::external_type_specification]
#[verifier::external_body]
pub struct ExIoError(std::io::Error);

/// A sink that takes a whole byte sequence at once.
pub trait Write<'a>: Sized {
    /// Hands `buf` to the sink and returns how many bytes it accepted. A
    /// write that succeeds has accepted all of `buf`: there are no partial
    /// writes.
    fn write(&mut self, buf: &'a [u8]) -> (res: std::io::Result<usize>)
        ensures
            res matches Ok(n) ==> n == buf@.len(),
    ;
}

} // verus!
