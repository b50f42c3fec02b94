//! Zero-initialised byte buffers.

use crate::error::BitMapError;
use vstd::prelude::*;

verus! {

/// The sequence of `n` zero bytes.
pub open spec fn zeros(n: nat) -> Seq<u8> {
    Seq::new(n, |i: int| 0u8)
}

/// Turns `buf` into exactly `count` zero bytes when the allocator has granted
/// room for them, and reports the refusal otherwise.
pub fn zero_fill(buf: Vec<u8>, count: usize, granted: bool) -> (res: Result<Vec<u8>, BitMapError>)
    ensures
        match res {
            Ok(filled) => granted && filled@ == zeros(count as nat),
            Err(e) => !granted && e == BitMapError::AllocationFailed,
        },
{
    if !granted {
        return Err(BitMapError::AllocationFailed);
    }
    let mut buf = buf;
    buf.clear();
    buf.resize(count, 0u8);
    assert(buf@ =~= zeros(count as nat));
    Ok(buf)
}

/// Allocates `count` zero-initialised bytes.
///
/// An empty request always succeeds. For any other size the allocator decides:
/// its refusal is returned as [`BitMapError::AllocationFailed`] instead of
/// aborting the process.
pub fn malloc_array(count: usize) -> (res: Result<Vec<u8>, BitMapError>)
    ensures
        match res {
            Ok(buf) => buf@ == zeros(count as nat),
            Err(e) => e == BitMapError::AllocationFailed && count > 0,
        },
{
    let mut buf: Vec<u8> = Vec::new();
    let granted = count == 0 || buf.try_reserve(count).is_ok();
    zero_fill(buf, count, granted)
}

} // verus!
