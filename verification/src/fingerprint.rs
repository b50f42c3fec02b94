//! The content fingerprint: a 64-bit digest of a byte sequence, used as a
//! cheap stand-in for comparing the bytes themselves.

use std::collections::hash_map::DefaultHasher;
use std::hash::Hasher;
use vstd::prelude::*;
use vstd::std_specs::hash::DefaultHasherAdditionalSpecFns;

verus! {

/// The fingerprint of `bytes`: what a fresh `DefaultHasher` reports after the
/// bytes have been written to it in one piece. Equal sequences have equal
/// fingerprints; unequal sequences may collide.
pub open spec fn content_hash(bytes: Seq<u8>) -> u64 {
    DefaultHasher::spec_finish(seq![bytes])
}

/// Computes the fingerprint of `bytes`.
pub fn digest(bytes: &[u8]) -> (hash: u64)
    ensures
        hash == content_hash(bytes@),
{
    let mut state = DefaultHasher::new();
    state.write(bytes);
    assert(state@ =~= seq![bytes@]);
    state.finish()
}

} // verus!
