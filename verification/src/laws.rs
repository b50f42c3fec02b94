//! What holds of every bitmap, stated over the model that the contracts of
//! [`BitMap`] use.

use crate::bitmap::{BitMap, BitMapView};
use crate::fingerprint::content_hash;
use crate::mem::zeros;
use vstd::prelude::*;
use vstd::std_specs::cmp::PartialEqSpec;

verus! {

/// A bitmap made for `width * height` pixels holds `width * height` bytes,
/// each of them 0, under the fingerprint of those bytes.
pub proof fn lemma_new_is_zero_filled(width: usize, height: usize)
    ensures
        ({
            let made = BitMapView::fresh(width, height, zeros((width * height) as nat));
            &&& made.body.len() == width * height
            &&& forall|i: int| 0 <= i < width * height ==> made.body[i] == 0
            &&& made.hash_is_current()
        }),
{
    assert(0 <= width * height) by (nonlinear_arith);
}

/// Recomputing the fingerprint twice in a row gives what recomputing it once
/// gives, and the fingerprint is then that of the body.
pub proof fn lemma_rehash_idempotent(v: BitMapView)
    ensures
        v.rehashed().rehashed() == v.rehashed(),
        v.rehashed().hash_is_current(),
{
}

/// A bulk write leaves the fingerprint current, and neither a read nor a
/// recomputation makes a current fingerprint stale.
pub proof fn lemma_fingerprint_stays_current(v: BitMapView, buf: Seq<u8>, room: nat)
    ensures
        v.written(buf).hash_is_current(),
        v.hash_is_current() ==> v.after_read(room).hash_is_current(),
        v.hash_is_current() ==> v.rehashed() == v,
{
}

/// After a bulk write of `buf`, one read into a buffer that has room for
/// all of `buf` delivers exactly `buf`, leaves the rest of the buffer alone,
/// and leaves nothing unread.
pub proof fn lemma_write_then_read(v: BitMapView, buf: Seq<u8>, out: Seq<u8>)
    requires
        buf.len() <= out.len(),
    ensures
        v.written(buf).read_len(out.len()) == buf.len(),
        v.written(buf).delivered(out.len()) == buf,
        v.written(buf).read_into(out) == buf + out.skip(buf.len() as int),
        v.written(buf).after_read(out.len()).unread() == Seq::<u8>::empty(),
        v.written(buf).after_read(out.len()).read_len(out.len()) == 0,
{
    let w = v.written(buf);
    assert(w.unread() =~= buf);
    assert(w.delivered(out.len()) =~= buf);
    assert(w.after_read(out.len()).unread() =~= Seq::<u8>::empty());
}

/// Reads continue where the last one stopped: what two reads in a row
/// deliver, one after the other, is what one read with the room of both
/// delivers, and the bitmap is left in the same state.
pub proof fn lemma_reads_continue(v: BitMapView, first: nat, second: nat)
    requires
        v.well_formed(),
    ensures
        v.delivered(first) + v.after_read(first).delivered(second) == v.delivered(first + second),
        v.after_read(first).after_read(second) == v.after_read(first + second),
        v.after_read(first).well_formed(),
{
    let mid = v.after_read(first);
    assert(v.delivered(first) + mid.delivered(second) =~= v.delivered(first + second));
}

/// After a bulk write of `buf`, reads of any sizes deliver `buf` piece by
/// piece: two reads whose rooms add up to at least the length of `buf`
/// deliver all of it.
pub proof fn lemma_write_then_read_in_two(v: BitMapView, buf: Seq<u8>, first: nat, second: nat)
    requires
        buf.len() <= first + second,
    ensures
        v.written(buf).delivered(first) + v.written(buf).after_read(first).delivered(second)
            == buf,
{
    let w = v.written(buf);
    lemma_reads_continue(w, first, second);
    assert(w.unread() =~= buf);
    assert(w.delivered(first + second) =~= buf);
}

/// A walk delivers the bytes in storage order and ends: the step that
/// follows `k` consumed bytes delivers the byte `k` places after the
/// starting position, or `None` when that lies past the body, and it
/// consumes one byte or, at the end, none.
pub proof fn lemma_walk_is_in_order_and_ends(v: BitMapView, k: nat)
    requires
        v.well_formed(),
    ensures
        v.after_read(k).next_byte() == if v.cursor + k < v.body.len() {
            Some(v.body[(v.cursor + k) as int])
        } else {
            None::<u8>
        },
        v.after_read(k).after_read(1) == v.after_read(k + 1),
        v.cursor + k >= v.body.len() ==> v.after_read(k).after_read(1) == v.after_read(k),
{
    lemma_reads_continue(v, k, 1);
}

/// After a bulk write of `buf`, step `k` of a walk, counted from 0, delivers
/// `buf[k]`, and every step from `buf.len()` on delivers `None`.
pub proof fn lemma_write_then_walk(v: BitMapView, buf: Seq<u8>, k: nat)
    ensures
        v.written(buf).after_read(k).next_byte() == if k < buf.len() {
            Some(buf[k as int])
        } else {
            None::<u8>
        },
{
    lemma_walk_is_in_order_and_ends(v.written(buf), k);
}

/// A step of a walk is a read of one byte: what the step delivers is what
/// a read into a buffer of one byte delivers.
pub proof fn lemma_step_is_read_of_one(v: BitMapView)
    requires
        v.well_formed(),
    ensures
        v.delivered(1) == match v.next_byte() {
            Some(byte) => seq![byte],
            None => Seq::<u8>::empty(),
        },
{
    assert(v.delivered(1) =~= match v.next_byte() {
        Some(byte) => seq![byte],
        None => Seq::<u8>::empty(),
    });
}

/// Equality of bitmaps is reflexive.
pub proof fn lemma_eq_reflexive(a: BitMap)
    ensures
        a.eq_spec(&a),
{
}

/// Equality of bitmaps is symmetric.
pub proof fn lemma_eq_symmetric(a: BitMap, b: BitMap)
    ensures
        a.eq_spec(&b) == b.eq_spec(&a),
{
}

/// Equality of bitmaps is transitive.
pub proof fn lemma_eq_transitive(a: BitMap, b: BitMap, c: BitMap)
    requires
        a.eq_spec(&b),
        b.eq_spec(&c),
    ensures
        a.eq_spec(&c),
{
}

/// Equality looks at the fingerprint alone: neither the dimensions nor the
/// bytes nor the read position enter.
pub proof fn lemma_eq_is_fingerprint_equality(a: BitMap, b: BitMap)
    ensures
        a.eq_spec(&b) <==> a@.hash == b@.hash,
{
}

/// Two bitmaps with current fingerprints and the same bytes are equal,
/// whatever their dimensions.
pub proof fn lemma_same_content_is_equal(a: BitMap, b: BitMap)
    requires
        a@.hash_is_current(),
        b@.hash_is_current(),
        a@.body == b@.body,
    ensures
        a.eq_spec(&b),
{
}

/// Two bitmaps with current fingerprints are unequal exactly when the
/// fingerprints of their bytes differ; bytes that differ but collide compare
/// equal.
pub proof fn lemma_unequal_iff_fingerprints_differ(a: BitMap, b: BitMap)
    requires
        a@.hash_is_current(),
        b@.hash_is_current(),
    ensures
        !a.eq_spec(&b) <==> content_hash(a@.body) != content_hash(b@.body),
{
}

} // verus!
