//! The bitmap container: construction, fingerprint equality, bulk write,
//! sequential and indexed access, and the export into a texture.

use crate::decoder::{image_bytes, image_height, image_width};
use crate::error::BitMapError;
use crate::fingerprint::{content_hash, digest};
use crate::io::Write;
use crate::mem::{malloc_array, zeros};
use crate::texture::{
    export_fits, export_refusal, exported, exported_prefix, lemma_all_copied, lemma_copy_pixel,
    lemma_exported_pixel, lemma_nothing_copied, lemma_pixel_in_range, lemma_row_copied,
    pixel_source, pixel_target,
};
use vstd::prelude::*;
use vstd::std_specs::cmp::PartialEqSpecImpl;
use vstd::std_specs::iter::IteratorSpec;

verus! {

/// A pixel buffer: dimensions, the bytes, and a fingerprint of the bytes by
/// which two bitmaps are compared.
///
/// The bytes are owned, and only a bulk write replaces them. Nothing ties
/// their number to `width * height`: whoever replaces the body keeps the two
/// in step. Sequential reads and the byte-by-byte walk of [`BitMap::next`]
/// share one position and leave the bytes in place.
///
/// `==` compares fingerprints only, while the derived `Hash` feeds every
/// field: two bitmaps that are equal may hash differently.
#[derive(Debug, Hash)]
pub struct BitMap {
    width: usize,
    height: usize,
    hash: u64,
    body: Vec<u8>,
    cursor: usize,
}

/// What a bitmap is, as plain values.
pub struct BitMapView {
    /// Width in pixels.
    pub width: usize,
    /// Height in pixels.
    pub height: usize,
    /// The stored fingerprint.
    pub hash: u64,
    /// The bytes, in storage order.
    pub body: Seq<u8>,
    /// How many bytes of the body reads and walk steps have consumed.
    pub cursor: nat,
}

impl View for BitMap {
    type V = BitMapView;

    closed spec fn view(&self) -> BitMapView {
        BitMapView {
            width: self.width,
            height: self.height,
            hash: self.hash,
            body: self.body@,
            cursor: self.cursor as nat,
        }
    }
}

impl BitMapView {
    /// Whether the read position lies within the body. Every bitmap that
    /// exists at run time is well formed.
    pub open spec fn well_formed(self) -> bool {
        self.cursor <= self.body.len()
    }

    /// A bitmap of the given dimensions over `body`, with the fingerprint of
    /// `body` and nothing read yet.
    pub open spec fn fresh(width: usize, height: usize, body: Seq<u8>) -> BitMapView {
        BitMapView { width, height, hash: content_hash(body), body, cursor: 0 }
    }

    /// Whether the stored fingerprint is that of the body.
    pub open spec fn hash_is_current(self) -> bool {
        self.hash == content_hash(self.body)
    }

    /// This bitmap with its fingerprint recomputed.
    pub open spec fn rehashed(self) -> BitMapView {
        BitMapView { hash: content_hash(self.body), ..self }
    }

    /// This bitmap after a bulk write of `buf`: the body is `buf`, the
    /// fingerprint is that of `buf`, reading starts over, the dimensions stay.
    pub open spec fn written(self, buf: Seq<u8>) -> BitMapView {
        BitMapView::fresh(self.width, self.height, buf)
    }

    /// The bytes that neither a read nor a walk step has consumed yet.
    pub open spec fn unread(self) -> Seq<u8> {
        self.body.skip(self.cursor as int)
    }

    /// How many bytes a read into a buffer of `room` bytes delivers: all of
    /// `room` while that much is unread, else what is left.
    pub open spec fn read_len(self, room: nat) -> nat {
        if room <= self.unread().len() {
            room
        } else {
            self.unread().len()
        }
    }

    /// The bytes that a read into a buffer of `room` bytes delivers: the
    /// first `read_len(room)` unread bytes.
    pub open spec fn delivered(self, room: nat) -> Seq<u8> {
        self.unread().take(self.read_len(room) as int)
    }

    /// The caller's buffer after a read into it: the delivered bytes in
    /// front, the rest of `buf` as it was.
    pub open spec fn read_into(self, buf: Seq<u8>) -> Seq<u8> {
        self.delivered(buf.len()) + buf.skip(self.read_len(buf.len()) as int)
    }

    /// The byte that the next step of a walk delivers: the first unread
    /// byte, `None` once the whole body is consumed.
    pub open spec fn next_byte(self) -> Option<u8> {
        if self.cursor < self.body.len() {
            Some(self.body[self.cursor as int])
        } else {
            None
        }
    }

    /// This bitmap after a read into a buffer of `room` bytes: the delivered
    /// bytes are consumed, nothing else changes.
    pub open spec fn after_read(self, room: nat) -> BitMapView {
        BitMapView { cursor: self.cursor + self.read_len(room), ..self }
    }
}

impl BitMap {
    #[verifier::type_invariant]
    spec fn cursor_in_body(&self) -> bool {
        self@.well_formed()
    }

    /// The byte at `index` of the body: what `bit_map[index]` means in a contract.
    pub open spec fn spec_index(&self, index: int) -> u8 {
        self@.body[index]
    }

    /// A bitmap of `width * height` zero bytes.
    ///
    /// Fails with [`BitMapError::DimensionOverflow`] exactly when the product
    /// does not fit in `usize`. A bitmap without pixels is always granted; for
    /// any other size the allocator may refuse, which is reported as
    /// [`BitMapError::AllocationFailed`].
    pub fn new(width: usize, height: usize) -> (res: Result<BitMap, BitMapError>)
        ensures
            match res {
                Ok(bit_map) => width * height <= usize::MAX && bit_map@ == BitMapView::fresh(
                    width,
                    height,
                    zeros((width * height) as nat),
                ),
                Err(BitMapError::DimensionOverflow) => width * height > usize::MAX,
                Err(BitMapError::AllocationFailed) => 0 < width * height <= usize::MAX,
                Err(_) => false,
            },
    {
        let size_body = match width.checked_mul(height) {
            Some(size) => size,
            None => {
                return Err(BitMapError::DimensionOverflow);
            },
        };
        match malloc_array(size_body) {
            Ok(body) => {
                let hash = digest(body.as_slice());
                Ok(BitMap { width, height, hash, body, cursor: 0 })
            },
            Err(e) => Err(e),
        }
    }

    /// Copies the pixels into `buffer`, a texture whose rows start `pitch`
    /// bytes apart: the body is read as rows of `width` RGBA pixels, and of
    /// each pixel the bytes R, G, B are written, alpha is dropped. Row padding
    /// and whatever follows the last row are left as they were.
    pub fn write_texture_sdl2(&self, buffer: &mut [u8], pitch: usize)
        requires
            export_fits(
                self@.width as int,
                self@.height as int,
                self@.body.len() as int,
                old(buffer)@.len() as int,
                pitch as int,
            ),
        ensures
            final(buffer)@ == exported(
                self@.body,
                self@.width as int,
                self@.height as int,
                old(buffer)@,
                pitch as int,
            ),
            forall|x: int, y: int, c: int|
                0 <= x < self@.width && 0 <= y < self@.height && 0 <= c < 3
                    ==> final(buffer)@[#[trigger] pixel_target(pitch as int, x, y, c)]
                    == self@.body[pixel_source(self@.width as int, x, y, c)],
    {
        let ghost dest = buffer@;
        let ghost body = self.body@;
        let width = self.width;
        let height = self.height;
        proof {
            lemma_nothing_copied(body, width as int, dest, pitch as int);
            assert(dest.len() == buffer.len());
            assert(body.len() == self.body.len());
        }
        let mut y: usize = 0;
        while y < height
            invariant
                y <= height,
                dest.len() <= usize::MAX,
                body.len() <= usize::MAX,
                width == self.width,
                body == self.body@,
                export_fits(
                    width as int,
                    height as int,
                    body.len() as int,
                    dest.len() as int,
                    pitch as int,
                ),
                buffer@ == exported_prefix(body, width as int, y as int, 0, dest, pitch as int),
            decreases height - y,
        {
            let mut x: usize = 0;
            while x < width
                invariant
                    x <= width,
                    y < height,
                    dest.len() <= usize::MAX,
                    body.len() <= usize::MAX,
                    width == self.width,
                    body == self.body@,
                    export_fits(
                        width as int,
                        height as int,
                        body.len() as int,
                        dest.len() as int,
                        pitch as int,
                    ),
                    buffer@ == exported_prefix(
                        body,
                        width as int,
                        y as int,
                        x as int,
                        dest,
                        pitch as int,
                    ),
                decreases width - x,
            {
                proof {
                    lemma_pixel_in_range(
                        width as int,
                        height as int,
                        body.len() as int,
                        dest.len() as int,
                        pitch as int,
                        x as int,
                        y as int,
                        2,
                    );
                    lemma_copy_pixel(
                        body,
                        width as int,
                        height as int,
                        dest,
                        pitch as int,
                        x as int,
                        y as int,
                    );
                }
                let offset = y * pitch + x * 3;
                let i = (y * width + x) * 4;
                buffer[offset] = self.body[i];
                buffer[offset + 1] = self.body[i + 1];
                buffer[offset + 2] = self.body[i + 2];
                x = x + 1;
            }
            proof {
                lemma_row_copied(body, width as int, dest, pitch as int, y as int);
            }
            y = y + 1;
        }
        proof {
            lemma_all_copied(body, width as int, height as int, dest, pitch as int);
            assert forall|x: int, y: int, c: int|
                0 <= x < width && 0 <= y < height && 0 <= c < 3
                implies buffer@[#[trigger] pixel_target(pitch as int, x, y, c)]
                == body[pixel_source(width as int, x, y, c)] by {
                lemma_exported_pixel(body, width as int, height as int, dest, pitch as int, x, y, c);
            }
        }
    }

    /// [`BitMap::write_texture_sdl2`] behind a check of the sizes: where the
    /// export does not fit, `buffer` is left as it was and the refusal says
    /// which size is short.
    pub fn try_write_texture_sdl2(&self, buffer: &mut [u8], pitch: usize) -> (res: Result<
        (),
        BitMapError,
    >)
        ensures
            match res {
                Ok(()) => export_fits(
                    self@.width as int,
                    self@.height as int,
                    self@.body.len() as int,
                    old(buffer)@.len() as int,
                    pitch as int,
                ) && final(buffer)@ == exported(
                    self@.body,
                    self@.width as int,
                    self@.height as int,
                    old(buffer)@,
                    pitch as int,
                ),
                Err(e) => export_refusal(
                    self@.width as int,
                    self@.height as int,
                    self@.body.len() as int,
                    old(buffer)@.len() as int,
                    pitch as int,
                ) == Some(e) && final(buffer)@ == old(buffer)@,
            },
    {
        proof {
            assert(buffer@.len() == buffer.len());
            assert(self.body@.len() == self.body.len());
        }
        let row_fits = match self.width.checked_mul(3) {
            Some(row) => row <= pitch,
            None => false,
        };
        if !row_fits {
            return Err(BitMapError::PitchTooSmall);
        }
        let rows_fit = match self.height.checked_mul(pitch) {
            Some(rows) => rows <= buffer.len(),
            None => false,
        };
        if !rows_fit {
            return Err(BitMapError::DestinationTooSmall);
        }
        let pixels_fit = match self.width.checked_mul(self.height) {
            Some(pixels) => match pixels.checked_mul(4) {
                Some(bytes) => bytes <= self.body.len(),
                None => false,
            },
            None => false,
        };
        if !pixels_fit {
            return Err(BitMapError::SourceTooSmall);
        }
        self.write_texture_sdl2(buffer, pitch);
        Ok(())
    }

    /// Whether the two bitmaps have the same fingerprint. This is the only
    /// comparison of bitmaps there is: the bytes are never compared, so two
    /// bitmaps whose bodies differ but collide count as equal.
    pub fn equals(&self, other: &BitMap) -> (equal: bool)
        ensures
            equal <==> self@.hash == other@.hash,
    {
        self.hash == other.hash
    }

    /// Recomputes the fingerprint from the current body.
    pub fn hash_update(&mut self)
        ensures
            final(self)@ == old(self)@.rehashed(),
    {
        proof {
            use_type_invariant(&*self);
        }
        self.hash = digest(self.body.as_slice());
    }

    /// Reads into `buf` from the read position and returns how many
    /// bytes were delivered: `buf.len()` while that much is unread, else what
    /// is left, which is 0 at the end of the body. The body and its
    /// fingerprint are not touched.
    pub fn read(&mut self, buf: &mut [u8]) -> (res: std::io::Result<usize>)
        ensures
            old(self)@.well_formed(),
            res matches Ok(n) && n == old(self)@.read_len(old(buf)@.len()),
            final(buf)@ == old(self)@.read_into(old(buf)@),
            final(self)@ == old(self)@.after_read(old(buf)@.len()),
    {
        proof {
            use_type_invariant(&*self);
        }
        let ghost before = buf@;
        let ghost unread = self@.unread();
        let left = self.body.len() - self.cursor;
        let n = if buf.len() <= left {
            buf.len()
        } else {
            left
        };
        let mut i: usize = 0;
        while i < n
            invariant
                i <= n,
                n <= left,
                n <= before.len(),
                self.cursor + left == self.body.len(),
                unread == self.body@.skip(self.cursor as int),
                buf@ == unread.take(i as int) + before.skip(i as int),
            decreases n - i,
        {
            buf[i] = self.body[self.cursor + i];
            i = i + 1;
        }
        self.cursor = self.cursor + n;
        Ok(n)
    }

    /// The next byte of the body in storage order, or `None` once every byte
    /// has been delivered. The walk shares its position with [`BitMap::read`]:
    /// a byte that either of them delivered is delivered by neither again,
    /// and a bulk write starts the walk over. The body and its fingerprint
    /// are not touched.
    pub fn next(&mut self) -> (res: Option<u8>)
        ensures
            old(self)@.well_formed(),
            res == old(self)@.next_byte(),
            final(self)@ == old(self)@.after_read(1),
    {
        proof {
            use_type_invariant(&*self);
        }
        if self.cursor < self.body.len() {
            let byte = self.body[self.cursor];
            self.cursor = self.cursor + 1;
            Some(byte)
        } else {
            None
        }
    }

    /// A bitmap of the given dimensions over a copy of `body`, the bytes of
    /// a decoded image.
    ///
    /// A zero-filled bitmap of `width * height` bytes is made first and its
    /// body then replaced, so this fails where [`BitMap::new`] fails. The
    /// length of `body` is not held against the dimensions.
    pub fn from_decoded(width: u32, height: u32, body: &[u8]) -> (res: Result<BitMap, BitMapError>)
        ensures
            match res {
                Ok(bit_map) => width * height <= usize::MAX && bit_map@ == BitMapView::fresh(
                    width as usize,
                    height as usize,
                    body@,
                ),
                Err(BitMapError::DimensionOverflow) => width * height > usize::MAX,
                Err(BitMapError::AllocationFailed) => 0 < width * height <= usize::MAX,
                Err(_) => false,
            },
    {
        match BitMap::new(width as usize, height as usize) {
            Ok(bit_map) => {
                let mut bit_map = bit_map;
                let _ = bit_map.write(body);
                Ok(bit_map)
            },
            Err(e) => Err(e),
        }
    }

    /// A bitmap of the dimensions and the bytes of a decoded image.
    ///
    /// Fails where [`BitMap::new`] fails for the image's dimensions.
    pub fn from_img(img: &image::DynamicImage) -> (res: Result<BitMap, BitMapError>)
        ensures
            match res {
                Ok(bit_map) => image_width(*img) * image_height(*img) <= usize::MAX && bit_map@
                    == BitMapView::fresh(
                    image_width(*img) as usize,
                    image_height(*img) as usize,
                    image_bytes(*img),
                ),
                Err(BitMapError::DimensionOverflow) => image_width(*img) * image_height(*img)
                    > usize::MAX,
                Err(BitMapError::AllocationFailed) => 0 < image_width(*img) * image_height(*img)
                    <= usize::MAX,
                Err(_) => false,
            },
    {
        let body = img.as_bytes();
        BitMap::from_decoded(img.width(), img.height(), body)
    }

    /// An iterator over the bytes of the body, in storage order. Each call
    /// starts a new pass from the first byte.
    pub fn iter(&self) -> (bytes: std::slice::Iter<'_, u8>)
        ensures
            vstd::std_specs::slice::into_iter_elts(bytes) == self@.body,
            bytes.remaining() == self@.body.as_ref(),
            bytes.decrease() is Some,
            bytes.initial_value_relation(&bytes),
    {
        self.body.as_slice().iter()
    }

    /// Sets the width in pixels. The body and its fingerprint are not touched.
    pub fn set_width(&mut self, val: usize) -> (this: &mut Self)
        ensures
            this@ == (BitMapView { width: val, ..old(self)@ }),
            *final(self) == *final(this),
    {
        proof {
            use_type_invariant(&*self);
        }
        self.width = val;
        self
    }

    /// Sets the height in pixels. The body and its fingerprint are not touched.
    pub fn set_height(&mut self, val: usize) -> (this: &mut Self)
        ensures
            this@ == (BitMapView { height: val, ..old(self)@ }),
            *final(self) == *final(this),
    {
        proof {
            use_type_invariant(&*self);
        }
        self.height = val;
        self
    }

    /// The width in pixels.
    pub fn width(&self) -> (width: usize)
        ensures
            width == self@.width,
    {
        self.width
    }

    /// The height in pixels.
    pub fn height(&self) -> (height: usize)
        ensures
            height == self@.height,
    {
        self.height
    }
}

impl<'a> Write<'a> for BitMap {
    /// Replaces the body by a copy of `buf` and recomputes the fingerprint.
    /// Always succeeds and accepts all of `buf`; the dimensions are not
    /// checked against the new length. Reading starts over at the first byte.
    fn write(&mut self, buf: &'a [u8]) -> (res: std::io::Result<usize>)
        ensures
            res matches Ok(n) && n == buf@.len(),
            final(self)@ == old(self)@.written(buf@),
    {
        self.cursor = 0;
        self.body = vstd::slice::slice_to_vec(buf);
        self.hash_update();
        Ok(buf.len())
    }
}

impl Default for BitMap {
    /// The empty bitmap: no pixels, no bytes, and the fingerprint 0, which
    /// is not computed from the empty body.
    fn default() -> (bit_map: BitMap)
        ensures
            bit_map@ == (BitMapView { width: 0, height: 0, hash: 0, body: Seq::empty(), cursor: 0 }),
    {
        BitMap { width: 0, height: 0, hash: 0, body: Vec::new(), cursor: 0 }
    }
}

impl Clone for BitMap {
    fn clone(&self) -> (copy: BitMap)
        ensures
            copy@ == self@,
    {
        proof {
            use_type_invariant(self);
        }
        BitMap {
            width: self.width,
            height: self.height,
            hash: self.hash,
            body: self.body.clone(),
            cursor: self.cursor,
        }
    }
}

impl PartialEq for BitMap {
    /// `==` is [`BitMap::equals`]: equality of fingerprints.
    fn eq(&self, other: &BitMap) -> (equal: bool) {
        self.equals(other)
    }
}

impl PartialEqSpecImpl for BitMap {
    open spec fn obeys_eq_spec() -> bool {
        true
    }

    open spec fn eq_spec(&self, other: &BitMap) -> bool {
        self@.hash == other@.hash
    }
}

impl Eq for BitMap {

}

impl std::ops::Index<usize> for BitMap {
    type Output = u8;

    /// The byte at `index` of the body.
    fn index(&self, index: usize) -> (byte: &u8)
        ensures
            *byte == self@.body[index as int],
    {
        &self.body[index]
    }
}

impl vstd::std_specs::core::IndexSpecImpl<usize> for BitMap {
    open spec fn index_req(&self, index: &usize) -> bool {
        *index < self@.body.len()
    }
}

} // verus!
