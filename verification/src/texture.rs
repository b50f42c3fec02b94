//! The mathematical model of the stride-remapping export: a packed RGBA body,
//! `4 * width` bytes per row, is copied into a destination whose rows start
//! `pitch` bytes apart and hold three bytes (R, G, B) per pixel.

use crate::error::BitMapError;
use vstd::arithmetic::div_mod::{
    lemma_div_pos_is_pos, lemma_fundamental_div_mod, lemma_fundamental_div_mod_converse,
    lemma_mod_bound,
};
use vstd::prelude::*;

verus! {

/// Whether a body of `body_len` bytes that describes `width * height` RGBA
/// pixels can be exported into a destination of `dest_len` bytes with the
/// given `pitch`: a packed RGB row fits in one destination row, the destination
/// holds `height` such rows, and the body holds every pixel.
pub open spec fn export_fits(
    width: int,
    height: int,
    body_len: int,
    dest_len: int,
    pitch: int,
) -> bool {
    &&& 0 <= width
    &&& 0 <= height
    &&& 3 * width <= pitch
    &&& height * pitch <= dest_len
    &&& 4 * (width * height) <= body_len
}

/// The refusal that an export meets where it does not fit, `None` where it
/// fits. The pitch is held against the width first, then the destination
/// against `height` rows, then the body against the pixel count.
pub open spec fn export_refusal(
    width: int,
    height: int,
    body_len: int,
    dest_len: int,
    pitch: int,
) -> Option<BitMapError> {
    if 3 * width > pitch {
        Some(BitMapError::PitchTooSmall)
    } else if height * pitch > dest_len {
        Some(BitMapError::DestinationTooSmall)
    } else if 4 * (width * height) > body_len {
        Some(BitMapError::SourceTooSmall)
    } else {
        None
    }
}

/// Where channel `c` of pixel `(x, y)` stands in a packed RGBA body of the
/// given width.
pub open spec fn pixel_source(width: int, x: int, y: int, c: int) -> int {
    (y * width + x) * 4 + c
}

/// Where channel `c` of pixel `(x, y)` stands in a destination of the given
/// pitch.
pub open spec fn pixel_target(pitch: int, x: int, y: int, c: int) -> int {
    y * pitch + x * 3 + c
}

/// Whether destination byte `k` carries a channel of a pixel. Byte `k` lies
/// in row `k / pitch`, at `k % pitch` within that row; the first `3 * width`
/// bytes of each of the first `height` rows carry pixels, the other bytes are
/// row padding or lie past the last row.
pub open spec fn carries_pixel(width: int, height: int, pitch: int, k: int) -> bool {
    &&& pitch > 0
    &&& 0 <= k / pitch < height
    &&& 0 <= k % pitch < 3 * width
}

/// The index in the body of the byte that lands on destination byte `k`:
/// channel `(k % pitch) % 3` of pixel `(k % pitch) / 3` in row `k / pitch`.
pub open spec fn source_index(width: int, pitch: int, k: int) -> int {
    let row = k / pitch;
    let at = k % pitch;
    (row * width + at / 3) * 4 + at % 3
}

/// The destination after the export into `dest`: every byte that carries a
/// pixel channel holds its source byte, every other byte holds what `dest`
/// held.
pub open spec fn exported(
    body: Seq<u8>,
    width: int,
    height: int,
    dest: Seq<u8>,
    pitch: int,
) -> Seq<u8> {
    Seq::new(
        dest.len(),
        |k: int|
            if carries_pixel(width, height, pitch, k) {
                body[source_index(width, pitch, k)]
            } else {
                dest[k]
            },
    )
}

/// Whether destination byte `k` has been written once the rows before `rows`
/// and the first `cols` pixels of row `rows` are copied.
pub(crate) open spec fn copied(width: int, rows: int, cols: int, pitch: int, k: int) -> bool {
    let row = k / pitch;
    let at = k % pitch;
    &&& pitch > 0
    &&& 0 <= k
    &&& 0 <= at < 3 * width
    &&& (row < rows || (row == rows && at < 3 * cols))
}

/// The destination after the rows before `rows` and the first `cols` pixels
/// of row `rows` have been copied into `dest`: a step on the way to
/// [`exported`].
pub(crate) open spec fn exported_prefix(
    body: Seq<u8>,
    width: int,
    rows: int,
    cols: int,
    dest: Seq<u8>,
    pitch: int,
) -> Seq<u8> {
    Seq::new(
        dest.len(),
        |k: int|
            if copied(width, rows, cols, pitch, k) {
                body[source_index(width, pitch, k)]
            } else {
                dest[k]
            },
    )
}

/// Row and column of a destination byte: for `k >= 0` and `pitch > 0`,
/// `k == (k / pitch) * pitch + k % pitch` with `0 <= k % pitch < pitch` and
/// `k / pitch >= 0`.
proof fn lemma_row_and_offset(k: int, pitch: int)
    requires
        0 <= k,
        0 < pitch,
    ensures
        k == (k / pitch) * pitch + k % pitch,
        0 <= k % pitch < pitch,
        0 <= k / pitch,
{
    lemma_fundamental_div_mod(k, pitch);
    lemma_mod_bound(k, pitch);
    lemma_div_pos_is_pos(k, pitch);
    assert(pitch * (k / pitch) == (k / pitch) * pitch) by (nonlinear_arith);
}

/// Where channel `c` of pixel `(x, y)` is read and written: both indices are
/// in range, and the destination byte lies in row `y` at `3 * x + c`.
pub(crate) proof fn lemma_pixel_in_range(
    width: int,
    height: int,
    body_len: int,
    dest_len: int,
    pitch: int,
    x: int,
    y: int,
    c: int,
)
    requires
        export_fits(width, height, body_len, dest_len, pitch),
        0 <= x < width,
        0 <= y < height,
        0 <= c < 3,
    ensures
        0 <= y * width,
        0 <= y * pitch,
        y * width + x < width * height,
        (y * width + x) * 4 + c < body_len,
        y * pitch + x * 3 + c < dest_len,
        pitch > 0,
        (y * pitch + x * 3 + c) / pitch == y,
        (y * pitch + x * 3 + c) % pitch == x * 3 + c,
        source_index(width, pitch, y * pitch + x * 3 + c) == (y * width + x) * 4 + c,
{
    assert(y * width + width <= width * height) by (nonlinear_arith)
        requires
            0 <= y < height,
            0 <= width,
            0 <= pitch,
    ;
    assert(y * pitch + pitch <= height * pitch) by (nonlinear_arith)
        requires
            0 <= y < height,
            0 <= width,
            0 <= pitch,
    ;
    assert(0 <= y * width && 0 <= y * pitch) by (nonlinear_arith)
        requires
            0 <= y,
            0 <= width,
            0 <= pitch,
    ;
    let k = y * pitch + x * 3 + c;
    lemma_fundamental_div_mod_converse(k, pitch, y, x * 3 + c);
}

/// Copying channel bytes `0..3` of pixel `(x, y)` extends the copied prefix
/// by one pixel.
pub(crate) proof fn lemma_copy_pixel(
    body: Seq<u8>,
    width: int,
    height: int,
    dest: Seq<u8>,
    pitch: int,
    x: int,
    y: int,
)
    requires
        export_fits(width, height, body.len() as int, dest.len() as int, pitch),
        0 <= x < width,
        0 <= y < height,
    ensures
        ({
            let before = exported_prefix(body, width, y, x, dest, pitch);
            let i = (y * width + x) * 4;
            let offset = y * pitch + x * 3;
            before.update(offset, body[i]).update(offset + 1, body[i + 1]).update(
                offset + 2,
                body[i + 2],
            ) == exported_prefix(body, width, y, x + 1, dest, pitch)
        }),
{
    let before = exported_prefix(body, width, y, x, dest, pitch);
    let after = exported_prefix(body, width, y, x + 1, dest, pitch);
    let i = (y * width + x) * 4;
    let offset = y * pitch + x * 3;
    let written = before.update(offset, body[i]).update(offset + 1, body[i + 1]).update(
        offset + 2,
        body[i + 2],
    );
    lemma_pixel_in_range(width, height, body.len() as int, dest.len() as int, pitch, x, y, 0);
    lemma_pixel_in_range(width, height, body.len() as int, dest.len() as int, pitch, x, y, 1);
    lemma_pixel_in_range(width, height, body.len() as int, dest.len() as int, pitch, x, y, 2);
    assert forall|k: int| 0 <= k < dest.len() implies written[k] == after[k] by {
        lemma_row_and_offset(k, pitch);
        if offset <= k < offset + 3 {
            assert(copied(width, y, x + 1, pitch, k));
        } else {
            assert(copied(width, y, x + 1, pitch, k) == copied(width, y, x, pitch, k));
        }
    }
    assert(written =~= after);
}

/// A row whose `width` pixels are all copied is a finished row.
pub(crate) proof fn lemma_row_copied(body: Seq<u8>, width: int, dest: Seq<u8>, pitch: int, y: int)
    ensures
        exported_prefix(body, width, y, width, dest, pitch) == exported_prefix(
            body,
            width,
            y + 1,
            0,
            dest,
            pitch,
        ),
{
    let full = exported_prefix(body, width, y, width, dest, pitch);
    let next = exported_prefix(body, width, y + 1, 0, dest, pitch);
    assert forall|k: int| 0 <= k < dest.len() implies full[k] == next[k] by {
        if pitch > 0 {
            lemma_row_and_offset(k, pitch);
        }
    }
    assert(full =~= next);
}

/// Before anything is copied the destination is as it was.
pub(crate) proof fn lemma_nothing_copied(body: Seq<u8>, width: int, dest: Seq<u8>, pitch: int)
    ensures
        exported_prefix(body, width, 0, 0, dest, pitch) == dest,
{
    let start = exported_prefix(body, width, 0, 0, dest, pitch);
    assert forall|k: int| 0 <= k < dest.len() implies start[k] == dest[k] by {
        if pitch > 0 {
            lemma_row_and_offset(k, pitch);
        }
    }
    assert(start =~= dest);
}

/// Once all `height` rows are copied the export is done.
pub(crate) proof fn lemma_all_copied(
    body: Seq<u8>,
    width: int,
    height: int,
    dest: Seq<u8>,
    pitch: int,
)
    ensures
        exported_prefix(body, width, height, 0, dest, pitch) == exported(
            body,
            width,
            height,
            dest,
            pitch,
        ),
{
    let copied_rows = exported_prefix(body, width, height, 0, dest, pitch);
    let done = exported(body, width, height, dest, pitch);
    assert forall|k: int| 0 <= k < dest.len() implies copied_rows[k] == done[k] by {
        if pitch > 0 {
            lemma_row_and_offset(k, pitch);
        }
    }
    assert(copied_rows =~= done);
}

/// The export pixel by pixel: channel `c` of pixel `(x, y)` lands at
/// `y * pitch + 3 * x + c`, and alpha is never copied.
pub proof fn lemma_exported_pixel(
    body: Seq<u8>,
    width: int,
    height: int,
    dest: Seq<u8>,
    pitch: int,
    x: int,
    y: int,
    c: int,
)
    requires
        export_fits(width, height, body.len() as int, dest.len() as int, pitch),
        0 <= x < width,
        0 <= y < height,
        0 <= c < 3,
    ensures
        0 <= pixel_target(pitch, x, y, c) < dest.len(),
        0 <= pixel_source(width, x, y, c) < body.len(),
        exported(body, width, height, dest, pitch)[pixel_target(pitch, x, y, c)]
            == body[pixel_source(width, x, y, c)],
{
    lemma_pixel_in_range(width, height, body.len() as int, dest.len() as int, pitch, x, y, c);
    assert(carries_pixel(width, height, pitch, y * pitch + x * 3 + c));
}

} // verus!
