//! What the library takes from a decoded image of the `image` crate: its
//! width, its height and its sample bytes. The image itself stays opaque.

use vstd::prelude::*;

verus! {

/// `image::DynamicImage`, taken as an opaque value: nothing of what it holds
/// is visible here but through the three names below.
#[verifier::external_type_specification]
#[verifier::external_body]
pub struct ExDynamicImage(image::DynamicImage);

/// The width in pixels that `image::DynamicImage::width` reports for `img`.
pub uninterp spec fn image_width(img: image::DynamicImage) -> u32;

/// The height in pixels that `image::DynamicImage::height` reports for `img`.
pub uninterp spec fn image_height(img: image::DynamicImage) -> u32;

/// The sample bytes of `img`, in storage order, as
/// `image::DynamicImage::as_bytes` exposes them. Samples wider than a byte
/// stand in the byte order of the machine.
pub uninterp spec fn image_bytes(img: image::DynamicImage) -> Seq<u8>;

/// `image::DynamicImage::width` returns the width of the underlying buffer.
/// Nothing is proved of it: the contract only gives the result its name.
pub assume_specification[ image::DynamicImage::width ](img: &image::DynamicImage) -> (width: u32)
    ensures
        width == image_width(*img),
;

/// `image::DynamicImage::height` returns the height of the underlying buffer.
/// Nothing is proved of it: the contract only gives the result its name.
pub assume_specification[ image::DynamicImage::height ](img: &image::DynamicImage) -> (height: u32)
    ensures
        height == image_height(*img),
;

/// `image::DynamicImage::as_bytes` borrows the image's samples as one byte
/// slice. Nothing is proved of it: the contract only gives the bytes their
/// name.
pub assume_specification[ image::DynamicImage::as_bytes ](img: &image::DynamicImage) -> (bytes:
    &[u8])
    ensures
        bytes@ == image_bytes(*img),
;

} // verus!
