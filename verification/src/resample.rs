//! Resizing of images.

use vstd::prelude::*;

verus! {

/// Whether `image::imageops::resize` can bring an image from one size to the other: the pixels of
/// the result fit into memory, and, where it is more than a copy or nothing, so do the
/// floating-point pixels on the way to it, and the filter's floating-point coordinates hold every
/// pixel's number.
pub open spec fn resizable(width: u32, height: u32, new_width: u32, new_height: u32) -> bool {
    &&& 4 * (new_width * new_height) <= isize::MAX
    &&& width == 0 || height == 0 || (width == new_width && height == new_height) || {
        &&& width <= 0x100_0000
        &&& height <= 0x100_0000
        &&& new_width <= 0x100_0000
        &&& new_height <= 0x100_0000
        &&& 16 * (width * new_height) <= isize::MAX
    }
}

/// Whether `image::imageops::resize` can bring an image from one size to the other.
pub fn can_resize(width: u32, height: u32, new_width: u32, new_height: u32) -> (result: bool)
    ensures
        result == resizable(width, height, new_width, new_height),
{
    assert(width * new_height <= 0xffff_ffff * 0xffff_ffff && new_width * new_height <= 0xffff_ffff
        * 0xffff_ffff) by (nonlinear_arith)
        requires
            width <= 0xffff_ffff,
            new_width <= 0xffff_ffff,
            new_height <= 0xffff_ffff,
    ;
    let most: u128 = isize::MAX as u128;
    if 4 * (new_width as u128 * new_height as u128) > most {
        return false;
    }
    if width == 0 || height == 0 || (width == new_width && height == new_height) {
        return true;
    }
    width <= 0x100_0000 && height <= 0x100_0000 && new_width <= 0x100_0000 && new_height
        <= 0x100_0000 && 16 * (width as u128 * new_height as u128) <= most
}

/// Whether `resized` is what `image::imageops::resize` makes of an RGBA image under the Lanczos
/// filter of three lobes. The filter takes sines, whose last bit differs between machines, so
/// more than one outcome is possible.
pub uninterp spec fn lanczos3_outcome(
    rgba: Seq<u8>,
    width: u32,
    height: u32,
    new_width: u32,
    new_height: u32,
    resized: Seq<u8>,
) -> bool;

/// `image::imageops::resize` on RGBA pixels with `FilterType::Lanczos3`: the result has the new
/// size; it is the image itself where that is its size already, and transparent black where the
/// image has no pixels. The other pixels are left open.
#[verifier::external_body]
pub(crate) fn resize_rgba(
    rgba: &[u8],
    width: u32,
    height: u32,
    new_width: u32,
    new_height: u32,
) -> (resized: Vec<u8>)
    requires
        rgba@.len() >= 4 * (width * height),
        resizable(width, height, new_width, new_height),
    ensures
        lanczos3_outcome(rgba@, width, height, new_width, new_height, resized@),
        resized@.len() == 4 * (new_width * new_height),
        width == new_width && height == new_height ==> resized@ == rgba@.take(
            4 * (width * height),
        ),
        width == 0 || height == 0 ==> forall|i: int|
            0 <= i < resized@.len() ==> resized@[i] == 0,
{
    let image = image::ImageBuffer::<image::Rgba<u8>, &[u8]>::from_raw(width, height, rgba);
    let filter = image::imageops::FilterType::Lanczos3;
    image::imageops::resize(&image.unwrap(), new_width, new_height, filter).into_raw()
}

/// Images of up to 8192 pixels on each side can be brought to every such size; what comes out
/// never takes more memory than there can be.
pub proof fn moderate_sizes_can_be_reached(
    width: u32,
    height: u32,
    new_width: u32,
    new_height: u32,
)
    ensures
        width <= 8192 && height <= 8192 && new_width <= 8192 && new_height <= 8192 ==> resizable(
            width,
            height,
            new_width,
            new_height,
        ),
        resizable(width, height, new_width, new_height) ==> 4 * (new_width * new_height)
            <= isize::MAX,
        resizable(width, height, width, height) <==> 4 * (width * height) <= isize::MAX,
{
    if width <= 8192 && height <= 8192 && new_width <= 8192 && new_height <= 8192 {
        assert(new_width * new_height <= 8192 * 8192 && width * new_height <= 8192 * 8192)
            by (nonlinear_arith)
            requires
                width <= 8192,
                new_width <= 8192,
                new_height <= 8192,
        ;
    }
}

} // verus!
