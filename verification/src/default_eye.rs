//! The picture that is shown where no other is chosen.

use vstd::prelude::*;

use crate::image_asset::{
    decode, images_have_whole_frames, is_pixel_image, DecodedImage, ImageAssetError, MAX_DIMENSION,
};
use crate::resample::{lanczos3_outcome, resizable, resize_rgba};

verus! {

/// An open eye, as a PNG file.
pub const DEFAULT_EYE_BYTES: [u8; 649] = [
    137, 80, 78, 71, 13, 10, 26, 10, 0, 0, 0, 13, 73, 72, 68, 82, 0, 0, 0, 160, 0, 0, 0, 80,
    4, 3, 0, 0, 0, 108, 115, 99, 7, 0, 0, 0, 24, 80, 76, 84, 69, 0, 0, 0, 40, 40, 52, 250,
    250, 252, 62, 132, 190, 32, 84, 140, 14, 14, 20, 255, 255, 255, 40, 40, 52, 60, 245,
    193, 239, 0, 0, 0, 8, 116, 82, 78, 83, 0, 255, 255, 255, 255, 255, 255, 128, 21, 112,
    56, 159, 0, 0, 2, 24, 73, 68, 65, 84, 120, 218, 197, 153, 75, 146, 130, 48, 20, 69, 157,
    49, 134, 137, 99, 82, 238, 0, 237, 5, 40, 59, 176, 178, 132, 102, 140, 35, 182, 223, 4,
    147, 128, 228, 190, 36, 224, 165, 250, 141, 44, 171, 56, 117, 46, 137, 249, 60, 79, 167,
    127, 168, 193, 23, 1, 86, 24, 78, 105, 203, 124, 238, 191, 117, 43, 87, 245, 133, 103,
    17, 210, 28, 179, 223, 103, 103, 159, 175, 148, 175, 218, 35, 119, 232, 189, 166, 71,
    85, 80, 211, 215, 231, 173, 146, 86, 79, 193, 218, 33, 249, 214, 83, 98, 189, 37, 55,
    196, 141, 227, 28, 50, 55, 246, 196, 171, 84, 162, 234, 108, 98, 30, 47, 159, 88, 188,
    64, 220, 75, 59, 214, 29, 196, 62, 247, 89, 126, 8, 135, 144, 25, 142, 136, 215, 46,
    106, 51, 81, 224, 61, 154, 177, 174, 2, 113, 35, 239, 98, 113, 22, 121, 223, 68, 52,
    243, 57, 194, 19, 136, 242, 12, 47, 66, 158, 250, 224, 77, 196, 112, 172, 165, 161, 54,
    188, 42, 20, 108, 62, 42, 84, 172, 69, 226, 0, 230, 243, 154, 103, 136, 96, 134, 15,
    130, 96, 21, 78, 232, 199, 26, 120, 13, 39, 120, 13, 21, 209, 11, 4, 130, 72, 17, 191,
    70, 20, 24, 8, 10, 138, 97, 104, 20, 120, 4, 54, 160, 66, 32, 10, 61, 160, 5, 176, 197,
    192, 22, 45, 143, 43, 197, 162, 132, 130, 15, 4, 188, 66, 197, 178, 79, 6, 22, 18, 195,
    204, 235, 208, 48, 176, 79, 220, 117, 205, 77, 235, 103, 52, 243, 103, 104, 44, 168,
    108, 226, 159, 174, 251, 213, 166, 230, 204, 42, 161, 136, 5, 29, 176, 27, 107, 2, 62,
    99, 192, 165, 162, 32, 120, 241, 137, 45, 80, 199, 94, 226, 82, 81, 16, 12, 129, 207,
    24, 112, 86, 20, 4, 1, 80, 71, 129, 94, 177, 16, 54, 117, 7, 244, 131, 226, 21, 49, 80,
    185, 185, 40, 8, 186, 49, 105, 110, 94, 208, 1, 241, 168, 24, 197, 152, 224, 12, 212,
    58, 15, 104, 21, 7, 233, 152, 224, 128, 122, 81, 113, 96, 109, 134, 101, 28, 18, 197, 2,
    42, 51, 44, 162, 224, 30, 160, 81, 164, 3, 233, 145, 233, 131, 194, 159, 54, 233, 137,
    157, 11, 180, 19, 59, 249, 211, 11, 129, 137, 159, 94, 106, 113, 104, 214, 175, 48, 181,
    56, 164, 150, 175, 89, 49, 115, 249, 74, 45, 176, 179, 98, 238, 2, 155, 216, 2, 188, 98,
    246, 22, 144, 216, 164, 188, 98, 254, 38, 149, 216, 70, 223, 142, 91, 182, 81, 254, 70,
    79, 63, 138, 240, 15, 75, 252, 227, 28, 253, 192, 201, 63, 18, 211, 15, 237, 252, 107,
    5, 255, 226, 67, 191, 154, 241, 47, 143, 252, 235, 45, 255, 2, 206, 111, 17, 208, 155,
    24, 252, 54, 11, 191, 17, 196, 111, 85, 241, 155, 105, 252, 118, 223, 1, 13, 73, 126,
    203, 148, 223, 212, 61, 160, 237, 204, 111, 140, 31, 209, 186, 63, 224, 207, 133, 205,
    245, 7, 112, 101, 239, 179, 13, 228, 9, 127, 0, 0, 0, 0, 73, 69, 78, 68, 174, 66, 96,
    130,
];

/// The contents of the built-in picture.
pub closed spec fn default_eye() -> Seq<u8> {
    DEFAULT_EYE_BYTES@
}

/// Reads the built-in picture.
pub fn load_default() -> (result: Result<DecodedImage, ImageAssetError>)
    ensures
        is_pixel_image(result, default_eye()),
{
    let eye = DEFAULT_EYE_BYTES;
    decode(eye.as_slice())
}

/// Whether pixels are an icon of an image: its first frame, made a square.
pub open spec fn is_icon(image: DecodedImage, side: u32, rgba: Seq<u8>) -> bool {
    let (width, height) = image.dimensions();
    let frame = image.frames()[0].0;
    &&& lanczos3_outcome(frame, width, height, side, side, rgba)
    &&& rgba.len() == 4 * (side * side)
    &&& width == side && height == side ==> rgba == frame
}

/// The icon of an image: its first frame, made a square.
pub fn icon_of(image: &DecodedImage, side: u32) -> (rgba: Vec<u8>)
    requires
        image.wf(),
        image.has_whole_frames(),
        resizable(image.dimensions().0, image.dimensions().1, side, side),
    ensures
        is_icon(*image, side, rgba@),
{
    let (width, height) = image.width_and_height();
    let frame = image.frame_or_first(0);
    let rgba = resize_rgba(&frame.rgba, width, height, side, side);
    proof {
        let whole = frame.rgba@;
        assert(image.frames()[0].0 == whole);
        assert(whole.take(whole.len() as int) =~= whole);
    }
    rgba
}

/// The icon of the program: the built-in picture, made a square.
pub fn bundled_icon(side: u32) -> (result: Result<Vec<u8>, ImageAssetError>)
    requires
        side <= MAX_DIMENSION,
    ensures
        exists|eye: Result<DecodedImage, ImageAssetError>|
            #[trigger] is_pixel_image(eye, default_eye()) && match eye {
                Ok(image) => result matches Ok(rgba) && is_icon(image, side, rgba@),
                Err(error) => result == Err::<Vec<u8>, ImageAssetError>(error),
            },
{
    let eye = load_default();
    assert(is_pixel_image(eye, default_eye()));
    match eye {
        Ok(image) => {
            proof {
                images_have_whole_frames(image, default_eye());
                let (width, height) = image.dimensions();
                assert(width * side <= 4096 * 4096 && side * side <= 4096 * 4096)
                    by (nonlinear_arith)
                    requires
                        width <= 4096,
                        side <= 4096,
                ;
            }
            Ok(icon_of(&image, side))
        },
        Err(error) => Err(error),
    }
}

} // verus!
