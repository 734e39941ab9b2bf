//! Images that the overlay shows: still pictures, animations and drawings.

use std::io::{BufReader, Cursor};
use std::path::Path;
use std::sync::Arc;

use image::{AnimationDecoder, ImageDecoder};
use vstd::prelude::*;
use vstd::string::*;

use crate::binary_float::Single;
pub use crate::default_eye::{bundled_icon, load_default, DEFAULT_EYE_BYTES};
use crate::linux::{path_text, text_of_path};
use crate::plain_svg::{is_plain_svg, plain_svg};
use crate::text::{case_does_not_count, same_but_for_ascii_case};
use crate::time::{Duration, MAX_NANOS, NANOS_PER_MILLI};

verus! {

/// The largest image file.
pub const MAX_FILE_SIZE: u64 = 33_554_432;

/// The largest SVG document.
pub const MAX_SVG_FILE_SIZE: usize = 2_097_152;

/// The largest width and height of an image.
pub const MAX_DIMENSION: u32 = 4_096;

/// The most bytes that the pixels of all frames may take.
pub const MAX_DECODED_BYTES: usize = 67_108_864;

/// The most frames of an animation.
pub const MAX_GIF_FRAMES: usize = 300;

/// The longest cycle of an animation, in milliseconds.
pub const MAX_GIF_MILLIS: u64 = 300_000;

/// The shortest time that a frame is shown, in milliseconds.
pub const MIN_FRAME_MILLIS: u64 = 50;

/// The longest time that a frame is shown, in milliseconds.
pub const MAX_FRAME_MILLIS: u64 = 60_000;

/// The error that the `image` crate reports.
#[verifier::external_type_specification]
#[verifier::external_body]
pub struct ExImageError(image::ImageError);

/// The frames of an animation, as `image::AnimationDecoder` hands them out.
#[verifier::external_type_specification]
#[verifier::external_body]
pub struct ExFrames<'a>(image::Frames<'a>);

/// One frame of an animation.
#[verifier::external_type_specification]
#[verifier::external_body]
pub struct ExFrame(image::Frame);

/// An SVG document after parsing.
#[verifier::external_type_specification]
#[verifier::external_body]
pub struct ExTree(resvg::usvg::Tree);

/// Why an image cannot be used.
#[derive(Debug)]
pub enum ImageAssetError {
    TooLarge,
    SvgTooLarge,
    DimensionsTooLarge,
    DecodedDataTooLarge,
    TooManyFrames,
    AnimationTooLong,
    EmptyAnimation,
    FrameDimensionsMismatch,
    SvgParse(String),
    SvgRasterAllocation,
    Decode(image::ImageError),
}

/// An `ImageAssetError` without what it carries.
pub ghost enum ImageFault {
    TooLarge,
    SvgTooLarge,
    DimensionsTooLarge,
    DecodedDataTooLarge,
    TooManyFrames,
    AnimationTooLong,
    EmptyAnimation,
    FrameDimensionsMismatch,
    SvgParse,
    SvgRasterAllocation,
    Decode,
}

impl ImageAssetError {
    /// The error without what it carries.
    pub open spec fn fault(self) -> ImageFault {
        match self {
            ImageAssetError::TooLarge => ImageFault::TooLarge,
            ImageAssetError::SvgTooLarge => ImageFault::SvgTooLarge,
            ImageAssetError::DimensionsTooLarge => ImageFault::DimensionsTooLarge,
            ImageAssetError::DecodedDataTooLarge => ImageFault::DecodedDataTooLarge,
            ImageAssetError::TooManyFrames => ImageFault::TooManyFrames,
            ImageAssetError::AnimationTooLong => ImageFault::AnimationTooLong,
            ImageAssetError::EmptyAnimation => ImageFault::EmptyAnimation,
            ImageAssetError::FrameDimensionsMismatch => ImageFault::FrameDimensionsMismatch,
            ImageAssetError::SvgParse(_) => ImageFault::SvgParse,
            ImageAssetError::SvgRasterAllocation => ImageFault::SvgRasterAllocation,
            ImageAssetError::Decode(_) => ImageFault::Decode,
        }
    }

    /// Whether this is what a user reads of the error.
    pub open spec fn reads(self, text: Seq<char>) -> bool {
        match self {
            ImageAssetError::TooLarge => text == "image file is larger than 32 MiB"@,
            ImageAssetError::SvgTooLarge => text == "SVG document is larger than 2 MiB"@,
            ImageAssetError::DimensionsTooLarge => text
                == "image dimensions exceed 4096 x 4096"@,
            ImageAssetError::DecodedDataTooLarge => text == "decoded image data exceeds 64 MiB"@,
            ImageAssetError::TooManyFrames => text == "GIF contains more than 300 frames"@,
            ImageAssetError::AnimationTooLong => text
                == "GIF animation cycle is longer than 5 minutes"@,
            ImageAssetError::EmptyAnimation => text == "GIF contains no frames"@,
            ImageAssetError::FrameDimensionsMismatch => text
                == "GIF frame dimensions do not match its canvas"@,
            ImageAssetError::SvgParse(message) => text == "failed to parse SVG image: "@
                + message@,
            ImageAssetError::SvgRasterAllocation => text
                == "failed to allocate the SVG raster image"@,
            ImageAssetError::Decode(error) => exists|cause: Seq<char>|
                #[trigger] image_error_text(error, cause) && text
                    == "failed to decode PNG, JPEG, WebP, or GIF image: "@ + cause,
        }
    }

    /// What a user reads of the error.
    pub fn message(&self) -> (text: String)
        ensures
            self.reads(text@),
    {
        match self {
            ImageAssetError::TooLarge => "image file is larger than 32 MiB".to_owned(),
            ImageAssetError::SvgTooLarge => "SVG document is larger than 2 MiB".to_owned(),
            ImageAssetError::DimensionsTooLarge => "image dimensions exceed 4096 x 4096".to_owned(),
            ImageAssetError::DecodedDataTooLarge => "decoded image data exceeds 64 MiB".to_owned(),
            ImageAssetError::TooManyFrames => "GIF contains more than 300 frames".to_owned(),
            ImageAssetError::AnimationTooLong => {
                "GIF animation cycle is longer than 5 minutes".to_owned()
            },
            ImageAssetError::EmptyAnimation => "GIF contains no frames".to_owned(),
            ImageAssetError::FrameDimensionsMismatch => {
                "GIF frame dimensions do not match its canvas".to_owned()
            },
            ImageAssetError::SvgParse(message) => {
                let mut text = "failed to parse SVG image: ".to_owned();
                text.append(message.as_str());
                text
            },
            ImageAssetError::SvgRasterAllocation => {
                "failed to allocate the SVG raster image".to_owned()
            },
            ImageAssetError::Decode(error) => {
                let cause = text_of_image_error(error);
                let mut text = "failed to decode PNG, JPEG, WebP, or GIF image: ".to_owned();
                text.append(cause.as_str());
                assert(image_error_text(*error, cause@));
                text
            },
        }
    }
}

/// Whether an error of the `image` crate can have this text. One that came from the operating
/// system may be in the user's language.
pub uninterp spec fn image_error_text(error: image::ImageError, text: Seq<char>) -> bool;

/// `ToString::to_string` on an `image::ImageError`. What the text is is left open.
#[verifier::external_body]
fn text_of_image_error(error: &image::ImageError) -> (text: String)
    ensures
        image_error_text(*error, text@),
{
    error.to_string()
}

/// One picture of an image, and how long it is shown in an animation.
#[derive(Debug, Clone)]
pub struct DecodedFrame {
    pub rgba: Arc<[u8]>,
    pub duration: Duration,
}

/// A frame's pixels, and its duration in nanoseconds.
impl View for DecodedFrame {
    type V = (Seq<u8>, nat);

    open spec fn view(&self) -> (Seq<u8>, nat) {
        (self.rgba@, self.duration@)
    }
}

/// An image that is ready to be shown.
#[derive(Debug, Clone)]
pub struct DecodedImage {
    pub size: [u32; 2],
    frames: Vec<DecodedFrame>,
    cycle_duration: Duration,
}

/// The views of frames.
pub open spec fn frame_views(frames: Seq<DecodedFrame>) -> Seq<(Seq<u8>, nat)> {
    Seq::new(frames.len(), |i: int| frames[i]@)
}

/// Whether every frame has four bytes for each pixel of an image.
pub open spec fn whole_frames(frames: Seq<(Seq<u8>, nat)>, size: (u32, u32)) -> bool {
    forall|i: int|
        0 <= i < frames.len() ==> (#[trigger] frames[i]).0.len() == 4 * (size.0 * size.1)
}

/// How long all frames are shown together, in nanoseconds.
pub open spec fn cycle(frames: Seq<(Seq<u8>, nat)>) -> nat
    decreases frames.len(),
{
    if frames.len() == 0 {
        0
    } else {
        cycle(frames.drop_last()) + frames.last().1
    }
}

/// How many bytes the pixels of all frames take.
pub open spec fn pixel_bytes(frames: Seq<(Seq<u8>, nat)>) -> nat
    decreases frames.len(),
{
    if frames.len() == 0 {
        0
    } else {
        pixel_bytes(frames.drop_last()) + frames.last().0.len()
    }
}

/// The whole milliseconds from the start of a cycle to the start of its frame `i`.
pub open spec fn start_of(frames: Seq<(Seq<u8>, nat)>, i: int) -> nat
    decreases i,
{
    if i <= 0 {
        0
    } else {
        start_of(frames, i - 1) + frames[i - 1].1 / (NANOS_PER_MILLI as nat)
    }
}

/// Whether frame `i` is shown `position` milliseconds after the start of a cycle.
pub open spec fn shows(frames: Seq<(Seq<u8>, nat)>, position: nat, i: int) -> bool {
    &&& 0 <= i < frames.len()
    &&& start_of(frames, i) <= position < start_of(frames, i + 1)
}

/// How far into its cycle an animation is, in milliseconds.
pub open spec fn position_in_cycle(frames: Seq<(Seq<u8>, nat)>, elapsed: nat) -> nat {
    (elapsed / (NANOS_PER_MILLI as nat)) % (cycle(frames) / (NANOS_PER_MILLI as nat))
}

/// What is shown at a time: a frame, and the nanoseconds until the next one.
pub open spec fn frame_shown_at(
    frames: Seq<(Seq<u8>, nat)>,
    elapsed: nat,
    shown: (int, nat),
) -> bool {
    let position = position_in_cycle(frames, elapsed);
    if frames.len() <= 1 || cycle(frames) == 0 {
        shown == (0int, MAX_NANOS as nat)
    } else if exists|i: int| shows(frames, position, i) {
        &&& shows(frames, position, shown.0)
        &&& shown.1 == ((start_of(frames, shown.0 + 1) - position) as nat
            % 0x1_0000_0000_0000_0000) * NANOS_PER_MILLI
    } else {
        shown == (0int, frames[0].1)
    }
}

proof fn lemma_cycle_grows(frames: Seq<(Seq<u8>, nat)>, i: int)
    requires
        0 <= i <= frames.len(),
    ensures
        cycle(frames.take(i)) <= cycle(frames),
        pixel_bytes(frames.take(i)) <= pixel_bytes(frames),
    decreases frames.len(),
{
    if i < frames.len() {
        assert(frames.drop_last().take(i) =~= frames.take(i));
        lemma_cycle_grows(frames.drop_last(), i);
    } else {
        assert(frames.take(i) =~= frames);
    }
}

proof fn lemma_starts_grow(frames: Seq<(Seq<u8>, nat)>, i: int, j: int)
    requires
        0 <= i <= j,
    ensures
        start_of(frames, i) <= start_of(frames, j),
    decreases j,
{
    if i < j {
        lemma_starts_grow(frames, i, j - 1);
    }
}

impl DecodedImage {
    /// The frames' pixels and durations.
    pub closed spec fn frames(self) -> Seq<(Seq<u8>, nat)> {
        frame_views(self.frames@)
    }

    /// The image's width and height.
    pub closed spec fn dimensions(self) -> (u32, u32) {
        (self.size[0], self.size[1])
    }

    /// An image has a frame, its first frame has as many pixels as the image, and the cycle is
    /// as long as all frames.
    pub closed spec fn wf(self) -> bool {
        &&& self.frames@.len() > 0
        &&& self.frames@[0].rgba@.len() == 4 * (self.size[0] * self.size[1])
        &&& self.cycle_duration@ == cycle(self.frames())
    }

    /// Whether every frame has four bytes for each pixel of the image.
    pub open spec fn has_whole_frames(self) -> bool {
        whole_frames(self.frames(), self.dimensions())
    }

    /// Whether time can be measured against the cycle: it is empty or lasts a millisecond.
    pub open spec fn playable(self) -> bool {
        self.frames().len() > 1 && cycle(self.frames()) > 0 ==> cycle(self.frames())
            >= NANOS_PER_MILLI
    }

    /// The image's width and height.
    pub fn width_and_height(&self) -> (result: (u32, u32))
        ensures
            result == self.dimensions(),
    {
        (self.size[0], self.size[1])
    }

    /// Whether the image has more than one frame.
    pub fn is_animated(&self) -> (result: bool)
        ensures
            result == (self.frames().len() > 1),
    {
        self.frames.len() > 1
    }

    /// The frame with a number, or the first frame where there is none.
    pub fn frame_or_first(&self, index: usize) -> (frame: &DecodedFrame)
        requires
            self.wf(),
        ensures
            self.frames().len() > 0,
            frame@ == if index < self.frames().len() {
                self.frames()[index as int]
            } else {
                self.frames()[0]
            },
    {
        if index < self.frames.len() {
            &self.frames[index]
        } else {
            &self.frames[0]
        }
    }

    /// The frame that is shown some time after the animation started, and how long it stays.
    pub fn frame_at(&self, elapsed: Duration) -> (result: (usize, Duration))
        requires
            self.wf(),
            self.playable(),
        ensures
            frame_shown_at(self.frames(), elapsed@, (result.0 as int, result.1@)),
    {
        if !self.is_animated() || self.cycle_duration.is_zero() {
            return (0, Duration::longest());
        }
        let ghost frames = self.frames();
        proof {
            assert(cycle(frames) / (NANOS_PER_MILLI as nat) >= 1);
        }
        let start: u128 = elapsed.as_millis() % self.cycle_duration.as_millis();
        let mut position: u128 = start;
        let mut index: usize = 0;
        while index < self.frames.len()
            invariant
                self.wf(),
                frames == self.frames(),
                frames.len() > 1,
                cycle(frames) > 0,
                index <= frames.len(),
                start == position_in_cycle(frames, elapsed@),
                start == start_of(frames, index as int) + position,
            decreases frames.len() - index,
        {
            let duration: u128 = self.frames[index].duration.as_millis();
            proof {
                assert(frames[index as int].1 == self.frames@[index as int].duration@);
                assert(start_of(frames, index + 1) == start_of(frames, index as int) + duration);
            }
            if position < duration {
                let rest: u64 = ((duration - position) % 0x1_0000_0000_0000_0000) as u64;
                proof {
                    assert(shows(frames, start as nat, index as int));
                }
                return (index, Duration::from_millis(rest));
            }
            position -= duration;
            index += 1;
        }
        proof {
            assert forall|i: int| !shows(frames, start as nat, i) by {
                if 0 <= i < frames.len() {
                    lemma_starts_grow(frames, i + 1, frames.len() as int);
                }
            }
        }
        (0, self.frames[0].duration)
    }
}

/// `Arc::from` on a vector: the same bytes, in shared memory.
#[verifier::external_body]
fn share(bytes: Vec<u8>) -> (shared: Arc<[u8]>)
    ensures
        shared@ == bytes@,
{
    Arc::from(bytes)
}

/// Why an image of this size cannot be used, if it cannot.
pub open spec fn dimension_fault(width: u32, height: u32) -> Option<ImageFault> {
    if 0 < width <= MAX_DIMENSION && 0 < height <= MAX_DIMENSION {
        None
    } else {
        Some(ImageFault::DimensionsTooLarge)
    }
}

/// Checks that an image is neither empty nor too large.
pub fn validate_dimensions(width: u32, height: u32) -> (result: Result<(), ImageAssetError>)
    ensures
        match result {
            Ok(_) => dimension_fault(width, height) is None,
            Err(error) => dimension_fault(width, height) == Some(error.fault()),
        },
{
    if width == 0 || height == 0 || width > MAX_DIMENSION || height > MAX_DIMENSION {
        return Err(ImageAssetError::DimensionsTooLarge);
    }
    proof {
        assert(width * height <= 4096 * 4096) by (nonlinear_arith)
            requires
                width <= 4096,
                height <= 4096,
        ;
    }
    let decoded_bytes: u64 = width as u64 * height as u64 * 4;
    if decoded_bytes > MAX_DECODED_BYTES as u64 {
        return Err(ImageAssetError::DecodedDataTooLarge);
    }
    Ok(())
}

/// What a decoder may spend on one image.
#[derive(Debug, Clone, Copy, PartialEq, Eq, Structural)]
pub struct DecodingLimits {
    pub max_width: u32,
    pub max_height: u32,
    pub max_alloc: u64,
}

/// What a decoder may spend on one image.
pub open spec fn limits() -> DecodingLimits {
    DecodingLimits {
        max_width: MAX_DIMENSION,
        max_height: MAX_DIMENSION,
        max_alloc: MAX_DECODED_BYTES as u64,
    }
}

/// What a decoder may spend on one image.
pub fn decoding_limits() -> (result: DecodingLimits)
    ensures
        result == limits(),
{
    DecodingLimits {
        max_width: MAX_DIMENSION,
        max_height: MAX_DIMENSION,
        max_alloc: MAX_DECODED_BYTES as u64,
    }
}

/// An image of frames that were all decoded.
pub fn decoded_image_from_frames(size: [u32; 2], frames: Vec<DecodedFrame>) -> (result: Result<
    DecodedImage,
    ImageAssetError,
>)
    requires
        frames@.len() > 0 ==> frames@[0].rgba@.len() == 4 * (size[0] * size[1]),
        cycle(frame_views(frames@)) <= MAX_NANOS,
    ensures
        match result {
            Ok(image) => frames@.len() > 0 && image.wf() && image.dimensions() == (size[0], size[1])
                && image.frames() == frame_views(frames@),
            Err(error) => frames@.len() == 0 && error.fault() == ImageFault::EmptyAnimation,
        },
{
    if frames.len() == 0 {
        return Err(ImageAssetError::EmptyAnimation);
    }
    let ghost views = frame_views(frames@);
    let mut total = Duration::zero();
    let mut i: usize = 0;
    while i < frames.len()
        invariant
            i <= frames@.len(),
            views == frame_views(frames@),
            total@ == cycle(views.take(i as int)),
            cycle(views) <= MAX_NANOS,
        decreases frames@.len() - i,
    {
        proof {
            assert(views.take(i + 1).drop_last() =~= views.take(i as int));
            lemma_cycle_grows(views, i + 1);
        }
        total = total.plus(frames[i].duration);
        i += 1;
    }
    proof {
        assert(views.take(i as int) =~= views);
    }
    Ok(DecodedImage { size, frames, cycle_duration: total })
}

/// An image of one frame.
pub open spec fn is_still(image: DecodedImage, width: u32, height: u32, rgba: Seq<u8>) -> bool {
    &&& image.wf()
    &&& image.playable()
    &&& image.has_whole_frames()
    &&& image.dimensions() == (width, height)
    &&& image.frames() == seq![(rgba, 0nat)]
}

fn still_image(width: u32, height: u32, rgba: Vec<u8>) -> (result: Result<
    DecodedImage,
    ImageAssetError,
>)
    requires
        rgba@.len() == 4 * (width * height),
    ensures
        result matches Ok(image) && is_still(image, width, height, rgba@),
{
    let ghost pixels = rgba@;
    let frame = DecodedFrame { rgba: share(rgba), duration: Duration::zero() };
    let frames = vec![frame];
    proof {
        assert(frame_views(frames@) =~= seq![(pixels, 0nat)]);
        assert(frame_views(frames@).drop_last() =~= Seq::empty());
        assert(cycle(frame_views(frames@).drop_last()) == 0);
    }
    let size = [width, height];
    proof {
        assert(size[0] == width && size[1] == height);
    }
    decoded_image_from_frames(size, frames)
}

/// The image of a decoded picture, if its size is in range.
pub fn picture(width: u32, height: u32, rgba: Vec<u8>) -> (result: Result<
    DecodedImage,
    ImageAssetError,
>)
    requires
        rgba@.len() == 4 * (width * height),
    ensures
        match result {
            Ok(image) => dimension_fault(width, height) is None && is_still(
                image,
                width,
                height,
                rgba@,
            ),
            Err(error) => dimension_fault(width, height) == Some(error.fault()),
        },
{
    match validate_dimensions(width, height) {
        Ok(_) => still_image(width, height, rgba),
        Err(error) => Err(error),
    }
}

/// What the first bytes of a file say about its format.
#[derive(Debug, Clone, Copy, PartialEq, Eq, Structural)]
pub enum FileFormat {
    Gif,
    Other,
}

/// Whether bytes start as a GIF file does.
pub open spec fn gif_signature(bytes: Seq<u8>) -> bool {
    &&& bytes.len() >= 6
    &&& bytes.take(4) == seq![0x47u8, 0x49u8, 0x46u8, 0x38u8]
    &&& bytes[4] == 0x37 || bytes[4] == 0x39
    &&& bytes[5] == 0x61
}

/// Whether `image::guess_format` knows what a file starts with.
pub uninterp spec fn known_signature(bytes: Seq<u8>) -> bool;

/// `image::guess_format` compares the start of the bytes with the signatures of file formats:
/// it gives GIF for the signatures `GIF87a` and `GIF89a` and for nothing else, and an error
/// where no signature matches.
#[verifier::external_body]
fn guess_format(bytes: &[u8]) -> (result: Result<FileFormat, image::ImageError>)
    ensures
        result is Ok <==> known_signature(bytes@),
        gif_signature(bytes@) ==> result is Ok,
        result matches Ok(format) ==> (format == FileFormat::Gif <==> gif_signature(bytes@)),
{
    match image::guess_format(bytes)? {
        image::ImageFormat::Gif => Ok(FileFormat::Gif),
        _ => Ok(FileFormat::Other),
    }
}

/// Whether `image::ImageReader` can make this of a file under limits: a picture with its width,
/// its height and its pixels, or nothing. A program may register decoders of its own, and decoders
/// may round in different ways with the instructions that a machine offers, so more than one
/// outcome is possible.
pub uninterp spec fn still_outcome(
    bytes: Seq<u8>,
    limits: DecodingLimits,
    outcome: Option<(u32, u32, Seq<u8>)>,
) -> bool;

/// `image::ImageReader` with a guessed format and limits, and `DynamicImage::into_rgba8`: four
/// bytes for each pixel of the picture. Which files are decoded and which pixels come out is left
/// open.
#[verifier::external_body]
fn decode_still(bytes: &[u8], limits: DecodingLimits) -> (result: Result<
    (u32, u32, Vec<u8>),
    image::ImageError,
>)
    requires
        limits.max_alloc <= MAX_DECODED_BYTES,
    ensures
        match result {
            Ok((width, height, rgba)) => still_outcome(
                bytes@,
                limits,
                Some((width, height, rgba@)),
            ) && rgba@.len() == 4 * (width * height),
            Err(_) => still_outcome(bytes@, limits, None),
        },
{
    let mut reader = image::ImageReader::new(Cursor::new(bytes)).with_guessed_format()?;
    let mut bounds = image::Limits::default();
    bounds.max_image_width = Some(limits.max_width);
    bounds.max_image_height = Some(limits.max_height);
    bounds.max_alloc = Some(limits.max_alloc);
    reader.limits(bounds);
    let rgba = reader.decode()?.into_rgba8();
    Ok((rgba.width(), rgba.height(), rgba.into_raw()))
}

/// A frame of a GIF file: its delay as a fraction of milliseconds, and its pixels.
#[derive(Debug)]
pub struct GifFrame {
    pub numerator: u32,
    pub denominator: u32,
    pub width: u32,
    pub height: u32,
    pub rgba: Vec<u8>,
}

/// What a frame of a GIF file holds.
#[verifier::ext_equal]
pub ghost struct GifFrameData {
    pub numerator: u32,
    pub denominator: u32,
    pub width: u32,
    pub height: u32,
    pub rgba: Seq<u8>,
}

impl View for GifFrame {
    type V = GifFrameData;

    open spec fn view(&self) -> GifFrameData {
        GifFrameData {
            numerator: self.numerator,
            denominator: self.denominator,
            width: self.width,
            height: self.height,
            rgba: self.rgba@,
        }
    }
}

/// The width and height that the decoder of the `image` crate reads from the head of a GIF
/// file, if it accepts the head under the limits.
pub uninterp spec fn gif_canvas(bytes: Seq<u8>, limits: DecodingLimits) -> Option<(u32, u32)>;

/// The frames that the decoder of the `image` crate reads from a GIF file, up to the first that
/// it cannot read, for which nothing stands in its place.
pub uninterp spec fn gif_frames(bytes: Seq<u8>, limits: DecodingLimits) -> Seq<
    Option<GifFrameData>,
>;

/// The frames that are yet to come, up to the first that cannot be read, for which nothing
/// stands in its place.
pub uninterp spec fn frames_ahead(frames: image::Frames<'_>) -> Seq<Option<GifFrameData>>;

/// `image::codecs::gif::GifDecoder` with limits: the size of the canvas, and the frames, which
/// are decoded as they are asked for.
#[verifier::external_body]
fn open_gif<'a>(bytes: &'a [u8], limits: DecodingLimits) -> (result: Result<
    (u32, u32, image::Frames<'a>),
    image::ImageError,
>)
    requires
        limits.max_alloc <= MAX_DECODED_BYTES,
    ensures
        match result {
            Ok((width, height, frames)) => gif_canvas(bytes@, limits) == Some((width, height))
                && frames_ahead(frames) == gif_frames(bytes@, limits),
            Err(_) => gif_canvas(bytes@, limits) is None,
        },
{
    let input = BufReader::new(Cursor::new(bytes));
    let mut decoder = image::codecs::gif::GifDecoder::new(input)?;
    let mut bounds = image::Limits::default();
    bounds.max_image_width = Some(limits.max_width);
    bounds.max_image_height = Some(limits.max_height);
    bounds.max_alloc = Some(limits.max_alloc);
    decoder.set_limits(bounds)?;
    let (width, height) = decoder.dimensions();
    Ok((width, height, decoder.into_frames()))
}

/// `Iterator::next` on `image::Frames`: the next frame, which has four bytes for each of its
/// pixels, or why it cannot be read. What follows a frame that cannot be read is left open.
#[verifier::external_body]
fn next_frame(frames: &mut image::Frames<'_>) -> (result: Option<
    Result<GifFrame, image::ImageError>,
>)
    ensures
        match result {
            None => frames_ahead(*old(frames)).len() == 0,
            Some(Err(_)) => frames_ahead(*old(frames)) == seq![None::<GifFrameData>],
            Some(Ok(frame)) => frame.rgba@.len() == 4 * (frame.width * frame.height)
                && frames_ahead(*old(frames)) == seq![Some(frame@)] + frames_ahead(
                *final(frames),
            ),
        },
{
    let frame = match frames.next()? {
        Ok(frame) => frame,
        Err(error) => return Some(Err(error)),
    };
    let (numerator, denominator) = frame.delay().numer_denom_ms();
    let buffer = frame.into_buffer();
    let (width, height) = (buffer.width(), buffer.height());
    let rgba = buffer.into_raw();
    Some(Ok(GifFrame { numerator, denominator, width, height, rgba }))
}

/// How long a frame of a GIF file is shown, in milliseconds: its delay, rounded up and moved
/// into the supported range.
pub open spec fn frame_millis(numerator: u32, denominator: u32) -> nat {
    let divisor = if denominator == 0 {
        1int
    } else {
        denominator as int
    };
    let millis = (numerator + divisor - 1) / divisor;
    if millis < MIN_FRAME_MILLIS {
        MIN_FRAME_MILLIS as nat
    } else if millis > MAX_FRAME_MILLIS {
        MAX_FRAME_MILLIS as nat
    } else {
        millis as nat
    }
}

/// The frame of an animation that a frame of a GIF file becomes.
pub open spec fn animated_frame(frame: GifFrameData) -> (Seq<u8>, nat) {
    (frame.rgba, frame_millis(frame.numerator, frame.denominator) * NANOS_PER_MILLI as nat)
}

/// Why a frame cannot follow the frames of an animation, if it cannot.
pub open spec fn gif_fault(
    canvas: (u32, u32),
    frames: Seq<(Seq<u8>, nat)>,
    step: Option<GifFrameData>,
) -> Option<ImageFault> {
    if frames.len() == MAX_GIF_FRAMES {
        Some(ImageFault::TooManyFrames)
    } else {
        match step {
            None => Some(ImageFault::Decode),
            Some(frame) => {
                let longer = frames.push(animated_frame(frame));
                if cycle(longer) > MAX_GIF_MILLIS * NANOS_PER_MILLI {
                    Some(ImageFault::AnimationTooLong)
                } else if (frame.width, frame.height) != canvas {
                    Some(ImageFault::FrameDimensionsMismatch)
                } else if pixel_bytes(longer) > MAX_DECODED_BYTES {
                    Some(ImageFault::DecodedDataTooLarge)
                } else {
                    None
                }
            },
        }
    }
}

/// What becomes of an animation: its frames, or the first fault.
pub open spec fn animation(
    canvas: (u32, u32),
    frames: Seq<(Seq<u8>, nat)>,
    steps: Seq<Option<GifFrameData>>,
) -> Result<Seq<(Seq<u8>, nat)>, ImageFault>
    decreases steps.len(),
{
    if steps.len() == 0 {
        if frames.len() == 0 {
            Err(ImageFault::EmptyAnimation)
        } else {
            Ok(frames)
        }
    } else {
        match gif_fault(canvas, frames, steps[0]) {
            Some(fault) => Err(fault),
            None => animation(
                canvas,
                frames.push(animated_frame(steps[0]->0)),
                steps.drop_first(),
            ),
        }
    }
}

/// An animation of which the first frames are read.
pub struct GifAssembly {
    width: u32,
    height: u32,
    frames: Vec<DecodedFrame>,
    decoded_bytes: usize,
    cycle_duration: Duration,
}

impl GifAssembly {
    /// The size of the canvas.
    pub closed spec fn canvas(self) -> (u32, u32) {
        (self.width, self.height)
    }

    /// The frames so far.
    pub closed spec fn frames(self) -> Seq<(Seq<u8>, nat)> {
        frame_views(self.frames@)
    }

    #[verifier::type_invariant]
    spec fn consistent(self) -> bool {
        &&& self.cycle_duration@ == cycle(self.frames())
        &&& self.decoded_bytes == pixel_bytes(self.frames())
        &&& self.cycle_duration@ <= MAX_GIF_MILLIS * NANOS_PER_MILLI
        &&& self.decoded_bytes <= MAX_DECODED_BYTES
        &&& self.frames@.len() <= MAX_GIF_FRAMES
        &&& whole_frames(self.frames(), self.canvas())
        &&& self.frames@.len() > 0 ==> self.cycle_duration@ >= NANOS_PER_MILLI
    }

    /// An animation without frames.
    pub fn new(width: u32, height: u32) -> (result: Self)
        ensures
            result.canvas() == (width, height),
            result.frames() == Seq::<(Seq<u8>, nat)>::empty(),
    {
        let frames: Vec<DecodedFrame> = Vec::new();
        proof {
            assert(frame_views(frames@) =~= Seq::empty());
        }
        GifAssembly {
            width,
            height,
            frames,
            decoded_bytes: 0,
            cycle_duration: Duration::zero(),
        }
    }

    /// The animation with one more frame, or why it cannot follow.
    pub fn with_frame(self, step: Result<GifFrame, image::ImageError>) -> (result: Result<
        GifAssembly,
        ImageAssetError,
    >)
        requires
            step matches Ok(frame) ==> frame.rgba@.len() == 4 * (frame.width * frame.height),
        ensures
            ({
                let data = match step {
                    Ok(frame) => Some(frame@),
                    Err(_) => None,
                };
                match result {
                    Ok(longer) => gif_fault(self.canvas(), self.frames(), data) is None
                        && longer.canvas() == self.canvas() && longer.frames()
                        == self.frames().push(animated_frame(data->0)),
                    Err(error) => gif_fault(self.canvas(), self.frames(), data) == Some(
                        error.fault(),
                    ),
                }
            }),
    {
        proof {
            use_type_invariant(&self);
        }
        if self.frames.len() == MAX_GIF_FRAMES {
            return Err(ImageAssetError::TooManyFrames);
        }
        let frame = match step {
            Ok(frame) => frame,
            Err(error) => return Err(ImageAssetError::Decode(error)),
        };
        let duration = Duration::from_millis(shown_millis(frame.numerator, frame.denominator));
        let ghost before = self.frames();
        let ghost after = before.push(animated_frame(frame@));
        proof {
            assert(after.drop_last() =~= before);
        }
        let cycle_duration = self.cycle_duration.saturating_add(duration);
        if !Duration::from_millis(MAX_GIF_MILLIS).at_least(cycle_duration) {
            return Err(ImageAssetError::AnimationTooLong);
        }
        if frame.width != self.width || frame.height != self.height {
            return Err(ImageAssetError::FrameDimensionsMismatch);
        }
        if frame.rgba.len() > MAX_DECODED_BYTES - self.decoded_bytes {
            return Err(ImageAssetError::DecodedDataTooLarge);
        }
        let decoded_bytes: usize = self.decoded_bytes + frame.rgba.len();
        let mut frames = self.frames;
        frames.push(DecodedFrame { rgba: share(frame.rgba), duration });
        proof {
            assert(frame_views(frames@) =~= after);
        }
        Ok(
            GifAssembly {
                width: self.width,
                height: self.height,
                frames,
                decoded_bytes,
                cycle_duration,
            },
        )
    }

    /// The finished animation.
    pub fn finish(self) -> (result: Result<DecodedImage, ImageAssetError>)
        ensures
            match result {
                Ok(image) => self.frames().len() > 0 && image.wf() && image.playable()
                    && image.has_whole_frames() && image.dimensions() == self.canvas() && image.frames() == self.frames(),
                Err(error) => self.frames().len() == 0 && error.fault()
                    == ImageFault::EmptyAnimation,
            },
    {
        proof {
            use_type_invariant(&self);
        }
        if self.frames.len() == 0 {
            return Err(ImageAssetError::EmptyAnimation);
        }
        let size = [self.width, self.height];
        proof {
            assert(size[0] == self.width && size[1] == self.height);
            assert(self.frames()[0].0 == self.frames@[0].rgba@);
        }
        decoded_image_from_frames(size, self.frames)
    }
}

fn shown_millis(numerator: u32, denominator: u32) -> (millis: u64)
    ensures
        millis == frame_millis(numerator, denominator),
        MIN_FRAME_MILLIS <= millis <= MAX_FRAME_MILLIS,
{
    let divisor: u64 = if denominator == 0 {
        1
    } else {
        denominator as u64
    };
    let millis: u64 = (numerator as u64 + divisor - 1) / divisor;
    if millis < MIN_FRAME_MILLIS {
        MIN_FRAME_MILLIS
    } else if millis > MAX_FRAME_MILLIS {
        MAX_FRAME_MILLIS
    } else {
        millis
    }
}

/// Whether an outcome is an animation on a canvas, or the error of its first fault.
pub open spec fn is_animation(
    outcome: Result<DecodedImage, ImageAssetError>,
    canvas: (u32, u32),
    steps: Seq<Option<GifFrameData>>,
) -> bool {
    match animation(canvas, Seq::empty(), steps) {
        Ok(frames) => outcome matches Ok(image) && image.wf() && image.playable()
            && image.has_whole_frames() && image.dimensions() == canvas && image.frames() == frames,
        Err(fault) => outcome matches Err(error) && error.fault() == fault,
    }
}

/// Whether an outcome is what a GIF file holds.
pub open spec fn is_gif(outcome: Result<DecodedImage, ImageAssetError>, bytes: Seq<u8>) -> bool {
    match gif_canvas(bytes, limits()) {
        None => outcome matches Err(error) && error.fault() == ImageFault::Decode,
        Some(canvas) => match dimension_fault(canvas.0, canvas.1) {
            Some(fault) => outcome matches Err(error) && error.fault() == fault,
            None => is_animation(outcome, canvas, gif_frames(bytes, limits())),
        },
    }
}

/// Reads a GIF file.
pub fn decode_gif(bytes: &[u8]) -> (result: Result<DecodedImage, ImageAssetError>)
    ensures
        is_gif(result, bytes@),
{
    let (width, height, frames) = match open_gif(bytes, decoding_limits()) {
        Ok(opened) => opened,
        Err(error) => return Err(ImageAssetError::Decode(error)),
    };
    if let Err(error) = validate_dimensions(width, height) {
        return Err(error);
    }
    let mut frames = frames;
    let mut assembly = GifAssembly::new(width, height);
    let ghost steps = gif_frames(bytes@, limits());
    loop
        invariant
            steps == gif_frames(bytes@, limits()),
            gif_canvas(bytes@, limits()) == Some((width, height)),
            dimension_fault(width, height) is None,
            assembly.canvas() == (width, height),
            animation((width, height), Seq::empty(), steps) == animation(
                (width, height),
                assembly.frames(),
                frames_ahead(frames),
            ),
        decreases frames_ahead(frames).len(),
    {
        let ghost ahead = frames_ahead(frames);
        let step = match next_frame(&mut frames) {
            Some(step) => step,
            None => return assembly.finish(),
        };
        proof {
            if step is Ok {
                assert(ahead.drop_first() =~= frames_ahead(frames));
            }
        }
        match assembly.with_frame(step) {
            Ok(longer) => {
                assembly = longer;
            },
            Err(error) => return Err(error),
        }
    }
}

/// Whether an outcome is the image of a decoded picture, or the error where there is none.
pub open spec fn is_decoded_picture(
    outcome: Result<DecodedImage, ImageAssetError>,
    decoded: Option<(u32, u32, Seq<u8>)>,
) -> bool {
    match decoded {
        None => outcome matches Err(error) && error.fault() == ImageFault::Decode,
        Some((width, height, rgba)) => match dimension_fault(width, height) {
            Some(fault) => outcome matches Err(error) && error.fault() == fault,
            None => outcome matches Ok(image) && is_still(image, width, height, rgba),
        },
    }
}

/// Whether an outcome is what a file of pixels holds.
pub open spec fn is_picture(outcome: Result<DecodedImage, ImageAssetError>, bytes: Seq<u8>) -> bool {
    exists|decoded: Option<(u32, u32, Seq<u8>)>|
        #[trigger] still_outcome(bytes, limits(), decoded) && is_decoded_picture(outcome, decoded)
}

/// Reads an image file of any format but SVG.
pub fn decode(bytes: &[u8]) -> (result: Result<DecodedImage, ImageAssetError>)
    ensures
        is_pixel_image(result, bytes@),
{
    match guess_format(bytes) {
        Err(error) => Err(ImageAssetError::Decode(error)),
        Ok(FileFormat::Gif) => decode_gif(bytes),
        Ok(FileFormat::Other) => match decode_still(bytes, decoding_limits()) {
            Ok((width, height, rgba)) => {
                assert(still_outcome(bytes@, limits(), Some((width, height, rgba@))));
                picture(width, height, rgba)
            },
            Err(error) => {
                assert(still_outcome(bytes@, limits(), None));
                Err(ImageAssetError::Decode(error))
            },
        },
    }
}

/// Whether `usvg::Tree::from_data_nested` can make this of a document: a tree, or the text of
/// an error. Coordinates are rounded in ways that differ between machines. A document on which it
/// panics on a machine has no outcome.
pub uninterp spec fn svg_outcome(
    bytes: Seq<u8>,
    outcome: Result<resvg::usvg::Tree, Seq<char>>,
) -> bool;

/// The width and height of a document, as the bits of single-precision numbers.
pub uninterp spec fn svg_size(tree: resvg::usvg::Tree) -> (u32, u32);

/// Whether `resvg::render` can draw these pixels, premultiplied by their alpha, for a document.
/// Where it panics on a machine there are none.
pub uninterp spec fn svg_raster(
    tree: resvg::usvg::Tree,
    width: u32,
    height: u32,
    pixels: Seq<u8>,
) -> bool;

/// Whether `usvg` reads a document to its end: a plain one of a size in range, or one that has an
/// outcome.
pub open spec fn svg_readable(bytes: Seq<u8>) -> bool {
    ||| plain_svg(bytes) && bytes.len() <= MAX_SVG_FILE_SIZE
    ||| exists|outcome: Result<resvg::usvg::Tree, Seq<char>>| svg_outcome(bytes, outcome)
}

/// Whether `resvg` draws a document to its end in a size: a plain one, in a size that an image may
/// have, or one that has pixels.
pub open spec fn svg_drawable(tree: resvg::usvg::Tree, width: u32, height: u32) -> bool {
    ||| dimension_fault(width, height) is None && exists|bytes: Seq<u8>|
        #[trigger] svg_outcome(bytes, Ok(tree)) && plain_svg(bytes) && bytes.len()
            <= MAX_SVG_FILE_SIZE
    ||| exists|pixels: Seq<u8>| svg_raster(tree, width, height, pixels)
}

/// `usvg::Tree::from_data_nested` with default options, which reads no other file: the document
/// or the text of the error. Which documents it accepts is left open. It panics on some documents,
/// such as those with a filter whose numbers are beyond single precision; on plain ones it does not.
#[verifier::external_body]
fn parse_svg(bytes: &[u8]) -> (result: Result<resvg::usvg::Tree, String>)
    requires
        svg_readable(bytes@),
    ensures
        match result {
            Ok(tree) => svg_outcome(bytes@, Ok(tree)),
            Err(message) => svg_outcome(bytes@, Err(message@)),
        },
{
    let options = resvg::usvg::Options::default();
    resvg::usvg::Tree::from_data_nested(bytes, &options).map_err(|error| error.to_string())
}

/// `usvg::Tree::size`, whose width and height are positive and finite.
#[verifier::external_body]
fn size_of_svg(tree: &resvg::usvg::Tree) -> (size: (Single, Single))
    ensures
        (size.0.bits, size.1.bits) == svg_size(*tree),
        0 < size.0.bits < 0x7f80_0000,
        0 < size.1.bits < 0x7f80_0000,
{
    let size = tree.size();
    (Single { bits: size.width().to_bits() }, Single { bits: size.height().to_bits() })
}

/// `tiny_skia::Pixmap::new` and `resvg::render` without a transformation: four bytes for each
/// pixel. There is a pixmap for every size that an image may have. What a plain document holds is
/// drawn without panicking.
#[verifier::external_body]
fn rasterize_svg(tree: &resvg::usvg::Tree, width: u32, height: u32) -> (pixels: Option<Vec<u8>>)
    requires
        svg_drawable(*tree, width, height),
    ensures
        dimension_fault(width, height) is None ==> pixels is Some,
        pixels matches Some(pixels) ==> pixels@.len() == 4 * (width * height) && svg_raster(
            *tree,
            width,
            height,
            pixels@,
        ),
{
    let mut pixmap = resvg::tiny_skia::Pixmap::new(width, height)?;
    let transform = resvg::tiny_skia::Transform::identity();
    resvg::render(tree, transform, &mut pixmap.as_mut());
    Some(pixmap.take())
}

/// A colour that was premultiplied by an alpha, without it again.
pub open spec fn unpremultiplied(channel: u8, alpha: u8) -> u8 {
    if alpha == 0 {
        0
    } else if alpha == 255 {
        channel
    } else {
        let full = (channel * 255 + alpha / 2) / alpha as int;
        if full < 255 {
            full as u8
        } else {
            255
        }
    }
}

/// Byte `i` of an RGBA image after its colours are no longer premultiplied.
pub open spec fn straight_byte(rgba: Seq<u8>, i: int) -> u8 {
    let pixel = i / 4 * 4;
    if pixel + 4 > rgba.len() || i == pixel + 3 {
        rgba[i]
    } else {
        unpremultiplied(rgba[i], rgba[pixel + 3])
    }
}

/// An RGBA image after its colours are no longer premultiplied.
pub open spec fn straight(rgba: Seq<u8>) -> Seq<u8> {
    Seq::new(rgba.len(), |i: int| straight_byte(rgba, i))
}

fn unpremultiply(channel: u8, alpha: u8) -> (result: u8)
    ensures
        result == unpremultiplied(channel, alpha),
{
    if alpha == 0 {
        return 0;
    }
    if alpha == 255 {
        return channel;
    }
    let full: u32 = (channel as u32 * 255 + alpha as u32 / 2) / alpha as u32;
    if full < 255 {
        full as u8
    } else {
        255
    }
}

/// Turns colours that are premultiplied by alpha into straight ones. Bytes after the last whole
/// pixel stay.
pub fn unpremultiply_rgba(rgba: &mut [u8])
    ensures
        final(rgba)@ == straight(old(rgba)@),
{
    let ghost before = rgba@;
    let mut pixel: usize = 0;
    while rgba.len() - pixel >= 4
        invariant
            rgba@.len() == before.len(),
            pixel <= rgba@.len(),
            pixel % 4 == 0,
            forall|i: int| 0 <= i < pixel ==> rgba@[i] == straight_byte(before, i),
            forall|i: int| pixel <= i < rgba@.len() ==> rgba@[i] == before[i],
        decreases rgba@.len() - pixel,
    {
        let alpha: u8 = rgba[pixel + 3];
        rgba[pixel] = unpremultiply(rgba[pixel], alpha);
        rgba[pixel + 1] = unpremultiply(rgba[pixel + 1], alpha);
        rgba[pixel + 2] = unpremultiply(rgba[pixel + 2], alpha);
        proof {
            assert forall|i: int| 0 <= i < pixel + 4 implies rgba@[i] == straight_byte(
                before,
                i,
            ) by {
                if i >= pixel {
                    assert(i / 4 * 4 == pixel);
                }
            }
        }
        pixel += 4;
    }
    proof {
        assert forall|i: int| 0 <= i < rgba@.len() implies rgba@[i] == straight_byte(
            before,
            i,
        ) by {
            if i >= pixel {
                assert(i / 4 * 4 == pixel);
            }
        }
        assert(rgba@ =~= straight(before));
    }
}

/// The width and height of a document in whole pixels.
pub open spec fn pixel_size(tree: resvg::usvg::Tree) -> (u32, u32) {
    (
        (Single { bits: svg_size(tree).0 }).ceiling() as u32,
        (Single { bits: svg_size(tree).1 }).ceiling() as u32,
    )
}

/// Whether a parsed document can be drawn, as far as its size is in range.
pub open spec fn draws(tree: resvg::usvg::Tree) -> bool {
    let (width, height) = pixel_size(tree);
    dimension_fault(width, height) is None ==> svg_drawable(tree, width, height)
}

/// Whether an outcome is a picture of a parsed document.
pub open spec fn is_drawing(
    outcome: Result<DecodedImage, ImageAssetError>,
    tree: resvg::usvg::Tree,
) -> bool {
    let (width, height) = pixel_size(tree);
    match dimension_fault(width, height) {
        Some(fault) => outcome matches Err(error) && error.fault() == fault,
        None => outcome matches Ok(image) && exists|pixels: Seq<u8>|
            #[trigger] svg_raster(tree, width, height, pixels) && is_still(
                image,
                width,
                height,
                straight(pixels),
            ),
    }
}

fn draw_svg(tree: &resvg::usvg::Tree) -> (result: Result<DecodedImage, ImageAssetError>)
    requires
        draws(*tree),
    ensures
        is_drawing(result, *tree),
{
    let (exact_width, exact_height) = size_of_svg(tree);
    let width = exact_width.round_up();
    let height = exact_height.round_up();
    if let Err(error) = validate_dimensions(width, height) {
        return Err(error);
    }
    let mut rgba = match rasterize_svg(tree, width, height) {
        Some(pixels) => pixels,
        None => return Err(ImageAssetError::SvgRasterAllocation),
    };
    let ghost pixels = rgba@;
    unpremultiply_rgba(rgba.as_mut_slice());
    proof {
        assert(svg_raster(*tree, width, height, pixels));
    }
    still_image(width, height, rgba)
}

/// Whether a document can be read and drawn without panicking, or is too large to be tried.
pub open spec fn svg_usable(bytes: Seq<u8>) -> bool {
    bytes.len() <= MAX_SVG_FILE_SIZE ==> {
        &&& svg_readable(bytes)
        &&& forall|tree: resvg::usvg::Tree| #[trigger] svg_outcome(bytes, Ok(tree)) ==> draws(tree)
    }
}

/// Draws an SVG document.
pub fn decode_svg(bytes: &[u8]) -> (result: Result<DecodedImage, ImageAssetError>)
    requires
        svg_usable(bytes@),
    ensures
        is_svg_image(result, bytes@),
{
    if bytes.len() > MAX_SVG_FILE_SIZE {
        return Err(ImageAssetError::SvgTooLarge);
    }
    match parse_svg(bytes) {
        Ok(tree) => draw_svg(&tree),
        Err(message) => Err(ImageAssetError::SvgParse(message)),
    }
}

/// Draws an SVG document that is plain. Of one that is not, nothing is known before it is tried.
pub fn decode_plain_svg(bytes: &[u8]) -> (result: Option<Result<DecodedImage, ImageAssetError>>)
    ensures
        match result {
            Some(outcome) => plain_svg(bytes@) && is_svg_image(outcome, bytes@),
            None => !plain_svg(bytes@),
        },
{
    if is_plain_svg(bytes) {
        Some(decode_file(true, bytes))
    } else {
        None
    }
}

/// Whether `Path::extension` can give this part of a path. Where a file's name starts in a path
/// differs between systems.
pub uninterp spec fn extension_part(path: &Path, extension: Option<&Path>) -> bool;

/// `Path::extension` gives what follows the last dot of a file's name. Which part of a path that is
/// is left open.
#[verifier::external_body]
fn extension_of(path: &Path) -> (extension: Option<&Path>)
    ensures
        extension_part(path, extension),
{
    path.extension().map(Path::new)
}

/// Whether an extension, where there is one, is that of SVG documents.
pub open spec fn names_svg(extension: Option<&Path>) -> bool {
    match extension {
        Some(extension) => match path_text(extension) {
            Some(text) => same_but_for_ascii_case(text, "svg"@),
            None => false,
        },
        None => false,
    }
}

/// Whether a file is taken for an SVG document, by its name.
pub fn is_svg_file(path: &Path) -> (result: bool)
    ensures
        exists|extension: Option<&Path>|
            #[trigger] extension_part(path, extension) && result == names_svg(extension),
{
    let extension = extension_of(path);
    assert(extension_part(path, extension));
    match extension {
        Some(extension) => match text_of_path(extension) {
            Some(text) => is_svg_extension(text),
            None => false,
        },
        None => false,
    }
}

/// Whether a file name's extension is that of SVG documents.
pub fn is_svg_extension(extension: &str) -> (result: bool)
    ensures
        result == same_but_for_ascii_case(extension@, "svg"@),
{
    extension.eq_ignore_ascii_case("svg")
}

/// Checks the size of an image file before it is read.
pub fn check_file_size(is_svg: bool, length: u64) -> (result: Result<(), ImageAssetError>)
    ensures
        match result {
            Ok(_) => length <= MAX_FILE_SIZE && !(is_svg && length > MAX_SVG_FILE_SIZE),
            Err(error) => if is_svg && length > MAX_SVG_FILE_SIZE {
                error.fault() == ImageFault::SvgTooLarge
            } else {
                length > MAX_FILE_SIZE && error.fault() == ImageFault::TooLarge
            },
        },
{
    if is_svg && length > MAX_SVG_FILE_SIZE as u64 {
        return Err(ImageAssetError::SvgTooLarge);
    }
    if length > MAX_FILE_SIZE {
        return Err(ImageAssetError::TooLarge);
    }
    Ok(())
}

/// Whether an outcome is what an SVG document holds.
pub open spec fn is_svg_image(outcome: Result<DecodedImage, ImageAssetError>, bytes: Seq<u8>) -> bool {
    if bytes.len() > MAX_SVG_FILE_SIZE {
        outcome matches Err(error) && error.fault() == ImageFault::SvgTooLarge
    } else {
        ||| exists|message: Seq<char>|
            #[trigger] svg_outcome(bytes, Err(message)) && (outcome matches Err(
                ImageAssetError::SvgParse(text),
            ) && text@ == message)
        ||| exists|tree: resvg::usvg::Tree|
            #[trigger] svg_outcome(bytes, Ok(tree)) && is_drawing(outcome, tree)
    }
}

/// Whether an outcome is what an image file of any format but SVG holds.
pub open spec fn is_pixel_image(
    outcome: Result<DecodedImage, ImageAssetError>,
    bytes: Seq<u8>,
) -> bool {
    if gif_signature(bytes) {
        is_gif(outcome, bytes)
    } else if known_signature(bytes) {
        is_picture(outcome, bytes)
    } else {
        outcome matches Err(error) && error.fault() == ImageFault::Decode
    }
}

/// Reads the contents of an image file.
pub fn decode_file(is_svg: bool, bytes: &[u8]) -> (result: Result<DecodedImage, ImageAssetError>)
    requires
        is_svg ==> svg_usable(bytes@),
    ensures
        is_svg ==> is_svg_image(result, bytes@),
        !is_svg ==> is_pixel_image(result, bytes@),
{
    if is_svg {
        decode_svg(bytes)
    } else {
        decode(bytes)
    }
}

/// Whether frame `i` of an animation is the file's, shown for 50 milliseconds to a minute.
pub open spec fn keeps_frame(
    frames: Seq<(Seq<u8>, nat)>,
    steps: Seq<Option<GifFrameData>>,
    i: int,
) -> bool {
    &&& steps[i] is Some
    &&& frames[i] == animated_frame(steps[i]->0)
    &&& MIN_FRAME_MILLIS * NANOS_PER_MILLI <= frames[i].1 <= MAX_FRAME_MILLIS * NANOS_PER_MILLI
    &&& frames[i].1 % (NANOS_PER_MILLI as nat) == 0
}

/// An animation that is accepted keeps every frame of its file in order, shows each for 50
/// milliseconds to a minute, has at most 300 frames in a cycle of at most five minutes, and
/// takes at most 64 MiB.
pub proof fn accepted_animations_are_bounded(
    canvas: (u32, u32),
    steps: Seq<Option<GifFrameData>>,
)
    ensures
        animation(canvas, Seq::empty(), steps) matches Ok(frames) ==> {
            &&& 0 < frames.len() == steps.len() <= MAX_GIF_FRAMES
            &&& cycle(frames) <= MAX_GIF_MILLIS * NANOS_PER_MILLI
            &&& pixel_bytes(frames) <= MAX_DECODED_BYTES
            &&& forall|i: int| 0 <= i < frames.len() ==> #[trigger] keeps_frame(frames, steps, i)
        },
{
    assert(steps.skip(0) =~= steps);
    lemma_animation(canvas, Seq::empty(), steps, steps);
}

proof fn lemma_animation(
    canvas: (u32, u32),
    frames: Seq<(Seq<u8>, nat)>,
    steps: Seq<Option<GifFrameData>>,
    all: Seq<Option<GifFrameData>>,
)
    requires
        frames.len() <= MAX_GIF_FRAMES,
        cycle(frames) <= MAX_GIF_MILLIS * NANOS_PER_MILLI,
        pixel_bytes(frames) <= MAX_DECODED_BYTES,
        frames.len() + steps.len() == all.len(),
        steps == all.skip(frames.len() as int),
        forall|i: int| 0 <= i < frames.len() ==> #[trigger] keeps_frame(frames, all, i),
    ensures
        animation(canvas, frames, steps) matches Ok(result) ==> {
            &&& 0 < result.len() == all.len() <= MAX_GIF_FRAMES
            &&& cycle(result) <= MAX_GIF_MILLIS * NANOS_PER_MILLI
            &&& pixel_bytes(result) <= MAX_DECODED_BYTES
            &&& forall|i: int| 0 <= i < result.len() ==> #[trigger] keeps_frame(result, all, i)
        },
    decreases steps.len(),
{
    if steps.len() > 0 && gif_fault(canvas, frames, steps[0]) is None {
        let longer = frames.push(animated_frame(steps[0]->0));
        assert(steps.drop_first() =~= all.skip(longer.len() as int));
        assert(steps[0] == all[frames.len() as int]);
        assert forall|i: int| 0 <= i < longer.len() implies #[trigger] keeps_frame(
            longer,
            all,
            i,
        ) by {
            if i < frames.len() {
                assert(keeps_frame(frames, all, i));
            }
        }
        lemma_animation(canvas, longer, steps.drop_first(), all);
    }
}

/// Every frame of an image that was read has four bytes for each pixel of the image, so that each
/// of them can be drawn.
pub proof fn images_have_whole_frames(image: DecodedImage, bytes: Seq<u8>)
    requires
        is_pixel_image(Ok(image), bytes) || is_svg_image(Ok(image), bytes),
    ensures
        image.wf(),
        image.frames().len() > 0,
        image.has_whole_frames(),
        dimension_fault(image.dimensions().0, image.dimensions().1) is None,
{
}

/// At no time is more than one frame of an animation shown.
pub proof fn one_frame_at_a_time(frames: Seq<(Seq<u8>, nat)>, position: nat, i: int, j: int)
    requires
        shows(frames, position, i),
        shows(frames, position, j),
    ensures
        i == j,
{
    if i < j {
        lemma_starts_grow(frames, i + 1, j);
    } else if j < i {
        lemma_starts_grow(frames, j + 1, i);
    }
}

proof fn lemma_cycle_is_last_start(frames: Seq<(Seq<u8>, nat)>, i: int)
    requires
        0 <= i <= frames.len(),
        forall|k: int|
            0 <= k < frames.len() ==> (#[trigger] frames[k]).1 % (NANOS_PER_MILLI as nat) == 0,
    ensures
        start_of(frames, i) * NANOS_PER_MILLI == cycle(frames.take(i)),
    decreases i,
{
    if i > 0 {
        lemma_cycle_is_last_start(frames, i - 1);
        assert(frames.take(i).drop_last() =~= frames.take(i - 1));
        assert(frames[i - 1].1 % (NANOS_PER_MILLI as nat) == 0);
    }
}

proof fn lemma_some_frame_shows(frames: Seq<(Seq<u8>, nat)>, position: nat, n: int) -> (i: int)
    requires
        0 <= n <= frames.len(),
        position < start_of(frames, n),
    ensures
        shows(frames, position, i),
        i < n,
    decreases n,
{
    if position < start_of(frames, n - 1) {
        lemma_some_frame_shows(frames, position, n - 1)
    } else {
        n - 1
    }
}

/// An animation of whole milliseconds shows one of its frames at every time.
pub proof fn some_frame_is_always_shown(frames: Seq<(Seq<u8>, nat)>, elapsed: nat)
    requires
        cycle(frames) > 0,
        forall|k: int|
            0 <= k < frames.len() ==> (#[trigger] frames[k]).1 % (NANOS_PER_MILLI as nat) == 0,
    ensures
        exists|i: int| shows(frames, position_in_cycle(frames, elapsed), i),
{
    let n = frames.len() as int;
    lemma_cycle_is_last_start(frames, n);
    assert(frames.take(n) =~= frames);
    let i = lemma_some_frame_shows(frames, position_in_cycle(frames, elapsed), n);
}

/// After the time that a frame of an animation stays, the next frame is shown from its start,
/// and after the last frame the first one.
pub proof fn next_frame_follows_on_time(
    frames: Seq<(Seq<u8>, nat)>,
    elapsed: nat,
    shown: (int, nat),
)
    requires
        frames.len() > 1,
        forall|k: int|
            0 <= k < frames.len() ==> (#[trigger] frames[k]).1 % (NANOS_PER_MILLI as nat) == 0
                && 0 < frames[k].1 / (NANOS_PER_MILLI as nat) <= u64::MAX,
        frame_shown_at(frames, elapsed, shown),
    ensures
        ({
            let next = if shown.0 + 1 == frames.len() {
                0
            } else {
                shown.0 + 1
            };
            &&& shows(frames, position_in_cycle(frames, elapsed + shown.1), next)
            &&& position_in_cycle(frames, elapsed + shown.1) == start_of(frames, next)
        }),
{
    let n = frames.len() as int;
    lemma_cycle_is_last_start(frames, n);
    assert(frames.take(n) =~= frames);
    assert(frames[n - 1].1 > 0);
    let milli = NANOS_PER_MILLI as nat;
    let whole = start_of(frames, n);
    assert(whole == cycle(frames) / milli);
    some_frame_is_always_shown(frames, elapsed);
    let position = position_in_cycle(frames, elapsed);
    let rest = (start_of(frames, shown.0 + 1) - position) as nat;
    lemma_starts_grow(frames, shown.0 + 1, n);
    let millis = elapsed / milli;
    assert(shown.1 == rest * milli);
    assert((elapsed + shown.1) / milli == millis + rest);
    if shown.0 + 1 < n {
        assert(frames[shown.0 + 1].1 > 0);
        assert(start_of(frames, shown.0 + 2) > start_of(frames, shown.0 + 1));
        lemma_starts_grow(frames, shown.0 + 2, n);
        vstd::arithmetic::div_mod::lemma_fundamental_div_mod(millis as int, whole as int);
        let q = millis / whole;
        assert(whole * q == q * whole) by (nonlinear_arith);
        vstd::arithmetic::div_mod::lemma_fundamental_div_mod_converse(
            (millis + rest) as int,
            whole as int,
            q as int,
            (position + rest) as int,
        );
    } else {
        assert(frames[0].1 > 0);
        assert(start_of(frames, 1) > 0);
        vstd::arithmetic::div_mod::lemma_fundamental_div_mod(millis as int, whole as int);
        let q = millis / whole;
        assert(whole * q + whole == (q + 1) * whole) by (nonlinear_arith);
        vstd::arithmetic::div_mod::lemma_fundamental_div_mod_converse(
            (millis + rest) as int,
            whole as int,
            (q + 1) as int,
            0,
        );
    }
}

/// Taking the alpha out of the colours keeps alpha itself, leaves opaque pixels as they are and
/// turns transparent ones black.
pub proof fn straight_colours_keep_alpha(rgba: Seq<u8>, pixel: int)
    requires
        0 <= pixel,
        4 * pixel + 4 <= rgba.len(),
    ensures
        straight(rgba).len() == rgba.len(),
        straight(rgba)[4 * pixel + 3] == rgba[4 * pixel + 3],
        rgba[4 * pixel + 3] == 255 ==> straight(rgba).subrange(4 * pixel, 4 * pixel + 4)
            == rgba.subrange(4 * pixel, 4 * pixel + 4),
        rgba[4 * pixel + 3] == 0 ==> straight(rgba).subrange(4 * pixel, 4 * pixel + 4) == seq![
            0u8,
            0u8,
            0u8,
            0u8,
        ],
{
    let first = 4 * pixel;
    let colours = straight(rgba);
    assert(first / 4 * 4 == first);
    assert((first + 1) / 4 * 4 == first);
    assert((first + 2) / 4 * 4 == first);
    assert((first + 3) / 4 * 4 == first);
    let alpha = rgba[first + 3];
    assert(colours[first] == unpremultiplied(rgba[first], alpha));
    assert(colours[first + 1] == unpremultiplied(rgba[first + 1], alpha));
    assert(colours[first + 2] == unpremultiplied(rgba[first + 2], alpha));
    assert(colours[first + 3] == alpha);
    if alpha == 255 {
        assert(colours.subrange(first, first + 4) =~= rgba.subrange(first, first + 4));
    }
    if alpha == 0 {
        assert(colours.subrange(first, first + 4) =~= seq![0u8, 0u8, 0u8, 0u8]);
    }
}

/// The limits that images are held to, in numbers.
pub proof fn limits_in_numbers()
    ensures
        MAX_FILE_SIZE == 32 * 1024 * 1024,
        MAX_SVG_FILE_SIZE == 2 * 1024 * 1024,
        limits().max_width == 4096,
        limits().max_height == 4096,
        limits().max_alloc == 64 * 1024 * 1024,
{
}

/// Every size with both sides from 1 to 4096 pixels is accepted, and no other is.
pub proof fn sizes_up_to_4096_are_accepted(width: u32, height: u32)
    ensures
        1 <= width <= 4096 && 1 <= height <= 4096 <==> dimension_fault(width, height) is None,
        dimension_fault(width, height) is Some ==> dimension_fault(width, height) == Some(
            ImageFault::DimensionsTooLarge,
        ),
{
}

/// A delay of 50 milliseconds to a minute is kept, rounded up to a whole millisecond; a shorter
/// one becomes 50 milliseconds and a longer one a minute.
pub proof fn delays_are_kept(numerator: u32, denominator: u32)
    requires
        denominator > 0,
    ensures
        ({
            let (n, d, m) = (
                numerator as int,
                denominator as int,
                frame_millis(numerator, denominator) as int,
            );
            &&& n <= 50 * d ==> m == 50
            &&& 50 * d <= n <= 60_000 * d ==> (m - 1) * d < n <= m * d
            &&& n >= 60_000 * d ==> m == 60_000
        }),
        denominator == 1 && 50 <= numerator <= 60_000 ==> frame_millis(numerator, 1) == numerator,
        frame_millis(numerator, 0) == frame_millis(numerator, 1),
{
    let (n, d) = (numerator as int, denominator as int);
    let up = (n + d - 1) / d;
    assert((up - 1) * d < n <= up * d) by (nonlinear_arith)
        requires
            up == (n + d - 1) / d,
            d > 0,
            n >= 0,
    ;
    assert(n <= 50 * d ==> up <= 50) by (nonlinear_arith)
        requires
            (up - 1) * d < n,
            d > 0,
    ;
    assert(50 * d <= n ==> up >= 50) by (nonlinear_arith)
        requires
            n <= up * d,
            d > 0,
    ;
    assert(n <= 60_000 * d ==> up <= 60_000) by (nonlinear_arith)
        requires
            (up - 1) * d < n,
            d > 0,
    ;
    assert(n >= 60_000 * d ==> up >= 60_000) by (nonlinear_arith)
        requires
            n <= up * d,
            d > 0,
    ;
    assert(d == 1 ==> up == n) by (nonlinear_arith)
        requires
            (up - 1) * d < n <= up * d,
    ;
}

/// A frame of an animation has the pixels of the file's frame, and its delay in nanoseconds.
pub proof fn frames_keep_pixels_and_delays(frame: GifFrameData)
    ensures
        animated_frame(frame).0 == frame.rgba,
        animated_frame(frame).1 == frame_millis(frame.numerator, frame.denominator) * 1_000_000,
        frame.denominator == 1 && 50 <= frame.numerator <= 60_000 ==> animated_frame(frame).1
            == frame.numerator * 1_000_000,
{
    if frame.denominator == 1 {
        delays_are_kept(frame.numerator, 1);
    }
}

/// How long frames are shown together, and how many bytes they take, adds up frame by frame.
pub proof fn lengths_and_bytes_add_up(frames: Seq<(Seq<u8>, nat)>, frame: (Seq<u8>, nat))
    ensures
        cycle(Seq::empty()) == 0,
        pixel_bytes(Seq::empty()) == 0,
        cycle(frames.push(frame)) == cycle(frames) + frame.1,
        pixel_bytes(frames.push(frame)) == pixel_bytes(frames) + frame.0.len(),
{
    assert(frames.push(frame).drop_last() =~= frames);
}

/// The first thing that is wrong with a further frame of an animation is what is reported: there
/// are 300 already; it cannot be read; the cycle gets longer than five minutes; it is not as large
/// as the canvas; all pixels take more than 64 MiB. Where nothing is, it is accepted.
pub proof fn wrong_frames_are_reported(
    canvas: (u32, u32),
    frames: Seq<(Seq<u8>, nat)>,
    step: Option<GifFrameData>,
)
    ensures
        ({
            let fault = gif_fault(canvas, frames, step);
            let length = cycle(frames) + animated_frame(step->0).1;
            let bytes = pixel_bytes(frames) + step->0.rgba.len();
            let fits = step->0.width == canvas.0 && step->0.height == canvas.1;
            let room = frames.len() != 300;
            &&& !room ==> fault == Some(ImageFault::TooManyFrames)
            &&& room && step is None ==> fault == Some(ImageFault::Decode)
            &&& room && step is Some ==> {
                &&& length > 300_000_000_000 ==> fault == Some(ImageFault::AnimationTooLong)
                &&& length <= 300_000_000_000 && !fits ==> fault == Some(
                    ImageFault::FrameDimensionsMismatch,
                )
                &&& length <= 300_000_000_000 && fits && bytes > 67_108_864 ==> fault == Some(
                    ImageFault::DecodedDataTooLarge,
                )
                &&& length <= 300_000_000_000 && fits && bytes <= 67_108_864 ==> fault is None
            }
        }),
{
    if step is Some {
        lengths_and_bytes_add_up(frames, animated_frame(step->0));
    }
}

/// The frames that an animation is made of, where all of them can be read.
pub open spec fn all_frames(steps: Seq<Option<GifFrameData>>) -> Seq<(Seq<u8>, nat)> {
    Seq::new(steps.len(), |i: int| animated_frame(steps[i]->0))
}

/// An animation of 1 to 300 readable frames of the canvas's size, of no more than five minutes and
/// 64 MiB together, is accepted with all of its frames.
pub proof fn animations_within_the_limits_are_accepted(
    canvas: (u32, u32),
    steps: Seq<Option<GifFrameData>>,
)
    requires
        0 < steps.len() <= 300,
        forall|i: int|
            0 <= i < steps.len() ==> (#[trigger] steps[i]) is Some && steps[i]->0.width == canvas.0
                && steps[i]->0.height == canvas.1,
        cycle(all_frames(steps)) <= 300_000_000_000,
        pixel_bytes(all_frames(steps)) <= 67_108_864,
    ensures
        animation(canvas, Seq::empty(), steps) == Ok::<Seq<(Seq<u8>, nat)>, ImageFault>(
            all_frames(steps),
        ),
{
    assert(steps.skip(0) =~= steps);
    assert(all_frames(steps).take(0) =~= Seq::empty());
    lemma_accepted(canvas, 0, steps);
}

proof fn lemma_accepted(canvas: (u32, u32), done: int, steps: Seq<Option<GifFrameData>>)
    requires
        0 <= done <= steps.len() <= 300,
        0 < steps.len(),
        forall|i: int|
            0 <= i < steps.len() ==> (#[trigger] steps[i]) is Some && steps[i]->0.width == canvas.0
                && steps[i]->0.height == canvas.1,
        cycle(all_frames(steps)) <= 300_000_000_000,
        pixel_bytes(all_frames(steps)) <= 67_108_864,
    ensures
        animation(canvas, all_frames(steps).take(done), steps.skip(done)) == Ok::<
            Seq<(Seq<u8>, nat)>,
            ImageFault,
        >(all_frames(steps)),
    decreases steps.len() - done,
{
    let all = all_frames(steps);
    if done < steps.len() {
        let rest = steps.skip(done);
        assert(rest[0] == steps[done]);
        lemma_cycle_grows(all, done + 1);
        assert(all.take(done + 1) =~= all.take(done).push(animated_frame(steps[done]->0)));
        wrong_frames_are_reported(canvas, all.take(done), rest[0]);
        lengths_and_bytes_add_up(all.take(done), animated_frame(steps[done]->0));
        assert(rest.drop_first() =~= steps.skip(done + 1));
        lemma_accepted(canvas, done + 1, steps);
    } else {
        assert(all.take(done) =~= all);
    }
}

/// The frames of an animation of whole milliseconds are shown in turn, each from the end of those
/// before it until its own delay is over, again and again.
pub proof fn frames_are_shown_in_turn(
    frames: Seq<(Seq<u8>, nat)>,
    elapsed: nat,
    i: int,
    shown: (int, nat),
)
    requires
        frames.len() > 1,
        0 <= i < frames.len(),
        forall|k: int| 0 <= k < frames.len() ==> (#[trigger] frames[k]).1 % 1_000_000 == 0,
        frames[i].1 / 1_000_000 <= u64::MAX,
        cycle(frames) > 0,
        cycle(frames.take(i)) <= elapsed % cycle(frames) < cycle(frames.take(i + 1)),
        frame_shown_at(frames, elapsed, shown),
    ensures
        shown.0 == i,
        shown.1 == cycle(frames.take(i + 1)) - elapsed % cycle(frames) / 1_000_000 * 1_000_000,
{
    let n = frames.len() as int;
    lemma_cycle_is_last_start(frames, i);
    lemma_cycle_is_last_start(frames, i + 1);
    lemma_cycle_is_last_start(frames, n);
    assert(frames.take(n) =~= frames);
    let whole = start_of(frames, n);
    let total = cycle(frames);
    assert(total == whole * 1_000_000);
    lemma_position(elapsed, whole);
    let position = position_in_cycle(frames, elapsed);
    assert(position == elapsed % total / 1_000_000);
    assert(shows(frames, position, i));
    one_frame_at_a_time(frames, position, i, shown.0);
    assert(start_of(frames, i + 1) - position <= frames[i].1 / 1_000_000);
}

proof fn lemma_position(elapsed: nat, whole: nat)
    requires
        whole > 0,
    ensures
        elapsed % (whole * 1_000_000) / 1_000_000 == (elapsed / 1_000_000) % whole,
        whole * 1_000_000 / 1_000_000 == whole,
{
    let milli = 1_000_000nat;
    let millis = elapsed / milli;
    let (q, r) = (millis / whole, millis % whole);
    let part = elapsed % milli;
    vstd::arithmetic::div_mod::lemma_fundamental_div_mod(millis as int, whole as int);
    assert(whole * q == q * whole) by (nonlinear_arith);
    assert(elapsed == q * (whole * milli) + (r * milli + part)) by (nonlinear_arith)
        requires
            elapsed == millis * milli + part,
            millis == q * whole + r,
    ;
    assert(0 <= r * milli + part < whole * milli) by (nonlinear_arith)
        requires
            0 <= r < whole,
            0 <= part < milli,
            milli == 1_000_000,
    ;
    vstd::arithmetic::div_mod::lemma_fundamental_div_mod_converse(
        elapsed as int,
        (whole * milli) as int,
        q as int,
        (r * milli + part) as int,
    );
}

/// An image of one frame shows it for as long as there is.
pub proof fn still_images_stay(frames: Seq<(Seq<u8>, nat)>, elapsed: nat, shown: (int, nat))
    requires
        frames.len() == 1,
        frame_shown_at(frames, elapsed, shown),
    ensures
        shown.0 == 0,
        shown.1 == 18_446_744_073_709_551_615_999_999_999,
{
}

/// What starts with `GIF87a` or `GIF89a` is taken for a GIF file, and nothing else is.
pub proof fn gif_files_start_with_their_name(bytes: Seq<u8>, version: u8, rest: Seq<u8>)
    ensures
        version == 0x37 || version == 0x39 ==> gif_signature(
            seq![0x47u8, 0x49u8, 0x46u8, 0x38u8, version, 0x61u8] + rest,
        ),
        gif_signature(bytes) ==> bytes.len() >= 6 && bytes[0] == 0x47 && bytes[1] == 0x49
            && bytes[2] == 0x46 && bytes[3] == 0x38 && (bytes[4] == 0x37 || bytes[4] == 0x39)
            && bytes[5] == 0x61,
{
    let file = seq![0x47u8, 0x49u8, 0x46u8, 0x38u8, version, 0x61u8] + rest;
    assert(file.take(4) =~= seq![0x47u8, 0x49u8, 0x46u8, 0x38u8]);
    if gif_signature(bytes) {
        let start = bytes.take(4);
        assert(start[0] == bytes[0] && start[1] == bytes[1] && start[2] == bytes[2] && start[3]
            == bytes[3]);
    }
}

/// A picture with both sides from 1 to 4096 pixels is loaded as it was decoded; any other is
/// refused for its size, and what cannot be decoded is refused as such.
pub proof fn decoded_pictures_are_loaded(
    outcome: Result<DecodedImage, ImageAssetError>,
    decoded: Option<(u32, u32, Seq<u8>)>,
)
    requires
        is_decoded_picture(outcome, decoded),
    ensures
        decoded is None ==> outcome is Err && outcome->Err_0.fault() == ImageFault::Decode,
        decoded matches Some((width, height, rgba)) ==> if 1 <= width <= 4096 && 1 <= height <= 4096 {
            &&& outcome is Ok
            &&& outcome->Ok_0.dimensions() == (width, height)
            &&& outcome->Ok_0.frames().len() == 1
            &&& outcome->Ok_0.frames()[0].0 == rgba
            &&& outcome->Ok_0.frames()[0].1 == 0
        } else {
            outcome is Err && outcome->Err_0.fault() == ImageFault::DimensionsTooLarge
        },
{
}

/// A GIF file whose canvas has both sides from 1 to 4096 pixels becomes the animation of its
/// frames, where they are within the limits.
pub proof fn gif_files_are_loaded(outcome: Result<DecodedImage, ImageAssetError>, bytes: Seq<u8>)
    requires
        is_gif(outcome, bytes),
        gif_canvas(bytes, limits()) is Some,
        ({
            let canvas = gif_canvas(bytes, limits())->0;
            let steps = gif_frames(bytes, limits());
            &&& 1 <= canvas.0 <= 4096 && 1 <= canvas.1 <= 4096
            &&& 0 < steps.len() <= 300
            &&& forall|i: int|
                0 <= i < steps.len() ==> (#[trigger] steps[i]) is Some && steps[i]->0.width
                    == canvas.0 && steps[i]->0.height == canvas.1
            &&& cycle(all_frames(steps)) <= 300_000_000_000
            &&& pixel_bytes(all_frames(steps)) <= 67_108_864
        }),
    ensures
        outcome is Ok,
        outcome->Ok_0.dimensions() == gif_canvas(bytes, limits())->0,
        outcome->Ok_0.frames() == all_frames(gif_frames(bytes, limits())),
{
    animations_within_the_limits_are_accepted(
        gif_canvas(bytes, limits())->0,
        gif_frames(bytes, limits()),
    );
}

/// Files are told apart by how they start: a GIF file is read as one, any other whose start is
/// known as a picture, and the rest is refused.
pub proof fn files_are_read_by_their_format(
    outcome: Result<DecodedImage, ImageAssetError>,
    bytes: Seq<u8>,
)
    requires
        is_pixel_image(outcome, bytes),
    ensures
        gif_signature(bytes) ==> is_gif(outcome, bytes),
        !gif_signature(bytes) && known_signature(bytes) ==> is_picture(outcome, bytes),
        !gif_signature(bytes) && !known_signature(bytes) ==> outcome is Err
            && outcome->Err_0.fault() == ImageFault::Decode,
{
}

/// A document of more than 2 MiB is refused before it is read; one that is read becomes a picture
/// of its size in whole pixels where that is from 1 to 4096 each way, or is refused for it.
pub proof fn documents_are_drawn_in_their_size(
    outcome: Result<DecodedImage, ImageAssetError>,
    bytes: Seq<u8>,
)
    requires
        is_svg_image(outcome, bytes),
    ensures
        bytes.len() > 2_097_152 <==> outcome is Err && outcome->Err_0.fault()
            == ImageFault::SvgTooLarge,
        outcome is Ok ==> exists|tree: resvg::usvg::Tree, pixels: Seq<u8>|
            {
                &&& #[trigger] svg_outcome(bytes, Ok(tree))
                &&& #[trigger] svg_raster(tree, pixel_size(tree).0, pixel_size(tree).1, pixels)
                &&& 1 <= pixel_size(tree).0 <= 4096
                &&& 1 <= pixel_size(tree).1 <= 4096
                &&& outcome->Ok_0.dimensions() == pixel_size(tree)
                &&& outcome->Ok_0.frames() == seq![(straight(pixels), 0nat)]
            },
        bytes.len() <= 2_097_152 && outcome is Err ==> {
            ||| outcome->Err_0.fault() == ImageFault::SvgParse
            ||| outcome->Err_0.fault() == ImageFault::DimensionsTooLarge
        },
{
}

/// Taking the alpha out of a colour divides it by the alpha's share of 255, to the nearest whole
/// number and at most 255.
pub proof fn colours_are_divided_by_alpha(channel: u8, alpha: u8)
    requires
        alpha > 0,
    ensures
        ({
            let (c, a, v) = (channel as int, alpha as int, unpremultiplied(channel, alpha) as int);
            &&& 2 * (v * a) <= 2 * (255 * c) + a
            &&& v < 255 ==> 2 * (v * a) + a >= 2 * (255 * c) - 1
            &&& c >= a ==> v == 255
            &&& c == 0 ==> v == 0
        }),
{
    let (c, a) = (channel as int, alpha as int);
    let n = c * 255 + a / 2;
    let q = n / a;
    assert(q * a <= n < q * a + a) by (nonlinear_arith)
        requires
            q == n / a,
            a > 0,
    ;
    if c >= a {
        assert(q >= 255) by (nonlinear_arith)
            requires
                n < q * a + a,
                n >= 255 * a,
                a > 0,
        ;
    }
    if alpha == 255 {
        assert(2 * (c * 255) <= 2 * (255 * c) + 255);
    } else if q >= 255 {
        assert(255 * a <= q * a) by (nonlinear_arith)
            requires
                q >= 255,
                a > 0,
        ;
    } else {
        assert(q < 255);
    }
    if c == 0 {
        assert(q == 0) by (nonlinear_arith)
            requires
                q == n / a,
                0 <= n < a,
                a > 0,
        ;
    }
}

/// A document that was read is drawn where its size in whole pixels is from 1 to 4096 each way,
/// and is refused for its size where it is not.
pub proof fn documents_in_range_are_drawn(
    outcome: Result<DecodedImage, ImageAssetError>,
    tree: resvg::usvg::Tree,
)
    requires
        is_drawing(outcome, tree),
    ensures
        outcome is Ok <==> 1 <= pixel_size(tree).0 <= 4096 && 1 <= pixel_size(tree).1 <= 4096,
        outcome is Ok ==> outcome->Ok_0.dimensions() == pixel_size(tree),
        outcome is Err ==> outcome->Err_0.fault() == ImageFault::DimensionsTooLarge,
{
}

/// A plain document of up to 2 MiB can be read, and drawn in every size up to 4096 on each side.
pub proof fn plain_documents_are_usable(bytes: Seq<u8>)
    requires
        plain_svg(bytes),
    ensures
        bytes.len() <= 2_097_152 ==> svg_readable(bytes),
        forall|tree: resvg::usvg::Tree, width: u32, height: u32|
            svg_outcome(bytes, Ok(tree)) && bytes.len() <= 2_097_152 && 1 <= width <= 4_096 && 1
                <= height <= 4_096 ==> #[trigger] svg_drawable(tree, width, height),
        svg_usable(bytes),
{
    assert forall|tree: resvg::usvg::Tree, width: u32, height: u32|
        svg_outcome(bytes, Ok(tree)) && bytes.len() <= 2_097_152 && 1 <= width <= 4_096 && 1
            <= height <= 4_096 implies #[trigger] svg_drawable(tree, width, height) by {
        sizes_up_to_4096_are_accepted(width, height);
    }
}

/// A file is taken for a document where its name ends in `.svg`, in large or small letters, and
/// only then.
pub proof fn documents_are_known_by_their_extension(extension: &Path)
    ensures
        names_svg(Some(extension)) <==> (path_text(extension) matches Some(text) && text.len() == 3
            && (text[0] == 's' || text[0] == 'S') && (text[1] == 'v' || text[1] == 'V') && (text[2]
            == 'g' || text[2] == 'G')),
        !names_svg(None),
{
    if let Some(text) = path_text(extension) {
        case_does_not_count(text, "svg"@);
    }
}

/// An image that has whole frames has four bytes in each of them for every pixel.
pub proof fn whole_frames_have_every_pixel(image: DecodedImage, i: int)
    requires
        image.has_whole_frames(),
        0 <= i < image.frames().len(),
    ensures
        image.frames()[i].0.len() == 4 * (image.dimensions().0 * image.dimensions().1),
{
}

/// An animation whose frames are all shorter than a millisecond shows its first one.
pub proof fn frames_too_short_to_see(
    frames: Seq<(Seq<u8>, nat)>,
    elapsed: nat,
    shown: (int, nat),
)
    requires
        frames.len() > 1,
        cycle(frames) > 0,
        forall|i: int| 0 <= i < frames.len() ==> (#[trigger] frames[i]).1 < 1_000_000,
        frame_shown_at(frames, elapsed, shown),
    ensures
        shown.0 == 0,
        shown.1 == frames[0].1,
{
    assert forall|i: int| 0 <= i <= frames.len() implies #[trigger] start_of(frames, i) == 0 by {
        lemma_no_whole_milliseconds(frames, i);
    }
    let position = position_in_cycle(frames, elapsed);
    assert forall|i: int| !shows(frames, position, i) by {
        if 0 <= i < frames.len() {
            assert(start_of(frames, i + 1) == 0);
        }
    }
}

proof fn lemma_no_whole_milliseconds(frames: Seq<(Seq<u8>, nat)>, i: int)
    requires
        0 <= i <= frames.len(),
        forall|k: int| 0 <= k < frames.len() ==> (#[trigger] frames[k]).1 < 1_000_000,
    ensures
        start_of(frames, i) == 0,
    decreases i,
{
    if i > 0 {
        lemma_no_whole_milliseconds(frames, i - 1);
        assert(frames[i - 1].1 / 1_000_000 == 0);
    }
}

proof fn lemma_first_fault(
    canvas: (u32, u32),
    frames: Seq<(Seq<u8>, nat)>,
    steps: Seq<Option<GifFrameData>>,
    k: int,
)
    requires
        0 <= k < steps.len(),
        forall|j: int|
            0 <= j < k ==> (#[trigger] steps[j]) is Some && gif_fault(
                canvas,
                frames + all_frames(steps).take(j),
                steps[j],
            ) is None,
        gif_fault(canvas, frames + all_frames(steps).take(k), steps[k]) is Some,
    ensures
        animation(canvas, frames, steps) == Err::<Seq<(Seq<u8>, nat)>, ImageFault>(
            gif_fault(canvas, frames + all_frames(steps).take(k), steps[k])->0,
        ),
    decreases k,
{
    let all = all_frames(steps);
    assert(frames + all.take(0) =~= frames);
    if k > 0 {
        let first = steps[0];
        assert(gif_fault(canvas, frames + all.take(0), steps[0]) is None);
        let longer = frames.push(animated_frame(first->0));
        let rest = steps.drop_first();
        let all_rest = all_frames(rest);
        assert forall|j: int| 0 <= j < k implies longer + #[trigger] all_rest.take(j) == frames
            + all.take(j + 1) by {
            assert(longer + all_rest.take(j) =~= frames + all.take(j + 1));
        }
        assert(longer + all_rest.take(k - 1) == frames + all.take(k));
        assert forall|j: int| 0 <= j < k - 1 implies (#[trigger] rest[j]) is Some && gif_fault(
            canvas,
            longer + all_rest.take(j),
            rest[j],
        ) is None by {
            assert(rest[j] == steps[j + 1]);
            assert(longer + all_rest.take(j) == frames + all.take(j + 1));
        }
        lemma_first_fault(canvas, longer, rest, k - 1);
    }
}

/// An animation is refused for the first frame that cannot follow those before it, and for the
/// reason that this frame gives. One without frames is refused as empty.
pub proof fn refused_animations_say_why(
    outcome: Result<DecodedImage, ImageAssetError>,
    canvas: (u32, u32),
    steps: Seq<Option<GifFrameData>>,
    k: int,
)
    requires
        is_animation(outcome, canvas, steps),
    ensures
        steps.len() == 0 ==> outcome is Err && outcome->Err_0.fault()
            == ImageFault::EmptyAnimation,
        0 <= k < steps.len() && (forall|j: int|
            0 <= j < k ==> (#[trigger] steps[j]) is Some && gif_fault(
                canvas,
                all_frames(steps).take(j),
                steps[j],
            ) is None) && gif_fault(canvas, all_frames(steps).take(k), steps[k]) is Some
            ==> outcome is Err && Some(outcome->Err_0.fault()) == gif_fault(
            canvas,
            all_frames(steps).take(k),
            steps[k],
        ),
{
    let all = all_frames(steps);
    if 0 <= k < steps.len() && (forall|j: int|
        0 <= j < k ==> (#[trigger] steps[j]) is Some && gif_fault(canvas, all.take(j), steps[j])
            is None) && gif_fault(canvas, all.take(k), steps[k]) is Some {
        let none = Seq::<(Seq<u8>, nat)>::empty();
        assert forall|j: int| 0 <= j <= k implies none + #[trigger] all.take(j) == all.take(j) by {
            assert(none + all.take(j) =~= all.take(j));
        }
        assert(none + all.take(k) == all.take(k));
        assert forall|j: int| 0 <= j < k implies (#[trigger] steps[j]) is Some && gif_fault(
            canvas,
            none + all.take(j),
            steps[j],
        ) is None by {
            assert(none + all.take(j) == all.take(j));
        }
        lemma_first_fault(canvas, none, steps, k);
    }
}

/// A GIF file whose start cannot be read is refused for that, and one whose canvas has a side of
/// no pixels or of more than 4096 for its size.
pub proof fn gif_files_are_refused(
    outcome: Result<DecodedImage, ImageAssetError>,
    bytes: Seq<u8>,
)
    requires
        is_gif(outcome, bytes),
    ensures
        gif_canvas(bytes, limits()) is None ==> outcome is Err && outcome->Err_0.fault()
            == ImageFault::Decode,
        gif_canvas(bytes, limits()) matches Some(canvas) && !(1 <= canvas.0 <= 4096 && 1 <= canvas.1
            <= 4096) ==> outcome is Err && outcome->Err_0.fault() == ImageFault::DimensionsTooLarge,
{
    if let Some(canvas) = gif_canvas(bytes, limits()) {
        sizes_up_to_4096_are_accepted(canvas.0, canvas.1);
    }
}

/// Every error has a fault of its own, and a text of its own where it carries no other's.
pub proof fn errors_are_told_apart(a: ImageAssetError, b: ImageAssetError, text: Seq<char>)
    ensures
        a is TooLarge <==> a.fault() == ImageFault::TooLarge,
        a is SvgTooLarge <==> a.fault() == ImageFault::SvgTooLarge,
        a is DimensionsTooLarge <==> a.fault() == ImageFault::DimensionsTooLarge,
        a is DecodedDataTooLarge <==> a.fault() == ImageFault::DecodedDataTooLarge,
        a is TooManyFrames <==> a.fault() == ImageFault::TooManyFrames,
        a is AnimationTooLong <==> a.fault() == ImageFault::AnimationTooLong,
        a is EmptyAnimation <==> a.fault() == ImageFault::EmptyAnimation,
        a is FrameDimensionsMismatch <==> a.fault() == ImageFault::FrameDimensionsMismatch,
        a is SvgParse <==> a.fault() == ImageFault::SvgParse,
        a is SvgRasterAllocation <==> a.fault() == ImageFault::SvgRasterAllocation,
        a is Decode <==> a.fault() == ImageFault::Decode,
        a.reads(text) && b.reads(text) && !(a is SvgParse) && !(a is Decode) && !(b is SvgParse)
            && !(b is Decode) ==> a.fault() == b.fault(),
{
    reveal_strlit("image file is larger than 32 MiB");
    reveal_strlit("SVG document is larger than 2 MiB");
    reveal_strlit("image dimensions exceed 4096 x 4096");
    reveal_strlit("decoded image data exceeds 64 MiB");
    reveal_strlit("GIF contains more than 300 frames");
    reveal_strlit("GIF animation cycle is longer than 5 minutes");
    reveal_strlit("GIF contains no frames");
    reveal_strlit("GIF frame dimensions do not match its canvas");
    reveal_strlit("failed to allocate the SVG raster image");
    if text.len() == 33 {
        assert(text[0] == 'S' || text[0] == 'd' || text[0] == 'G' || !a.reads(text) || a is SvgParse
            || a is Decode);
    }
    if text.len() == 44 {
        assert(text[4] == 'a' || text[4] == 'f' || !a.reads(text) || a is SvgParse || a is Decode);
    }
}

} // verus!
