//! The overlay on Windows: a layered window that is as large as what is seen of the image.

use std::sync::Arc;

use vstd::arithmetic::power2::*;
use vstd::prelude::*;
use vstd::string::*;

use crate::binary_float::{at_scale, nearest_integer, pixels_lie_at_their_share, Single};
use crate::resample::{can_resize, lanczos3_outcome, resizable, resize_rgba};

verus! {

/// The most bytes of the window's pixels.
pub const MAX_OVERLAY_BYTES: u64 = 268_435_456;

/// An image and the display that it is to be shown on.
#[derive(Debug)]
pub struct OverlayFrame {
    pub left: i32,
    pub top: i32,
    pub width: u32,
    pub height: u32,
    pub image_rgba: Arc<[u8]>,
    pub image_size: [u32; 2],
    pub width_percent: u8,
    pub opacity_percent: u8,
    pub position: [Single; 2],
}

/// Where the window is.
#[derive(Debug, Clone, Copy, PartialEq, Eq, Structural)]
pub struct OverlayPlacement {
    pub left: i32,
    pub top: i32,
    pub width: i32,
    pub height: i32,
}

/// A number, or one where it is zero.
pub open spec fn at_least_one(n: nat) -> nat {
    if n < 1 {
        1
    } else {
        n
    }
}

/// The wanted width: a share of the display's, at least a pixel and at most all of it.
pub open spec fn wanted_width(width: nat, width_percent: nat) -> nat {
    let share = at_least_one(width * width_percent / 100);
    let most = at_least_one(width);
    if share <= most {
        share
    } else {
        most
    }
}

/// The size of an image on a display: as wide as wanted, or as high as the display where it
/// would be higher, in the image's proportions.
pub open spec fn scaled_size(display: (nat, nat), image: (nat, nat), width_percent: nat) -> (
    nat,
    nat,
) {
    let width = wanted_width(display.0, width_percent);
    let height = at_least_one(width * image.1 / image.0);
    if height <= display.1 {
        (width, height)
    } else {
        let narrow = at_least_one(display.1 * image.0 / image.1);
        (
            if narrow <= display.0 {
                narrow
            } else {
                display.0
            },
            display.1,
        )
    }
}

impl OverlayFrame {
    /// The display's width and height.
    pub open spec fn display(self) -> (nat, nat) {
        (self.width as nat, self.height as nat)
    }

    /// The image's width and height.
    pub open spec fn image(self) -> (nat, nat) {
        (self.image_size[0] as nat, self.image_size[1] as nat)
    }

    /// Whether both the display and the image have pixels.
    pub open spec fn has_pixels(self) -> bool {
        self.width > 0 && self.height > 0 && self.image_size[0] > 0 && self.image_size[1] > 0
    }

    /// How many bytes the image's pixels take.
    pub open spec fn image_bytes(self) -> int {
        self.image_size[0] * self.image_size[1] * 4
    }

    /// The size of the image on the display.
    pub open spec fn target(self) -> (nat, nat) {
        scaled_size(self.display(), self.image(), self.width_percent as nat)
    }
}

/// The size of an image on its display.
pub fn scaled_overlay_size(frame: &OverlayFrame) -> (result: (u32, u32))
    requires
        frame.image_size[0] > 0,
        frame.image_size[1] > 0 || frame.height > 0,
    ensures
        (result.0 as nat, result.1 as nat) == frame.target(),
        frame.width > 0 && frame.height > 0 ==> 1 <= result.0 <= frame.width && 1 <= result.1
            <= frame.height,
{
    proof {
        assert(frame.width * frame.width_percent <= 0xffff_ffff * 0xff) by (nonlinear_arith)
            requires
                frame.width <= 0xffff_ffff,
                frame.width_percent <= 0xff,
        ;
    }
    let share: u64 = frame.width as u64 * frame.width_percent as u64 / 100;
    let most: u64 = if frame.width == 0 {
        1
    } else {
        frame.width as u64
    };
    let wished: u64 = if share == 0 {
        1
    } else {
        share
    };
    let width: u64 = if wished <= most {
        wished
    } else {
        most
    };
    let image_width: u64 = frame.image_size[0] as u64;
    let image_height: u64 = frame.image_size[1] as u64;
    proof {
        assert(width * image_height <= 0xffff_ffff * 0xffff_ffff) by (nonlinear_arith)
            requires
                width <= 0xffff_ffff,
                image_height <= 0xffff_ffff,
        ;
        assert(frame.height * image_width <= 0xffff_ffff * 0xffff_ffff) by (nonlinear_arith)
            requires
                frame.height <= 0xffff_ffff,
                image_width <= 0xffff_ffff,
        ;
    }
    let exact_height: u64 = width * image_height / image_width;
    let height: u64 = if exact_height == 0 {
        1
    } else {
        exact_height
    };
    if height <= frame.height as u64 {
        return (width as u32, height as u32);
    }
    let exact_width: u64 = frame.height as u64 * image_width / image_height;
    let narrow: u64 = if exact_width == 0 {
        1
    } else {
        exact_width
    };
    if narrow <= frame.width as u64 {
        (narrow as u32, frame.height)
    } else {
        (frame.width, frame.height)
    }
}

/// The bytes that pixels take.
pub fn overlay_surface_length(width: u32, height: u32) -> (result: Result<usize, String>)
    requires
        width * height * 4 <= u64::MAX,
    ensures
        match result {
            Ok(length) => length == width * height * 4 && length <= MAX_OVERLAY_BYTES,
            Err(message) => width * height * 4 > MAX_OVERLAY_BYTES && message@
                == "overlay pixel buffer exceeds 256 MiB"@,
        },
{
    let bytes: u64 = width as u64 * height as u64 * 4;
    if bytes > MAX_OVERLAY_BYTES {
        return Err("overlay pixel buffer exceeds 256 MiB".to_owned());
    }
    Ok(bytes as usize)
}

/// The pixel of a display that the middle of an image is on.
pub open spec fn middle(position: Single, extent: nat) -> nat {
    match position.offset_in(extent) {
        Some(offset) => nearest_integer(offset),
        None => 0,
    }
}

fn middle_of(position: Single, extent: u32) -> (result: i64)
    ensures
        result == middle(position, extent as nat),
        0 <= result <= 0x4_0000_0000,
{
    match position.offset(extent) {
        Some(offset) => {
            proof {
                let m = offset.mantissa as nat;
                lemma2_to64();
                if offset.exponent >= 0 {
                    let power = pow2(offset.exponent as nat);
                    if offset.exponent < 10 {
                        lemma_pow2_strictly_increases(offset.exponent as nat, 10);
                    }
                    assert(m * power <= 0x100_0000 * 1024) by (nonlinear_arith)
                        requires
                            m <= 0x100_0000,
                            power <= 1024,
                    ;
                } else {
                    let power = pow2((-offset.exponent) as nat);
                    lemma_pow2_pos((-offset.exponent) as nat);
                    assert((2 * m + power) / (2 * power) <= m + 1) by (nonlinear_arith)
                        requires
                            power > 0,
                    ;
                }
            }
            offset.nearest_integer() as i64
        },
        None => 0,
    }
}

/// Where an image starts on a display, which may be before the display does.
pub open spec fn origin(position: Single, extent: nat, target: nat) -> int {
    middle(position, extent) - target / 2
}

/// The first pixel of a display that an image covers.
pub open spec fn visible_start(position: Single, extent: nat, target: nat) -> int {
    let start = origin(position, extent, target);
    if start < 0 {
        0
    } else {
        start
    }
}

/// The pixel of a display after the last one that an image covers.
pub open spec fn visible_end(position: Single, extent: nat, target: nat) -> int {
    let end = origin(position, extent, target) + target;
    if end > extent {
        extent as int
    } else {
        end
    }
}

/// How many pixels of a display an image covers.
pub open spec fn visible_extent(position: Single, extent: nat, target: nat) -> int {
    visible_end(position, extent, target) - visible_start(position, extent, target)
}

/// The opacity of a pixel of the window.
pub open spec fn window_alpha(alpha: u8, opacity_percent: u8) -> nat {
    let percent = if opacity_percent > 100 {
        100nat
    } else {
        opacity_percent as nat
    };
    alpha as nat * (percent * 255 / 100) / 255
}

/// One byte of the window's pixels, which are premultiplied and in the order blue, green, red,
/// alpha, out of an RGBA image of which a part is seen.
pub open spec fn window_byte(
    scaled: Seq<u8>,
    scaled_width: nat,
    source: (nat, nat),
    visible_width: nat,
    opacity_percent: u8,
    i: int,
) -> nat {
    let pixel = i / 4;
    let x = source.0 + pixel % visible_width as int;
    let y = source.1 + pixel / visible_width as int;
    let first = 4 * (y * scaled_width + x);
    let alpha = window_alpha(scaled[first + 3], opacity_percent);
    if i % 4 == 3 {
        alpha
    } else {
        scaled[first + 2 - i % 4] as nat * alpha / 255
    }
}

/// Whether a machine can answer so when a vector of some bytes asks for memory for more.
pub uninterp spec fn memory_granted(length: nat, additional: nat, granted: bool) -> bool;

/// `Vec::try_reserve_exact` keeps the elements, whether there is memory for more or not. Whether
/// there is depends on the machine.
#[verifier::external_body]
fn reserve(pixels: &mut Vec<u8>, additional: usize) -> (reserved: bool)
    ensures
        final(pixels)@ == old(pixels)@,
        memory_granted(old(pixels)@.len(), additional as nat, reserved),
{
    pixels.try_reserve_exact(additional).is_ok()
}

/// Why nothing can be drawn of a frame, whatever its pixels, if nothing can.
pub open spec fn frame_fault(frame: OverlayFrame) -> Option<Seq<char>> {
    let target = frame.target();
    let visible = (
        visible_extent(frame.position[0], frame.width as nat, target.0),
        visible_extent(frame.position[1], frame.height as nat, target.1),
    );
    if !frame.has_pixels() {
        Some("overlay or image dimensions are empty"@)
    } else if frame.image_bytes() > usize::MAX {
        Some("image dimensions are too large"@)
    } else if frame.image_rgba@.len() != frame.image_bytes() {
        Some("image pixel buffer has an invalid length"@)
    } else if target.0 * target.1 * 4 > MAX_OVERLAY_BYTES {
        Some("overlay pixel buffer exceeds 256 MiB"@)
    } else if visible.0 < 0 {
        Some("overlay has no visible width"@)
    } else if visible.1 < 0 {
        Some("overlay has no visible height"@)
    } else if visible.0 == 0 || visible.1 == 0 {
        Some("overlay is outside the selected display"@)
    } else {
        None
    }
}

/// Whether pixels are what is seen of an image, which is given as it was scaled for its display.
pub open spec fn is_drawing(frame: OverlayFrame, scaled: Seq<u8>, pixels: Seq<u8>) -> bool {
    let target = frame.target();
    let visible = (
        visible_extent(frame.position[0], frame.width as nat, target.0),
        visible_extent(frame.position[1], frame.height as nat, target.1),
    );
    let source = (
        visible_start(frame.position[0], frame.width as nat, target.0) - origin(
            frame.position[0],
            frame.width as nat,
            target.0,
        ),
        visible_start(frame.position[1], frame.height as nat, target.1) - origin(
            frame.position[1],
            frame.height as nat,
            target.1,
        ),
    );
    &&& pixels.len() == 4 * (visible.0 * visible.1)
    &&& forall|i: int|
        0 <= i < pixels.len() ==> #[trigger] pixels[i] == window_byte(
            scaled,
            target.0,
            (source.0 as nat, source.1 as nat),
            visible.0 as nat,
            frame.opacity_percent,
            i,
        )
}

/// Whether a result says where the window for a frame has to be.
pub open spec fn is_placement(frame: OverlayFrame, result: Result<OverlayPlacement, String>) -> bool {
    let target = frame.target();
    let left = frame.left + visible_start(frame.position[0], frame.width as nat, target.0);
    let top = frame.top + visible_start(frame.position[1], frame.height as nat, target.1);
    if left > i32::MAX {
        result matches Err(message) && message@
            == "overlay horizontal position is outside Windows coordinates"@
    } else if top > i32::MAX {
        result matches Err(message) && message@
            == "overlay vertical position is outside Windows coordinates"@
    } else {
        &&& result matches Ok(placement)
        &&& placement.left == left
        &&& placement.top == top
        &&& placement.width == visible_extent(frame.position[0], frame.width as nat, target.0)
        &&& placement.height == visible_extent(frame.position[1], frame.height as nat, target.1)
    }
}

/// Whether pixels and a result are what comes of a frame of which something can be drawn, given
/// the scaled image and whether there is memory for the pixels.
pub open spec fn is_surface(
    frame: OverlayFrame,
    scaled: Seq<u8>,
    reserved: bool,
    pixels: Seq<u8>,
    result: Result<OverlayPlacement, String>,
) -> bool {
    if reserved {
        is_drawing(frame, scaled, pixels) && is_placement(frame, result)
    } else {
        &&& pixels.len() == 0
        &&& result matches Err(message)
        &&& message@ == "could not allocate the overlay pixel buffer"@
    }
}

/// Whether an image can come out of scaling the frame's image for its display.
pub open spec fn is_scaled(frame: OverlayFrame, scaled: Seq<u8>) -> bool {
    let target = frame.target();
    &&& lanczos3_outcome(
        frame.image_rgba@,
        frame.image_size[0],
        frame.image_size[1],
        target.0 as u32,
        target.1 as u32,
        scaled,
    )
    &&& scaled.len() == 4 * (target.0 * target.1)
    &&& frame.image() == target ==> scaled == frame.image_rgba@
}

/// How many bytes the pixels take that are seen of a frame.
pub open spec fn visible_bytes(frame: OverlayFrame) -> int {
    let target = frame.target();
    4 * (visible_extent(frame.position[0], frame.width as nat, target.0) * visible_extent(
        frame.position[1],
        frame.height as nat,
        target.1,
    ))
}

/// Whether pixels and a result are what comes of drawing a frame. Whether there is memory for
/// the pixels is up to the machine.
pub open spec fn is_rendering(
    frame: OverlayFrame,
    before: Seq<u8>,
    after: Seq<u8>,
    result: Result<OverlayPlacement, String>,
) -> bool {
    match frame_fault(frame) {
        Some(fault) => {
            &&& after == before
            &&& result matches Err(message)
            &&& message@ == fault
        },
        None => exists|scaled: Seq<u8>, reserved: bool|
            is_scaled(frame, scaled) && memory_granted(0, visible_bytes(frame) as nat, reserved)
                && #[trigger] is_surface(frame, scaled, reserved, after, result),
    }
}

/// Draws the pixels of the part of a scaled image that is seen. The pixels before are dropped.
fn draw_visible(
    pixels: &mut Vec<u8>,
    scaled: &[u8],
    scaled_size: (u32, u32),
    source: (u32, u32),
    visible: (u32, u32),
    opacity_percent: u8,
)
    requires
        scaled@.len() == 4 * (scaled_size.0 * scaled_size.1),
        source.0 + visible.0 <= scaled_size.0,
        source.1 + visible.1 <= scaled_size.1,
        visible.0 > 0,
        scaled_size.0 * scaled_size.1 * 4 <= MAX_OVERLAY_BYTES,
        old(pixels)@.len() == 0,
    ensures
        final(pixels)@.len() == 4 * (visible.0 * visible.1),
        forall|i: int|
            0 <= i < final(pixels)@.len() ==> #[trigger] final(pixels)@[i] == window_byte(
                scaled@,
                scaled_size.0 as nat,
                (source.0 as nat, source.1 as nat),
                visible.0 as nat,
                opacity_percent,
                i,
            ),
{
    let percent: u32 = if opacity_percent > 100 {
        100
    } else {
        opacity_percent as u32
    };
    let opacity: u32 = percent * 255 / 100;
    proof {
        assert(visible.0 * visible.1 <= scaled_size.0 * scaled_size.1) by (nonlinear_arith)
            requires
                visible.0 <= scaled_size.0,
                visible.1 <= scaled_size.1,
        ;
    }
    let count: u32 = visible.0 * visible.1;
    let mut index: u32 = 0;
    while index < count
        invariant
            index <= count,
            count == visible.0 * visible.1,
            count * 4 <= MAX_OVERLAY_BYTES,
            scaled@.len() == 4 * (scaled_size.0 * scaled_size.1),
            scaled_size.0 * scaled_size.1 * 4 <= MAX_OVERLAY_BYTES,
            source.0 + visible.0 <= scaled_size.0,
            source.1 + visible.1 <= scaled_size.1,
            visible.0 > 0,
            percent == if opacity_percent > 100 {
                100
            } else {
                opacity_percent as int
            },
            opacity == percent * 255 / 100,
            opacity <= 255,
            pixels@.len() == 4 * index,
            forall|i: int|
                0 <= i < pixels@.len() ==> #[trigger] pixels@[i] == window_byte(
                    scaled@,
                    scaled_size.0 as nat,
                    (source.0 as nat, source.1 as nat),
                    visible.0 as nat,
                    opacity_percent,
                    i,
                ),
        decreases count - index,
    {
        proof {
            lemma_row(index as int, visible.0 as int, visible.1 as int);
        }
        let x: u32 = source.0 + index % visible.0;
        let y: u32 = source.1 + index / visible.0;
        proof {
            lemma_pixel_inside(x as int, y as int, scaled_size.0 as int, scaled_size.1 as int);
        }
        let first: usize = 4 * (y as usize * scaled_size.0 as usize + x as usize);
        proof {
            let opaque = scaled@[first + 3];
            assert(opaque * opacity <= 255 * 255) by (nonlinear_arith)
                requires
                    opaque <= 255,
                    opacity <= 255,
            ;
        }
        let alpha: u32 = scaled[first + 3] as u32 * opacity / 255;
        let ghost before = pixels@;
        pixels.push(under_alpha(scaled[first + 2], alpha));
        pixels.push(under_alpha(scaled[first + 1], alpha));
        pixels.push(under_alpha(scaled[first], alpha));
        pixels.push(alpha as u8);
        proof {
            assert forall|i: int| 0 <= i < pixels@.len() implies #[trigger] pixels@[i]
                == window_byte(
                scaled@,
                scaled_size.0 as nat,
                (source.0 as nat, source.1 as nat),
                visible.0 as nat,
                opacity_percent,
                i,
            ) by {
                if i < before.len() {
                    assert(pixels@[i] == before[i]);
                } else {
                    assert(i / 4 == index);
                }
            }
        }
        index += 1;
    }
}

fn under_alpha(channel: u8, alpha: u32) -> (result: u8)
    requires
        alpha <= 255,
    ensures
        result == channel as nat * alpha as nat / 255,
{
    proof {
        assert(channel * alpha <= 255 * 255) by (nonlinear_arith)
            requires
                channel <= 255,
                alpha <= 255,
        ;
    }
    (channel as u32 * alpha / 255) as u8
}

proof fn lemma_row(index: int, width: int, height: int)
    requires
        0 <= index < width * height,
        width > 0,
    ensures
        0 <= index % width < width,
        0 <= index / width < height,
{
    assert(0 <= index / width < height) by (nonlinear_arith)
        requires
            0 <= index < width * height,
            width > 0,
    ;
}

proof fn lemma_pixel_inside(x: int, y: int, width: int, height: int)
    requires
        0 <= x < width,
        0 <= y < height,
    ensures
        0 <= y * width <= y * width + x < width * height,
        4 * (y * width + x) + 3 < 4 * (width * height),
{
    assert(0 <= y * width && y * width + x < width * height) by (nonlinear_arith)
        requires
            0 <= x < width,
            0 <= y < height,
    ;
}

/// How much of an image is seen on one axis of its display, and where.
struct Visible {
    /// The first pixel of the display that the image covers.
    start: i64,
    /// The first pixel of the scaled image that is seen.
    source: i64,
    /// How many pixels are seen. Negative where the image ends before the display starts, or
    /// starts after the display ends.
    extent: i64,
}

fn visible_part(position: Single, extent: u32, target: u32) -> (result: Visible)
    ensures
        result.start == visible_start(position, extent as nat, target as nat),
        result.source == result.start - origin(position, extent as nat, target as nat),
        result.extent == visible_extent(position, extent as nat, target as nat),
        0 <= result.start <= 0x8_0000_0000,
        0 <= result.source <= 0x8_0000_0000,
        result.source + result.extent <= target,
{
    let center: i64 = middle_of(position, extent);
    let origin: i64 = center - (target / 2) as i64;
    let start: i64 = if origin < 0 {
        0
    } else {
        origin
    };
    let end: i64 = origin + target as i64;
    let stop: i64 = if end > extent as i64 {
        extent as i64
    } else {
        end
    };
    Visible { start, source: start - origin, extent: stop - start }
}

/// Draws what is seen of an image that was scaled for its display, and says where the window has
/// to be, where there is memory for the pixels.
pub fn render_scaled_image(
    frame: &OverlayFrame,
    scaled: &[u8],
    reserved: bool,
    pixels: &mut Vec<u8>,
) -> (result: Result<OverlayPlacement, String>)
    requires
        frame_fault(*frame) is None,
        scaled@.len() == 4 * (frame.target().0 * frame.target().1),
        old(pixels)@.len() == 0,
    ensures
        is_surface(*frame, scaled@, reserved, final(pixels)@, result),
{
    if !reserved {
        return Err("could not allocate the overlay pixel buffer".to_owned());
    }
    let (target_width, target_height) = scaled_overlay_size(frame);
    let horizontal = visible_part(frame.position[0], frame.width, target_width);
    let vertical = visible_part(frame.position[1], frame.height, target_height);
    draw_visible(
        pixels,
        scaled,
        (target_width, target_height),
        (horizontal.source as u32, vertical.source as u32),
        (horizontal.extent as u32, vertical.extent as u32),
        frame.opacity_percent,
    );
    assert(is_drawing(*frame, scaled@, pixels@));
    proof {
        let (w, h) = (target_width as int, target_height as int);
        assert(w <= w * h && h <= w * h) by (nonlinear_arith)
            requires
                w >= 1,
                h >= 1,
        ;
    }
    let left: i64 = frame.left as i64 + horizontal.start;
    let top: i64 = frame.top as i64 + vertical.start;
    if left > 0x7fff_ffff {
        return Err("overlay horizontal position is outside Windows coordinates".to_owned());
    }
    if top > 0x7fff_ffff {
        return Err("overlay vertical position is outside Windows coordinates".to_owned());
    }
    Ok(
        OverlayPlacement {
            left: left as i32,
            top: top as i32,
            width: horizontal.extent as i32,
            height: vertical.extent as i32,
        },
    )
}

/// Whether a frame can be drawn without overflow: the bytes of its image and of the scaled image
/// can be counted, and the image can be scaled where something of it is seen.
pub open spec fn renderable(frame: OverlayFrame) -> bool {
    &&& frame.has_pixels() ==> frame.image_bytes() <= u64::MAX
    &&& frame.has_pixels() && frame.image_rgba@.len() == frame.image_bytes()
        ==> frame.target().0 * frame.target().1 * 4 <= u64::MAX
    &&& frame_fault(frame) is None ==> resizable(
        frame.image_size[0],
        frame.image_size[1],
        frame.target().0 as u32,
        frame.target().1 as u32,
    )
}

/// Whether a frame can be drawn without overflow.
pub fn can_render(frame: &OverlayFrame) -> (result: bool)
    ensures
        result == renderable(*frame),
{
    let image_width: u32 = frame.image_size[0];
    let image_height: u32 = frame.image_size[1];
    if frame.width == 0 || frame.height == 0 || image_width == 0 || image_height == 0 {
        return true;
    }
    let image_bytes: u128 = four_bytes_each(image_width, image_height);
    if image_bytes > u64::MAX as u128 {
        return false;
    }
    if frame.image_rgba.len() as u128 != image_bytes {
        return true;
    }
    let (width, height) = scaled_overlay_size(frame);
    let target_bytes: u128 = four_bytes_each(width, height);
    if target_bytes > u64::MAX as u128 {
        return false;
    }
    target_bytes > MAX_OVERLAY_BYTES as u128 || visible_part(
        frame.position[0],
        frame.width,
        width,
    ).extent <= 0 || visible_part(frame.position[1], frame.height, height).extent <= 0
        || can_resize(image_width, image_height, width, height)
}

fn four_bytes_each(width: u32, height: u32) -> (bytes: u128)
    ensures
        bytes == width * height * 4,
{
    assert(width * height <= 0xffff_ffff * 0xffff_ffff) by (nonlinear_arith)
        requires
            width <= 0xffff_ffff,
            height <= 0xffff_ffff,
    ;
    width as u128 * height as u128 * 4
}

/// Draws what is seen of an image, and says where the window has to be.
pub fn render_overlay_surface(frame: &OverlayFrame, pixels: &mut Vec<u8>) -> (result: Result<
    OverlayPlacement,
    String,
>)
    requires
        renderable(*frame),
    ensures
        is_rendering(*frame, old(pixels)@, final(pixels)@, result),
{
    if frame.width == 0 || frame.height == 0 || frame.image_size[0] == 0 || frame.image_size[1]
        == 0 {
        return Err("overlay or image dimensions are empty".to_owned());
    }
    let image_bytes: u64 = frame.image_size[0] as u64 * frame.image_size[1] as u64 * 4;
    if image_bytes > usize::MAX as u64 {
        return Err("image dimensions are too large".to_owned());
    }
    if frame.image_rgba.len() as u64 != image_bytes {
        return Err("image pixel buffer has an invalid length".to_owned());
    }
    let (target_width, target_height) = scaled_overlay_size(frame);
    if let Err(message) = overlay_surface_length(target_width, target_height) {
        return Err(message);
    }
    let horizontal = visible_part(frame.position[0], frame.width, target_width);
    let vertical = visible_part(frame.position[1], frame.height, target_height);
    if horizontal.extent < 0 {
        return Err("overlay has no visible width".to_owned());
    }
    if vertical.extent < 0 {
        return Err("overlay has no visible height".to_owned());
    }
    if horizontal.extent == 0 || vertical.extent == 0 {
        return Err("overlay is outside the selected display".to_owned());
    }
    proof {
        let (w, h) = (horizontal.extent as int, vertical.extent as int);
        assert(w * h * 4 <= target_width * target_height * 4) by (nonlinear_arith)
            requires
                0 <= w <= target_width,
                0 <= h <= target_height,
        ;
    }
    let visible = overlay_surface_length(horizontal.extent as u32, vertical.extent as u32);
    let length: usize = match visible {
        Ok(length) => length,
        Err(message) => return Err(message),
    };
    let scaled = resize_rgba(
        &frame.image_rgba,
        frame.image_size[0],
        frame.image_size[1],
        target_width,
        target_height,
    );
    pixels.clear();
    let reserved = reserve(pixels, length);
    proof {
        let whole = frame.image_rgba@;
        assert(whole.take(whole.len() as int) =~= whole);
        assert(is_scaled(*frame, scaled@));
    }
    let result = render_scaled_image(frame, scaled.as_slice(), reserved, pixels);
    assert(is_surface(*frame, scaled@, reserved, pixels@, result));
    result
}

/// What the window's thread is asked to do.
#[derive(Debug)]
pub enum OverlayCommand {
    Show(OverlayFrame),
    Hide,
    Shutdown,
}

/// The one command that waits for the window's thread. A newer one replaces it.
pub struct OverlayMailbox {
    pending: Option<OverlayCommand>,
}

impl View for OverlayMailbox {
    type V = Option<OverlayCommand>;

    closed spec fn view(&self) -> Option<OverlayCommand> {
        self.pending
    }
}

impl OverlayMailbox {
    /// No command waits.
    pub fn new() -> (result: Self)
        ensures
            result@ is None,
    {
        OverlayMailbox { pending: None }
    }

    /// Leaves a command, and says whether the thread has to be woken for it: it has been woken
    /// already where another command was waiting.
    pub fn put(&mut self, command: OverlayCommand) -> (wake: bool)
        ensures
            final(self)@ == Some(command),
            wake == (old(self)@ is None),
    {
        let wake = self.pending.is_none();
        self.pending = Some(command);
        wake
    }

    /// Takes back the command, because the thread could not be woken for it.
    pub fn revoke(&mut self)
        ensures
            final(self)@ is None,
    {
        self.pending = None;
    }

    /// The command, for the thread.
    pub fn take(&mut self) -> (result: Option<OverlayCommand>)
        ensures
            result == old(self)@,
            final(self)@ is None,
    {
        self.pending.take()
    }
}

/// Whether a bitmap can be used again for the pixels of a window.
pub fn bitmap_fits(
    width: i32,
    height: i32,
    length: usize,
    placement: &OverlayPlacement,
    pixel_length: usize,
) -> (result: bool)
    ensures
        result == (width == placement.width && height == placement.height && length
            == pixel_length),
{
    width == placement.width && height == placement.height && length == pixel_length
}

/// Checks that pixels fill a bitmap before they are copied into it.
pub fn check_pixel_length(length: usize, pixels: &[u8]) -> (result: Result<(), String>)
    ensures
        match result {
            Ok(_) => length == pixels@.len(),
            Err(message) => length != pixels@.len() && message@
                == "GDI surface and pixel buffer lengths differ"@,
        },
{
    if length != pixels.len() {
        return Err("GDI surface and pixel buffer lengths differ".to_owned());
    }
    Ok(())
}

/// However extreme the proportions of an image are, it is at least a pixel wide and high and not
/// larger than the display.
pub proof fn overlay_fits_the_display(
    display: (nat, nat),
    image: (nat, nat),
    width_percent: nat,
)
    requires
        display.0 > 0,
        display.1 > 0,
        image.0 > 0,
        image.1 > 0,
    ensures
        1 <= scaled_size(display, image, width_percent).0 <= display.0,
        1 <= scaled_size(display, image, width_percent).1 <= display.1,
{
}

/// The window never reaches over an edge of the display.
pub proof fn window_stays_on_the_display(position: Single, extent: nat, target: nat)
    ensures
        0 <= visible_start(position, extent, target),
        visible_end(position, extent, target) <= extent,
        visible_extent(position, extent, target) <= target,
{
}

/// No colour of the window exceeds its alpha, and both are bytes: the pixels are premultiplied.
pub proof fn window_pixels_are_premultiplied(
    scaled: Seq<u8>,
    scaled_width: nat,
    source: (nat, nat),
    visible_width: nat,
    opacity_percent: u8,
    i: int,
)
    requires
        visible_width > 0,
        i >= 0,
    ensures
        window_byte(scaled, scaled_width, source, visible_width, opacity_percent, i)
            <= window_byte(
            scaled,
            scaled_width,
            source,
            visible_width,
            opacity_percent,
            i - i % 4 + 3,
        ) <= 255,
{
    let last = i - i % 4 + 3;
    assert(last / 4 == i / 4 && last % 4 == 3);
    let pixel = i / 4;
    let x = source.0 + pixel % visible_width as int;
    let y = source.1 + pixel / visible_width as int;
    let first = 4 * (y * scaled_width + x);
    let opaque = scaled[first + 3] as nat;
    let percent = if opacity_percent > 100 {
        100nat
    } else {
        opacity_percent as nat
    };
    let opacity = percent * 255 / 100;
    assert(opaque * opacity <= 255 * 255) by (nonlinear_arith)
        requires
            opaque <= 255,
            opacity <= 255,
    ;
    let alpha = window_alpha(scaled[first + 3], opacity_percent);
    if i % 4 != 3 {
        let channel = scaled[first + 2 - i % 4] as nat;
        assert(channel * alpha <= 255 * alpha) by (nonlinear_arith)
            requires
                channel <= 255,
        ;
    }
}

/// The opacity of the window is the settings' share of 255, and a pixel's alpha that share of the
/// image's alpha, each rounded down. More than a hundred percent is a hundred.
pub proof fn window_alpha_is_the_share(alpha: u8, opacity_percent: u8)
    ensures
        ({
            let (a, p, w) = (
                alpha as int,
                opacity_percent as int,
                window_alpha(alpha, opacity_percent) as int,
            );
            &&& p <= 100 ==> exists|opacity: int|
                255 * p - 100 < #[trigger] (100 * opacity) <= 255 * p && a * opacity - 255 < 255 * w
                    <= a * opacity
            &&& p <= 100 ==> 100 * w <= a * p < 100 * w + 200
            &&& p >= 100 ==> w == a
            &&& a == 255 && p >= 5 ==> w >= 12
        }),
{
    let (a, p) = (alpha as int, opacity_percent as int);
    if p <= 100 {
        let opacity = p * 255 / 100;
        let product = a * opacity;
        assert(255 * p - 100 < 100 * opacity <= 255 * p);
        assert(product - 255 < 255 * (product / 255) <= product);
        let w = product / 255;
        assert(100 * w <= a * p < 100 * w + 200) by (nonlinear_arith)
            requires
                255 * p - 100 < 100 * opacity <= 255 * p,
                a * opacity - 255 < 255 * w <= a * opacity,
                0 <= a <= 255,
        ;
    }
    assert(a * 255 / 255 == a);
}

/// A pixel of the window is the one of the scaled image that stands at its place: blue, green and
/// red, in that order, under the window's alpha, rounded down, and that alpha.
pub proof fn window_pixels_are_the_images(
    scaled: Seq<u8>,
    scaled_width: nat,
    source: (nat, nat),
    visible_width: nat,
    opacity_percent: u8,
    x: nat,
    y: nat,
)
    requires
        x < visible_width,
    ensures
        ({
            let place = (4 * ((source.1 + y) * scaled_width + (source.0 + x))) as int;
            let first = (4 * (y * visible_width + x)) as int;
            let byte = |i: int|
                window_byte(scaled, scaled_width, source, visible_width, opacity_percent, first + i);
            let alpha = window_alpha(scaled[place + 3], opacity_percent);
            &&& byte(3) == alpha
            &&& scaled[place + 2] * alpha - 255 < 255 * byte(0) <= scaled[place + 2] * alpha
            &&& scaled[place + 1] * alpha - 255 < 255 * byte(1) <= scaled[place + 1] * alpha
            &&& scaled[place] * alpha - 255 < 255 * byte(2) <= scaled[place] * alpha
        }),
{
    let pixel = (y * visible_width + x) as int;
    vstd::arithmetic::div_mod::lemma_fundamental_div_mod_converse(
        pixel,
        visible_width as int,
        y as int,
        x as int,
    );
    let first = 4 * pixel;
    assert(first / 4 == pixel && (first + 1) / 4 == pixel && (first + 2) / 4 == pixel && (first + 3)
        / 4 == pixel);
    let place = (4 * ((source.1 + y) * scaled_width + (source.0 + x))) as int;
    let alpha = window_alpha(scaled[place + 3], opacity_percent);
    let (r, g, b) = (
        scaled[place] as nat * alpha,
        scaled[place + 1] as nat * alpha,
        scaled[place + 2] as nat * alpha,
    );
    assert(b - 255 < 255 * (b / 255) <= b);
    assert(g - 255 < 255 * (g / 255) <= g);
    assert(r - 255 < 255 * (r / 255) <= r);
}

/// An image is as wide as its share of the display, rounded down, at least a pixel and at most the
/// display, and as high as its proportions want, rounded down, at least a pixel. Where that is
/// higher than the display it is as high as the display and as wide as its proportions then want.
pub proof fn overlay_keeps_the_proportions(
    display: (nat, nat),
    image: (nat, nat),
    width_percent: nat,
)
    requires
        display.0 > 0,
        display.1 > 0,
        image.0 > 0,
        image.1 > 0,
    ensures
        ({
            let (w, h) = scaled_size(display, image, width_percent);
            exists|wanted: int|
                {
                    &&& #[trigger] is_share(wanted, display.0 as int, width_percent as int)
                    &&& {
                        ||| w == wanted && h <= display.1 && (h * image.0 <= wanted * image.1 < (h
                            + 1) * image.0 || h == 1 && wanted * image.1 < image.0)
                        ||| h == display.1 && wanted * image.1 >= (display.1 + 1) * image.0 && (w
                            * image.1 <= display.1 * image.0 < (w + 1) * image.1 || w == 1
                            && display.1 * image.0 < image.1)
                    }
                }
        }),
{
    let wanted = wanted_width(display.0, width_percent);
    let product = display.0 * width_percent;
    let share = product / 100;
    if share > display.0 {
        assert(width_percent > 100) by (nonlinear_arith)
            requires
                share > display.0,
                share == display.0 * width_percent / 100,
        ;
    }
    if width_percent >= 100 {
        assert(product >= display.0 * 100) by (nonlinear_arith)
            requires
                product == display.0 * width_percent,
                width_percent >= 100,
        ;
    }
    assert(is_share(wanted as int, display.0 as int, width_percent as int));
    let area = (wanted * image.1) as int;
    let exact = area / image.0 as int;
    lemma_quotient(area, image.0 as int);
    let height = at_least_one((wanted * image.1) / image.0);
    let other = (display.1 * image.0) as int;
    let narrow = other / image.1 as int;
    lemma_quotient(other, image.1 as int);
    if height <= display.1 {
        if exact == 0 {
            assert((exact + 1) * image.0 == image.0) by (nonlinear_arith)
                requires
                    exact == 0,
            ;
        }
    } else {
        assert(exact * image.0 >= (display.1 + 1) * image.0) by (nonlinear_arith)
            requires
                exact >= display.1 + 1,
        ;
        if narrow == 0 {
            assert((narrow + 1) * image.1 == image.1) by (nonlinear_arith)
                requires
                    narrow == 0,
            ;
        }
        assert(narrow <= display.0) by (nonlinear_arith)
            requires
                narrow * image.1 <= display.1 * image.0,
                wanted * image.1 >= (display.1 + 1) * image.0,
                wanted <= display.0,
                image.1 > 0,
                image.0 > 0,
        ;
    }
}

/// Whether a width is its share of a display's in percent, rounded down, but at least a pixel and
/// at most the display's.
pub open spec fn is_share(wanted: int, width: int, percent: int) -> bool {
    &&& 1 <= wanted <= width
    &&& percent >= 100 ==> wanted == width
    &&& percent < 100 && width * percent >= 100 ==> 100 * wanted <= width * percent < 100 * wanted
        + 100
    &&& width * percent < 100 ==> wanted == 1
}

proof fn lemma_quotient(n: int, d: int)
    requires
        n >= 0,
        d > 0,
    ensures
        n / d * d <= n < (n / d + 1) * d,
        n / d >= 0,
{
    assert(n / d * d <= n < (n / d + 1) * d && n / d >= 0) by (nonlinear_arith)
        requires
            n >= 0,
            d > 0,
    ;
}

/// The middle of an image is on the pixel at its position: at that share of the display, off by
/// half a pixel and one part in `2^24` at most. A position that is no number counts as zero.
pub proof fn middle_is_at_the_position(position: Single, extent: nat)
    requires
        extent < 0x100_0000,
    ensures
        position.is_nan() ==> middle(position, extent) == 0,
        !position.is_nan() ==> {
            let twice = 2 * (middle(position, extent) * pow2(1400));
            let share = at_scale(position.clamped_to_unit()->0, 1400);
            let one = pow2(1400);
            &&& 0x100_0000 * twice <= 0x100_0001 * (2 * (extent * share)) + 0x100_0000 * one
            &&& 0x100_0000 * twice + 0x100_0000 * one >= 0xff_ffff * (2 * (extent * share))
        },
{
    if !position.is_nan() {
        pixels_lie_at_their_share(position, extent);
    }
}

/// An image starts half its extent before its middle and is seen from there on, as far as it is on
/// the display: each of its pixels is seen exactly where it falls on one of the display.
pub proof fn what_is_on_the_display_is_seen(position: Single, extent: nat, target: nat, pixel: int)
    requires
        0 <= pixel < target,
    ensures
        ({
            let start = middle(position, extent) - target / 2;
            let at = start + pixel;
            &&& origin(position, extent, target) == start
            &&& 0 <= at < extent <==> visible_start(position, extent, target) <= at < visible_end(
                position,
                extent,
                target,
            )
            &&& visible_extent(position, extent, target) == visible_end(position, extent, target)
                - visible_start(position, extent, target)
        }),
{
}

/// The window is where what is seen of the image is, and as large as that. Where its corner is
/// beyond the coordinates of Windows, there is none.
pub proof fn window_is_where_the_image_is_seen(
    frame: OverlayFrame,
    result: Result<OverlayPlacement, String>,
)
    requires
        is_placement(frame, result),
    ensures
        ({
            let (width, height) = frame.target();
            let x = visible_start(frame.position[0], frame.width as nat, width);
            let y = visible_start(frame.position[1], frame.height as nat, height);
            &&& result is Ok <==> frame.left + x <= 0x7fff_ffff && frame.top + y <= 0x7fff_ffff
            &&& result matches Ok(placement) ==> {
                &&& placement.left - frame.left == x
                &&& placement.top - frame.top == y
                &&& x + placement.width == visible_end(
                    frame.position[0],
                    frame.width as nat,
                    width,
                )
                &&& y + placement.height == visible_end(
                    frame.position[1],
                    frame.height as nat,
                    height,
                )
            }
        }),
{
}

/// A frame with pixels, whose image has four bytes for each of its own, is drawn where something
/// of it is seen and where the image, as it is to be seen, takes 256 MiB at most.
pub proof fn frames_that_can_be_drawn(frame: OverlayFrame)
    requires
        frame.image_size[0] * frame.image_size[1] * 4 <= usize::MAX,
    ensures
        frame_fault(frame) is None <==> {
            &&& frame.width >= 1 && frame.height >= 1
            &&& frame.image_size[0] >= 1 && frame.image_size[1] >= 1
            &&& frame.image_rgba@.len() == 4 * (frame.image_size[0] * frame.image_size[1])
            &&& frame.target().0 * frame.target().1 <= 67_108_864
            &&& visible_start(frame.position[0], frame.width as nat, frame.target().0)
                < visible_end(frame.position[0], frame.width as nat, frame.target().0)
            &&& visible_start(frame.position[1], frame.height as nat, frame.target().1)
                < visible_end(frame.position[1], frame.height as nat, frame.target().1)
        },
{
}

/// What is drawn has four bytes for each pixel that is seen, and each pixel comes from the one of
/// the image that falls on it.
pub proof fn pixels_come_from_where_they_are_seen(
    frame: OverlayFrame,
    scaled: Seq<u8>,
    pixels: Seq<u8>,
    x: int,
    y: int,
)
    requires
        is_drawing(frame, scaled, pixels),
        ({
            let (width, height) = frame.target();
            &&& visible_start(frame.position[0], frame.width as nat, width) <= x < visible_end(
                frame.position[0],
                frame.width as nat,
                width,
            )
            &&& visible_start(frame.position[1], frame.height as nat, height) <= y < visible_end(
                frame.position[1],
                frame.height as nat,
                height,
            )
        }),
    ensures
        ({
            let (width, height) = frame.target();
            let left = visible_start(frame.position[0], frame.width as nat, width);
            let top = visible_start(frame.position[1], frame.height as nat, height);
            let columns = visible_end(frame.position[0], frame.width as nat, width) - left;
            let rows = visible_end(frame.position[1], frame.height as nat, height) - top;
            let from_x = x - origin(frame.position[0], frame.width as nat, width);
            let from_y = y - origin(frame.position[1], frame.height as nat, height);
            let to = 4 * ((y - top) * columns + (x - left));
            &&& pixels.len() == 4 * (columns * rows)
            &&& 0 <= to && to + 3 < pixels.len()
            &&& pixels[to + 3] == window_alpha(
                scaled[4 * (from_y * width + from_x) + 3],
                frame.opacity_percent,
            )
        }),
{
    let (width, height) = frame.target();
    let left = visible_start(frame.position[0], frame.width as nat, width);
    let top = visible_start(frame.position[1], frame.height as nat, height);
    let columns = visible_end(frame.position[0], frame.width as nat, width) - left;
    let rows = visible_end(frame.position[1], frame.height as nat, height) - top;
    let pixel = (y - top) * columns + (x - left);
    lemma_pixel_inside(x - left, y - top, columns, rows);
    let i = 4 * pixel + 3;
    assert(i / 4 == pixel);
    assert(i % 4 == 3);
    vstd::arithmetic::div_mod::lemma_fundamental_div_mod_converse(
        pixel,
        columns,
        y - top,
        x - left,
    );
    assert(0 <= pixel < columns * rows);
}

/// Drawing a frame ends with its window and the pixels that are seen of it, or with a reason. Where
/// nothing can be drawn, whatever the machine, the pixels before are left alone.
pub proof fn drawing_ends_with_a_window_or_a_reason(
    frame: OverlayFrame,
    before: Seq<u8>,
    after: Seq<u8>,
    result: Result<OverlayPlacement, String>,
)
    requires
        is_rendering(frame, before, after, result),
    ensures
        frame_fault(frame) is Some ==> result is Err && after == before,
        frame_fault(frame) is None && after.len() == 0 ==> result is Err,
        result matches Ok(placement) ==> {
            &&& frame_fault(frame) is None
            &&& placement.width > 0 && placement.height > 0
            &&& after.len() == 4 * (placement.width * placement.height)
            &&& placement.left >= frame.left && placement.top >= frame.top
            &&& placement.left + placement.width <= frame.left + frame.width
            &&& placement.top + placement.height <= frame.top + frame.height
        },
{
    if frame_fault(frame) is None {
        let (width, height) = frame.target();
        let columns = visible_extent(frame.position[0], frame.width as nat, width);
        let rows = visible_extent(frame.position[1], frame.height as nat, height);
        assert(columns * rows > 0) by (nonlinear_arith)
            requires
                columns > 0,
                rows > 0,
        ;
    }
}

/// Without memory for the pixels there is no window; with it, what is drawn does not depend on the
/// machine.
pub proof fn memory_decides_nothing_else(
    frame: OverlayFrame,
    scaled: Seq<u8>,
    pixels: Seq<u8>,
    result: Result<OverlayPlacement, String>,
    other_pixels: Seq<u8>,
    other: Result<OverlayPlacement, String>,
)
    requires
        is_surface(frame, scaled, true, pixels, result),
        is_surface(frame, scaled, true, other_pixels, other),
    ensures
        pixels == other_pixels,
        result is Ok <==> other is Ok,
        result is Ok ==> result->Ok_0 == other->Ok_0,
        !is_surface(frame, scaled, false, pixels, Ok(result->Ok_0)),
{
    assert(pixels =~= other_pixels) by {
        assert forall|i: int| 0 <= i < pixels.len() implies pixels[i] == other_pixels[i] by {}
    }
}

/// A frame is scaled by its own display, its own image and its own share of the width.
pub proof fn frames_are_scaled_for_their_displays(frame: OverlayFrame)
    ensures
        frame.display().0 == frame.width && frame.display().1 == frame.height,
        frame.image().0 == frame.image_size[0] && frame.image().1 == frame.image_size[1],
        frame.target() == scaled_size(
            (frame.width as nat, frame.height as nat),
            (frame.image_size[0] as nat, frame.image_size[1] as nat),
            frame.width_percent as nat,
        ),
        frame.image_bytes() == 4 * (frame.image_size[0] * frame.image_size[1]),
{
}

/// A scaled image has four bytes for each pixel of its size on the display, and is the image
/// itself where that has this size already. The window takes four bytes for each pixel of the
/// display that the image covers.
pub proof fn scaled_images_have_every_pixel(frame: OverlayFrame, scaled: Seq<u8>)
    requires
        is_scaled(frame, scaled),
    ensures
        scaled.len() == 4 * (frame.target().0 * frame.target().1),
        frame.image_size[0] == frame.target().0 && frame.image_size[1] == frame.target().1
            ==> scaled == frame.image_rgba@,
        ({
            let (width, height) = frame.target();
            let columns = visible_end(frame.position[0], frame.width as nat, width)
                - visible_start(frame.position[0], frame.width as nat, width);
            let rows = visible_end(frame.position[1], frame.height as nat, height) - visible_start(
                frame.position[1],
                frame.height as nat,
                height,
            );
            visible_bytes(frame) == 4 * (columns * rows)
        }),
{
}

} // verus!
