//! The reminder overlay on Wayland: which output, which size, which pixels.

use vstd::arithmetic::power2::*;
use vstd::prelude::*;
use vstd::string::*;

use crate::binary_float::{
    at_most, at_scale, denominator_at, difference, greater, lemma_at_most_at_scale,
    lemma_difference_at_scale, lemma_integers_are_exact, lemma_least_exponent, lemma_mantissa,
    lemma_nearest_integer_at_most, lemma_nearest_integer_at_scale, lemma_not_huge, lemma_not_tiny,
    lemma_offset, lemma_relative_error, lemma_rounded, nearest_even, nearest_integer, numerator_at,
    round_ratio, rounded, Dyadic, Format, Single,
};
use crate::resample::{lanczos3_outcome, resizable, resize_rgba};
use crate::text::{decimal, optional_chars, push_decimal, same_text};

verus! {

/// The most bytes that an overlay's pixels may take.
pub const MAX_OVERLAY_BYTES: u64 = 268_435_456;

/// An output of the compositor.
#[derive(Debug, Clone)]
pub struct NativeDisplay {
    pub id: String,
    pub label: String,
}

/// The size and the place of an overlay on its output, in logical pixels.
#[derive(Debug, Clone, Copy, PartialEq, Eq)]
pub struct OverlayLayout {
    pub size: (u32, u32),
    pub margin: (i32, i32),
}

/// The width that the settings ask for.
pub open spec fn requested_width(monitor_width: nat, width_percent: nat) -> nat {
    let width = monitor_width * width_percent / 100;
    if width == 0 {
        1
    } else {
        width
    }
}

/// The height that goes with a width.
pub open spec fn requested_height(width: nat, image: (nat, nat)) -> nat {
    width * image.1 / image.0
}

/// By how much an image of the requested size has to shrink, in double precision: the greater
/// one of both ratios to the monitor, and at least one.
pub open spec fn fit_factor(monitor: (nat, nat), requested: (nat, nat)) -> (nat, int) {
    let width = rounded(Format::Double, requested.0, 1, 0);
    let height = rounded(Format::Double, requested.1, 1, 0);
    greater(
        greater(
            rounded(Format::Double, width.0, monitor.0, width.1),
            rounded(Format::Double, height.0, monitor.1, height.1),
        ),
        (1, 0),
    )
}

/// One side of the requested size after it has shrunk, in whole pixels.
pub open spec fn fitted_side(side: nat, fit: (nat, int)) -> nat {
    let exact = rounded(Format::Double, side, 1, 0);
    let pixels = nearest_integer(rounded(Format::Double, exact.0, fit.0, exact.1 - fit.1));
    if pixels == 0 {
        1
    } else {
        pixels
    }
}

/// The size of the overlay.
pub open spec fn fitted_size(monitor: (nat, nat), image: (nat, nat), width_percent: nat) -> (
    nat,
    nat,
) {
    let width = requested_width(monitor.0, width_percent);
    let height = requested_height(width, image);
    let fit = fit_factor(monitor, (width, height));
    (fitted_side(width, fit), fitted_side(height, fit))
}

/// Where an overlay of `extent` pixels starts on a monitor of `monitor` pixels so that its
/// middle is at `position`, as far as it then stays on the monitor.
pub open spec fn margin(position: Single, monitor: nat, extent: nat) -> nat {
    match position.offset_in(monitor) {
        None => 0,
        Some(center) => {
            let single_extent = rounded(Format::Single, extent, 1, 0);
            let half = (single_extent.0, single_extent.1 - 1);
            let room = if monitor >= extent {
                (monitor - extent) as nat
            } else {
                0
            };
            let last = nearest_integer(rounded(Format::Single, room, 1, 0));
            let start = if at_most(center, half) {
                0
            } else {
                nearest_integer(difference(center, half))
            };
            let inside = if start <= last {
                start
            } else {
                last
            };
            if inside <= i32::MAX {
                inside
            } else {
                i32::MAX as nat
            }
        },
    }
}

fn margin_of(position: Single, monitor: u32, extent: u32) -> (result: i32)
    requires
        extent > 0,
    ensures
        result == margin(position, monitor as nat, extent as nat),
{
    let center = match position.offset(monitor) {
        Some(center) => center,
        None => {
            return 0;
        },
    };
    let mut half = Dyadic::of_integer(Format::Single, extent as u64);
    half.exponent = half.exponent - 1;
    let room: u32 = if monitor >= extent {
        monitor - extent
    } else {
        0
    };
    let last: u64 = Dyadic::of_integer(Format::Single, room as u64).nearest_integer();
    proof {
        lemma2_to64();
    }
    let start: u64 = if center.is_at_most(half) {
        0
    } else {
        center.minus(half).nearest_integer()
    };
    let inside: u64 = if start <= last {
        start
    } else {
        last
    };
    if inside <= 0x7fff_ffff {
        inside as i32
    } else {
        0x7fff_ffff
    }
}

fn fit_size_factor(monitor: (u32, u32), requested: (u64, u64)) -> (fit: Dyadic)
    requires
        monitor.0 > 0,
        monitor.1 > 0,
    ensures
        fit@ == fit_factor(
            (monitor.0 as nat, monitor.1 as nat),
            (requested.0 as nat, requested.1 as nat),
        ),
        fit.mantissa > 0,
        fit.mantissa <= Format::Double.mantissa_bound(),
        -5000 <= fit.exponent <= 5000,
{
    let width = Dyadic::of_integer(Format::Double, requested.0);
    let height = Dyadic::of_integer(Format::Double, requested.1);
    proof {
        lemma2_to64();
        lemma2_to64_rest();
    }
    let horizontal = round_ratio(
        Format::Double,
        width.mantissa as u128,
        monitor.0 as u128,
        width.exponent,
    );
    let vertical = round_ratio(
        Format::Double,
        height.mantissa as u128,
        monitor.1 as u128,
        height.exponent,
    );
    let both = horizontal.greater(vertical);
    let one = Dyadic::one();
    let fit = both.greater(one);
    proof {
        if fit.mantissa == 0 {
            let power = pow2(fit.exponent as nat);
            assert(0 * power == 0) by (nonlinear_arith);
            assert(at_most((0, fit.exponent as int), (1, 0)));
        }
    }
    fit
}

fn fit_side(side: u64, fit: Dyadic) -> (pixels: u64)
    requires
        0 < fit.mantissa <= Format::Double.mantissa_bound(),
        -5000 <= fit.exponent <= 5000,
    ensures
        pixels == if fitted_side(side as nat, fit@) <= u64::MAX {
            fitted_side(side as nat, fit@)
        } else {
            u64::MAX as nat
        },
{
    let exact = Dyadic::of_integer(Format::Double, side);
    proof {
        lemma2_to64();
        lemma2_to64_rest();
    }
    let shrunk = round_ratio(
        Format::Double,
        exact.mantissa as u128,
        fit.mantissa as u128,
        exact.exponent - fit.exponent,
    );
    let pixels: u64 = shrunk.nearest_integer();
    if pixels == 0 {
        1
    } else {
        pixels
    }
}

/// Whether a result is the size and the place of an image on a monitor, or why there is none.
pub open spec fn is_layout(
    result: Result<OverlayLayout, String>,
    monitor_size: (u32, u32),
    image_size: [u32; 2],
    width_percent: u8,
    position: [Single; 2],
) -> bool {
    let monitor = (monitor_size.0 as nat, monitor_size.1 as nat);
    let image = (image_size[0] as nat, image_size[1] as nat);
    let size = fitted_size(monitor, image, width_percent as nat);
    if monitor.0 == 0 || monitor.1 == 0 || image.0 == 0 || image.1 == 0 {
        result is Err && result->Err_0@ == "overlay or image dimensions are empty"@
    } else if size.0 > u32::MAX {
        result is Err && result->Err_0@ == "overlay width is too large"@
    } else if size.1 > u32::MAX {
        result is Err && result->Err_0@ == "overlay height is too large"@
    } else {
        &&& result is Ok
        &&& result->Ok_0.size.0 == size.0
        &&& result->Ok_0.size.1 == size.1
        &&& result->Ok_0.margin.0 == margin(position[0], monitor.0, size.0)
        &&& result->Ok_0.margin.1 == margin(position[1], monitor.1, size.1)
    }
}

/// The size and the place of an image on a monitor.
pub fn overlay_layout(
    monitor_size: (u32, u32),
    image_size: [u32; 2],
    width_percent: u8,
    position: [Single; 2],
) -> (result: Result<OverlayLayout, String>)
    requires
        monitor_size.1 > 0 && image_size[0] > 0 ==> requested_width(
            monitor_size.0 as nat,
            width_percent as nat,
        ) * image_size[1] <= u64::MAX,
    ensures
        is_layout(result, monitor_size, image_size, width_percent, position),
{
    if monitor_size.0 == 0 || monitor_size.1 == 0 || image_size[0] == 0 || image_size[1] == 0 {
        return Err("overlay or image dimensions are empty".to_owned());
    }
    assert(monitor_size.0 * width_percent <= 0xffff_ffff * 0xff) by (nonlinear_arith)
        requires
            monitor_size.0 <= 0xffff_ffff,
            width_percent <= 0xff,
    ;
    let share: u64 = monitor_size.0 as u64 * width_percent as u64 / 100;
    let width: u64 = if share == 0 {
        1
    } else {
        share
    };
    let height: u64 = width * image_size[1] as u64 / image_size[0] as u64;
    let fit = fit_size_factor(monitor_size, (width, height));
    let fitted_width: u64 = fit_side(width, fit);
    let fitted_height: u64 = fit_side(height, fit);
    if fitted_width > 0xffff_ffff {
        return Err("overlay width is too large".to_owned());
    }
    if fitted_height > 0xffff_ffff {
        return Err("overlay height is too large".to_owned());
    }
    let size: (u32, u32) = (fitted_width as u32, fitted_height as u32);
    Ok(
        OverlayLayout {
            size,
            margin: (
                margin_of(position[0], monitor_size.0, size.0),
                margin_of(position[1], monitor_size.1, size.1),
            ),
        },
    )
}

/// The identity of an output: its name, or its number where it has none.
pub open spec fn output_identity(id: u32, name: Option<Seq<char>>) -> Seq<char> {
    match name {
        Some(name) => name,
        None => "wayland-output-"@ + decimal(id as nat),
    }
}

/// The identity of an output: its name, or its number where it has none.
pub fn output_id_from(id: u32, name: Option<&str>) -> (result: String)
    ensures
        result@ == output_identity(id, optional_chars(name)),
{
    match name {
        Some(name) => name.to_owned(),
        None => {
            let mut text = "wayland-output-".to_owned();
            push_decimal(&mut text, id as u64);
            text
        },
    }
}

/// The name of an output for people.
pub open spec fn output_label(
    name: Option<Seq<char>>,
    description: Option<Seq<char>>,
    model: Seq<char>,
    logical_size: Option<(u32, u32)>,
) -> Seq<char> {
    let shown_name = match name {
        Some(name) => name,
        None => "Wayland output"@,
    };
    let shown_description = match description {
        Some(description) => if description != shown_name {
            description
        } else {
            model
        },
        None => model,
    };
    let label = shown_name + " — "@ + shown_description;
    match logical_size {
        None => label,
        Some((width, height)) => label + " ("@ + decimal(width as nat) + " x "@ + decimal(
            height as nat,
        ) + ")"@,
    }
}

/// The name of an output for people.
pub fn output_label_from(
    name: Option<&str>,
    description: Option<&str>,
    model: &str,
    logical_size: Option<(u32, u32)>,
) -> (result: String)
    ensures
        result@ == output_label(
            optional_chars(name),
            optional_chars(description),
            model@,
            logical_size,
        ),
{
    let shown_name = match name {
        Some(name) => name,
        None => "Wayland output",
    };
    let shown_description = match description {
        Some(description) => if !same_text(description, shown_name) {
            description
        } else {
            model
        },
        None => model,
    };
    let mut label = shown_name.to_owned();
    label.append(" — ");
    label.append(shown_description);
    if let Some((width, height)) = logical_size {
        label.append(" (");
        push_decimal(&mut label, width as u64);
        label.append(" x ");
        push_decimal(&mut label, height as u64);
        label.append(")");
    }
    label
}

/// The size of an output in logical pixels: what the compositor says, or else what its current
/// mode comes to under its scale. Nothing where a side has no pixels.
pub open spec fn logical_size(
    stated: Option<(i32, i32)>,
    scale_factor: int,
    current_mode: Option<(i32, i32)>,
) -> Option<(int, int)> {
    let scale = if scale_factor < 1 {
        1
    } else {
        scale_factor
    };
    let size = match stated {
        Some((width, height)) => if width >= 0 && height >= 0 {
            Some((width as int, height as int))
        } else {
            scaled_mode(scale, current_mode)
        },
        None => scaled_mode(scale, current_mode),
    };
    match size {
        Some((width, height)) => if width > 0 && height > 0 {
            size
        } else {
            None
        },
        None => None,
    }
}

/// What a mode comes to under a scale.
pub open spec fn scaled_mode(scale: int, mode: Option<(i32, i32)>) -> Option<(int, int)> {
    match mode {
        Some((width, height)) => if width >= 0 && height >= 0 {
            Some((width as int / scale, height as int / scale))
        } else {
            None
        },
        None => None,
    }
}

/// The size of an output in logical pixels.
pub fn logical_output_size_from(
    stated: Option<(i32, i32)>,
    scale_factor: i32,
    current_mode: Option<(i32, i32)>,
) -> (result: Option<(u32, u32)>)
    ensures
        match logical_size(stated, scale_factor as int, current_mode) {
            Some((width, height)) => (result matches Some(size) && size.0 == width && size.1
                == height),
            None => result is None,
        },
{
    let mut size: Option<(u32, u32)> = None;
    if let Some((width, height)) = stated {
        if width >= 0 && height >= 0 {
            size = Some((width as u32, height as u32));
        }
    }
    if size.is_none() {
        let scale: i32 = if scale_factor < 1 {
            1
        } else {
            scale_factor
        };
        if let Some((width, height)) = current_mode {
            if width >= 0 && height >= 0 {
                proof {
                    vstd::arithmetic::div_mod::lemma_div_nonincreasing(width as int, scale as int);
                    vstd::arithmetic::div_mod::lemma_div_nonincreasing(height as int, scale as int);
                    vstd::arithmetic::div_mod::lemma_div_pos_is_pos(width as int, scale as int);
                    vstd::arithmetic::div_mod::lemma_div_pos_is_pos(height as int, scale as int);
                }
                size = Some((width as u32 / scale as u32, height as u32 / scale as u32));
            }
        }
    }
    match size {
        Some((width, height)) => if width > 0 && height > 0 {
            size
        } else {
            None
        },
        None => None,
    }
}

/// The bytes that an overlay's pixels take in its output's scale.
pub fn overlay_buffer_len(size: (u32, u32), scale: i32) -> (result: Result<usize, String>)
    ensures
        ({
            let bytes = (size.0 * scale) * (size.1 * scale) * 4;
            if scale < 0 {
                result is Err && result->Err_0@ == "invalid Wayland scale"@
            } else if bytes > u64::MAX {
                result is Err && result->Err_0@ == "overlay pixel buffer is too large"@
            } else if bytes > MAX_OVERLAY_BYTES {
                result is Err && result->Err_0@ == "overlay pixel buffer exceeds 256 MiB"@
            } else {
                result is Ok && result->Ok_0 == bytes
            }
        }),
{
    if scale < 0 {
        return Err("invalid Wayland scale".to_owned());
    }
    assert(size.0 * scale <= 0xffff_ffff * 0x7fff_ffff && size.1 * scale <= 0xffff_ffff
        * 0x7fff_ffff) by (nonlinear_arith)
        requires
            size.0 <= 0xffff_ffff,
            size.1 <= 0xffff_ffff,
            0 <= scale <= 0x7fff_ffff,
    ;
    let width: u128 = size.0 as u128 * scale as u128;
    let height: u128 = size.1 as u128 * scale as u128;
    assert(width * height <= (0xffff_ffff * 0x7fff_ffff) * (0xffff_ffff * 0x7fff_ffff))
        by (nonlinear_arith)
        requires
            width <= 0xffff_ffff * 0x7fff_ffff,
            height <= 0xffff_ffff * 0x7fff_ffff,
    ;
    let bytes: u128 = width * height * 4;
    if bytes > 0xffff_ffff_ffff_ffff {
        return Err("overlay pixel buffer is too large".to_owned());
    }
    if bytes > MAX_OVERLAY_BYTES as u128 {
        return Err("overlay pixel buffer exceeds 256 MiB".to_owned());
    }
    Ok(bytes as usize)
}

/// The opacity of a pixel of the overlay, before it is cut to a byte.
pub open spec fn overlay_alpha(alpha: u8, opacity_percent: u8) -> nat {
    (alpha * opacity_percent / 100) as nat
}

/// A colour channel under an opacity.
pub open spec fn premultiplied(channel: u8, alpha: nat) -> nat {
    channel as nat * alpha / 255
}

/// One byte of the overlay's pixels, which are premultiplied and in the order blue, green, red,
/// alpha, made of pixels that are neither and in the order red, green, blue, alpha.
pub open spec fn overlay_byte(rgba: Seq<u8>, opacity_percent: u8, i: int) -> nat {
    let first = i - i % 4;
    let alpha = overlay_alpha(rgba[first + 3], opacity_percent);
    if i % 4 == 3 {
        alpha % 256
    } else {
        premultiplied(rgba[first + 2 - i % 4], alpha) % 256
    }
}

/// Fills the start of a canvas with an image's pixels.
pub fn fill_canvas(canvas: &mut [u8], rgba: &[u8], opacity_percent: u8)
    requires
        rgba@.len() <= old(canvas)@.len(),
        rgba@.len() % 4 == 0,
        opacity_percent <= 101,
    ensures
        final(canvas)@.len() == old(canvas)@.len(),
        forall|i: int|
            0 <= i < rgba@.len() ==> #[trigger] final(canvas)@[i] == overlay_byte(
                rgba@,
                opacity_percent,
                i,
            ),
        forall|i: int|
            rgba@.len() <= i < old(canvas)@.len() ==> #[trigger] final(canvas)@[i] == old(
                canvas,
            )@[i],
{
    let mut i: usize = 0;
    while i < rgba.len()
        invariant
            i <= rgba@.len(),
            i % 4 == 0,
            rgba@.len() % 4 == 0,
            opacity_percent <= 101,
            canvas@.len() == old(canvas)@.len(),
            rgba@.len() <= canvas@.len(),
            forall|j: int|
                0 <= j < i ==> #[trigger] canvas@[j] == overlay_byte(rgba@, opacity_percent, j),
            forall|j: int| i <= j < canvas@.len() ==> #[trigger] canvas@[j] == old(canvas)@[j],
        decreases rgba@.len() - i,
    {
        let red: u8 = rgba[i];
        let green: u8 = rgba[i + 1];
        let blue: u8 = rgba[i + 2];
        let opaque: u8 = rgba[i + 3];
        assert(opaque * opacity_percent <= 255 * 101) by (nonlinear_arith)
            requires
                opaque <= 255,
                opacity_percent <= 101,
        ;
        let alpha: u16 = opaque as u16 * opacity_percent as u16 / 100;
        canvas[i] = premultiply(blue, alpha);
        canvas[i + 1] = premultiply(green, alpha);
        canvas[i + 2] = premultiply(red, alpha);
        canvas[i + 3] = (alpha % 256) as u8;
        i += 4;
    }
}

fn premultiply(channel: u8, alpha: u16) -> (result: u8)
    requires
        alpha <= 257,
    ensures
        result == premultiplied(channel, alpha as nat) % 256,
{
    assert(channel * alpha <= 255 * 257) by (nonlinear_arith)
        requires
            channel <= 255,
            alpha <= 257,
    ;
    ((channel as u16 * alpha / 255) % 256) as u8
}

/// Draws an image, resized to `width` by `height`, into the start of a canvas.
pub fn render_frame(
    canvas: &mut [u8],
    width: u32,
    height: u32,
    source: &[u8],
    image_size: [u32; 2],
    opacity_percent: u8,
) -> (result: Result<(), String>)
    requires
        source@.len() >= 4 * (image_size[0] * image_size[1]) ==> {
            &&& resizable(image_size[0], image_size[1], width, height)
            &&& old(canvas)@.len() >= 4 * (width * height) ==> opacity_percent <= 101
        },
    ensures
        final(canvas)@.len() == old(canvas)@.len(),
        if source@.len() < 4 * (image_size[0] * image_size[1]) {
            &&& result is Err
            &&& result->Err_0@ == "decoded image buffer has invalid dimensions"@
            &&& final(canvas)@ == old(canvas)@
        } else if old(canvas)@.len() < 4 * (width * height) {
            &&& result is Err
            &&& result->Err_0@ == "Wayland shared-memory buffer is smaller than expected"@
            &&& final(canvas)@ == old(canvas)@
        } else {
            &&& result is Ok
            &&& exists|resized: Seq<u8>|
                {
                    &&& #[trigger] lanczos3_outcome(
                        source@,
                        image_size[0],
                        image_size[1],
                        width,
                        height,
                        resized,
                    )
                    &&& resized.len() == 4 * (width * height)
                    &&& image_size[0] == width && image_size[1] == height ==> resized
                        == source@.take(4 * (width * height))
                    &&& forall|i: int|
                        0 <= i < resized.len() ==> #[trigger] final(canvas)@[i] == overlay_byte(
                            resized,
                            opacity_percent,
                            i,
                        )
                }
            &&& forall|i: int|
                4 * (width * height) <= i < old(canvas)@.len() ==> #[trigger] final(canvas)@[i]
                    == old(canvas)@[i]
        },
{
    let image_width: u128 = image_size[0] as u128;
    let image_height: u128 = image_size[1] as u128;
    assert(image_width * image_height <= 0xffff_ffff * 0xffff_ffff) by (nonlinear_arith)
        requires
            image_width <= 0xffff_ffff,
            image_height <= 0xffff_ffff,
    ;
    if (source.len() as u128) < 4 * (image_width * image_height) {
        return Err("decoded image buffer has invalid dimensions".to_owned());
    }
    let resized = resize_rgba(source, image_size[0], image_size[1], width, height);
    if canvas.len() < resized.len() {
        return Err("Wayland shared-memory buffer is smaller than expected".to_owned());
    }
    fill_canvas(canvas, resized.as_slice(), opacity_percent);
    Ok(())
}

/// A side that has shrunk by at least its ratio to the monitor is not longer than the monitor.
proof fn lemma_fitted_side(side: nat, monitor: nat, fit: (nat, int))
    requires
        side <= u64::MAX,
        0 < monitor <= u32::MAX,
        0 < fit.0 <= 0x1_0000_0000_0000_0000,
        -400 <= fit.1 <= 400,
        ({
            let exact = rounded(Format::Double, side, 1, 0);
            at_most(rounded(Format::Double, exact.0, monitor, exact.1), fit)
        }),
    ensures
        1 <= fitted_side(side, fit) <= monitor,
{
    let exact = rounded(Format::Double, side, 1, 0);
    let ratio = rounded(Format::Double, exact.0, monitor, exact.1);
    let shrunk = rounded(Format::Double, exact.0, fit.0, exact.1 - fit.1);
    lemma2_to64();
    lemma2_to64_rest();
    let bound = Format::Double.mantissa_bound();
    if side == 0 {
        lemma_rounded(Format::Double, 0, 1, 0);
        lemma_zero_rounds_to_zero(1, 0);
        lemma_zero_rounds_to_zero(fit.0, exact.1 - fit.1);
        lemma_pow2_pos((-shrunk.1) as nat);
        lemma_nearest_integer_of_zero(shrunk.1);
    } else {
        lemma_not_tiny(Format::Double, side, 1, 0);
        lemma_not_huge(Format::Double, side, 1, 0);
        lemma_mantissa(Format::Double, side, 1, 0);
        lemma_not_tiny(Format::Double, exact.0, monitor, exact.1);
        lemma_not_huge(Format::Double, exact.0, monitor, exact.1);
        lemma_mantissa(Format::Double, exact.0, monitor, exact.1);
        lemma_not_tiny(Format::Double, exact.0, fit.0, exact.1 - fit.1);
        lemma_not_huge(Format::Double, exact.0, fit.0, exact.1 - fit.1);
        let scale: nat = 1000;
        lemma_relative_error(Format::Double, exact.0, monitor, exact.1, scale);
        lemma_relative_error(Format::Double, exact.0, fit.0, exact.1 - fit.1, scale);
        lemma_at_most_at_scale(ratio, fit, scale);
        let unit = pow2(scale);
        let a = exact.0 * pow2((exact.1 + scale) as nat);
        let q = at_scale(ratio, scale);
        let f = at_scale(fit, scale);
        let r = at_scale(shrunk, scale);
        let v = exact.0 * pow2((exact.1 - fit.1 + scale) as nat);
        lemma_pow2_adds((exact.1 - fit.1 + scale) as nat, (fit.1 + scale) as nat);
        lemma_pow2_adds((exact.1 + scale) as nat, scale);
        let p = pow2((fit.1 + scale) as nat);
        let w = pow2((exact.1 - fit.1 + scale) as nat);
        let x = exact.0;
        let y = pow2((exact.1 + scale) as nat);
        assert((exact.1 - fit.1 + scale) + (fit.1 + scale) == (exact.1 + scale) + scale);
        assert(w * p == y * unit);
        assert(v * p == a * unit) by (nonlinear_arith)
            requires
                v == x * w,
                a == x * y,
                w * p == y * unit,
        ;
        lemma_pow2_pos((ratio.1 + scale) as nat);
        lemma_pow2_pos(scale);
        let qp = pow2((ratio.1 + scale) as nat);
        assert(q > 0) by (nonlinear_arith)
            requires
                q == ratio.0 * qp,
                ratio.0 > 0,
                qp > 0,
        ;
        lemma_fit_bound(bound, monitor, fit.0, p, a, q, f, r, v, unit);
        lemma_nearest_integer_at_most(shrunk, scale, monitor);
    }
}

/// The arithmetic of `lemma_fitted_side`: two roundings and a shrinking by at least the ratio
/// leave less than half a pixel more than the monitor.
proof fn lemma_fit_bound(
    bound: nat,
    monitor: nat,
    mantissa: nat,
    power: nat,
    a: nat,
    q: nat,
    f: nat,
    r: nat,
    v: nat,
    unit: nat,
)
    requires
        bound == 0x20_0000_0000_0000,
        monitor <= u32::MAX,
        f == mantissa * power,
        bound * (monitor * q) >= (bound - 1) * a,
        bound * (mantissa * r) <= (bound + 1) * v,
        v * power == a * unit,
        0 < q <= f,
        unit > 0,
    ensures
        2 * r < (2 * monitor + 1) * unit,
{
    let fr = f * r;
    let mr = mantissa * r;
    let au = a * unit;
    assert(fr == mr * power) by (nonlinear_arith)
        requires
            fr == f * r,
            mr == mantissa * r,
            f == mantissa * power,
    ;
    assert(0x20_0000_0000_0000 * mr <= 0x20_0000_0000_0001 * v);
    assert(0x20_0000_0000_0000 * (mr * power) <= 0x20_0000_0000_0001 * (v * power))
        by (nonlinear_arith)
        requires
            0x20_0000_0000_0000 * mr <= 0x20_0000_0000_0001 * v,
    ;
    assert(q * r <= f * r) by (nonlinear_arith)
        requires
            q <= f,
    ;
    let qr = q * r;
    let mq = monitor * q;
    let mqu = mq * unit;
    assert(0x20_0000_0000_0000 * mq >= 0x1f_ffff_ffff_ffff * a);
    assert(0x20_0000_0000_0000 * mqu >= 0x1f_ffff_ffff_ffff * au) by (nonlinear_arith)
        requires
            0x20_0000_0000_0000 * mq >= 0x1f_ffff_ffff_ffff * a,
            mqu == mq * unit,
            au == a * unit,
    ;
    assert(0x1f_ffff_ffff_ffff * qr <= 0x20_0000_0000_0001 * mqu);
    let mu = monitor * unit;
    assert(mqu == q * mu) by (nonlinear_arith)
        requires
            mqu == mq * unit,
            mq == monitor * q,
            mu == monitor * unit,
    ;
    assert(0x1f_ffff_ffff_ffff * r <= 0x20_0000_0000_0001 * mu) by (nonlinear_arith)
        requires
            0x1f_ffff_ffff_ffff * qr <= 0x20_0000_0000_0001 * mqu,
            qr == q * r,
            mqu == q * mu,
            q > 0,
    ;
    assert(mu <= 0xffff_ffff * unit) by (nonlinear_arith)
        requires
            mu == monitor * unit,
            monitor <= 0xffff_ffff,
    ;
    assert((2 * monitor + 1) * unit == 2 * mu + unit) by (nonlinear_arith)
        requires
            mu == monitor * unit,
    ;
}

/// Zero rounds to zero.
proof fn lemma_zero_rounds_to_zero(d: nat, e: int)
    requires
        d > 0,
    ensures
        rounded(Format::Double, 0, d, e).0 == 0,
{
    lemma_rounded(Format::Double, 0, d, e);
    let target = rounded(Format::Double, 0, d, e).1;
    let denominator = denominator_at(d, e, target);
    assert(0 * pow2((e - target) as nat) == 0) by (nonlinear_arith);
    assert(0nat / denominator == 0 && 0nat % denominator == 0) by (nonlinear_arith)
        requires
            denominator > 0,
    ;
}

proof fn lemma_nearest_integer_of_zero(e: int)
    ensures
        nearest_integer((0, e)) == 0,
{
    if e >= 0 {
        assert(0 * pow2(e as nat) == 0) by (nonlinear_arith);
    } else {
        let power = pow2((-e) as nat);
        lemma_pow2_pos((-e) as nat);
        assert(power / (2 * power) == 0) by (nonlinear_arith)
            requires
                power > 0,
        ;
    }
}

/// The greater one of two numbers is no smaller than either.
proof fn lemma_greater_is_greater(a: (nat, int), b: (nat, int), scale: nat)
    requires
        a.1 + scale >= 0,
        b.1 + scale >= 0,
    ensures
        at_most(a, greater(a, b)),
        at_most(b, greater(a, b)),
{
    lemma_at_most_at_scale(a, b, scale);
    lemma_at_most_at_scale(b, a, scale);
    lemma_at_most_at_scale(a, a, scale);
    lemma_at_most_at_scale(b, b, scale);
}

proof fn lemma_at_most_is_transitive(a: (nat, int), b: (nat, int), c: (nat, int), scale: nat)
    requires
        a.1 + scale >= 0,
        b.1 + scale >= 0,
        c.1 + scale >= 0,
        at_most(a, b),
        at_most(b, c),
    ensures
        at_most(a, c),
{
    lemma_at_most_at_scale(a, b, scale);
    lemma_at_most_at_scale(b, c, scale);
    lemma_at_most_at_scale(a, c, scale);
}

proof fn lemma_ratio_exponent(side: nat, monitor: nat)
    requires
        side <= u64::MAX,
        0 < monitor <= u32::MAX,
    ensures
        ({
            let exact = rounded(Format::Double, side, 1, 0);
            let ratio = rounded(Format::Double, exact.0, monitor, exact.1);
            &&& -1074 <= ratio.1 <= 200
            &&& ratio.0 <= 0x20_0000_0000_0000
            &&& side > 0 ==> ratio.1 > -300 && ratio.0 > 0
            &&& side == 0 ==> ratio.0 == 0
        }),
{
    lemma2_to64();
    lemma2_to64_rest();
    let exact = rounded(Format::Double, side, 1, 0);
    lemma_not_huge(Format::Double, side, 1, 0);
    lemma_mantissa(Format::Double, side, 1, 0);
    lemma_not_huge(Format::Double, exact.0, monitor, exact.1);
    lemma_mantissa(Format::Double, exact.0, monitor, exact.1);
    lemma_least_exponent(Format::Double, side, 1, 0);
    lemma_least_exponent(Format::Double, exact.0, monitor, exact.1);
    if side > 0 {
        lemma_not_tiny(Format::Double, side, 1, 0);
        lemma_not_tiny(Format::Double, exact.0, monitor, exact.1);
    } else {
        lemma_zero_rounds_to_zero(1, 0);
        lemma_zero_rounds_to_zero(monitor, exact.1);
    }
}

/// However extreme the proportions of an image are, the overlay is at least a pixel wide and
/// high and not larger than the monitor.
pub proof fn overlay_fits_the_monitor(
    monitor: (nat, nat),
    image: (nat, nat),
    width_percent: nat,
)
    requires
        0 < monitor.0 <= u32::MAX,
        0 < monitor.1 <= u32::MAX,
        0 < image.0 <= u32::MAX,
        0 < image.1 <= u32::MAX,
        requested_width(monitor.0, width_percent) * image.1 <= u64::MAX,
    ensures
        1 <= fitted_size(monitor, image, width_percent).0 <= monitor.0,
        1 <= fitted_size(monitor, image, width_percent).1 <= monitor.1,
{
    let width = requested_width(monitor.0, width_percent);
    let height = requested_height(width, image);
    assert(width <= width * image.1) by (nonlinear_arith)
        requires
            image.1 > 0,
    ;
    let area = width * image.1;
    assert(area / image.0 <= area) by (nonlinear_arith)
        requires
            image.0 > 0,
    ;
    lemma_ratio_exponent(width, monitor.0);
    lemma_ratio_exponent(height, monitor.1);
    let exact_width = rounded(Format::Double, width, 1, 0);
    let exact_height = rounded(Format::Double, height, 1, 0);
    let horizontal = rounded(Format::Double, exact_width.0, monitor.0, exact_width.1);
    let vertical = rounded(Format::Double, exact_height.0, monitor.1, exact_height.1);
    let both = greater(horizontal, vertical);
    let one = (1nat, 0int);
    let fit = fit_factor(monitor, (width, height));
    lemma_greater_is_greater(horizontal, vertical, 2000);
    lemma_greater_is_greater(both, one, 2000);
    lemma_at_most_is_transitive(horizontal, both, fit, 2000);
    lemma_at_most_is_transitive(vertical, both, fit, 2000);
    if fit != one {
        // A number that is not at most one is not tiny.
        assert(!at_most(both, one));
        if fit.0 == 0 {
            assert(0 * pow2(fit.1 as nat) == 0) by (nonlinear_arith);
        }
        if fit.1 < -300 {
            lemma2_to64();
            lemma_pow2_strictly_increases(64, (-fit.1) as nat);
        }
    }
    lemma_fitted_side(width, monitor.0, fit);
    lemma_fitted_side(height, monitor.1, fit);
}

/// A count of pixels that single precision holds exactly stays what it is.
proof fn lemma_small_integers_are_exact(n: nat)
    requires
        n < 0x100_0000,
    ensures
        nearest_integer(rounded(Format::Single, n, 1, 0)) == n,
{
    lemma2_to64();
    let (m, target) = rounded(Format::Single, n, 1, 0);
    lemma_rounded(Format::Single, n, 1, 0);
    if target > 0 {
        lemma_pow2_pos((target - 1) as nat);
        let power = pow2((target - 1) as nat);
        assert(0x100_0000 * (1 * power) >= 0x100_0000) by (nonlinear_arith)
            requires
                power > 0,
        ;
        assert(denominator_at(1, 0, target - 1) >= 1);
        assert(false);
    }
    let gap = (-target) as nat;
    let power = pow2(gap);
    lemma_pow2_pos(gap);
    let numerator = numerator_at(n, 0, target);
    assert(numerator / 1 == numerator && numerator % 1 == 0) by (nonlinear_arith);
    if target < 0 {
        assert(m == n * power);
        assert((2 * (n * power) + power) / (2 * power) == n) by (nonlinear_arith)
            requires
                power > 0,
        ;
    } else {
        assert(m * power == m) by (nonlinear_arith)
            requires
                power == 1,
        ;
    }
}

/// On a monitor of up to 2^24 pixels the overlay never reaches over an edge, wherever its
/// middle is meant to be.
pub proof fn overlay_stays_on_the_monitor(position: Single, monitor: nat, extent: nat)
    requires
        1 <= extent <= monitor <= 0x100_0000,
    ensures
        margin(position, monitor, extent) + extent <= monitor,
{
    lemma_small_integers_are_exact((monitor - extent) as nat);
}

/// At an opacity of up to a hundred percent no colour of the overlay exceeds its alpha, no alpha
/// exceeds the opacity, and nothing is lost when the bytes are cut: the pixels are premultiplied.
pub proof fn overlay_pixels_are_premultiplied(rgba: Seq<u8>, opacity_percent: u8, i: int)
    requires
        opacity_percent <= 100,
        0 <= i < rgba.len(),
        rgba.len() % 4 == 0,
    ensures
        overlay_byte(rgba, opacity_percent, i) <= overlay_byte(
            rgba,
            opacity_percent,
            i - i % 4 + 3,
        ),
        overlay_byte(rgba, opacity_percent, i - i % 4 + 3) == overlay_alpha(
            rgba[i - i % 4 + 3],
            opacity_percent,
        ),
        overlay_byte(rgba, opacity_percent, i - i % 4 + 3) <= 255 * opacity_percent / 100,
{
    let first = i - i % 4;
    let alpha = rgba[first + 3];
    assert(alpha * opacity_percent <= 255 * opacity_percent <= 255 * 100) by (nonlinear_arith)
        requires
            alpha <= 255,
            opacity_percent <= 100,
    ;
    let opacity = overlay_alpha(alpha, opacity_percent);
    assert((first + 3) % 4 == 3);
    if i % 4 != 3 {
        let channel = rgba[first + 2 - i % 4];
        assert(channel as nat * opacity <= 255 * opacity) by (nonlinear_arith)
            requires
                channel <= 255,
        ;
    }
}

/// At an opacity of up to a hundred percent a pixel's alpha is its share of the image's, rounded
/// down, and its blue, green and red, in that order, are the image's under that alpha, rounded
/// down. So an opaque pixel at five percent or more is seen, and one at a hundred is the image's.
pub proof fn overlay_pixels_have_their_share(rgba: Seq<u8>, opacity_percent: u8, pixel: int)
    requires
        opacity_percent <= 100,
        0 <= pixel,
        4 * pixel + 4 <= rgba.len(),
    ensures
        ({
            let first = 4 * pixel;
            let (red, green, blue, opaque) = (
                rgba[first] as int,
                rgba[first + 1] as int,
                rgba[first + 2] as int,
                rgba[first + 3] as int,
            );
            let p = opacity_percent as int;
            let alpha = overlay_byte(rgba, opacity_percent, first + 3) as int;
            let b = overlay_byte(rgba, opacity_percent, first) as int;
            let g = overlay_byte(rgba, opacity_percent, first + 1) as int;
            let r = overlay_byte(rgba, opacity_percent, first + 2) as int;
            &&& opaque * p - 100 < 100 * alpha <= opaque * p
            &&& blue * alpha - 255 < 255 * b <= blue * alpha
            &&& green * alpha - 255 < 255 * g <= green * alpha
            &&& red * alpha - 255 < 255 * r <= red * alpha
            &&& opaque == 255 && p >= 5 ==> alpha >= 12
            &&& opaque == 255 && p == 100 ==> (r, g, b, alpha) == (red, green, blue, 255int)
        }),
{
    let first = 4 * pixel;
    let opaque = rgba[first + 3];
    let p = opacity_percent as int;
    assert(opaque * p <= 255 * 100) by (nonlinear_arith)
        requires
            0 <= opaque <= 255,
            0 <= p <= 100,
    ;
    assert(opaque == 255 && p >= 5 ==> opaque * p >= 255 * 5) by (nonlinear_arith);
    assert((first + 3) % 4 == 3 && (first + 2) % 4 == 2 && (first + 1) % 4 == 1 && first % 4 == 0);
    let alpha = overlay_alpha(opaque, opacity_percent);
    lemma_under_alpha(rgba[first], alpha);
    lemma_under_alpha(rgba[first + 1], alpha);
    lemma_under_alpha(rgba[first + 2], alpha);
}

proof fn lemma_under_alpha(channel: u8, alpha: nat)
    requires
        alpha <= 255,
    ensures
        channel * alpha - 255 < 255 * premultiplied(channel, alpha) <= channel * alpha,
        premultiplied(channel, alpha) <= 255,
        alpha == 255 ==> premultiplied(channel, alpha) == channel,
{
    assert(channel as nat * alpha <= 255 * 255) by (nonlinear_arith)
        requires
            channel <= 255,
            alpha <= 255,
    ;
}

/// An output without a name is known by its number, and no two numbers are the same to it; a name
/// is kept as it is.
pub proof fn outputs_are_told_apart(a: u32, b: u32, name: Seq<char>)
    ensures
        output_identity(a, Some(name)) == name,
        a != b ==> output_identity(a, None) != output_identity(b, None),
{
    if a != b {
        let start = "wayland-output-"@;
        crate::text::lemma_decimal_is_injective(a as nat, b as nat);
        assert((start + decimal(a as nat)).skip(start.len() as int) =~= decimal(a as nat));
        assert((start + decimal(b as nat)).skip(start.len() as int) =~= decimal(b as nat));
    }
}

/// An output's name for people starts with its name and says what it is: its description, or its
/// model where there is none or it says no more than the name. Its size follows, where it has one.
pub proof fn outputs_are_described(
    name: Seq<char>,
    description: Seq<char>,
    model: Seq<char>,
    width: u32,
    height: u32,
)
    ensures
        description != name ==> output_label(Some(name), Some(description), model, None) == name
            + " — "@ + description,
        output_label(Some(name), Some(name), model, None) == name + " — "@ + model,
        output_label(Some(name), None, model, None) == name + " — "@ + model,
        output_label(None, None, model, None) == "Wayland output"@ + " — "@ + model,
        output_label(Some(name), None, model, Some((width, height))) == name + " — "@ + model
            + " ("@ + decimal(width as nat) + " x "@ + decimal(height as nat) + ")"@,
{
}

/// A size that the compositor states is an output's size. Else it is what the current mode comes
/// to under the scale, rounded down. There is none where a side would have no pixels.
pub proof fn output_sizes_are_logical(
    width: i32,
    height: i32,
    scale: int,
    mode: Option<(i32, i32)>,
)
    ensures
        width > 0 && height > 0 ==> logical_size(Some((width, height)), scale, mode) == Some(
            (width as int, height as int),
        ),
        width == 0 && height >= 0 ==> logical_size(Some((width, height)), scale, mode) is None,
        width >= 0 && height == 0 ==> logical_size(Some((width, height)), scale, mode) is None,
        width < 0 || height < 0 ==> logical_size(Some((width, height)), scale, mode)
            == logical_size(None, scale, mode),
        logical_size(None, scale, None) is None,
        scale >= 1 && width >= scale && height >= scale ==> {
            &&& logical_size(None, scale, Some((width, height))) matches Some((w, h))
            &&& w * scale <= width < (w + 1) * scale
            &&& h * scale <= height < (h + 1) * scale
        },
        scale >= 1 && 0 <= width && 0 <= height && (width < scale || height < scale)
            ==> logical_size(None, scale, Some((width, height))) is None,
        scale < 1 ==> logical_size(None, scale, mode) == logical_size(None, 1, mode),
        width < 0 || height < 0 ==> logical_size(None, scale, Some((width, height))) is None,
{
    if scale >= 1 && width >= 0 && height >= 0 {
        let (w, h) = (width as int / scale, height as int / scale);
        vstd::arithmetic::div_mod::lemma_fundamental_div_mod(width as int, scale);
        vstd::arithmetic::div_mod::lemma_fundamental_div_mod(height as int, scale);
        vstd::arithmetic::div_mod::lemma_mod_bound(width as int, scale);
        vstd::arithmetic::div_mod::lemma_mod_bound(height as int, scale);
        assert(w * scale == scale * w && (w + 1) * scale == scale * w + scale) by (nonlinear_arith);
        assert(h * scale == scale * h && (h + 1) * scale == scale * h + scale) by (nonlinear_arith);
        assert(width >= scale ==> w >= 1) by (nonlinear_arith)
            requires
                width < (w + 1) * scale,
                scale >= 1,
        ;
        assert(height >= scale ==> h >= 1) by (nonlinear_arith)
            requires
                height < (h + 1) * scale,
                scale >= 1,
        ;
        assert(width < scale ==> w <= 0) by (nonlinear_arith)
            requires
                w * scale <= width,
                scale >= 1,
        ;
        assert(height < scale ==> h <= 0) by (nonlinear_arith)
            requires
                h * scale <= height,
                scale >= 1,
        ;
    }
}

/// Every image with pixels has a layout on every monitor with pixels: it is no larger than the
/// monitor. Where a side has none there is an error.
pub proof fn images_are_laid_out(
    result: Result<OverlayLayout, String>,
    monitor_size: (u32, u32),
    image_size: [u32; 2],
    width_percent: u8,
    position: [Single; 2],
)
    requires
        is_layout(result, monitor_size, image_size, width_percent, position),
        monitor_size.0 > 0 && monitor_size.1 > 0 && image_size[0] > 0 && image_size[1] > 0
            ==> requested_width(monitor_size.0 as nat, width_percent as nat) * image_size[1]
            <= u64::MAX,
    ensures
        result is Ok <==> monitor_size.0 > 0 && monitor_size.1 > 0 && image_size[0] > 0
            && image_size[1] > 0,
        result matches Ok(layout) ==> {
            &&& 1 <= layout.size.0 <= monitor_size.0
            &&& 1 <= layout.size.1 <= monitor_size.1
            &&& layout.margin.0 == margin(position[0], monitor_size.0 as nat, layout.size.0 as nat)
            &&& layout.margin.1 == margin(position[1], monitor_size.1 as nat, layout.size.1 as nat)
            &&& (layout.size.0 as nat, layout.size.1 as nat) == fitted_size(
                (monitor_size.0 as nat, monitor_size.1 as nat),
                (image_size[0] as nat, image_size[1] as nat),
                width_percent as nat,
            )
        },
        result matches Err(message) ==> message@ == "overlay or image dimensions are empty"@,
{
    if monitor_size.0 > 0 && monitor_size.1 > 0 && image_size[0] > 0 && image_size[1] > 0 {
        overlay_fits_the_monitor(
            (monitor_size.0 as nat, monitor_size.1 as nat),
            (image_size[0] as nat, image_size[1] as nat),
            width_percent as nat,
        );
    }
}

/// The middle of the overlay is at its position, as far as the overlay then stays on the monitor:
/// at that share of it, off by half a pixel and a few parts in `2^24` at most. A position that is
/// no number counts as zero.
#[verifier::spinoff_prover]
pub proof fn overlay_is_centred_on_its_position(position: Single, monitor: nat, extent: nat)
    requires
        1 <= extent <= monitor < 0x100_0000,
    ensures
        margin(position, monitor, extent) <= monitor - extent,
        position.is_nan() ==> margin(position, monitor, extent) == 0,
        !position.is_nan() ==> {
            let one = pow2(1400);
            let centre = monitor * at_scale(position.clamped_to_unit()->0, 1400);
            let middle = 2 * (margin(position, monitor, extent) * one) + extent * one;
            let slack = 6 * centre + 0x100_0000 * one;
            &&& margin(position, monitor, extent) > 0 ==> 0x100_0000 * (middle - 2 * centre)
                <= slack
            &&& margin(position, monitor, extent) < monitor - extent ==> 0x100_0000 * (2 * centre
                - middle) <= slack
        },
{
    let room = (monitor - extent) as nat;
    lemma_small_integers_are_exact(room);
    if !position.is_nan() {
        lemma2_to64();
        lemma_offset(position, monitor);
        let center = position.offset_in(monitor)->0;
        let single_extent = rounded(Format::Single, extent, 1, 0);
        let half = (single_extent.0, single_extent.1 - 1);
        lemma_integers_are_exact(Format::Single, extent, 1400);
        let one = pow2(1400);
        lemma_pow2_pos(1400);
        lemma_pow2_unfold((single_extent.1 + 1400) as nat);
        let x = single_extent.0;
        let power = pow2((single_extent.1 + 1399) as nat);
        assert(x * (2 * power) == 2 * (x * power)) by (nonlinear_arith);
        let h = at_scale(half, 1400);
        assert(2 * h == extent * one);
        assert(extent * one >= one) by (nonlinear_arith)
            requires
                extent >= 1,
                one > 0,
        ;
        let c = at_scale(center, 1400);
        let exact = monitor * at_scale(position.clamped_to_unit()->0, 1400);
        let tiny = pow2(1300);
        lemma_pow2_adds(100, 1300);
        lemma_pow2_strictly_increases(64, 100);
        assert(0x1_0000_0000_0000 * tiny <= pow2(100) * tiny) by (nonlinear_arith)
            requires
                0x1_0000_0000_0000 <= pow2(100),
                tiny >= 0,
        ;
        lemma_at_most_at_scale(center, half, 1400);
        if at_most(center, half) {
            assert(margin(position, monitor, extent) == 0);
            assert(0 * one == 0) by (nonlinear_arith);
        } else {
            assert(c > h);
            assert(center.1 > -149);
            lemma_at_most_at_scale(half, center, 1400);
            lemma_difference_at_scale(center, half);
            let d = difference(center, half);
            let v = at_scale(d, 1400);
            lemma_nearest_integer_at_scale(d, 1400);
            let start = nearest_integer(d);
            let m = margin(position, monitor, extent);
            assert(m == if start <= room {
                start
            } else {
                room
            });
            assert(m * one <= start * one) by (nonlinear_arith)
                requires
                    m <= start,
                    one > 0,
            ;
        }
    }
}

/// The requested width is the chosen share of the monitor's, in whole pixels and at least one, and
/// the requested height goes with it as the image's height goes with its width.
pub proof fn requested_sizes_are_the_chosen_shares(
    monitor_width: nat,
    width_percent: nat,
    width: nat,
    image: (nat, nat),
)
    requires
        image.0 > 0,
    ensures
        ({
            let wide = requested_width(monitor_width, width_percent);
            &&& wide >= 1
            &&& wide == 1 || 100 * wide <= monitor_width * width_percent
            &&& monitor_width * width_percent < 100 * (wide + 1)
        }),
        ({
            let high = requested_height(width, image);
            &&& high * image.0 <= width * image.1
            &&& width * image.1 < (high + 1) * image.0
        }),
{
    let area = (width * image.1) as int;
    let d = image.0 as int;
    vstd::arithmetic::div_mod::lemma_fundamental_div_mod(area, d);
    let q = area / d;
    assert(d * q == q * d && (q + 1) * d == q * d + d) by (nonlinear_arith);
}

proof fn lemma_nearest_even_at_most(n: nat, d: nat, limit: nat)
    requires
        d > 0,
        n <= d * limit,
    ensures
        nearest_even(n, d) <= limit,
{
    let q = n / d;
    vstd::arithmetic::div_mod::lemma_fundamental_div_mod(n as int, d as int);
    assert(q <= limit && (q == limit ==> n % d == 0)) by (nonlinear_arith)
        requires
            n == d * q + n % d,
            0 <= n % d < d,
            n <= d * limit,
            d > 0,
    ;
}

/// The ratio of a side to a monitor that is no shorter is at most one.
#[verifier::spinoff_prover]
proof fn lemma_ratio_at_most_one(side: nat, monitor: nat)
    requires
        side <= monitor <= u32::MAX,
        monitor > 0,
    ensures
        ({
            let exact = rounded(Format::Double, side, 1, 0);
            at_most(rounded(Format::Double, exact.0, monitor, exact.1), (1, 0))
        }),
{
    lemma2_to64();
    lemma2_to64_rest();
    let exact = rounded(Format::Double, side, 1, 0);
    lemma_integers_are_exact(Format::Double, side, 2000);
    let e = exact.1;
    let x = exact.0;
    let up = pow2((-e) as nat);
    let rest = pow2((e + 2000) as nat);
    lemma_pow2_adds((-e) as nat, (e + 2000) as nat);
    lemma_pow2_pos((e + 2000) as nat);
    lemma_pow2_pos((-e) as nat);
    assert(x == side * up) by (nonlinear_arith)
        requires
            x * rest == side * (up * rest),
            rest > 0,
    ;
    assert(x <= monitor * up) by (nonlinear_arith)
        requires
            x == side * up,
            side <= monitor,
            up > 0,
    ;
    let (m, t) = rounded(Format::Double, x, monitor, e);
    lemma_rounded(Format::Double, x, monitor, e);
    let n = numerator_at(x, e, t);
    let d = denominator_at(monitor, e, t);
    let bound = Format::Double.mantissa_bound();
    if t > 0 {
        let gap = pow2((t - e) as nat);
        lemma_pow2_adds((-e) as nat, t as nat);
        lemma_pow2_pos(t as nat);
        let more = pow2(t as nat);
        assert(monitor * up <= monitor * (up * more)) by (nonlinear_arith)
            requires
                more >= 1,
                up > 0,
                monitor > 0,
        ;
        assert(2 * d < bound * d) by (nonlinear_arith)
            requires
                d > 0,
                bound > 2,
        ;
        assert(n == x);
        assert(d == monitor * gap);
        assert(gap == up * more);
        assert(x <= d);
        assert(t > Format::Double.least_exponent());
        assert(2 * n >= bound * d);
        assert(false);
    } else {
        let limit = pow2((-t) as nat);
        if t < e {
            let gap = pow2((e - t) as nat);
            lemma_pow2_adds((-e) as nat, (e - t) as nat);
            assert(x * gap <= monitor * (up * gap)) by (nonlinear_arith)
                requires
                    x <= monitor * up,
                    gap >= 0,
            ;
        } else {
            let gap = pow2((t - e) as nat);
            lemma_pow2_adds((t - e) as nat, (-t) as nat);
            assert(monitor * (gap * limit) == (monitor * gap) * limit) by (nonlinear_arith);
            if t == e {
                assert(monitor * gap == monitor) by (nonlinear_arith)
                    requires
                        gap == 1,
                ;
            }
        }
        assert(n <= d * limit);
        lemma_nearest_even_at_most(n, d, limit);
        assert(1 * limit == limit) by (nonlinear_arith);
        assert(at_most((m, t), (1nat, 0int)));
    }
}

#[verifier::spinoff_prover]
proof fn lemma_side_that_stays(side: nat)
    requires
        side < 0x20_0000_0000_0000,
    ensures
        fitted_side(side, (1, 0)) == if side == 0 {
            1
        } else {
            side
        },
{
    lemma2_to64();
    lemma2_to64_rest();
    let exact = rounded(Format::Double, side, 1, 0);
    lemma_integers_are_exact(Format::Double, side, 2000);
    lemma_rounded(Format::Double, side, 1, 0);
    let numerator = numerator_at(side, 0, exact.1);
    assert(numerator / 1 == numerator && numerator % 1 == 0) by (nonlinear_arith);
    let x = exact.0;
    assert(x / 1 == x && x % 1 == 0) by (nonlinear_arith);
    assert(rounded(Format::Double, exact.0, 1, exact.1) == exact);
    lemma_nearest_integer_at_scale(exact, 2000);
    let whole = nearest_integer(exact);
    let unit = pow2(2000);
    lemma_pow2_pos(2000);
    assert(whole == side) by (nonlinear_arith)
        requires
            2 * (whole * unit) <= 2 * (side * unit) + unit,
            2 * (whole * unit) + unit > 2 * (side * unit),
            unit > 0,
    ;
}

/// An image that fits on the monitor in the size that is asked for has that size.
pub proof fn images_that_fit_keep_their_size(
    monitor: (nat, nat),
    image: (nat, nat),
    width_percent: nat,
)
    requires
        0 < monitor.0 <= u32::MAX,
        0 < monitor.1 <= u32::MAX,
        requested_width(monitor.0, width_percent) <= monitor.0,
        requested_height(requested_width(monitor.0, width_percent), image) <= monitor.1,
    ensures
        fitted_size(monitor, image, width_percent).0 == requested_width(monitor.0, width_percent),
        ({
            let height = requested_height(requested_width(monitor.0, width_percent), image);
            fitted_size(monitor, image, width_percent).1 == if height == 0 {
                1
            } else {
                height
            }
        }),
{
    let width = requested_width(monitor.0, width_percent);
    let height = requested_height(width, image);
    lemma_ratio_at_most_one(width, monitor.0);
    lemma_ratio_at_most_one(height, monitor.1);
    assert(fit_factor(monitor, (width, height)) == (1nat, 0int));
    lemma_side_that_stays(width);
    lemma_side_that_stays(height);
}

/// Dividing a side by a factor that is close to `num / den` gives a number that is close to
/// `side * den / num`.
#[verifier::spinoff_prover]
proof fn lemma_shrunk(side: nat, f: (nat, int), num: nat, den: nat)
    requires
        0 < side < 0x20_0000_0000_0000,
        0 < f.0 <= 0x20_0000_0000_0000,
        -400 <= f.1 <= 200,
        num > 0,
        den > 0,
        0x20_0000_0000_0000 * (den * at_scale(f, 2000)) <= 0x20_0000_0000_0001 * (num * pow2(2000)),
        0x20_0000_0000_0000 * (den * at_scale(f, 2000)) >= 0x1f_ffff_ffff_ffff * (num * pow2(2000)),
    ensures
        ({
            let exact = rounded(Format::Double, side, 1, 0);
            let whole = nearest_integer(rounded(Format::Double, exact.0, f.0, exact.1 - f.1));
            &&& 0x1f_ffff_ffff_ffff * (2 * (whole * num) - num) <= 0x20_0000_0000_0001 * (2 * (den
                * side))
            &&& 0x20_0000_0000_0001 * (2 * (whole * num) + num) >= 0x1f_ffff_ffff_ffff * (2 * (den
                * side))
        }),
{
    lemma2_to64();
    lemma2_to64_rest();
    let exact = rounded(Format::Double, side, 1, 0);
    lemma_integers_are_exact(Format::Double, side, 2000);
    lemma_not_tiny(Format::Double, side, 1, 0);
    lemma_mantissa(Format::Double, side, 1, 0);
    let e = exact.1 - f.1;
    lemma_not_tiny(Format::Double, exact.0, f.0, e);
    let shrunk = rounded(Format::Double, exact.0, f.0, e);
    lemma_relative_error(Format::Double, exact.0, f.0, e, 2000);
    let v = at_scale(shrunk, 2000);
    let u = pow2(2000);
    lemma_pow2_pos(2000);
    let g = pow2((f.1 + 2000) as nat);
    lemma_pow2_pos((f.1 + 2000) as nat);
    let factor = at_scale(f, 2000);
    let a = exact.0;
    let b = f.0;
    let p = pow2((e + 2000) as nat);
    let q = pow2((exact.1 + 2000) as nat);
    lemma_pow2_adds((e + 2000) as nat, (f.1 + 2000) as nat);
    lemma_pow2_adds((exact.1 + 2000) as nat, 2000);
    assert((a * p) * g == (a * q) * u) by (nonlinear_arith)
        requires
            p * g == q * u,
    ;
    assert((b * v) * g == (b * g) * v) by (nonlinear_arith);
    let product = factor * v;
    let whole_product = (side * u) * u;
    lemma_scaled(b * v, a * p, g, product, whole_product);
    lemma_cancelled(product, factor, v, num, den, side, u);
    lemma_nearest_integer_at_scale(shrunk, 2000);
    let whole = nearest_integer(shrunk);
    lemma_whole(whole, v, num, (den * side) as nat, u);
}

proof fn lemma_scaled(x: nat, y: nat, g: nat, left: nat, right: nat)
    requires
        0x20_0000_0000_0000 * x <= 0x20_0000_0000_0001 * y,
        0x20_0000_0000_0000 * x >= 0x1f_ffff_ffff_ffff * y,
        left == x * g,
        right == y * g,
    ensures
        0x20_0000_0000_0000 * left <= 0x20_0000_0000_0001 * right,
        0x20_0000_0000_0000 * left >= 0x1f_ffff_ffff_ffff * right,
{
    assert((0x20_0000_0000_0000 * x) * g <= (0x20_0000_0000_0001 * y) * g && (0x20_0000_0000_0000
        * x) * g >= (0x1f_ffff_ffff_ffff * y) * g) by (nonlinear_arith)
        requires
            0x20_0000_0000_0000 * x <= 0x20_0000_0000_0001 * y,
            0x20_0000_0000_0000 * x >= 0x1f_ffff_ffff_ffff * y,
    ;
    assert((0x20_0000_0000_0000 * x) * g == 0x20_0000_0000_0000 * (x * g)) by (nonlinear_arith);
    assert((0x20_0000_0000_0001 * y) * g == 0x20_0000_0000_0001 * (y * g)) by (nonlinear_arith);
    assert((0x1f_ffff_ffff_ffff * y) * g == 0x1f_ffff_ffff_ffff * (y * g)) by (nonlinear_arith);
}

#[verifier::spinoff_prover]
proof fn lemma_cancelled(
    product: nat,
    factor: nat,
    v: nat,
    num: nat,
    den: nat,
    side: nat,
    u: nat,
)
    requires
        u > 0,
        den > 0,
        product == factor * v,
        0x20_0000_0000_0000 * product <= 0x20_0000_0000_0001 * ((side * u) * u),
        0x20_0000_0000_0000 * product >= 0x1f_ffff_ffff_ffff * ((side * u) * u),
        0x20_0000_0000_0000 * (den * factor) <= 0x20_0000_0000_0001 * (num * u),
        0x20_0000_0000_0000 * (den * factor) >= 0x1f_ffff_ffff_ffff * (num * u),
    ensures
        0x1f_ffff_ffff_ffff * (num * v) <= 0x20_0000_0000_0001 * ((den * side) * u),
        0x20_0000_0000_0001 * (num * v) >= 0x1f_ffff_ffff_ffff * ((den * side) * u),
{
    let through = (den * factor) * v;
    lemma_scaled(den * factor, num * u, v, through, (num * u) * v);
    let whole = den * ((side * u) * u);
    assert(den * product == through) by (nonlinear_arith)
        requires
            product == factor * v,
            through == (den * factor) * v,
    ;
    assert(product * den == den * product) by (nonlinear_arith);
    assert(((side * u) * u) * den == whole) by (nonlinear_arith)
        requires
            whole == den * ((side * u) * u),
    ;
    lemma_scaled(product, (side * u) * u, den, through, whole);
    let x = num * v;
    let y = (den * side) * u;
    assert((num * u) * v == x * u) by (nonlinear_arith)
        requires
            x == num * v,
    ;
    assert(whole == y * u) by (nonlinear_arith)
        requires
            whole == den * ((side * u) * u),
            y == (den * side) * u,
    ;
    assert(0x1f_ffff_ffff_ffff * x <= 0x20_0000_0000_0001 * y) by (nonlinear_arith)
        requires
            0x1f_ffff_ffff_ffff * (x * u) <= 0x20_0000_0000_0001 * (y * u),
            u > 0,
    ;
    assert(0x20_0000_0000_0001 * x >= 0x1f_ffff_ffff_ffff * y) by (nonlinear_arith)
        requires
            0x20_0000_0000_0001 * (x * u) >= 0x1f_ffff_ffff_ffff * (y * u),
            u > 0,
    ;
}

proof fn lemma_whole(whole: nat, v: nat, num: nat, area: nat, u: nat)
    requires
        u > 0,
        num > 0,
        2 * (whole * u) <= 2 * v + u,
        2 * (whole * u) + u > 2 * v,
        0x1f_ffff_ffff_ffff * (num * v) <= 0x20_0000_0000_0001 * (area * u),
        0x20_0000_0000_0001 * (num * v) >= 0x1f_ffff_ffff_ffff * (area * u),
    ensures
        0x1f_ffff_ffff_ffff * (2 * (whole * num) - num) <= 0x20_0000_0000_0001 * (2 * area),
        0x20_0000_0000_0001 * (2 * (whole * num) + num) >= 0x1f_ffff_ffff_ffff * (2 * area),
{
    let w = whole * num;
    assert(2 * (w * u) <= 2 * (num * v) + num * u && 2 * (w * u) + num * u >= 2 * (num * v))
        by (nonlinear_arith)
        requires
            2 * (whole * u) <= 2 * v + u,
            2 * (whole * u) + u > 2 * v,
            w == whole * num,
            num > 0,
    ;
    assert(0x1f_ffff_ffff_ffff * (2 * w - num) <= 0x20_0000_0000_0001 * (2 * area))
        by (nonlinear_arith)
        requires
            0x1f_ffff_ffff_ffff * (2 * (w * u) - num * u) <= 0x20_0000_0000_0001 * (2 * (area * u)),
            u > 0,
    ;
    assert(0x20_0000_0000_0001 * (2 * w + num) >= 0x1f_ffff_ffff_ffff * (2 * area))
        by (nonlinear_arith)
        requires
            0x20_0000_0000_0001 * (2 * (w * u) + num * u) >= 0x1f_ffff_ffff_ffff * (2 * (area * u)),
            u > 0,
    ;
}

/// The factor of an image that does not fit is close to the greater one of both ratios.
#[verifier::spinoff_prover]
proof fn lemma_factor(
    f: (nat, int),
    long: (nat, int),
    short: (nat, int),
    side: nat,
    limit: nat,
    other: nat,
    other_limit: nat,
)
    requires
        0 < limit < side,
        other_limit > 0,
        other * limit <= side * other_limit,
        f == long || f == short || f == (1nat, 0int),
        at_scale(f, 2000) >= at_scale(long, 2000),
        0x20_0000_0000_0000 * (limit * at_scale(long, 2000)) <= 0x20_0000_0000_0001 * (side * pow2(
            2000,
        )),
        0x20_0000_0000_0000 * (limit * at_scale(long, 2000)) >= 0x1f_ffff_ffff_ffff * (side * pow2(
            2000,
        )),
        0x20_0000_0000_0000 * (other_limit * at_scale(short, 2000)) <= 0x20_0000_0000_0001 * (other
            * pow2(2000)),
    ensures
        0x20_0000_0000_0000 * (limit * at_scale(f, 2000)) <= 0x20_0000_0000_0001 * (side * pow2(
            2000,
        )),
        0x20_0000_0000_0000 * (limit * at_scale(f, 2000)) >= 0x1f_ffff_ffff_ffff * (side * pow2(
            2000,
        )),
{
    let u = pow2(2000);
    let value = at_scale(f, 2000);
    let least = at_scale(long, 2000);
    assert(limit * value >= limit * least) by (nonlinear_arith)
        requires
            value >= least,
    ;
    if f == (1nat, 0int) {
        assert(value == u) by {
            assert(1 * u == u) by (nonlinear_arith);
        }
        assert(limit * u <= side * u) by (nonlinear_arith)
            requires
                limit < side,
                u >= 0,
        ;
    } else if f == short {
        assert(0x20_0000_0000_0000 * ((limit * value) * other_limit) <= 0x20_0000_0000_0001 * ((side
            * u) * other_limit)) by {
            let x = other_limit * value;
            let y = other * u;
            assert(limit * x == (limit * value) * other_limit) by (nonlinear_arith)
                requires
                    x == other_limit * value,
            ;
            assert(limit * y <= (side * u) * other_limit) by (nonlinear_arith)
                requires
                    y == other * u,
                    other * limit <= side * other_limit,
                    u >= 0,
            ;
            assert(0x20_0000_0000_0000 * (limit * x) <= 0x20_0000_0000_0001 * (limit * y))
                by (nonlinear_arith)
                requires
                    0x20_0000_0000_0000 * x <= 0x20_0000_0000_0001 * y,
                    limit > 0,
            ;
        }
        let x = limit * value;
        let y = side * u;
        assert(0x20_0000_0000_0000 * x <= 0x20_0000_0000_0001 * y) by (nonlinear_arith)
            requires
                0x20_0000_0000_0000 * (x * other_limit) <= 0x20_0000_0000_0001 * (y * other_limit),
                other_limit > 0,
        ;
    }
}

/// A ratio of a side to a monitor, as a multiple of `2^-2000`.
proof fn lemma_ratio(side: nat, monitor: nat)
    requires
        0 < side < 0x20_0000_0000_0000,
        0 < monitor <= u32::MAX,
    ensures
        ({
            let exact = rounded(Format::Double, side, 1, 0);
            let ratio = rounded(Format::Double, exact.0, monitor, exact.1);
            &&& 0 < ratio.0 <= 0x20_0000_0000_0000
            &&& -300 < ratio.1 <= 200
            &&& 0x20_0000_0000_0000 * (monitor * at_scale(ratio, 2000)) <= 0x20_0000_0000_0001
                * (side * pow2(2000))
            &&& 0x20_0000_0000_0000 * (monitor * at_scale(ratio, 2000)) >= 0x1f_ffff_ffff_ffff
                * (side * pow2(2000))
        }),
{
    lemma2_to64();
    lemma2_to64_rest();
    let exact = rounded(Format::Double, side, 1, 0);
    lemma_ratio_exponent(side, monitor);
    lemma_integers_are_exact(Format::Double, side, 2000);
    lemma_relative_error(Format::Double, exact.0, monitor, exact.1, 2000);
}

/// The side whose ratio to the monitor is the greater one takes up the monitor, and the other side
/// goes with it as it did before.
#[verifier::spinoff_prover]
proof fn lemma_shrunk_sides(
    f: (nat, int),
    side: nat,
    limit: nat,
    other: nat,
    other_limit: nat,
)
    requires
        0 < limit < side < 0x20_0000_0000_0000,
        limit <= u32::MAX,
        0 < other < 0x20_0000_0000_0000,
        0 < other_limit <= u32::MAX,
        other * limit <= side * other_limit,
        0 < f.0 <= 0x20_0000_0000_0000,
        -400 <= f.1 <= 200,
        0x20_0000_0000_0000 * (limit * at_scale(f, 2000)) <= 0x20_0000_0000_0001 * (side * pow2(
            2000,
        )),
        0x20_0000_0000_0000 * (limit * at_scale(f, 2000)) >= 0x1f_ffff_ffff_ffff * (side * pow2(
            2000,
        )),
    ensures
        fitted_side(side, f) == limit,
        fitted_side(other, f) == 1 || 0x4_0000 * (2 * (fitted_side(other, f) * side) - 2 * (limit
            * other) - side) <= side,
        0x4_0000 * (2 * (limit * other) - 2 * (fitted_side(other, f) * side) - side) <= side,
{
    lemma_shrunk(side, f, side, limit);
    lemma_shrunk(other, f, side, limit);
    let exact = rounded(Format::Double, side, 1, 0);
    let whole = nearest_integer(rounded(Format::Double, exact.0, f.0, exact.1 - f.1));
    assert(2 * (whole * side) - side == (2 * whole - 1) * side) by (nonlinear_arith);
    assert(2 * (whole * side) + side == (2 * whole + 1) * side) by (nonlinear_arith);
    assert(0x1f_ffff_ffff_ffff * (2 * whole - 1) <= 0x20_0000_0000_0001 * (2 * limit))
        by (nonlinear_arith)
        requires
            0x1f_ffff_ffff_ffff * ((2 * whole - 1) * side) <= 0x20_0000_0000_0001 * (2 * (limit
                * side)),
            side > 0,
    ;
    assert(0x20_0000_0000_0001 * (2 * whole + 1) >= 0x1f_ffff_ffff_ffff * (2 * limit))
        by (nonlinear_arith)
        requires
            0x20_0000_0000_0001 * ((2 * whole + 1) * side) >= 0x1f_ffff_ffff_ffff * (2 * (limit
                * side)),
            side > 0,
    ;
    assert(whole == limit);
    let area = limit * other;
    assert(area <= side * 0xffff_ffff) by (nonlinear_arith)
        requires
            area == limit * other,
            other * limit <= side * other_limit,
            other_limit <= 0xffff_ffff,
    ;
    let exact_other = rounded(Format::Double, other, 1, 0);
    let part = nearest_integer(
        rounded(Format::Double, exact_other.0, f.0, exact_other.1 - f.1),
    );
    assert(part == 0 ==> part * side == 0 && 1 * side == side) by (nonlinear_arith);
}

/// An image that does not fit on the monitor in the size that is asked for shrinks until it does,
/// and no further: the side that reaches over most takes up the monitor, and the other side keeps
/// the proportions to within a pixel.
#[verifier::spinoff_prover]
pub proof fn images_that_do_not_fit_shrink_to_the_monitor(
    monitor: (nat, nat),
    image: (nat, nat),
    width_percent: nat,
)
    requires
        0 < monitor.0 <= u32::MAX,
        0 < monitor.1 <= u32::MAX,
        width_percent <= u8::MAX,
        0 < requested_height(requested_width(monitor.0, width_percent), image)
            < 0x20_0000_0000_0000,
    ensures
        ({
            let wide = requested_width(monitor.0, width_percent);
            let high = requested_height(wide, image);
            let (width, height) = fitted_size(monitor, image, width_percent);
            &&& high > monitor.1 && wide * monitor.1 <= high * monitor.0 ==> {
                &&& height == monitor.1
                &&& width == 1 || 0x4_0000 * (2 * (width * high) - 2 * (monitor.1 * wide) - high)
                    <= high
                &&& 0x4_0000 * (2 * (monitor.1 * wide) - 2 * (width * high) - high) <= high
            }
            &&& wide > monitor.0 && high * monitor.0 <= wide * monitor.1 ==> {
                &&& width == monitor.0
                &&& height == 1 || 0x4_0000 * (2 * (height * wide) - 2 * (monitor.0 * high) - wide)
                    <= wide
                &&& 0x4_0000 * (2 * (monitor.0 * high) - 2 * (height * wide) - wide) <= wide
            }
        }),
{
    let wide = requested_width(monitor.0, width_percent);
    let high = requested_height(wide, image);
    assert(monitor.0 * width_percent <= 0xffff_ffff * 0xff) by (nonlinear_arith)
        requires
            monitor.0 <= 0xffff_ffff,
            width_percent <= 0xff,
    ;
    let exact_width = rounded(Format::Double, wide, 1, 0);
    let exact_height = rounded(Format::Double, high, 1, 0);
    let horizontal = rounded(Format::Double, exact_width.0, monitor.0, exact_width.1);
    let vertical = rounded(Format::Double, exact_height.0, monitor.1, exact_height.1);
    lemma_ratio(wide, monitor.0);
    lemma_ratio(high, monitor.1);
    let both = greater(horizontal, vertical);
    let one = (1nat, 0int);
    let f = fit_factor(monitor, (wide, high));
    assert(f == greater(both, one));
    lemma_at_most_at_scale(horizontal, vertical, 2000);
    lemma_at_most_at_scale(both, one, 2000);
    assert(at_scale(f, 2000) >= at_scale(horizontal, 2000));
    assert(at_scale(f, 2000) >= at_scale(vertical, 2000));
    if high > monitor.1 && wide * monitor.1 <= high * monitor.0 {
        lemma_factor(f, vertical, horizontal, high, monitor.1, wide, monitor.0);
        lemma_shrunk_sides(f, high, monitor.1, wide, monitor.0);
    }
    if wide > monitor.0 && high * monitor.0 <= wide * monitor.1 {
        lemma_factor(f, horizontal, vertical, wide, monitor.0, high, monitor.1);
        lemma_shrunk_sides(f, wide, monitor.0, high, monitor.1);
    }
}

} // verus!
